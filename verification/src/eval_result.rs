//! Evaluation results and errors, with their mathematical models.

use vstd::prelude::*;

use crate::ast::{Atom, AtomV, Node, NodeV, node_seq_view};
use crate::user_proc::{ProcV, UserProc};

verus! {

/// What evaluating a syntax node produces.
#[derive(Debug, PartialEq)]
pub enum EvalResult {
    Atom(Atom),
    QuoteAtom(Atom),
    QuoteList(Vec<Node>),
    Proc(UserProc),
}

/// Mathematical model of an evaluation result.
#[verifier::ext_equal]
pub enum ValueV {
    Atom(AtomV),
    QuoteAtom(AtomV),
    QuoteList(Seq<NodeV>),
    Proc(ProcV),
}

impl View for EvalResult {
    type V = ValueV;

    open spec fn view(&self) -> ValueV {
        match self {
            EvalResult::Atom(a) => ValueV::Atom(a@),
            EvalResult::QuoteAtom(a) => ValueV::QuoteAtom(a@),
            EvalResult::QuoteList(l) => ValueV::QuoteList(node_seq_view(l@)),
            EvalResult::Proc(p) => ValueV::Proc(p@),
        }
    }
}

/// Why an evaluation fails. Every failure propagates to the top-level
/// driver; no operation is retried.
#[derive(Debug, Clone, Copy, PartialEq, Eq)]
pub enum EvalErr {
    /// An empty list stood where a call form was expected.
    MissingProcedure,
    /// The head of a call form is not a symbol, or resolves to something
    /// unusable as a procedure.
    InvalidProcedureExpression,
    /// An operator symbol matches no catalogue and no definition.
    UnknownProcedure,
    /// An argument count does not match a procedure's fixed requirement.
    ArityMismatch,
    /// An argument's runtime tag does not match what an operator needs.
    TypeMismatch,
    /// A numeric or string fold received arguments of mixed atom kinds.
    HeterogeneousArguments,
    /// A `cond` clause is empty, not a list, or has `else` out of place.
    MalformedCond,
    /// Integer division or modulo by zero.
    DivisionByZero,
    /// Evaluation exceeded the caller's recursion allowance.
    DepthExceeded,
}

/// The model of an evaluation outcome.
pub open spec fn res_view(r: Result<EvalResult, EvalErr>) -> Result<ValueV, EvalErr> {
    match r {
        Ok(v) => Ok(v@),
        Err(e) => Err(e),
    }
}

/// The distinguished result of side-effecting forms such as `display`.
pub open spec fn void_v() -> ValueV {
    ValueV::QuoteAtom(AtomV::Symbol("<void>"@))
}

/// The sentinel void value.
pub fn make_void() -> (r: EvalResult)
    ensures
        r@ == void_v(),
{
    EvalResult::QuoteAtom(Atom::Symbol("<void>".to_owned()))
}

/// The one value that counts as false: the boolean false atom.
pub open spec fn is_false_v(v: ValueV) -> bool {
    v == ValueV::Atom(AtomV::Bool(false))
}

/// Whether an evaluation result is the boolean `false`.
pub fn eval_result_is_false(er: &EvalResult) -> (r: bool)
    ensures
        r == is_false_v(er@),
{
    match er {
        EvalResult::Atom(a) => match a {
            Atom::Bool(b) => !*b,
            _ => false,
        },
        _ => false,
    }
}

} // verus!
