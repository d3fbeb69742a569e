//! Laws of the evaluation semantics, proved once and for all against
//! the spec-level interpreter.

use vstd::prelude::*;

use crate::ast::{AtomV, NodeV};
use crate::eval_result::{EvalErr, ValueV, is_false_v};
use crate::procs::GenericProcs;
use crate::semantics::{StateV, s_eval_node, s_generic};

verus! {

/// Quoted data is inert: evaluating a `QuoteAtom` or `QuoteList` node
/// returns it unchanged and leaves the state untouched, so evaluating
/// it twice yields structurally equal results with no side effects.
pub proof fn lemma_quote_idempotent(st: StateV, n: NodeV, fuel: nat)
    requires
        fuel >= 1,
        n is QuoteAtom || n is QuoteList,
    ensures
        ({
            let (r1, st1) = s_eval_node(st, n, fuel);
            let (r2, st2) = s_eval_node(st1, n, fuel);
            &&& st1 == st
            &&& st2 == st
            &&& r1 == r2
            &&& r1 matches Ok(v)
            &&& (n matches NodeV::QuoteAtom(a) ==> r1 == Ok::<ValueV, EvalErr>(
                ValueV::QuoteAtom(a),
            ))
            &&& (n matches NodeV::QuoteList(l) ==> r1 == Ok::<ValueV, EvalErr>(
                ValueV::QuoteList(l),
            ))
        }),
{
}

/// The branch an `if` does not take is never evaluated: when the test
/// evaluates to a non-false value, the `else` expression is irrelevant
/// to the outcome.
pub proof fn lemma_if_true_ignores_else(
    st: StateV,
    test: NodeV,
    then_n: NodeV,
    else_a: NodeV,
    else_b: NodeV,
    fuel: nat,
)
    requires
        fuel >= 1,
        ({
            let (r, st2) = s_eval_node(st, test, (fuel - 1) as nat);
            r matches Ok(v) && !is_false_v(v)
        }),
    ensures
        s_generic(st, GenericProcs::If, seq![test, then_n, else_a], fuel) == s_generic(
            st,
            GenericProcs::If,
            seq![test, then_n, else_b],
            fuel,
        ),
{
    let args_a = seq![test, then_n, else_a];
    let args_b = seq![test, then_n, else_b];
    assert(args_a[0] == test && args_a[1] == then_n);
    assert(args_b[0] == test && args_b[1] == then_n);
}

/// The branch an `if` does not take is never evaluated: when the test
/// evaluates to false, the `then` expression is irrelevant to the
/// outcome.
pub proof fn lemma_if_false_ignores_then(
    st: StateV,
    test: NodeV,
    then_a: NodeV,
    then_b: NodeV,
    else_n: NodeV,
    fuel: nat,
)
    requires
        fuel >= 1,
        ({
            let (r, st2) = s_eval_node(st, test, (fuel - 1) as nat);
            r matches Ok(v) && is_false_v(v)
        }),
    ensures
        s_generic(st, GenericProcs::If, seq![test, then_a, else_n], fuel) == s_generic(
            st,
            GenericProcs::If,
            seq![test, then_b, else_n],
            fuel,
        ),
{
    let args_a = seq![test, then_a, else_n];
    let args_b = seq![test, then_b, else_n];
    assert(args_a[0] == test && args_a[2] == else_n);
    assert(args_b[0] == test && args_b[2] == else_n);
}

} // verus!
