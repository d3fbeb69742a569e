//! The spec-level interpreter: a mathematical account of evaluation.
//! Every executable evaluator function is proved to agree with the
//! `s_*` function of the same shape, step for step.
//!
//! Evaluation is given a recursion allowance (`fuel`): each nested
//! evaluation step spends one unit, and running out is the explicit
//! `DepthExceeded` outcome, standing for the host-stack limit of an
//! unbounded evaluator.

use vstd::prelude::*;

use crate::ast::{AtomV, NodeV};
use crate::eval_result::{EvalErr, ValueV, void_v, is_false_v};
use crate::numtext::{dec_digits, i32_text};
use crate::procs::{GenericProcs, NumericProcs, StringProcs, generic_proc_of, numeric_proc_of,
    string_proc_of};
use crate::user_proc::ProcV;

verus! {

/// The interpreter state: the definitions table and the text written by
/// `display`, in order.
#[verifier::ext_equal]
pub struct StateV {
    pub defs: Map<Seq<char>, NodeV>,
    pub out: Seq<Seq<char>>,
}

/// 32-bit addition with wrap-around.
pub open spec fn wrap_add(a: i32, b: i32) -> i32 {
    vstd::wrapping::i32_specs::wrapping_add(a, b)
}

/// 32-bit subtraction with wrap-around.
pub open spec fn wrap_sub(a: i32, b: i32) -> i32 {
    vstd::wrapping::i32_specs::wrapping_sub(a, b)
}

/// 32-bit multiplication with wrap-around.
pub open spec fn wrap_mul(a: i32, b: i32) -> i32 {
    vstd::wrapping::i32_specs::wrapping_mul(a, b)
}

/// 32-bit negation with wrap-around.
pub open spec fn wrap_neg(a: i32) -> i32 {
    if a == i32::MIN {
        i32::MIN
    } else {
        (-(a as int)) as i32
    }
}

/// Division truncating toward zero, as the machine divides.
pub open spec fn trunc_div(a: int, b: int) -> int {
    let q = (if a >= 0 {
        a
    } else {
        -a
    }) / (if b >= 0 {
        b
    } else {
        -b
    });
    if (a >= 0) == (b >= 0) {
        q
    } else {
        -q
    }
}

/// The remainder belonging to `trunc_div`: it takes the dividend's sign.
pub open spec fn trunc_rem(a: int, b: int) -> int {
    a - b * trunc_div(a, b)
}

/// 32-bit division: truncating, with the one wrapping case.
pub open spec fn div_wrap(a: i32, b: i32) -> i32 {
    if a == i32::MIN && b == -1 {
        i32::MIN
    } else {
        trunc_div(a as int, b as int) as i32
    }
}

/// 32-bit remainder: truncating, with the one wrapping case.
pub open spec fn rem_wrap(a: i32, b: i32) -> i32 {
    if a == i32::MIN && b == -1 {
        0
    } else {
        trunc_rem(a as int, b as int) as i32
    }
}

/// Left fold of wrapping addition.
pub open spec fn s_fold_add(acc: i32, rest: Seq<i32>) -> i32
    decreases rest.len(),
{
    if rest.len() == 0 {
        acc
    } else {
        s_fold_add(wrap_add(acc, rest[0]), rest.subrange(1, rest.len() as int))
    }
}

/// Left fold of wrapping multiplication.
pub open spec fn s_fold_mul(acc: i32, rest: Seq<i32>) -> i32
    decreases rest.len(),
{
    if rest.len() == 0 {
        acc
    } else {
        s_fold_mul(wrap_mul(acc, rest[0]), rest.subrange(1, rest.len() as int))
    }
}

/// Left fold of wrapping subtraction.
pub open spec fn s_fold_sub(acc: i32, rest: Seq<i32>) -> i32
    decreases rest.len(),
{
    if rest.len() == 0 {
        acc
    } else {
        s_fold_sub(wrap_sub(acc, rest[0]), rest.subrange(1, rest.len() as int))
    }
}

/// Left fold of division; a zero divisor fails.
pub open spec fn s_fold_div(acc: i32, rest: Seq<i32>) -> Result<i32, EvalErr>
    decreases rest.len(),
{
    if rest.len() == 0 {
        Ok(acc)
    } else if rest[0] == 0 {
        Err(EvalErr::DivisionByZero)
    } else {
        s_fold_div(div_wrap(acc, rest[0]), rest.subrange(1, rest.len() as int))
    }
}

/// Left fold of string concatenation.
pub open spec fn s_fold_concat(acc: Seq<char>, rest: Seq<Seq<char>>) -> Seq<char>
    decreases rest.len(),
{
    if rest.len() == 0 {
        acc
    } else {
        s_fold_concat(acc + rest[0], rest.subrange(1, rest.len() as int))
    }
}

/// Position of the first parameter with this name, if any.
pub open spec fn param_index(params: Seq<Seq<char>>, sym: Seq<char>) -> Option<int>
    decreases params.len(),
{
    if params.len() == 0 {
        None
    } else if params[0] == sym {
        Some(0)
    } else {
        match param_index(params.subrange(1, params.len() as int), sym) {
            Some(i) => Some(i + 1),
            None => None,
        }
    }
}

/// Substitution of call-site argument syntax for parameter symbols:
/// matching symbols are replaced, lists are entered, and quoted forms
/// are left untouched.
pub open spec fn subst_node(params: Seq<Seq<char>>, args: Seq<NodeV>, n: NodeV) -> NodeV
    decreases n,
{
    match n {
        NodeV::Atom(a) => match a {
            AtomV::Symbol(sym) => match param_index(params, sym) {
                Some(i) => if 0 <= i < args.len() {
                    args[i]
                } else {
                    n
                },
                None => n,
            },
            _ => n,
        },
        NodeV::List(l) => NodeV::List(subst_seq(params, args, l)),
        NodeV::QuoteList(l) => n,
        NodeV::QuoteAtom(a) => n,
    }
}

/// Substitution across a node sequence.
pub open spec fn subst_seq(params: Seq<Seq<char>>, args: Seq<NodeV>, l: Seq<NodeV>) -> Seq<NodeV>
    decreases l,
{
    if l.len() == 0 {
        Seq::empty()
    } else {
        seq![subst_node(params, args, l[0])] + subst_seq(params, args, l.subrange(1, l.len() as int))
    }
}

/// One mixing step of the structural hash, over 64 bits.
pub open spec fn mix64(h: int, d: int) -> int {
    (h * 31 + d) % 0x1_0000_0000_0000_0000
}

/// Hash of a character sequence.
pub open spec fn hash_chars(h: int, s: Seq<char>) -> int
    decreases s.len(),
{
    if s.len() == 0 {
        mix64(h, 0)
    } else {
        hash_chars(mix64(h, (s[0] as u32) as int), s.subrange(1, s.len() as int))
    }
}

/// Hash of an atom.
pub open spec fn hash_atom(h: int, a: AtomV) -> int {
    match a {
        AtomV::Num(n) => mix64(mix64(h, 5), n as int - i32::MIN as int),
        AtomV::Symbol(s) => hash_chars(mix64(h, 6), s),
        AtomV::Str(s) => hash_chars(mix64(h, 7), s),
        AtomV::Bool(b) => mix64(h, if b {
            8
        } else {
            9
        }),
    }
}

/// Hash of a node.
pub open spec fn hash_node(h: int, n: NodeV) -> int
    decreases n,
{
    match n {
        NodeV::Atom(a) => hash_atom(mix64(h, 1), a),
        NodeV::List(l) => hash_nodes(mix64(h, 2), l),
        NodeV::QuoteList(l) => hash_nodes(mix64(h, 3), l),
        NodeV::QuoteAtom(a) => hash_atom(mix64(h, 4), a),
    }
}

/// Hash of a node sequence.
pub open spec fn hash_nodes(h: int, l: Seq<NodeV>) -> int
    decreases l,
{
    if l.len() == 0 {
        mix64(h, 10)
    } else {
        hash_nodes(hash_node(h, l[0]), l.subrange(1, l.len() as int))
    }
}

/// Hash of a parameter-name list.
pub open spec fn hash_strs(h: int, ss: Seq<Seq<char>>) -> int
    decreases ss.len(),
{
    if ss.len() == 0 {
        mix64(h, 11)
    } else {
        hash_strs(hash_chars(h, ss[0]), ss.subrange(1, ss.len() as int))
    }
}

/// The structural identity of a procedure: a content hash over its
/// parameter names and body. Structurally identical procedures hash,
/// and so display, identically.
pub open spec fn proc_hash(p: ProcV) -> int {
    hash_nodes(hash_strs(12, p.params), p.body)
}

/// The display text of an atom.
pub open spec fn atom_text(a: AtomV) -> Seq<char> {
    match a {
        AtomV::Num(n) => i32_text(n),
        AtomV::Symbol(s) => s,
        AtomV::Str(s) => s,
        AtomV::Bool(b) => if b {
            "true"@
        } else {
            "false"@
        },
    }
}

/// Evaluation of one node.
pub open spec fn s_eval_node(st: StateV, n: NodeV, fuel: nat) -> (Result<ValueV, EvalErr>, StateV)
    decreases fuel,
{
    if fuel == 0 {
        (Err(EvalErr::DepthExceeded), st)
    } else {
        match n {
            NodeV::Atom(a) => s_eval_atom(st, a, (fuel - 1) as nat),
            NodeV::List(l) => s_eval_list(st, l, (fuel - 1) as nat),
            NodeV::QuoteList(ql) => (Ok(ValueV::QuoteList(ql)), st),
            NodeV::QuoteAtom(qa) => (Ok(ValueV::QuoteAtom(qa)), st),
        }
    }
}

/// Evaluation of one atom: a bound symbol evaluates its definition;
/// everything else, an unbound symbol included, is itself.
pub open spec fn s_eval_atom(st: StateV, a: AtomV, fuel: nat) -> (Result<ValueV, EvalErr>, StateV)
    decreases fuel,
{
    if fuel == 0 {
        (Err(EvalErr::DepthExceeded), st)
    } else {
        match a {
            AtomV::Symbol(sym) => if st.defs.contains_key(sym) {
                s_eval_node(st, st.defs[sym], (fuel - 1) as nat)
            } else {
                (Ok(ValueV::Atom(a)), st)
            },
            _ => (Ok(ValueV::Atom(a)), st),
        }
    }
}

/// Evaluation of a call form: the head picks the procedure, the rest
/// are its arguments.
pub open spec fn s_eval_list(st: StateV, l: Seq<NodeV>, fuel: nat) -> (
    Result<ValueV, EvalErr>,
    StateV,
)
    decreases fuel,
{
    if fuel == 0 {
        (Err(EvalErr::DepthExceeded), st)
    } else if l.len() == 0 {
        (Err(EvalErr::MissingProcedure), st)
    } else {
        let args = l.subrange(1, l.len() as int);
        match l[0] {
            NodeV::Atom(a) => s_eval_with_atom(st, a, args, (fuel - 1) as nat),
            NodeV::QuoteAtom(a) => s_eval_with_atom(st, a, args, (fuel - 1) as nat),
            NodeV::List(l2) => {
                let (r, st2) = s_eval_list(st, l2, (fuel - 1) as nat);
                match r {
                    Err(e) => (Err(e), st2),
                    Ok(v) => match v {
                        ValueV::Atom(a) => s_eval_with_atom(st2, a, args, (fuel - 1) as nat),
                        ValueV::Proc(p) => s_apply(st2, p, args, (fuel - 1) as nat),
                        _ => (Err(EvalErr::InvalidProcedureExpression), st2),
                    },
                }
            },
            NodeV::QuoteList(_) => (Err(EvalErr::InvalidProcedureExpression), st),
        }
    }
}

/// A head atom must be a symbol to select a procedure.
pub open spec fn s_eval_with_atom(st: StateV, a: AtomV, args: Seq<NodeV>, fuel: nat) -> (
    Result<ValueV, EvalErr>,
    StateV,
)
    decreases fuel,
{
    if fuel == 0 {
        (Err(EvalErr::DepthExceeded), st)
    } else {
        match a {
            AtomV::Symbol(sym) => s_dispatch(st, sym, args, (fuel - 1) as nat),
            _ => (Err(EvalErr::InvalidProcedureExpression), st),
        }
    }
}

/// Operator resolution: numeric, then string, then generic catalogue,
/// then the definitions table; otherwise the operator is unknown.
pub open spec fn s_dispatch(st: StateV, sym: Seq<char>, args: Seq<NodeV>, fuel: nat) -> (
    Result<ValueV, EvalErr>,
    StateV,
)
    decreases fuel,
{
    if fuel == 0 {
        (Err(EvalErr::DepthExceeded), st)
    } else {
        if numeric_proc_of(sym) is Some {
            s_numeric(st, numeric_proc_of(sym).unwrap(), args, (fuel - 1) as nat)
        } else if string_proc_of(sym) is Some {
            s_string(st, string_proc_of(sym).unwrap(), args, (fuel - 1) as nat)
        } else if generic_proc_of(sym) is Some {
            s_generic(st, generic_proc_of(sym).unwrap(), args, (fuel - 1) as nat)
        } else if st.defs.contains_key(sym) {
            let (r, st2) = s_eval_node(st, st.defs[sym], (fuel - 1) as nat);
            match r {
                Err(e) => (Err(e), st2),
                Ok(v) => match v {
                    ValueV::Proc(p) => s_apply(st2, p, args, (fuel - 1) as nat),
                    _ => (Err(EvalErr::InvalidProcedureExpression), st2),
                },
            }
        } else {
            (Err(EvalErr::UnknownProcedure), st)
        }
    }
}

/// Arguments of a numeric fold: each must evaluate to a number. The
/// first argument fixes the expected kind; a later argument of another
/// atom kind is a heterogeneity error.
pub open spec fn s_eval_nums(st: StateV, args: Seq<NodeV>, first: bool, fuel: nat) -> (
    Result<Seq<i32>, EvalErr>,
    StateV,
)
    decreases fuel,
{
    if fuel == 0 {
        (Err(EvalErr::DepthExceeded), st)
    } else if args.len() == 0 {
        (Ok(Seq::empty()), st)
    } else {
        let (r, st2) = s_eval_node(st, args[0], (fuel - 1) as nat);
        match r {
            Err(e) => (Err(e), st2),
            Ok(v) => match v {
                ValueV::Atom(AtomV::Num(n)) => {
                    let (rr, st3) = s_eval_nums(
                        st2,
                        args.subrange(1, args.len() as int),
                        false,
                        (fuel - 1) as nat,
                    );
                    match rr {
                        Ok(rest) => (Ok(seq![n] + rest), st3),
                        Err(e) => (Err(e), st3),
                    }
                },
                ValueV::Atom(_) => if first {
                    (Err(EvalErr::TypeMismatch), st2)
                } else {
                    (Err(EvalErr::HeterogeneousArguments), st2)
                },
                _ => (Err(EvalErr::TypeMismatch), st2),
            },
        }
    }
}

/// Arguments of a string fold: each must evaluate to a string.
pub open spec fn s_eval_strs(st: StateV, args: Seq<NodeV>, first: bool, fuel: nat) -> (
    Result<Seq<Seq<char>>, EvalErr>,
    StateV,
)
    decreases fuel,
{
    if fuel == 0 {
        (Err(EvalErr::DepthExceeded), st)
    } else if args.len() == 0 {
        (Ok(Seq::empty()), st)
    } else {
        let (r, st2) = s_eval_node(st, args[0], (fuel - 1) as nat);
        match r {
            Err(e) => (Err(e), st2),
            Ok(v) => match v {
                ValueV::Atom(AtomV::Str(s)) => {
                    let (rr, st3) = s_eval_strs(
                        st2,
                        args.subrange(1, args.len() as int),
                        false,
                        (fuel - 1) as nat,
                    );
                    match rr {
                        Ok(rest) => (Ok(seq![s] + rest), st3),
                        Err(e) => (Err(e), st3),
                    }
                },
                ValueV::Atom(_) => if first {
                    (Err(EvalErr::TypeMismatch), st2)
                } else {
                    (Err(EvalErr::HeterogeneousArguments), st2)
                },
                _ => (Err(EvalErr::TypeMismatch), st2),
            },
        }
    }
}

/// A numeric procedure: zero-argument and unary special cases exactly
/// as the catalogue fixes them, otherwise a left fold.
pub open spec fn s_numeric(st: StateV, p: NumericProcs, args: Seq<NodeV>, fuel: nat) -> (
    Result<ValueV, EvalErr>,
    StateV,
)
    decreases fuel,
{
    if fuel == 0 {
        (Err(EvalErr::DepthExceeded), st)
    } else if p is Sum && args.len() == 0 {
        (Ok(ValueV::Atom(AtomV::Num(0))), st)
    } else if p is Mult && args.len() == 0 {
        (Ok(ValueV::Atom(AtomV::Num(1))), st)
    } else if args.len() == 0 {
        (Err(EvalErr::ArityMismatch), st)
    } else if p is Modulo && args.len() != 2 {
        (Err(EvalErr::ArityMismatch), st)
    } else {
        let (r, st2) = s_eval_nums(st, args, true, (fuel - 1) as nat);
        match r {
            Err(e) => (Err(e), st2),
            Ok(nums) => {
                let rest = nums.subrange(1, nums.len() as int);
                match p {
                    NumericProcs::Sum => (Ok(ValueV::Atom(AtomV::Num(s_fold_add(nums[0], rest)))), st2),
                    NumericProcs::Mult => (Ok(ValueV::Atom(AtomV::Num(s_fold_mul(nums[0], rest)))), st2),
                    NumericProcs::Subtract => if nums.len() == 1 {
                        (Ok(ValueV::Atom(AtomV::Num(wrap_neg(nums[0])))), st2)
                    } else {
                        (Ok(ValueV::Atom(AtomV::Num(s_fold_sub(nums[0], rest)))), st2)
                    },
                    NumericProcs::Div => if nums.len() == 1 {
                        if nums[0] == 0 {
                            (Err(EvalErr::DivisionByZero), st2)
                        } else {
                            (Ok(ValueV::Atom(AtomV::Num(div_wrap(1, nums[0])))), st2)
                        }
                    } else {
                        match s_fold_div(nums[0], rest) {
                            Ok(n) => (Ok(ValueV::Atom(AtomV::Num(n))), st2),
                            Err(e) => (Err(e), st2),
                        }
                    },
                    NumericProcs::Modulo => if nums[1] == 0 {
                        (Err(EvalErr::DivisionByZero), st2)
                    } else {
                        (Ok(ValueV::Atom(AtomV::Num(rem_wrap(nums[0], nums[1])))), st2)
                    },
                }
            },
        }
    }
}

/// A string procedure: `string-append` with its single-argument quirk.
pub open spec fn s_string(st: StateV, p: StringProcs, args: Seq<NodeV>, fuel: nat) -> (
    Result<ValueV, EvalErr>,
    StateV,
)
    decreases fuel,
{
    if fuel == 0 {
        (Err(EvalErr::DepthExceeded), st)
    } else if args.len() == 0 {
        (Err(EvalErr::ArityMismatch), st)
    } else if args.len() == 1 {
        (Ok(ValueV::Atom(AtomV::Str(Seq::empty()))), st)
    } else {
        let (r, st2) = s_eval_strs(st, args, true, (fuel - 1) as nat);
        match r {
            Err(e) => (Err(e), st2),
            Ok(strs) => (
                Ok(
                    ValueV::Atom(
                        AtomV::Str(s_fold_concat(strs[0], strs.subrange(1, strs.len() as int))),
                    ),
                ),
                st2,
            ),
        }
    }
}

/// `and`: arguments evaluate left to right; the first false value
/// short-circuits; otherwise the last value (or true with none).
pub open spec fn s_and(st: StateV, args: Seq<NodeV>, fuel: nat) -> (Result<ValueV, EvalErr>, StateV)
    decreases fuel,
{
    if fuel == 0 {
        (Err(EvalErr::DepthExceeded), st)
    } else if args.len() == 0 {
        (Ok(ValueV::Atom(AtomV::Bool(true))), st)
    } else {
        let (r, st2) = s_eval_node(st, args[0], (fuel - 1) as nat);
        match r {
            Err(e) => (Err(e), st2),
            Ok(v) => if is_false_v(v) {
                (Ok(ValueV::Atom(AtomV::Bool(false))), st2)
            } else if args.len() == 1 {
                (Ok(v), st2)
            } else {
                s_and(st2, args.subrange(1, args.len() as int), (fuel - 1) as nat)
            },
        }
    }
}

/// `or`: arguments evaluate left to right; the first non-false value is
/// returned; otherwise false.
pub open spec fn s_or(st: StateV, args: Seq<NodeV>, fuel: nat) -> (Result<ValueV, EvalErr>, StateV)
    decreases fuel,
{
    if fuel == 0 {
        (Err(EvalErr::DepthExceeded), st)
    } else if args.len() == 0 {
        (Ok(ValueV::Atom(AtomV::Bool(false))), st)
    } else {
        let (r, st2) = s_eval_node(st, args[0], (fuel - 1) as nat);
        match r {
            Err(e) => (Err(e), st2),
            Ok(v) => if !is_false_v(v) {
                (Ok(v), st2)
            } else {
                s_or(st2, args.subrange(1, args.len() as int), (fuel - 1) as nat)
            },
        }
    }
}

/// Evaluation of a body: every form in order, the last one's value.
pub open spec fn s_eval_body_last(st: StateV, body: Seq<NodeV>, fuel: nat) -> (
    Result<ValueV, EvalErr>,
    StateV,
)
    decreases fuel,
{
    if fuel == 0 {
        (Err(EvalErr::DepthExceeded), st)
    } else if body.len() == 0 {
        (Err(EvalErr::InvalidProcedureExpression), st)
    } else {
        let (r, st2) = s_eval_node(st, body[0], (fuel - 1) as nat);
        match r {
            Err(e) => (Err(e), st2),
            Ok(v) => if body.len() == 1 {
                (Ok(v), st2)
            } else {
                s_eval_body_last(st2, body.subrange(1, body.len() as int), (fuel - 1) as nat)
            },
        }
    }
}

/// A `cond` clause's required shape: a non-empty list.
pub open spec fn clause_wf(n: NodeV) -> bool {
    match n {
        NodeV::List(cl) => cl.len() > 0,
        _ => false,
    }
}

/// Every clause has the required shape. This is checked up front,
/// before any clause is scanned or any test evaluated.
pub open spec fn clauses_wellformed(clauses: Seq<NodeV>) -> bool {
    forall|i: int| 0 <= i < clauses.len() ==> clause_wf(#[trigger] clauses[i])
}

/// `cond` clause scanning: every clause must be a non-empty list,
/// checked before scanning begins; `else` must be last and evaluates
/// its body; a true test evaluates the clause body, a bare true test
/// gives void; no match gives void.
pub open spec fn s_cond(st: StateV, clauses: Seq<NodeV>, fuel: nat) -> (
    Result<ValueV, EvalErr>,
    StateV,
)
    decreases fuel,
{
    if fuel == 0 {
        (Err(EvalErr::DepthExceeded), st)
    } else if !clauses_wellformed(clauses) {
        (Err(EvalErr::MalformedCond), st)
    } else if clauses.len() == 0 {
        (Ok(void_v()), st)
    } else {
        match clauses[0] {
            NodeV::List(cl) => if cl[0] == NodeV::Atom(AtomV::Symbol("else"@)) {
                if clauses.len() != 1 {
                    (Err(EvalErr::MalformedCond), st)
                } else if cl.len() == 1 {
                    (Err(EvalErr::MalformedCond), st)
                } else {
                    s_eval_body_last(st, cl.subrange(1, cl.len() as int), (fuel - 1) as nat)
                }
            } else {
                let (r, st2) = s_eval_node(st, cl[0], (fuel - 1) as nat);
                match r {
                    Err(e) => (Err(e), st2),
                    Ok(v) => if is_false_v(v) {
                        s_cond(st2, clauses.subrange(1, clauses.len() as int), (fuel - 1) as nat)
                    } else if cl.len() == 1 {
                        (Ok(void_v()), st2)
                    } else {
                        s_eval_body_last(st2, cl.subrange(1, cl.len() as int), (fuel - 1) as nat)
                    },
                }
            },
            _ => (Err(EvalErr::MalformedCond), st),
        }
    }
}

/// The display text of a value. A quoted list shows the evaluation of
/// its first element only (an explicit quirk), so rendering can itself
/// evaluate; a procedure shows its structural hash.
pub open spec fn s_render(st: StateV, v: ValueV, fuel: nat) -> (Result<Seq<char>, EvalErr>, StateV)
    decreases fuel,
{
    if fuel == 0 {
        (Err(EvalErr::DepthExceeded), st)
    } else {
        match v {
            ValueV::Atom(a) => (Ok(atom_text(a)), st),
            ValueV::QuoteAtom(a) => (Ok(atom_text(a)), st),
            ValueV::QuoteList(ql) => if ql.len() == 0 {
                (Ok(Seq::empty()), st)
            } else {
                let (r, st2) = s_eval_node(st, ql[0], (fuel - 1) as nat);
                match r {
                    Err(e) => (Err(e), st2),
                    Ok(v2) => s_render(st2, v2, (fuel - 1) as nat),
                }
            },
            ValueV::Proc(p) => (Ok("procedure:"@ + dec_digits(proc_hash(p))), st),
        }
    }
}

/// A generic (control-flow) procedure.
pub open spec fn s_generic(st: StateV, p: GenericProcs, args: Seq<NodeV>, fuel: nat) -> (
    Result<ValueV, EvalErr>,
    StateV,
)
    decreases fuel,
{
    if fuel == 0 {
        (Err(EvalErr::DepthExceeded), st)
    } else {
        match p {
            GenericProcs::And => s_and(st, args, (fuel - 1) as nat),
            GenericProcs::Or => s_or(st, args, (fuel - 1) as nat),
            GenericProcs::If => if args.len() != 3 {
                (Err(EvalErr::ArityMismatch), st)
            } else {
                let (r, st2) = s_eval_node(st, args[0], (fuel - 1) as nat);
                match r {
                    Err(e) => (Err(e), st2),
                    Ok(v) => if is_false_v(v) {
                        s_eval_node(st2, args[2], (fuel - 1) as nat)
                    } else {
                        s_eval_node(st2, args[1], (fuel - 1) as nat)
                    },
                }
            },
            GenericProcs::Not => if args.len() != 1 {
                (Err(EvalErr::ArityMismatch), st)
            } else {
                let (r, st2) = s_eval_node(st, args[0], (fuel - 1) as nat);
                match r {
                    Err(e) => (Err(e), st2),
                    Ok(v) => (Ok(ValueV::Atom(AtomV::Bool(is_false_v(v)))), st2),
                }
            },
            GenericProcs::Display => if args.len() != 1 {
                (Err(EvalErr::ArityMismatch), st)
            } else {
                let (r, st2) = s_eval_node(st, args[0], (fuel - 1) as nat);
                match r {
                    Err(e) => (Err(e), st2),
                    Ok(v) => {
                        let (rt, st3) = s_render(st2, v, (fuel - 1) as nat);
                        match rt {
                            Err(e) => (Err(e), st3),
                            Ok(text) => (
                                Ok(void_v()),
                                StateV { out: st3.out.push(text), ..st3 },
                            ),
                        }
                    },
                }
            },
            GenericProcs::Cond => s_cond(st, args, (fuel - 1) as nat),
            GenericProcs::IsPositive => if args.len() != 1 {
                (Err(EvalErr::ArityMismatch), st)
            } else {
                let (r, st2) = s_eval_node(st, args[0], (fuel - 1) as nat);
                match r {
                    Err(e) => (Err(e), st2),
                    Ok(v) => match v {
                        ValueV::Atom(AtomV::Num(n)) => (
                            Ok(ValueV::Atom(AtomV::Bool(n > 0))),
                            st2,
                        ),
                        _ => (Err(EvalErr::TypeMismatch), st2),
                    },
                }
            },
            GenericProcs::IsZero => if args.len() != 1 {
                (Err(EvalErr::ArityMismatch), st)
            } else {
                let (r, st2) = s_eval_node(st, args[0], (fuel - 1) as nat);
                match r {
                    Err(e) => (Err(e), st2),
                    Ok(v) => match v {
                        ValueV::Atom(AtomV::Num(n)) => (
                            Ok(ValueV::Atom(AtomV::Bool(n == 0))),
                            st2,
                        ),
                        _ => (Err(EvalErr::TypeMismatch), st2),
                    },
                }
            },
            GenericProcs::Define => if args.len() != 2 {
                (Err(EvalErr::ArityMismatch), st)
            } else {
                match args[0] {
                    NodeV::Atom(AtomV::Symbol(sym)) => (
                        Ok(void_v()),
                        StateV { defs: st.defs.insert(sym, args[1]), ..st },
                    ),
                    _ => (Err(EvalErr::TypeMismatch), st),
                }
            },
        }
    }
}

/// Application of a user procedure: the arity must match, then the
/// argument syntax is substituted through the body, which evaluates in
/// order to its last form's value.
pub open spec fn s_apply(st: StateV, p: ProcV, args: Seq<NodeV>, fuel: nat) -> (
    Result<ValueV, EvalErr>,
    StateV,
)
    decreases fuel,
{
    if fuel == 0 {
        (Err(EvalErr::DepthExceeded), st)
    } else if args.len() != p.params.len() {
        (Err(EvalErr::ArityMismatch), st)
    } else {
        s_eval_body_last(st, subst_seq(p.params, args, p.body), (fuel - 1) as nat)
    }
}

/// A whole program: each top-level form evaluates in order, each with
/// the full recursion allowance; every outcome is collected.
pub open spec fn s_run_program(st: StateV, forms: Seq<Seq<NodeV>>, fuel: nat) -> (
    Seq<Result<ValueV, EvalErr>>,
    StateV,
)
    decreases forms.len(),
{
    if forms.len() == 0 {
        (Seq::empty(), st)
    } else {
        let (r, st2) = s_eval_list(st, forms[0], fuel);
        let (rest, st3) = s_run_program(st2, forms.subrange(1, forms.len() as int), fuel);
        (seq![r] + rest, st3)
    }
}

} // verus!
