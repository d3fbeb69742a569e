//! The evaluator: the interpreter state (definitions table and display
//! output) and the recursive dispatcher, each function proved to match
//! the spec-level interpreter in `semantics`.

use vstd::prelude::*;

use crate::ast::{Atom, Node, NodeV, atom_dup, node_dup, nodes_dup, nodes_view, node_seq_view,
    lemma_node_seq_view};
use crate::eval_result::{EvalErr, EvalResult, ValueV, make_void, eval_result_is_false, res_view};
use crate::numtext::i32_text_exec;
use crate::procs::{GenericProcs, NumericProcs, StringProcs};
use crate::procs_impl::{chars_to_string, fold_add_exec, fold_mul_exec, fold_sub_exec,
    fold_div_exec, fold_concat_exec, div_wrap_exec, rem_wrap_exec, wrap_neg_exec, proc_hash_exec,
    str_chars_exec, subst_nodes_exec};
use crate::semantics::{StateV, s_eval_node, s_eval_atom, s_eval_list, s_eval_with_atom,
    s_dispatch, s_eval_nums, s_eval_strs, s_numeric, s_string, s_generic, s_and, s_or, s_cond,
    s_eval_body_last, s_apply, s_render, s_run_program};
use crate::user_proc::{UserProc, strs_view};
use crate::util::str_eq;

verus! {

/// The model of a definitions list: later entries win.
pub open spec fn entries_map(s: Seq<(String, Node)>) -> Map<Seq<char>, NodeV>
    decreases s.len(),
{
    if s.len() == 0 {
        Map::empty()
    } else {
        entries_map(s.drop_last()).insert(s.last().0@, s.last().1@)
    }
}

/// Entries whose keys all differ from `k` do not affect the map at `k`.
proof fn lemma_entries_map_suffix(s: Seq<(String, Node)>, i: int, k: Seq<char>)
    requires
        0 <= i <= s.len(),
        forall|j: int| i <= j < s.len() ==> (#[trigger] s[j]).0@ != k,
    ensures
        entries_map(s).contains_key(k) == entries_map(s.subrange(0, i)).contains_key(k),
        entries_map(s).contains_key(k) ==> entries_map(s)[k] == entries_map(s.subrange(0, i))[k],
    decreases s.len() - i,
{
    if i < s.len() {
        assert(s.drop_last() =~= s.subrange(0, s.len() - 1));
        lemma_entries_map_suffix(s.subrange(0, s.len() - 1), i, k);
        assert(s.subrange(0, s.len() - 1).subrange(0, i) =~= s.subrange(0, i));
    } else {
        assert(s.subrange(0, i) =~= s);
    }
}

/// The interpreter state: the definitions table, populated by `define`,
/// and the text that `display` has written, in order.
pub struct Interp {
    defs: Vec<(String, Node)>,
    out: Vec<String>,
}

impl View for Interp {
    type V = StateV;

    closed spec fn view(&self) -> StateV {
        StateV { defs: entries_map(self.defs@), out: strs_view(self.out@) }
    }
}

impl Interp {
    /// A fresh state: no definitions, no output.
    pub fn new() -> (r: Interp)
        ensures
            r@.defs == Map::<Seq<char>, NodeV>::empty(),
            r@.out == Seq::<Seq<char>>::empty(),
    {
        let r = Interp { defs: Vec::new(), out: Vec::new() };
        proof {
            assert(r@.out =~= Seq::<Seq<char>>::empty());
        }
        r
    }

    /// The node bound to a symbol, if any: the latest `define` wins.
    fn lookup(&self, key: &str) -> (r: Option<Node>)
        ensures
            match r {
                Some(n) => self@.defs.contains_key(key@) && n@ == self@.defs[key@],
                None => !self@.defs.contains_key(key@),
            },
    {
        let mut i: usize = self.defs.len();
        loop
            invariant
                i <= self.defs@.len(),
                forall|j: int|
                    i <= j < self.defs@.len() ==> (#[trigger] self.defs@[j]).0@ != key@,
            decreases i,
        {
            if i == 0 {
                proof {
                    lemma_entries_map_suffix(self.defs@, 0, key@);
                    assert(self.defs@.subrange(0, 0) =~= Seq::<(String, Node)>::empty());
                }
                return None;
            }
            i = i - 1;
            let e = &self.defs[i];
            if str_eq(e.0.as_str(), key) {
                proof {
                    lemma_entries_map_suffix(self.defs@, i as int + 1, key@);
                    let p = self.defs@.subrange(0, i as int + 1);
                    assert(p.drop_last() =~= self.defs@.subrange(0, i as int));
                    assert(p.last() == self.defs@[i as int]);
                }
                return Some(node_dup(&e.1));
            }
        }
    }

    /// Binds a symbol to an unevaluated syntax form; a later binding of
    /// the same name overwrites the earlier one.
    fn define(&mut self, key: String, node: Node)
        ensures
            final(self)@.defs == old(self)@.defs.insert(key@, node@),
            final(self)@.out == old(self)@.out,
    {
        let ghost old_defs = self.defs@;
        self.defs.push((key, node));
        proof {
            assert(self.defs@.drop_last() =~= old_defs);
            assert(strs_view(self.out@) == old(self)@.out);
        }
    }

    /// Appends one line of display output.
    fn emit(&mut self, text: String)
        ensures
            final(self)@.out == old(self)@.out.push(text@),
            final(self)@.defs == old(self)@.defs,
    {
        let ghost old_out = self.out@;
        self.out.push(text);
        proof {
            assert(strs_view(self.out@) =~= strs_view(old_out).push(self.out@.last()@));
        }
    }

    /// The display output so far, one entry per `display` call.
    pub fn output(&self) -> (r: &Vec<String>)
        ensures
            strs_view(r@) == self@.out,
    {
        &self.out
    }
}

/// The argument view of the tail of a node list.
proof fn lemma_tail(l: Seq<Node>, astart: int)
    requires
        0 <= astart < l.len(),
    ensures
        ({
            let args = nodes_view(l).subrange(astart, l.len() as int);
            &&& args.len() == l.len() - astart
            &&& args[0] == l[astart]@
            &&& args.subrange(1, args.len() as int) == nodes_view(l).subrange(
                astart + 1,
                l.len() as int,
            )
        }),
{
    let args = nodes_view(l).subrange(astart, l.len() as int);
    assert(args.subrange(1, args.len() as int) =~= nodes_view(l).subrange(
        astart + 1,
        l.len() as int,
    ));
}

/// Evaluation of one node.
pub fn eval_node(st: &mut Interp, node: &Node, fuel: u64) -> (r: Result<EvalResult, EvalErr>)
    ensures
        ({
            let (sr, sst) = s_eval_node(old(st)@, node@, fuel as nat);
            &&& res_view(r) == sr
            &&& final(st)@ == sst
        }),
    decreases fuel,
{
    if fuel == 0 {
        return Err(EvalErr::DepthExceeded);
    }
    match node {
        Node::Atom(a) => eval_atom(st, a, fuel - 1),
        Node::List(l) => {
            proof {
                lemma_node_seq_view(l@);
            }
            eval_list(st, l, fuel - 1)
        },
        Node::QuoteList(ql) => {
            let d = nodes_dup(ql);
            proof {
                lemma_node_seq_view(ql@);
                lemma_node_seq_view(d@);
            }
            Ok(EvalResult::QuoteList(d))
        },
        Node::QuoteAtom(qa) => Ok(EvalResult::QuoteAtom(atom_dup(qa))),
    }
}

/// Evaluation of one atom: a bound symbol evaluates its definition;
/// everything else, an unbound symbol included, is itself.
pub fn eval_atom(st: &mut Interp, atom: &Atom, fuel: u64) -> (r: Result<EvalResult, EvalErr>)
    ensures
        ({
            let (sr, sst) = s_eval_atom(old(st)@, atom@, fuel as nat);
            &&& res_view(r) == sr
            &&& final(st)@ == sst
        }),
    decreases fuel,
{
    if fuel == 0 {
        return Err(EvalErr::DepthExceeded);
    }
    match atom {
        Atom::Symbol(sym) => match st.lookup(sym.as_str()) {
            Some(bound) => eval_node(st, &bound, fuel - 1),
            None => Ok(EvalResult::Atom(atom_dup(atom))),
        },
        _ => Ok(EvalResult::Atom(atom_dup(atom))),
    }
}

/// Evaluation of a call form: the head picks the procedure, the rest
/// are its arguments.
pub fn eval_list(st: &mut Interp, list: &Vec<Node>, fuel: u64) -> (r: Result<EvalResult, EvalErr>)
    ensures
        ({
            let (sr, sst) = s_eval_list(old(st)@, nodes_view(list@), fuel as nat);
            &&& res_view(r) == sr
            &&& final(st)@ == sst
        }),
    decreases fuel,
{
    if fuel == 0 {
        return Err(EvalErr::DepthExceeded);
    }
    if list.len() == 0 {
        return Err(EvalErr::MissingProcedure);
    }
    proof {
        lemma_tail(list@, 0);

    }
    match &list[0] {
        Node::Atom(a) => eval_with_proc_atom_and_args(st, a, list, 1, fuel - 1),
        Node::QuoteAtom(a) => eval_with_proc_atom_and_args(st, a, list, 1, fuel - 1),
        Node::List(l2) => {
            proof {
                lemma_node_seq_view(l2@);
            }
            match eval_list(st, l2, fuel - 1) {
                Err(e) => Err(e),
                Ok(v) => match v {
                    EvalResult::Atom(a) => eval_with_proc_atom_and_args(st, &a, list, 1, fuel - 1),
                    EvalResult::Proc(p) => apply_proc(st, &p, list, 1, fuel - 1),
                    _ => Err(EvalErr::InvalidProcedureExpression),
                },
            }
        },
        Node::QuoteList(_) => Err(EvalErr::InvalidProcedureExpression),
    }
}

/// A head atom must be a symbol to select a procedure.
fn eval_with_proc_atom_and_args(
    st: &mut Interp,
    proc_atom: &Atom,
    list: &Vec<Node>,
    astart: usize,
    fuel: u64,
) -> (r: Result<EvalResult, EvalErr>)
    requires
        astart <= list@.len(),
    ensures
        ({
            let (sr, sst) = s_eval_with_atom(
                old(st)@,
                proc_atom@,
                nodes_view(list@).subrange(astart as int, list@.len() as int),
                fuel as nat,
            );
            &&& res_view(r) == sr
            &&& final(st)@ == sst
        }),
    decreases fuel,
{
    if fuel == 0 {
        return Err(EvalErr::DepthExceeded);
    }
    match proc_atom {
        Atom::Symbol(sym) => eval_proc(st, sym.as_str(), list, astart, fuel - 1),
        _ => Err(EvalErr::InvalidProcedureExpression),
    }
}

/// Operator resolution: numeric, then string, then generic catalogue,
/// then the definitions table; otherwise the operator is unknown.
fn eval_proc(st: &mut Interp, c: &str, list: &Vec<Node>, astart: usize, fuel: u64) -> (r: Result<
    EvalResult,
    EvalErr,
>)
    requires
        astart <= list@.len(),
    ensures
        ({
            let (sr, sst) = s_dispatch(
                old(st)@,
                c@,
                nodes_view(list@).subrange(astart as int, list@.len() as int),
                fuel as nat,
            );
            &&& res_view(r) == sr
            &&& final(st)@ == sst
        }),
    decreases fuel,
{
    if fuel == 0 {
        return Err(EvalErr::DepthExceeded);
    }
    if let Some(nproc) = NumericProcs::try_from(c) {
        eval_numeric_proc(st, nproc, list, astart, fuel - 1)
    } else if let Some(sproc) = StringProcs::try_from(c) {
        eval_string_proc(st, sproc, list, astart, fuel - 1)
    } else if let Some(gproc) = GenericProcs::try_from(c) {
        eval_generic_proc(st, gproc, list, astart, fuel - 1)
    } else {
        match st.lookup(c) {
            Some(bound) => match eval_node(st, &bound, fuel - 1) {
                Err(e) => Err(e),
                Ok(v) => match v {
                    EvalResult::Proc(p) => apply_proc(st, &p, list, astart, fuel - 1),
                    _ => Err(EvalErr::InvalidProcedureExpression),
                },
            },
            None => Err(EvalErr::UnknownProcedure),
        }
    }
}

/// Arguments of a numeric fold, each evaluated to a number.
fn eval_nums(st: &mut Interp, list: &Vec<Node>, astart: usize, first: bool, fuel: u64) -> (r:
    Result<Vec<i32>, EvalErr>)
    requires
        astart <= list@.len(),
    ensures
        ({
            let (sr, sst) = s_eval_nums(
                old(st)@,
                nodes_view(list@).subrange(astart as int, list@.len() as int),
                first,
                fuel as nat,
            );
            &&& (match r {
                Ok(v) => sr == Ok::<Seq<i32>, EvalErr>(v@) && v@.len() == list@.len() - astart,
                Err(e) => sr == Err::<Seq<i32>, EvalErr>(e),
            })
            &&& final(st)@ == sst
        }),
    decreases fuel,
{
    if fuel == 0 {
        return Err(EvalErr::DepthExceeded);
    }
    if astart >= list.len() {
        let empty: Vec<i32> = Vec::new();
        proof {
            assert(empty@ =~= Seq::<i32>::empty());
        }
        return Ok(empty);
    }
    proof {
        lemma_tail(list@, astart as int);
    }
    match eval_node(st, &list[astart], fuel - 1) {
        Err(e) => Err(e),
        Ok(v) => match v {
            EvalResult::Atom(Atom::Num(n)) => {
                match eval_nums(st, list, astart + 1, false, fuel - 1) {
                    Err(e) => Err(e),
                    Ok(rest) => {
                        let ghost rest0 = rest@;
                        let mut nums = rest;
                        nums.insert(0, n);
                        proof {
                            assert(nums@ =~= seq![n] + rest0);
                        }
                        Ok(nums)
                    },
                }
            },
            EvalResult::Atom(_) => if first {
                Err(EvalErr::TypeMismatch)
            } else {
                Err(EvalErr::HeterogeneousArguments)
            },
            _ => Err(EvalErr::TypeMismatch),
        },
    }
}

/// Arguments of a string fold, each evaluated to a string.
fn eval_strs(st: &mut Interp, list: &Vec<Node>, astart: usize, first: bool, fuel: u64) -> (r:
    Result<Vec<String>, EvalErr>)
    requires
        astart <= list@.len(),
    ensures
        ({
            let (sr, sst) = s_eval_strs(
                old(st)@,
                nodes_view(list@).subrange(astart as int, list@.len() as int),
                first,
                fuel as nat,
            );
            &&& (match r {
                Ok(v) => sr == Ok::<Seq<Seq<char>>, EvalErr>(strs_view(v@)) && v@.len() == list@.len()
                    - astart,
                Err(e) => sr == Err::<Seq<Seq<char>>, EvalErr>(e),
            })
            &&& final(st)@ == sst
        }),
    decreases fuel,
{
    if fuel == 0 {
        return Err(EvalErr::DepthExceeded);
    }
    if astart >= list.len() {
        let empty: Vec<String> = Vec::new();
        proof {
            assert(strs_view(empty@) =~= Seq::<Seq<char>>::empty());
        }
        return Ok(empty);
    }
    proof {
        lemma_tail(list@, astart as int);
    }
    match eval_node(st, &list[astart], fuel - 1) {
        Err(e) => Err(e),
        Ok(v) => match v {
            EvalResult::Atom(Atom::Str(s)) => {
                match eval_strs(st, list, astart + 1, false, fuel - 1) {
                    Err(e) => Err(e),
                    Ok(rest) => {
                        let ghost rest0 = rest@;
                        let mut strs = rest;
                        strs.insert(0, s);
                        proof {
                            assert(strs_view(strs@) =~= seq![strs@[0]@] + strs_view(rest0));
                        }
                        Ok(strs)
                    },
                }
            },
            EvalResult::Atom(_) => if first {
                Err(EvalErr::TypeMismatch)
            } else {
                Err(EvalErr::HeterogeneousArguments)
            },
            _ => Err(EvalErr::TypeMismatch),
        },
    }
}

/// A numeric procedure: the zero-argument and unary special cases, and
/// otherwise a left fold over the evaluated arguments.
fn eval_numeric_proc(
    st: &mut Interp,
    proc: NumericProcs,
    list: &Vec<Node>,
    astart: usize,
    fuel: u64,
) -> (r: Result<EvalResult, EvalErr>)
    requires
        astart <= list@.len(),
    ensures
        ({
            let (sr, sst) = s_numeric(
                old(st)@,
                proc,
                nodes_view(list@).subrange(astart as int, list@.len() as int),
                fuel as nat,
            );
            &&& res_view(r) == sr
            &&& final(st)@ == sst
        }),
    decreases fuel,
{
    if fuel == 0 {
        return Err(EvalErr::DepthExceeded);
    }
    let argc = list.len() - astart;
    if matches!(proc, NumericProcs::Sum) && argc == 0 {
        return Ok(EvalResult::Atom(Atom::Num(0)));
    }
    if matches!(proc, NumericProcs::Mult) && argc == 0 {
        return Ok(EvalResult::Atom(Atom::Num(1)));
    }
    if argc == 0 {
        return Err(EvalErr::ArityMismatch);
    }
    if matches!(proc, NumericProcs::Modulo) && argc != 2 {
        return Err(EvalErr::ArityMismatch);
    }
    match eval_nums(st, list, astart, true, fuel - 1) {
        Err(e) => Err(e),
        Ok(nums) => {
            match proc {
                NumericProcs::Sum => Ok(
                    EvalResult::Atom(Atom::Num(fold_add_exec(nums[0], &nums, 1))),
                ),
                NumericProcs::Mult => Ok(
                    EvalResult::Atom(Atom::Num(fold_mul_exec(nums[0], &nums, 1))),
                ),
                NumericProcs::Subtract => if nums.len() == 1 {
                    Ok(EvalResult::Atom(Atom::Num(wrap_neg_exec(nums[0]))))
                } else {
                    Ok(EvalResult::Atom(Atom::Num(fold_sub_exec(nums[0], &nums, 1))))
                },
                NumericProcs::Div => if nums.len() == 1 {
                    if nums[0] == 0 {
                        Err(EvalErr::DivisionByZero)
                    } else {
                        Ok(EvalResult::Atom(Atom::Num(div_wrap_exec(1, nums[0]))))
                    }
                } else {
                    match fold_div_exec(nums[0], &nums, 1) {
                        Ok(n) => Ok(EvalResult::Atom(Atom::Num(n))),
                        Err(e) => Err(e),
                    }
                },
                NumericProcs::Modulo => if nums[1] == 0 {
                    Err(EvalErr::DivisionByZero)
                } else {
                    Ok(EvalResult::Atom(Atom::Num(rem_wrap_exec(nums[0], nums[1]))))
                },
            }
        },
    }
}

/// A string procedure: `string-append` with its single-argument quirk.
fn eval_string_proc(
    st: &mut Interp,
    proc: StringProcs,
    list: &Vec<Node>,
    astart: usize,
    fuel: u64,
) -> (r: Result<EvalResult, EvalErr>)
    requires
        astart <= list@.len(),
    ensures
        ({
            let (sr, sst) = s_string(
                old(st)@,
                proc,
                nodes_view(list@).subrange(astart as int, list@.len() as int),
                fuel as nat,
            );
            &&& res_view(r) == sr
            &&& final(st)@ == sst
        }),
    decreases fuel,
{
    if fuel == 0 {
        return Err(EvalErr::DepthExceeded);
    }
    let argc = list.len() - astart;
    if argc == 0 {
        return Err(EvalErr::ArityMismatch);
    }
    if argc == 1 {
        return Ok(EvalResult::Atom(Atom::Str(String::new())));
    }
    match eval_strs(st, list, astart, true, fuel - 1) {
        Err(e) => Err(e),
        Ok(strs) => {
            let first = strs[0].clone();
            let folded = fold_concat_exec(first, &strs, 1);
            proof {
                assert(strs_view(strs@)[0] == strs@[0]@);
            }
            Ok(EvalResult::Atom(Atom::Str(folded)))
        },
    }
}

/// `and`: the first false value short-circuits; otherwise the last.
fn and_proc(st: &mut Interp, list: &Vec<Node>, astart: usize, fuel: u64) -> (r: Result<
    EvalResult,
    EvalErr,
>)
    requires
        astart <= list@.len(),
    ensures
        ({
            let (sr, sst) = s_and(
                old(st)@,
                nodes_view(list@).subrange(astart as int, list@.len() as int),
                fuel as nat,
            );
            &&& res_view(r) == sr
            &&& final(st)@ == sst
        }),
    decreases fuel,
{
    if fuel == 0 {
        return Err(EvalErr::DepthExceeded);
    }
    if astart >= list.len() {
        return Ok(EvalResult::Atom(Atom::Bool(true)));
    }
    proof {
        lemma_tail(list@, astart as int);
    }
    match eval_node(st, &list[astart], fuel - 1) {
        Err(e) => Err(e),
        Ok(v) => if eval_result_is_false(&v) {
            Ok(EvalResult::Atom(Atom::Bool(false)))
        } else if astart + 1 >= list.len() {
            Ok(v)
        } else {
            and_proc(st, list, astart + 1, fuel - 1)
        },
    }
}

/// `or`: the first non-false value is returned; otherwise false.
fn or_proc(st: &mut Interp, list: &Vec<Node>, astart: usize, fuel: u64) -> (r: Result<
    EvalResult,
    EvalErr,
>)
    requires
        astart <= list@.len(),
    ensures
        ({
            let (sr, sst) = s_or(
                old(st)@,
                nodes_view(list@).subrange(astart as int, list@.len() as int),
                fuel as nat,
            );
            &&& res_view(r) == sr
            &&& final(st)@ == sst
        }),
    decreases fuel,
{
    if fuel == 0 {
        return Err(EvalErr::DepthExceeded);
    }
    if astart >= list.len() {
        return Ok(EvalResult::Atom(Atom::Bool(false)));
    }
    proof {
        lemma_tail(list@, astart as int);
    }
    match eval_node(st, &list[astart], fuel - 1) {
        Err(e) => Err(e),
        Ok(v) => if !eval_result_is_false(&v) {
            Ok(v)
        } else {
            or_proc(st, list, astart + 1, fuel - 1)
        },
    }
}

/// Evaluation of a body: every form in order, the last one's value.
fn evaluate_and_return_last(st: &mut Interp, list: &Vec<Node>, start: usize, fuel: u64) -> (r:
    Result<EvalResult, EvalErr>)
    requires
        start <= list@.len(),
    ensures
        ({
            let (sr, sst) = s_eval_body_last(
                old(st)@,
                nodes_view(list@).subrange(start as int, list@.len() as int),
                fuel as nat,
            );
            &&& res_view(r) == sr
            &&& final(st)@ == sst
        }),
    decreases fuel,
{
    if fuel == 0 {
        return Err(EvalErr::DepthExceeded);
    }
    if start >= list.len() {
        return Err(EvalErr::InvalidProcedureExpression);
    }
    proof {
        lemma_tail(list@, start as int);
    }
    match eval_node(st, &list[start], fuel - 1) {
        Err(e) => Err(e),
        Ok(v) => if start + 1 >= list.len() {
            Ok(v)
        } else {
            evaluate_and_return_last(st, list, start + 1, fuel - 1)
        },
    }
}

/// Whether a clause test is literally the symbol `else`.
fn node_is_else(node: &Node) -> (r: bool)
    ensures
        r == (node@ == NodeV::Atom(crate::ast::AtomV::Symbol("else"@))),
{
    match node {
        Node::Atom(Atom::Symbol(sym)) => str_eq(sym.as_str(), "else"),
        _ => false,
    }
}

/// Checks every clause's shape before any clause is scanned.
fn check_clauses_wellformed(list: &Vec<Node>, astart: usize) -> (r: bool)
    requires
        astart <= list@.len(),
    ensures
        r == crate::semantics::clauses_wellformed(
            nodes_view(list@).subrange(astart as int, list@.len() as int),
        ),
{
    let ghost sub = nodes_view(list@).subrange(astart as int, list@.len() as int);
    let mut i: usize = astart;
    while i < list.len()
        invariant
            astart <= i <= list@.len(),
            sub == nodes_view(list@).subrange(astart as int, list@.len() as int),
            forall|j: int|
                astart <= j < i ==> crate::semantics::clause_wf(#[trigger] nodes_view(list@)[j]),
        decreases list@.len() - i,
    {
        match &list[i] {
            Node::List(cl) => {
                proof {
                    lemma_node_seq_view(cl@);
                }
                if cl.len() == 0 {
                    proof {
                        assert(sub[i - astart] == nodes_view(list@)[i as int]);
                        assert(!crate::semantics::clause_wf(sub[i - astart]));
                    }
                    return false;
                }
                proof {
                    assert(crate::semantics::clause_wf(nodes_view(list@)[i as int]));
                }
            },
            _ => {
                proof {
                    assert(sub[i - astart] == nodes_view(list@)[i as int]);
                    assert(!crate::semantics::clause_wf(sub[i - astart]));
                }
                return false;
            },
        }
        i += 1;
    }
    proof {
        assert forall|k: int| 0 <= k < sub.len() implies crate::semantics::clause_wf(
            #[trigger] sub[k],
        ) by {
            assert(sub[k] == nodes_view(list@)[astart + k]);
        }
    }
    true
}

/// `cond` clause scanning: the clause shapes are validated up front.
fn cond_proc(st: &mut Interp, list: &Vec<Node>, astart: usize, fuel: u64) -> (r: Result<
    EvalResult,
    EvalErr,
>)
    requires
        astart <= list@.len(),
    ensures
        ({
            let (sr, sst) = s_cond(
                old(st)@,
                nodes_view(list@).subrange(astart as int, list@.len() as int),
                fuel as nat,
            );
            &&& res_view(r) == sr
            &&& final(st)@ == sst
        }),
    decreases fuel,
{
    if fuel == 0 {
        return Err(EvalErr::DepthExceeded);
    }
    if !check_clauses_wellformed(list, astart) {
        return Err(EvalErr::MalformedCond);
    }
    if astart >= list.len() {
        return Ok(make_void());
    }
    proof {
        lemma_tail(list@, astart as int);
    }
    match &list[astart] {
        Node::List(cl) => {
            proof {
                lemma_node_seq_view(cl@);
                let sub = nodes_view(list@).subrange(astart as int, list@.len() as int);
                assert(crate::semantics::clause_wf(sub[0]));
                lemma_tail(cl@, 0);
            }
            if node_is_else(&cl[0]) {
                if list.len() - astart != 1 {
                    Err(EvalErr::MalformedCond)
                } else if cl.len() == 1 {
                    Err(EvalErr::MalformedCond)
                } else {
                    evaluate_and_return_last(st, cl, 1, fuel - 1)
                }
            } else {
                match eval_node(st, &cl[0], fuel - 1) {
                    Err(e) => Err(e),
                    Ok(v) => if eval_result_is_false(&v) {
                        cond_proc(st, list, astart + 1, fuel - 1)
                    } else if cl.len() == 1 {
                        Ok(make_void())
                    } else {
                        evaluate_and_return_last(st, cl, 1, fuel - 1)
                    },
                }
            }
        },
        _ => Err(EvalErr::MalformedCond),
    }
}

/// The display text of an atom.
fn atom_text_exec(a: &Atom) -> (r: Vec<char>)
    ensures
        r@ == crate::semantics::atom_text(a@),
{
    match a {
        Atom::Num(n) => i32_text_exec(*n),
        Atom::Symbol(s) => str_chars_exec(s.as_str()),
        Atom::Str(s) => str_chars_exec(s.as_str()),
        Atom::Bool(b) => if *b {
            str_chars_exec("true")
        } else {
            str_chars_exec("false")
        },
    }
}

/// The display text of a value; rendering a quoted list evaluates its
/// first element, so this sits inside the evaluator.
pub fn render_value(st: &mut Interp, v: &EvalResult, fuel: u64) -> (r: Result<Vec<char>, EvalErr>)
    ensures
        ({
            let (sr, sst) = s_render(old(st)@, v@, fuel as nat);
            &&& (match r {
                Ok(cs) => sr == Ok::<Seq<char>, EvalErr>(cs@),
                Err(e) => sr == Err::<Seq<char>, EvalErr>(e),
            })
            &&& final(st)@ == sst
        }),
    decreases fuel,
{
    if fuel == 0 {
        return Err(EvalErr::DepthExceeded);
    }
    match v {
        EvalResult::Atom(a) => Ok(atom_text_exec(a)),
        EvalResult::QuoteAtom(a) => Ok(atom_text_exec(a)),
        EvalResult::QuoteList(ql) => {
            proof {
                lemma_node_seq_view(ql@);
            }
            if ql.len() == 0 {
                let empty: Vec<char> = Vec::new();
                proof {
                    assert(empty@ =~= Seq::<char>::empty());
                }
                Ok(empty)
            } else {
                match eval_node(st, &ql[0], fuel - 1) {
                    Err(e) => Err(e),
                    Ok(v2) => render_value(st, &v2, fuel - 1),
                }
            }
        },
        EvalResult::Proc(p) => {
            let h = proc_hash_exec(p);
            let mut cs = str_chars_exec("procedure:");
            let mut ds = crate::numtext::u64_text_exec(h);
            cs.append(&mut ds);
            Ok(cs)
        },
    }
}

/// A generic (control-flow) procedure.
fn eval_generic_proc(
    st: &mut Interp,
    proc: GenericProcs,
    list: &Vec<Node>,
    astart: usize,
    fuel: u64,
) -> (r: Result<EvalResult, EvalErr>)
    requires
        astart <= list@.len(),
    ensures
        ({
            let (sr, sst) = s_generic(
                old(st)@,
                proc,
                nodes_view(list@).subrange(astart as int, list@.len() as int),
                fuel as nat,
            );
            &&& res_view(r) == sr
            &&& final(st)@ == sst
        }),
    decreases fuel,
{
    if fuel == 0 {
        return Err(EvalErr::DepthExceeded);
    }
    let argc = list.len() - astart;
    proof {
        if astart < list@.len() {
            lemma_tail(list@, astart as int);
        }
    }
    match proc {
        GenericProcs::And => and_proc(st, list, astart, fuel - 1),
        GenericProcs::Or => or_proc(st, list, astart, fuel - 1),
        GenericProcs::Cond => cond_proc(st, list, astart, fuel - 1),
        GenericProcs::If => {
            if argc != 3 {
                return Err(EvalErr::ArityMismatch);
            }
            match eval_node(st, &list[astart], fuel - 1) {
                Err(e) => Err(e),
                Ok(v) => if eval_result_is_false(&v) {
                    eval_node(st, &list[astart + 2], fuel - 1)
                } else {
                    eval_node(st, &list[astart + 1], fuel - 1)
                },
            }
        },
        GenericProcs::Not => {
            if argc != 1 {
                return Err(EvalErr::ArityMismatch);
            }
            match eval_node(st, &list[astart], fuel - 1) {
                Err(e) => Err(e),
                Ok(v) => Ok(EvalResult::Atom(Atom::Bool(eval_result_is_false(&v)))),
            }
        },
        GenericProcs::Display => {
            if argc != 1 {
                return Err(EvalErr::ArityMismatch);
            }
            match eval_node(st, &list[astart], fuel - 1) {
                Err(e) => Err(e),
                Ok(v) => {
                    let ghost mid = st@;
                    match render_value(st, &v, fuel - 1) {
                        Err(e) => Err(e),
                        Ok(cs) => {
                            let ghost sst3 = st@;
                            let text = chars_to_string(&cs);
                            st.emit(text);
                            proof {
                                assert(st@ =~= (StateV { out: sst3.out.push(cs@), ..sst3 }));
                            }
                            Ok(make_void())
                        },
                    }
                },
            }
        },
        GenericProcs::IsPositive => {
            if argc != 1 {
                return Err(EvalErr::ArityMismatch);
            }
            match eval_node(st, &list[astart], fuel - 1) {
                Err(e) => Err(e),
                Ok(v) => match v {
                    EvalResult::Atom(Atom::Num(n)) => Ok(EvalResult::Atom(Atom::Bool(n > 0))),
                    _ => Err(EvalErr::TypeMismatch),
                },
            }
        },
        GenericProcs::IsZero => {
            if argc != 1 {
                return Err(EvalErr::ArityMismatch);
            }
            match eval_node(st, &list[astart], fuel - 1) {
                Err(e) => Err(e),
                Ok(v) => match v {
                    EvalResult::Atom(Atom::Num(n)) => Ok(EvalResult::Atom(Atom::Bool(n == 0))),
                    _ => Err(EvalErr::TypeMismatch),
                },
            }
        },
        GenericProcs::Define => {
            if argc != 2 {
                return Err(EvalErr::ArityMismatch);
            }
            match &list[astart] {
                Node::Atom(a) => match a {
                    Atom::Symbol(sym) => {
                        let key = sym.clone();
                        let bound = node_dup(&list[astart + 1]);
                        let ghost st0 = st@;
                        st.define(key, bound);
                        proof {
                            assert(st@ =~= (StateV {
                                defs: st0.defs.insert(sym@, list@[astart + 1]@),
                                ..st0
                            }));
                        }
                        Ok(make_void())
                    },
                    _ => Err(EvalErr::TypeMismatch),
                },
                _ => Err(EvalErr::TypeMismatch),
            }
        },
    }
}

/// Application of a user procedure to the argument forms in
/// `list[astart..]`.
fn apply_proc(st: &mut Interp, lambda: &UserProc, list: &Vec<Node>, astart: usize, fuel: u64) -> (r:
    Result<EvalResult, EvalErr>)
    requires
        astart <= list@.len(),
    ensures
        ({
            let (sr, sst) = s_apply(
                old(st)@,
                lambda@,
                nodes_view(list@).subrange(astart as int, list@.len() as int),
                fuel as nat,
            );
            &&& res_view(r) == sr
            &&& final(st)@ == sst
        }),
    decreases fuel,
{
    if fuel == 0 {
        return Err(EvalErr::DepthExceeded);
    }
    let expected = lambda.get_arity();
    if list.len() - astart != expected {
        return Err(EvalErr::ArityMismatch);
    }
    let body = subst_nodes_exec(lambda.get_args(), list, astart, lambda.get_body());
    proof {
        assert(nodes_view(body@).subrange(0, body@.len() as int) =~= nodes_view(body@));
    }
    evaluate_and_return_last(st, &body, 0, fuel - 1)
}

/// Application of a user procedure to an argument list. The arity must
/// match; the argument syntax replaces the parameter symbols through
/// the body, which then evaluates to its last form's value.
pub fn eval_lambda(st: &mut Interp, lambda: &UserProc, arg_list: &Vec<Node>, fuel: u64) -> (r:
    Result<EvalResult, EvalErr>)
    ensures
        ({
            let (sr, sst) = s_apply(old(st)@, lambda@, nodes_view(arg_list@), fuel as nat);
            &&& res_view(r) == sr
            &&& final(st)@ == sst
        }),
    decreases fuel,
{
    proof {
        assert(nodes_view(arg_list@).subrange(0, arg_list@.len() as int) =~= nodes_view(
            arg_list@,
        ));
    }
    apply_proc(st, lambda, arg_list, 0, fuel)
}

/// Performing a catalogue procedure on an argument list.
pub trait ProcImpls<T, U> {
    /// What performing the procedure guarantees, over the models of the
    /// state before and after.
    spec fn perform_ensures(&self, pre: StateV, proc_type: U, fuel: nat, r: T, post: StateV)
        -> bool;

    fn perform_proc(&self, st: &mut Interp, proc_type: U, fuel: u64) -> (r: T)
        ensures
            self.perform_ensures(old(st)@, proc_type, fuel as nat, r, final(st)@),
    ;
}

impl ProcImpls<Result<EvalResult, EvalErr>, NumericProcs> for Vec<Node> {
    /// Exactly the numeric-procedure semantics on these argument forms.
    open spec fn perform_ensures(
        &self,
        pre: StateV,
        proc_type: NumericProcs,
        fuel: nat,
        r: Result<EvalResult, EvalErr>,
        post: StateV,
    ) -> bool {
        (res_view(r), post) == s_numeric(pre, proc_type, nodes_view(self@), fuel)
    }

    fn perform_proc(&self, st: &mut Interp, proc_type: NumericProcs, fuel: u64) -> (r: Result<
        EvalResult,
        EvalErr,
    >) {
        proof {
            assert(nodes_view(self@).subrange(0, self@.len() as int) =~= nodes_view(self@));
        }
        eval_numeric_proc(st, proc_type, self, 0, fuel)
    }
}

impl ProcImpls<Result<EvalResult, EvalErr>, StringProcs> for Vec<Node> {
    /// Exactly the string-procedure semantics on these argument forms.
    open spec fn perform_ensures(
        &self,
        pre: StateV,
        proc_type: StringProcs,
        fuel: nat,
        r: Result<EvalResult, EvalErr>,
        post: StateV,
    ) -> bool {
        (res_view(r), post) == s_string(pre, proc_type, nodes_view(self@), fuel)
    }

    fn perform_proc(&self, st: &mut Interp, proc_type: StringProcs, fuel: u64) -> (r: Result<
        EvalResult,
        EvalErr,
    >) {
        proof {
            assert(nodes_view(self@).subrange(0, self@.len() as int) =~= nodes_view(self@));
        }
        eval_string_proc(st, proc_type, self, 0, fuel)
    }
}

impl ProcImpls<Result<EvalResult, EvalErr>, GenericProcs> for Vec<Node> {
    /// Exactly the generic-procedure semantics on these argument forms.
    open spec fn perform_ensures(
        &self,
        pre: StateV,
        proc_type: GenericProcs,
        fuel: nat,
        r: Result<EvalResult, EvalErr>,
        post: StateV,
    ) -> bool {
        (res_view(r), post) == s_generic(pre, proc_type, nodes_view(self@), fuel)
    }

    fn perform_proc(&self, st: &mut Interp, proc_type: GenericProcs, fuel: u64) -> (r: Result<
        EvalResult,
        EvalErr,
    >) {
        proof {
            assert(nodes_view(self@).subrange(0, self@.len() as int) =~= nodes_view(self@));
        }
        eval_generic_proc(st, proc_type, self, 0, fuel)
    }
}

/// The model of a list of outcomes.
pub open spec fn results_view(rs: Seq<Result<EvalResult, EvalErr>>) -> Seq<
    Result<ValueV, EvalErr>,
> {
    Seq::new(rs.len(), |i: int| res_view(rs[i]))
}

fn interpret_from(st: &mut Interp, parsed: &Vec<Vec<Node>>, i: usize, fuel: u64) -> (r: Vec<
    Result<EvalResult, EvalErr>,
>)
    requires
        i <= parsed@.len(),
    ensures
        ({
            let (srs, sst) = s_run_program(
                old(st)@,
                crate::parser::forest_view(parsed@).subrange(i as int, parsed@.len() as int),
                fuel as nat,
            );
            &&& results_view(r@) == srs
            &&& final(st)@ == sst
        }),
    decreases parsed@.len() - i,
{
    let ghost forest = crate::parser::forest_view(parsed@);
    if i >= parsed.len() {
        let empty: Vec<Result<EvalResult, EvalErr>> = Vec::new();
        proof {
            assert(results_view(empty@) =~= Seq::<Result<ValueV, EvalErr>>::empty());
        }
        return empty;
    }
    proof {
        lemma_node_seq_view(parsed@[i as int]@);
        let sub = forest.subrange(i as int, parsed@.len() as int);
        assert(sub[0] == forest[i as int]);
        assert(sub.subrange(1, sub.len() as int) =~= forest.subrange(
            i as int + 1,
            parsed@.len() as int,
        ));
    }
    let r0 = eval_list(st, &parsed[i], fuel);
    let rest = interpret_from(st, parsed, i + 1, fuel);
    let ghost rest0 = rest@;
    let mut out = rest;
    out.insert(0, r0);
    proof {
        assert(results_view(out@) =~= seq![res_view(out@[0])] + results_view(rest0));
    }
    out
}

/// Evaluates every top-level form of a parsed program in order, in a
/// fresh state, and hands back each form's outcome together with the
/// final state (its output holds what `display` wrote).
pub fn interpret_ceceo(parsed: &Vec<Vec<Node>>, fuel: u64) -> (r: (
    Vec<Result<EvalResult, EvalErr>>,
    Interp,
))
    ensures
        ({
            let (srs, sst) = s_run_program(
                StateV { defs: Map::empty(), out: Seq::empty() },
                crate::parser::forest_view(parsed@),
                fuel as nat,
            );
            &&& results_view(r.0@) == srs
            &&& r.1@ == sst
        }),
{
    let mut st = Interp::new();
    proof {
        assert(st@ =~= (StateV { defs: Map::empty(), out: Seq::empty() }));
        assert(crate::parser::forest_view(parsed@).subrange(0, parsed@.len() as int)
            =~= crate::parser::forest_view(parsed@));
    }
    let rs = interpret_from(&mut st, parsed, 0, fuel);
    (rs, st)
}

} // verus!
