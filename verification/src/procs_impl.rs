//! Executable counterparts of the pure parts of the semantics: wrapped
//! 32-bit arithmetic, folds, parameter substitution, and the structural
//! hash, each proved against its spec function.

use vstd::prelude::*;

use vstd::arithmetic::div_mod::{lemma_div_is_ordered_by_denominator, lemma_div_nonincreasing,
    lemma_fundamental_div_mod, lemma_mod_bound, lemma_add_mod_noop, lemma_small_mod,
    lemma_fundamental_div_mod_converse};

use crate::ast::{Atom, Node, NodeV, atom_dup, node_dup, nodes_dup, nodes_view, node_seq_view,
    lemma_node_seq_view};
use crate::semantics::{div_wrap, rem_wrap, trunc_div, trunc_rem, wrap_neg, s_fold_add, s_fold_mul,
    s_fold_sub, s_fold_div, s_fold_concat, param_index, subst_node, subst_seq, mix64, hash_chars,
    hash_atom, hash_node, hash_nodes, hash_strs, proc_hash};
use crate::eval_result::EvalErr;
use crate::user_proc::{UserProc, strs_view};
use crate::util::str_eq;

verus! {

/// 32-bit wrapping negation.
pub fn wrap_neg_exec(a: i32) -> (r: i32)
    ensures
        r == wrap_neg(a),
{
    if a == i32::MIN {
        i32::MIN
    } else {
        -a
    }
}

/// 32-bit truncating division, with the one wrapping case.
pub fn div_wrap_exec(a: i32, b: i32) -> (r: i32)
    requires
        b != 0,
    ensures
        r == div_wrap(a, b),
{
    if a == i32::MIN && b == -1 {
        return i32::MIN;
    }
    let ua: u32 = if a >= 0 {
        a as u32
    } else {
        (-(a as i64)) as u32
    };
    let ub: u32 = if b >= 0 {
        b as u32
    } else {
        (-(b as i64)) as u32
    };
    let q: u32 = ua / ub;
    proof {
        assert(ua as int == (if a >= 0 { a as int } else { -(a as int) }));
        assert(ub as int == (if b >= 0 { b as int } else { -(b as int) }));
        assert(q as int == ua as int / ub as int);
        lemma_div_nonincreasing(ua as int, ub as int);
    }
    if (a >= 0) == (b >= 0) {
        proof {
            if a == i32::MIN {
                lemma_div_is_ordered_by_denominator(ua as int, 2, ub as int);
            }
        }
        q as i32
    } else {
        (-(q as i64)) as i32
    }
}

/// 32-bit truncating remainder, with the one wrapping case.
pub fn rem_wrap_exec(a: i32, b: i32) -> (r: i32)
    requires
        b != 0,
    ensures
        r == rem_wrap(a, b),
{
    if a == i32::MIN && b == -1 {
        return 0;
    }
    let ua: u32 = if a >= 0 {
        a as u32
    } else {
        (-(a as i64)) as u32
    };
    let ub: u32 = if b >= 0 {
        b as u32
    } else {
        (-(b as i64)) as u32
    };
    let q: u32 = ua / ub;
    let ru: u32 = ua % ub;
    proof {
        assert(ua as int == (if a >= 0 { a as int } else { -(a as int) }));
        assert(ub as int == (if b >= 0 { b as int } else { -(b as int) }));
        assert(q as int == ua as int / ub as int);
        assert(ru as int == ua as int % ub as int);
        lemma_fundamental_div_mod(ua as int, ub as int);
        lemma_mod_bound(ua as int, ub as int);
        let ia = a as int;
        let ib = b as int;
        let td = trunc_div(ia, ib);
        let qi = q as int;
        let ubi = ub as int;
        assert(td == (if (a >= 0) == (b >= 0) { qi } else { -qi }));
        if a >= 0 {
            if b >= 0 {
                assert(ib * td == ubi * qi);
            } else {
                assert(ib * td == ubi * qi) by (nonlinear_arith)
                    requires
                        ib == -ubi,
                        td == -qi,
                ;
            }
            assert(trunc_rem(ia, ib) == ru as int);
        } else {
            if b >= 0 {
                assert(ib * td == -(ubi * qi)) by (nonlinear_arith)
                    requires
                        ib == ubi,
                        td == -qi,
                ;
            } else {
                assert(ib * td == -(ubi * qi)) by (nonlinear_arith)
                    requires
                        ib == -ubi,
                        td == qi,
                ;
            }
            assert(trunc_rem(ia, ib) == -(ru as int));
        }
    }
    if a >= 0 {
        ru as i32
    } else {
        (-(ru as i64)) as i32
    }
}

/// Left fold of wrapping addition over the tail of `nums`.
pub fn fold_add_exec(acc0: i32, nums: &Vec<i32>, start: usize) -> (r: i32)
    requires
        start <= nums@.len(),
    ensures
        r == s_fold_add(acc0, nums@.subrange(start as int, nums@.len() as int)),
    decreases nums@.len() - start,
{
    if start >= nums.len() {
        proof {
            assert(nums@.subrange(start as int, nums@.len() as int).len() == 0);
        }
        acc0
    } else {
        let acc = acc0.wrapping_add(nums[start]);
        proof {
            let s = nums@.subrange(start as int, nums@.len() as int);
            assert(s[0] == nums@[start as int]);
            assert(s.subrange(1, s.len() as int) =~= nums@.subrange(
                start as int + 1,
                nums@.len() as int,
            ));
        }
        fold_add_exec(acc, nums, start + 1)
    }
}

/// Left fold of wrapping multiplication over the tail of `nums`.
pub fn fold_mul_exec(acc0: i32, nums: &Vec<i32>, start: usize) -> (r: i32)
    requires
        start <= nums@.len(),
    ensures
        r == s_fold_mul(acc0, nums@.subrange(start as int, nums@.len() as int)),
    decreases nums@.len() - start,
{
    if start >= nums.len() {
        proof {
            assert(nums@.subrange(start as int, nums@.len() as int).len() == 0);
        }
        acc0
    } else {
        let acc = acc0.wrapping_mul(nums[start]);
        proof {
            let s = nums@.subrange(start as int, nums@.len() as int);
            assert(s[0] == nums@[start as int]);
            assert(s.subrange(1, s.len() as int) =~= nums@.subrange(
                start as int + 1,
                nums@.len() as int,
            ));
        }
        fold_mul_exec(acc, nums, start + 1)
    }
}

/// Left fold of wrapping subtraction over the tail of `nums`.
pub fn fold_sub_exec(acc0: i32, nums: &Vec<i32>, start: usize) -> (r: i32)
    requires
        start <= nums@.len(),
    ensures
        r == s_fold_sub(acc0, nums@.subrange(start as int, nums@.len() as int)),
    decreases nums@.len() - start,
{
    if start >= nums.len() {
        proof {
            assert(nums@.subrange(start as int, nums@.len() as int).len() == 0);
        }
        acc0
    } else {
        let acc = acc0.wrapping_sub(nums[start]);
        proof {
            let s = nums@.subrange(start as int, nums@.len() as int);
            assert(s[0] == nums@[start as int]);
            assert(s.subrange(1, s.len() as int) =~= nums@.subrange(
                start as int + 1,
                nums@.len() as int,
            ));
        }
        fold_sub_exec(acc, nums, start + 1)
    }
}

/// Left fold of division over the tail of `nums`; a zero divisor fails.
pub fn fold_div_exec(acc0: i32, nums: &Vec<i32>, start: usize) -> (r: Result<i32, EvalErr>)
    requires
        start <= nums@.len(),
    ensures
        ({
            let sr = s_fold_div(acc0, nums@.subrange(start as int, nums@.len() as int));
            match r {
                Ok(v) => sr == Ok::<i32, EvalErr>(v),
                Err(e) => sr == Err::<i32, EvalErr>(e),
            }
        }),
    decreases nums@.len() - start,
{
    if start >= nums.len() {
        proof {
            assert(nums@.subrange(start as int, nums@.len() as int).len() == 0);
        }
        Ok(acc0)
    } else {
        let d = nums[start];
        proof {
            let s = nums@.subrange(start as int, nums@.len() as int);
            assert(s[0] == nums@[start as int]);
            assert(s.subrange(1, s.len() as int) =~= nums@.subrange(
                start as int + 1,
                nums@.len() as int,
            ));
        }
        if d == 0 {
            Err(EvalErr::DivisionByZero)
        } else {
            fold_div_exec(div_wrap_exec(acc0, d), nums, start + 1)
        }
    }
}

/// Left fold of concatenation over the tail of `strs`.
pub fn fold_concat_exec(acc0: String, strs: &Vec<String>, start: usize) -> (r: String)
    requires
        start <= strs@.len(),
    ensures
        r@ == s_fold_concat(acc0@, strs_view(strs@).subrange(start as int, strs@.len() as int)),
    decreases strs@.len() - start,
{
    if start >= strs.len() {
        proof {
            assert(strs_view(strs@).subrange(start as int, strs@.len() as int).len() == 0);
        }
        acc0
    } else {
        let acc = vstd::string::StringExecFns::concat(acc0, strs[start].as_str());
        proof {
            let s = strs_view(strs@).subrange(start as int, strs@.len() as int);
            assert(s[0] == strs@[start as int]@);
            assert(s.subrange(1, s.len() as int) =~= strs_view(strs@).subrange(
                start as int + 1,
                strs@.len() as int,
            ));
        }
        fold_concat_exec(acc, strs, start + 1)
    }
}

/// A first parameter named `sym` is found by `param_index`.
proof fn lemma_param_index_found(params: Seq<Seq<char>>, sym: Seq<char>, j: int)
    requires
        0 <= j < params.len(),
        params[j] == sym,
        forall|k: int| 0 <= k < j ==> params[k] != sym,
    ensures
        param_index(params, sym) == Some(j),
    decreases params.len(),
{
    if j > 0 {
        let rest = params.subrange(1, params.len() as int);
        lemma_param_index_found(rest, sym, j - 1);
    }
}

/// Without a parameter named `sym`, `param_index` finds nothing.
proof fn lemma_param_index_missing(params: Seq<Seq<char>>, sym: Seq<char>)
    requires
        forall|k: int| 0 <= k < params.len() ==> params[k] != sym,
    ensures
        param_index(params, sym) is None,
    decreases params.len(),
{
    if params.len() > 0 {
        lemma_param_index_missing(params.subrange(1, params.len() as int), sym);
    }
}

/// Position of the first parameter with this name, if any.
pub fn param_index_exec(params: &Vec<String>, sym: &str) -> (r: Option<usize>)
    ensures
        match r {
            Some(i) => param_index(strs_view(params@), sym@) == Some(i as int) && i
                < params@.len(),
            None => param_index(strs_view(params@), sym@) is None,
        },
{
    let mut i: usize = 0;
    while i < params.len()
        invariant
            0 <= i <= params@.len(),
            forall|k: int| 0 <= k < i ==> strs_view(params@)[k] != sym@,
        decreases params@.len() - i,
    {
        if str_eq(params[i].as_str(), sym) {
            proof {
                lemma_param_index_found(strs_view(params@), sym@, i as int);
            }
            return Some(i);
        }
        i += 1;
    }
    proof {
        lemma_param_index_missing(strs_view(params@), sym@);
    }
    None
}

/// `subst_seq` substitutes element by element.
pub proof fn lemma_subst_seq_index(params: Seq<Seq<char>>, args: Seq<NodeV>, l: Seq<NodeV>)
    ensures
        subst_seq(params, args, l).len() == l.len(),
        forall|i: int|
            0 <= i < l.len() ==> #[trigger] subst_seq(params, args, l)[i] == subst_node(
                params,
                args,
                l[i],
            ),
    decreases l,
{
    if l.len() > 0 {
        lemma_subst_seq_index(params, args, l.subrange(1, l.len() as int));
    }
}

/// Substitution of argument syntax through one node.
pub fn subst_node_exec(params: &Vec<String>, l: &Vec<Node>, astart: usize, n: &Node) -> (r: Node)
    requires
        astart <= l@.len(),
    ensures
        r@ == subst_node(
            strs_view(params@),
            nodes_view(l@).subrange(astart as int, l@.len() as int),
            n@,
        ),
    decreases n,
{
    match n {
        Node::Atom(a) => match a {
            Atom::Symbol(sym) => {
                match param_index_exec(params, sym.as_str()) {
                    Some(i) => {
                        if i < l.len() - astart {
                            proof {
                                assert(nodes_view(l@).subrange(astart as int, l@.len() as int)[
                                    i as int] == l@[astart + i]@);
                            }
                            node_dup(&l[astart + i])
                        } else {
                            Node::Atom(atom_dup(a))
                        }
                    },
                    None => Node::Atom(atom_dup(a)),
                }
            },
            _ => Node::Atom(atom_dup(a)),
        },
        Node::List(children) => {
            let sub = subst_nodes_exec(params, l, astart, children);
            proof {
                lemma_node_seq_view(children@);
                lemma_node_seq_view(sub@);
            }
            Node::List(sub)
        },
        Node::QuoteList(ql) => {
            let d = nodes_dup(ql);
            proof {
                lemma_node_seq_view(ql@);
                lemma_node_seq_view(d@);
            }
            Node::QuoteList(d)
        },
        Node::QuoteAtom(a) => Node::QuoteAtom(atom_dup(a)),
    }
}

/// Substitution across a node list.
pub fn subst_nodes_exec(params: &Vec<String>, l: &Vec<Node>, astart: usize, body: &Vec<Node>) -> (r:
    Vec<Node>)
    requires
        astart <= l@.len(),
    ensures
        nodes_view(r@) == subst_seq(
            strs_view(params@),
            nodes_view(l@).subrange(astart as int, l@.len() as int),
            nodes_view(body@),
        ),
    decreases body,
{
    let ghost paramsv = strs_view(params@);
    let ghost argsv = nodes_view(l@).subrange(astart as int, l@.len() as int);
    let mut out: Vec<Node> = Vec::new();
    let mut i: usize = 0;
    proof {
        lemma_subst_seq_index(paramsv, argsv, nodes_view(body@));
    }
    while i < body.len()
        invariant
            0 <= i <= body@.len(),
            astart <= l@.len(),
            out@.len() == i,
            paramsv == strs_view(params@),
            argsv == nodes_view(l@).subrange(astart as int, l@.len() as int),
            forall|j: int|
                0 <= j < i ==> out@[j]@ == subst_seq(paramsv, argsv, nodes_view(body@))[j],
            subst_seq(paramsv, argsv, nodes_view(body@)).len() == body@.len(),
            forall|j: int|
                0 <= j < body@.len() ==> #[trigger] subst_seq(paramsv, argsv, nodes_view(body@))[j]
                    == subst_node(paramsv, argsv, body@[j]@),
        decreases body@.len() - i,
    {
        out.push(subst_node_exec(params, l, astart, &body[i]));
        i += 1;
    }
    proof {
        assert(nodes_view(out@) =~= subst_seq(paramsv, argsv, nodes_view(body@)));
    }
    out
}

/// One mixing step of the structural hash.
fn mix_exec(h: u64, d: u64) -> (r: u64)
    ensures
        r as int == mix64(h as int, d as int),
{
    let m: u64 = 0xffff_ffff_ffff_ffff;
    let x = h.wrapping_mul(31);
    let r = x.wrapping_add(d);
    proof {
        let modulus: int = 0x1_0000_0000_0000_0000;
        assert(x as int == (h as int * 31) % modulus);
        if x + d > u64::MAX {
            lemma_fundamental_div_mod_converse(
                x as int + d as int,
                modulus,
                1,
                x as int + d as int - modulus,
            );
        } else {
            lemma_fundamental_div_mod_converse(x as int + d as int, modulus, 0, x as int + d as int);
        }
        lemma_add_mod_noop(h as int * 31, d as int, modulus);
        lemma_small_mod(d as nat, modulus as nat);
    }
    r
}

/// Hash of the characters of `s` from position `i` on.
fn hash_chars_exec(h: u64, s: &str, i: usize) -> (r: u64)
    requires
        i <= s@.len(),
    ensures
        r as int == hash_chars(h as int, s@.subrange(i as int, s@.len() as int)),
    decreases s@.len() - i,
{
    let len = s.unicode_len();
    if i >= len {
        proof {
            assert(s@.subrange(i as int, s@.len() as int).len() == 0);
        }
        mix_exec(h, 0)
    } else {
        let c = s.get_char(i);
        let d: u64 = (c as u32) as u64;
        proof {
            let sub = s@.subrange(i as int, s@.len() as int);
            assert(sub[0] == s@[i as int]);
            assert(sub.subrange(1, sub.len() as int) =~= s@.subrange(
                i as int + 1,
                s@.len() as int,
            ));
        }
        hash_chars_exec(mix_exec(h, d), s, i + 1)
    }
}

/// Hash of an atom.
fn hash_atom_exec(h: u64, a: &Atom) -> (r: u64)
    ensures
        r as int == hash_atom(h as int, a@),
{
    match a {
        Atom::Num(n) => {
            let d: u64 = ((*n as i64) - (i32::MIN as i64)) as u64;
            mix_exec(mix_exec(h, 5), d)
        },
        Atom::Symbol(s) => {
            let r = hash_chars_exec(mix_exec(h, 6), s.as_str(), 0);
            proof {
                assert(s@.subrange(0, s@.len() as int) =~= s@);
            }
            r
        },
        Atom::Str(s) => {
            let r = hash_chars_exec(mix_exec(h, 7), s.as_str(), 0);
            proof {
                assert(s@.subrange(0, s@.len() as int) =~= s@);
            }
            r
        },
        Atom::Bool(b) => mix_exec(h, if *b {
            8
        } else {
            9
        }),
    }
}

/// Hash of a node.
fn hash_node_exec(h: u64, n: &Node) -> (r: u64)
    ensures
        r as int == hash_node(h as int, n@),
    decreases n,
{
    match n {
        Node::Atom(a) => hash_atom_exec(mix_exec(h, 1), a),
        Node::List(l) => {
            proof {
                lemma_node_seq_view(l@);
            }
            hash_nodes_exec(mix_exec(h, 2), l)
        },
        Node::QuoteList(l) => {
            proof {
                lemma_node_seq_view(l@);
            }
            hash_nodes_exec(mix_exec(h, 3), l)
        },
        Node::QuoteAtom(a) => hash_atom_exec(mix_exec(h, 4), a),
    }
}

/// `hash_nodes` consumes its sequence from the front.
proof fn lemma_hash_nodes_step(h: int, l: Seq<NodeV>, i: int)
    requires
        0 <= i < l.len(),
    ensures
        hash_nodes(h, l.subrange(i, l.len() as int)) == hash_nodes(
            hash_node(h, l[i]),
            l.subrange(i + 1, l.len() as int),
        ),
{
    let sub = l.subrange(i, l.len() as int);
    assert(sub[0] == l[i]);
    assert(sub.subrange(1, sub.len() as int) =~= l.subrange(i + 1, l.len() as int));
}

/// Hash of a node list.
fn hash_nodes_exec(h0: u64, l: &Vec<Node>) -> (r: u64)
    ensures
        r as int == hash_nodes(h0 as int, nodes_view(l@)),
    decreases l,
{
    let mut h = h0;
    let mut i: usize = 0;
    proof {
        assert(nodes_view(l@).subrange(0, l@.len() as int) =~= nodes_view(l@));
    }
    while i < l.len()
        invariant
            0 <= i <= l@.len(),
            hash_nodes(h0 as int, nodes_view(l@)) == hash_nodes(
                h as int,
                nodes_view(l@).subrange(i as int, l@.len() as int),
            ),
        decreases l@.len() - i,
    {
        proof {
            lemma_hash_nodes_step(h as int, nodes_view(l@), i as int);
        }
        h = hash_node_exec(h, &l[i]);
        i += 1;
    }
    proof {
        assert(nodes_view(l@).subrange(i as int, l@.len() as int).len() == 0);
    }
    mix_exec(h, 10)
}

/// `hash_strs` consumes its sequence from the front.
proof fn lemma_hash_strs_step(h: int, ss: Seq<Seq<char>>, i: int)
    requires
        0 <= i < ss.len(),
    ensures
        hash_strs(h, ss.subrange(i, ss.len() as int)) == hash_strs(
            hash_chars(h, ss[i]),
            ss.subrange(i + 1, ss.len() as int),
        ),
{
    let sub = ss.subrange(i, ss.len() as int);
    assert(sub[0] == ss[i]);
    assert(sub.subrange(1, sub.len() as int) =~= ss.subrange(i + 1, ss.len() as int));
}

/// Hash of a parameter-name list.
fn hash_strs_exec(h0: u64, ss: &Vec<String>) -> (r: u64)
    ensures
        r as int == hash_strs(h0 as int, strs_view(ss@)),
{
    let mut h = h0;
    let mut i: usize = 0;
    proof {
        assert(strs_view(ss@).subrange(0, ss@.len() as int) =~= strs_view(ss@));
    }
    while i < ss.len()
        invariant
            0 <= i <= ss@.len(),
            hash_strs(h0 as int, strs_view(ss@)) == hash_strs(
                h as int,
                strs_view(ss@).subrange(i as int, ss@.len() as int),
            ),
        decreases ss@.len() - i,
    {
        proof {
            lemma_hash_strs_step(h as int, strs_view(ss@), i as int);
        }
        let hc = hash_chars_exec(h, ss[i].as_str(), 0);
        proof {
            assert(ss@[i as int]@.subrange(0, ss@[i as int]@.len() as int) =~= ss@[i as int]@);
            assert(strs_view(ss@)[i as int] == ss@[i as int]@);
        }
        h = hc;
        i += 1;
    }
    proof {
        assert(strs_view(ss@).subrange(i as int, ss@.len() as int).len() == 0);
    }
    mix_exec(h, 11)
}

/// The structural identity of a procedure.
pub fn proc_hash_exec(p: &UserProc) -> (r: u64)
    ensures
        r as int == proc_hash(p@),
{
    let hs = hash_strs_exec(12, p.get_args());
    hash_nodes_exec(hs, p.get_body())
}

/// The characters of a string, in order.
pub fn str_chars_exec(s: &str) -> (r: Vec<char>)
    ensures
        r@ == s@,
{
    let len = s.unicode_len();
    let mut out: Vec<char> = Vec::new();
    let mut i: usize = 0;
    while i < len
        invariant
            0 <= i <= len,
            len == s@.len(),
            out@.len() == i,
            forall|j: int| 0 <= j < i ==> out@[j] == s@[j],
        decreases len - i,
    {
        out.push(s.get_char(i));
        i += 1;
    }
    proof {
        assert(out@ =~= s@);
    }
    out
}

/// Builds the string of exactly these characters. Relies on the
/// standard library's `FromIterator` for `String` over `char`.
#[verifier::external_body]
pub fn chars_to_string(v: &Vec<char>) -> (s: String)
    ensures
        s@ == v@,
{
    v.iter().collect()
}

} // verus!
