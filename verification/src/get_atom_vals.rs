//! Extraction of uniformly-tagged values from an atom list: every atom
//! must carry the one declared kind, or the list is rejected as mixed.

use vstd::prelude::*;

use crate::ast::{Atom, AtomV};

verus! {

/// The kind tag of an atom.
#[derive(Debug, Clone, Copy, PartialEq, Eq)]
pub enum AtomKind {
    Num,
    Symbol,
    Str,
    Bool,
}

pub open spec fn atom_kind(a: AtomV) -> AtomKind {
    match a {
        AtomV::Num(_) => AtomKind::Num,
        AtomV::Symbol(_) => AtomKind::Symbol,
        AtomV::Str(_) => AtomKind::Str,
        AtomV::Bool(_) => AtomKind::Bool,
    }
}

pub open spec fn atoms_view(s: Seq<Atom>) -> Seq<AtomV> {
    Seq::new(s.len(), |i: int| s[i]@)
}

pub open spec fn all_of_kind(s: Seq<AtomV>, k: AtomKind) -> bool {
    forall|i: int| 0 <= i < s.len() ==> atom_kind(#[trigger] s[i]) == k
}

/// Extraction of the values of one declared kind from an atom list.
pub trait GetAtomValues<T> {
    /// What a successful extraction hands out.
    spec fn vals_ok(&self, kind: AtomKind, vals: Seq<T>) -> bool;

    /// When extraction is refused.
    spec fn vals_err(&self, kind: AtomKind) -> bool;

    fn get_atom_vals(&self, kind: AtomKind) -> (r: Result<Vec<T>, &'static str>)
        ensures
            match r {
                Ok(vals) => self.vals_ok(kind, vals@),
                Err(_) => self.vals_err(kind),
            },
    ;
}

impl GetAtomValues<i32> for Vec<Atom> {
    /// Every atom is a number and the values come out in order.
    open spec fn vals_ok(&self, kind: AtomKind, vals: Seq<i32>) -> bool {
        &&& kind == AtomKind::Num
        &&& vals.len() == self@.len()
        &&& forall|i: int| 0 <= i < self@.len() ==> self@[i]@ == AtomV::Num(#[trigger] vals[i])
    }

    /// Some atom has another kind, or numbers were not asked for.
    open spec fn vals_err(&self, kind: AtomKind) -> bool {
        kind != AtomKind::Num || !all_of_kind(atoms_view(self@), AtomKind::Num)
    }

    fn get_atom_vals(&self, kind: AtomKind) -> (r: Result<Vec<i32>, &'static str>) {
        if !matches!(kind, AtomKind::Num) {
            return Err("Different discriminants found");
        }
        let mut vals: Vec<i32> = Vec::new();
        let mut i: usize = 0;
        while i < self.len()
            invariant
                0 <= i <= self@.len(),
                vals@.len() == i,
                forall|j: int| 0 <= j < i ==> self@[j]@ == AtomV::Num(#[trigger] vals@[j]),
            decreases self@.len() - i,
        {
            match &self[i] {
                Atom::Num(n) => vals.push(*n),
                _ => {
                    proof {
                        assert(atom_kind(atoms_view(self@)[i as int]) != AtomKind::Num);
                    }
                    return Err("Different discriminants found");
                },
            }
            i += 1;
        }
        Ok(vals)
    }
}

impl GetAtomValues<String> for Vec<Atom> {
    /// Every atom carries the one asked-for text kind, symbol or
    /// string, and the texts come out in order.
    open spec fn vals_ok(&self, kind: AtomKind, vals: Seq<String>) -> bool {
        &&& (kind == AtomKind::Symbol || kind == AtomKind::Str)
        &&& vals.len() == self@.len()
        &&& forall|i: int|
            0 <= i < self@.len() ==> atom_kind(self@[i]@) == kind && crate::ast::atom_text_of(
                self@[i]@,
            ) == (#[trigger] vals[i])@
    }

    /// Some atom has another kind, or no text kind was asked for.
    open spec fn vals_err(&self, kind: AtomKind) -> bool {
        (kind != AtomKind::Symbol && kind != AtomKind::Str) || !all_of_kind(
            atoms_view(self@),
            kind,
        )
    }

    fn get_atom_vals(&self, kind: AtomKind) -> (r: Result<Vec<String>, &'static str>) {
        if !matches!(kind, AtomKind::Symbol) && !matches!(kind, AtomKind::Str) {
            return Err("Different discriminants found");
        }
        let mut vals: Vec<String> = Vec::new();
        let mut i: usize = 0;
        while i < self.len()
            invariant
                0 <= i <= self@.len(),
                vals@.len() == i,
                matches!(kind, AtomKind::Symbol) || matches!(kind, AtomKind::Str),
                forall|j: int|
                    0 <= j < i ==> atom_kind((#[trigger] self@[j])@) == kind
                        && crate::ast::atom_text_of(self@[j]@) == vals@[j]@,
            decreases self@.len() - i,
        {
            match &self[i] {
                Atom::Symbol(s) => {
                    if let AtomKind::Symbol = kind {
                        vals.push(s.clone());
                    } else {
                        proof {
                            assert(atom_kind(atoms_view(self@)[i as int]) != kind);
                        }
                        return Err("Different discriminants found");
                    }
                },
                Atom::Str(s) => {
                    if let AtomKind::Str = kind {
                        vals.push(s.clone());
                    } else {
                        proof {
                            assert(atom_kind(atoms_view(self@)[i as int]) != kind);
                        }
                        return Err("Different discriminants found");
                    }
                },
                _ => {
                    proof {
                        assert(atom_kind(atoms_view(self@)[i as int]) != kind);
                    }
                    return Err("Different discriminants found");
                },
            }
            i += 1;
        }
        Ok(vals)
    }
}

} // verus!
