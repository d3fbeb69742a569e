//! The display-tooling tree: each atom becomes a labeled entry, each
//! list a list of entries, recursively. A host serializes this tree;
//! the shape itself is specified and proved here.

use vstd::prelude::*;

use crate::ast::{Atom, AtomV, Node, NodeV, atom_dup, node_view, nodes_view, lemma_node_seq_view};

verus! {

/// Model of the serialized tree.
#[verifier::ext_equal]
pub enum InfoV {
    List(Seq<InfoV>),
    Atom(Seq<char>, AtomV),
}

/// The type label of an atom: its kind, or the boolean's own text.
pub open spec fn atom_kind_text(a: AtomV) -> Seq<char> {
    match a {
        AtomV::Num(_) => "number"@,
        AtomV::Symbol(_) => "symbol"@,
        AtomV::Str(_) => "string"@,
        AtomV::Bool(b) => if b {
            "true"@
        } else {
            "false"@
        },
    }
}

/// The info tree of a node: atoms, quoted or not, become labeled
/// entries; lists, quoted or not, become lists of their elements' info.
pub open spec fn node_info(n: NodeV) -> InfoV
    decreases n,
{
    match n {
        NodeV::Atom(a) => InfoV::Atom(atom_kind_text(a), a),
        NodeV::QuoteAtom(a) => InfoV::Atom(atom_kind_text(a), a),
        NodeV::List(l) => InfoV::List(seq_info(l)),
        NodeV::QuoteList(l) => InfoV::List(seq_info(l)),
    }
}

/// The info of each node of a sequence.
pub open spec fn seq_info(l: Seq<NodeV>) -> Seq<InfoV>
    decreases l,
{
    if l.len() == 0 {
        Seq::empty()
    } else {
        seq![node_info(l[0])] + seq_info(l.subrange(1, l.len() as int))
    }
}

/// `seq_info` maps element by element.
pub proof fn lemma_seq_info_index(l: Seq<NodeV>)
    ensures
        seq_info(l).len() == l.len(),
        forall|i: int| 0 <= i < l.len() ==> #[trigger] seq_info(l)[i] == node_info(l[i]),
    decreases l,
{
    if l.len() > 0 {
        lemma_seq_info_index(l.subrange(1, l.len() as int));
    }
}

/// An atom entry: its type label and its value.
#[derive(Debug, PartialEq)]
pub struct InfoStruct {
    pub kind: String,
    pub value: Atom,
}

/// A node of the serialized tree.
#[derive(Debug, PartialEq)]
pub enum ListOrAtomInfo {
    List(Vec<ListOrAtomInfo>),
    Atom(InfoStruct),
}

pub open spec fn info_view(v: ListOrAtomInfo) -> InfoV
    decreases v,
{
    match v {
        ListOrAtomInfo::List(l) => InfoV::List(info_seq_view(l@)),
        ListOrAtomInfo::Atom(i) => InfoV::Atom(i.kind@, i.value@),
    }
}

pub open spec fn info_seq_view(l: Seq<ListOrAtomInfo>) -> Seq<InfoV>
    decreases l,
{
    if l.len() == 0 {
        Seq::empty()
    } else {
        seq![info_view(l[0])] + info_seq_view(l.subrange(1, l.len() as int))
    }
}

impl View for ListOrAtomInfo {
    type V = InfoV;

    open spec fn view(&self) -> InfoV {
        info_view(*self)
    }
}

/// `info_seq_view` maps element by element.
pub proof fn lemma_info_seq_view_index(l: Seq<ListOrAtomInfo>)
    ensures
        info_seq_view(l).len() == l.len(),
        forall|i: int| 0 <= i < l.len() ==> #[trigger] info_seq_view(l)[i] == l[i]@,
    decreases l,
{
    if l.len() > 0 {
        lemma_info_seq_view_index(l.subrange(1, l.len() as int));
    }
}

/// The type label of an atom.
fn atom_kind_exec(a: &Atom) -> (r: String)
    ensures
        r@ == atom_kind_text(a@),
{
    match a {
        Atom::Num(_) => "number".to_owned(),
        Atom::Symbol(_) => "symbol".to_owned(),
        Atom::Str(_) => "string".to_owned(),
        Atom::Bool(b) => if *b {
            "true".to_owned()
        } else {
            "false".to_owned()
        },
    }
}

/// The info list of a node sequence.
fn nodes_to_info_structs(vn: &Vec<Node>) -> (r: ListOrAtomInfo)
    ensures
        r@ == InfoV::List(seq_info(nodes_view(vn@))),
    decreases vn,
{
    let mut out: Vec<ListOrAtomInfo> = Vec::new();
    let mut i: usize = 0;
    proof {
        lemma_seq_info_index(nodes_view(vn@));
    }
    while i < vn.len()
        invariant
            0 <= i <= vn@.len(),
            out@.len() == i,
            forall|j: int| 0 <= j < i ==> out@[j]@ == node_info(vn@[j]@),
            seq_info(nodes_view(vn@)).len() == vn@.len(),
            forall|j: int|
                0 <= j < vn@.len() ==> #[trigger] seq_info(nodes_view(vn@))[j] == node_info(
                    vn@[j]@,
                ),
        decreases vn@.len() - i,
    {
        out.push(vn[i].to_info_struct());
        i += 1;
    }
    proof {
        lemma_info_seq_view_index(out@);
        assert(info_seq_view(out@) =~= seq_info(nodes_view(vn@)));
    }
    ListOrAtomInfo::List(out)
}

/// What a value serializes to.
pub trait ToInfoStruct {
    spec fn info_model(&self) -> InfoV;

    fn to_info_struct(&self) -> (r: ListOrAtomInfo)
        ensures
            r@ == self.info_model(),
    ;
}

impl ToInfoStruct for Node {
    open spec fn info_model(&self) -> InfoV {
        node_info(node_view(*self))
    }

    fn to_info_struct(&self) -> (r: ListOrAtomInfo)
        decreases self,
    {
        match self {
            Node::Atom(a) => ListOrAtomInfo::Atom(
                InfoStruct { kind: atom_kind_exec(a), value: atom_dup(a) },
            ),
            Node::QuoteAtom(a) => ListOrAtomInfo::Atom(
                InfoStruct { kind: atom_kind_exec(a), value: atom_dup(a) },
            ),
            Node::List(l) => {
                proof {
                    lemma_node_seq_view(l@);
                }
                nodes_to_info_structs(l)
            },
            Node::QuoteList(l) => {
                proof {
                    lemma_node_seq_view(l@);
                }
                nodes_to_info_structs(l)
            },
        }
    }
}

impl ToInfoStruct for Vec<Node> {
    open spec fn info_model(&self) -> InfoV {
        InfoV::List(seq_info(nodes_view(self@)))
    }

    fn to_info_struct(&self) -> (r: ListOrAtomInfo) {
        nodes_to_info_structs(self)
    }
}

/// The info of each form of a parsed program.
pub open spec fn forest_info(f: Seq<Vec<Node>>) -> Seq<InfoV> {
    Seq::new(f.len(), |i: int| InfoV::List(seq_info(nodes_view(f[i]@))))
}

impl ToInfoStruct for Vec<Vec<Node>> {
    open spec fn info_model(&self) -> InfoV {
        InfoV::List(forest_info(self@))
    }

    fn to_info_struct(&self) -> (r: ListOrAtomInfo) {
        let mut out: Vec<ListOrAtomInfo> = Vec::new();
        let mut i: usize = 0;
        while i < self.len()
            invariant
                0 <= i <= self@.len(),
                out@.len() == i,
                forall|j: int|
                    0 <= j < i ==> out@[j]@ == InfoV::List(seq_info(nodes_view(self@[j]@))),
            decreases self@.len() - i,
        {
            out.push(nodes_to_info_structs(&self[i]));
            i += 1;
        }
        proof {
            lemma_info_seq_view_index(out@);
            assert(info_seq_view(out@) =~= forest_info(self@));
        }
        ListOrAtomInfo::List(out)
    }
}

} // verus!
