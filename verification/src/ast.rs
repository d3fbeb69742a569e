//! The value model: atoms and syntax nodes, together with their
//! mathematical models (`AtomV`, `NodeV`) used by all contracts.

use vstd::prelude::*;

verus! {

/// An indivisible value: number, symbol, string, or boolean.
#[derive(Debug, Clone, PartialEq, Eq)]
pub enum Atom {
    Num(i32),
    Symbol(String),
    Str(String),
    Bool(bool),
}

/// A parsed, not-yet-evaluated S-expression element. Quoted variants
/// suppress evaluation of their contents until explicitly forced.
#[derive(Debug, PartialEq)]
pub enum Node {
    Atom(Atom),
    List(Vec<Node>),
    QuoteList(Vec<Node>),
    QuoteAtom(Atom),
}

/// Mathematical model of an `Atom`.
#[verifier::ext_equal]
pub enum AtomV {
    Num(i32),
    Symbol(Seq<char>),
    Str(Seq<char>),
    Bool(bool),
}

/// Mathematical model of a `Node`.
#[verifier::ext_equal]
pub enum NodeV {
    Atom(AtomV),
    List(Seq<NodeV>),
    QuoteList(Seq<NodeV>),
    QuoteAtom(AtomV),
}

impl View for Atom {
    type V = AtomV;

    open spec fn view(&self) -> AtomV {
        match self {
            Atom::Num(n) => AtomV::Num(*n),
            Atom::Symbol(s) => AtomV::Symbol(s@),
            Atom::Str(s) => AtomV::Str(s@),
            Atom::Bool(b) => AtomV::Bool(*b),
        }
    }
}

pub open spec fn node_view(n: Node) -> NodeV
    decreases n,
{
    match n {
        Node::Atom(a) => NodeV::Atom(a@),
        Node::List(l) => NodeV::List(node_seq_view(l@)),
        Node::QuoteList(l) => NodeV::QuoteList(node_seq_view(l@)),
        Node::QuoteAtom(a) => NodeV::QuoteAtom(a@),
    }
}

pub open spec fn node_seq_view(s: Seq<Node>) -> Seq<NodeV>
    decreases s,
{
    if s.len() == 0 {
        Seq::empty()
    } else {
        seq![node_view(s[0])] + node_seq_view(s.subrange(1, s.len() as int))
    }
}

impl View for Node {
    type V = NodeV;

    open spec fn view(&self) -> NodeV {
        node_view(*self)
    }
}

/// The model of a sequence of nodes, element by element.
pub open spec fn nodes_view(l: Seq<Node>) -> Seq<NodeV> {
    Seq::new(l.len(), |i: int| l[i]@)
}

/// `node_seq_view` agrees with the element-by-element model.
pub broadcast proof fn lemma_node_seq_view(s: Seq<Node>)
    ensures
        #[trigger] node_seq_view(s) == nodes_view(s),
    decreases s,
{
    if s.len() == 0 {
        assert(node_seq_view(s) =~= nodes_view(s));
    } else {
        lemma_node_seq_view(s.subrange(1, s.len() as int));
        assert(node_seq_view(s) =~= nodes_view(s));
    }
}

/// A structural copy of an atom, with its model preserved.
pub fn atom_dup(a: &Atom) -> (r: Atom)
    ensures
        r@ == a@,
{
    match a {
        Atom::Num(n) => Atom::Num(*n),
        Atom::Symbol(s) => Atom::Symbol(s.clone()),
        Atom::Str(s) => Atom::Str(s.clone()),
        Atom::Bool(b) => Atom::Bool(*b),
    }
}

/// A structural copy of a node, with its model preserved.
pub fn node_dup(n: &Node) -> (r: Node)
    ensures
        r@ == n@,
    decreases n,
{
    match n {
        Node::Atom(a) => Node::Atom(atom_dup(a)),
        Node::QuoteAtom(a) => Node::QuoteAtom(atom_dup(a)),
        Node::List(l) => {
            let rv = nodes_dup(l);
            proof {
                broadcast use lemma_node_seq_view;

                assert(node_seq_view(rv@) == node_seq_view(l@));
            }
            Node::List(rv)
        },
        Node::QuoteList(l) => {
            let rv = nodes_dup(l);
            proof {
                broadcast use lemma_node_seq_view;

                assert(node_seq_view(rv@) == node_seq_view(l@));
            }
            Node::QuoteList(rv)
        },
    }
}

/// A structural copy of a node list, with its models preserved.
pub fn nodes_dup(l: &Vec<Node>) -> (r: Vec<Node>)
    ensures
        nodes_view(r@) == nodes_view(l@),
        r@.len() == l@.len(),
    decreases l,
{
    let mut r: Vec<Node> = Vec::new();
    let mut i: usize = 0;
    while i < l.len()
        invariant
            0 <= i <= l@.len(),
            r@.len() == i,
            forall|j: int| 0 <= j < i ==> r@[j]@ == l@[j]@,
        decreases l@.len() - i,
    {
        r.push(node_dup(&l[i]));
        i += 1;
    }
    proof {
        assert(nodes_view(r@) =~= nodes_view(l@));
    }
    r
}

/// The raw text carried by a symbol or string atom.
pub open spec fn atom_text_of(a: AtomV) -> Seq<char> {
    match a {
        AtomV::Symbol(s) => s,
        AtomV::Str(s) => s,
        _ => Seq::empty(),
    }
}

/// Which boolean, if any, a hash literal such as `#t` or `#false` denotes.
pub open spec fn hash_bool_value(s: Seq<char>) -> Option<bool> {
    if s == "#true"@ || s == "#t"@ || s == "#T"@ {
        Some(true)
    } else if s == "#false"@ || s == "#f"@ || s == "#F"@ {
        Some(false)
    } else {
        None
    }
}

/// Turns a hash literal into the boolean atom it denotes. Inputs that are
/// not one of the recognized literals are ruled out by the caller.
pub fn parse_hash_symbol(s: &str) -> (r: Atom)
    requires
        hash_bool_value(s@) is Some,
    ensures
        r@ == AtomV::Bool(hash_bool_value(s@).unwrap()),
{
    if crate::util::str_eq(s, "#true") || crate::util::str_eq(s, "#t") || crate::util::str_eq(
        s,
        "#T",
    ) {
        Atom::Bool(true)
    } else {
        Atom::Bool(false)
    }
}

} // verus!
