//! The parser: turns the token stream into a forest of syntax nodes.
//! The grammar is specified by the `spec_parse_*` functions; the
//! executable parser is proved to match them.

use vstd::prelude::*;

use crate::ast::{Atom, AtomV, Node, NodeV, nodes_view, lemma_node_seq_view, hash_bool_value};
use crate::lexer::{Tok, TokV, digit_char, spec_tokens_from, tokenize, toks_view};

verus! {

broadcast use lemma_node_seq_view;

/// Why a program text fails to parse.
#[derive(Debug, Clone, Copy, PartialEq, Eq)]
pub enum ParseError {
    /// The input ended inside a form or after a quote mark.
    UnexpectedEnd,
    /// A token that cannot begin a form stood where a form was expected.
    UnexpectedToken,
    /// A numeric literal does not fit in 32 bits.
    InvalidNumber,
    /// A hash literal other than the boolean ones.
    UnknownHashSymbol,
}

/// The numeric value of a digit character; other characters count as 0.
pub open spec fn char_digit(c: char) -> int {
    match c {
        '0' => 0,
        '1' => 1,
        '2' => 2,
        '3' => 3,
        '4' => 4,
        '5' => 5,
        '6' => 6,
        '7' => 7,
        '8' => 8,
        '9' => 9,
        _ => 0,
    }
}

pub open spec fn all_digits(s: Seq<char>) -> bool {
    forall|i: int| 0 <= i < s.len() ==> digit_char(#[trigger] s[i])
}

/// The value of a digit string, read left to right in base ten.
pub open spec fn digits_val(s: Seq<char>) -> int
    decreases s.len(),
{
    if s.len() == 0 {
        0
    } else {
        digits_val(s.drop_last()) * 10 + char_digit(s.last())
    }
}

pub proof fn lemma_digits_val_nonneg(s: Seq<char>)
    ensures
        digits_val(s) >= 0,
    decreases s.len(),
{
    if s.len() > 0 {
        lemma_digits_val_nonneg(s.drop_last());
    }
}

/// The atom a single token denotes, if any. A symbol that reads as a
/// minus sign followed by digits denotes a (negative) number.
pub open spec fn token_atom(t: TokV) -> Result<AtomV, ParseError> {
    match t {
        TokV::Num(s) => if s.len() == 0 || !all_digits(s) || digits_val(s) > i32::MAX as int {
            Err(ParseError::InvalidNumber)
        } else {
            Ok(AtomV::Num(digits_val(s) as i32))
        },
        TokV::Symbol(s) => if s.len() >= 2 && s[0] == '-' && all_digits(s.subrange(1, s.len() as int)) {
            if digits_val(s.subrange(1, s.len() as int)) > -(i32::MIN as int) {
                Err(ParseError::InvalidNumber)
            } else {
                Ok(AtomV::Num((-digits_val(s.subrange(1, s.len() as int))) as i32))
            }
        } else {
            Ok(AtomV::Symbol(s))
        },
        TokV::Str(s) => Ok(AtomV::Str(s)),
        TokV::HashSymbol(s) => match hash_bool_value(s) {
            Some(b) => Ok(AtomV::Bool(b)),
            None => Err(ParseError::UnknownHashSymbol),
        },
        _ => Err(ParseError::UnexpectedToken),
    }
}

/// Totality guard for the spec parser's recursion: the lemma below shows
/// that a successful parse always lands in `(pos, len]`, so this is the
/// identity on every position the parser actually produces.
pub open spec fn advance_pos(pos: int, p2: int, len: int) -> int {
    if p2 <= pos {
        pos + 1
    } else if p2 > len {
        len
    } else {
        p2
    }
}

/// One form: an atom, a parenthesized list, or a quoted form.
pub open spec fn spec_parse_node(toks: Seq<TokV>, pos: int) -> Result<(NodeV, int), ParseError>
    decreases toks.len() - pos, 0int,
{
    if pos < 0 || pos >= toks.len() {
        Err(ParseError::UnexpectedEnd)
    } else {
        match toks[pos] {
            TokV::LeftParen => match spec_parse_items(toks, pos + 1) {
                Ok((items, p2)) => Ok((NodeV::List(items), p2)),
                Err(e) => Err(e),
            },
            TokV::Quote => if pos + 1 >= toks.len() {
                Err(ParseError::UnexpectedEnd)
            } else if toks[pos + 1] is LeftParen {
                match spec_parse_items(toks, pos + 2) {
                    Ok((items, p2)) => Ok((NodeV::QuoteList(items), p2)),
                    Err(e) => Err(e),
                }
            } else {
                match token_atom(toks[pos + 1]) {
                    Ok(a) => Ok((NodeV::QuoteAtom(a), pos + 2)),
                    Err(e) => Err(e),
                }
            },
            TokV::RightParen => Err(ParseError::UnexpectedToken),
            t => match token_atom(t) {
                Ok(a) => Ok((NodeV::Atom(a), pos + 1)),
                Err(e) => Err(e),
            },
        }
    }
}

/// Zero or more forms followed by a closing parenthesis, which is
/// consumed.
pub open spec fn spec_parse_items(toks: Seq<TokV>, pos: int) -> Result<
    (Seq<NodeV>, int),
    ParseError,
>
    decreases toks.len() - pos, 1int,
{
    if pos < 0 || pos >= toks.len() {
        Err(ParseError::UnexpectedEnd)
    } else if toks[pos] is RightParen {
        Ok((Seq::empty(), pos + 1))
    } else {
        match spec_parse_node(toks, pos) {
            Ok((n, p2)) => match spec_parse_items(
                toks,
                advance_pos(pos, p2, toks.len() as int),
            ) {
                Ok((rest, p3)) => Ok((seq![n] + rest, p3)),
                Err(e) => Err(e),
            },
            Err(e) => Err(e),
        }
    }
}

/// A whole program: a sequence of parenthesized top-level forms.
pub open spec fn spec_parse_program(toks: Seq<TokV>, pos: int) -> Result<
    Seq<Seq<NodeV>>,
    ParseError,
>
    decreases toks.len() - pos, 2int,
{
    if pos < 0 || pos >= toks.len() {
        Ok(Seq::empty())
    } else if toks[pos] is LeftParen {
        match spec_parse_items(toks, pos + 1) {
            Ok((items, p2)) => match spec_parse_program(
                toks,
                advance_pos(pos, p2, toks.len() as int),
            ) {
                Ok(rest) => Ok(seq![items] + rest),
                Err(e) => Err(e),
            },
            Err(e) => Err(e),
        }
    } else {
        Err(ParseError::UnexpectedToken)
    }
}

/// A successful parse always advances, and never runs past the end.
pub proof fn lemma_parse_advances(toks: Seq<TokV>, pos: int)
    ensures
        spec_parse_node(toks, pos) matches Ok((n, p2)) ==> pos < p2 <= toks.len(),
        spec_parse_items(toks, pos) matches Ok((items, p2)) ==> pos < p2 <= toks.len(),
    decreases toks.len() - pos, 3int,
{
    if 0 <= pos < toks.len() {
        lemma_parse_advances(toks, pos + 1);
        if pos + 2 <= toks.len() {
            lemma_parse_advances(toks, pos + 2);
        }
        if !(toks[pos] is RightParen) {
            match spec_parse_node(toks, pos) {
                Ok(res) => {
                    lemma_parse_advances(toks, advance_pos(pos, res.1, toks.len() as int));
                },
                Err(e) => {},
            }
        }
    }
}

fn char_digit_exec(c: char) -> (r: u64)
    ensures
        r as int == char_digit(c),
        r <= 9,
{
    match c {
        '0' => 0,
        '1' => 1,
        '2' => 2,
        '3' => 3,
        '4' => 4,
        '5' => 5,
        '6' => 6,
        '7' => 7,
        '8' => 8,
        '9' => 9,
        _ => 0,
    }
}

fn all_digits_exec(s: &str) -> (r: bool)
    ensures
        r == all_digits(s@),
{
    let len = s.unicode_len();
    let mut i: usize = 0;
    while i < len
        invariant
            0 <= i <= len,
            len == s@.len(),
            forall|j: int| 0 <= j < i ==> digit_char(#[trigger] s@[j]),
        decreases len - i,
    {
        let c = s.get_char(i);
        if !('0' <= c && c <= '9') {
            proof {
                assert(!digit_char(s@[i as int]));
            }
            return false;
        }
        i += 1;
    }
    true
}

/// Reading more digits never shrinks the value.
proof fn lemma_digits_val_prefix(s: Seq<char>, i: int)
    requires
        0 <= i <= s.len(),
    ensures
        digits_val(s.subrange(0, i)) <= digits_val(s),
    decreases s.len() - i,
{
    if i < s.len() {
        assert(s.subrange(0, i + 1).drop_last() =~= s.subrange(0, i));
        assert(s.subrange(0, i + 1).last() == s[i]);
        lemma_digits_val_nonneg(s.subrange(0, i));
        lemma_digits_val_prefix(s, i + 1);
    } else {
        assert(s.subrange(0, i) =~= s);
    }
}

/// The value of a digit string, or `None` where it exceeds 32 bits.
fn digits_checked(s: &str) -> (r: Option<u64>)
    ensures
        match r {
            Some(v) => v as int == digits_val(s@) && digits_val(s@) <= u32::MAX as int,
            None => digits_val(s@) > u32::MAX as int,
        },
{
    let len = s.unicode_len();
    let mut acc: u64 = 0;
    let mut i: usize = 0;
    while i < len
        invariant
            0 <= i <= len,
            len == s@.len(),
            acc as int == digits_val(s@.subrange(0, i as int)),
            acc <= u32::MAX as u64,
        decreases len - i,
    {
        let c = s.get_char(i);
        let d = char_digit_exec(c);
        let next = acc * 10 + d;
        proof {
            assert(s@.subrange(0, i + 1).drop_last() =~= s@.subrange(0, i as int));
            assert(s@.subrange(0, i + 1).last() == s@[i as int]);
        }
        if next > u32::MAX as u64 {
            proof {
                lemma_digits_val_prefix(s@, i + 1);
            }
            return None;
        }
        acc = next;
        i += 1;
    }
    proof {
        assert(s@.subrange(0, len as int) =~= s@);
    }
    Some(acc)
}

/// The executable form of `token_atom`.
fn token_to_atom(t: &Tok) -> (r: Result<Atom, ParseError>)
    ensures
        ({
            let sr = token_atom(t@);
            match r {
                Ok(a) => sr == Ok::<AtomV, ParseError>(a@),
                Err(e) => sr == Err::<AtomV, ParseError>(e),
            }
        }),
{
    match t {
        Tok::Num(s) => {
            let sref: &str = s.as_str();
            if sref.unicode_len() == 0 || !all_digits_exec(sref) {
                return Err(ParseError::InvalidNumber);
            }
            match digits_checked(sref) {
                Some(v) => {
                    if v <= i32::MAX as u64 {
                        proof {
                            lemma_digits_val_nonneg(s@);
                        }
                        Ok(Atom::Num(v as i32))
                    } else {
                        Err(ParseError::InvalidNumber)
                    }
                },
                None => Err(ParseError::InvalidNumber),
            }
        },
        Tok::Symbol(s) => {
            let sref: &str = s.as_str();
            let len = sref.unicode_len();
            if len >= 2 && sref.get_char(0) == '-' {
                let digits = sref.substring_char(1, len);
                if all_digits_exec(digits) {
                    match digits_checked(digits) {
                        Some(v) => {
                            if v <= i32::MAX as u64 {
                                proof {
                                    lemma_digits_val_nonneg(digits@);
                                }
                                Ok(Atom::Num(-(v as i32)))
                            } else if v == 2147483648 {
                                Ok(Atom::Num(i32::MIN))
                            } else {
                                Err(ParseError::InvalidNumber)
                            }
                        },
                        None => Err(ParseError::InvalidNumber),
                    }
                } else {
                    Ok(Atom::Symbol(s.clone()))
                }
            } else {
                Ok(Atom::Symbol(s.clone()))
            }
        },
        Tok::Str(s) => Ok(Atom::Str(s.clone())),
        Tok::HashSymbol(s) => {
            let sref: &str = s.as_str();
            if crate::util::str_eq(sref, "#true") || crate::util::str_eq(sref, "#t")
                || crate::util::str_eq(sref, "#T") {
                Ok(Atom::Bool(true))
            } else if crate::util::str_eq(sref, "#false") || crate::util::str_eq(sref, "#f")
                || crate::util::str_eq(sref, "#F") {
                Ok(Atom::Bool(false))
            } else {
                Err(ParseError::UnknownHashSymbol)
            }
        },
        _ => Err(ParseError::UnexpectedToken),
    }
}

/// One form of the token stream, by recursive descent.
pub fn parse_node(toks: &Vec<Tok>, pos: usize) -> (r: Result<(Node, usize), ParseError>)
    ensures
        ({
            let sr = spec_parse_node(toks_view(toks@), pos as int);
            match r {
                Ok((n, p)) => sr == Ok::<(NodeV, int), ParseError>((n@, p as int)),
                Err(e) => sr == Err::<(NodeV, int), ParseError>(e),
            }
        }),
    decreases toks@.len() - pos, 0int,
{
    if pos >= toks.len() {
        return Err(ParseError::UnexpectedEnd);
    }
    match &toks[pos] {
        Tok::LeftParen => match parse_items(toks, pos + 1) {
            Ok((items, p2)) => {
                proof {
                    lemma_node_seq_view(items@);
                }
                Ok((Node::List(items), p2))
            },
            Err(e) => Err(e),
        },
        Tok::RightParen => Err(ParseError::UnexpectedToken),
        Tok::Quote => {
            if pos + 1 >= toks.len() {
                return Err(ParseError::UnexpectedEnd);
            }
            match &toks[pos + 1] {
                Tok::LeftParen => match parse_items(toks, pos + 2) {
                    Ok((items, p2)) => {
                        proof {
                            lemma_node_seq_view(items@);
                        }
                        Ok((Node::QuoteList(items), p2))
                    },
                    Err(e) => Err(e),
                },
                t2 => match token_to_atom(t2) {
                    Ok(a) => Ok((Node::QuoteAtom(a), pos + 2)),
                    Err(e) => Err(e),
                },
            }
        },
        t => match token_to_atom(t) {
            Ok(a) => Ok((Node::Atom(a), pos + 1)),
            Err(e) => Err(e),
        },
    }
}

/// Forms up to and including the closing parenthesis.
pub fn parse_items(toks: &Vec<Tok>, pos: usize) -> (r: Result<(Vec<Node>, usize), ParseError>)
    ensures
        ({
            let sr = spec_parse_items(toks_view(toks@), pos as int);
            match r {
                Ok((items, p)) => sr == Ok::<(Seq<NodeV>, int), ParseError>(
                    (nodes_view(items@), p as int),
                ),
                Err(e) => sr == Err::<(Seq<NodeV>, int), ParseError>(e),
            }
        }),
    decreases toks@.len() - pos, 1int,
{
    if pos >= toks.len() {
        return Err(ParseError::UnexpectedEnd);
    }
    if let Tok::RightParen = &toks[pos] {
        let empty: Vec<Node> = Vec::new();
        proof {
            assert(nodes_view(empty@) =~= Seq::<NodeV>::empty());
        }
        return Ok((empty, pos + 1));
    }
    match parse_node(toks, pos) {
        Err(e) => Err(e),
        Ok((n, p2)) => {
            proof {
                lemma_parse_advances(toks_view(toks@), pos as int);
            }
            match parse_items(toks, p2) {
                Err(e) => Err(e),
                Ok((rest, p3)) => {
                    let ghost rest0 = rest@;
                    let mut items = rest;
                    items.insert(0, n);
                    proof {
                        assert(nodes_view(items@) =~= seq![n@] + nodes_view(rest0));
                    }
                    Ok((items, p3))
                },
            }
        },
    }
}

/// The model of a parsed program, form by form.
pub open spec fn forest_view(f: Seq<Vec<Node>>) -> Seq<Seq<NodeV>> {
    Seq::new(f.len(), |i: int| nodes_view(f[i]@))
}

/// Top-level forms of the token stream.
pub fn parse_program(toks: &Vec<Tok>, pos: usize) -> (r: Result<Vec<Vec<Node>>, ParseError>)
    ensures
        ({
            let sr = spec_parse_program(toks_view(toks@), pos as int);
            match r {
                Ok(f) => sr == Ok::<Seq<Seq<NodeV>>, ParseError>(forest_view(f@)),
                Err(e) => sr == Err::<Seq<Seq<NodeV>>, ParseError>(e),
            }
        }),
    decreases toks@.len() - pos, 2int,
{
    if pos >= toks.len() {
        let empty: Vec<Vec<Node>> = Vec::new();
        proof {
            assert(forest_view(empty@) =~= Seq::<Seq<NodeV>>::empty());
        }
        return Ok(empty);
    }
    if let Tok::LeftParen = &toks[pos] {
        match parse_items(toks, pos + 1) {
            Err(e) => Err(e),
            Ok((items, p2)) => {
                proof {
                    lemma_parse_advances(toks_view(toks@), pos as int + 1);
                }
                match parse_program(toks, p2) {
                    Err(e) => Err(e),
                    Ok(rest) => {
                        let ghost rest0 = rest@;
                        let ghost itemsg = items@;
                        let mut forms = rest;
                        forms.insert(0, items);
                        proof {
                            assert(forest_view(forms@) =~= seq![nodes_view(itemsg)] + forest_view(
                                rest0,
                            ));
                        }
                        Ok(forms)
                    },
                }
            },
        }
    } else {
        Err(ParseError::UnexpectedToken)
    }
}

/// Parses program text: tokens, then top-level forms.
pub fn parse_ceceo(input: &str) -> (r: Result<Vec<Vec<Node>>, ParseError>)
    ensures
        ({
            let sr = spec_parse_program(spec_tokens_from(input@, 0), 0);
            match r {
                Ok(f) => sr == Ok::<Seq<Seq<NodeV>>, ParseError>(forest_view(f@)),
                Err(e) => sr == Err::<Seq<Seq<NodeV>>, ParseError>(e),
            }
        }),
{
    let toks = tokenize(input);
    parse_program(&toks, 0)
}

} // verus!
