//! User-defined procedures: named parameters, a body of syntax nodes, and
//! an optional quote-result marker. Application substitutes call-site
//! argument syntax for parameter symbols (see the evaluator).

use vstd::prelude::*;

use crate::ast::{Node, NodeV, nodes_view};

verus! {

/// Mathematical model of a user procedure.
#[verifier::ext_equal]
pub struct ProcV {
    pub params: Seq<Seq<char>>,
    pub body: Seq<NodeV>,
    pub quote_start: Option<int>,
}

/// The model of a parameter-name list, element by element.
pub open spec fn strs_view(s: Seq<String>) -> Seq<Seq<char>> {
    Seq::new(s.len(), |i: int| s[i]@)
}

/// A user procedure: ordered parameter names and a body.
#[derive(Debug, PartialEq)]
pub struct UserProc {
    arg_names: Vec<String>,
    body: Vec<Node>,
    quote_start: Option<usize>,
}

impl View for UserProc {
    type V = ProcV;

    closed spec fn view(&self) -> ProcV {
        ProcV {
            params: strs_view(self.arg_names@),
            body: nodes_view(self.body@),
            quote_start: match self.quote_start {
                Some(u) => Some(u as int),
                None => None,
            },
        }
    }
}

impl UserProc {
    /// A procedure with the given parameter names and body.
    pub fn new(args: Vec<String>, body: Vec<Node>) -> (r: UserProc)
        ensures
            r@.params == strs_view(args@),
            r@.body == nodes_view(body@),
            r@.quote_start is None,
    {
        UserProc { arg_names: args, body, quote_start: None }
    }

    /// The same procedure with the quote-result marker set.
    pub fn quote_starts_at(self, idx: usize) -> (r: UserProc)
        ensures
            r@.params == self@.params,
            r@.body == self@.body,
            r@.quote_start == Some(idx as int),
    {
        UserProc { quote_start: Some(idx), ..self }
    }

    /// How many arguments an application must supply.
    pub fn get_arity(&self) -> (r: usize)
        ensures
            r == self@.params.len(),
    {
        self.arg_names.len()
    }

    /// The body, in evaluation order.
    pub fn get_body(&self) -> (r: &Vec<Node>)
        ensures
            nodes_view(r@) == self@.body,
    {
        &self.body
    }

    /// The parameter names, in positional order.
    pub fn get_args(&self) -> (r: &Vec<String>)
        ensures
            strs_view(r@) == self@.params,
    {
        &self.arg_names
    }

    /// The quote-result marker, if one was set.
    pub fn is_quote_list_result(&self) -> (r: Option<usize>)
        ensures
            match r {
                Some(u) => self@.quote_start == Some(u as int),
                None => self@.quote_start is None,
            },
    {
        self.quote_start
    }
}

} // verus!
