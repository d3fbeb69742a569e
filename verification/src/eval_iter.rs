//! An evaluating cursor over a node list: each step evaluates the next
//! node, exactly as `s_eval_node` describes it.

use vstd::prelude::*;

use crate::ast::Node;
use crate::eval_result::{EvalErr, EvalResult, res_view};
use crate::expr_interpreter::{Interp, eval_node};
use crate::semantics::s_eval_node;

verus! {

/// A cursor that evaluates the nodes of a list one at a time.
pub struct NodeIter<'a> {
    nodes: &'a Vec<Node>,
    pos: usize,
}

impl<'a> NodeIter<'a> {
    pub closed spec fn spec_nodes(&self) -> Seq<Node> {
        self.nodes@
    }

    pub closed spec fn spec_pos(&self) -> int {
        self.pos as int
    }

    pub open spec fn wf(&self) -> bool {
        0 <= self.spec_pos() <= self.spec_nodes().len()
    }

    /// Evaluates the next node, if one is left.
    pub fn next(&mut self, st: &mut Interp, fuel: u64) -> (r: Option<
        Result<EvalResult, EvalErr>,
    >)
        requires
            old(self).wf(),
        ensures
            final(self).wf(),
            final(self).spec_nodes() == old(self).spec_nodes(),
            match r {
                None => {
                    &&& old(self).spec_pos() == old(self).spec_nodes().len()
                    &&& final(self).spec_pos() == old(self).spec_pos()
                    &&& final(st)@ == old(st)@
                },
                Some(rr) => {
                    let (sr, sst) = s_eval_node(
                        old(st)@,
                        old(self).spec_nodes()[old(self).spec_pos()]@,
                        fuel as nat,
                    );
                    &&& old(self).spec_pos() < old(self).spec_nodes().len()
                    &&& final(self).spec_pos() == old(self).spec_pos() + 1
                    &&& res_view(rr) == sr
                    &&& final(st)@ == sst
                },
            },
    {
        if self.pos >= self.nodes.len() {
            return None;
        }
        let r = eval_node(st, &self.nodes[self.pos], fuel);
        self.pos = self.pos + 1;
        Some(r)
    }
}

/// Hands out an evaluating cursor over a node list.
pub trait EvalIter {
    spec fn iter_nodes(&self) -> Seq<Node>;

    fn iter_eval<'a>(&'a self) -> (r: NodeIter<'a>)
        ensures
            r.wf(),
            r.spec_pos() == 0,
            r.spec_nodes() == self.iter_nodes(),
    ;
}

impl EvalIter for Vec<Node> {
    open spec fn iter_nodes(&self) -> Seq<Node> {
        self@
    }

    fn iter_eval<'a>(&'a self) -> (r: NodeIter<'a>) {
        NodeIter { nodes: self, pos: 0 }
    }
}

} // verus!
