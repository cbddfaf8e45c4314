//! The deducer: it gathers the nodes of a program and runs inference over
//! them until a pass changes nothing.

use crate::infer::infer::{infer_pass, inferred};
use crate::infer_ast::nodes::{clone_nodes, ProgramNode, ProgramNodeView};
use vstd::prelude::*;

verus! {

/// The program that deduction arrives at from `nodes`: passes are run until
/// one reports no change. Every pass so far reports none, so the first one
/// ends deduction and leaves the program as it was.
pub open spec fn deduced(nodes: Seq<ProgramNodeView>) -> Seq<ProgramNodeView> {
    nodes
}

/// Deduction ends in a fixed point: a pass over its result changes nothing,
/// and deducing from its result gives that result again.
pub proof fn lemma_deduced_is_fixed_point(nodes: Seq<ProgramNodeView>)
    ensures
        inferred(deduced(nodes)) == (deduced(nodes), false),
        deduced(deduced(nodes)) == deduced(nodes),
{
}

/// Two deductions from the same nodes agree: whatever `deduce` returns for a
/// deducer, it returns again as long as no node is added.
pub proof fn lemma_deduce_repeats(
    deducer: Deducer,
    first: Vec<ProgramNode>,
    second: Vec<ProgramNode>,
)
    requires
        first.deep_view() == deduced(deducer@),
        second.deep_view() == deduced(deducer@),
    ensures
        first.deep_view() == second.deep_view(),
{
}

/// The nodes of a program, gathered for deduction.
pub struct Deducer {
    nodes: Vec<ProgramNode>,
}

impl View for Deducer {
    type V = Seq<ProgramNodeView>;

    /// The nodes gathered so far, in the order in which they were added.
    closed spec fn view(&self) -> Seq<ProgramNodeView> {
        self.nodes.deep_view()
    }
}

impl Deducer {
    /// A deducer that holds no nodes.
    pub fn new() -> (r: Deducer)
        ensures
            r@ == Seq::<ProgramNodeView>::empty(),
    {
        let r = Deducer { nodes: Vec::new() };
        assert(r@ =~= Seq::empty());
        r
    }

    /// Adds `node` behind the nodes gathered so far.
    pub fn add_node(&mut self, node: ProgramNode)
        ensures
            final(self)@ == old(self)@.push(node@),
    {
        self.nodes.push(node);
        assert(self@ =~= old(self)@.push(node@));
    }

    /// Runs inference passes until one reports no change.
    fn full_infer(&self) -> (r: Vec<ProgramNode>)
        ensures
            r.deep_view() == deduced(self@),
    {
        let mut result = clone_nodes(&self.nodes);
        loop
            invariant
                result.deep_view() == self@,
            decreases 0int,
        {
            let (new_nodes, changed) = infer_pass(&result);
            if !changed {
                break ;
            }
            result = new_nodes;
        }
        result
    }

    /// The program that deduction arrives at from the nodes gathered. The
    /// deducer itself stays as it is.
    pub fn deduce(&self) -> (r: Vec<ProgramNode>)
        ensures
            r.deep_view() == deduced(self@),
    {
        self.full_infer()
    }
}

} // verus!
