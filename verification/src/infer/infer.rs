//! One pass of inference over a program.

use crate::infer_ast::nodes::{ProgramNode, ProgramNodeView};
use vstd::prelude::*;

verus! {

/// What one inference pass makes of a program: the rewritten program, and
/// whether the pass changed anything. No rewrite rule exists yet, so the pass
/// is the identity and never reports a change.
pub open spec fn inferred(nodes: Seq<ProgramNodeView>) -> (Seq<ProgramNodeView>, bool) {
    (nodes, false)
}

/// Runs one inference pass over `nodes`: the rewritten program, and whether
/// the pass changed anything.
pub fn infer_pass(nodes: &Vec<ProgramNode>) -> (r: (Vec<ProgramNode>, bool))
    ensures
        (r.0.deep_view(), r.1) == inferred(nodes.deep_view()),
{
    let changed: bool = false;
    let mut result: Vec<ProgramNode> = Vec::new();
    let mut i: usize = 0;
    while i < nodes.len()
        invariant
            i <= nodes.len(),
            result.len() == i,
            forall|k: int| 0 <= k < i ==> result[k]@ == nodes[k]@,
        decreases nodes.len() - i,
    {
        result.push(nodes[i].clone());
        i = i + 1;
    }
    assert(result.deep_view() =~= nodes.deep_view());
    (result, changed)
}

} // verus!
