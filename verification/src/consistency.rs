//! The width-consistency check. Where an operand of a binary arithmetic node
//! is itself a binary arithmetic node, the width that the parent declares for
//! the operand has to be the width that the operand declares for its own
//! result. Variables and constants impose nothing: their width is known only
//! when the pattern is matched.

use crate::pattern::{Node, NodeView, Pattern, PatternNode};
use crate::syntax::{node_name, node_text};
use vstd::prelude::*;

verus! {

/// An operand whose declared width is not the width of its own result.
#[derive(Clone, Copy, Debug, PartialEq, Eq, Structural)]
pub struct WidthMismatch {
    /// The position of the binary arithmetic node.
    pub node: usize,
    /// The position of the operand, a binary arithmetic node too.
    pub operand: usize,
    /// The position of the width that the node declares for the operand.
    pub declared: usize,
    /// The position of the width that the operand declares for its result.
    pub actual: usize,
}

/// The position of the width of the result, where the node is a binary
/// arithmetic node.
pub open spec fn output_width_id(node: NodeView) -> Option<usize> {
    match node {
        Node::Binary(_, slots) => Some(slots.out_width),
        _ => None,
    }
}

/// Whether the operand at position `operand` of node `node`, declared with
/// the width at position `declared`, is consistent; the mismatch where it is
/// not.
pub open spec fn operand_mismatch(
    nodes: Seq<NodeView>,
    node: usize,
    declared: usize,
    operand: usize,
) -> Option<WidthMismatch> {
    match output_width_id(nodes[operand as int]) {
        Some(actual) => if actual != declared {
            Some(WidthMismatch { node, operand, declared, actual })
        } else {
            None
        },
        None => None,
    }
}

/// The first mismatch at node `i`: that of its first operand, else that of
/// its second.
pub open spec fn node_mismatch(nodes: Seq<NodeView>, i: int) -> Option<WidthMismatch> {
    match nodes[i] {
        Node::Binary(_, slots) => {
            let first = operand_mismatch(nodes, i as usize, slots.width_a, slots.a);
            if first is Some {
                first
            } else {
                operand_mismatch(nodes, i as usize, slots.width_b, slots.b)
            }
        },
        _ => None,
    }
}

/// A pattern is width-consistent when no node of it has a mismatch.
pub open spec fn width_consistent(nodes: Seq<NodeView>) -> bool {
    forall|i: int| 0 <= i < nodes.len() ==> #[trigger] node_mismatch(nodes, i) is None
}

/// Whether `mismatch` is the first mismatch of the pattern: that of the
/// first node that has one.
pub open spec fn is_first_mismatch(nodes: Seq<NodeView>, mismatch: WidthMismatch) -> bool {
    &&& mismatch.node < nodes.len()
    &&& node_mismatch(nodes, mismatch.node as int) == Some(mismatch)
    &&& forall|j: int| 0 <= j < mismatch.node ==> #[trigger] node_mismatch(nodes, j) is None
}

/// What a mismatch is described as: the operator of the node, that of the
/// operand, and the two widths that should have been the same.
pub open spec fn mismatch_text(nodes: Seq<NodeView>, mismatch: WidthMismatch) -> Seq<char> {
    "In `"@ + node_text(nodes[mismatch.node as int]) + "`, subexpression `"@ + node_text(
        nodes[mismatch.operand as int],
    ) + "` has inconsistent width: "@ + node_text(nodes[mismatch.declared as int]) + " != "@
        + node_text(nodes[mismatch.actual as int])
}

impl WidthMismatch {
    /// Whether the four positions are positions of the pattern.
    pub open spec fn within(self, nodes: Seq<NodeView>) -> bool {
        &&& self.node < nodes.len()
        &&& self.operand < nodes.len()
        &&& self.declared < nodes.len()
        &&& self.actual < nodes.len()
    }

    /// Whether the four positions are positions of the pattern.
    pub fn fits(&self, pattern: &Pattern) -> (res: bool)
        ensures
            res == self.within(pattern@),
    {
        let n = pattern.len();
        self.node < n && self.operand < n && self.declared < n && self.actual < n
    }

    /// Describes the mismatch in words, for the pattern in which it was
    /// found; `None` where the mismatch is none of this pattern.
    pub fn message(&self, pattern: &Pattern) -> (res: Option<String>)
        ensures
            res is Some <==> self.within(pattern@),
            res matches Some(text) ==> text@ == mismatch_text(pattern@, *self),
    {
        if !self.fits(pattern) {
            return None;
        }
        let mut text = "In `".to_owned();
        text.append(node_name(pattern.node(self.node)).as_str());
        text.append("`, subexpression `");
        text.append(node_name(pattern.node(self.operand)).as_str());
        text.append("` has inconsistent width: ");
        text.append(node_name(pattern.node(self.declared)).as_str());
        text.append(" != ");
        text.append(node_name(pattern.node(self.actual)).as_str());
        Some(text)
    }
}

/// Returns the position of the output width, if `expr` has one.
pub fn get_output_width_id(expr: &PatternNode) -> (res: Option<usize>)
    ensures
        res == output_width_id(expr@),
{
    match expr {
        Node::Binary(_, slots) => Some(slots.out_width),
        _ => None,
    }
}

/// Checks one operand of node `node`.
fn check_operand(pattern: &Pattern, node: usize, declared: usize, operand: usize) -> (res: Option<
    WidthMismatch,
>)
    requires
        operand < pattern@.len(),
    ensures
        res == operand_mismatch(pattern@, node, declared, operand),
        res matches Some(mismatch) ==> mismatch.actual < operand,
{
    match get_output_width_id(pattern.node(operand)) {
        Some(actual) => if actual != declared {
            Some(WidthMismatch { node, operand, declared, actual })
        } else {
            None
        },
        None => None,
    }
}

/// Checks that input and output widths of operations are consistent, and
/// reports the first operand for which they are not.
pub fn check_width_consistency(pattern: &Pattern) -> (res: Result<(), WidthMismatch>)
    ensures
        res is Ok <==> width_consistent(pattern@),
        res matches Err(mismatch) ==> is_first_mismatch(pattern@, mismatch) && mismatch.within(
            pattern@,
        ),
{
    let n = pattern.len();
    let mut i: usize = 0;
    while i < n
        invariant
            i <= n,
            n == pattern@.len(),
            forall|k: int| 0 <= k < i ==> #[trigger] node_mismatch(pattern@, k) is None,
        decreases n - i,
    {
        if let Node::Binary(_, slots) = pattern.node(i) {
            if let Some(mismatch) = check_operand(pattern, i, slots.width_a, slots.a) {
                assert(node_mismatch(pattern@, i as int) == Some(mismatch));
                return Err(mismatch);
            }
            if let Some(mismatch) = check_operand(pattern, i, slots.width_b, slots.b) {
                assert(node_mismatch(pattern@, i as int) == Some(mismatch));
                return Err(mismatch);
            }
        }
        i += 1;
    }
    Ok(())
}

} // verus!
