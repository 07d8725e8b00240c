//! Patterns as trees. A pattern is a tree whose leaves are variables and
//! constants and whose inner nodes are operators. It is stored as a list in
//! which equal sub-trees share one position; this module says which tree a
//! position stands for, and shows that the width-consistency check, which
//! compares positions, compares the sub-trees.

use crate::consistency::{operand_mismatch, output_width_id};
use crate::pattern::{well_formed, BinOp, Node, NodeView, Sign};
use crate::width::WidthInt;
use vstd::prelude::*;

verus! {

/// An expression of the pattern language.
pub enum Tree {
    /// A pattern variable, by its name.
    Var(Seq<char>),
    /// A width constant.
    Width(WidthInt),
    /// A sign constant.
    Sign(Sign),
    /// The width of a sum of operands of the two given widths.
    MaxPlus1(Box<Tree>, Box<Tree>),
    /// The width of a left shift of a value of the first width by an amount
    /// of the second width.
    WidthLeftShift(Box<Tree>, Box<Tree>),
    /// A binary arithmetic operator with its seven operands: the width of
    /// the result, then width, sign and value of each operand.
    Binary(BinOp, Seq<Tree>),
}

/// The tree that position `i` of a list of nodes stands for.
pub open spec fn subtree(nodes: Seq<NodeView>, i: int) -> Tree
    decreases i,
{
    if 0 <= i < nodes.len() && nodes[i].children_below(i) {
        match nodes[i] {
            Node::Var(name) => Tree::Var(name),
            Node::Width(w) => Tree::Width(w),
            Node::Sign(s) => Tree::Sign(s),
            Node::MaxPlus1(a, b) => Tree::MaxPlus1(
                Box::new(subtree(nodes, a as int)),
                Box::new(subtree(nodes, b as int)),
            ),
            Node::WidthLeftShift(w, shift) => Tree::WidthLeftShift(
                Box::new(subtree(nodes, w as int)),
                Box::new(subtree(nodes, shift as int)),
            ),
            Node::Binary(op, slots) => Tree::Binary(
                op,
                seq![
                    subtree(nodes, slots.out_width as int),
                    subtree(nodes, slots.width_a as int),
                    subtree(nodes, slots.sign_a as int),
                    subtree(nodes, slots.a as int),
                    subtree(nodes, slots.width_b as int),
                    subtree(nodes, slots.sign_b as int),
                    subtree(nodes, slots.b as int),
                ],
            ),
        }
    } else {
        arbitrary()
    }
}

/// The tree of a pattern: that of its root, the last node.
pub open spec fn tree_of(nodes: Seq<NodeView>) -> Tree {
    subtree(nodes, nodes.len() - 1)
}

/// In a pattern, two positions that stand for the same tree are the same
/// position.
pub proof fn lemma_same_tree_same_position(nodes: Seq<NodeView>, i: int, j: int)
    requires
        well_formed(nodes),
        0 <= i < nodes.len(),
        0 <= j < nodes.len(),
        subtree(nodes, i) == subtree(nodes, j),
    ensures
        i == j,
    decreases i,
{
    assert(nodes[i].children_below(i));
    assert(nodes[j].children_below(j));
    match (nodes[i], nodes[j]) {
        (Node::MaxPlus1(a, b), Node::MaxPlus1(c, d)) => {
            lemma_same_tree_same_position(nodes, a as int, c as int);
            lemma_same_tree_same_position(nodes, b as int, d as int);
        },
        (Node::WidthLeftShift(a, b), Node::WidthLeftShift(c, d)) => {
            lemma_same_tree_same_position(nodes, a as int, c as int);
            lemma_same_tree_same_position(nodes, b as int, d as int);
        },
        (Node::Binary(op, s), Node::Binary(other_op, t)) => {
            let left = subtree(nodes, i)->Binary_1;
            let right = subtree(nodes, j)->Binary_1;
            assert(left == right);
            assert(left[0] == right[0]);
            assert(left[1] == right[1]);
            assert(left[2] == right[2]);
            assert(left[3] == right[3]);
            assert(left[4] == right[4]);
            assert(left[5] == right[5]);
            assert(left[6] == right[6]);
            lemma_same_tree_same_position(nodes, s.out_width as int, t.out_width as int);
            lemma_same_tree_same_position(nodes, s.width_a as int, t.width_a as int);
            lemma_same_tree_same_position(nodes, s.sign_a as int, t.sign_a as int);
            lemma_same_tree_same_position(nodes, s.a as int, t.a as int);
            lemma_same_tree_same_position(nodes, s.width_b as int, t.width_b as int);
            lemma_same_tree_same_position(nodes, s.sign_b as int, t.sign_b as int);
            lemma_same_tree_same_position(nodes, s.b as int, t.b as int);
        },
        _ => {},
    }
    assert(nodes[i] == nodes[j]);
}

/// The width-consistency check compares sub-trees: the operand of a binary
/// arithmetic node passes exactly when it is no binary arithmetic node
/// itself, or the width declared for it and the width of its own result are
/// the same expression.
pub proof fn lemma_operand_is_checked_by_structure(
    nodes: Seq<NodeView>,
    node: usize,
    declared: usize,
    operand: usize,
)
    requires
        well_formed(nodes),
        node < nodes.len(),
        declared < node,
        operand < node,
    ensures
        operand_mismatch(nodes, node, declared, operand) is None <==> (output_width_id(
            nodes[operand as int],
        ) matches Some(actual) ==> subtree(nodes, declared as int) == subtree(
            nodes,
            actual as int,
        )),
{
    if let Some(actual) = output_width_id(nodes[operand as int]) {
        assert(nodes[operand as int].children_below(operand as int));
        if subtree(nodes, declared as int) == subtree(nodes, actual as int) {
            lemma_same_tree_same_position(nodes, declared as int, actual as int);
        }
    }
}

} // verus!
