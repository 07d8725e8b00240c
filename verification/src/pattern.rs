//! The pattern language: variables, width and sign constants, the two width
//! operators and the binary arithmetic operators, which carry the width of
//! their result and the width and sign of each operand.
//!
//! A pattern is stored as a list of nodes in which every node refers to its
//! operands by their position in the list. Operands come before the node that
//! uses them and no node occurs twice, so two slots hold the same position
//! exactly when they hold the same sub-expression.

use crate::width::WidthInt;
use vstd::prelude::*;

verus! {

/// Whether `s` can name a pattern variable: a question mark followed by at
/// least one more character.
pub open spec fn is_var_name(s: Seq<char>) -> bool {
    s.len() > 1 && s[0] == '?'
}

/// A pattern variable. It stands for an unknown sub-expression, width or sign.
#[derive(Debug, PartialEq, Eq)]
pub struct Var {
    name: String,
}

impl View for Var {
    type V = Seq<char>;

    closed spec fn view(&self) -> Seq<char> {
        self.name@
    }
}

impl Var {
    #[verifier::type_invariant]
    spec fn valid(self) -> bool {
        is_var_name(self.name@)
    }

    /// Makes a variable of a name that starts with a question mark.
    pub fn new(name: &str) -> (res: Option<Var>)
        ensures
            res is Some <==> is_var_name(name@),
            res matches Some(v) ==> v@ == name@,
    {
        if name.unicode_len() > 1 && name.get_char(0) == '?' {
            Some(Var { name: name.to_owned() })
        } else {
            None
        }
    }

    /// The name, question mark included.
    pub fn name(&self) -> (res: &str)
        ensures
            res@ == self@,
            is_var_name(res@),
    {
        proof {
            use_type_invariant(self);
        }
        self.name.as_str()
    }

    /// Whether two variables have the same name.
    pub fn same(&self, other: &Var) -> (res: bool)
        ensures
            res == (self@ == other@),
    {
        self.name == other.name
    }

}

impl Clone for Var {
    fn clone(&self) -> (res: Var)
        ensures
            res@ == self@,
    {
        proof {
            use_type_invariant(self);
        }
        Var { name: self.name.clone() }
    }
}

/// The signedness of a bit-vector operand.
#[derive(Clone, Copy, Debug, PartialEq, Eq, Structural)]
pub enum Sign {
    Unsigned,
    Signed,
}

impl Sign {
    /// The number that stands for a sign among the values of a side
    /// condition: 0 for unsigned, 1 for signed.
    pub open spec fn spec_value(self) -> WidthInt {
        match self {
            Sign::Unsigned => 0,
            Sign::Signed => 1,
        }
    }

    /// The number that stands for a sign among the values of a side
    /// condition: 0 for unsigned, 1 for signed.
    #[verifier::when_used_as_spec(spec_value)]
    pub fn value(self) -> (res: WidthInt)
        ensures
            res == self.spec_value(),
    {
        match self {
            Sign::Unsigned => 0,
            Sign::Signed => 1,
        }
    }
}

/// The binary arithmetic operators.
#[derive(Clone, Copy, Debug, PartialEq, Eq, Structural)]
pub enum BinOp {
    Add,
    Mul,
    LeftShift,
}

/// The seven operand slots of a binary arithmetic node, each the position of
/// a node of the same pattern.
#[derive(Clone, Copy, Debug, PartialEq, Eq, Structural)]
pub struct Slots {
    /// The width of the result.
    pub out_width: usize,
    /// The width of the first operand.
    pub width_a: usize,
    /// The sign of the first operand.
    pub sign_a: usize,
    /// The first operand.
    pub a: usize,
    /// The width of the second operand.
    pub width_b: usize,
    /// The sign of the second operand.
    pub sign_b: usize,
    /// The second operand.
    pub b: usize,
}

impl Slots {
    /// Whether every slot holds a position below `bound`.
    pub open spec fn below(self, bound: int) -> bool {
        &&& self.out_width < bound
        &&& self.width_a < bound
        &&& self.sign_a < bound
        &&& self.a < bound
        &&& self.width_b < bound
        &&& self.sign_b < bound
        &&& self.b < bound
    }
}

/// One node of a pattern, with variables of type `V`.
#[derive(Debug, PartialEq, Eq)]
pub enum Node<V> {
    /// A pattern variable.
    Var(V),
    /// A width constant.
    Width(WidthInt),
    /// A sign constant.
    Sign(Sign),
    /// The width of a sum: the positions of the two operand widths.
    MaxPlus1(usize, usize),
    /// The width of a left shift: the positions of the width of the value
    /// and of the width of the shift amount.
    WidthLeftShift(usize, usize),
    /// A binary arithmetic operator.
    Binary(BinOp, Slots),
}

/// A node as stored in a pattern.
pub type PatternNode = Node<Var>;

/// A node as contracts speak of it: variables are their names.
pub type NodeView = Node<Seq<char>>;

impl<V> Node<V> {
    /// The operand positions of the node, in the order in which they are
    /// written.
    pub open spec fn children(self) -> Seq<usize> {
        match self {
            Node::Var(_) | Node::Width(_) | Node::Sign(_) => seq![],
            Node::MaxPlus1(a, b) => seq![a, b],
            Node::WidthLeftShift(w, shift) => seq![w, shift],
            Node::Binary(_, slots) => seq![
                slots.out_width,
                slots.width_a,
                slots.sign_a,
                slots.a,
                slots.width_b,
                slots.sign_b,
                slots.b,
            ],
        }
    }

    /// Whether every operand position of the node is below `bound`.
    pub open spec fn children_below(self, bound: int) -> bool {
        match self {
            Node::Var(_) | Node::Width(_) | Node::Sign(_) => true,
            Node::MaxPlus1(a, b) => a < bound && b < bound,
            Node::WidthLeftShift(w, shift) => w < bound && shift < bound,
            Node::Binary(_, slots) => slots.below(bound),
        }
    }
}

impl View for Node<Var> {
    type V = NodeView;

    open spec fn view(&self) -> NodeView {
        match *self {
            Node::Var(v) => Node::Var(v@),
            Node::Width(w) => Node::Width(w),
            Node::Sign(s) => Node::Sign(s),
            Node::MaxPlus1(a, b) => Node::MaxPlus1(a, b),
            Node::WidthLeftShift(w, shift) => Node::WidthLeftShift(w, shift),
            Node::Binary(op, slots) => Node::Binary(op, slots),
        }
    }
}

/// The views of a list of nodes.
pub open spec fn nodes_view(nodes: Seq<PatternNode>) -> Seq<NodeView> {
    nodes.map_values(|n: PatternNode| n@)
}

/// Whether two nodes are the same: the same kind, the same constant or
/// variable name, the same operand positions.
pub fn same_node(x: &PatternNode, y: &PatternNode) -> (res: bool)
    ensures
        res == (x@ == y@),
{
    match (x, y) {
        (Node::Var(v), Node::Var(w)) => v.same(w),
        (Node::Width(v), Node::Width(w)) => *v == *w,
        (Node::Sign(s), Node::Sign(t)) => *s == *t,
        (Node::MaxPlus1(a, b), Node::MaxPlus1(c, d)) => *a == *c && *b == *d,
        (Node::WidthLeftShift(a, b), Node::WidthLeftShift(c, d)) => *a == *c && *b == *d,
        (Node::Binary(op, slots), Node::Binary(other_op, other_slots)) => *op == *other_op
            && *slots == *other_slots,
        _ => false,
    }
}

impl Clone for Node<Var> {
    fn clone(&self) -> (res: PatternNode)
        ensures
            res@ == self@,
    {
        match self {
            Node::Var(v) => Node::Var(v.clone()),
            Node::Width(w) => Node::Width(*w),
            Node::Sign(s) => Node::Sign(*s),
            Node::MaxPlus1(a, b) => Node::MaxPlus1(*a, *b),
            Node::WidthLeftShift(w, shift) => Node::WidthLeftShift(*w, *shift),
            Node::Binary(op, slots) => Node::Binary(*op, *slots),
        }
    }
}

/// Whether node `node` repeats a node before it.
fn occurs_before(nodes: &Vec<PatternNode>, node: usize) -> (res: bool)
    requires
        node < nodes.len(),
    ensures
        res == repeats_earlier(nodes_view(nodes@), node as int),
{
    let ghost view = nodes_view(nodes@);
    let mut j: usize = 0;
    while j < node
        invariant
            j <= node < nodes.len(),
            view == nodes_view(nodes@),
            forall|k: int| 0 <= k < j ==> #[trigger] view[k] != view[node as int],
        decreases node - j,
    {
        if same_node(&nodes[j], &nodes[node]) {
            assert(view[j as int] == view[node as int]);
            return true;
        }
        j += 1;
    }
    false
}

/// What is wrong with node `node`, if anything.
fn defect_of(nodes: &Vec<PatternNode>, node: usize) -> (res: Option<PatternError>)
    requires
        node < nodes.len(),
    ensures
        res == defect_at(nodes_view(nodes@), node as int),
{
    if !operands_precede(nodes, node) {
        Some(PatternError::OperandOutOfOrder { node })
    } else if occurs_before(nodes, node) {
        Some(PatternError::Duplicate { node })
    } else {
        None
    }
}

/// Whether every operand position of node `node` is below `node`.
fn operands_precede(nodes: &Vec<PatternNode>, node: usize) -> (res: bool)
    requires
        node < nodes.len(),
    ensures
        res == nodes[node as int]@.children_below(node as int),
{
    match &nodes[node] {
        Node::Var(_) => true,
        Node::Width(_) => true,
        Node::Sign(_) => true,
        Node::MaxPlus1(a, b) => *a < node && *b < node,
        Node::WidthLeftShift(w, shift) => *w < node && *shift < node,
        Node::Binary(_, slots) => slots.out_width < node && slots.width_a < node && slots.sign_a
            < node && slots.a < node && slots.width_b < node && slots.sign_b < node && slots.b
            < node,
    }
}

/// Why a list of nodes is no pattern.
#[derive(Clone, Copy, Debug, PartialEq, Eq, Structural)]
pub enum PatternError {
    /// The text is no s-expression.
    Syntax,
    /// There is no node at all.
    Empty,
    /// The term at this position is no node of the pattern language.
    UnknownOperator { node: usize },
    /// The node at this position has an operand that does not come before it.
    OperandOutOfOrder { node: usize },
    /// The node at this position repeats an earlier node.
    Duplicate { node: usize },
}

/// Whether node `i` repeats a node before it.
pub open spec fn repeats_earlier(nodes: Seq<NodeView>, i: int) -> bool {
    exists|j: int| 0 <= j < i && #[trigger] nodes[j] == nodes[i]
}

/// What is wrong with node `i` of a list, if anything.
pub open spec fn defect_at(nodes: Seq<NodeView>, i: int) -> Option<PatternError> {
    if !nodes[i].children_below(i) {
        Some(PatternError::OperandOutOfOrder { node: i as usize })
    } else if repeats_earlier(nodes, i) {
        Some(PatternError::Duplicate { node: i as usize })
    } else {
        None
    }
}

/// Whether `error` says what is wrong with a list of nodes at the first
/// place where something is.
pub open spec fn is_first_defect(nodes: Seq<NodeView>, error: PatternError) -> bool {
    match error {
        PatternError::Empty => nodes.len() == 0,
        PatternError::OperandOutOfOrder { node } | PatternError::Duplicate { node } => {
            &&& node < nodes.len()
            &&& defect_at(nodes, node as int) == Some(error)
            &&& forall|j: int| 0 <= j < node ==> #[trigger] defect_at(nodes, j) is None
        },
        _ => false,
    }
}

/// A list of nodes is a pattern when it is not empty, the operands of every
/// node come before the node, and no node occurs twice. The last node is the
/// root.
pub open spec fn well_formed(nodes: Seq<NodeView>) -> bool {
    &&& nodes.len() > 0
    &&& forall|i: int| 0 <= i < nodes.len() ==> (#[trigger] nodes[i]).children_below(i)
    &&& forall|i: int, j: int| 0 <= i < j < nodes.len() ==> nodes[i] != nodes[j]
}

/// A list is a pattern exactly when it is not empty and no node of it has a
/// defect.
pub proof fn lemma_well_formed_iff_no_defect(nodes: Seq<NodeView>)
    ensures
        well_formed(nodes) <==> (nodes.len() > 0 && forall|i: int|
            0 <= i < nodes.len() ==> #[trigger] defect_at(nodes, i) is None),
{
    if well_formed(nodes) {
        assert forall|i: int| 0 <= i < nodes.len() implies #[trigger] defect_at(nodes, i) is None by {
            assert(nodes[i].children_below(i));
        }
    }
    if nodes.len() > 0 && forall|i: int|
        0 <= i < nodes.len() ==> #[trigger] defect_at(nodes, i) is None {
        assert forall|i: int| 0 <= i < nodes.len() implies (#[trigger] nodes[i]).children_below(
            i,
        ) by {
            assert(defect_at(nodes, i) is None);
        }
        assert forall|i: int, j: int| 0 <= i < j < nodes.len() implies nodes[i] != nodes[j] by {
            assert(defect_at(nodes, j) is None);
        }
    }
}

/// A pattern of the rewrite language.
#[derive(Debug, PartialEq, Eq)]
pub struct Pattern {
    nodes: Vec<PatternNode>,
}

impl View for Pattern {
    type V = Seq<NodeView>;

    closed spec fn view(&self) -> Seq<NodeView> {
        nodes_view(self.nodes@)
    }
}

impl Pattern {
    #[verifier::type_invariant]
    spec fn valid(self) -> bool {
        well_formed(nodes_view(self.nodes@))
    }

    /// Makes a pattern of a list of nodes, or says what is wrong with the
    /// first node that is out of place.
    pub fn from_nodes(nodes: Vec<PatternNode>) -> (res: Result<Pattern, PatternError>)
        ensures
            res is Ok <==> well_formed(nodes_view(nodes@)),
            res matches Ok(p) ==> p@ == nodes_view(nodes@),
            res matches Err(e) ==> is_first_defect(nodes_view(nodes@), e),
    {
        let ghost view = nodes_view(nodes@);
        let n = nodes.len();
        if n == 0 {
            return Err(PatternError::Empty);
        }
        proof {
            lemma_well_formed_iff_no_defect(view);
        }
        let mut i: usize = 0;
        while i < n
            invariant
                i <= n,
                n == nodes.len(),
                view == nodes_view(nodes@),
                forall|k: int| 0 <= k < i ==> #[trigger] defect_at(view, k) is None,
            decreases n - i,
        {
            if let Some(defect) = defect_of(&nodes, i) {
                return Err(defect);
            }
            i += 1;
        }
        Ok(Pattern { nodes })
    }

    /// The number of nodes. A pattern has at least one.
    pub fn len(&self) -> (res: usize)
        ensures
            res == self@.len(),
            res > 0,
    {
        proof {
            use_type_invariant(self);
        }
        self.nodes.len()
    }

    /// The position of the root: the last node.
    pub fn root(&self) -> (res: usize)
        ensures
            res == self@.len() - 1,
    {
        proof {
            use_type_invariant(self);
        }
        self.nodes.len() - 1
    }

    /// The node at position `i`. Its operands are at positions below `i`.
    pub fn node(&self, i: usize) -> (res: &PatternNode)
        requires
            i < self@.len(),
        ensures
            res@ == self@[i as int],
            res@.children_below(i as int),
    {
        proof {
            use_type_invariant(self);
        }
        &self.nodes[i]
    }

    /// The nodes, operands first and the root last.
    pub fn nodes(&self) -> (res: &Vec<PatternNode>)
        ensures
            nodes_view(res@) == self@,
            well_formed(self@),
    {
        proof {
            use_type_invariant(self);
        }
        &self.nodes
    }

}

impl Clone for Pattern {
    fn clone(&self) -> (res: Pattern)
        ensures
            res@ == self@,
    {
        proof {
            use_type_invariant(self);
        }
        let mut copy: Vec<PatternNode> = Vec::new();
        let mut i: usize = 0;
        while i < self.nodes.len()
            invariant
                i <= self.nodes.len(),
                copy.len() == i,
                forall|k: int| 0 <= k < i ==> (#[trigger] copy[k])@ == self.nodes[k]@,
            decreases self.nodes.len() - i,
        {
            copy.push(self.nodes[i].clone());
            i += 1;
        }
        assert(nodes_view(copy@) =~= nodes_view(self.nodes@));
        Pattern { nodes: copy }
    }
}

} // verus!
