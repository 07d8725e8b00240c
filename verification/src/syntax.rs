//! From text to patterns. The text is an s-expression: a binary arithmetic
//! node is written `(op out_width width_a sign_a a width_b sign_b b)`, the
//! width operators are `(max+1 a b)` and `(wlsh w shift)`, a variable starts
//! with a question mark, `sign` and `unsign` are the sign constants and a
//! decimal numeral is a width constant.
//!
//! The s-expression itself is read by the `egg` crate, which hands back a
//! list of terms: an operator name and the positions of its operands. Which
//! terms are nodes of the pattern language is decided here.

use crate::pattern::{
    is_first_defect, is_var_name, well_formed, BinOp, Node, NodeView, Pattern, PatternError,
    PatternNode, Sign, Slots, Var,
};
use crate::width::WidthInt;
use vstd::prelude::*;

verus! {

/// One term of a parsed s-expression: a variable, or an operator applied to
/// the terms at the given positions.
#[derive(Debug, PartialEq, Eq)]
pub struct Term {
    /// Whether the term is a pattern variable; `op` is then its name.
    pub is_var: bool,
    /// The operator, or the atom where there are no operands.
    pub op: String,
    /// The positions of the operands.
    pub children: Vec<usize>,
}

/// A term as contracts speak of it.
pub struct TermView {
    pub is_var: bool,
    pub op: Seq<char>,
    pub children: Seq<usize>,
}

impl View for Term {
    type V = TermView;

    open spec fn view(&self) -> TermView {
        TermView { is_var: self.is_var, op: self.op@, children: self.children@ }
    }
}

/// The views of a list of terms.
pub open spec fn terms_view(terms: Seq<Term>) -> Seq<TermView> {
    terms.map_values(|t: Term| t@)
}

/// Whether `c` is a decimal digit.
pub open spec fn is_digit(c: char) -> bool {
    '0' <= c <= '9'
}

/// The value of a decimal digit.
pub open spec fn digit_value(c: char) -> nat {
    if is_digit(c) {
        (c as int - '0' as int) as nat
    } else {
        0
    }
}

/// The number that a string of decimal digits denotes.
pub open spec fn decimal_value(s: Seq<char>) -> nat
    decreases s.len(),
{
    if s.len() == 0 {
        0
    } else {
        decimal_value(s.drop_last()) * 10 + digit_value(s.last())
    }
}

/// Whether `s` is a non-empty string of decimal digits.
pub open spec fn is_decimal(s: Seq<char>) -> bool {
    s.len() > 0 && forall|i: int| 0 <= i < s.len() ==> is_digit(#[trigger] s[i])
}

/// The width that a numeral denotes: a non-empty string of decimal digits
/// whose value is a `WidthInt`.
pub open spec fn numeral(s: Seq<char>) -> Option<WidthInt> {
    if is_decimal(s) && decimal_value(s) <= WidthInt::MAX {
        Some(decimal_value(s) as WidthInt)
    } else {
        None
    }
}

/// A longer string of digits denotes no smaller number than its beginning.
proof fn lemma_decimal_value_grows(s: Seq<char>, k: int)
    requires
        0 <= k <= s.len(),
    ensures
        decimal_value(s.take(k)) <= decimal_value(s),
    decreases s.len() - k,
{
    if k == s.len() {
        assert(s.take(k) =~= s);
    } else {
        lemma_decimal_value_grows(s, k + 1);
        assert(s.take(k + 1).drop_last() =~= s.take(k));
    }
}

/// Reads a numeral.
pub fn parse_numeral(s: &str) -> (res: Option<WidthInt>)
    ensures
        res == numeral(s@),
{
    let n = s.unicode_len();
    if n == 0 {
        return None;
    }
    let mut value: u64 = 0;
    let mut i: usize = 0;
    while i < n
        invariant
            i <= n,
            n == s@.len(),
            value == decimal_value(s@.take(i as int)),
            value <= WidthInt::MAX,
            forall|k: int| 0 <= k < i ==> is_digit(#[trigger] s@[k]),
        decreases n - i,
    {
        let c = s.get_char(i);
        if c < '0' || c > '9' {
            return None;
        }
        let digit: u64 = (c as u32 - '0' as u32) as u64;
        proof {
            assert(s@.take(i + 1).drop_last() =~= s@.take(i as int));
            lemma_decimal_value_grows(s@, i + 1);
        }
        value = value * 10 + digit;
        if value > WidthInt::MAX as u64 {
            return None;
        }
        i += 1;
    }
    assert(s@.take(n as int) =~= s@);
    Some(value as WidthInt)
}

/// The character of a decimal digit.
pub open spec fn digit_char(d: nat) -> char {
    if d == 0 {
        '0'
    } else if d == 1 {
        '1'
    } else if d == 2 {
        '2'
    } else if d == 3 {
        '3'
    } else if d == 4 {
        '4'
    } else if d == 5 {
        '5'
    } else if d == 6 {
        '6'
    } else if d == 7 {
        '7'
    } else if d == 8 {
        '8'
    } else {
        '9'
    }
}

/// The decimal numeral of a number, without leading zeros.
pub open spec fn decimal_text(n: nat) -> Seq<char>
    decreases n,
{
    if n < 10 {
        seq![digit_char(n)]
    } else {
        decimal_text(n / 10).push(digit_char(n % 10))
    }
}

/// The numeral of a number denotes the number.
pub proof fn lemma_decimal_text_denotes(n: nat)
    ensures
        is_decimal(decimal_text(n)),
        decimal_value(decimal_text(n)) == n,
    decreases n,
{
    let text = decimal_text(n);
    if n < 10 {
        assert(text.drop_last() =~= Seq::empty());
        assert(decimal_value(text.drop_last()) == 0);
    } else {
        lemma_decimal_text_denotes(n / 10);
        assert(text.drop_last() =~= decimal_text(n / 10));
    }
}

/// A width is read back from its numeral.
pub proof fn lemma_numeral_of_decimal_text(w: WidthInt)
    ensures
        numeral(decimal_text(w as nat)) == Some(w),
{
    lemma_decimal_text_denotes(w as nat);
}

/// The text of one decimal digit.
fn digit_text(d: WidthInt) -> (res: &'static str)
    requires
        d < 10,
    ensures
        res@ == seq![digit_char(d as nat)],
{
    proof {
        reveal_strlit("0");
        reveal_strlit("1");
        reveal_strlit("2");
        reveal_strlit("3");
        reveal_strlit("4");
        reveal_strlit("5");
        reveal_strlit("6");
        reveal_strlit("7");
        reveal_strlit("8");
        reveal_strlit("9");
    }
    let text = if d == 0 {
        "0"
    } else if d == 1 {
        "1"
    } else if d == 2 {
        "2"
    } else if d == 3 {
        "3"
    } else if d == 4 {
        "4"
    } else if d == 5 {
        "5"
    } else if d == 6 {
        "6"
    } else if d == 7 {
        "7"
    } else if d == 8 {
        "8"
    } else {
        "9"
    };
    assert(text@ =~= seq![digit_char(d as nat)]);
    text
}

/// Writes a width as a numeral.
pub fn numeral_text(w: WidthInt) -> (res: String)
    ensures
        res@ == decimal_text(w as nat),
    decreases w,
{
    if w < 10 {
        digit_text(w).to_owned()
    } else {
        let mut text = numeral_text(w / 10);
        let ghost before = text@;
        text.append(digit_text(w % 10));
        assert(text@ =~= before.push(digit_char((w % 10) as nat)));
        text
    }
}

/// Whether two texts are the same.
pub fn same_text(s: &str, t: &str) -> (res: bool)
    ensures
        res == (s@ == t@),
{
    let n = s.unicode_len();
    if n != t.unicode_len() {
        return false;
    }
    let mut i: usize = 0;
    while i < n
        invariant
            i <= n,
            n == s@.len(),
            n == t@.len(),
            forall|k: int| 0 <= k < i ==> s@[k] == t@[k],
        decreases n - i,
    {
        if s.get_char(i) != t.get_char(i) {
            return false;
        }
        i += 1;
    }
    assert(s@ =~= t@);
    true
}

/// The binary arithmetic operator that a name denotes.
pub open spec fn binary_operator(op: Seq<char>) -> Option<BinOp> {
    if op == "+"@ {
        Some(BinOp::Add)
    } else if op == "*"@ {
        Some(BinOp::Mul)
    } else if op == "<<"@ {
        Some(BinOp::LeftShift)
    } else {
        None
    }
}

/// The slots of a binary arithmetic node, in the order in which they are
/// written.
pub open spec fn slots_of(children: Seq<usize>) -> Slots {
    Slots {
        out_width: children[0],
        width_a: children[1],
        sign_a: children[2],
        a: children[3],
        width_b: children[4],
        sign_b: children[5],
        b: children[6],
    }
}

/// The node of the pattern language that a term denotes, if it denotes one.
pub open spec fn lowered(term: TermView) -> Option<NodeView> {
    if term.is_var {
        if is_var_name(term.op) && term.children.len() == 0 {
            Some(Node::Var(term.op))
        } else {
            None
        }
    } else if term.children.len() == 7 {
        match binary_operator(term.op) {
            Some(op) => Some(Node::Binary(op, slots_of(term.children))),
            None => None,
        }
    } else if term.children.len() == 2 {
        if term.op == "max+1"@ {
            Some(Node::MaxPlus1(term.children[0], term.children[1]))
        } else if term.op == "wlsh"@ {
            Some(Node::WidthLeftShift(term.children[0], term.children[1]))
        } else {
            None
        }
    } else if term.children.len() == 0 {
        if term.op == "sign"@ {
            Some(Node::Sign(Sign::Signed))
        } else if term.op == "unsign"@ {
            Some(Node::Sign(Sign::Unsigned))
        } else {
            match numeral(term.op) {
                Some(w) => Some(Node::Width(w)),
                None => None,
            }
        }
    } else {
        None
    }
}

/// Finds the node of the pattern language that a term denotes.
pub fn lower(term: &Term) -> (res: Option<PatternNode>)
    ensures
        res matches Some(node) ==> lowered(term@) == Some(node@),
        res is None ==> lowered(term@) is None,
{
    let op = term.op.as_str();
    let arity = term.children.len();
    if term.is_var {
        if arity == 0 {
            match Var::new(op) {
                Some(v) => Some(Node::Var(v)),
                None => None,
            }
        } else {
            None
        }
    } else if arity == 7 {
        let slots = Slots {
            out_width: term.children[0],
            width_a: term.children[1],
            sign_a: term.children[2],
            a: term.children[3],
            width_b: term.children[4],
            sign_b: term.children[5],
            b: term.children[6],
        };
        if same_text(op, "+") {
            Some(Node::Binary(BinOp::Add, slots))
        } else if same_text(op, "*") {
            Some(Node::Binary(BinOp::Mul, slots))
        } else if same_text(op, "<<") {
            Some(Node::Binary(BinOp::LeftShift, slots))
        } else {
            None
        }
    } else if arity == 2 {
        if same_text(op, "max+1") {
            Some(Node::MaxPlus1(term.children[0], term.children[1]))
        } else if same_text(op, "wlsh") {
            Some(Node::WidthLeftShift(term.children[0], term.children[1]))
        } else {
            None
        }
    } else if arity == 0 {
        if same_text(op, "sign") {
            Some(Node::Sign(Sign::Signed))
        } else if same_text(op, "unsign") {
            Some(Node::Sign(Sign::Unsigned))
        } else {
            match parse_numeral(op) {
                Some(w) => Some(Node::Width(w)),
                None => None,
            }
        }
    } else {
        None
    }
}

/// The name of a binary arithmetic operator.
pub open spec fn operator_text(op: BinOp) -> Seq<char> {
    match op {
        BinOp::Add => "+"@,
        BinOp::Mul => "*"@,
        BinOp::LeftShift => "<<"@,
    }
}

/// The operator or atom of a node, as it is written in the text of a
/// pattern.
pub open spec fn node_text(node: NodeView) -> Seq<char> {
    match node {
        Node::Var(name) => name,
        Node::Width(w) => decimal_text(w as nat),
        Node::Sign(Sign::Signed) => "sign"@,
        Node::Sign(Sign::Unsigned) => "unsign"@,
        Node::MaxPlus1(_, _) => "max+1"@,
        Node::WidthLeftShift(_, _) => "wlsh"@,
        Node::Binary(op, _) => operator_text(op),
    }
}

/// Writes the operator or atom of a node.
pub fn node_name(node: &PatternNode) -> (res: String)
    ensures
        res@ == node_text(node@),
{
    match node {
        Node::Var(v) => v.name().to_owned(),
        Node::Width(w) => numeral_text(*w),
        Node::Sign(Sign::Signed) => "sign".to_owned(),
        Node::Sign(Sign::Unsigned) => "unsign".to_owned(),
        Node::MaxPlus1(_, _) => "max+1".to_owned(),
        Node::WidthLeftShift(_, _) => "wlsh".to_owned(),
        Node::Binary(BinOp::Add, _) => "+".to_owned(),
        Node::Binary(BinOp::Mul, _) => "*".to_owned(),
        Node::Binary(BinOp::LeftShift, _) => "<<".to_owned(),
    }
}

/// The term that a node is written as.
pub open spec fn term_of(node: NodeView) -> TermView {
    TermView { is_var: node is Var, op: node_text(node), children: node.children() }
}

/// A node is read back from the term that it is written as.
pub proof fn lemma_written_node_is_read_back(node: NodeView)
    requires
        node matches Node::Var(name) ==> is_var_name(name),
    ensures
        lowered(term_of(node)) == Some(node),
{
    reveal_strlit("+");
    reveal_strlit("*");
    reveal_strlit("<<");
    reveal_strlit("max+1");
    reveal_strlit("wlsh");
    reveal_strlit("sign");
    reveal_strlit("unsign");
    match node {
        Node::Width(w) => {
            lemma_numeral_of_decimal_text(w);
            let text = decimal_text(w as nat);
            assert(is_digit(text[0]));
        },
        Node::Binary(_, slots) => {
            assert(slots_of(node.children()) == slots);
        },
        _ => {},
    }
}

/// The nodes that a list of terms denotes, where each term denotes one.
pub open spec fn lowered_nodes(terms: Seq<TermView>) -> Seq<NodeView> {
    Seq::new(terms.len(), |i: int| lowered(terms[i])->0)
}

/// Whether `outcome` is what building a pattern of a parsed text gives.
///
/// Text that is no s-expression is a syntax error. Otherwise the first term
/// that is no node of the pattern language is reported; where every term is
/// one, the first node out of place is; and where none is, the nodes are the
/// pattern.
pub open spec fn is_pattern_outcome(
    parsed: Option<Seq<TermView>>,
    outcome: Result<Seq<NodeView>, PatternError>,
) -> bool {
    match parsed {
        None => outcome == Err::<Seq<NodeView>, PatternError>(PatternError::Syntax),
        Some(terms) => match outcome {
            Ok(nodes) => {
                &&& forall|i: int| 0 <= i < terms.len() ==> lowered(#[trigger] terms[i]) is Some
                &&& nodes == lowered_nodes(terms)
                &&& well_formed(nodes)
            },
            Err(PatternError::Syntax) => false,
            Err(PatternError::UnknownOperator { node }) => {
                &&& node < terms.len()
                &&& lowered(terms[node as int]) is None
                &&& forall|j: int| 0 <= j < node ==> lowered(#[trigger] terms[j]) is Some
            },
            Err(error) => {
                &&& forall|i: int| 0 <= i < terms.len() ==> lowered(#[trigger] terms[i]) is Some
                &&& is_first_defect(lowered_nodes(terms), error)
            },
        },
    }
}

/// The nodes of the pattern that a parsed text denotes, where it denotes one.
pub open spec fn pattern_of(parsed: Option<Seq<TermView>>) -> Seq<NodeView> {
    lowered_nodes(parsed->0)
}

/// Whether a parsed text denotes a pattern.
pub open spec fn denotes_pattern(parsed: Option<Seq<TermView>>) -> bool {
    is_pattern_outcome(parsed, Ok(pattern_of(parsed)))
}

/// The nodes of a pattern that was built, the error of one that was not.
pub open spec fn outcome_view(res: Result<Pattern, PatternError>) -> Result<
    Seq<NodeView>,
    PatternError,
> {
    match res {
        Ok(p) => Ok(p@),
        Err(e) => Err(e),
    }
}

/// The terms of the s-expression that `text` holds, as `egg` reads it into a
/// pattern; `None` where `egg` refuses the text.
pub uninterp spec fn parsed_pattern(text: Seq<char>) -> Option<Seq<TermView>>;

/// Calls `egg`'s parser for `Pattern<SymbolLang>` and hands out the nodes of
/// the pattern's `ast`, each as a term. Nothing is claimed of the terms but
/// that the same text gives the same terms.
#[verifier::external_body]
fn parse_terms(text: &str) -> (res: Option<Vec<Term>>)
    ensures
        res matches Some(terms) ==> parsed_pattern(text@) == Some(terms_view(terms@)),
        res is None ==> parsed_pattern(text@) is None,
{
    let pattern = text.parse::<egg::Pattern<egg::SymbolLang>>().ok()?;
    let term = |node: &egg::ENodeOrVar<egg::SymbolLang>| match node {
        egg::ENodeOrVar::Var(v) => Term { is_var: true, op: v.to_string(), children: Vec::new() },
        egg::ENodeOrVar::ENode(n) => Term {
            is_var: false,
            op: n.op.to_string(),
            children: n.children.iter().map(|c| usize::from(*c)).collect(),
        },
    };
    Some(pattern.ast.as_ref().iter().map(term).collect())
}

impl Pattern {
    /// Builds the pattern that a list of terms denotes.
    pub fn from_terms(terms: &Vec<Term>) -> (res: Result<Pattern, PatternError>)
        ensures
            is_pattern_outcome(Some(terms_view(terms@)), outcome_view(res)),
    {
        let ghost view = terms_view(terms@);
        let mut nodes: Vec<PatternNode> = Vec::new();
        let mut i: usize = 0;
        while i < terms.len()
            invariant
                i <= terms.len(),
                view == terms_view(terms@),
                nodes.len() == i,
                forall|k: int| 0 <= k < i ==> lowered(#[trigger] view[k]) == Some(nodes[k]@),
            decreases terms.len() - i,
        {
            match lower(&terms[i]) {
                Some(node) => {
                    nodes.push(node);
                },
                None => {
                    return Err(PatternError::UnknownOperator { node: i });
                },
            }
            i += 1;
        }
        assert(crate::pattern::nodes_view(nodes@) =~= lowered_nodes(view));
        Pattern::from_nodes(nodes)
    }

    /// Reads a pattern from its text.
    pub fn parse(text: &str) -> (res: Result<Pattern, PatternError>)
        ensures
            is_pattern_outcome(parsed_pattern(text@), outcome_view(res)),
    {
        match parse_terms(text) {
            Some(terms) => Pattern::from_terms(&terms),
            None => Err(PatternError::Syntax),
        }
    }
}

} // verus!
