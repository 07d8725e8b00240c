//! Arithmetic rewrite rules.
//!
//! A rule has a name, a left-hand pattern, a right-hand pattern whose widths
//! are derived from the left-hand one, and an optional side condition with
//! the variables whose values it reads. Rules are kept in a form of their
//! own so that they can be inspected: to check a side condition, or to find
//! out why a rule does not match where it was expected to.

use crate::condition::{
    assignment_view, condition_values, lookup_all, names, resolve, resolved, substitution_view,
    Assignment, AssignmentView, Binding, BindingView, Guard,
};
use crate::consistency::{
    check_width_consistency, is_first_mismatch, width_consistent, WidthMismatch,
};
use crate::pattern::{is_var_name, Node, NodeView, Pattern, PatternError, Var};
use crate::syntax::{
    denotes_pattern, is_pattern_outcome, parsed_pattern, pattern_of, TermView,
};
use crate::width::WidthInt;
use vstd::prelude::*;

verus! {

/// One of the two patterns of a rule.
#[derive(Clone, Copy, Debug, PartialEq, Eq, Structural)]
pub enum Side {
    Lhs,
    Rhs,
}

/// Why a rule could not be made.
#[derive(Clone, Copy, Debug, PartialEq, Eq, Structural)]
pub enum RewriteError {
    /// The name at this position among the condition variables is no
    /// variable name.
    ConditionVariable { index: usize },
    /// The text of one side is no pattern.
    Pattern { side: Side, error: PatternError },
    /// One side declares for an operand another width than the operand
    /// declares for its own result.
    InconsistentWidth { side: Side, mismatch: WidthMismatch },
}

/// A rewrite rule.
#[derive(Debug)]
pub struct ArithRewrite {
    name: String,
    /// most general lhs pattern
    lhs: Pattern,
    /// rhs pattern with all widths derived from the lhs
    rhs_derived: Pattern,
    /// variables used by the condition, in the order in which it reads them
    cond_vars: Vec<Var>,
    /// condition of the rewrite
    cond: Option<Guard>,
}

/// A rule as contracts speak of it.
pub struct RuleView {
    pub name: Seq<char>,
    pub lhs: Seq<NodeView>,
    pub rhs_derived: Seq<NodeView>,
    pub cond_vars: Seq<Seq<char>>,
    pub cond: Option<Guard>,
}

impl View for ArithRewrite {
    type V = RuleView;

    closed spec fn view(&self) -> RuleView {
        RuleView {
            name: self.name@,
            lhs: self.lhs@,
            rhs_derived: self.rhs_derived@,
            cond_vars: names(self.cond_vars@),
            cond: self.cond,
        }
    }
}

/// The views of a list of texts.
pub open spec fn texts_view(texts: Seq<&str>) -> Seq<Seq<char>> {
    texts.map_values(|t: &str| t@)
}

/// Whether every name of the list can name a variable.
pub open spec fn are_var_names(vars: Seq<Seq<char>>) -> bool {
    forall|i: int| 0 <= i < vars.len() ==> is_var_name(#[trigger] vars[i])
}

/// Whether the parsed texts of the two sides and the names of the condition
/// variables make a rule: both sides denote a pattern, both patterns are
/// width-consistent, and every name is a variable name.
pub open spec fn rule_builds(
    lhs: Option<Seq<TermView>>,
    rhs: Option<Seq<TermView>>,
    vars: Seq<Seq<char>>,
) -> bool {
    &&& are_var_names(vars)
    &&& denotes_pattern(lhs)
    &&& denotes_pattern(rhs)
    &&& width_consistent(pattern_of(lhs))
    &&& width_consistent(pattern_of(rhs))
}

/// The rule that is made of the parsed texts of its two sides.
pub open spec fn built_rule(
    name: Seq<char>,
    lhs: Option<Seq<TermView>>,
    rhs: Option<Seq<TermView>>,
    vars: Seq<Seq<char>>,
    cond: Option<Guard>,
) -> RuleView {
    RuleView { name, lhs: pattern_of(lhs), rhs_derived: pattern_of(rhs), cond_vars: vars, cond }
}

/// Whether `outcome` is what making a rule of the parsed texts gives.
///
/// The names of the condition variables are looked at first, then the
/// two texts are turned into patterns, the left one first, then the two
/// patterns are checked for width-consistency, the left one first. The
/// first failure is reported.
pub open spec fn is_rule_outcome(
    name: Seq<char>,
    lhs: Option<Seq<TermView>>,
    rhs: Option<Seq<TermView>>,
    vars: Seq<Seq<char>>,
    cond: Option<Guard>,
    outcome: Result<RuleView, RewriteError>,
) -> bool {
    match outcome {
        Ok(rule) => rule_builds(lhs, rhs, vars) && rule == built_rule(name, lhs, rhs, vars, cond),
        Err(RewriteError::ConditionVariable { index }) => {
            &&& index < vars.len()
            &&& !is_var_name(vars[index as int])
            &&& forall|j: int| 0 <= j < index ==> is_var_name(#[trigger] vars[j])
        },
        Err(RewriteError::Pattern { side: Side::Lhs, error }) => {
            &&& are_var_names(vars)
            &&& is_pattern_outcome(lhs, Err(error))
        },
        Err(RewriteError::Pattern { side: Side::Rhs, error }) => {
            &&& are_var_names(vars)
            &&& denotes_pattern(lhs)
            &&& is_pattern_outcome(rhs, Err(error))
        },
        Err(RewriteError::InconsistentWidth { side: Side::Lhs, mismatch }) => {
            &&& are_var_names(vars)
            &&& denotes_pattern(lhs)
            &&& denotes_pattern(rhs)
            &&& is_first_mismatch(pattern_of(lhs), mismatch)
        },
        Err(RewriteError::InconsistentWidth { side: Side::Rhs, mismatch }) => {
            &&& are_var_names(vars)
            &&& denotes_pattern(lhs)
            &&& denotes_pattern(rhs)
            &&& width_consistent(pattern_of(lhs))
            &&& is_first_mismatch(pattern_of(rhs), mismatch)
        },
    }
}

/// The view of a rule that was made, the error of one that was not.
pub open spec fn rule_outcome_view(res: Result<ArithRewrite, RewriteError>) -> Result<
    RuleView,
    RewriteError,
> {
    match res {
        Ok(rule) => Ok(rule@),
        Err(e) => Err(e),
    }
}

/// What a side condition gives on a list of values: a rule without
/// condition always applies.
pub open spec fn evaluates(cond: Option<Guard>, values: Seq<WidthInt>) -> bool {
    match cond {
        Some(guard) => guard.holds(values),
        None => true,
    }
}

/// What the side condition of a rule gives under an assignment: a rule
/// without condition always applies, and a condition does not hold where
/// one of its variables has no value.
pub open spec fn condition_result(
    vars: Seq<Seq<char>>,
    cond: Option<Guard>,
    a: AssignmentView,
) -> bool {
    match cond {
        Some(guard) => match condition_values(vars, a) {
            Some(values) => guard.holds(values),
            None => false,
        },
        None => true,
    }
}

/// The names of the variables of a pattern, in the order of its nodes.
pub open spec fn pattern_vars(nodes: Seq<NodeView>) -> Seq<Seq<char>>
    decreases nodes.len(),
{
    if nodes.len() == 0 {
        Seq::empty()
    } else {
        let before = pattern_vars(nodes.drop_last());
        match nodes.last() {
            Node::Var(name) => before.push(name),
            _ => before,
        }
    }
}

/// The assignment that a substitution gives to the variables `vars`: for
/// each of them that resolves to a constant, in their order, the variable
/// and the constant.
pub open spec fn assignment_of(vars: Seq<Seq<char>>, s: Seq<BindingView>) -> AssignmentView
    decreases vars.len(),
{
    if vars.len() == 0 {
        Seq::empty()
    } else {
        let before = assignment_of(vars.drop_last(), s);
        match resolved(s, vars.last()) {
            Some(value) => before.push((vars.last(), value)),
            None => before,
        }
    }
}

/// Whether every name of `wanted` is among `bound`.
pub open spec fn all_among(wanted: Seq<Seq<char>>, bound: Seq<Seq<char>>) -> bool {
    forall|i: int| 0 <= i < wanted.len() ==> bound.contains(#[trigger] wanted[i])
}

/// Whether a rule uses bound variables only: every variable of the
/// right-hand pattern and every condition variable occurs in the left-hand
/// pattern, so that a match of the left-hand pattern binds it.
pub open spec fn binds_its_variables(rule: RuleView) -> bool {
    &&& all_among(pattern_vars(rule.rhs_derived), pattern_vars(rule.lhs))
    &&& all_among(rule.cond_vars, pattern_vars(rule.lhs))
}

/// Whether `var` is one of `vars`.
pub fn contains_var(vars: &Vec<Var>, var: &Var) -> (res: bool)
    ensures
        res == names(vars@).contains(var@),
{
    let ghost bound = names(vars@);
    let mut i: usize = 0;
    while i < vars.len()
        invariant
            i <= vars.len(),
            bound == names(vars@),
            forall|k: int| 0 <= k < i ==> bound[k] != var@,
        decreases vars.len() - i,
    {
        if vars[i].same(var) {
            assert(bound[i as int] == var@);
            return true;
        }
        i += 1;
    }
    false
}

/// Whether every one of `wanted` is one of `bound`.
pub fn contains_all(bound: &Vec<Var>, wanted: &Vec<Var>) -> (res: bool)
    ensures
        res == all_among(names(wanted@), names(bound@)),
{
    let ghost asked = names(wanted@);
    let mut i: usize = 0;
    while i < wanted.len()
        invariant
            i <= wanted.len(),
            asked == names(wanted@),
            forall|k: int| 0 <= k < i ==> names(bound@).contains(#[trigger] asked[k]),
        decreases wanted.len() - i,
    {
        if !contains_var(bound, &wanted[i]) {
            assert(!names(bound@).contains(asked[i as int]));
            return false;
        }
        i += 1;
    }
    true
}

/// The variables of a pattern, in the order of its nodes.
pub fn vars_in_pattern(pattern: &Pattern) -> (res: Vec<Var>)
    ensures
        names(res@) == pattern_vars(pattern@),
{
    let n = pattern.len();
    let mut vars: Vec<Var> = Vec::new();
    let mut i: usize = 0;
    assert(pattern@.take(0) =~= Seq::empty());
    while i < n
        invariant
            i <= n,
            n == pattern@.len(),
            names(vars@) == pattern_vars(pattern@.take(i as int)),
        decreases n - i,
    {
        assert(pattern@.take(i + 1).drop_last() =~= pattern@.take(i as int));
        if let Node::Var(v) = pattern.node(i) {
            let ghost before = names(vars@);
            vars.push(v.clone());
            assert(names(vars@) =~= before.push(v@));
        }
        i += 1;
    }
    assert(pattern@.take(n as int) =~= pattern@);
    vars
}

/// Turns a substitution into an assignment of the variables of `pattern`:
/// every variable is resolved to the constant of the class it is bound to,
/// and is left out where there is none.
pub fn substitution_to_assignment(s: &[Binding], pattern: &Pattern) -> (res: Assignment)
    ensures
        assignment_view(res@) == assignment_of(pattern_vars(pattern@), substitution_view(s@)),
{
    let vars = vars_in_pattern(pattern);
    let ghost wanted = names(vars@);
    let ghost subst = substitution_view(s@);
    let mut assign: Assignment = Vec::new();
    let mut i: usize = 0;
    assert(wanted.take(0) =~= Seq::empty());
    assert(assignment_view(assign@) =~= Seq::empty());
    while i < vars.len()
        invariant
            i <= vars.len(),
            wanted == names(vars@),
            subst == substitution_view(s@),
            assignment_view(assign@) == assignment_of(wanted.take(i as int), subst),
        decreases vars.len() - i,
    {
        assert(wanted.take(i + 1).drop_last() =~= wanted.take(i as int));
        if let Some(value) = resolve(s, &vars[i]) {
            let ghost before = assignment_view(assign@);
            assign.push((vars[i].clone(), value));
            assert(assignment_view(assign@) =~= before.push((wanted[i as int], value)));
        }
        i += 1;
    }
    assert(wanted.take(vars.len() as int) =~= wanted);
    assign
}

impl ArithRewrite {
    #[verifier::type_invariant]
    spec fn valid(self) -> bool {
        width_consistent(self.lhs@) && width_consistent(self.rhs_derived@)
    }

    /// Makes a rule of two patterns, which have to be width-consistent,
    /// the left one being checked first.
    pub fn from_patterns(
        name: &str,
        lhs: Pattern,
        rhs_derived: Pattern,
        cond_vars: Vec<Var>,
        cond: Option<Guard>,
    ) -> (res: Result<ArithRewrite, RewriteError>)
        ensures
            match res {
                Ok(rule) => {
                    &&& width_consistent(lhs@)
                    &&& width_consistent(rhs_derived@)
                    &&& rule@ == (RuleView {
                        name: name@,
                        lhs: lhs@,
                        rhs_derived: rhs_derived@,
                        cond_vars: names(cond_vars@),
                        cond,
                    })
                },
                Err(RewriteError::InconsistentWidth { side: Side::Lhs, mismatch }) => {
                    is_first_mismatch(lhs@, mismatch)
                },
                Err(RewriteError::InconsistentWidth { side: Side::Rhs, mismatch }) => {
                    &&& width_consistent(lhs@)
                    &&& is_first_mismatch(rhs_derived@, mismatch)
                },
                Err(_) => false,
            },
    {
        if let Err(mismatch) = check_width_consistency(&lhs) {
            return Err(RewriteError::InconsistentWidth { side: Side::Lhs, mismatch });
        }
        if let Err(mismatch) = check_width_consistency(&rhs_derived) {
            return Err(RewriteError::InconsistentWidth { side: Side::Rhs, mismatch });
        }
        Ok(ArithRewrite { name: name.to_owned(), lhs, rhs_derived, cond_vars, cond })
    }

    /// Makes a rule of the texts of its two patterns: reads both, then
    /// checks both for width-consistency.
    pub fn new(
        name: &str,
        lhs: &str,
        rhs_derived: &str,
        cond_vars: &[&str],
        cond: Option<Guard>,
    ) -> (res: Result<ArithRewrite, RewriteError>)
        ensures
            is_rule_outcome(
                name@,
                parsed_pattern(lhs@),
                parsed_pattern(rhs_derived@),
                texts_view(cond_vars@),
                cond,
                rule_outcome_view(res),
            ),
    {
        let ghost wanted = texts_view(cond_vars@);
        let mut vars: Vec<Var> = Vec::new();
        let mut i: usize = 0;
        while i < cond_vars.len()
            invariant
                i <= cond_vars.len(),
                wanted == texts_view(cond_vars@),
                vars.len() == i,
                forall|k: int| 0 <= k < i ==> (#[trigger] vars[k])@ == wanted[k],
                forall|k: int| 0 <= k < i ==> is_var_name(#[trigger] wanted[k]),
            decreases cond_vars.len() - i,
        {
            match Var::new(cond_vars[i]) {
                Some(v) => {
                    assert(wanted[i as int] == cond_vars[i as int]@);
                    vars.push(v);
                },
                None => {
                    assert(wanted[i as int] == cond_vars[i as int]@);
                    return Err(RewriteError::ConditionVariable { index: i });
                },
            }
            i += 1;
        }
        assert(names(vars@) =~= wanted);
        let lhs_pattern = match Pattern::parse(lhs) {
            Ok(pattern) => pattern,
            Err(error) => {
                return Err(RewriteError::Pattern { side: Side::Lhs, error });
            },
        };
        let rhs_pattern = match Pattern::parse(rhs_derived) {
            Ok(pattern) => pattern,
            Err(error) => {
                return Err(RewriteError::Pattern { side: Side::Rhs, error });
            },
        };
        ArithRewrite::from_patterns(name, lhs_pattern, rhs_pattern, vars, cond)
    }

    /// The name of the rule.
    pub fn name(&self) -> (res: &str)
        ensures
            res@ == self@.name,
    {
        self.name.as_str()
    }

    /// The left-hand pattern and the right-hand pattern. Both are
    /// width-consistent.
    pub fn patterns(&self) -> (res: (&Pattern, &Pattern))
        ensures
            res.0@ == self@.lhs,
            res.1@ == self@.rhs_derived,
            width_consistent(res.0@),
            width_consistent(res.1@),
    {
        proof {
            use_type_invariant(self);
        }
        (&self.lhs, &self.rhs_derived)
    }

    /// The variables whose values the condition reads, in the order in
    /// which it reads them.
    pub fn cond_vars(&self) -> (res: &Vec<Var>)
        ensures
            names(res@) == self@.cond_vars,
    {
        &self.cond_vars
    }

    /// The side condition, if the rule has one.
    pub fn cond(&self) -> (res: Option<Guard>)
        ensures
            res == self@.cond,
    {
        self.cond
    }

    /// Whether the rule uses bound variables only. A rule that does not
    /// cannot be applied: a match of its left-hand pattern leaves a
    /// variable of its right-hand pattern or of its condition open.
    pub fn binds_its_variables(&self) -> (res: bool)
        ensures
            res == binds_its_variables(self@),
    {
        let bound = vars_in_pattern(&self.lhs);
        let used = vars_in_pattern(&self.rhs_derived);
        contains_all(&bound, &used) && contains_all(&bound, &self.cond_vars)
    }

    /// Evaluates the side condition on values given in the order of the
    /// condition variables.
    pub fn evaluate(&self, values: &[WidthInt]) -> (res: bool)
        ensures
            res == evaluates(self@.cond, values@),
    {
        match self.cond {
            Some(guard) => guard.check(values),
            None => true,
        }
    }

    /// Evaluates the side condition under an assignment. A condition does
    /// not hold where one of its variables has no value.
    pub fn eval_condition(&self, a: &[(Var, WidthInt)]) -> (res: bool)
        ensures
            res == condition_result(self@.cond_vars, self@.cond, assignment_view(a@)),
    {
        match self.cond {
            Some(guard) => match lookup_all(&self.cond_vars, a) {
                Some(values) => guard.check(values.as_slice()),
                None => false,
            },
            None => true,
        }
    }
}

} // verus!
