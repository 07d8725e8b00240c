//! Rules in the form in which an equality-saturation engine takes them: a
//! searcher, an applier, and for a rule with a side condition the check that
//! decides on a match whether the applier may run.

use crate::condition::{
    names, resolve_all, resolved_values, substitution_view, Binding, BindingView, Guard,
};
use crate::pattern::{NodeView, Pattern, Var};
use crate::rewrites::{ArithRewrite, RuleView};
use vstd::prelude::*;

verus! {

/// A side condition together with the variables whose values it reads.
#[derive(Debug)]
pub struct Condition {
    /// The variables, in the order in which the condition reads them.
    pub vars: Vec<Var>,
    /// The predicate.
    pub guard: Guard,
}

/// A condition as contracts speak of it.
pub struct ConditionView {
    pub vars: Seq<Seq<char>>,
    pub guard: Guard,
}

impl View for Condition {
    type V = ConditionView;

    open spec fn view(&self) -> ConditionView {
        ConditionView { vars: names(self.vars@), guard: self.guard }
    }
}

/// Whether a condition lets a match through: every variable of the
/// condition resolves to a constant, and the predicate holds of the
/// constants.
pub open spec fn admits(condition: ConditionView, s: Seq<BindingView>) -> bool {
    match resolved_values(condition.vars, s) {
        Some(values) => condition.guard.holds(values),
        None => false,
    }
}

impl Condition {
    /// Decides whether the rule may fire on a match.
    pub fn check(&self, subst: &[Binding]) -> (res: bool)
        ensures
            res == admits(self@, substitution_view(subst@)),
    {
        match resolve_all(&self.vars, subst) {
            Some(values) => self.guard.check(values.as_slice()),
            None => false,
        }
    }
}

/// A rewrite as the engine takes it: it searches for `searcher` and, where
/// `condition` admits the match, adds `applier` and unites the two.
#[derive(Debug)]
pub struct Rewrite {
    pub name: String,
    pub searcher: Pattern,
    pub applier: Pattern,
    pub condition: Option<Condition>,
}

/// A rewrite as contracts speak of it.
pub struct RewriteView {
    pub name: Seq<char>,
    pub searcher: Seq<NodeView>,
    pub applier: Seq<NodeView>,
    pub condition: Option<ConditionView>,
}

impl View for Rewrite {
    type V = RewriteView;

    open spec fn view(&self) -> RewriteView {
        RewriteView {
            name: self.name@,
            searcher: self.searcher@,
            applier: self.applier@,
            condition: match self.condition {
                Some(c) => Some(c@),
                None => None,
            },
        }
    }
}

/// The views of a list of rewrites.
pub open spec fn rewrites_view(rewrites: Seq<Rewrite>) -> Seq<RewriteView> {
    rewrites.map_values(|r: Rewrite| r@)
}

/// The rewrite that a rule is exported as: unconditional where the rule has
/// no side condition, else guarded by the condition over the rule's
/// condition variables.
pub open spec fn exported(rule: RuleView) -> RewriteView {
    RewriteView {
        name: rule.name,
        searcher: rule.lhs,
        applier: rule.rhs_derived,
        condition: match rule.cond {
            Some(guard) => Some(ConditionView { vars: rule.cond_vars, guard }),
            None => None,
        },
    }
}

/// A second list of the same variables.
pub fn clone_vars(vars: &Vec<Var>) -> (res: Vec<Var>)
    ensures
        names(res@) == names(vars@),
{
    let mut copy: Vec<Var> = Vec::new();
    let mut i: usize = 0;
    while i < vars.len()
        invariant
            i <= vars.len(),
            copy.len() == i,
            forall|k: int| 0 <= k < i ==> (#[trigger] copy[k])@ == vars[k]@,
        decreases vars.len() - i,
    {
        copy.push(vars[i].clone());
        i += 1;
    }
    assert(names(copy@) =~= names(vars@));
    copy
}

impl ArithRewrite {
    /// Exports the rule: one rewrite, conditional where the rule has a
    /// side condition.
    pub fn to_egg(&self) -> (res: Vec<Rewrite>)
        ensures
            rewrites_view(res@) == seq![exported(self@)],
    {
        let (lhs, rhs_derived) = self.patterns();
        let condition = match self.cond() {
            Some(guard) => Some(Condition { vars: clone_vars(self.cond_vars()), guard }),
            None => None,
        };
        let rewrite = Rewrite {
            name: self.name().to_owned(),
            searcher: lhs.clone(),
            applier: rhs_derived.clone(),
            condition,
        };
        let mut res: Vec<Rewrite> = Vec::new();
        res.push(rewrite);
        assert(rewrites_view(res@) =~= seq![exported(self@)]);
        res
    }
}

} // verus!
