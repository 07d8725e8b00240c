//! What a search of the graph found, and what a rule makes of it: for every
//! substitution the constants of the matched variables and whether the side
//! condition of the rule holds of them. Nothing here changes the graph: a
//! search result is read, never written.

use crate::condition::{
    assigned, assigned_from, assignment_view, clone_assignment, condition_values, resolved,
    resolved_values, substitution_view, Assignment, AssignmentView, BindingView, Substitution,
};
use crate::export::{admits, exported};
use crate::width::WidthInt;
use crate::rewrites::{
    all_among, assignment_of, condition_result, pattern_vars, substitution_to_assignment,
    ArithRewrite, RuleView,
};
use vstd::prelude::*;

verus! {

/// The matches of a pattern in one equivalence class: one substitution for
/// each way in which the pattern matches there.
#[derive(Debug)]
pub struct SearchMatches {
    pub eclass: usize,
    pub substs: Vec<Substitution>,
}

/// The matches in one class as contracts speak of them.
pub struct SearchMatchesView {
    pub eclass: usize,
    pub substs: Seq<Seq<BindingView>>,
}

impl View for SearchMatches {
    type V = SearchMatchesView;

    open spec fn view(&self) -> SearchMatchesView {
        SearchMatchesView {
            eclass: self.eclass,
            substs: self.substs@.map_values(|s: Substitution| substitution_view(s@)),
        }
    }
}

/// The views of the matches of a search.
pub open spec fn search_view(found: Seq<SearchMatches>) -> Seq<SearchMatchesView> {
    found.map_values(|m: SearchMatches| m@)
}

/// One match of the left-hand side of a rule.
#[derive(Debug)]
pub struct ArithMatch {
    /// The class in which the pattern matched.
    pub eclass: usize,
    /// The known constants of the matched variables.
    pub assign: Assignment,
    /// Whether the side condition of the rule holds of them.
    pub cond_res: bool,
}

/// A match as contracts speak of it.
pub struct ArithMatchView {
    pub eclass: usize,
    pub assign: AssignmentView,
    pub cond_res: bool,
}

impl View for ArithMatch {
    type V = ArithMatchView;

    open spec fn view(&self) -> ArithMatchView {
        ArithMatchView {
            eclass: self.eclass,
            assign: assignment_view(self.assign@),
            cond_res: self.cond_res,
        }
    }
}

impl Clone for ArithMatch {
    fn clone(&self) -> (res: ArithMatch)
        ensures
            res@ == self@,
    {
        ArithMatch {
            eclass: self.eclass,
            assign: clone_assignment(&self.assign),
            cond_res: self.cond_res,
        }
    }
}

/// The views of a list of matches.
pub open spec fn matches_view(matches: Seq<ArithMatch>) -> Seq<ArithMatchView> {
    matches.map_values(|m: ArithMatch| m@)
}

/// What a rule makes of one substitution found in class `eclass`.
pub open spec fn match_of(rule: RuleView, eclass: usize, s: Seq<BindingView>) -> ArithMatchView {
    let assign = assignment_of(pattern_vars(rule.lhs), s);
    ArithMatchView {
        eclass,
        assign,
        cond_res: condition_result(rule.cond_vars, rule.cond, assign),
    }
}

/// What a rule makes of the matches in one class: one match for each
/// substitution, in their order.
pub open spec fn class_matches(rule: RuleView, found: SearchMatchesView) -> Seq<ArithMatchView> {
    Seq::new(found.substs.len(), |i: int| match_of(rule, found.eclass, found.substs[i]))
}

/// What a rule makes of a search: the matches of every class, in the order
/// of the classes.
pub open spec fn all_matches(rule: RuleView, found: Seq<SearchMatchesView>) -> Seq<ArithMatchView>
    decreases found.len(),
{
    if found.len() == 0 {
        Seq::empty()
    } else {
        all_matches(rule, found.drop_last()) + class_matches(rule, found.last())
    }
}

/// What an entry added at the end of an assignment changes: nothing for a
/// variable that has a value already.
proof fn lemma_assigned_after_push(
    a: AssignmentView,
    entry: (Seq<char>, WidthInt),
    name: Seq<char>,
    start: int,
)
    requires
        0 <= start <= a.len(),
    ensures
        assigned_from(a.push(entry), name, start) == match assigned_from(a, name, start) {
            Some(value) => Some(value),
            None => if entry.0 == name {
                Some(entry.1)
            } else {
                None
            },
        },
    decreases a.len() - start,
{
    if start < a.len() {
        assert(a.push(entry)[start] == a[start]);
        if a[start].0 != name {
            lemma_assigned_after_push(a, entry, name, start + 1);
        }
    } else {
        assert(a.push(entry)[start] == entry);
        assert(assigned_from(a.push(entry), name, start + 1) is None);
    }
}

/// The assignment that a substitution gives to a list of variables gives
/// each of them the constant that the substitution resolves it to, and no
/// other variable a value.
pub proof fn lemma_assignment_resolves(vars: Seq<Seq<char>>, s: Seq<BindingView>, name: Seq<char>)
    ensures
        assigned(assignment_of(vars, s), name) == if vars.contains(name) {
            resolved(s, name)
        } else {
            None
        },
    decreases vars.len(),
{
    if vars.len() > 0 {
        let before = vars.drop_last();
        let last = vars.last();
        lemma_assignment_resolves(before, s, name);
        assert(vars.contains(name) <==> before.contains(name) || last == name) by {
            if before.contains(name) {
                let i = choose|i: int| 0 <= i < before.len() && before[i] == name;
                assert(vars[i] == name);
            }
            if last == name {
                assert(vars[vars.len() - 1] == name);
            }
            if vars.contains(name) {
                let i = choose|i: int| 0 <= i < vars.len() && vars[i] == name;
                if i < vars.len() - 1 {
                    assert(before[i] == name);
                }
            }
        }
        if let Some(value) = resolved(s, last) {
            lemma_assigned_after_push(assignment_of(before, s), (last, value), name, 0);
        }
    }
}

/// What is reported of a match is what the engine does with it: where every
/// condition variable of a rule occurs in its left-hand pattern, the side
/// condition holds under the assignment of a match exactly when the
/// exported rewrite admits the match.
pub proof fn lemma_report_agrees_with_guard(rule: RuleView, eclass: usize, s: Seq<BindingView>)
    requires
        all_among(rule.cond_vars, pattern_vars(rule.lhs)),
    ensures
        match_of(rule, eclass, s).cond_res == match exported(rule).condition {
            Some(condition) => admits(condition, s),
            None => true,
        },
{
    let vars = rule.cond_vars;
    let assign = assignment_of(pattern_vars(rule.lhs), s);
    assert forall|i: int| 0 <= i < vars.len() implies assigned(assign, #[trigger] vars[i])
        == resolved(s, vars[i]) by {
        lemma_assignment_resolves(pattern_vars(rule.lhs), s, vars[i]);
    }
    if condition_values(vars, assign) is Some {
        assert(condition_values(vars, assign)->0 =~= resolved_values(vars, s)->0);
    }
}

impl ArithRewrite {
    /// Tells of every match of the left-hand side which constants it binds
    /// and whether the side condition holds of them. This can be very
    /// useful when debugging why a certain rule does not fire when you
    /// expect it to.
    pub fn find_lhs_matches(&self, found: &[SearchMatches]) -> (res: Vec<ArithMatch>)
        ensures
            matches_view(res@) == all_matches(self@, search_view(found@)),
    {
        let ghost search = search_view(found@);
        let (lhs, _) = self.patterns();
        let mut out: Vec<ArithMatch> = Vec::new();
        let mut i: usize = 0;
        assert(search.take(0) =~= Seq::empty());
        assert(matches_view(out@) =~= Seq::empty());
        while i < found.len()
            invariant
                i <= found.len(),
                search == search_view(found@),
                lhs@ == self@.lhs,
                matches_view(out@) == all_matches(self@, search.take(i as int)),
            decreases found.len() - i,
        {
            let class = &found[i];
            let ghost done = matches_view(out@);
            let ghost here = class_matches(self@, search[i as int]);
            let mut j: usize = 0;
            assert(matches_view(out@) =~= done + here.take(0));
            while j < class.substs.len()
                invariant
                    j <= class.substs.len(),
                    i < found.len(),
                    search == search_view(found@),
                    class == found[i as int],
                    lhs@ == self@.lhs,
                    here == class_matches(self@, search[i as int]),
                    matches_view(out@) == done + here.take(j as int),
                decreases class.substs.len() - j,
            {
                let subst = &class.substs[j];
                let assign = substitution_to_assignment(subst.as_slice(), lhs);
                let cond_res = self.eval_condition(assign.as_slice());
                let found_match = ArithMatch { eclass: class.eclass, assign, cond_res };
                assert(found_match@ == here[j as int]);
                let ghost before = matches_view(out@);
                out.push(found_match);
                assert(matches_view(out@) =~= before.push(here[j as int]));
                assert(here.take(j + 1) =~= here.take(j as int).push(here[j as int]));
                assert(done + here.take(j as int).push(here[j as int]) =~= (done + here.take(
                    j as int,
                )).push(here[j as int]));
                j += 1;
            }
            assert(here.take(class.substs.len() as int) =~= here);
            assert(search.take(i + 1).drop_last() =~= search.take(i as int));
            i += 1;
        }
        assert(search.take(found.len() as int) =~= search);
        out
    }
}

} // verus!
