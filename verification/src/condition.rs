//! Side conditions of rewrite rules, and the values they are evaluated on.
//!
//! A side condition is a named predicate over an ordered list of widths and
//! signs. The values come from a match: each pattern variable is bound to an
//! equivalence class, and the class may or may not have a known constant.

use crate::pattern::{Sign, Var};
use crate::width::{
    add_no_overflow, add_no_ov, lsh_no_ov, max_plus_1, mul_no_overflow, mul_no_ov,
    shift_no_overflow, width_of_left_shift, WidthInt,
};
use vstd::arithmetic::power2::lemma_pow2_pos;
use vstd::prelude::*;

verus! {

/// The side conditions of the rules, each with the values it reads, in order.
#[derive(Clone, Copy, Debug, PartialEq, Eq, Structural)]
pub enum Guard {
    /// Reads `[wo, wab]`: the width of the inner shift is at least the width
    /// of the outer one, so that collapsing the two shifts truncates nothing.
    MergeLeftShift,
    /// Reads `[wbc, wb, wc]`: the sum of the two shift amounts cannot wrap.
    UnmergeLeftShift,
    /// Reads `[wb, sb, wo]`: the constant 2 fits its declared width and
    /// sign, or the result is no wider than the constant.
    MultToAdd,
    /// Reads `[wab, wa, wb, wo, wc]`: neither the product nor the shift of
    /// the product overflows.
    LeftShiftMult,
}

impl Guard {
    /// The number of values that the condition reads.
    pub open spec fn spec_arity(self) -> usize {
        match self {
            Guard::MergeLeftShift => 2,
            Guard::UnmergeLeftShift => 3,
            Guard::MultToAdd => 3,
            Guard::LeftShiftMult => 5,
        }
    }

    /// The number of values that the condition reads.
    #[verifier::when_used_as_spec(spec_arity)]
    pub fn arity(self) -> (res: usize)
        ensures
            res == self.spec_arity(),
    {
        match self {
            Guard::MergeLeftShift => 2,
            Guard::UnmergeLeftShift => 3,
            Guard::MultToAdd => 3,
            Guard::LeftShiftMult => 5,
        }
    }

    /// Whether the condition holds of the values `w`. It reads the first
    /// values of the list and holds of no list that is too short.
    pub open spec fn holds(self, w: Seq<WidthInt>) -> bool {
        w.len() >= self.spec_arity() && match self {
            Guard::MergeLeftShift => w[1] >= w[0],
            Guard::UnmergeLeftShift => add_no_overflow(w[0] as int, w[1] as int, w[2] as int),
            Guard::MultToAdd => {
                ||| (w[1] == Sign::Unsigned.spec_value() && w[0] > 1)
                ||| (w[1] == Sign::Signed.spec_value() && w[0] > 2)
                ||| w[2] <= w[0]
            },
            Guard::LeftShiftMult => {
                &&& mul_no_overflow(w[0] as int, w[1] as int, w[2] as int)
                &&& shift_no_overflow(w[3] as int, w[0] as int, w[4] as nat)
            },
        }
    }

    /// Evaluates the condition on the values `w`.
    pub fn check(self, w: &[WidthInt]) -> (res: bool)
        ensures
            res == self.holds(w@),
    {
        if w.len() < self.arity() {
            return false;
        }
        match self {
            Guard::MergeLeftShift => w[1] >= w[0],
            Guard::UnmergeLeftShift => add_no_ov(w[0], w[1], w[2]),
            Guard::MultToAdd => (w[1] == Sign::Unsigned.value() && w[0] > 1) || (w[1]
                == Sign::Signed.value() && w[0] > 2) || w[2] <= w[0],
            Guard::LeftShiftMult => mul_no_ov(w[0], w[1], w[2]) && lsh_no_ov(w[3], w[0], w[4]),
        }
    }
}

/// Where the condition of the rule that moves a shift into a product holds,
/// the rewritten expression overflows as little as the matched one: the
/// shift of the first factor fits the width derived for it, and the product
/// of that with the second factor fits the width of the result.
pub proof fn lemma_left_shift_mult_both_orders(
    wab: WidthInt,
    wa: WidthInt,
    wb: WidthInt,
    wo: WidthInt,
    wc: WidthInt,
)
    requires
        Guard::LeftShiftMult.holds(seq![wab, wa, wb, wo, wc]),
    ensures
        mul_no_overflow(wab as int, wa as int, wb as int),
        shift_no_overflow(wo as int, wab as int, wc as nat),
        shift_no_overflow(width_of_left_shift(wa as int, wc as nat), wa as int, wc as nat),
        mul_no_overflow(wo as int, width_of_left_shift(wa as int, wc as nat), wb as int),
{
}

/// Two shifts that were merged can be split again: the width that merging
/// derives for the sum of the shift amounts meets the condition for
/// unmerging.
pub proof fn lemma_merged_amount_can_be_unmerged(wb: WidthInt, wc: WidthInt)
    requires
        max_plus_1(wb as int, wc as int) <= WidthInt::MAX,
    ensures
        Guard::UnmergeLeftShift.holds(seq![max_plus_1(wb as int, wc as int) as WidthInt, wb, wc]),
{
}

/// A shift that was split can be merged again where the result is no wider
/// than the width that splitting derives for the inner shift.
pub proof fn lemma_unmerged_shift_can_be_merged(wo: WidthInt, wa: WidthInt, wb: WidthInt)
    requires
        wo <= width_of_left_shift(wa as int, wb as nat) <= WidthInt::MAX,
    ensures
        Guard::MergeLeftShift.holds(
            seq![wo, width_of_left_shift(wa as int, wb as nat) as WidthInt],
        ),
{
    lemma_pow2_pos(wb as nat);
}

/// Known constants of pattern variables, in the order in which they were
/// found. A variable without a known constant is absent.
pub type Assignment = Vec<(Var, WidthInt)>;

/// An assignment as contracts speak of it.
pub type AssignmentView = Seq<(Seq<char>, WidthInt)>;

/// The view of an assignment.
pub open spec fn assignment_view(a: Seq<(Var, WidthInt)>) -> AssignmentView {
    a.map_values(|p: (Var, WidthInt)| (p.0@, p.1))
}

/// A second assignment with the same entries.
pub fn clone_assignment(a: &Vec<(Var, WidthInt)>) -> (res: Assignment)
    ensures
        assignment_view(res@) == assignment_view(a@),
{
    let mut copy: Assignment = Vec::new();
    let mut i: usize = 0;
    while i < a.len()
        invariant
            i <= a.len(),
            copy.len() == i,
            forall|k: int| 0 <= k < i ==> (#[trigger] copy[k]).0@ == a[k].0@ && copy[k].1 == a[k].1,
        decreases a.len() - i,
    {
        copy.push((a[i].0.clone(), a[i].1));
        i += 1;
    }
    assert(assignment_view(copy@) =~= assignment_view(a@));
    copy
}

/// The names of a list of variables.
pub open spec fn names(vars: Seq<Var>) -> Seq<Seq<char>> {
    vars.map_values(|v: Var| v@)
}

/// The value of the first entry for `name` at or after position `start`.
pub open spec fn assigned_from(a: AssignmentView, name: Seq<char>, start: int) -> Option<WidthInt>
    decreases a.len() - start,
{
    if start < 0 || start >= a.len() {
        None
    } else if a[start].0 == name {
        Some(a[start].1)
    } else {
        assigned_from(a, name, start + 1)
    }
}

/// The value that an assignment gives a variable: that of the first entry
/// for it.
pub open spec fn assigned(a: AssignmentView, name: Seq<char>) -> Option<WidthInt> {
    assigned_from(a, name, 0)
}

/// Looks a variable up in an assignment.
pub fn lookup(a: &[(Var, WidthInt)], var: &Var) -> (res: Option<WidthInt>)
    ensures
        res == assigned(assignment_view(a@), var@),
{
    let ghost view = assignment_view(a@);
    let mut i: usize = 0;
    while i < a.len()
        invariant
            i <= a.len(),
            view == assignment_view(a@),
            assigned_from(view, var@, i as int) == assigned(view, var@),
        decreases a.len() - i,
    {
        if a[i].0.same(var) {
            return Some(a[i].1);
        }
        i += 1;
    }
    None
}

/// The values of the variables `vars` under an assignment, in the order of
/// `vars`; `None` where one of them has no value.
pub open spec fn condition_values(vars: Seq<Seq<char>>, a: AssignmentView) -> Option<
    Seq<WidthInt>,
> {
    if forall|i: int| 0 <= i < vars.len() ==> assigned(a, #[trigger] vars[i]) is Some {
        Some(Seq::new(vars.len(), |i: int| assigned(a, vars[i])->0))
    } else {
        None
    }
}

/// Looks up each of `vars` in an assignment.
pub fn lookup_all(vars: &Vec<Var>, a: &[(Var, WidthInt)]) -> (res: Option<Vec<WidthInt>>)
    ensures
        res matches Some(values) ==> condition_values(names(vars@), assignment_view(a@)) == Some(
            values@,
        ),
        res is None ==> condition_values(names(vars@), assignment_view(a@)) is None,
{
    let ghost wanted = names(vars@);
    let ghost view = assignment_view(a@);
    let mut values: Vec<WidthInt> = Vec::new();
    let mut i: usize = 0;
    while i < vars.len()
        invariant
            i <= vars.len(),
            wanted == names(vars@),
            view == assignment_view(a@),
            values.len() == i,
            forall|k: int| 0 <= k < i ==> assigned(view, #[trigger] wanted[k]) == Some(values[k]),
        decreases vars.len() - i,
    {
        match lookup(a, &vars[i]) {
            Some(value) => {
                values.push(value);
            },
            None => {
                assert(assigned(view, wanted[i as int]) is None);
                return None;
            },
        }
        i += 1;
    }
    assert(values@ =~= Seq::new(wanted.len(), |i: int| assigned(view, wanted[i])->0));
    Some(values)
}

/// What a match says of one pattern variable: the equivalence class that
/// the variable is bound to, and the constant width or sign of that class
/// where one is known.
#[derive(Debug, PartialEq, Eq)]
pub struct Binding {
    pub var: Var,
    pub eclass: usize,
    pub constant: Option<WidthInt>,
}

/// A binding as contracts speak of it.
pub struct BindingView {
    pub var: Seq<char>,
    pub eclass: usize,
    pub constant: Option<WidthInt>,
}

impl View for Binding {
    type V = BindingView;

    open spec fn view(&self) -> BindingView {
        BindingView { var: self.var@, eclass: self.eclass, constant: self.constant }
    }
}

impl Clone for Binding {
    fn clone(&self) -> (res: Binding)
        ensures
            res@ == self@,
    {
        Binding { var: self.var.clone(), eclass: self.eclass, constant: self.constant }
    }
}

/// A substitution: the bindings of the variables of a matched pattern.
pub type Substitution = Vec<Binding>;

/// The view of a substitution.
pub open spec fn substitution_view(s: Seq<Binding>) -> Seq<BindingView> {
    s.map_values(|b: Binding| b@)
}

/// The constant of the first binding of `name` at or after position `start`.
pub open spec fn resolved_from(s: Seq<BindingView>, name: Seq<char>, start: int) -> Option<
    WidthInt,
>
    decreases s.len() - start,
{
    if start < 0 || start >= s.len() {
        None
    } else if s[start].var == name {
        s[start].constant
    } else {
        resolved_from(s, name, start + 1)
    }
}

/// The constant that a substitution resolves a variable to: that of the
/// class of its first binding; `None` where the variable is not bound or
/// the class has no known constant.
pub open spec fn resolved(s: Seq<BindingView>, name: Seq<char>) -> Option<WidthInt> {
    resolved_from(s, name, 0)
}

/// Resolves a variable to the constant of the class it is bound to.
pub fn resolve(s: &[Binding], var: &Var) -> (res: Option<WidthInt>)
    ensures
        res == resolved(substitution_view(s@), var@),
{
    let ghost view = substitution_view(s@);
    let mut i: usize = 0;
    while i < s.len()
        invariant
            i <= s.len(),
            view == substitution_view(s@),
            resolved_from(view, var@, i as int) == resolved(view, var@),
        decreases s.len() - i,
    {
        if s[i].var.same(var) {
            return s[i].constant;
        }
        i += 1;
    }
    None
}

/// The constants of the variables `vars` under a substitution, in the
/// order of `vars`; `None` where one of them does not resolve.
pub open spec fn resolved_values(vars: Seq<Seq<char>>, s: Seq<BindingView>) -> Option<
    Seq<WidthInt>,
> {
    if forall|i: int| 0 <= i < vars.len() ==> resolved(s, #[trigger] vars[i]) is Some {
        Some(Seq::new(vars.len(), |i: int| resolved(s, vars[i])->0))
    } else {
        None
    }
}

/// Resolves each of `vars` under a substitution.
pub fn resolve_all(vars: &Vec<Var>, s: &[Binding]) -> (res: Option<Vec<WidthInt>>)
    ensures
        res matches Some(values) ==> resolved_values(names(vars@), substitution_view(s@)) == Some(
            values@,
        ),
        res is None ==> resolved_values(names(vars@), substitution_view(s@)) is None,
{
    let ghost wanted = names(vars@);
    let ghost view = substitution_view(s@);
    let mut values: Vec<WidthInt> = Vec::new();
    let mut i: usize = 0;
    while i < vars.len()
        invariant
            i <= vars.len(),
            wanted == names(vars@),
            view == substitution_view(s@),
            values.len() == i,
            forall|k: int| 0 <= k < i ==> resolved(view, #[trigger] wanted[k]) == Some(values[k]),
        decreases vars.len() - i,
    {
        match resolve(s, &vars[i]) {
            Some(value) => {
                values.push(value);
            },
            None => {
                assert(resolved(view, wanted[i as int]) is None);
                return None;
            },
        }
        i += 1;
    }
    assert(values@ =~= Seq::new(wanted.len(), |i: int| resolved(view, wanted[i])->0));
    Some(values)
}

} // verus!
