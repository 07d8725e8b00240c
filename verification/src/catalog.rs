//! The rules: commutativity of addition and multiplication, merging and
//! splitting of left shifts, doubling by addition, and moving a left shift
//! into a product.
//!
//! Each rule is written as text. Making the rules reads the texts and checks
//! every pattern for width-consistency, so that a slip in a text is found
//! when the rules are made and not when they are used.

use crate::condition::Guard;
use crate::export::{exported, rewrites_view, Rewrite, RewriteView};
use crate::rewrites::{
    built_rule, evaluates, is_rule_outcome, rule_builds, texts_view, ArithRewrite, RewriteError,
    RuleView,
};
use crate::syntax::parsed_pattern;
use crate::width::{mul_no_overflow, shift_no_overflow, width_of_left_shift, WidthInt};
use vstd::prelude::*;

verus! {

/// A rule as it is written down.
#[derive(Debug)]
pub struct RuleSource {
    pub name: &'static str,
    /// The text of the left-hand pattern.
    pub lhs: &'static str,
    /// The text of the right-hand pattern.
    pub rhs: &'static str,
    /// The names of the variables whose values the condition reads.
    pub cond_vars: Vec<&'static str>,
    pub cond: Option<Guard>,
}

/// A rule as it is written down, as contracts speak of it.
pub struct RuleSourceView {
    pub name: Seq<char>,
    pub lhs: Seq<char>,
    pub rhs: Seq<char>,
    pub cond_vars: Seq<Seq<char>>,
    pub cond: Option<Guard>,
}

impl View for RuleSource {
    type V = RuleSourceView;

    open spec fn view(&self) -> RuleSourceView {
        RuleSourceView {
            name: self.name@,
            lhs: self.lhs@,
            rhs: self.rhs@,
            cond_vars: texts_view(self.cond_vars@),
            cond: self.cond,
        }
    }
}

/// The views of a list of rules as they are written down.
pub open spec fn sources_view(sources: Seq<RuleSource>) -> Seq<RuleSourceView> {
    sources.map_values(|s: RuleSource| s@)
}

/// The rules, in the order in which they are made and exported.
pub open spec fn catalog() -> Seq<RuleSourceView> {
    seq![
        // a + b => b + a
        RuleSourceView {
            name: "commute-add"@,
            lhs: "(+ ?wo ?wa ?sa ?a ?wb ?sb ?b)"@,
            rhs: "(+ ?wo ?wb ?sb ?b ?wa ?sa ?a)"@,
            cond_vars: seq![],
            cond: None,
        },
        // a * b => b * a
        RuleSourceView {
            name: "commute-mul"@,
            lhs: "(* ?wo ?wa ?sa ?a ?wb ?sb ?b)"@,
            rhs: "(* ?wo ?wb ?sb ?b ?wa ?sa ?a)"@,
            cond_vars: seq![],
            cond: None,
        },
        // (a << b) << c => a << (b + c)
        // b, c and (b + c) are all unsigned, and (b + c) is wide enough not
        // to wrap; the value that is shifted keeps its sign
        RuleSourceView {
            name: "merge-left-shift"@,
            lhs: "(<< ?wo ?wab ?sa (<< ?wab ?wa ?sa ?a ?wb unsign ?b) ?wc unsign ?c)"@,
            rhs: "(<< ?wo ?wa ?sa ?a (max+1 ?wb ?wc) unsign (+ (max+1 ?wb ?wc) ?wb unsign ?b ?wc unsign ?c))"@,
            cond_vars: seq!["?wo"@, "?wab"@],
            cond: Some(Guard::MergeLeftShift),
        },
        // a << (b + c) => (a << b) << c
        // the width of the inner shift is the least that cannot overflow
        RuleSourceView {
            name: "unmerge-left-shift"@,
            lhs: "(<< ?wo ?wa ?sa ?a ?wbc unsign (+ ?wbc ?wb unsign ?b ?wc unsign ?c))"@,
            rhs: "(<< ?wo (wlsh ?wa ?wb) ?sa (<< (wlsh ?wa ?wb) ?wa ?sa ?a ?wb unsign ?b) ?wc unsign ?c)"@,
            cond_vars: seq!["?wbc"@, "?wb"@, "?wc"@],
            cond: Some(Guard::UnmergeLeftShift),
        },
        // a * 2 => a + a
        RuleSourceView {
            name: "mult-to-add"@,
            lhs: "(* ?wo ?wa ?sa ?a ?wb ?sb 2)"@,
            rhs: "(+ ?wo ?wa ?sa ?a ?wa ?sa ?a)"@,
            cond_vars: seq!["?wb"@, "?sb"@, "?wo"@],
            cond: Some(Guard::MultToAdd),
        },
        // (a * b) << c => (a << c) * b
        // all operands are unsigned; the width of the inner shift is the
        // least that cannot overflow
        RuleSourceView {
            name: "left-shift-mult"@,
            lhs: "(<< ?wo ?wab unsign (* ?wab ?wa unsign ?a ?wb unsign ?b) ?wc unsign ?c)"@,
            rhs: "(* ?wo (wlsh ?wa ?wc) unsign (<< (wlsh ?wa ?wc) ?wa unsign ?a ?wc unsign ?c) ?wb unsign ?b)"@,
            cond_vars: seq!["?wab"@, "?wa"@, "?wb"@, "?wo"@, "?wc"@],
            cond: Some(Guard::LeftShiftMult),
        },
    ]
}

/// The rule that moves a left shift into a product does not fire where the
/// product or the shift would overflow, in the matched order or in the
/// rewritten one. The values are those of `?wab`, `?wa`, `?wb`, `?wo` and
/// `?wc`, in the order of the rule's condition variables.
pub proof fn lemma_left_shift_mult_rejects_overflow(
    wab: WidthInt,
    wa: WidthInt,
    wb: WidthInt,
    wo: WidthInt,
    wc: WidthInt,
)
    requires
        !mul_no_overflow(wab as int, wa as int, wb as int) || !shift_no_overflow(
            wo as int,
            wab as int,
            wc as nat,
        ) || !shift_no_overflow(width_of_left_shift(wa as int, wc as nat), wa as int, wc as nat)
            || !mul_no_overflow(wo as int, width_of_left_shift(wa as int, wc as nat), wb as int),
    ensures
        catalog()[5].name == "left-shift-mult"@,
        !evaluates(catalog()[5].cond, seq![wab, wa, wb, wo, wc]),
{
}

/// Whether a rule as written down makes a rule.
pub open spec fn source_builds(source: RuleSourceView) -> bool {
    rule_builds(parsed_pattern(source.lhs), parsed_pattern(source.rhs), source.cond_vars)
}

/// The rule that a rule as written down makes.
pub open spec fn source_rule(source: RuleSourceView) -> RuleView {
    built_rule(
        source.name,
        parsed_pattern(source.lhs),
        parsed_pattern(source.rhs),
        source.cond_vars,
        source.cond,
    )
}

/// Why the rules could not be made: the position of the first rule that
/// could not, and what is wrong with it.
#[derive(Clone, Copy, Debug, PartialEq, Eq, Structural)]
pub struct CatalogError {
    pub rule: usize,
    pub error: RewriteError,
}

/// Whether `error` tells of the first rule of `sources` that cannot be
/// made.
pub open spec fn is_catalog_error(sources: Seq<RuleSourceView>, error: CatalogError) -> bool {
    &&& error.rule < sources.len()
    &&& forall|j: int| 0 <= j < error.rule ==> source_builds(#[trigger] sources[j])
    &&& is_rule_outcome(
        sources[error.rule as int].name,
        parsed_pattern(sources[error.rule as int].lhs),
        parsed_pattern(sources[error.rule as int].rhs),
        sources[error.rule as int].cond_vars,
        sources[error.rule as int].cond,
        Err(error.error),
    )
}

/// Whether `rules` are the rules that `sources` make, in their order.
pub open spec fn are_rules_of(sources: Seq<RuleSourceView>, rules: Seq<RuleView>) -> bool {
    &&& rules.len() == sources.len()
    &&& forall|i: int|
        0 <= i < sources.len() ==> source_builds(#[trigger] sources[i]) && rules[i] == source_rule(
            sources[i],
        )
}

/// Whether `rewrites` are the exported rewrites of the rules that `sources`
/// make, in their order.
pub open spec fn are_rewrites_of(sources: Seq<RuleSourceView>, rewrites: Seq<RewriteView>) -> bool {
    &&& rewrites.len() == sources.len()
    &&& forall|i: int|
        0 <= i < sources.len() ==> source_builds(#[trigger] sources[i]) && rewrites[i] == exported(
            source_rule(sources[i]),
        )
}

/// The views of a list of rules.
pub open spec fn rules_view(rules: Seq<ArithRewrite>) -> Seq<RuleView> {
    rules.map_values(|r: ArithRewrite| r@)
}

/// The rules as they are written down.
pub fn rule_sources() -> (res: Vec<RuleSource>)
    ensures
        sources_view(res@) == catalog(),
{
    let mut sources: Vec<RuleSource> = Vec::new();
    let none: Vec<&'static str> = Vec::new();
    sources.push(
        RuleSource {
            name: "commute-add",
            lhs: "(+ ?wo ?wa ?sa ?a ?wb ?sb ?b)",
            rhs: "(+ ?wo ?wb ?sb ?b ?wa ?sa ?a)",
            cond_vars: none,
            cond: None,
        },
    );
    let none: Vec<&'static str> = Vec::new();
    sources.push(
        RuleSource {
            name: "commute-mul",
            lhs: "(* ?wo ?wa ?sa ?a ?wb ?sb ?b)",
            rhs: "(* ?wo ?wb ?sb ?b ?wa ?sa ?a)",
            cond_vars: none,
            cond: None,
        },
    );
    sources.push(
        RuleSource {
            name: "merge-left-shift",
            lhs: "(<< ?wo ?wab ?sa (<< ?wab ?wa ?sa ?a ?wb unsign ?b) ?wc unsign ?c)",
            rhs: "(<< ?wo ?wa ?sa ?a (max+1 ?wb ?wc) unsign (+ (max+1 ?wb ?wc) ?wb unsign ?b ?wc unsign ?c))",
            cond_vars: vec!["?wo", "?wab"],
            cond: Some(Guard::MergeLeftShift),
        },
    );
    sources.push(
        RuleSource {
            name: "unmerge-left-shift",
            lhs: "(<< ?wo ?wa ?sa ?a ?wbc unsign (+ ?wbc ?wb unsign ?b ?wc unsign ?c))",
            rhs: "(<< ?wo (wlsh ?wa ?wb) ?sa (<< (wlsh ?wa ?wb) ?wa ?sa ?a ?wb unsign ?b) ?wc unsign ?c)",
            cond_vars: vec!["?wbc", "?wb", "?wc"],
            cond: Some(Guard::UnmergeLeftShift),
        },
    );
    sources.push(
        RuleSource {
            name: "mult-to-add",
            lhs: "(* ?wo ?wa ?sa ?a ?wb ?sb 2)",
            rhs: "(+ ?wo ?wa ?sa ?a ?wa ?sa ?a)",
            cond_vars: vec!["?wb", "?sb", "?wo"],
            cond: Some(Guard::MultToAdd),
        },
    );
    sources.push(
        RuleSource {
            name: "left-shift-mult",
            lhs: "(<< ?wo ?wab unsign (* ?wab ?wa unsign ?a ?wb unsign ?b) ?wc unsign ?c)",
            rhs: "(* ?wo (wlsh ?wa ?wc) unsign (<< (wlsh ?wa ?wc) ?wa unsign ?a ?wc unsign ?c) ?wb unsign ?b)",
            cond_vars: vec!["?wab", "?wa", "?wb", "?wo", "?wc"],
            cond: Some(Guard::LeftShiftMult),
        },
    );
    proof {
        let views = sources_view(sources@);
        assert(views[0].cond_vars =~= catalog()[0].cond_vars);
        assert(views[1].cond_vars =~= catalog()[1].cond_vars);
        assert(views[2].cond_vars =~= catalog()[2].cond_vars);
        assert(views[3].cond_vars =~= catalog()[3].cond_vars);
        assert(views[4].cond_vars =~= catalog()[4].cond_vars);
        assert(views[5].cond_vars =~= catalog()[5].cond_vars);
        assert(views =~= catalog());
    }
    sources
}

/// Makes the rules that are written down in `sources`, in their order;
/// where one of them cannot be made, the first such is reported.
pub fn rewrites_from(sources: &Vec<RuleSource>) -> (res: Result<Vec<ArithRewrite>, CatalogError>)
    ensures
        res matches Ok(rules) ==> are_rules_of(sources_view(sources@), rules_view(rules@)),
        res matches Err(error) ==> is_catalog_error(sources_view(sources@), error),
{
    let ghost views = sources_view(sources@);
    let mut rules: Vec<ArithRewrite> = Vec::new();
    let mut i: usize = 0;
    while i < sources.len()
        invariant
            i <= sources.len(),
            views == sources_view(sources@),
            rules.len() == i,
            forall|k: int|
                0 <= k < i ==> source_builds(#[trigger] views[k]) && rules[k]@ == source_rule(
                    views[k],
                ),
        decreases sources.len() - i,
    {
        let source = &sources[i];
        assert(views[i as int] == source@);
        match ArithRewrite::new(
            source.name,
            source.lhs,
            source.rhs,
            source.cond_vars.as_slice(),
            source.cond,
        ) {
            Ok(rule) => {
                rules.push(rule);
            },
            Err(error) => {
                return Err(CatalogError { rule: i, error });
            },
        }
        i += 1;
    }
    assert forall|k: int| 0 <= k < views.len() implies rules_view(rules@)[k] == source_rule(
        #[trigger] views[k],
    ) by {
        assert(rules_view(rules@)[k] == rules[k]@);
    }
    Ok(rules)
}

/// Makes the rules of the catalog.
pub fn create_rewrites() -> (res: Result<Vec<ArithRewrite>, CatalogError>)
    ensures
        res matches Ok(rules) ==> are_rules_of(catalog(), rules_view(rules@)),
        res matches Err(error) ==> is_catalog_error(catalog(), error),
{
    rewrites_from(&rule_sources())
}

/// Exports every rule of a list, in the order of the rules.
pub fn export_all(rules: &Vec<ArithRewrite>) -> (res: Vec<Rewrite>)
    ensures
        rewrites_view(res@) == rules_view(rules@).map_values(|r: RuleView| exported(r)),
{
    let ghost views = rules_view(rules@);
    let mut rewrites: Vec<Rewrite> = Vec::new();
    let mut i: usize = 0;
    assert(rewrites_view(rewrites@) =~= views.take(0).map_values(|r: RuleView| exported(r)));
    while i < rules.len()
        invariant
            i <= rules.len(),
            views == rules_view(rules@),
            rewrites_view(rewrites@) == views.take(i as int).map_values(|r: RuleView| exported(r)),
        decreases rules.len() - i,
    {
        let mut exported_rules = rules[i].to_egg();
        let ghost before = rewrites_view(rewrites@);
        let ghost added = rewrites_view(exported_rules@);
        rewrites.append(&mut exported_rules);
        assert(rewrites_view(rewrites@) =~= before + added);
        assert(views.take(i + 1).map_values(|r: RuleView| exported(r)) =~= views.take(
            i as int,
        ).map_values(|r: RuleView| exported(r)) + seq![exported(views[i as int])]);
        i += 1;
    }
    assert(views.take(rules.len() as int) =~= views);
    rewrites
}

/// Returns all our rewrites in the form in which the engine takes them:
/// the exported rewrites of every rule of the catalog, in the order of the
/// rules.
pub fn create_egg_rewrites() -> (res: Result<Vec<Rewrite>, CatalogError>)
    ensures
        res matches Ok(rewrites) ==> are_rewrites_of(catalog(), rewrites_view(rewrites@)),
        res matches Err(error) ==> is_catalog_error(catalog(), error),
{
    match create_rewrites() {
        Ok(rules) => Ok(export_all(&rules)),
        Err(error) => Err(error),
    }
}

} // verus!
