use arith_rewrites::{
    create_egg_rewrites, create_rewrites, export_all, rewrites_from, rule_sources,
    substitution_to_assignment, vars_in_pattern, ArithMatch, ArithRewrite, Binding,
    CatalogError, Condition, Guard, Node, Pattern, PatternError, RewriteError, RuleSource,
    SearchMatches, Side, Var, WidthInt,
};

fn var(name: &str) -> Var {
    Var::new(name).unwrap()
}

fn assignment(entries: &[(&str, WidthInt)]) -> Vec<(Var, WidthInt)> {
    entries.iter().map(|(name, value)| (var(name), *value)).collect()
}

fn binding(name: &str, eclass: usize, constant: Option<WidthInt>) -> Binding {
    Binding { var: var(name), eclass, constant }
}

fn rule(name: &str) -> ArithRewrite {
    create_rewrites().unwrap().into_iter().find(|r| r.name() == name).unwrap()
}

fn names(vars: &[Var]) -> Vec<&str> {
    vars.iter().map(|v| v.name()).collect()
}

#[test]
fn the_catalog_has_its_six_rules_in_order() {
    let rules = create_rewrites().unwrap();
    let found: Vec<&str> = rules.iter().map(|r| r.name()).collect();
    assert_eq!(
        found,
        vec![
            "commute-add",
            "commute-mul",
            "merge-left-shift",
            "unmerge-left-shift",
            "mult-to-add",
            "left-shift-mult"
        ]
    );
    let conds: Vec<Option<Guard>> = rules.iter().map(|r| r.cond()).collect();
    assert_eq!(
        conds,
        vec![
            None,
            None,
            Some(Guard::MergeLeftShift),
            Some(Guard::UnmergeLeftShift),
            Some(Guard::MultToAdd),
            Some(Guard::LeftShiftMult)
        ]
    );
    assert!(names(rules[0].cond_vars()).is_empty());
    assert!(names(rules[1].cond_vars()).is_empty());
    assert_eq!(names(rules[2].cond_vars()), vec!["?wo", "?wab"]);
    assert_eq!(names(rules[3].cond_vars()), vec!["?wbc", "?wb", "?wc"]);
    assert_eq!(names(rules[4].cond_vars()), vec!["?wb", "?sb", "?wo"]);
    assert_eq!(names(rules[5].cond_vars()), vec!["?wab", "?wa", "?wb", "?wo", "?wc"]);
}

#[test]
fn every_rule_of_the_catalog_is_width_consistent() {
    for rule in create_rewrites().unwrap() {
        let (lhs, rhs) = rule.patterns();
        assert_eq!(arith_rewrites::check_width_consistency(lhs), Ok(()), "{}", rule.name());
        assert_eq!(arith_rewrites::check_width_consistency(rhs), Ok(()), "{}", rule.name());
    }
}

#[test]
fn every_condition_reads_as_many_values_as_the_rule_has_condition_variables() {
    for rule in create_rewrites().unwrap() {
        if let Some(guard) = rule.cond() {
            assert_eq!(guard.arity(), rule.cond_vars().len(), "{}", rule.name());
        }
    }
}

#[test]
fn the_patterns_of_a_rule_are_those_of_its_texts() {
    let merge = rule("merge-left-shift");
    let (lhs, rhs) = merge.patterns();
    assert_eq!(
        *lhs,
        Pattern::parse("(<< ?wo ?wab ?sa (<< ?wab ?wa ?sa ?a ?wb unsign ?b) ?wc unsign ?c)")
            .unwrap()
    );
    assert_eq!(
        *rhs,
        Pattern::parse(
            "(<< ?wo ?wa ?sa ?a (max+1 ?wb ?wc) unsign (+ (max+1 ?wb ?wc) ?wb unsign ?b ?wc unsign ?c))"
        )
        .unwrap()
    );
    let double = rule("mult-to-add");
    let (lhs, rhs) = double.patterns();
    assert_eq!(*lhs, Pattern::parse("(* ?wo ?wa ?sa ?a ?wb ?sb 2)").unwrap());
    assert_eq!(*rhs, Pattern::parse("(+ ?wo ?wa ?sa ?a ?wa ?sa ?a)").unwrap());
    assert_eq!(*lhs.node(6), Node::Width(2));
}

#[test]
fn a_rule_is_made_of_its_texts() {
    let rule = ArithRewrite::new(
        "swap",
        "(+ ?wo ?wa ?sa ?a ?wb ?sb ?b)",
        "(+ ?wo ?wb ?sb ?b ?wa ?sa ?a)",
        &["?wo", "?wa"],
        Some(Guard::MergeLeftShift),
    )
    .unwrap();
    assert_eq!(rule.name(), "swap");
    assert_eq!(names(rule.cond_vars()), vec!["?wo", "?wa"]);
    assert_eq!(rule.cond(), Some(Guard::MergeLeftShift));
    assert_eq!(rule.patterns().0.len(), 8);
    assert_eq!(rule.patterns().1.root(), 7);
}

#[test]
fn a_rule_with_a_bad_text_is_refused() {
    let good = "(+ ?wo ?wa ?sa ?a ?wb ?sb ?b)";
    let bad = "(<< ?wo ?wx ?sa (<< ?wab ?wa ?sa ?a ?wb unsign ?b) ?wc unsign ?c)";
    let err = |res: Result<ArithRewrite, RewriteError>| res.unwrap_err();
    assert_eq!(
        err(ArithRewrite::new("r", good, good, &["?wo", "wa"], None)),
        RewriteError::ConditionVariable { index: 1 }
    );
    assert_eq!(
        err(ArithRewrite::new("r", "(+ ?wo", bad, &["wa"], None)),
        RewriteError::ConditionVariable { index: 0 }
    );
    assert_eq!(
        err(ArithRewrite::new("r", "(+ ?wo", bad, &[], None)),
        RewriteError::Pattern { side: Side::Lhs, error: PatternError::Syntax }
    );
    assert_eq!(
        err(ArithRewrite::new("r", good, "(+ ?wo ?wa)", &[], None)),
        RewriteError::Pattern {
            side: Side::Rhs,
            error: PatternError::UnknownOperator { node: 2 }
        }
    );
    // both texts are read before either pattern is checked
    assert_eq!(
        err(ArithRewrite::new("r", bad, "(", &[], None)),
        RewriteError::Pattern { side: Side::Rhs, error: PatternError::Syntax }
    );
    match err(ArithRewrite::new("r", bad, bad, &[], None)) {
        RewriteError::InconsistentWidth { side: Side::Lhs, mismatch } => {
            assert_eq!((mismatch.node, mismatch.operand), (12, 9));
            assert_eq!((mismatch.declared, mismatch.actual), (1, 3));
        }
        other => panic!("{other:?}"),
    }
    match err(ArithRewrite::new("r", good, bad, &[], None)) {
        RewriteError::InconsistentWidth { side: Side::Rhs, mismatch } => {
            assert_eq!((mismatch.declared, mismatch.actual), (1, 3));
        }
        other => panic!("{other:?}"),
    }
    let lhs = Pattern::parse(good).unwrap();
    let rhs = Pattern::parse(bad).unwrap();
    assert!(matches!(
        ArithRewrite::from_patterns("r", lhs, rhs, vec![], None),
        Err(RewriteError::InconsistentWidth { side: Side::Rhs, .. })
    ));
}

#[test]
fn a_rule_without_condition_always_applies() {
    let commute = rule("commute-add");
    assert!(commute.evaluate(&[]));
    assert!(commute.evaluate(&[1, 2, 3]));
    assert!(commute.eval_condition(&[]));
    assert!(commute.eval_condition(&assignment(&[("?wo", 1)])));
}

#[test]
fn merge_needs_an_inner_shift_as_wide_as_the_outer_one() {
    let merge = rule("merge-left-shift");
    // values in the order [wo, wab]
    assert!(merge.evaluate(&[17, 17]));
    assert!(merge.evaluate(&[17, 24]));
    assert!(!merge.evaluate(&[17, 16]));
    assert!(!merge.evaluate(&[17]));
    assert!(!merge.evaluate(&[]));
    assert!(merge.eval_condition(&assignment(&[("?wab", 17), ("?wo", 17)])));
    assert!(!merge.eval_condition(&assignment(&[("?wab", 16), ("?wo", 17)])));
    assert!(Guard::MergeLeftShift.check(&[17, 17, 0]));
}

#[test]
fn unmerge_needs_a_sum_that_cannot_wrap() {
    let unmerge = rule("unmerge-left-shift");
    // values in the order [wbc, wb, wc]
    assert!(unmerge.evaluate(&[4, 3, 3]));
    assert!(unmerge.evaluate(&[5, 4, 2]));
    assert!(!unmerge.evaluate(&[3, 3, 3]));
    assert!(!unmerge.evaluate(&[4, 2, 4]));
    assert!(!unmerge.evaluate(&[WidthInt::MAX, WidthInt::MAX, 1]));
    assert!(!unmerge.evaluate(&[4, 3]));
}

#[test]
fn doubling_keeps_the_three_ways_in_which_it_is_exact() {
    let double = rule("mult-to-add");
    // values in the order [wb, sb, wo]
    assert!(double.evaluate(&[2, 0, 17]));
    assert!(!double.evaluate(&[1, 0, 17]));
    assert!(double.evaluate(&[3, 1, 17]));
    assert!(!double.evaluate(&[2, 1, 17]));
    assert!(double.evaluate(&[2, 1, 2]));
    assert!(double.evaluate(&[1, 0, 1]));
    assert!(!double.evaluate(&[1, 1, 2]));
    assert!(!double.evaluate(&[2, 7, 3]));
    assert!(double.evaluate(&[8, 7, 3]));
}

#[test]
fn a_shift_is_not_moved_into_a_product_that_would_overflow() {
    let rule = rule("left-shift-mult");
    // values in the order [wab, wa, wb, wo, wc]
    assert!(rule.evaluate(&[32, 16, 16, 39, 3]));
    assert!(rule.evaluate(&[32, 16, 16, 40, 3]));
    // the shift overflows
    assert!(!rule.evaluate(&[32, 16, 16, 38, 3]));
    // the product overflows
    assert!(!rule.evaluate(&[31, 16, 16, 40, 3]));
    assert!(!rule.evaluate(&[31, 16, 16, 38, 3]));
    assert!(!rule.evaluate(&[32, 16, 16, WidthInt::MAX, 40]));
    assert!(!rule.evaluate(&[32, 16, 16, 39]));
    let a = assignment(&[("?wo", 38), ("?wab", 32), ("?wa", 16), ("?wb", 16), ("?wc", 3)]);
    assert!(!rule.eval_condition(&a));
    let a = assignment(&[("?wo", 39), ("?wab", 32), ("?wa", 16), ("?wb", 16), ("?wc", 3)]);
    assert!(rule.eval_condition(&a));
}

#[test]
fn a_condition_fails_where_a_variable_has_no_value() {
    let merge = rule("merge-left-shift");
    assert!(!merge.eval_condition(&[]));
    assert!(!merge.eval_condition(&assignment(&[("?wo", 17)])));
    assert!(!merge.eval_condition(&assignment(&[("?wab", 17), ("?wa", 17)])));
    // other variables do not matter, and the first entry of a variable counts
    let a = assignment(&[("?wa", 3), ("?wab", 17), ("?wo", 17), ("?wab", 1)]);
    assert!(merge.eval_condition(&a));
    let a = assignment(&[("?wab", 1), ("?wo", 17), ("?wab", 17)]);
    assert!(!merge.eval_condition(&a));
}

#[test]
fn the_variables_of_a_pattern_come_in_the_order_of_its_nodes() {
    let p = Pattern::parse("(<< ?wo ?wab ?sa (<< ?wab ?wa ?sa ?a ?wb unsign ?b) ?wc unsign ?c)")
        .unwrap();
    assert_eq!(
        names(&vars_in_pattern(&p)),
        vec!["?wo", "?wab", "?sa", "?wa", "?a", "?wb", "?b", "?wc", "?c"]
    );
    assert!(vars_in_pattern(&Pattern::parse("(max+1 3 4)").unwrap()).is_empty());
}

#[test]
fn an_assignment_holds_the_variables_that_resolve() {
    let p = Pattern::parse("(+ ?wo ?wa ?sa ?a ?wb ?sb ?b)").unwrap();
    let subst = vec![
        binding("?b", 9, None),
        binding("?wo", 1, Some(17)),
        binding("?wa", 2, Some(16)),
        binding("?sa", 3, Some(0)),
        binding("?a", 4, None),
        binding("?sb", 3, Some(0)),
        binding("?wo", 5, Some(99)),
        binding("?other", 6, Some(5)),
    ];
    let assign = substitution_to_assignment(&subst, &p);
    assert_eq!(assign, assignment(&[("?wo", 17), ("?wa", 16), ("?sa", 0), ("?sb", 0)]));
    assert!(substitution_to_assignment(&[], &p).is_empty());
}

#[test]
fn a_rule_is_exported_as_one_rewrite() {
    let commute = rule("commute-mul");
    let exported = commute.to_egg();
    assert_eq!(exported.len(), 1);
    assert_eq!(exported[0].name, "commute-mul");
    assert_eq!(exported[0].searcher, *commute.patterns().0);
    assert_eq!(exported[0].applier, *commute.patterns().1);
    assert!(exported[0].condition.is_none());

    let unmerge = rule("unmerge-left-shift");
    let exported = unmerge.to_egg();
    assert_eq!(exported.len(), 1);
    assert_eq!(exported[0].name, "unmerge-left-shift");
    assert_eq!(exported[0].searcher, *unmerge.patterns().0);
    assert_eq!(exported[0].applier, *unmerge.patterns().1);
    let condition = exported[0].condition.as_ref().unwrap();
    assert_eq!(condition.guard, Guard::UnmergeLeftShift);
    assert_eq!(names(&condition.vars), vec!["?wbc", "?wb", "?wc"]);
}

#[test]
fn the_exported_rewrites_follow_the_catalog() {
    let rules = create_rewrites().unwrap();
    let rewrites = create_egg_rewrites().unwrap();
    assert_eq!(rewrites.len(), 6);
    for (rule, rewrite) in rules.iter().zip(rewrites.iter()) {
        assert_eq!(rewrite.name, rule.name());
        assert_eq!(rewrite.searcher, *rule.patterns().0);
        assert_eq!(rewrite.applier, *rule.patterns().1);
        assert_eq!(rewrite.condition.as_ref().map(|c| c.guard), rule.cond());
        if let Some(condition) = &rewrite.condition {
            assert_eq!(names(&condition.vars), names(rule.cond_vars()));
        }
    }
}

#[test]
fn an_exported_condition_resolves_its_variables_through_the_match() {
    let condition = Condition { vars: vec![var("?wo"), var("?wab")], guard: Guard::MergeLeftShift };
    let subst = vec![binding("?wab", 1, Some(17)), binding("?a", 2, None), binding("?wo", 3, Some(17))];
    assert!(condition.check(&subst));
    let subst = vec![binding("?wab", 1, Some(16)), binding("?wo", 3, Some(17))];
    assert!(!condition.check(&subst));
    // a variable whose class has no constant, and one that is not bound
    let subst = vec![binding("?wab", 1, None), binding("?wo", 3, Some(17))];
    assert!(!condition.check(&subst));
    let subst = vec![binding("?wab", 1, Some(17))];
    assert!(!condition.check(&subst));
    assert!(!condition.check(&[]));
    // the first binding of a variable counts
    let subst = vec![
        binding("?wab", 1, None),
        binding("?wab", 1, Some(17)),
        binding("?wo", 3, Some(17)),
    ];
    assert!(!condition.check(&subst));
}

#[test]
fn matches_are_reported_class_by_class() {
    let merge = rule("merge-left-shift");
    let subst = |wo: Option<WidthInt>, wab: Option<WidthInt>| {
        vec![
            binding("?wo", 1, wo),
            binding("?wab", 2, wab),
            binding("?sa", 3, Some(0)),
            binding("?a", 4, None),
        ]
    };
    let found = vec![
        SearchMatches { eclass: 7, substs: vec![subst(Some(17), Some(17)), subst(Some(17), Some(16))] },
        SearchMatches { eclass: 8, substs: vec![] },
        SearchMatches { eclass: 9, substs: vec![subst(Some(17), None)] },
    ];
    let matches: Vec<ArithMatch> = merge.find_lhs_matches(&found);
    assert_eq!(matches.len(), 3);
    assert_eq!(matches[0].eclass, 7);
    assert_eq!(matches[0].assign, assignment(&[("?wo", 17), ("?wab", 17), ("?sa", 0)]));
    assert!(matches[0].cond_res);
    assert_eq!(matches[1].eclass, 7);
    assert_eq!(matches[1].assign, assignment(&[("?wo", 17), ("?wab", 16), ("?sa", 0)]));
    assert!(!matches[1].cond_res);
    assert_eq!(matches[2].eclass, 9);
    assert_eq!(matches[2].assign, assignment(&[("?wo", 17), ("?sa", 0)]));
    assert!(!matches[2].cond_res);
    assert!(merge.find_lhs_matches(&[]).is_empty());
    // without a condition every match counts
    let commute = rule("commute-add");
    let matches = commute.find_lhs_matches(&found);
    assert_eq!(matches.len(), 3);
    assert!(matches.iter().all(|m| m.cond_res));
}

#[test]
fn the_rules_are_written_down_as_text() {
    let sources = rule_sources();
    assert_eq!(sources.len(), 6);
    assert_eq!(sources[0].name, "commute-add");
    assert_eq!(sources[0].lhs, "(+ ?wo ?wa ?sa ?a ?wb ?sb ?b)");
    assert_eq!(sources[0].rhs, "(+ ?wo ?wb ?sb ?b ?wa ?sa ?a)");
    assert!(sources[0].cond_vars.is_empty());
    assert_eq!(sources[0].cond, None);
    assert_eq!(sources[5].name, "left-shift-mult");
    assert_eq!(
        sources[5].lhs,
        "(<< ?wo ?wab unsign (* ?wab ?wa unsign ?a ?wb unsign ?b) ?wc unsign ?c)"
    );
    assert_eq!(
        sources[5].rhs,
        "(* ?wo (wlsh ?wa ?wc) unsign (<< (wlsh ?wa ?wc) ?wa unsign ?a ?wc unsign ?c) ?wb unsign ?b)"
    );
    assert_eq!(sources[5].cond_vars, vec!["?wab", "?wa", "?wb", "?wo", "?wc"]);
    assert_eq!(sources[5].cond, Some(Guard::LeftShiftMult));
    let rules = create_rewrites().unwrap();
    for (source, rule) in sources.iter().zip(rules.iter()) {
        assert_eq!(rule.name(), source.name);
        assert_eq!(*rule.patterns().0, Pattern::parse(source.lhs).unwrap());
        assert_eq!(*rule.patterns().1, Pattern::parse(source.rhs).unwrap());
        assert_eq!(names(rule.cond_vars()), source.cond_vars);
        assert_eq!(rule.cond(), source.cond);
    }
}

#[test]
fn the_first_rule_that_cannot_be_made_is_reported() {
    let source = |name: &'static str, lhs: &'static str, rhs: &'static str| RuleSource {
        name,
        lhs,
        rhs,
        cond_vars: vec![],
        cond: None,
    };
    let good = "(+ ?wo ?wa ?sa ?a ?wb ?sb ?b)";
    let bad = "(<< ?wo ?wx ?sa (<< ?wab ?wa ?sa ?a ?wb unsign ?b) ?wc unsign ?c)";
    let sources = vec![source("a", good, good), source("b", good, "(+"), source("c", bad, bad)];
    assert_eq!(
        rewrites_from(&sources).unwrap_err(),
        CatalogError {
            rule: 1,
            error: RewriteError::Pattern { side: Side::Rhs, error: PatternError::Syntax }
        }
    );
    let sources = vec![source("a", good, good), source("c", good, bad), source("b", good, "(+")];
    match rewrites_from(&sources).unwrap_err() {
        CatalogError { rule: 1, error: RewriteError::InconsistentWidth { side, mismatch } } => {
            assert_eq!(side, Side::Rhs);
            assert_eq!(
                mismatch.message(&Pattern::parse(bad).unwrap()).unwrap(),
                "In `<<`, subexpression `<<` has inconsistent width: ?wx != ?wab"
            );
        }
        other => panic!("{other:?}"),
    }
    let sources = vec![source("a", good, good), source("b", good, good)];
    let rules = rewrites_from(&sources).unwrap();
    assert_eq!(rules.len(), 2);
    assert_eq!(rules[1].name(), "b");
    let rewrites = export_all(&rules);
    assert_eq!(rewrites.len(), 2);
    assert_eq!(rewrites[0].name, "a");
    assert_eq!(rewrites[1].name, "b");
    assert!(rewrites_from(&vec![]).unwrap().is_empty());
    assert!(export_all(&vec![]).is_empty());
}

#[test]
fn a_rule_may_leave_a_variable_open() {
    let lhs = "(+ ?wo ?wa ?sa ?a ?wb ?sb ?b)";
    let closed = ArithRewrite::new("r", lhs, "(* ?wo ?wb ?sb ?b ?wa ?sa ?a)", &["?wo"], None);
    assert!(closed.unwrap().binds_its_variables());
    let open = ArithRewrite::new("r", lhs, "(* ?wo ?wb ?sb ?b ?wa ?sa ?c)", &[], None);
    assert!(!open.unwrap().binds_its_variables());
    let open = ArithRewrite::new("r", lhs, lhs, &["?wo", "?wc"], Some(Guard::MergeLeftShift));
    assert!(!open.unwrap().binds_its_variables());
    let constant = ArithRewrite::new("r", lhs, "17", &[], None);
    assert!(constant.unwrap().binds_its_variables());
}

#[test]
fn every_rule_binds_the_variables_that_it_uses() {
    for rule in create_rewrites().unwrap() {
        assert!(rule.binds_its_variables(), "{}", rule.name());
        let (lhs, rhs) = rule.patterns();
        let bound = vars_in_pattern(lhs);
        for var in vars_in_pattern(rhs).iter().chain(rule.cond_vars().iter()) {
            assert!(bound.iter().any(|b| b.same(var)), "{} {}", rule.name(), var.name());
        }
    }
}

#[test]
fn merged_widths_meet_the_condition_for_splitting() {
    let unmerge = rule("unmerge-left-shift");
    for wb in 1..=8u32 {
        for wc in 1..=8u32 {
            let merged = arith_rewrites::eval_width_max_plus_1(wb, wc).unwrap();
            assert!(unmerge.evaluate(&[merged, wb, wc]));
            assert!(!unmerge.evaluate(&[merged - 1, wb, wc]));
        }
    }
}

#[test]
fn a_shift_that_overflows_in_either_order_is_not_moved() {
    let rule = rule("left-shift-mult");
    for wab in 1..=12u32 {
        for wa in 1..=4u32 {
            for wb in 1..=4u32 {
                for wo in 1..=24u32 {
                    for wc in 1..=3u32 {
                        let wac = arith_rewrites::eval_width_left_shift(wa, wc).unwrap();
                        let fires = rule.evaluate(&[wab, wa, wb, wo, wc]);
                        let matched = arith_rewrites::mul_no_ov(wab, wa, wb)
                            && arith_rewrites::lsh_no_ov(wo, wab, wc);
                        let rewritten = arith_rewrites::lsh_no_ov(wac, wa, wc)
                            && arith_rewrites::mul_no_ov(wo, wac, wb);
                        assert_eq!(fires, matched);
                        assert!(!fires || rewritten);
                    }
                }
            }
        }
    }
}

#[test]
fn matches_and_bindings_can_be_copied() {
    let b = binding("?wo", 4, Some(17));
    let copy = b.clone();
    assert_eq!(copy, b);
    let m = ArithMatch { eclass: 3, assign: assignment(&[("?wo", 17), ("?wab", 16)]), cond_res: true };
    let copy = m.clone();
    assert_eq!(copy.eclass, 3);
    assert_eq!(copy.assign, m.assign);
    assert!(copy.cond_res);
}
