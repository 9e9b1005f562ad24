use tpt_certus::verify_report::{VerifyCheck, VerifyFunction, VerifyLocation, VerifyReport};

fn check(
    description: &str,
    passed: bool,
    is_ensures: bool,
    counterexample: Option<Vec<(String, String)>>,
    or_group: Option<u32>,
    line: u32,
    column: u32,
) -> VerifyCheck {
    VerifyCheck {
        description: description.to_string(),
        passed,
        is_ensures,
        is_approximation: false,
        counterexample,
        or_group,
        location: Some(VerifyLocation { line, column }),
    }
}

/// The report excerpt with one disjunction-group check that reports
/// `passed: false` for a single disjunct while the enclosing function passes.
fn sample() -> VerifyReport {
    VerifyReport {
        file: "crates/tpt-certus-spatial/telos/ray_aabb.telos".to_string(),
        passed: true,
        functions: vec![
            VerifyFunction {
                func_name: "boundary_min_x".to_string(),
                all_passed: true,
                checks: vec![
                    check("ensures: out.flag == 1", true, true, None, None, 81, 17),
                    check("invariant Box maintained: min_x <= max_x", true, false, None, None, 56, 9),
                ],
            },
            VerifyFunction {
                func_name: "slab_hit_decided[branch 0]".to_string(),
                all_passed: true,
                checks: vec![check("ensures: out.flag == 1", true, true, None, None, 98, 17)],
            },
            VerifyFunction {
                func_name: "domain_overlap_detected[branch 0]".to_string(),
                all_passed: true,
                checks: vec![
                    check(
                        "ensures: out.flag == 0 || out.flag == 1 [branch 0]",
                        false,
                        true,
                        Some(vec![
                            ("out.flag".to_string(), "0".to_string()),
                            ("out.flag'".to_string(), "1".to_string()),
                        ]),
                        Some(0),
                        154,
                        17,
                    ),
                    check(
                        "ensures: out.flag == 0 || out.flag == 1 [branch 1]",
                        true,
                        true,
                        None,
                        Some(0),
                        154,
                        17,
                    ),
                ],
            },
        ],
    }
}

#[test]
fn parses_a_real_report_and_folds_branches() {
    let report = sample();
    assert_eq!(report.file, "crates/tpt-certus-spatial/telos/ray_aabb.telos");
    assert!(report.passed);
    assert!(report.all_functions_passed());
    assert_eq!(
        report.verified_function_names(),
        vec!["boundary_min_x", "domain_overlap_detected", "slab_hit_decided"]
    );
    assert_eq!(report.total_checks(), 4);
    assert_eq!(report.approximation_checks(), 0);
    assert!(report.failing_function_names().is_empty());
}

#[test]
fn disjunction_group_failure_does_not_fail_the_function() {
    let report = sample();
    assert!(report.is_verified("domain_overlap_detected"));
    let failed: Vec<&VerifyCheck> = report
        .functions
        .iter()
        .flat_map(|f| f.checks.iter())
        .filter(|c| !c.passed)
        .collect();
    assert_eq!(failed.len(), 1);
    assert_eq!(failed[0].or_group, Some(0));
    assert!(failed[0].summary().contains("FAILED"));
    assert_eq!(failed[0].counterexample.as_ref().map(|c| c.len()), Some(2));
}

#[test]
fn spans_texts_and_counts_are_per_base_function() {
    let report = sample();
    assert_eq!(report.source_span("boundary_min_x"), Some((56, 81)));
    assert_eq!(report.source_span("slab_hit_decided"), Some((98, 98)));
    assert_eq!(report.source_span("missing"), None);
    assert_eq!(report.ensures_texts("slab_hit_decided").len(), 1);
    assert_eq!(report.ensures_texts("domain_overlap_detected").len(), 2);
    assert_eq!(report.check_count("boundary_min_x"), 2);
    assert_eq!(report.approximation_count("boundary_min_x"), 0);
    assert_eq!(VerifyReport::base_function_name("f[branch 12]"), "f");
    assert_eq!(VerifyReport::base_function_name("f"), "f");
}

#[test]
fn failed_or_empty_reports_are_rejected() {
    let mut report = sample();
    report.functions[0].all_passed = false;
    assert!(!report.all_functions_passed());
    assert_eq!(report.failing_function_names(), vec!["boundary_min_x"]);
    assert!(!report.is_verified("boundary_min_x"));

    let empty = VerifyReport {
        file: "empty.telos".to_string(),
        passed: true,
        functions: Vec::new(),
    };
    assert!(!empty.all_functions_passed());
}

#[test]
fn approximation_flag_is_counted_and_surfaced() {
    let mut report = sample();
    report.functions[0].checks[0].is_approximation = true;
    assert_eq!(report.approximation_checks(), 1);
    assert_eq!(report.approximation_count("boundary_min_x"), 1);
    assert!(report.functions[0].checks[0]
        .summary()
        .contains("approximation-discharged"));
}

#[test]
fn base_name_trims_white_space_before_the_branch_suffix() {
    assert_eq!(VerifyReport::base_function_name("f  [branch 1]"), "f");
    assert_eq!(VerifyReport::base_function_name("g\t[x][y]"), "g");
    assert_eq!(VerifyReport::base_function_name("[branch 0]"), "");
    assert_eq!(VerifyReport::base_function_name("no_suffix "), "no_suffix ");
}

#[test]
fn verified_names_are_sorted_and_deduplicated_across_branches() {
    let mut report = sample();
    report.functions.push(VerifyFunction {
        func_name: "slab_hit_decided[branch 1]".to_string(),
        all_passed: true,
        checks: vec![check("ensures: out.flag == 1", true, true, None, None, 99, 17)],
    });
    report.functions.push(VerifyFunction {
        func_name: "alpha".to_string(),
        all_passed: true,
        checks: Vec::new(),
    });
    report.functions.push(VerifyFunction {
        func_name: "zeta".to_string(),
        all_passed: false,
        checks: Vec::new(),
    });
    assert_eq!(
        report.verified_function_names(),
        vec!["alpha", "boundary_min_x", "domain_overlap_detected", "slab_hit_decided"]
    );
    assert_eq!(report.source_span("slab_hit_decided"), Some((98, 99)));
    assert_eq!(report.check_count("slab_hit_decided"), 2);
    assert_eq!(report.ensures_texts("slab_hit_decided"), vec!["ensures: out.flag == 1".to_string()]);
    assert_eq!(report.failing_function_names(), vec!["zeta"]);
    assert!(!report.all_functions_passed());
    assert!(!report.is_verified("zeta"));
    assert!(report.is_verified("alpha"));
}

#[test]
fn summary_marks_both_approximation_and_failure() {
    let mut c = check("ensures: x", false, true, None, None, 1, 1);
    c.is_approximation = true;
    assert_eq!(c.summary(), "ensures: x (approximation-discharged) (FAILED)");
    let plain = check("ensures: y", true, true, None, None, 1, 1);
    assert_eq!(plain.summary(), "ensures: y");
}
