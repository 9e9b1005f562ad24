use tpt_certus::float_bits::f64_bits_eq;
use tpt_certus::realization::{Decision, EnvelopeBits, QuantityBound, RealizationSummary, ENGINE_ID};
use tpt_certus::telos_manifest::{FunctionTable, TelosFuncProof, TelosProofManifest};
use tpt_certus::verify_report::{VerifyCheck, VerifyFunction, VerifyLocation, VerifyReport};
use tpt_certus::{
    base_name, AssemblyError, CertificateEntry, Do178cTableA5Row, ProofCertificate,
    RegulatoryObjective, SourceLocation, MANIFEST_VERSION,
};

fn bits(x: f64) -> u64 {
    x.to_bits()
}

/// A derived realization summary, as the engine produces for the ray-AABB
/// slab test.
fn derived_summary() -> RealizationSummary {
    RealizationSummary {
        derived_by: ENGINE_ID.into(),
        quantities: vec![
            QuantityBound {
                name: "t_near".into(),
                interval: EnvelopeBits { lo: bits(-1.0e-15), hi: bits(1.0e-15) },
                epsilon: bits(2.0e-15),
            },
            QuantityBound {
                name: "t_far".into(),
                interval: EnvelopeBits { lo: bits(1.0), hi: bits(1.0 + 2.0e-15) },
                epsilon: bits(2.0e-15),
            },
        ],
        epsilon: bits(2.0e-15),
        decision: Some(Decision::Indeterminate),
    }
}

/// The decimal rendering of each quantity's bound.
fn rendered(summary: &RealizationSummary) -> Vec<String> {
    summary
        .quantities
        .iter()
        .map(|q| format!("{}", f64::from_bits(q.epsilon)))
        .collect()
}

fn sample_entry() -> CertificateEntry {
    let summary = derived_summary();
    let bounds = rendered(&summary);
    CertificateEntry {
        function: "tpt_certus_spatial::ray_aabb::ray_intersects_aabb".into(),
        source_location: SourceLocation::new(
            "crates/tpt-certus-spatial/telos/ray_aabb.telos".into(),
            30,
            42,
        )
        .expect("valid span"),
        ideal_contract: "t_near >= 0.0 && t_near <= t_far && t_near <= t_max".into(),
        realization_contract: String::new(),
        epsilon: None,
        composition_lemmas: Vec::new(),
        regulatory_objective: RegulatoryObjective::Do178cRequirementsVerification,
        objective_rows: Vec::new(),
        native_support: Vec::new(),
        native_checks: 0,
        native_approximations: 0,
        realization: None,
    }
    .with_realization(summary, &bounds)
    .with_native_support(
        vec![
            "boundary_min_x".into(),
            "domain_overlap_detected".into(),
            "slab_hit_decided".into(),
            "tighten_t_min".into(),
        ],
        11,
        0,
    )
    .with_objective_rows(vec![
        Do178cTableA5Row::SourceCodeAccurateAndConsistent,
        Do178cTableA5Row::Do333FormalMethodsSupplement,
    ])
}

fn record(verified: bool, checked: usize, passed: usize) -> TelosFuncProof {
    TelosFuncProof {
        verified,
        conclusions_checked: checked,
        conclusions_passed: passed,
        used_interval_bounding: false,
    }
}

fn manifest(rows: &[(&str, TelosFuncProof)], hash: &str) -> TelosProofManifest {
    let mut functions = FunctionTable::new();
    for (name, p) in rows {
        functions.insert(name.to_string(), *p);
    }
    TelosProofManifest {
        schema_version: "1".into(),
        source_hash: "sha256:0000111122223333444455556666777788889999aaaabbbbccccddddeeeeffff"
            .into(),
        verified_at: "2026-09-17T12:00:00Z".into(),
        functions,
        manifest_hash: hash.into(),
    }
}

fn ensures_check(line: u32) -> VerifyCheck {
    VerifyCheck {
        description: "ensures: out.flag == 1".into(),
        passed: true,
        is_ensures: true,
        is_approximation: false,
        counterexample: None,
        or_group: None,
        location: Some(VerifyLocation { line, column: 17 }),
    }
}

/// A compact report with two verified functions, one reported per branch.
fn report_fixture() -> VerifyReport {
    VerifyReport {
        file: "crates/tpt-certus-spatial/telos/ray_aabb.telos".into(),
        passed: true,
        functions: vec![
            VerifyFunction {
                func_name: "boundary_min_x".into(),
                all_passed: true,
                checks: vec![ensures_check(81)],
            },
            VerifyFunction {
                func_name: "slab_hit_decided[branch 1]".into(),
                all_passed: true,
                checks: vec![ensures_check(98)],
            },
        ],
    }
}

#[test]
fn empty_certificate_not_complete() {
    let cert = ProofCertificate::new("abc123".into(), "2026-08-20T00:00:00Z".into(), "=0.2.0".into());
    assert_eq!(cert.entry_count(), 0);
    assert!(!cert.is_complete());
}

#[test]
fn certificate_with_entry_is_complete() {
    let mut cert =
        ProofCertificate::new("abc123".into(), "2026-08-20T00:00:00Z".into(), "=0.2.0".into());
    cert.entries.push(sample_entry());
    assert_eq!(cert.entry_count(), 1);
    assert!(cert.is_complete());
}

#[test]
fn inverted_source_span_rejected_and_breaks_completeness() {
    assert!(SourceLocation::new("f.telos".into(), 5, 3).is_none());
    assert!(SourceLocation::new("f.telos".into(), 0, 3).is_none());

    let mut cert =
        ProofCertificate::new("abc123".into(), "2026-08-20T00:00:00Z".into(), "=0.2.0".into());
    let mut entry = sample_entry();
    entry.source_location = SourceLocation {
        file: "crates/tpt-certus-spatial/telos/ray_aabb.telos".into(),
        line_start: 42,
        line_end: 30,
    };
    cert.entries.push(entry);
    assert!(!cert.is_complete(), "inverted span must not be complete evidence");
}

#[test]
fn complete_certificate_covered_by_native_manifest() {
    let native = manifest(
        &[
            ("boundary_min_x", record(true, 4, 4)),
            ("slab_hit_decided", record(true, 3, 3)),
            ("tighten_t_min", record(true, 2, 2)),
            ("domain_overlap_detected", record(true, 2, 2)),
        ],
        "sha256:abcdefabcdefabcdefabcdefabcdefabcdefabcdefabcdefabcdefabcdef0000",
    );

    let mut cert =
        ProofCertificate::new("abc123".into(), "2026-08-20T00:00:00Z".into(), "=0.2.0".into());
    for name in ["boundary_min_x", "slab_hit_decided", "tighten_t_min", "domain_overlap_detected"] {
        let mut entry = sample_entry();
        entry.function = format!("tpt_certus_spatial::telos::ray_aabb::{name}");
        cert.entries.push(entry);
    }

    assert!(cert.is_complete());
    assert!(
        cert.is_supported_by(&native),
        "every entry must map to a natively-verified function"
    );
}

#[test]
fn uncovered_entry_fails_native_cross_check() {
    let native = manifest(&[("boundary_min_x", record(true, 4, 4))], "sha256:0000");

    let mut cert =
        ProofCertificate::new("abc123".into(), "2026-08-20T00:00:00Z".into(), "=0.2.0".into());
    let mut entry = sample_entry();
    entry.function = "tpt_certus_spatial::telos::ray_aabb::not_proven".into();
    entry.native_support = vec!["not_proven".into()];
    cert.entries.push(entry);

    assert!(
        !cert.is_supported_by(&native),
        "certificate must not claim functions the tool did not verify"
    );

    // And a manifest listing any unverified function is rejected outright.
    let mut native_untrusted = native.clone();
    native_untrusted.functions.insert("broken".into(), record(false, 1, 0));
    cert.entries[0].function = "tpt_certus_spatial::telos::ray_aabb::boundary_min_x".into();
    assert!(cert.is_supported_by(&native));
    assert!(!cert.is_supported_by(&native_untrusted));
}

#[test]
fn epsilon_must_be_the_derived_bound() {
    let entry = sample_entry();
    assert!(entry.epsilon_is_derived());
    assert_eq!(entry.epsilon, Some(bits(2.0e-15)));
    assert!(entry.realization_contract.contains("t_near"));
    assert!(entry.realization_contract.contains("Indeterminate"));
    assert!(entry.realization_contract.contains(ENGINE_ID));

    // A hand-asserted ε does not survive certification.
    let mut hand_asserted = sample_entry();
    hand_asserted.epsilon = Some(bits(1.0e-9));
    assert!(!hand_asserted.epsilon_is_derived());
    let mut cert = ProofCertificate::new("b".into(), "t".into(), "=0.2.0".into());
    cert.entries.push(hand_asserted);
    assert!(!cert.is_complete());
    assert!(!cert.is_certifiable());
    assert!(cert.blocking_problems().iter().any(|p| p.contains("not the derived")));

    // A realization attached without a published ε is equally invalid.
    let mut unpublished = sample_entry();
    unpublished.epsilon = None;
    assert!(!unpublished.epsilon_is_derived());
}

#[test]
fn entries_without_native_evidence_or_with_approximations_block_the_gate() {
    let mut without_evidence = sample_entry();
    without_evidence.native_support = Vec::new();
    without_evidence.native_checks = 0;
    let mut cert = ProofCertificate::new("b".into(), "t".into(), "=0.2.0".into());
    cert.entries.push(without_evidence);
    assert!(!cert.is_certifiable());
    assert!(cert.blocking_problems().iter().any(|p| p.contains("no native tpt-telos")));

    let mut approximating = sample_entry();
    approximating.native_approximations = 1;
    let mut cert = ProofCertificate::new("b".into(), "t".into(), "=0.2.0".into());
    cert.entries.push(approximating);
    assert!(cert.blocking_problems().iter().any(|p| p.contains("approximation")));
    assert!(
        ProofCertificate::new("b".into(), "t".into(), "=0.2.0".into())
            .allowing_approximations()
            .allow_approximations
    );
}

#[test]
fn objective_rows_name_the_table_and_the_requirement() {
    assert_eq!(
        Do178cTableA5Row::SourceCodeAccurateAndConsistent.table_id(),
        "DO-178C Table A-5"
    );
    assert!(Do178cTableA5Row::SourceCodeAccurateAndConsistent
        .objective()
        .contains("accurate and consistent"));
    assert!(Do178cTableA5Row::Do333FormalMethodsSupplement.table_id().contains("DO-333"));
    assert_eq!(Do178cTableA5Row::default_for_verified_contract().len(), 2);
}

#[test]
fn certificate_is_assembled_from_a_verify_report() {
    let report = report_fixture();
    let cert = ProofCertificate::assemble_from_report(
        &report,
        "abc123".into(),
        "2026-09-20T00:00:00Z".into(),
        "=0.2.0".into(),
        vec![sample_entry()],
        false,
    )
    .expect("assembles");

    assert_eq!(cert.entry_count(), 3, "two native entries plus the artifact");
    assert!(cert.is_complete());
    assert!(cert.is_certifiable());
    assert!(cert.blocking_problems().is_empty());
    assert!(cert.is_supported_by_report(&report));

    let native_entry = &cert.entries[0];
    assert_eq!(native_entry.function, "boundary_min_x");
    assert_eq!(native_entry.source_location.line_start, 81);
    assert_eq!(native_entry.source_location.line_end, 81);
    assert_eq!(native_entry.native_checks, 1);
    assert_eq!(native_entry.ideal_contract, "ensures: out.flag == 1");
    assert_eq!(native_entry.objective_rows.len(), 2);
    assert!(native_entry.epsilon.is_none());

    // The rows the JSON manifest names by their audit identifiers.
    assert!(native_entry
        .objective_rows
        .contains(&Do178cTableA5Row::SourceCodeAccurateAndConsistent));
    assert!(cert.entries[2]
        .objective_rows
        .contains(&Do178cTableA5Row::Do333FormalMethodsSupplement));
}

#[test]
fn assembly_fails_hard_on_unproven_unsupported_or_approximated_input() {
    let report = report_fixture();

    let mut unsupported = sample_entry();
    unsupported.native_support = vec!["not_proven".into()];
    assert_eq!(
        ProofCertificate::assemble_from_report(
            &report,
            "b".into(),
            "t".into(),
            "v".into(),
            vec![unsupported],
            false
        ),
        Err(AssemblyError::UnsupportedEntry(
            "tpt_certus_spatial::ray_aabb::ray_intersects_aabb".into()
        ))
    );

    let mut failing = report_fixture();
    failing.functions[0].all_passed = false;
    assert_eq!(
        ProofCertificate::assemble_from_report(
            &failing,
            "b".into(),
            "t".into(),
            "v".into(),
            Vec::new(),
            false
        ),
        Err(AssemblyError::UnverifiedFunction("boundary_min_x".into()))
    );

    let empty = VerifyReport { file: "f.telos".into(), passed: true, functions: Vec::new() };
    assert_eq!(
        ProofCertificate::assemble_from_report(
            &empty,
            "b".into(),
            "t".into(),
            "v".into(),
            Vec::new(),
            false
        ),
        Err(AssemblyError::NoVerifiedFunctions)
    );
    assert!(AssemblyError::NoVerifiedFunctions.message().contains("no functions"));

    let mut approximated = report_fixture();
    approximated.functions[0].checks[0].is_approximation = true;
    assert!(matches!(
        ProofCertificate::assemble_from_report(
            &approximated,
            "b".into(),
            "t".into(),
            "v".into(),
            Vec::new(),
            false
        ),
        Err(AssemblyError::NotCertifiable(_))
    ));
    assert!(ProofCertificate::assemble_from_report(
        &approximated,
        "b".into(),
        "t".into(),
        "v".into(),
        Vec::new(),
        true
    )
    .is_ok());
}

#[test]
fn missing_span_is_reported_for_the_first_name_in_order() {
    let mut report = report_fixture();
    report.functions[1].checks[0].location = None;
    report.functions.push(VerifyFunction {
        func_name: "zz_last".into(),
        all_passed: true,
        checks: Vec::new(),
    });
    assert_eq!(
        ProofCertificate::assemble_from_report(&report, "b".into(), "t".into(), "v".into(), Vec::new(), false),
        Err(AssemblyError::MissingSourceSpan("slab_hit_decided".into()))
    );
    let mut zero_line = report_fixture();
    zero_line.functions[0].checks[0].location = Some(VerifyLocation { line: 0, column: 1 });
    assert_eq!(
        ProofCertificate::assemble_from_report(&zero_line, "b".into(), "t".into(), "v".into(), Vec::new(), false),
        Err(AssemblyError::MissingSourceSpan("boundary_min_x".into()))
    );
}

#[test]
fn not_certifiable_carries_the_first_blocking_problem() {
    let mut report = report_fixture();
    report.functions[0].checks[0].is_approximation = true;
    let err = ProofCertificate::assemble_from_report(&report, "b".into(), "t".into(), "v".into(), Vec::new(), false)
        .unwrap_err();
    assert_eq!(
        err,
        AssemblyError::NotCertifiable(
            "boundary_min_x: 1 conclusion(s) discharged by approximation, which cannot be certified as exact"
                .into()
        )
    );
    assert_eq!(
        err.message(),
        "certificate not certifiable: boundary_min_x: 1 conclusion(s) discharged by approximation, which cannot be certified as exact"
    );
}

#[test]
fn blocking_problems_list_every_reason_in_order() {
    let mut entry = sample_entry();
    entry.function = "f".into();
    entry.source_location.line_start = 42;
    entry.source_location.line_end = 30;
    entry.native_support = Vec::new();
    entry.native_checks = 0;
    entry.epsilon = Some(bits(1.0));
    entry.native_approximations = 3;
    let mut cert = ProofCertificate::new("b".into(), "t".into(), "v".into());
    assert_eq!(cert.blocking_problems(), vec!["certificate has no entries".to_string()]);
    cert.entries.push(entry);
    assert_eq!(
        cert.blocking_problems(),
        vec![
            "f: source span 42..30 is not a usable reference".to_string(),
            "f: no native tpt-telos verification record".to_string(),
            "f: published epsilon is not the derived realization bound".to_string(),
            "f: 3 conclusion(s) discharged by approximation, which cannot be certified as exact"
                .to_string(),
        ]
    );
    let allowing = cert.allowing_approximations();
    assert_eq!(allowing.blocking_problems().len(), 3);
}

#[test]
fn assembly_error_messages() {
    assert_eq!(
        AssemblyError::UnverifiedFunction("g".into()).message(),
        "proof obligation not discharged for g"
    );
    assert_eq!(
        AssemblyError::MissingSourceSpan("g".into()).message(),
        "no usable source span reported for g"
    );
    assert_eq!(
        AssemblyError::UnsupportedEntry("g".into()).message(),
        "g is not supported by the native verification report"
    );
    assert_eq!(
        AssemblyError::NoVerifiedFunctions.message(),
        "verification report contains no functions"
    );
}

#[test]
fn realization_contract_text_is_built_from_the_summary() {
    let summary = derived_summary();
    let bounds = vec!["2e-15".to_string(), "3e-15".to_string()];
    let entry = sample_entry().with_realization(summary, &bounds);
    assert_eq!(
        entry.realization_contract,
        format!(
            "|f64 t_near − ideal t_near| ≤ 2e-15, |f64 t_far − ideal t_far| ≤ 3e-15; hit/miss decision: Indeterminate (derived by {ENGINE_ID})"
        )
    );
    let mut no_decision = derived_summary();
    no_decision.decision = None;
    no_decision.quantities.truncate(1);
    let entry = sample_entry().with_realization(no_decision, &vec!["1".to_string()]);
    assert_eq!(
        entry.realization_contract,
        format!("|f64 t_near − ideal t_near| ≤ 1 (derived by {ENGINE_ID})")
    );
}

#[test]
fn base_name_takes_the_last_path_segment() {
    assert_eq!(base_name("a::b::c"), "c");
    assert_eq!(base_name("plain"), "plain");
    assert_eq!(base_name("a:::b"), "b");
    assert_eq!(base_name("trailing::"), "");
    assert_eq!(base_name(""), "");
    assert_eq!(base_name("a:b"), "a:b");
}

#[test]
fn float_equality_on_bit_patterns() {
    assert!(f64_bits_eq(bits(0.0), bits(-0.0)));
    assert!(f64_bits_eq(bits(2.5), bits(2.5)));
    assert!(!f64_bits_eq(bits(2.5), bits(2.0)));
    assert!(!f64_bits_eq(bits(f64::NAN), bits(f64::NAN)));
    assert!(f64_bits_eq(bits(f64::INFINITY), bits(f64::INFINITY)));
}

#[test]
fn support_by_report_directly_or_through_native_supporters() {
    let report = report_fixture();
    let mut cert = ProofCertificate::new("b".into(), "t".into(), "v".into());
    cert.entries.push(sample_entry());
    // boundary_min_x and slab_hit_decided are verified: one supporter suffices.
    assert!(cert.is_supported_by_report(&report));
    cert.entries[0].native_support = vec!["not_proven".into(), "tighten_t_min".into()];
    assert!(!cert.is_supported_by_report(&report));
    cert.entries[0].native_support = vec!["m::boundary_min_x".into(), "other".into()];
    assert!(cert.is_supported_by_report(&report));
    cert.entries[0].native_support = Vec::new();
    cert.entries[0].function = "x::slab_hit_decided".into();
    assert!(cert.is_supported_by_report(&report));
    assert_eq!(MANIFEST_VERSION, 1);
}
