use tpt_certus::telos_manifest::{FunctionTable, TelosFuncProof, TelosProofManifest};

fn record(verified: bool, checked: usize, passed: usize) -> TelosFuncProof {
    TelosFuncProof {
        verified,
        conclusions_checked: checked,
        conclusions_passed: passed,
        used_interval_bounding: false,
    }
}

fn sample_manifest() -> TelosProofManifest {
    let mut functions = FunctionTable::new();
    functions.insert("boundary_min_x".to_string(), record(true, 4, 4));
    functions.insert("slab_hit_decided".to_string(), record(true, 3, 3));
    TelosProofManifest {
        schema_version: "1".to_string(),
        source_hash: "sha256:0123abcdef0123abcdef0123abcdef0123abcdef0123abcdef0123abcdef0123"
            .to_string(),
        verified_at: "2026-09-17T12:00:00Z".to_string(),
        functions,
        manifest_hash: "sha256:ffff0000ffff0000ffff0000ffff0000ffff0000ffff0000ffff0000ffff0000"
            .to_string(),
    }
}

#[test]
fn parses_native_manifest() {
    let m = sample_manifest();
    assert_eq!(m.schema_version, "1");
    assert_eq!(m.functions.len(), 2);
    assert!(m.functions.get("boundary_min_x").expect("present").verified);
    assert_eq!(
        m.functions.get("slab_hit_decided").expect("present").conclusions_checked,
        3
    );
}

#[test]
fn verified_names_are_sorted_and_filtered() {
    let m = sample_manifest();
    assert_eq!(
        m.verified_function_names(),
        vec!["boundary_min_x", "slab_hit_decided"]
    );
}

#[test]
fn unverified_function_breaks_all_verified() {
    let mut m = sample_manifest();
    m.functions.insert("broken".to_string(), record(false, 1, 0));
    assert!(!m.all_functions_verified());
    assert_eq!(
        m.verified_function_names(),
        vec!["boundary_min_x", "slab_hit_decided"]
    );
}

#[test]
fn empty_manifest_is_not_all_verified() {
    let m = TelosProofManifest {
        schema_version: "1".to_string(),
        source_hash: "sha256:0123abcdef0123abcdef0123abcdef0123abcdef0123abcdef0123abcdef0123"
            .to_string(),
        verified_at: "2026-09-17T12:00:00Z".to_string(),
        functions: FunctionTable::new(),
        manifest_hash: "sha256:ffff".to_string(),
    };
    assert!(!m.all_functions_verified());
    assert_eq!(m.verified_function_names(), Vec::<&str>::new());
}

#[test]
fn totals_accumulate_across_functions() {
    let m = sample_manifest();
    assert_eq!(m.total_conclusions_checked(), 4 + 3);
}

#[test]
fn insert_keeps_names_ascending_and_replaces_existing_records() {
    let mut t = FunctionTable::new();
    assert!(t.is_empty());
    assert_eq!(t.insert("zeta".to_string(), record(true, 1, 1)), None);
    assert_eq!(t.insert("alpha".to_string(), record(false, 2, 0)), None);
    assert_eq!(t.insert("mid".to_string(), record(true, 3, 3)), None);
    assert_eq!(t.len(), 3);
    assert_eq!(t.row(0).0, "alpha");
    assert_eq!(t.row(1).0, "mid");
    assert_eq!(t.row(2).0, "zeta");
    // A second insert under the same name replaces the record.
    assert_eq!(t.insert("alpha".to_string(), record(true, 5, 5)), Some(record(false, 2, 0)));
    assert_eq!(t.len(), 3);
    assert_eq!(t.get("alpha"), Some(record(true, 5, 5)));
    assert_eq!(t.get("beta"), None);
    let copy = t.clone();
    assert_eq!(copy, t);
}
