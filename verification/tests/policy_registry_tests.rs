use sce_core::gates::GateStatus;
use sce_core::policy_registry::{
    activate_registry_version, activate_registry_version_at, canary_budget, choose_constitution_source,
    ensure_registry_version_exists, impact_tallies, init_registry, is_release_version_pattern, legacy_version,
    normalize_version, read_active_pointer, record_stored_constitution, registry_version_path, resolve_pointer_path,
    top_newly_failing_gates, update_newly_failing_gates, upsert_index_version, validate_registry_admission,
    verify_stored_reads, version_warnings, write_atomic_bytes, write_canary_projection, ActivePointer,
    enqueue_pin, ConstitutionHeader, ConstitutionSource, ImpactGateStatus, PolicyCanaryStateRow, RegistryError, RegistryIndex,
    RegistryVersionEntry,
};
use sce_core::counts::NameCount;
use sce_core::gates::{GateResult, GateSeverity};
use sce_core::util::sha256_bytes;

const ROOT: &str = "/tmp/project";

fn empty_index() -> RegistryIndex {
    RegistryIndex { versions: Vec::new(), active_history: Vec::new(), thrash_warnings: Vec::new() }
}

#[test]
fn atomic_writers_append_newline() {
    let plan = write_atomic_bytes("/tmp/x/a.yaml", b"hello", 42).expect("plan");
    assert_eq!(plan.bytes, b"hello\n".to_vec());
    assert_eq!(plan.parent, "/tmp/x");
    assert_eq!(plan.tmp_path, "/tmp/x/a.yaml.tmp.42");
    assert_eq!(plan.path, "/tmp/x/a.yaml");
    let plan = write_atomic_bytes("/tmp/x/b.json", b"{}\n", 7).expect("plan");
    assert_eq!(plan.bytes, b"{}\n".to_vec());
    assert!(matches!(write_atomic_bytes("/", b"x", 1), Err(RegistryError::MissingParent { .. })));
    assert!(matches!(write_atomic_bytes("/tmp/..", b"x", 1), Err(RegistryError::MissingFileName { .. })));
}

#[test]
fn versions_are_trimmed_and_never_empty() {
    assert_eq!(normalize_version("  v1.0 ").expect("ok"), "v1.0");
    assert!(matches!(normalize_version("   "), Err(RegistryError::VersionEmpty)));
    assert_eq!(RegistryError::VersionEmpty.message(), "version must be non-empty");
}

#[test]
fn release_version_pattern() {
    assert!(is_release_version_pattern("v1.0"));
    assert!(is_release_version_pattern("v10.2.33"));
    assert!(!is_release_version_pattern("1.0"));
    assert!(!is_release_version_pattern("v1"));
    assert!(!is_release_version_pattern("v1.0.0.0"));
    assert!(!is_release_version_pattern("v1..0"));
    assert!(!is_release_version_pattern("v1.a"));
    assert!(!is_release_version_pattern("candidate"));
}

#[test]
fn status_warns_about_off_pattern_versions() {
    let mut index = empty_index();
    upsert_index_version(&mut index, "v1.0", "h1", "/p1", None, "t").expect("v1.0");
    upsert_index_version(&mut index, "draft", "h2", "/p2", None, "t").expect("draft");
    let active = Some(ActivePointer { version: "draft".to_string(), hash: "h2".to_string(), path: "/p2".to_string() });
    let warnings = version_warnings(&index, &active);
    assert_eq!(
        warnings,
        vec![
            "version 'draft' does not match expected pattern ^v\\d+\\.\\d+(\\.\\d+)?$".to_string(),
            "active version 'draft' does not match expected pattern ^v\\d+\\.\\d+(\\.\\d+)?$".to_string(),
        ]
    );
}

#[test]
fn upsert_sorts_by_version_and_refuses_hash_conflicts() {
    let mut index = empty_index();
    upsert_index_version(&mut index, "v1.1", "h11", "/p11", Some("note".to_string()), "t1").expect("v1.1");
    upsert_index_version(&mut index, "v1.0", "h10", "/p10", None, "t2").expect("v1.0");
    let names: Vec<&str> = index.versions.iter().map(|e| e.version.as_str()).collect();
    assert_eq!(names, vec!["v1.0", "v1.1"]);
    assert_eq!(index.versions[0].added_at.as_deref(), Some("t2"));

    // same hash: path updated, note and time kept
    upsert_index_version(&mut index, "v1.1", "h11", "/moved", Some("other".to_string()), "t3").expect("same hash");
    assert_eq!(index.versions.len(), 2);
    assert_eq!(index.versions[1].path, "/moved");
    assert_eq!(index.versions[1].note.as_deref(), Some("note"));
    assert_eq!(index.versions[1].added_at.as_deref(), Some("t1"));

    let err = upsert_index_version(&mut index, "v1.1", "other-hash", "/x", None, "t4").expect_err("conflict");
    assert_eq!(err.message(), "version v1.1 already exists with different hash (existing=h11, new=other-hash)");
    assert_eq!(index.versions.len(), 2);
    assert_eq!(index.versions[1].hash, "h11");
}

#[test]
fn activation_records_pointer_index_and_history() {
    let mut index = empty_index();
    let bytes = b"constitution_version: v1.1\n".to_vec();
    let result = activate_registry_version_at(ROOT, " v1.1 ", Some(bytes.clone()), &mut index, "2026-03-06T00:00:00.000Z")
        .expect("activate");
    assert_eq!(result.active.version, "v1.1");
    assert_eq!(result.active.hash, sha256_bytes(&bytes));
    assert_eq!(result.active.path, "/tmp/project/SCE/registry/constitutions/v1.1.yaml");
    assert_eq!(index.versions.len(), 1);
    assert_eq!(index.active_history.len(), 1);
    assert_eq!(index.active_history[0].at.as_deref(), Some("2026-03-06T00:00:00.000Z"));

    let missing = activate_registry_version_at(ROOT, "v9", None, &mut index, "t").expect_err("missing");
    assert_eq!(
        missing.message(),
        "registry constitution version not found: v9 (/tmp/project/SCE/registry/constitutions/v9.yaml)"
    );
    assert_eq!(index.active_history.len(), 1);

    let again = activate_registry_version(ROOT, "v1.1", Some(bytes), &mut index).expect("again");
    assert_eq!(again.active.version, "v1.1");
    assert_eq!(index.versions.len(), 1);
    assert_eq!(index.active_history.len(), 2);
    assert!(index.active_history[1].at.as_deref().expect("time").ends_with('Z'));
}

#[test]
fn init_makes_the_stored_version_active() {
    let mut index = empty_index();
    let written = record_stored_constitution(
        ROOT,
        "v1.0",
        b"c",
        b"c",
        &Some(ConstitutionHeader { constitution_version: "v1.0".to_string(), has_audio_contract: true }),
        Some("imported from constitution.yaml".to_string()),
        &mut index,
        "t",
    )
    .expect("stored");
    assert_eq!(written.hash, sha256_bytes(b"c"));
    let init = init_registry(ROOT, &written, &mut index, "t2");
    assert_eq!(init.active.version, "v1.0");
    assert_eq!(init.source_path, "/tmp/project/SCE/constitution.yaml");
    assert_eq!(index.versions[0].note.as_deref(), Some("imported from constitution.yaml"));
    assert_eq!(index.active_history.len(), 1);
}

#[test]
fn stored_reads_must_agree_and_pass_admission() {
    assert_eq!(verify_stored_reads("/p", b"abc", b"abc").expect("same"), sha256_bytes(b"abc"));
    let err = verify_stored_reads("/p", b"abc", b"abd").expect_err("mismatch");
    let h1 = sha256_bytes(b"abc");
    let h2 = sha256_bytes(b"abd");
    assert_eq!(
        err.message(),
        format!("stored constitution read mismatch path=/p len1=3 len2=3 hash1={} hash2={}", &h1[..8], &h2[..8])
    );
    assert!(matches!(validate_registry_admission(&None), Err(RegistryError::AdmissionUnparsable)));
    let blank = Some(ConstitutionHeader { constitution_version: " ".to_string(), has_audio_contract: true });
    assert!(matches!(validate_registry_admission(&blank), Err(RegistryError::AdmissionVersionEmpty)));
    let no_audio = Some(ConstitutionHeader { constitution_version: "v1".to_string(), has_audio_contract: false });
    assert!(matches!(validate_registry_admission(&no_audio), Err(RegistryError::AdmissionNoAudioContract)));
    let ok = Some(ConstitutionHeader { constitution_version: "v1".to_string(), has_audio_contract: true });
    assert!(validate_registry_admission(&ok).is_ok());
}

#[test]
fn active_pointer_fields_must_be_present() {
    let ok = ActivePointer { version: "v1".to_string(), hash: "h".to_string(), path: "p".to_string() };
    assert_eq!(read_active_pointer(ROOT, Some(ok)).expect("ok").version, "v1");
    let blank_hash = ActivePointer { version: "v1".to_string(), hash: "  ".to_string(), path: "p".to_string() };
    assert_eq!(
        read_active_pointer(ROOT, Some(blank_hash)).expect_err("blank").message(),
        "active pointer hash must be non-empty: /tmp/project/SCE/registry/active.json"
    );
    assert_eq!(
        read_active_pointer(ROOT, None).expect_err("unreadable").message(),
        "read active pointer: /tmp/project/SCE/registry/active.json"
    );
}

#[test]
fn pointer_paths_resolve_against_the_registry() {
    assert_eq!(resolve_pointer_path(ROOT, "/abs/v1.yaml"), "/abs/v1.yaml");
    assert_eq!(resolve_pointer_path(ROOT, "constitutions/v1.yaml"), "/tmp/project/SCE/registry/constitutions/v1.yaml");
}

#[test]
fn version_lookup_and_worker_source() {
    assert_eq!(registry_version_path(ROOT, "v1", true).expect("ok"), "/tmp/project/SCE/registry/constitutions/v1.yaml");
    assert!(matches!(registry_version_path(ROOT, "v1", false), Err(RegistryError::VersionNotFound { .. })));
    assert!(matches!(ensure_registry_version_exists("/nonexistent-root-for-tests", "v1"), Err(RegistryError::VersionNotFound { .. })));
    match choose_constitution_source(ROOT, " v1.1 ", true, false, false) {
        Ok(ConstitutionSource::Pinned { version, path }) => {
            assert_eq!(version, "v1.1");
            assert_eq!(path, "/tmp/project/SCE/registry/constitutions/v1.1.yaml");
        }
        other => panic!("expected pinned, got {:?}", other),
    }
    assert!(matches!(choose_constitution_source(ROOT, "active", false, true, true), Ok(ConstitutionSource::Active)));
    assert!(matches!(choose_constitution_source(ROOT, "active", false, false, false), Ok(ConstitutionSource::Legacy)));
    assert_eq!(
        choose_constitution_source(ROOT, "active", false, false, true).expect_err("missing").message(),
        "active.json missing/unreadable for legacy run resolution: /tmp/project/SCE/registry/active.json"
    );
    assert!(matches!(choose_constitution_source(ROOT, "  ", true, true, true), Err(RegistryError::PinnedVersionEmpty)));
    assert_eq!(legacy_version("  "), "active");
    assert_eq!(legacy_version(" v2 "), " v2 ");
}

#[test]
fn canary_budget_and_projection() {
    assert_eq!(canary_budget(1).expect("ok"), 1);
    assert_eq!(canary_budget(u64::MAX).expect_err("too big").message(), "budget-runs exceeds i64");
    let state = PolicyCanaryStateRow {
        project_id: "p".to_string(),
        candidate_version: "v1.1".to_string(),
        remaining_budget: 3,
        started_at: "s".to_string(),
        updated_at: "u".to_string(),
    };
    let (projection, path) = write_canary_projection(ROOT, &state);
    assert_eq!(projection.remaining_budget, 3);
    assert_eq!(projection.candidate_version, "v1.1");
    assert_eq!(path, "/tmp/project/SCE/registry/canary/v1.1/canary_state.json");
}

fn g(name: &str, pass: bool) -> GateResult {
    GateResult {
        gate_name: name.to_string(),
        severity: GateSeverity::Blocker,
        pass_fail: pass,
        evidence: serde_json::Value::Null,
        rationale: String::new(),
    }
}

#[test]
fn impact_counts_new_failures_and_status_changes() {
    let baseline = vec![ImpactGateStatus::Pass, ImpactGateStatus::Fail, ImpactGateStatus::Warn];
    let candidate = vec![ImpactGateStatus::Fail, ImpactGateStatus::Fail, ImpactGateStatus::Pass];
    let t = impact_tallies(&baseline, &candidate);
    assert_eq!(t.new_fail, vec![true, false, false]);
    assert_eq!(t.new_fail_count, 1);
    assert_eq!(t.new_blockers_count, 1);
    assert_eq!(t.gate_status_delta.pass, 0);
    assert_eq!(t.gate_status_delta.warn, -1);
    assert_eq!(t.gate_status_delta.fail, 1);
    assert_eq!(ImpactGateStatus::from(GateStatus::Warn), ImpactGateStatus::Warn);
}

#[test]
fn newly_failing_gates_follow_the_baseline() {
    let mut counts: Vec<NameCount> = Vec::new();
    // baseline: G1 passed (last entry wins), G2 failed, G3 absent
    let baseline = vec![g("G1", false), g("G1", true), g("G2", false)];
    let candidate = vec![g("G1", false), g("G2", false), g("G3", false), g("G4", true)];
    update_newly_failing_gates(&baseline, &candidate, &mut counts);
    update_newly_failing_gates(&baseline, &vec![g("G3", false)], &mut counts);
    let top = top_newly_failing_gates(counts);
    let pairs: Vec<(String, u64)> = top.iter().map(|c| (c.gate_name.clone(), c.count)).collect();
    assert_eq!(pairs, vec![("G3".to_string(), 2), ("G1".to_string(), 1)]);
}

#[test]
fn index_entries_can_be_built_directly() {
    let e = RegistryVersionEntry {
        version: "v1".to_string(),
        hash: "h".to_string(),
        path: "/p".to_string(),
        added_at: None,
        note: None,
    };
    let mut index = RegistryIndex { versions: vec![e], active_history: Vec::new(), thrash_warnings: Vec::new() };
    upsert_index_version(&mut index, "v1", "h", "/q", Some("n".to_string()), "t").expect("same hash");
    assert_eq!(index.versions[0].note.as_deref(), Some("n"));
    assert!(index.versions[0].added_at.is_none());
}

fn governance_steps() -> (String, RegistryIndex, GateStatus) {
    let mut index = empty_index();
    let bytes = b"constitution_version: v1.0\naudio_contract: {}\n".to_vec();
    let result = activate_registry_version_at(ROOT, "v1.0", Some(bytes), &mut index, "2026-03-06T00:00:00.000Z")
        .expect("activate");
    let gates = vec![
        GateResult {
            gate_name: "G003_TruePeakCeiling".to_string(),
            severity: GateSeverity::Blocker,
            pass_fail: true,
            evidence: serde_json::Value::Null,
            rationale: "ok".to_string(),
        },
        GateResult {
            gate_name: "W001_StereoCorrelation".to_string(),
            severity: GateSeverity::Warn,
            pass_fail: false,
            evidence: serde_json::Value::Null,
            rationale: "outside corridor".to_string(),
        },
    ];
    let status = sce_core::gates::compute_gate_status(&gates);
    (format!("{:?}", result.active), index, status)
}

#[test]
fn governance_outputs_are_deterministic_after_normalization() {
    let (active_a, mut index_a, status_a) = governance_steps();
    let (active_b, mut index_b, status_b) = governance_steps();
    assert_eq!(active_a, active_b);
    assert_eq!(status_a, status_b);
    assert_eq!(status_a, GateStatus::Warn);
    for entry in index_a.versions.iter_mut().chain(index_b.versions.iter_mut()) {
        entry.added_at = Some("normalized".to_string());
    }
    assert_eq!(format!("{:?}", index_a), format!("{:?}", index_b));
}

#[test]
fn enqueue_pins_canary_candidate_or_active_version() {
    let active = ActivePointer { version: "v1.0".to_string(), hash: "h".to_string(), path: "/p".to_string() };
    assert_eq!(enqueue_pin(ROOT, false, None, None, false).expect("legacy"), "active");
    let err = enqueue_pin(ROOT, true, None, None, false).expect_err("no pointer");
    assert!(err.message().contains("active.json missing/unreadable"));
    assert_eq!(enqueue_pin(ROOT, true, Some(active.clone()), None, false).expect("active"), "v1.0");
    assert_eq!(enqueue_pin(ROOT, true, Some(active.clone()), Some("v1.1".to_string()), true).expect("canary"), "v1.1");
    let err = enqueue_pin(ROOT, true, Some(active), Some("v1.1".to_string()), false).expect_err("candidate gone");
    assert!(err.message().contains("canary candidate constitution missing"));
}
