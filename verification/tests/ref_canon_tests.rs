use sce_core::paths::refs_profile_path;
use sce_core::ref_canon::{add_ref, list_refs, loaded_index, remove_ref, show_ref, RefError, RefListOutput};
use sce_core::util::sha256_bytes;

const ROOT: &str = "/tmp/project";

fn add(index: &mut RefListOutput, file: &str, content: &[u8], name: Option<&str>, tags: &str, copy: bool) -> (String, sce_core::ref_canon::RefShowOutput, Option<String>) {
    let hash = sha256_bytes(content);
    let profile = refs_profile_path(ROOT, &hash);
    let (shown, copy_to) = add_ref(index, ROOT, file, &hash, &profile, name, tags, copy).expect("add ref");
    (hash, shown, copy_to)
}

#[test]
fn tag_normalization_is_deterministic() {
    let mut index = loaded_index(None);
    let (_h, added, _c) = add(&mut index, "/tmp/ref.wav", b"ref", Some("Alpha"), "  warm ,bright, warm,, punchy ", false);
    assert_eq!(added.tags, vec!["bright", "punchy", "warm"]);
}

#[test]
fn list_and_show_follow_locked_schema_and_order() {
    let mut index = loaded_index(None);
    let (beta_hash, _beta, _) = add(&mut index, "/tmp/beta.wav", b"beta", Some("Beta"), "", false);
    let (alpha_hash, _alpha, _) = add(&mut index, "/tmp/alpha.wav", b"alpha", Some("Alpha"), "warm", false);

    let listed = list_refs(Some(index.clone()));
    assert_eq!(listed.schema_version, "1.0");
    assert_eq!(listed.refs.len(), 2);
    assert_eq!(listed.refs[0].name, "Alpha");
    assert_eq!(listed.refs[1].name, "Beta");

    let shown = show_ref(&index, &alpha_hash).expect("show alpha");
    assert_eq!(shown.schema_version, "1.0");
    assert_eq!(shown.content_hash, alpha_hash);
    assert_eq!(shown.tags, vec!["warm"]);
    assert!(shown.copied_file_path.is_none());

    let shown_beta = show_ref(&index, &beta_hash).expect("show beta");
    assert_eq!(shown_beta.name, "Beta");
}

#[test]
fn add_is_idempotent_for_same_content_hash() {
    let mut index = loaded_index(None);
    let (_h1, first, _) = add(&mut index, "/tmp/ref.wav", b"ref", Some("Alpha"), "warm", false);
    let (_h2, second, _) = add(&mut index, "/tmp/ref.wav", b"ref", Some("Alpha"), "warm", false);

    assert_eq!(format!("{:?}", first), format!("{:?}", second));
    assert_eq!(list_refs(Some(index)).refs.len(), 1);
}

#[test]
fn remove_deletes_index_entry() {
    let mut index = loaded_index(None);
    let (hash, added, copy_to) = add(&mut index, "/tmp/ref.wav", b"ref", Some("Alpha"), "", true);
    let removed = remove_ref(&mut index, &added.content_hash).expect("remove");

    assert_eq!(removed.content_hash, hash);
    assert!(list_refs(Some(index)).refs.is_empty());
    assert_eq!(removed.profile_path, refs_profile_path(ROOT, &hash));
    let copied = removed.copied_file_path.as_deref().expect("copied file path must be present");
    assert_eq!(Some(copied.to_string()), copy_to);
    assert_eq!(copied, format!("/tmp/project/SCE/refs/files/{hash}.wav"));
}

#[test]
fn missing_references_and_underivable_names_are_errors() {
    let mut index = loaded_index(None);
    assert!(matches!(show_ref(&index, "nope"), Err(RefError::NotFound { .. })));
    assert_eq!(show_ref(&index, "nope").expect_err("missing").message(), "reference not found: nope");
    assert!(matches!(remove_ref(&mut index, "nope"), Err(RefError::NotFound { .. })));
    let hash = sha256_bytes(b"x");
    let r = add_ref(&mut index, ROOT, "/tmp/x.wav", &hash, "/p", Some("   "), "", false);
    let (shown, _) = r.expect("name from file stem");
    assert_eq!(shown.name, "x");
}

fn matching_run(run_id: &str, finished_at: &str, content_hash: &str) -> sce_core::cll::ValidRun {
    let (secs, nanos) = sce_core::cll::finished_instant(finished_at).expect("instant");
    sce_core::cll::ValidRun {
        run_id: run_id.to_string(),
        asset_id: "asset-a".to_string(),
        finished_at: finished_at.to_string(),
        finished_at_secs: secs,
        finished_at_nanos: nanos,
        gate_status: sce_core::gates::GateStatus::Pass,
        gates: Vec::new(),
        drift_score: 10,
        drift_metric_ids: Vec::new(),
        asset_content_hash: content_hash.to_string(),
        analyzer_version: "TelemetryAnalyzer/1.0.0".to_string(),
        metrics_analyzer_version: "TelemetryAnalyzer/1.0.0".to_string(),
        constitution_version: "v1.0".to_string(),
        constitution_hash: "hash-v1.0".to_string(),
        constitution_path: "/tmp/project/SCE/constitution.yaml".to_string(),
    }
}

#[test]
fn add_prefers_latest_matching_run_by_finished_at_then_run_id() {
    let content_hash = sha256_bytes(b"ref");
    let runs = sce_core::cll::sort_valid_runs(vec![
        matching_run("run-b", "2026-03-06T00:00:01.000Z", &content_hash),
        matching_run("run-a", "2026-03-06T00:00:01.000Z", &content_hash),
        matching_run("run-c", "2026-03-06T00:00:00.000Z", "other"),
    ]);
    let i = sce_core::ref_canon::reusable_run(&runs, &content_hash).expect("reusable run");
    assert_eq!(runs[i].run_id, "run-b");
    assert_eq!(runs[i].analyzer_version, "TelemetryAnalyzer/1.0.0");
    assert!(sce_core::ref_canon::reusable_run(&runs, "missing").is_none());
}
