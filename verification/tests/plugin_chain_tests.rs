use sce_core::plugin_chain::{
    build_chain_metadata, candidate_paths, select_first, sidecar_verdict, write_operator_output,
    write_worker_chain_meta, SidecarState,
};

#[test]
fn candidates_prefer_source_chain_over_stem_chain() {
    let c = candidate_paths("/tmp/audio/mix.wav");
    assert_eq!(c, vec!["/tmp/audio/mix.wav.chain.json".to_string(), "/tmp/audio/mix.chain.json".to_string()]);
    let selected = select_first(&c, &vec![true, true]);
    assert_eq!(selected.as_deref(), Some("/tmp/audio/mix.wav.chain.json"));
    let selected = select_first(&c, &vec![false, true]);
    assert_eq!(selected.as_deref(), Some("/tmp/audio/mix.chain.json"));
    assert!(select_first(&c, &vec![false, false]).is_none());
}

#[test]
fn precedence_prefers_source_chain_over_stem_chain() {
    let source = "/tmp/audio/mix.wav";
    let selected = Some(format!("{source}.chain.json"));
    let m = build_chain_metadata("run-1", source, selected.clone(), Some("not-json"));
    assert_eq!(m.sidecar_status, "invalid");
    assert_eq!(m.selected_sidecar_path, selected);
    assert_eq!(m.advisory.expect("advisory").code, "invalid_sidecar");
}

#[test]
fn unreadable_sidecar_is_advisory_only() {
    let (m, path) = write_worker_chain_meta("/tmp/run", "run-1", "/tmp/audio/mix.wav", &vec![true, true], None);
    assert_eq!(m.selected_sidecar_path.as_deref(), Some("/tmp/audio/mix.wav.chain.json"));
    assert_eq!(m.sidecar_status, "unreadable");
    assert_eq!(m.advisory.as_ref().expect("advisory").code, "unreadable_sidecar");
    assert_eq!(path, "/tmp/run/chain.meta.json");
    assert_eq!(m.compiler_status, "todo");
    assert!(m.not_implemented);
}

#[test]
fn operator_output_reuses_written_chain_meta() {
    let m = build_chain_metadata("run-1", "/tmp/audio/mix.wav", Some("/tmp/audio/mix.wav.chain.json".to_string()), Some("{\"valid\":true}"));
    assert_eq!(m.sidecar_status, "selected");
    assert!(m.advisory.is_none());
    let (out, path) = write_operator_output("/tmp/project", "run-1", &m);
    assert_eq!(out.sidecar_status, "selected");
    assert_eq!(out.schema_version, "1.0");
    assert_eq!(path, "/tmp/project/SCE/operators/plugin_chain_compiler/run-1.json");
}

#[test]
fn absent_sidecar_has_no_advisory() {
    let m = build_chain_metadata("run-1", "mix", None, None);
    assert_eq!(m.sidecar_status, "absent");
    assert!(m.selected_sidecar_path.is_none());
    assert_eq!(m.sidecar_candidates, vec!["mix.chain.json".to_string(), "mix.chain.json".to_string()]);
    let (status, advisory) = sidecar_verdict(SidecarState::Read { valid_json: true });
    assert_eq!(status, "selected");
    assert!(advisory.is_none());
}

#[test]
fn worker_chain_meta_selects_first_existing_candidate() {
    let (m, _) = write_worker_chain_meta("/tmp/run", "run-1", "/tmp/audio/mix.wav", &vec![false, true], Some("{}"));
    assert_eq!(m.selected_sidecar_path.as_deref(), Some("/tmp/audio/mix.chain.json"));
    assert_eq!(m.sidecar_status, "selected");
    assert!(m.advisory.is_none());
    assert_eq!(m.schema_version, "1.0");
    let (m, _) = write_worker_chain_meta("/tmp/run", "run-1", "/tmp/audio/mix.wav", &vec![false, false], None);
    assert!(m.selected_sidecar_path.is_none());
    assert_eq!(m.sidecar_status, "absent");
    let (m, _) = write_worker_chain_meta("/tmp/run", "run-1", "/tmp/audio/mix.wav", &vec![true, false], Some("not json"));
    assert_eq!(m.sidecar_status, "invalid");
    assert_eq!(m.advisory.expect("advisory").code, "invalid_sidecar");
}
