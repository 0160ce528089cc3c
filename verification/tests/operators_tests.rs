use sce_core::operators::{dispatch, list, OperatorCall, OperatorError, OperatorRunRequest};

#[test]
fn list_schema_and_order_are_locked() {
    let output = list();
    assert_eq!(output.schema_version, "1.0");
    let names = output.operators.iter().map(|entry| entry.name.as_str()).collect::<Vec<_>>();
    assert_eq!(names, vec!["ref_canon", "mixops_ci", "translation_matrix", "stemgraph", "plugin_chain_compiler"]);
}

#[test]
fn list_reports_templates_and_arguments() {
    let output = list();
    let e = &output.operators[2];
    assert_eq!(e.output_path, "SCE/operators/translation_matrix/<run_id>.json");
    assert!(e.requires_run_id);
    assert!(!e.supports_last_n);
    let ci = &output.operators[1];
    assert_eq!(ci.output_path, "SCE/operators/mixops_ci/latest.json");
    assert!(ci.supports_last_n);
    assert!(!ci.requires_run_id);
    assert!(output.operators[4].requires_run_id);
}

#[test]
fn run_arg_semantics_are_locked() {
    let no_run = OperatorRunRequest { project_root: "/tmp/project", run_id: None, last_n: 25 };
    let err = dispatch(no_run, "translation_matrix").expect_err("missing run id");
    assert!(err.message().contains("requires --run-id"));
    let err = dispatch(no_run, "plugin_chain_compiler").expect_err("missing run id");
    assert_eq!(err.message(), "plugin_chain_compiler requires --run-id");
    match dispatch(OperatorRunRequest { project_root: "/tmp/project", run_id: Some("ignored"), last_n: 1 }, "stemgraph") {
        Ok(OperatorCall::Stemgraph) => {}
        other => panic!("expected stemgraph, got {:?}", other),
    }
    match dispatch(OperatorRunRequest { project_root: "/p", run_id: Some("run-1"), last_n: 7 }, "mixops_ci") {
        Ok(OperatorCall::MixopsCi { run_id, last_n }) => {
            assert_eq!(run_id.as_deref(), Some("run-1"));
            assert_eq!(last_n, 7);
        }
        other => panic!("expected mixops_ci, got {:?}", other),
    }
    match dispatch(no_run, "bogus") {
        Err(OperatorError::Unknown { name }) => assert_eq!(name, "bogus"),
        other => panic!("expected unknown operator, got {:?}", other),
    }
    assert_eq!(dispatch(no_run, "bogus").expect_err("unknown").message(), "unknown operator: bogus");
}
