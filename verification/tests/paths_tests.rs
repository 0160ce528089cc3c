use sce_core::paths::{
    graph_lineage_path, mixops_ci_operator_output_path, plugin_chain_operator_output_path,
    ref_canon_operator_output_path, refs_canon_index_path, registry_constitution_path, registry_shadow_impact_path,
    run_chain_meta_path, run_dir, stemgraph_operator_output_path, translation_matrix_operator_output_path,
};

#[test]
fn layout_is_fixed_under_the_project_root() {
    assert_eq!(run_dir("/p", "asset-a", "run-1"), "/p/SCE/assets/asset-a/analysis/run-1");
    assert_eq!(ref_canon_operator_output_path("/p"), "/p/SCE/operators/ref_canon/latest.json");
    assert_eq!(mixops_ci_operator_output_path("/p"), "/p/SCE/operators/mixops_ci/latest.json");
    assert_eq!(stemgraph_operator_output_path("/p"), "/p/SCE/operators/stemgraph/latest.json");
    assert_eq!(translation_matrix_operator_output_path("/p", "r1"), "/p/SCE/operators/translation_matrix/r1.json");
    assert_eq!(plugin_chain_operator_output_path("/p", "r1"), "/p/SCE/operators/plugin_chain_compiler/r1.json");
    assert_eq!(registry_constitution_path("/p", "v1"), "/p/SCE/registry/constitutions/v1.yaml");
    assert_eq!(registry_shadow_impact_path("/p", "v1"), "/p/SCE/registry/shadow/v1/impact.json");
    assert_eq!(refs_canon_index_path("/p"), "/p/SCE/refs/canon/index.json");
    assert_eq!(graph_lineage_path("/p"), "/p/SCE/graph/lineage.json");
    assert_eq!(run_chain_meta_path("/r"), "/r/chain.meta.json");
}

#[test]
fn join_follows_unix_rules() {
    assert_eq!(run_chain_meta_path("a"), "a/chain.meta.json");
    assert_eq!(run_chain_meta_path("a/"), "a/chain.meta.json");
    assert_eq!(run_chain_meta_path(""), "chain.meta.json");
    assert_eq!(refs_canon_index_path("/"), "/SCE/refs/canon/index.json");
}
