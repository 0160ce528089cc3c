pub mod text;
pub mod paths;
pub mod gates;
pub mod ordered;
pub mod graph;
pub mod util;
pub mod analyzer;
pub mod ref_canon;
pub mod counts;
pub mod cll;
pub mod ci_check;
pub mod policy_registry;
pub mod storage;
pub mod operators;
pub mod plugin_chain;
pub mod cli_scan;
pub mod cli;
pub mod translation_matrix;
pub mod translation_sim;
pub mod diversity;
pub mod api;
pub mod models;
pub mod reports;
pub mod scoring;
pub mod constitution_advisor;
pub mod ingest;
pub mod worker;
