use sce_core::ingest::{asset_format, original_copy_path};
use sce_core::api::{asset_kind, check_asset_format, check_project_id, project_name, ApiError, CreateProjectReq, RegisterAssetReq};

fn message(e: ApiError) -> String {
    match e {
        ApiError::BadRequest(m) => m,
    }
}

#[test]
fn project_names_are_trimmed_and_required() {
    let req = CreateProjectReq { name: "  Album ".to_string(), root_path: "/tmp/p".to_string() };
    assert_eq!(project_name(&req).expect("ok"), "Album");
    let blank = CreateProjectReq { name: "   ".to_string(), root_path: "/tmp/p".to_string() };
    assert_eq!(message(project_name(&blank).expect_err("blank")), "project name cannot be empty");
}

#[test]
fn project_ids_must_be_canonical_uuids() {
    assert!(check_project_id("67e55044-10b1-426f-9247-bb680e5fe0c8").is_ok());
    assert_eq!(
        message(check_project_id("67E55044-10B1-426F-9247-BB680E5FE0C8").expect_err("upper")),
        "project_id must be lowercase hyphenated UUID"
    );
    assert_eq!(
        message(check_project_id("67e5504410b1426f9247bb680e5fe0c8").expect_err("simple")),
        "project_id must be lowercase hyphenated UUID"
    );
    assert_eq!(message(check_project_id("nope").expect_err("bad")), "project_id must be a canonical UUID string");
}

#[test]
fn asset_formats_are_checked_by_extension() {
    assert!(check_asset_format("/a/mix.wav").is_ok());
    assert!(check_asset_format("/a/mix.FLAC").is_ok());
    assert_eq!(
        message(check_asset_format("/a/mix.M4A").expect_err("m4a")),
        "unsupported format: m4a (supported: wav, aiff, aif, flac, mp3)"
    );
    assert_eq!(
        message(check_asset_format("/a/notes.txt").expect_err("txt")),
        "unsupported format: txt (supported: wav, aiff, aif, flac, mp3)"
    );
    assert_eq!(
        message(check_asset_format("/a/noext").expect_err("none")),
        "unsupported format: unknown (supported: wav, aiff, aif, flac, mp3)"
    );
    let req = RegisterAssetReq { file_path: "/a".to_string(), kind: None };
    assert_eq!(asset_kind(&req), "mix");
    let req = RegisterAssetReq { file_path: "/a".to_string(), kind: Some("stem".to_string()) };
    assert_eq!(asset_kind(&req), "stem");
}

#[test]
fn assets_are_kept_under_their_id_with_their_format() {
    assert_eq!(asset_format("/a/Mix.WAV"), "wav");
    assert_eq!(asset_format("/a/noext"), "bin");
    assert_eq!(original_copy_path("/p", "id-1", "wav"), "/p/SCE/assets/id-1/original.wav");
}

#[test]
fn asset_paths_must_lie_inside_the_root() {
    use_within();
}

fn use_within() {
    assert!(sce_core::api::is_within_root("/p", "/p"));
    assert!(sce_core::api::is_within_root("/p", "/p/a.wav"));
    assert!(!sce_core::api::is_within_root("/p", "/pq/a.wav"));
    assert!(!sce_core::api::is_within_root("/p/x", "/p"));
    assert!(sce_core::api::is_within_root("/", "/anything"));
}
