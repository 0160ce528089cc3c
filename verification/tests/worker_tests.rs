use sce_core::worker::{failure_message, stored_failure_message, RunFailure};

#[test]
fn failure_messages_name_the_cause() {
    let m = failure_message(&RunFailure::Decode {
        reason: "bad header".to_string(),
        file_path: "/p/SCE/assets/a/original.MP3".to_string(),
    });
    assert_eq!(m, "decode failed: bad header (file=/p/SCE/assets/a/original.MP3, format=mp3)");
    let m = failure_message(&RunFailure::Decode { reason: "x".to_string(), file_path: "/p/noext".to_string() });
    assert_eq!(m, "decode failed: x (file=/p/noext, format=bin)");
    let m = failure_message(&RunFailure::InternalCopyMissing {
        file_path: "/p/a.wav".to_string(),
        source_path: "/src/a.wav".to_string(),
        detail: "No such file".to_string(),
    });
    assert_eq!(m, "internal copy missing: /p/a.wav (source=/src/a.wav) (No such file)");
    let m = failure_message(&RunFailure::ConstitutionResolution { version: "v9".to_string(), detail: "gone".to_string() });
    assert_eq!(m, "constitution resolution failed for version v9: gone");
    assert_eq!(failure_message(&RunFailure::Analysis { reason: "r".to_string() }), "analysis failed: r");
    assert_eq!(failure_message(&RunFailure::ReportWrite { detail: "d".to_string() }), "report write failed: d");
}

#[test]
fn blank_failure_messages_are_stored_as_unknown() {
    assert_eq!(stored_failure_message("  "), "unknown failure");
    assert_eq!(stored_failure_message("boom"), "boom");
}
