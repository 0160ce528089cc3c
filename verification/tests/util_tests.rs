use sce_core::util::{is_audio_file, now_rfc3339, sha256_bytes};

#[test]
fn now_is_utc_millis_rfc3339() {
    let now = now_rfc3339();
    assert!(now.ends_with('Z'));
    let parsed = chrono::DateTime::parse_from_rfc3339(&now).expect("valid RFC3339");
    assert_eq!(parsed.offset().local_minus_utc(), 0);
}

#[test]
fn sha256_is_lowercase_hex_of_the_bytes() {
    assert_eq!(sha256_bytes(b"abc"), "ba7816bf8f01cfea414140de5dae2223b00361a396177a9cb410ff61f20015ad");
    assert_eq!(sha256_bytes(b""), "e3b0c44298fc1c149afbf4c8996fb92427ae41e4649b934ca495991b7852b855");
}

#[test]
fn audio_files_are_recognized_by_extension_in_any_case() {
    assert!(is_audio_file("/x/mix.WAV"));
    assert!(is_audio_file("a.flac"));
    assert!(is_audio_file("a.m4a"));
    assert!(!is_audio_file("a.txt"));
    assert!(!is_audio_file("wav"));
    assert!(!is_audio_file(".wav"));
}
