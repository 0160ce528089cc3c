use sce_core::storage::{enforce_startup_invariants, parse_sqlite_version, SqliteVersionError, StartupError, VersionPart};

#[test]
fn parses_sqlite_semver_like_string() {
    assert_eq!(parse_sqlite_version("3.43.2").unwrap(), (3, 43, 2));
    assert!(parse_sqlite_version("3.43").is_err());
}

#[test]
fn sqlite_version_errors_name_the_part() {
    assert_eq!(parse_sqlite_version("3.43"), Err(SqliteVersionError::Missing(VersionPart::Patch)));
    assert_eq!(parse_sqlite_version("3"), Err(SqliteVersionError::Missing(VersionPart::Minor)));
    assert_eq!(parse_sqlite_version("x.1.2"), Err(SqliteVersionError::Invalid(VersionPart::Major)));
    assert_eq!(parse_sqlite_version("3.x.2"), Err(SqliteVersionError::Invalid(VersionPart::Minor)));
    assert_eq!(parse_sqlite_version("3.1.2beta"), Err(SqliteVersionError::Invalid(VersionPart::Patch)));
    assert_eq!(parse_sqlite_version("3.45.1.7"), Ok((3, 45, 1)));
    assert_eq!(SqliteVersionError::Missing(VersionPart::Patch).message(), "missing sqlite patch version");
    assert_eq!(SqliteVersionError::Invalid(VersionPart::Major).message(), "invalid sqlite major version");
}

#[test]
fn startup_requires_returning_support_foreign_keys_and_queue_index() {
    let idx = vec!["idx_runs_status_queuedat_id".to_string()];
    assert_eq!(enforce_startup_invariants("3.35.0", 1, &idx).expect("ok"), (3, 35, 0));
    match enforce_startup_invariants("3.34.9", 1, &idx) {
        Err(e @ StartupError::TooOld { .. }) => assert_eq!(
            e.message(),
            "sqlite version 3.34.9 is too old; required >= 3.35.0 for UPDATE ... RETURNING"
        ),
        other => panic!("expected too old, got {:?}", other),
    }
    match enforce_startup_invariants("3.40.1", 0, &idx) {
        Err(e @ StartupError::ForeignKeysOff { .. }) => assert_eq!(e.message(), "PRAGMA foreign_keys must be 1, got 0"),
        other => panic!("expected foreign keys off, got {:?}", other),
    }
    match enforce_startup_invariants("3.40.1", -3, &idx) {
        Err(e) => assert_eq!(e.message(), "PRAGMA foreign_keys must be 1, got -3"),
        Ok(v) => panic!("expected error, got {:?}", v),
    }
    match enforce_startup_invariants("3.40.1", 1, &vec!["other".to_string()]) {
        Err(StartupError::MissingQueueIndex) => {}
        other => panic!("expected missing index, got {:?}", other),
    }
    match enforce_startup_invariants("3.40", 1, &idx) {
        Err(StartupError::Version(SqliteVersionError::Missing(VersionPart::Patch))) => {}
        other => panic!("expected version error, got {:?}", other),
    }
}
