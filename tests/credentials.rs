use matrix_send::error::Error;
use matrix_send::permissions::{permission_repair, OWNER_READ_WRITE};
use matrix_send::record::{delete_result, load_record, ReadOutcome, RemoveOutcome, SessionRecord};

fn record(homeserver: &str, refresh: Option<&str>) -> Option<SessionRecord> {
    SessionRecord::from_fields(
        homeserver,
        "syt_token".to_string(),
        "DEVICEID".to_string(),
        "@alice:example.org".to_string(),
        refresh.map(|r| r.to_string()),
    )
}

#[test]
fn world_readable_file_is_repaired() {
    assert_eq!(permission_repair(0o644), Some(0o600));
    assert_eq!(permission_repair(0o604), Some(0o600));
    assert_eq!(permission_repair(0o100644), Some(0o600));
}

#[test]
fn group_access_is_repaired() {
    assert_eq!(permission_repair(0o640), Some(0o600));
    assert_eq!(permission_repair(0o660), Some(0o600));
}

#[test]
fn owner_only_file_is_left_alone() {
    assert_eq!(permission_repair(0o600), None);
    assert_eq!(permission_repair(0o400), None);
    assert_eq!(permission_repair(0o100600), None);
}

#[test]
fn saved_file_is_owner_only_under_any_umask() {
    for umask in 0u32..=0o777 {
        let created = 0o666 & !umask;
        let mode = permission_repair(created).unwrap_or(created);
        assert_eq!(mode & 0o077, 0, "umask {:o}", umask);
    }
    assert_eq!(OWNER_READ_WRITE & 0o077, 0);
}

#[test]
fn homeserver_is_normalized() {
    let r = record("https://example.org", None).unwrap();
    assert_eq!(r.homeserver, "https://example.org/");
    let r = record("HTTPS://Matrix.Example.ORG:443/", None).unwrap();
    assert_eq!(r.homeserver, "https://matrix.example.org/");
}

#[test]
fn homeserver_must_be_a_url() {
    assert!(record("not a url", None).is_none());
    assert!(record("", None).is_none());
}

#[test]
fn save_then_load_gives_the_same_record() {
    for refresh in [None, Some("syt_refresh")] {
        let saved = record("https://example.org/", refresh).unwrap();
        let loaded = load_record(ReadOutcome::Parsed(saved.clone())).unwrap();
        assert_eq!(loaded, saved);
    }
}

#[test]
fn load_of_missing_file_is_not_logged_in() {
    assert_eq!(load_record(ReadOutcome::Absent), Err(Error::NotLoggedIn));
}

#[test]
fn load_of_malformed_file_is_corrupt() {
    assert_eq!(load_record(ReadOutcome::Malformed), Err(Error::Corrupt));
    let bad = SessionRecord {
        homeserver: "::".to_string(),
        access_token: "t".to_string(),
        device_id: "D".to_string(),
        user_id: "@a:b".to_string(),
        refresh_token: None,
    };
    assert_eq!(load_record(ReadOutcome::Parsed(bad)), Err(Error::Corrupt));
}

#[test]
fn load_of_unreadable_file_is_io_error() {
    assert_eq!(load_record(ReadOutcome::Unreadable), Err(Error::Io));
}

#[test]
fn load_normalizes_a_stored_homeserver() {
    let stored = SessionRecord {
        homeserver: "https://example.org".to_string(),
        access_token: "t".to_string(),
        device_id: "D".to_string(),
        user_id: "@a:example.org".to_string(),
        refresh_token: Some("r".to_string()),
    };
    let loaded = load_record(ReadOutcome::Parsed(stored)).unwrap();
    assert_eq!(loaded.homeserver, "https://example.org/");
    assert_eq!(loaded.refresh_token.as_deref(), Some("r"));
}

#[test]
fn delete_is_idempotent() {
    assert_eq!(delete_result(RemoveOutcome::Removed), Ok(()));
    assert_eq!(delete_result(RemoveOutcome::Absent), Ok(()));
    assert_eq!(delete_result(RemoveOutcome::Failed), Err(Error::Io));
}
