use nono_sessions::errors::NonoError;
use nono_sessions::session_id::{
    generate_session_id, parse_pid_from_session_id, session_id_at, validate_session_id,
    validate_session_id_for,
};

fn not_found(text: &str) -> NonoError {
    NonoError::SessionNotFound(text.to_string())
}

#[test]
fn validate_session_id_rejects_traversal() {
    assert!(validate_session_id("../../../etc").is_err());
    assert!(validate_session_id("foo/bar").is_err());
    assert!(validate_session_id("foo\0bar").is_err());
    assert!(validate_session_id("..").is_err());
    assert!(validate_session_id("").is_err());
}

#[test]
fn validate_session_id_accepts_valid() {
    assert!(validate_session_id("20260214-143022-12345").is_ok());
    assert!(validate_session_id("test-session").is_ok());
}

#[test]
fn validation_errors_name_the_id() {
    assert_eq!(validate_session_id(""), Err(not_found("empty session ID")));
    assert_eq!(
        validate_session_id("a/b"),
        Err(not_found("invalid session ID: a/b"))
    );
    assert_eq!(
        validate_session_id("a..b"),
        Err(not_found("invalid session ID: a..b"))
    );
    assert_eq!(validate_session_id("."), Ok(()));
    assert_eq!(validate_session_id("a.b.c"), Ok(()));
    assert_eq!(validate_session_id("séance"), Ok(()));
}

#[test]
fn validation_follows_the_separator() {
    let id = "a\\b";
    assert_eq!(
        validate_session_id(id).is_ok(),
        std::path::MAIN_SEPARATOR != '\\'
    );
    assert_eq!(validate_session_id_for(id, '/'), Ok(()));
    assert_eq!(
        validate_session_id_for(id, '\\'),
        Err(not_found("invalid session ID: a\\b"))
    );
    assert!(validate_session_id_for("a/b", '\\').is_err());
}

#[test]
fn parse_pid_from_session_id_valid() {
    assert_eq!(
        parse_pid_from_session_id("20260214-143022-12345"),
        Some(12345)
    );
}

#[test]
fn parse_pid_from_session_id_invalid() {
    assert_eq!(parse_pid_from_session_id("no-pid-here"), None);
    assert_eq!(parse_pid_from_session_id(""), None);
}

#[test]
fn pid_parsing_agrees_with_the_standard_parser() {
    for id in [
        "7", "-7", "a-7", "a-+7", "a-+", "a-", "-", "+", "++7", "a-007", "a-4294967295",
        "a-4294967296", "a-99999999999999999999", "a-00000000000000000001", "a-7 ", "a-٣", "12x",
        "a-b-3", "a--3",
    ] {
        let expected: Option<u32> = id.rsplit('-').next().and_then(|s| s.parse().ok());
        assert_eq!(parse_pid_from_session_id(id), expected, "{id}");
    }
}

#[test]
fn generate_session_id_contains_pid() {
    let process_id: u32 = 271828;
    let session_id = generate_session_id(process_id);
    let pid = process_id.to_string();
    assert!(
        session_id.contains(&pid),
        "session_id '{session_id}' should contain pid '{pid}'"
    );
}

#[test]
fn generate_session_id_uses_utc_date_prefix() {
    let session_id = generate_session_id(4242);
    let utc_prefix = chrono::Utc::now().format("%Y%m%d").to_string();
    assert!(
        session_id.starts_with(&utc_prefix),
        "session_id '{session_id}' should start with UTC date '{utc_prefix}'"
    );
}

#[test]
fn generated_ids_have_the_documented_form() {
    let session_id = generate_session_id(31337);
    let parts: Vec<&str> = session_id.split('-').collect();
    assert_eq!(parts.len(), 3);
    assert_eq!(parts[0].len(), 8);
    assert_eq!(parts[1].len(), 6);
    assert!(parts[0].chars().all(|c| c.is_ascii_digit()));
    assert!(parts[1].chars().all(|c| c.is_ascii_digit()));
    assert_eq!(parts[2], "31337");
    assert_eq!(parse_pid_from_session_id(&session_id), Some(31337));
    assert_eq!(validate_session_id(&session_id), Ok(()));
}

#[test]
fn session_ids_are_put_together_from_timestamp_and_pid() {
    assert_eq!(
        session_id_at("20260214-143022", 12345),
        "20260214-143022-12345"
    );
    assert_eq!(session_id_at("20260214-143022", 0), "20260214-143022-0");
    for pid in [0, 1, 9, 10, 4294967295] {
        let id = session_id_at("20260214-143022", pid);
        assert_eq!(parse_pid_from_session_id(&id), Some(pid));
    }
}

#[test]
fn ids_of_later_moments_sort_behind() {
    let ids = [
        session_id_at("19700101-000000", 4294967295),
        session_id_at("20260214-143022", 9),
        session_id_at("20260214-143023", 1),
        session_id_at("20260301-000000", 5),
        session_id_at("99991231-235959", 0),
    ];
    assert!(ids.windows(2).all(|pair| pair[0] < pair[1]));
}
