use ws_rendezvous::{check_session_id, SessionIdError, MAX_SESSION_ID_CHARS};

#[test]
fn accepts_short_ids() {
    assert_eq!(check_session_id("abc"), Ok(()));
    assert_eq!(check_session_id(""), Ok(()));
}

#[test]
fn accepts_exactly_max_length() {
    let id = "x".repeat(MAX_SESSION_ID_CHARS);
    assert_eq!(check_session_id(&id), Ok(()));
}

#[test]
fn rejects_one_over_max_length() {
    let id = "x".repeat(33);
    assert_eq!(check_session_id(&id), Err(SessionIdError::TooLong));
}

#[test]
fn counts_characters_not_bytes() {
    let id = "é".repeat(32);
    assert_eq!(check_session_id(&id), Ok(()));
    let id = "é".repeat(33);
    assert_eq!(check_session_id(&id), Err(SessionIdError::TooLong));
}

#[test]
fn rejection_is_a_client_error() {
    let e = SessionIdError::TooLong;
    assert_eq!(e.status_code(), 403);
    assert_eq!(e.message(), "Max session id length is 32");
}
