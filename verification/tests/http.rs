use obelisk::http::{start_response, token_is_expired, StartResponse};

#[test]
fn token_expiry_margin() {
    let exp = 1_700_000_000;
    assert!(!token_is_expired(exp - 120, 0, exp));
    assert!(!token_is_expired(exp - 60, 0, exp));
    assert!(token_is_expired(exp - 60, 1, exp));
    assert!(token_is_expired(exp - 59, 0, exp));
    assert!(token_is_expired(exp + 10, 0, exp));
    assert!(token_is_expired(i64::MIN + 5, 0, i64::MIN));
    assert!(!token_is_expired(i64::MIN, 0, i64::MAX));
}

#[test]
fn call_in_start_statuses() {
    assert_eq!(start_response(200), StartResponse::Ticket);
    assert_eq!(start_response(400), StartResponse::InvalidCredentials);
    assert_eq!(start_response(401), StartResponse::UnexpectedStatus);
    assert_eq!(start_response(500), StartResponse::UnexpectedStatus);
}
