use stardust::auth::{auth_middleware, check_credentials, AuthOutcome};
use stardust::state::AppState;

fn state() -> AppState {
    AppState::new("s3cret".to_string())
}

#[test]
fn valid_token_proceeds() {
    assert_eq!(check_credentials(&state(), None, Some("Bearer s3cret")), AuthOutcome::Proceed);
    assert!(auth_middleware(&state(), None, Some("Bearer s3cret")).is_none());
    assert!(auth_middleware(&state(), Some("prod"), Some("Bearer s3cret")).is_none());
}

#[test]
fn dev_mode_skips_the_check() {
    assert_eq!(check_credentials(&state(), Some("dev"), None), AuthOutcome::Proceed);
    assert!(auth_middleware(&state(), Some("dev"), Some("nonsense")).is_none());
    assert_eq!(check_credentials(&state(), Some("Dev"), None), AuthOutcome::MissingHeader);
    assert_eq!(check_credentials(&state(), Some("dev "), None), AuthOutcome::MissingHeader);
}

#[test]
fn missing_header_is_denied() {
    assert_eq!(check_credentials(&state(), None, None), AuthOutcome::MissingHeader);
    let reply = auth_middleware(&state(), None, None).unwrap();
    assert_eq!(reply.status_code, 401);
    assert_eq!(reply.body.status, "Error");
    assert_eq!(reply.body.message, "Authorization header is missing.");
}

#[test]
fn malformed_header_is_denied() {
    assert_eq!(check_credentials(&state(), None, Some("s3cret")), AuthOutcome::MalformedHeader);
    assert_eq!(
        check_credentials(&state(), None, Some("bearer s3cret")),
        AuthOutcome::MalformedHeader
    );
    let reply = auth_middleware(&state(), None, Some("Basic abc")).unwrap();
    assert_eq!(reply.status_code, 401);
    assert_eq!(reply.body.message, "Invalid authorization header format.");
}

#[test]
fn wrong_token_is_denied() {
    assert_eq!(check_credentials(&state(), None, Some("Bearer nope")), AuthOutcome::InvalidToken);
    assert_eq!(check_credentials(&state(), None, Some("Bearer ")), AuthOutcome::InvalidToken);
    assert_eq!(
        check_credentials(&state(), None, Some("Bearer s3cret ")),
        AuthOutcome::InvalidToken
    );
    let reply = auth_middleware(&state(), None, Some("Bearer nope")).unwrap();
    assert_eq!(reply.status_code, 401);
    assert_eq!(reply.body.message, "Invalid authentication token.");
}

#[test]
fn state_holds_the_token() {
    let mut s = state();
    assert_eq!(s.token(), "s3cret");
    s.replace_token("other".to_string());
    assert_eq!(s.token(), "other");
    assert_eq!(check_credentials(&s, None, Some("Bearer s3cret")), AuthOutcome::InvalidToken);
    assert_eq!(check_credentials(&s, None, Some("Bearer other")), AuthOutcome::Proceed);
}
