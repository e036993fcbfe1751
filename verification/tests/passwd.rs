use stardust::passwd::{
    generate_token, load_token, reload_message, token_of_key, token_reload, ReloadOutcome, TokenFile, KEY_BYTES,
};
use stardust::state::AppState;

#[test]
fn token_of_key_is_standard_base64() {
    assert_eq!(token_of_key(b"hello world~"), "aGVsbG8gd29ybGR+");
    assert_eq!(token_of_key(b""), "");
    assert_eq!(token_of_key(b"f"), "Zg==");
    assert_eq!(token_of_key(&[0xfb, 0xff]), "+/8=");
}

#[test]
fn generated_token_encodes_a_full_key() {
    assert_eq!(KEY_BYTES, 64);
    let token = generate_token();
    assert_eq!(token.len(), 88);
    assert!(token.ends_with("=="));
    assert!(token
        .chars()
        .all(|c| c.is_ascii_alphanumeric() || c == '+' || c == '/' || c == '='));
    assert_ne!(token, generate_token());
}

#[test]
fn load_token_trims_and_refuses_empty() {
    assert_eq!(load_token("abc\n"), Some("abc".to_string()));
    assert_eq!(load_token("  a b  "), Some("a b".to_string()));
    assert_eq!(load_token(""), None);
    assert_eq!(load_token(" \n\t"), None);
}

#[test]
fn reload_fails_without_a_readable_file() {
    let mut state = AppState::new("old".to_string());
    match token_reload(&mut state, &TokenFile::Missing) {
        ReloadOutcome::Failed(reply) => {
            assert_eq!(reply.status_code, 500);
            assert_eq!(reply.body.status, "Error");
            assert_eq!(reply.body.message, "Token file not found.");
        }
        _ => panic!("a missing file must fail the reload"),
    }
    match token_reload(&mut state, &TokenFile::Unreadable) {
        ReloadOutcome::Failed(reply) => {
            assert_eq!(reply.status_code, 500);
            assert_eq!(reply.body.message, "Failed to read token file.");
        }
        _ => panic!("an unreadable file must fail the reload"),
    }
    match token_reload(&mut state, &TokenFile::Content(" \n".to_string())) {
        ReloadOutcome::Failed(reply) => {
            assert_eq!(reply.status_code, 500);
            assert_eq!(reply.body.message, "Token file is empty.");
        }
        _ => panic!("an empty file must fail the reload"),
    }
    assert_eq!(state.token(), "old");
}

#[test]
fn reload_keeps_or_replaces_the_token() {
    let mut state = AppState::new("old".to_string());
    let same = token_reload(&mut state, &TokenFile::Content("old\n".to_string()));
    assert!(matches!(same, ReloadOutcome::Unchanged));
    assert_eq!(state.token(), "old");
    let changed = token_reload(&mut state, &TokenFile::Content("  new \n".to_string()));
    assert!(matches!(changed, ReloadOutcome::Reloaded));
    assert_eq!(state.token(), "new");
}

#[test]
fn reload_messages() {
    assert_eq!(reload_message(true), "Token reloaded successfully");
    assert_eq!(reload_message(false), "Token unchanged");
}
