//! The API token: loading it, making a new one, reloading it on request.

use crate::response::{error, is_error_reply, ErrorReply, INTERNAL_SERVER_ERROR};
use crate::state::AppState;
use crate::text::{same_text, trim, trimmed};
use vstd::prelude::*;

verus! {

/// Number of random bytes in a new token's key.
pub const KEY_BYTES: usize = 64;

/// What reading the token file gave.
#[derive(Clone, Debug)]
pub enum TokenFile {
    /// There is no such file.
    Missing,
    /// The file is there and could not be read.
    Unreadable,
    /// The file's content.
    Content(String),
}

/// What a reload request led to.
#[derive(Clone, Debug)]
pub enum ReloadOutcome {
    /// The file holds the token that the service already has.
    Unchanged,
    /// The service now has the file's token.
    Reloaded,
    /// Nothing changed; the request is answered with this reply.
    Failed(ErrorReply),
}

/// Whether a reload failed with the internal-error reply that carries
/// `message`.
pub open spec fn failed_with(outcome: ReloadOutcome, message: Seq<char>) -> bool {
    match outcome {
        ReloadOutcome::Failed(reply) => is_error_reply(reply, INTERNAL_SERVER_ERROR, message),
        _ => false,
    }
}

/// The standard base64 text, with padding, of `bytes`.
pub uninterp spec fn base64_standard(bytes: Seq<u8>) -> Seq<char>;

/// `RngCore::fill_bytes` on rand's thread-local generator `rand::rng()`:
/// every byte of the buffer is overwritten with a random one. Only the
/// buffer's length is claimed, which stays. rand panics where the system
/// gives it no seed.
#[verifier::external_body]
fn fill_random(buffer: &mut Vec<u8>)
    ensures
        final(buffer)@.len() == old(buffer)@.len(),
{
    rand::RngCore::fill_bytes(&mut rand::rng(), buffer.as_mut_slice());
}

/// `Engine::encode` of base64's `general_purpose::STANDARD` engine: the
/// text is the standard base64 encoding of `bytes`, padded. The length of
/// the text is computed without overflow for every slice that fits in memory.
#[verifier::external_body]
fn encode_standard(bytes: &[u8]) -> (text: String)
    ensures
        text@ == base64_standard(bytes@),
{
    base64::Engine::encode(&base64::engine::general_purpose::STANDARD, bytes)
}

/// The token that a key stands for: its base64 text.
pub fn token_of_key(key: &[u8]) -> (token: String)
    ensures
        token@ == base64_standard(key@),
{
    encode_standard(key)
}

/// A new token: the base64 text of `KEY_BYTES` random bytes.
pub fn generate_token() -> (token: String)
    ensures
        exists|key: Seq<u8>| key.len() == KEY_BYTES && token@ == #[trigger] base64_standard(key),
{
    let mut key: Vec<u8> = Vec::new();
    while key.len() < KEY_BYTES
        invariant
            key@.len() <= KEY_BYTES,
        decreases KEY_BYTES - key@.len(),
    {
        key.push(0);
    }
    fill_random(&mut key);
    token_of_key(key.as_slice())
}

/// The token that a token file's content holds: the content without the white
/// space around it, or `None` where nothing is left.
pub fn load_token(content: &str) -> (token: Option<String>)
    ensures
        match token {
            Some(t) => t@ == trimmed(content@) && t@.len() > 0,
            None => trimmed(content@).len() == 0,
        },
{
    let text = trim(content);
    if text.is_empty() {
        None
    } else {
        Some(text.to_owned())
    }
}

/// The message that answers a reload that went well.
pub fn reload_message(reloaded: bool) -> (message: &'static str)
    ensures
        message@ == if reloaded {
            "Token reloaded successfully"@
        } else {
            "Token unchanged"@
        },
{
    if reloaded {
        "Token reloaded successfully"
    } else {
        "Token unchanged"
    }
}

/// Reloads the token from what reading the token file gave. A file that is
/// missing, unreadable or empty leaves the token as it is and fails the
/// request; otherwise the service has the file's token afterwards, and the
/// outcome says whether that is a new one.
pub fn token_reload(state: &mut AppState, file: &TokenFile) -> (outcome: ReloadOutcome)
    ensures
        match *file {
            TokenFile::Missing => final(state)@ == old(state)@ && failed_with(
                outcome,
                "Token file not found."@,
            ),
            TokenFile::Unreadable => final(state)@ == old(state)@ && failed_with(
                outcome,
                "Failed to read token file."@,
            ),
            TokenFile::Content(content) => if trimmed(content@).len() == 0 {
                final(state)@ == old(state)@ && failed_with(outcome, "Token file is empty."@)
            } else if trimmed(content@) == old(state)@ {
                final(state)@ == old(state)@ && outcome is Unchanged
            } else {
                final(state)@ == trimmed(content@) && outcome is Reloaded
            },
        },
{
    match file {
        TokenFile::Missing => ReloadOutcome::Failed(
            error(INTERNAL_SERVER_ERROR, "Token file not found."),
        ),
        TokenFile::Unreadable => ReloadOutcome::Failed(
            error(INTERNAL_SERVER_ERROR, "Failed to read token file."),
        ),
        TokenFile::Content(content) => match load_token(content.as_str()) {
            None => ReloadOutcome::Failed(error(INTERNAL_SERVER_ERROR, "Token file is empty.")),
            Some(token) => if same_text(token.as_str(), state.token()) {
                ReloadOutcome::Unchanged
            } else {
                state.replace_token(token);
                ReloadOutcome::Reloaded
            },
        },
    }
}

} // verus!
