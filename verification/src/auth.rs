//! Bearer-token authentication.

use crate::response::{error, is_error_reply, ErrorReply, UNAUTHORIZED};
use crate::state::AppState;
use crate::text::{same_text, strip_prefix, text_of, without_prefix};
use vstd::prelude::*;

verus! {

/// What the check of a request's credentials found.
#[derive(Clone, Copy, Debug, PartialEq, Eq, Structural)]
pub enum AuthOutcome {
    /// The request may go on.
    Proceed,
    /// The request has no authorization header that reads as text.
    MissingHeader,
    /// The header does not begin with the bearer scheme.
    MalformedHeader,
    /// The header's token is not the service's token.
    InvalidToken,
}

/// Whether the mode setting switches authentication off.
pub open spec fn is_dev_mode(mode: Option<Seq<char>>) -> bool {
    mode == Some("dev"@)
}

/// The outcome for a service that holds `token`, under the mode setting
/// `mode`, of a request whose authorization header reads `header`.
pub open spec fn auth_outcome(
    token: Seq<char>,
    mode: Option<Seq<char>>,
    header: Option<Seq<char>>,
) -> AuthOutcome {
    if is_dev_mode(mode) {
        AuthOutcome::Proceed
    } else {
        match header {
            None => AuthOutcome::MissingHeader,
            Some(h) => match without_prefix(h, "Bearer "@) {
                None => AuthOutcome::MalformedHeader,
                Some(presented) => if presented == token {
                    AuthOutcome::Proceed
                } else {
                    AuthOutcome::InvalidToken
                },
            },
        }
    }
}

/// The message that a denied request is answered with.
pub open spec fn denial_message(outcome: AuthOutcome) -> Seq<char> {
    match outcome {
        AuthOutcome::Proceed => Seq::empty(),
        AuthOutcome::MissingHeader => "Authorization header is missing."@,
        AuthOutcome::MalformedHeader => "Invalid authorization header format."@,
        AuthOutcome::InvalidToken => "Invalid authentication token."@,
    }
}

/// Checks the credentials of a request: `mode` is the mode setting of the
/// service, if it has one, and `authorization` the request's authorization
/// header, if it has one that reads as text.
pub fn check_credentials(state: &AppState, mode: Option<&str>, authorization: Option<&str>) -> (outcome:
    AuthOutcome)
    ensures
        outcome == auth_outcome(state@, text_of(mode), text_of(authorization)),
{
    if let Some(m) = mode {
        if same_text(m, "dev") {
            return AuthOutcome::Proceed;
        }
    }
    match authorization {
        None => AuthOutcome::MissingHeader,
        Some(header) => match strip_prefix(header, "Bearer ") {
            None => AuthOutcome::MalformedHeader,
            Some(presented) => if same_text(presented, state.token()) {
                AuthOutcome::Proceed
            } else {
                AuthOutcome::InvalidToken
            },
        },
    }
}

/// The authentication stage: `None` where the request may go on to the next
/// stage, else the reply that it is turned away with.
pub fn auth_middleware(state: &AppState, mode: Option<&str>, authorization: Option<&str>) -> (denial:
    Option<ErrorReply>)
    ensures
        denial is None <==> auth_outcome(state@, text_of(mode), text_of(authorization))
            == AuthOutcome::Proceed,
        denial is Some ==> is_error_reply(
            denial->0,
            UNAUTHORIZED,
            denial_message(auth_outcome(state@, text_of(mode), text_of(authorization))),
        ),
{
    match check_credentials(state, mode, authorization) {
        AuthOutcome::Proceed => None,
        AuthOutcome::MissingHeader => Some(error(UNAUTHORIZED, "Authorization header is missing.")),
        AuthOutcome::MalformedHeader => Some(
            error(UNAUTHORIZED, "Invalid authorization header format."),
        ),
        AuthOutcome::InvalidToken => Some(error(UNAUTHORIZED, "Invalid authentication token.")),
    }
}

} // verus!
