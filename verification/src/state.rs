//! The state that the request handlers share.

use vstd::prelude::*;

verus! {

/// The application's shared state: the API token that requests must present.
/// The view is the token's text.
#[derive(Clone, Debug)]
pub struct AppState {
    api_token: String,
}

impl View for AppState {
    type V = Seq<char>;

    closed spec fn view(&self) -> Seq<char> {
        self.api_token@
    }
}

impl AppState {
    /// The state that holds `api_token`.
    pub fn new(api_token: String) -> (state: AppState)
        ensures
            state@ == api_token@,
    {
        AppState { api_token }
    }

    /// Puts `api_token` in the place of the token held so far.
    pub fn replace_token(&mut self, api_token: String)
        ensures
            final(self)@ == api_token@,
    {
        self.api_token = api_token;
    }

    /// The token.
    pub fn token(&self) -> (token: &str)
        ensures
            token@ == self@,
    {
        self.api_token.as_str()
    }
}

} // verus!
