//! The login state that a client of the service keeps between requests.

use vstd::prelude::*;

verus! {

/// Where a client stands: logged out (perhaps with a token to try again),
/// trying a token, or logged in with a token as a user.
#[derive(Debug, Clone)]
pub enum LoginState {
    LoggedOut(Option<String>),
    TryingLogin(String),
    LoggedIn(String, String),
}

impl Default for LoginState {
    fn default() -> (r: Self)
        ensures
            r matches LoginState::LoggedOut(None),
    {
        LoginState::LoggedOut(None)
    }
}

impl LoginState {
    /// The token the client holds, in whatever state.
    pub fn token(&self) -> (r: Option<String>)
        ensures
            r == match self {
                LoginState::LoggedOut(t) => *t,
                LoginState::TryingLogin(t) => Some(*t),
                LoginState::LoggedIn(t, _) => Some(*t),
            },
    {
        match self {
            LoginState::LoggedOut(token) => match token {
                Some(t) => Some(t.clone()),
                None => None,
            },
            LoginState::TryingLogin(token) => Some(token.clone()),
            LoginState::LoggedIn(token, _username) => Some(token.clone()),
        }
    }

    /// The token to authenticate requests with: only once logged in.
    pub fn api_token(&self) -> (r: Option<String>)
        ensures
            r == match self {
                LoginState::LoggedIn(t, _) => Some(*t),
                _ => None,
            },
    {
        match self {
            LoginState::LoggedIn(token, _) => Some(token.clone()),
            _ => None,
        }
    }

    /// The name of the logged-in user.
    pub fn username(&self) -> (r: Option<String>)
        ensures
            r == match self {
                LoginState::LoggedIn(_, u) => Some(*u),
                _ => None,
            },
    {
        match self {
            LoginState::LoggedIn(_token, username) => Some(username.clone()),
            _ => None,
        }
    }
}

} // verus!
