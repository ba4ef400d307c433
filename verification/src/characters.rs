//! The characters (game accounts) available under a game session.

use vstd::prelude::*;
use crate::request::{RequestFailure, HTTP_UNAUTHORIZED};
use crate::text::concat_str;

verus! {

/// Path of the character-list endpoint on the game-session origin.
pub const ENDPOINT_ACCOUNTS: &'static str = "/game-session/v1/accounts";

/// One character of a game account.
#[derive(Debug, Clone, PartialEq, Eq)]
pub struct Character {
    pub account_id: String,
    pub display_name: String,
}

/// Failure to list characters.
#[derive(Debug, Clone, PartialEq, Eq)]
pub enum CharacterError {
    /// The request failed.
    Request(RequestFailure),
}

/// The text that describes a character-listing failure.
pub open spec fn character_error_text(e: CharacterError) -> Seq<char> {
    match e {
        CharacterError::Request(f) => "network request failed: "@ + f.message@,
    }
}

impl CharacterError {
    /// The text that describes the failure.
    pub fn message(&self) -> (r: String)
        ensures
            r@ == character_error_text(*self),
    {
        match self {
            CharacterError::Request(f) => concat_str("network request failed: ", f.message.as_str()),
        }
    }

    /// True if this looks like an expired or invalid session (HTTP 401) rather than a
    /// transient network failure: the user should log in again rather than retry.
    pub fn is_unauthorized(&self) -> (r: bool)
        ensures
            r == match self {
                CharacterError::Request(f) => f.status == Some(HTTP_UNAUTHORIZED),
            },
    {
        match self {
            CharacterError::Request(f) => match f.status {
                Some(code) => code == HTTP_UNAUTHORIZED,
                None => false,
            },
        }
    }
}

/// The URL of the character list: the game-session origin followed by the accounts path.
pub fn accounts_url() -> (r: String)
    ensures
        r@ == crate::auth::AUTH_ORIGIN@ + ENDPOINT_ACCOUNTS@,
{
    let mut s = String::new();
    s.append(crate::auth::AUTH_ORIGIN);
    s.append(ENDPOINT_ACCOUNTS);
    s
}

} // verus!
