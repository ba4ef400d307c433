//! The credentials handed to the game client for one character's launch.

use vstd::prelude::*;
use crate::characters::Character;

verus! {

/// Everything the client needs to start logged into one character, through its
/// `JX_SESSION_ID` / `JX_CHARACTER_ID` / `JX_DISPLAY_NAME` environment variables.
#[derive(Debug, Clone, PartialEq, Eq)]
pub struct LaunchSession {
    pub session_id: String,
    pub account_id: String,
    pub display_name: String,
}

impl LaunchSession {
    /// The session for `character` under the game session `session_id`.
    pub fn for_character(session_id: String, character: &Character) -> (r: LaunchSession)
        ensures
            r.session_id@ == session_id@,
            r.account_id@ == character.account_id@,
            r.display_name@ == character.display_name@,
    {
        LaunchSession {
            session_id,
            account_id: character.account_id.clone(),
            display_name: character.display_name.clone(),
        }
    }
}

} // verus!
