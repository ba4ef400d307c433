//! Where a profile's refresh token is kept in the operating system's credential store: one
//! entry per profile, under the launcher's service name and the profile's UUID. The store
//! itself is reached by the caller; entries are keyed by id rather than by profile, so that an
//! entry can still be deleted after its profile has been removed from the registry.

use vstd::prelude::*;
use crate::accounts::{uuid_string, uuid_text};

verus! {

/// The service name under which the tokens are stored.
pub const SERVICE_NAME: &'static str = "RuneRoster";

/// Names the credential-store entry of a profile's refresh token.
pub struct TokenStore;

impl TokenStore {
    /// The (service, user) pair of the entry that holds profile `id`'s refresh token: the
    /// service name and the profile's hyphenated UUID.
    pub fn entry_names(id: u128) -> (r: (String, String))
        ensures
            r.0@ == SERVICE_NAME@,
            r.1@ == uuid_text(id),
    {
        (String::from_str(SERVICE_NAME), uuid_string(id))
    }
}

} // verus!
