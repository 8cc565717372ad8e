//! The credential record: one per account, keyed by a stable account
//! identifier, carrying the display profile, opaque tokens, an expiry
//! timestamp and the active flag.

use vstd::prelude::*;

verus! {

/// One stored account: identifier, display identity, opaque tokens,
/// absolute expiry of the access token (seconds since the epoch), and
/// whether this account is the single active one.
#[derive(Debug, PartialEq, Eq)]
pub struct Credentials {
    pub id: u128,
    pub username: String,
    pub skin_ref: Option<String>,
    pub access_token: String,
    pub refresh_token: String,
    pub expires: i64,
    pub active: bool,
}

/// The same record with its active flag replaced.
pub open spec fn with_active(c: Credentials, active: bool) -> Credentials {
    Credentials { active, ..c }
}

impl Clone for Credentials {
    fn clone(&self) -> (res: Self)
        ensures
            res == *self,
    {
        let skin_ref = match &self.skin_ref {
            Some(s) => Some(s.clone()),
            None => None,
        };
        Credentials {
            id: self.id,
            username: self.username.clone(),
            skin_ref,
            access_token: self.access_token.clone(),
            refresh_token: self.refresh_token.clone(),
            expires: self.expires,
            active: self.active,
        }
    }
}

} // verus!
