//! The offline identity factory: synthesizes a self-consistent,
//! provider-less credential record on demand. The factory only builds
//! the record; deactivating every other account is the store's job,
//! inside `upsert`.

use vstd::prelude::*;

use crate::clock::clamped_add;
use crate::clock::saturating_add_i64;
use crate::clock::utc_now_seconds;
use crate::clock::OFFLINE_LIFETIME_SECONDS;
use crate::credentials::Credentials;
use crate::ids::offline_access_token;
use crate::ids::offline_refresh_prefix;
use crate::ids::offline_refresh_token;
use crate::ids::offline_token_prefix;
use crate::ids::random_account_id;
use crate::ids::uuid_hyphenated;
use crate::store::spec_upsert;
use crate::store::CredentialStore;

verus! {

/// The record an offline identity gets: local-only tokens carrying the
/// offline marker prefixes — so no genuine provider token ever has their
/// shape — an expiry so far in the future that refresh logic never
/// triggers, and the active flag set.
pub fn make_offline_record(username: String, id: u128, now: i64) -> (c: Credentials)
    ensures
        c.id == id,
        c.username == username,
        c.skin_ref is None,
        c.access_token@ == offline_token_prefix() + uuid_hyphenated(id),
        c.refresh_token@ == offline_refresh_prefix() + uuid_hyphenated(id),
        c.expires as int == clamped_add(now as int, OFFLINE_LIFETIME_SECONDS as int),
        c.active,
{
    Credentials {
        id,
        username,
        skin_ref: None,
        access_token: offline_access_token(id),
        refresh_token: offline_refresh_token(id),
        expires: saturating_add_i64(now, OFFLINE_LIFETIME_SECONDS),
        active: true,
    }
}

impl CredentialStore {
    /// Creates an offline account under a fresh random identifier, stores
    /// it through `upsert` — which deactivates every other record — and
    /// returns it.
    pub fn create_offline_credentials(&mut self, username: String) -> (c: Credentials)
        requires
            old(self).wf(),
        ensures
            final(self).wf(),
            final(self)@ == spec_upsert(old(self)@, c),
            c.active,
            c.username == username,
            c.skin_ref is None,
            c.access_token@ == offline_token_prefix() + uuid_hyphenated(c.id),
            c.refresh_token@ == offline_refresh_prefix() + uuid_hyphenated(c.id),
    {
        let id = random_account_id();
        let now = utc_now_seconds();
        let c = make_offline_record(username, id, now);
        let record = c.clone();
        self.upsert(record);
        c
    }
}

} // verus!
