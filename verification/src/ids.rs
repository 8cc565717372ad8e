//! Account identifiers and the synthetic tokens of offline accounts.
//! Identifiers are 128-bit values; fresh ones are drawn as random
//! version-4 UUIDs. Offline tokens are local-only markers built from a
//! fixed prefix and the identifier's hyphenated UUID form, so no genuine
//! provider token ever has their shape.

use vstd::prelude::*;

verus! {

/// The hyphenated textual form that the `uuid` crate gives a 128-bit
/// identifier; it depends on the identifier alone.
pub uninterp spec fn uuid_hyphenated(id: u128) -> Seq<char>;

/// The marker prefix of an offline account's access token.
pub open spec fn offline_token_prefix() -> Seq<char> {
    "offline_token_"@
}

/// The marker prefix of an offline account's refresh token.
pub open spec fn offline_refresh_prefix() -> Seq<char> {
    "offline_refresh_"@
}

/// Relies on `uuid::Uuid::new_v4`: a freshly drawn random identifier.
/// The value is random, so nothing is assumed about it.
#[verifier::external_body]
pub(crate) fn random_account_id() -> (r: u128) {
    uuid::Uuid::new_v4().as_u128()
}

/// Relies on `uuid::Uuid::from_u128` and the `Display` impl of `Uuid`:
/// the hyphenated form written after the fixed prefix, a function of the
/// identifier alone.
#[verifier::external_body]
pub(crate) fn offline_access_token(id: u128) -> (r: String)
    ensures
        r@ == offline_token_prefix() + uuid_hyphenated(id),
{
    format!("offline_token_{}", uuid::Uuid::from_u128(id))
}

/// Relies on `uuid::Uuid::from_u128` and the `Display` impl of `Uuid`:
/// the hyphenated form written after the fixed prefix, a function of the
/// identifier alone.
#[verifier::external_body]
pub(crate) fn offline_refresh_token(id: u128) -> (r: String)
    ensures
        r@ == offline_refresh_prefix() + uuid_hyphenated(id),
{
    format!("offline_refresh_{}", uuid::Uuid::from_u128(id))
}

} // verus!
