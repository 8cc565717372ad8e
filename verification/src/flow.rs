//! The login flow engine: a short-lived state machine that drives the
//! identity provider's device-code exchange. The network calls
//! themselves are the caller's business; this engine decides, from a
//! flow record, the wall-clock time and the provider's answer, what
//! happens next — and it enforces expiry locally before any exchange.
//!
//! A flow is consumed exactly once: every `finish_login` call on a
//! `Pending` flow leaves it in a terminal state, and a call on a
//! terminal flow is refused without touching anything.

use vstd::prelude::*;

use crate::clock::clamped_add;
use crate::clock::saturating_add_i64;
use crate::clock::utc_now_seconds;
use crate::credentials::Credentials;
use crate::errors::AuthError;
use crate::ids::random_account_id;
use crate::store::spec_upsert;
use crate::store::CredentialStore;

verus! {

/// The states of a login flow. `Pending` is the only non-terminal one;
/// the transitions are `Pending -> Authorized | Expired | Failed`.
#[derive(Clone, Copy, Debug, PartialEq, Eq, Structural)]
pub enum FlowState {
    Pending,
    Authorized,
    Expired,
    Failed,
}

/// What the identity provider returns when a device code is issued:
/// the code pair, where the user authorizes, how long the flow lives
/// (seconds) and how often to poll (seconds).
pub struct DeviceCodeResponse {
    pub device_code: String,
    pub user_code: String,
    pub verification_uri: String,
    pub expires_in: i64,
    pub interval: i64,
}

/// What the identity provider returns from a successful token exchange.
pub struct TokenResponse {
    pub profile_id: u128,
    pub profile_name: String,
    pub skin_ref: Option<String>,
    pub access_token: String,
    pub refresh_token: String,
    pub expires_in: i64,
}

/// The provider's answer to the token-exchange call, as plain values.
pub enum ExchangeOutcome {
    Granted(TokenResponse),
    Rejected(String),
}

/// One in-progress login attempt. Flows are independent values: several
/// may coexist, and none refers to any stored credential record.
#[derive(Debug, PartialEq, Eq)]
pub struct LoginFlow {
    pub flow_id: u128,
    pub device_code: String,
    pub user_code: String,
    pub verification_uri: String,
    pub issued_at: i64,
    pub expires_at: i64,
    pub interval: i64,
    pub state: FlowState,
}

/// The same flow with its state replaced.
pub open spec fn with_state(f: LoginFlow, state: FlowState) -> LoginFlow {
    LoginFlow { state, ..f }
}

/// The credential record built from a successful exchange: the
/// provider's profile and tokens, an absolute expiry, and the active
/// flag set.
pub open spec fn spec_credentials_from(t: TokenResponse, now: i64) -> Credentials {
    Credentials {
        id: t.profile_id,
        username: t.profile_name,
        skin_ref: t.skin_ref,
        access_token: t.access_token,
        refresh_token: t.refresh_token,
        expires: clamped_add(now as int, t.expires_in as int) as i64,
        active: true,
    }
}

/// Builds the credential record of a successful exchange.
pub fn credentials_from(t: TokenResponse, now: i64) -> (c: Credentials)
    ensures
        c == spec_credentials_from(t, now),
{
    Credentials {
        id: t.profile_id,
        username: t.profile_name,
        skin_ref: t.skin_ref,
        access_token: t.access_token,
        refresh_token: t.refresh_token,
        expires: saturating_add_i64(now, t.expires_in),
        active: true,
    }
}

/// Opens a login attempt from the provider's device-code answer: a
/// `Pending` flow stamped with the current time and an absolute expiry.
/// No credential record is touched.
pub fn begin_login(resp: DeviceCodeResponse) -> (f: LoginFlow)
    ensures
        f.state == FlowState::Pending,
        f.device_code == resp.device_code,
        f.user_code == resp.user_code,
        f.verification_uri == resp.verification_uri,
        f.interval == resp.interval,
        0 <= f.issued_at,
        f.expires_at as int == clamped_add(f.issued_at as int, resp.expires_in as int),
{
    let issued_at = utc_now_seconds();
    let expires_at = saturating_add_i64(issued_at, resp.expires_in);
    LoginFlow {
        flow_id: random_account_id(),
        device_code: resp.device_code,
        user_code: resp.user_code,
        verification_uri: resp.verification_uri,
        issued_at,
        expires_at,
        interval: resp.interval,
        state: FlowState::Pending,
    }
}

/// Whether a finish call may proceed to the provider exchange at time
/// `now`: only a `Pending`, unexpired flow passes. Callers check this
/// before contacting the provider, so an expired flow is rejected
/// without any exchange.
pub fn validate_flow(flow: &LoginFlow, now: i64) -> (r: Result<(), AuthError>)
    ensures
        r is Ok <==> flow.state == FlowState::Pending && now <= flow.expires_at,
        flow.state != FlowState::Pending ==> r == Err::<(), AuthError>(AuthError::FlowConsumed),
        flow.state == FlowState::Pending && now > flow.expires_at ==> r == Err::<(), AuthError>(
            AuthError::FlowExpired,
        ),
{
    match flow.state {
        FlowState::Pending => {
            if now <= flow.expires_at {
                Ok(())
            } else {
                Err(AuthError::FlowExpired)
            }
        },
        _ => Err(AuthError::FlowConsumed),
    }
}

/// Everything `finish_login` does, as one relation between the flow, the
/// store and the result, before and after the call.
pub open spec fn finish_login_post(
    f0: LoginFlow,
    f1: LoginFlow,
    s0: Seq<Credentials>,
    s1: Seq<Credentials>,
    outcome: ExchangeOutcome,
    now: i64,
    r: Result<Credentials, AuthError>,
) -> bool {
    if f0.state != FlowState::Pending {
        f1 == f0 && s1 == s0 && r == Err::<Credentials, AuthError>(AuthError::FlowConsumed)
    } else if now > f0.expires_at {
        f1 == with_state(f0, FlowState::Expired) && s1 == s0 && r == Err::<
            Credentials,
            AuthError,
        >(AuthError::FlowExpired)
    } else {
        match outcome {
            ExchangeOutcome::Granted(t) => {
                let c = spec_credentials_from(t, now);
                f1 == with_state(f0, FlowState::Authorized) && s1 == spec_upsert(s0, c) && r
                    == Ok::<Credentials, AuthError>(c)
            },
            ExchangeOutcome::Rejected(reason) => f1 == with_state(f0, FlowState::Failed) && s1
                == s0 && r == Err::<Credentials, AuthError>(AuthError::FlowRejected(reason)),
        }
    }
}

/// Consumes the flow with the provider's answer at time `now`. Expiry is
/// enforced locally first: a `Pending` flow past its expiry fails with
/// `FlowExpired` whatever the provider answered. A successful exchange
/// stores the new record as the single active account and returns it;
/// any call leaves the flow in a terminal state, so a second finish of
/// the same flow is refused with `FlowConsumed`.
pub fn finish_login(
    store: &mut CredentialStore,
    flow: &mut LoginFlow,
    outcome: ExchangeOutcome,
    now: i64,
) -> (r: Result<Credentials, AuthError>)
    requires
        old(store).wf(),
    ensures
        final(store).wf(),
        final(flow).state != FlowState::Pending,
        finish_login_post(
            *old(flow),
            *final(flow),
            old(store)@,
            final(store)@,
            outcome,
            now,
            r,
        ),
{
    match flow.state {
        FlowState::Pending => {
            if now > flow.expires_at {
                flow.state = FlowState::Expired;
                Err(AuthError::FlowExpired)
            } else {
                match outcome {
                    ExchangeOutcome::Granted(t) => {
                        flow.state = FlowState::Authorized;
                        let c = credentials_from(t, now);
                        let record = c.clone();
                        store.upsert(record);
                        Ok(c)
                    },
                    ExchangeOutcome::Rejected(reason) => {
                        flow.state = FlowState::Failed;
                        Err(AuthError::FlowRejected(reason))
                    },
                }
            }
        },
        _ => Err(AuthError::FlowConsumed),
    }
}

} // verus!
