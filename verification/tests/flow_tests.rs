//! Behavioural tests of the login flow engine: local expiry
//! enforcement, at-most-once consumption, and the handoff of a
//! successful exchange into the credential store.

use launcher_auth::errors::AuthError;
use launcher_auth::flow::begin_login;
use launcher_auth::flow::finish_login;
use launcher_auth::flow::validate_flow;
use launcher_auth::flow::DeviceCodeResponse;
use launcher_auth::flow::ExchangeOutcome;
use launcher_auth::flow::FlowState;
use launcher_auth::flow::TokenResponse;
use launcher_auth::store::CredentialStore;

fn device_response() -> DeviceCodeResponse {
    DeviceCodeResponse {
        device_code: "device-123".to_string(),
        user_code: "USER-CODE".to_string(),
        verification_uri: "https://example.invalid/device".to_string(),
        expires_in: 900,
        interval: 5,
    }
}

fn token_response(id: u128, name: &str) -> TokenResponse {
    TokenResponse {
        profile_id: id,
        profile_name: name.to_string(),
        skin_ref: Some("skin-ref".to_string()),
        access_token: "provider-access".to_string(),
        refresh_token: "provider-refresh".to_string(),
        expires_in: 3600,
    }
}

#[test]
fn begin_login_returns_pending_flow() {
    let flow = begin_login(device_response());
    assert_eq!(flow.state, FlowState::Pending);
    assert_eq!(flow.device_code, "device-123");
    assert_eq!(flow.user_code, "USER-CODE");
    assert_eq!(flow.verification_uri, "https://example.invalid/device");
    assert_eq!(flow.interval, 5);
    assert_eq!(flow.expires_at, flow.issued_at + 900);
}

#[test]
fn concurrent_flows_are_independent() {
    let first = begin_login(device_response());
    let mut second = begin_login(device_response());
    let mut store = CredentialStore::new();
    let now = second.issued_at;
    let r = finish_login(
        &mut store,
        &mut second,
        ExchangeOutcome::Granted(token_response(77, "Alex")),
        now,
    );
    assert!(r.is_ok());
    // finishing one flow does not touch the other
    assert_eq!(first.state, FlowState::Pending);
}

#[test]
fn finish_granted_stores_active_credentials() {
    let mut store = CredentialStore::new();
    let mut flow = begin_login(device_response());
    let now = flow.issued_at + 10;
    let creds = finish_login(
        &mut store,
        &mut flow,
        ExchangeOutcome::Granted(token_response(42, "Steve")),
        now,
    )
    .unwrap();
    assert_eq!(flow.state, FlowState::Authorized);
    assert_eq!(creds.id, 42);
    assert_eq!(creds.username, "Steve");
    assert_eq!(creds.access_token, "provider-access");
    assert_eq!(creds.refresh_token, "provider-refresh");
    assert_eq!(creds.expires, now + 3600);
    assert!(creds.active);
    assert_eq!(store.get_default_user(), Some(42));
    assert_eq!(store.users().len(), 1);
}

#[test]
fn finish_after_expiry_fails_locally() {
    let mut store = CredentialStore::new();
    let mut flow = begin_login(device_response());
    let late = flow.expires_at + 1;
    // the caller's pre-exchange check already refuses
    assert_eq!(validate_flow(&flow, late), Err(AuthError::FlowExpired));
    // and even a provider grant cannot get past the local expiry check
    let r = finish_login(
        &mut store,
        &mut flow,
        ExchangeOutcome::Granted(token_response(42, "Steve")),
        late,
    );
    assert_eq!(r, Err(AuthError::FlowExpired));
    assert_eq!(flow.state, FlowState::Expired);
    assert!(store.users().is_empty());
}

#[test]
fn finish_rejected_marks_flow_failed() {
    let mut store = CredentialStore::new();
    let mut flow = begin_login(device_response());
    let now = flow.issued_at;
    let r = finish_login(
        &mut store,
        &mut flow,
        ExchangeOutcome::Rejected("user denied the request".to_string()),
        now,
    );
    assert_eq!(r, Err(AuthError::FlowRejected("user denied the request".to_string())));
    assert_eq!(flow.state, FlowState::Failed);
    assert!(store.users().is_empty());
}

#[test]
fn flow_single_use() {
    let mut store = CredentialStore::new();
    let mut flow = begin_login(device_response());
    let now = flow.issued_at;
    let first = finish_login(
        &mut store,
        &mut flow,
        ExchangeOutcome::Granted(token_response(42, "Steve")),
        now,
    );
    assert!(first.is_ok());
    let before = store.users();
    let second = finish_login(
        &mut store,
        &mut flow,
        ExchangeOutcome::Granted(token_response(43, "Alex")),
        now,
    );
    assert_eq!(second, Err(AuthError::FlowConsumed));
    assert_eq!(flow.state, FlowState::Authorized);
    assert_eq!(store.users(), before);
}

#[test]
fn failed_flow_cannot_be_reused() {
    let mut store = CredentialStore::new();
    let mut flow = begin_login(device_response());
    let now = flow.issued_at;
    let first = finish_login(
        &mut store,
        &mut flow,
        ExchangeOutcome::Rejected("denied".to_string()),
        now,
    );
    assert!(first.is_err());
    let second = finish_login(
        &mut store,
        &mut flow,
        ExchangeOutcome::Granted(token_response(42, "Steve")),
        now,
    );
    assert_eq!(second, Err(AuthError::FlowConsumed));
    assert!(store.users().is_empty());
}

#[test]
fn validate_flow_accepts_pending_unexpired() {
    let flow = begin_login(device_response());
    assert!(validate_flow(&flow, flow.issued_at).is_ok());
    assert!(validate_flow(&flow, flow.expires_at).is_ok());
}

#[test]
fn finished_login_supersedes_offline_account() {
    // a login finishing while offline accounts exist keeps exactly one
    // record active
    let mut store = CredentialStore::new();
    let alex = store.create_offline_credentials("Alex".to_string());
    let mut flow = begin_login(device_response());
    let now = flow.issued_at;
    let creds = finish_login(
        &mut store,
        &mut flow,
        ExchangeOutcome::Granted(token_response(42, "Steve")),
        now,
    )
    .unwrap();
    let users = store.users();
    assert_eq!(users.len(), 2);
    assert_eq!(users.iter().filter(|c| c.active).count(), 1);
    assert_eq!(store.get_default_user(), Some(creds.id));
    assert!(!users.iter().find(|c| c.id == alex.id).unwrap().active);
}
