use passkey_auth::context::{Database, ExecutionContext};
use passkey_auth::engine::{
    finish_authentication, finish_registration, start_authentication, start_registration,
};
use passkey_auth::errors::AuthError;
use passkey_auth::session::{ChallengeState, SessionStore};

use webauthn_rs::prelude::{PublicKeyCredential, RegisterPublicKeyCredential, Url};
use webauthn_rs::{Webauthn, WebauthnBuilder};

fn make_webauthn() -> Webauthn {
    let rp_origin = Url::parse("https://localhost").expect("origin url");
    WebauthnBuilder::new("localhost", &rp_origin)
        .expect("builder")
        .build()
        .expect("webauthn")
}

/// A syntactically valid registration response whose signature cannot
/// possibly match any challenge.
fn bogus_register_response() -> RegisterPublicKeyCredential {
    serde_json::from_str(
        r#"{
            "id": "AAAA",
            "rawId": "AAAA",
            "response": {
                "attestationObject": "AAAA",
                "clientDataJSON": "AAAA"
            },
            "type": "public-key"
        }"#,
    )
    .expect("parse register response")
}

/// A syntactically valid authentication response whose signature cannot
/// possibly match any challenge.
fn bogus_auth_response() -> PublicKeyCredential {
    serde_json::from_str(
        r#"{
            "id": "AAAA",
            "rawId": "AAAA",
            "response": {
                "authenticatorData": "AAAA",
                "clientDataJSON": "AAAA",
                "signature": "AAAA",
                "userHandle": null
            },
            "type": "public-key"
        }"#,
    )
    .expect("parse auth response")
}

#[test]
fn finish_without_start_fails_no_pending() {
    let webauthn = make_webauthn();
    let db = Database::new();
    let mut ctx = ExecutionContext::open(&db, 1);
    let h = ctx.handle();
    let mut session = SessionStore::new();

    let r = finish_registration(&webauthn, &bogus_register_response(), &mut session, &mut ctx, &h);
    assert_eq!(r, Err(AuthError::NoPendingCeremony));
    assert!(session.pending.is_none());
    assert!(session.user.is_none());
}

#[test]
fn second_finish_always_fails_no_pending() {
    let webauthn = make_webauthn();
    let db = Database::new();
    let mut ctx = ExecutionContext::open(&db, 1);
    let h = ctx.handle();
    let mut session = SessionStore::new();

    let challenge = start_registration(&webauthn, &mut session);
    assert!(challenge.is_ok());
    assert!(matches!(
        session.pending,
        Some(ChallengeState::RegistrationInFlight { .. })
    ));

    // The first finish consumes the pending state; with a response that
    // matches no challenge it fails on crypto grounds.
    let r1 = finish_registration(&webauthn, &bogus_register_response(), &mut session, &mut ctx, &h);
    assert_eq!(r1, Err(AuthError::CryptoVerificationFailed));

    // The second finish finds nothing: single use.
    let r2 = finish_registration(&webauthn, &bogus_register_response(), &mut session, &mut ctx, &h);
    assert_eq!(r2, Err(AuthError::NoPendingCeremony));
}

#[test]
fn restart_evicts_prior_ceremony() {
    let webauthn = make_webauthn();
    let mut session = SessionStore::new();

    let c1 = start_registration(&webauthn, &mut session).expect("first challenge");
    let c2 = start_registration(&webauthn, &mut session).expect("second challenge");

    // The two challenges are distinct, and only the second ceremony is
    // pending: the first ceremony's state is gone.
    let j1 = serde_json::to_string(&c1).expect("serialize first challenge");
    let j2 = serde_json::to_string(&c2).expect("serialize second challenge");
    assert_ne!(j1, j2);
    assert!(matches!(
        session.pending,
        Some(ChallengeState::RegistrationInFlight { .. })
    ));

    // One finish consumes the remaining (second) ceremony; after it the
    // session holds nothing to consume.
    let webauthn2 = make_webauthn();
    let db = Database::new();
    let mut ctx = ExecutionContext::open(&db, 1);
    let h = ctx.handle();
    let r1 =
        finish_registration(&webauthn2, &bogus_register_response(), &mut session, &mut ctx, &h);
    assert_eq!(r1, Err(AuthError::CryptoVerificationFailed));
    let r2 =
        finish_registration(&webauthn2, &bogus_register_response(), &mut session, &mut ctx, &h);
    assert_eq!(r2, Err(AuthError::NoPendingCeremony));
}

#[test]
fn start_authentication_with_zero_credentials_fails_unknown_user() {
    let webauthn = make_webauthn();
    let db = Database::new();
    let ctx = ExecutionContext::open(&db, 1);
    let h = ctx.handle();
    let mut session = SessionStore::new();

    let r = start_authentication(&webauthn, 42, &mut session, &ctx, &h);
    assert!(matches!(r, Err(AuthError::UnknownUser)));
    assert!(session.pending.is_none());
}

#[test]
fn finish_authentication_without_start_fails_no_pending() {
    let webauthn = make_webauthn();
    let db = Database::new();
    let mut ctx = ExecutionContext::open(&db, 1);
    let h = ctx.handle();
    let mut session = SessionStore::new();

    let r = finish_authentication(&webauthn, &bogus_auth_response(), &mut session, &mut ctx, &h);
    assert_eq!(r, Err(AuthError::NoPendingCeremony));
}

#[test]
fn finish_of_wrong_kind_fails_no_pending() {
    let webauthn = make_webauthn();
    let db = Database::new();
    let mut ctx = ExecutionContext::open(&db, 1);
    let h = ctx.handle();
    let mut session = SessionStore::new();

    // A registration is pending; an authentication finish finds no
    // matching state (and consumes the slot).
    start_registration(&webauthn, &mut session).expect("challenge");
    let r = finish_authentication(&webauthn, &bogus_auth_response(), &mut session, &mut ctx, &h);
    assert_eq!(r, Err(AuthError::NoPendingCeremony));
    assert!(session.pending.is_none());
}

#[test]
fn start_registration_issues_parseable_challenge() {
    let webauthn = make_webauthn();
    let mut session = SessionStore::new();

    let ccr = start_registration(&webauthn, &mut session).expect("challenge");
    let encoded = serde_json::to_string(&ccr).expect("serialize challenge");
    assert!(encoded.contains("challenge"));
    assert!(session.user.is_none());
}
