use passkey_auth::context::{Database, ExecutionContext, Outcome};
use passkey_auth::engine::{
    finish_authentication, finish_registration, start_authentication, start_registration,
};
use passkey_auth::errors::AuthError;
use passkey_auth::session::SessionStore;

use webauthn_authenticator_rs::softpasskey::SoftPasskey;
use webauthn_authenticator_rs::WebauthnAuthenticator;
use webauthn_rs::prelude::Url;
use webauthn_rs::{Webauthn, WebauthnBuilder};

fn make_webauthn() -> Webauthn {
    let rp_origin = Url::parse("https://localhost").expect("origin url");
    WebauthnBuilder::new("localhost", &rp_origin)
        .expect("builder")
        .build()
        .expect("webauthn")
}

fn origin() -> Url {
    Url::parse("https://localhost").expect("origin url")
}

#[test]
fn full_registration_and_authentication_ceremony() {
    let webauthn = make_webauthn();
    let mut authenticator = WebauthnAuthenticator::new(SoftPasskey::new(true));
    let mut db = Database::new();
    let mut session = SessionStore::new();

    // First request: start the registration ceremony.
    let ccr = start_registration(&webauthn, &mut session).expect("registration challenge");

    // The client's authenticator signs the challenge.
    let reg_response = authenticator
        .do_registration(origin(), ccr)
        .expect("client-side registration");

    // Second request: finish the ceremony inside its own transaction.
    let mut ctx = ExecutionContext::open(&db, 1);
    let h = ctx.handle();
    let r = finish_registration(&webauthn, &reg_response, &mut session, &mut ctx, &h);
    assert_eq!(r, Ok(()));
    let user_id = session.current_user().expect("session records the new user");
    assert_eq!(ctx.finalize(&mut db, Outcome::Success), Ok(()));

    // The committed credential is visible to a fresh transaction.
    let ctx2 = ExecutionContext::open(&db, 2);
    let h2 = ctx2.handle();
    let stored = ctx2.list_credentials(&h2, user_id).expect("list credentials");
    assert_eq!(stored.len(), 1);

    // Third request: start an authentication for that user.
    let mut session2 = SessionStore::new();
    let ctx3 = ExecutionContext::open(&db, 3);
    let h3 = ctx3.handle();
    let rcr = start_authentication(&webauthn, user_id, &mut session2, &ctx3, &h3)
        .expect("authentication challenge");

    let auth_response = authenticator
        .do_authentication(origin(), rcr)
        .expect("client-side authentication");

    // Fourth request: finish the authentication.
    let mut ctx4 = ExecutionContext::open(&db, 4);
    let h4 = ctx4.handle();
    let r = finish_authentication(&webauthn, &auth_response, &mut session2, &mut ctx4, &h4);
    assert_eq!(r, Ok(()));
    assert_eq!(session2.current_user(), Some(user_id));
    assert_eq!(ctx4.finalize(&mut db, Outcome::Success), Ok(()));

    // The authenticator's signature counter advanced, so the stored blob
    // was re-persisted with the updated counter.
    let ctx5 = ExecutionContext::open(&db, 5);
    let h5 = ctx5.handle();
    let after = ctx5.list_credentials(&h5, user_id).expect("list credentials");
    assert_eq!(after.len(), 1);
    assert_eq!(after[0].cred_id, stored[0].cred_id);
    assert_ne!(after[0].blob, stored[0].blob);
}

#[test]
fn successful_finish_then_replay_fails_no_pending() {
    let webauthn = make_webauthn();
    let mut authenticator = WebauthnAuthenticator::new(SoftPasskey::new(true));
    let mut db = Database::new();
    let mut session = SessionStore::new();

    let ccr = start_registration(&webauthn, &mut session).expect("registration challenge");
    let reg_response = authenticator
        .do_registration(origin(), ccr)
        .expect("client-side registration");

    let mut ctx = ExecutionContext::open(&db, 1);
    let h = ctx.handle();
    let r1 = finish_registration(&webauthn, &reg_response, &mut session, &mut ctx, &h);
    assert_eq!(r1, Ok(()));
    assert_eq!(ctx.finalize(&mut db, Outcome::Success), Ok(()));

    // A replay of the same finish request: the single-use state is gone.
    let mut ctx2 = ExecutionContext::open(&db, 2);
    let h2 = ctx2.handle();
    let r2 = finish_registration(&webauthn, &reg_response, &mut session, &mut ctx2, &h2);
    assert_eq!(r2, Err(AuthError::NoPendingCeremony));
}

#[test]
fn response_to_evicted_challenge_fails() {
    let webauthn = make_webauthn();
    let mut authenticator = WebauthnAuthenticator::new(SoftPasskey::new(true));
    let db = Database::new();
    let mut session = SessionStore::new();

    // Sign the first challenge, but restart the ceremony before
    // finishing: the first ceremony's state is evicted.
    let c1 = start_registration(&webauthn, &mut session).expect("first challenge");
    let stale_response = authenticator
        .do_registration(origin(), c1)
        .expect("client-side registration");
    let _c2 = start_registration(&webauthn, &mut session).expect("second challenge");

    // The stale response cannot complete the ceremony now pending.
    let mut ctx = ExecutionContext::open(&db, 1);
    let h = ctx.handle();
    let r = finish_registration(&webauthn, &stale_response, &mut session, &mut ctx, &h);
    assert_eq!(r, Err(AuthError::CryptoVerificationFailed));

    // And the consumed slot makes any further finish fail outright.
    let r2 = finish_registration(&webauthn, &stale_response, &mut session, &mut ctx, &h);
    assert_eq!(r2, Err(AuthError::NoPendingCeremony));
}
