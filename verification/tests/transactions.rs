use passkey_auth::context::{Database, ExecutionContext, Outcome};
use passkey_auth::engine::{finish_authentication_decide, finish_registration_persist, CredentialUpdate};
use passkey_auth::errors::AuthError;
use passkey_auth::guard::OwnerGuard;
use passkey_auth::session::SessionStore;
use passkey_auth::store::CredentialRecord;

/// Commits one user with one credential and returns the store.
fn registered_db(user_id: u128, cred_id: Vec<u8>, blob: Vec<u8>) -> Database {
    let mut db = Database::new();
    let mut ctx = ExecutionContext::open(&db, 1);
    let h = ctx.handle();
    let mut session = SessionStore::new();
    let r = finish_registration_persist(&mut session, &mut ctx, &h, user_id, cred_id, blob, 1000);
    assert_eq!(r, Ok(()));
    assert_eq!(ctx.finalize(&mut db, Outcome::Success), Ok(()));
    db
}

#[test]
fn finalize_twice_is_rejected() {
    let mut db = Database::new();
    let mut ctx = ExecutionContext::open(&db, 1);
    assert_eq!(ctx.finalize(&mut db, Outcome::Success), Ok(()));
    assert_eq!(ctx.finalize(&mut db, Outcome::Success), Err(AuthError::InternalError));
    assert_eq!(ctx.finalize(&mut db, Outcome::Failure), Err(AuthError::InternalError));
}

#[test]
fn credential_round_trip_before_and_after_commit() {
    let mut db = Database::new();
    let mut ctx = ExecutionContext::open(&db, 7);
    let h = ctx.handle();
    let mut session = SessionStore::new();

    let r = finish_registration_persist(
        &mut session,
        &mut ctx,
        &h,
        77,
        vec![1, 2, 3],
        vec![9, 9],
        123456,
    );
    assert_eq!(r, Ok(()));
    assert_eq!(session.user, Some(77));

    // Same transaction, before commit.
    let listed = ctx.list_credentials(&h, 77).expect("list in tx");
    assert_eq!(listed.len(), 1);
    assert_eq!(listed[0].cred_id, vec![1, 2, 3]);
    assert_eq!(listed[0].blob, vec![9, 9]);

    // Fresh transaction, after commit.
    assert_eq!(ctx.finalize(&mut db, Outcome::Success), Ok(()));
    let ctx2 = ExecutionContext::open(&db, 8);
    let h2 = ctx2.handle();
    let listed2 = ctx2.list_credentials(&h2, 77).expect("list after commit");
    assert_eq!(listed2.len(), 1);
    assert_eq!(listed2[0].cred_id, vec![1, 2, 3]);
    assert_eq!(listed2[0].blob, vec![9, 9]);
}

#[test]
fn rejected_authentication_still_persists_counter_update() {
    let mut db = registered_db(5, vec![4, 4], vec![1]);
    let mut ctx = ExecutionContext::open(&db, 2);
    let h = ctx.handle();
    let mut session = SessionStore::new();

    // The verifier reported user_verified = false, but a counter update
    // was needed: the update must be staged, and the call must fail with
    // AuthenticationRejected.
    let updates = vec![CredentialUpdate { cred_id: vec![4, 4], blob: vec![2] }];
    let r = finish_authentication_decide(&mut session, &mut ctx, &h, 5, false, &updates);
    assert_eq!(r, Err(AuthError::AuthenticationRejected));
    assert_eq!(session.user, None);

    let listed = ctx.list_credentials(&h, 5).expect("list in tx");
    assert_eq!(listed.len(), 1);
    assert_eq!(listed[0].blob, vec![2]);

    // The updates belong to the request's transaction: when the request
    // otherwise succeeds, they commit.
    assert_eq!(ctx.finalize(&mut db, Outcome::Success), Ok(()));
    let ctx2 = ExecutionContext::open(&db, 3);
    let h2 = ctx2.handle();
    let listed2 = ctx2.list_credentials(&h2, 5).expect("list after commit");
    assert_eq!(listed2[0].blob, vec![2]);
}

#[test]
fn verified_authentication_records_user() {
    let db = registered_db(5, vec![4, 4], vec![1]);
    let mut ctx = ExecutionContext::open(&db, 2);
    let h = ctx.handle();
    let mut session = SessionStore::new();

    let updates: Vec<CredentialUpdate> = Vec::new();
    let r = finish_authentication_decide(&mut session, &mut ctx, &h, 5, true, &updates);
    assert_eq!(r, Ok(()));
    assert_eq!(session.user, Some(5));
}

#[test]
fn colliding_registrations_exactly_one_commits() {
    let mut db = Database::new();

    // Two concurrent requests, both opened on the same store, both
    // registering the same identifiers.
    let mut ctx1 = ExecutionContext::open(&db, 1);
    let mut ctx2 = ExecutionContext::open(&db, 2);
    let h1 = ctx1.handle();
    let h2 = ctx2.handle();
    let mut s1 = SessionStore::new();
    let mut s2 = SessionStore::new();

    let r1 = finish_registration_persist(&mut s1, &mut ctx1, &h1, 9, vec![7], vec![1], 10);
    let r2 = finish_registration_persist(&mut s2, &mut ctx2, &h2, 9, vec![7], vec![2], 20);
    assert_eq!(r1, Ok(()));
    assert_eq!(r2, Ok(()));

    // The first commit wins; the second is rejected by the uniqueness
    // constraint, and publishes nothing.
    assert_eq!(ctx1.finalize(&mut db, Outcome::Success), Ok(()));
    assert_eq!(ctx2.finalize(&mut db, Outcome::Success), Err(AuthError::ConstraintViolation));

    // A third reader sees exactly the winner's rows: one user, one
    // credential, never a user without its credential.
    let ctx3 = ExecutionContext::open(&db, 3);
    let h3 = ctx3.handle();
    let listed = ctx3.list_credentials(&h3, 9).expect("list");
    assert_eq!(listed.len(), 1);
    assert_eq!(listed[0].blob, vec![1]);
    assert_eq!(ctx3.user_exists_now(&h3, 9), Ok(true));
}

#[test]
fn add_credential_requires_existing_user() {
    let db = Database::new();
    let mut ctx = ExecutionContext::open(&db, 1);
    let h = ctx.handle();
    let r = ctx.add_credential(
        &h,
        CredentialRecord { cred_id: vec![1], user_id: 3, blob: vec![0] },
    );
    assert_eq!(r, Err(AuthError::ConstraintViolation));
}

#[test]
fn duplicate_credential_id_is_rejected() {
    let db = registered_db(5, vec![4, 4], vec![1]);
    let mut ctx = ExecutionContext::open(&db, 2);
    let h = ctx.handle();
    let mut session = SessionStore::new();
    // A different user, but the credential identifier is already taken.
    let r = finish_registration_persist(&mut session, &mut ctx, &h, 6, vec![4, 4], vec![2], 30);
    assert_eq!(r, Err(AuthError::ConstraintViolation));
    // Nothing was staged: the other user still does not exist.
    assert_eq!(ctx.user_exists_now(&h, 6), Ok(false));
}

#[test]
fn update_of_missing_credential_fails_not_found() {
    let db = Database::new();
    let mut ctx = ExecutionContext::open(&db, 1);
    let h = ctx.handle();
    let r = ctx.update_credential(&h, &vec![9, 9], vec![1]);
    assert_eq!(r, Err(AuthError::NotFound));
}

#[test]
fn missing_update_target_fails_not_found_atomically() {
    let db = registered_db(5, vec![4, 4], vec![1]);
    let mut ctx = ExecutionContext::open(&db, 2);
    let h = ctx.handle();
    let mut session = SessionStore::new();
    let updates = vec![
        CredentialUpdate { cred_id: vec![4, 4], blob: vec![2] },
        CredentialUpdate { cred_id: vec![5, 5], blob: vec![3] },
    ];
    let r = finish_authentication_decide(&mut session, &mut ctx, &h, 5, true, &updates);
    assert_eq!(r, Err(AuthError::NotFound));
    // Checked before staging: the existing credential is untouched.
    let listed = ctx.list_credentials(&h, 5).expect("list");
    assert_eq!(listed[0].blob, vec![1]);
}

#[test]
fn borrow_after_finalize_fails_loudly() {
    let mut db = Database::new();
    let mut ctx = ExecutionContext::open(&db, 1);
    let h = ctx.handle();
    assert_eq!(ctx.finalize(&mut db, Outcome::Failure), Ok(()));

    // Every use of the handle after finalization is an internal error,
    // never silently ignored.
    assert_eq!(ctx.list_credentials(&h, 1).unwrap_err(), AuthError::InternalError);
    assert_eq!(ctx.user_exists_now(&h, 1), Err(AuthError::InternalError));
    assert_eq!(ctx.update_credential(&h, &vec![1], vec![2]), Err(AuthError::InternalError));
    let mut session = SessionStore::new();
    let r = finish_registration_persist(&mut session, &mut ctx, &h, 1, vec![1], vec![2], 0);
    assert_eq!(r, Err(AuthError::InternalError));
}

#[test]
fn foreign_handle_is_rejected() {
    let db = Database::new();
    let ctx1 = ExecutionContext::open(&db, 1);
    let ctx2 = ExecutionContext::open(&db, 2);
    let h1 = ctx1.handle();
    assert_eq!(ctx2.list_credentials(&h1, 1).unwrap_err(), AuthError::InternalError);
}

#[test]
fn failure_outcome_rolls_back() {
    let mut db = Database::new();
    let mut ctx = ExecutionContext::open(&db, 1);
    let h = ctx.handle();
    let mut session = SessionStore::new();
    let r = finish_registration_persist(&mut session, &mut ctx, &h, 1, vec![1], vec![2], 0);
    assert_eq!(r, Ok(()));
    assert_eq!(ctx.finalize(&mut db, Outcome::Failure), Ok(()));

    let ctx2 = ExecutionContext::open(&db, 2);
    let h2 = ctx2.handle();
    assert_eq!(ctx2.user_exists_now(&h2, 1), Ok(false));
    assert_eq!(ctx2.list_credentials(&h2, 1).expect("list").len(), 0);
}

#[test]
fn error_descriptions_do_not_leak_detail() {
    assert_eq!(AuthError::NoPendingCeremony.describe(), "authentication failed");
    assert_eq!(AuthError::CryptoVerificationFailed.describe(), "authentication failed");
    assert_eq!(AuthError::AuthenticationRejected.describe(), "authentication failed");
    assert_eq!(AuthError::UnknownUser.describe(), "authentication failed");
    assert_eq!(AuthError::ConstraintViolation.describe(), "internal error");
    assert_eq!(AuthError::NotFound.describe(), "internal error");
    assert_eq!(AuthError::InternalError.describe(), "internal error");
}

#[test]
fn owner_guard_permits_only_owner() {
    let g = OwnerGuard::new(5);
    assert!(g.permits(Some(5)));
    assert!(!g.permits(Some(6)));
    assert!(!g.permits(None));
}
