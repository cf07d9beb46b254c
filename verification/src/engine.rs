use vstd::prelude::*;

use webauthn_rs::prelude::{
    CreationChallengeResponse, PublicKeyCredential, RegisterPublicKeyCredential,
    RequestChallengeResponse,
};
use webauthn_rs::Webauthn;

use crate::context::{CtxModel, ExecutionContext, TxHandle};
use crate::crypto;
use crate::errors::AuthError;
use crate::session::{ChallengeState, SessionStore};
use crate::store::{
    apply_op, apply_ops, clone_bytes, cred_exists, user_exists, user_has_cred, CredModel,
    CredentialRecord, OpModel, StoreModel, User,
};

verus! {

/// What every finish step guarantees of the session, whatever the
/// verifier decided: the pending ceremony state is consumed, and the
/// finish fails with `NoPendingCeremony` exactly when no pending state of
/// the matching kind was there to consume — so a replayed finish request
/// fails, and a finish that did find its ceremony reports anything but
/// `NoPendingCeremony`.
pub open spec fn finish_session_contract(
    pre: Option<ChallengeState>,
    post: Option<ChallengeState>,
    r: Result<(), AuthError>,
    registration: bool,
) -> bool {
    &&& post is None
    &&& registration ==> (r == Err::<(), AuthError>(AuthError::NoPendingCeremony) <==> !(pre
        matches Some(ChallengeState::RegistrationInFlight { .. })))
    &&& !registration ==> (r == Err::<(), AuthError>(AuthError::NoPendingCeremony) <==> !(pre
        matches Some(ChallengeState::AuthenticationInFlight { .. })))
}

/// One credential whose stored blob must be re-persisted after an
/// authentication attempt: the verifier advanced its internal signature
/// counter (or backup state), and skipping the write would degrade
/// counter-based replay detection.
#[derive(Debug)]
pub struct CredentialUpdate {
    pub cred_id: Vec<u8>,
    pub blob: Vec<u8>,
}

/// The mathematical model of a staged counter update.
pub struct UpdateModel {
    pub cred_id: Seq<u8>,
    pub blob: Seq<u8>,
}

impl View for CredentialUpdate {
    type V = UpdateModel;

    open spec fn view(&self) -> UpdateModel {
        UpdateModel { cred_id: self.cred_id@, blob: self.blob@ }
    }
}

/// The store writes that a list of counter updates stages.
pub open spec fn upd_ops(us: Seq<UpdateModel>) -> Seq<OpModel> {
    us.map_values(|u: UpdateModel| OpModel::UpdateCred { cred_id: u.cred_id, blob: u.blob })
}

/// Whether every update targets a credential that the store still holds.
pub open spec fn updates_exist(m: StoreModel, us: Seq<UpdateModel>) -> bool {
    forall|k: int| 0 <= k < us.len() ==> cred_exists(m, #[trigger] us[k].cred_id)
}

/// Counter updates that all target existing credentials are always
/// accepted by the store, and never add or remove a credential.
pub proof fn lemma_updates_apply(m: StoreModel, us: Seq<UpdateModel>)
    requires
        updates_exist(m, us),
    ensures
        apply_ops(m, upd_ops(us)) is Some,
        forall|cid: Seq<u8>|
            cred_exists(apply_ops(m, upd_ops(us))->Some_0, cid) <==> cred_exists(m, cid),
    decreases us.len(),
{
    if us.len() == 0 {
        assert(upd_ops(us) =~= Seq::<OpModel>::empty());
    } else {
        let pre = us.drop_last();
        assert(updates_exist(m, pre)) by {
            assert(forall|k: int| 0 <= k < pre.len() ==> pre[k] == us[k]);
        }
        lemma_updates_apply(m, pre);
        let mid = apply_ops(m, upd_ops(pre))->Some_0;
        assert(cred_exists(mid, us.last().cred_id)) by {
            assert(cred_exists(m, us[us.len() - 1].cred_id));
        }
        assert(upd_ops(us).drop_last() =~= upd_ops(pre));
        assert(upd_ops(us).last() == OpModel::UpdateCred {
            cred_id: us.last().cred_id,
            blob: us.last().blob,
        });
        let m2 = apply_op(mid, upd_ops(us).last())->Some_0;
        crate::store::lemma_update_keeps_creds(mid, us.last().cred_id, us.last().blob, m2);
    }
}

/// Begins a registration ceremony: evicts any prior in-flight ceremony,
/// draws a fresh user identifier, asks the verifier for a challenge, and
/// parks the opaque registration state in the session. No database write
/// happens here — the user row is created only when the ceremony
/// completes, so an abandoned ceremony leaves no orphaned row behind.
pub fn start_registration(webauthn: &Webauthn, session: &mut SessionStore) -> (r: Result<
    CreationChallengeResponse,
    AuthError,
>)
    ensures
        final(session).user == old(session).user,
        r is Ok ==> (final(session).pending matches Some(
            ChallengeState::RegistrationInFlight { .. },
        )),
        r is Err ==> final(session).pending is None && r == Err::<
            CreationChallengeResponse,
            AuthError,
        >(AuthError::InternalError),
{
    let _ = session.take();
    let user_id = crypto::fresh_user_id();
    match crypto::webauthn_start_registration(webauthn, user_id) {
        Ok((ccr, reg_state)) => {
            session.begin_registration(user_id, reg_state);
            Ok(ccr)
        },
        Err(_) => Err(AuthError::InternalError),
    }
}

/// The transaction transition of a completed registration: the new user
/// row and its credential staged together, atomically.
pub open spec fn registration_persisted(
    pre: CtxModel,
    post: CtxModel,
    user_id: u128,
    cred_id: Seq<u8>,
    blob: Seq<u8>,
    now: i64,
) -> bool {
    post == (CtxModel {
        staged: StoreModel {
            users: pre.staged.users.push(User { id: user_id, registered_at: now }),
            creds: pre.staged.creds.push(CredModel { cred_id, user_id, blob }),
        },
        log: pre.log.push(OpModel::InsertUser(User { id: user_id, registered_at: now })).push(
            OpModel::InsertCred(CredModel { cred_id, user_id, blob }),
        ),
        ..pre
    })
}

/// Persists the outcome of a verified registration, all inside the
/// request's transaction: the new user row, then the verified credential,
/// both staged atomically — when either uniqueness constraint rejects the
/// pair, nothing is staged, so no user-without-credential state can ever
/// be committed. On success the session records the new user as its
/// logged-in identity.
pub fn finish_registration_persist(
    session: &mut SessionStore,
    ctx: &mut ExecutionContext,
    h: &TxHandle,
    user_id: u128,
    cred_id: Vec<u8>,
    blob: Vec<u8>,
    now: i64,
) -> (r: Result<(), AuthError>)
    requires
        old(ctx)@.wf(),
    ensures
        final(ctx)@.wf(),
        final(session).pending == old(session).pending,
        !old(ctx)@.valid_handle(*h) ==> r == Err::<(), AuthError>(AuthError::InternalError)
            && final(ctx)@ == old(ctx)@ && final(session).user == old(session).user,
        old(ctx)@.valid_handle(*h) ==> (if user_exists(old(ctx)@.staged, user_id) || cred_exists(
            old(ctx)@.staged,
            cred_id@,
        ) {
            r == Err::<(), AuthError>(AuthError::ConstraintViolation) && final(ctx)@ == old(ctx)@
                && final(session).user == old(session).user
        } else {
            r == Ok::<(), AuthError>(()) && final(session).user == Some(user_id)
                && registration_persisted(old(ctx)@, final(ctx)@, user_id, cred_id@, blob@, now)
        }),
{
    let user_taken = match ctx.user_exists_now(h, user_id) {
        Err(e) => {
            return Err(e);
        },
        Ok(b) => b,
    };
    let cred_taken = match ctx.cred_exists_now(h, &cred_id) {
        Err(e) => {
            return Err(e);
        },
        Ok(b) => b,
    };
    if user_taken || cred_taken {
        return Err(AuthError::ConstraintViolation);
    }
    let ghost cid = cred_id@;
    let user = User { id: user_id, registered_at: now };
    match ctx.insert_user(h, user) {
        Ok(()) => (),
        Err(e) => {
            proof {
                assert(false);
            }
            return Err(e);
        },
    }
    proof {
        let m1 = ctx@.staged;
        assert(m1.users.last().id == user_id);
        assert(user_exists(m1, user_id)) by {
            assert(m1.users[m1.users.len() - 1].id == user_id);
        }
        assert(m1.creds == old(ctx)@.staged.creds);
        assert(!cred_exists(m1, cid));
    }
    let rec = CredentialRecord { cred_id, user_id, blob };
    match ctx.add_credential(h, rec) {
        Ok(()) => (),
        Err(e) => {
            proof {
                assert(false);
            }
            return Err(e);
        },
    }
    session.set_user(user_id);
    Ok(())
}

/// Completes a registration ceremony: consumes the pending session state
/// (exactly once — a replay finds nothing and fails), hands the client's
/// signed response with that state to the cryptographic verifier, and on
/// success persists the new user and credential inside the request's
/// transaction.
pub fn finish_registration(
    webauthn: &Webauthn,
    req: &RegisterPublicKeyCredential,
    session: &mut SessionStore,
    ctx: &mut ExecutionContext,
    h: &TxHandle,
) -> (r: Result<(), AuthError>)
    requires
        old(ctx)@.wf(),
    ensures
        final(ctx)@.wf(),
        finish_session_contract(old(session).pending, final(session).pending, r, true),
        r is Err ==> final(ctx)@ == old(ctx)@ && final(session).user == old(session).user,
        r is Ok ==> (old(session).pending matches Some(
            ChallengeState::RegistrationInFlight { user_id, .. },
        ) && final(session).user == Some(user_id) && user_exists(final(ctx)@.staged, user_id)
            && (exists|cid: Seq<u8>, b: Seq<u8>, t: i64|
            registration_persisted(old(ctx)@, final(ctx)@, user_id, cid, b, t))),
{
    match session.take() {
        None => Err(AuthError::NoPendingCeremony),
        Some(ChallengeState::AuthenticationInFlight { .. }) => Err(AuthError::NoPendingCeremony),
        Some(ChallengeState::RegistrationInFlight { user_id, reg_state }) => {
            match crypto::webauthn_finish_registration(webauthn, req, &reg_state) {
                Err(_) => Err(AuthError::CryptoVerificationFailed),
                Ok(passkey) => {
                    let cred_id = crypto::passkey_cred_id(&passkey);
                    let blob = match crypto::passkey_to_bytes(&passkey) {
                        Err(_) => {
                            return Err(AuthError::InternalError);
                        },
                        Ok(b) => b,
                    };
                    let now = crypto::now_micros();
                    let ghost gcid = cred_id@;
                    let ghost gblob = blob@;
                    let res = finish_registration_persist(
                        session,
                        ctx,
                        h,
                        user_id,
                        cred_id,
                        blob,
                        now,
                    );
                    proof {
                        if res is Ok {
                            let m = ctx@.staged;
                            assert(user_exists(m, user_id)) by {
                                assert(m.users[m.users.len() - 1].id == user_id);
                            }
                            assert(registration_persisted(
                                old(ctx)@,
                                ctx@,
                                user_id,
                                gcid,
                                gblob,
                                now,
                            ));
                        }
                    }
                    res
                },
            }
        },
    }
}

/// Begins an authentication ceremony for the claimed user: evicts any
/// prior in-flight ceremony, loads the user's credentials inside the
/// request's transaction, asks the verifier for a challenge covering all
/// of them, and parks the opaque authentication state in the session.
/// A user with no credentials fails with `UnknownUser` — responding with
/// a shape indistinguishable from a real user's would be a further
/// hardening step this subsystem does not take.
#[verifier::loop_isolation(false)]
pub fn start_authentication(
    webauthn: &Webauthn,
    claimed_user: u128,
    session: &mut SessionStore,
    ctx: &ExecutionContext,
    h: &TxHandle,
) -> (r: Result<RequestChallengeResponse, AuthError>)
    ensures
        final(session).user == old(session).user,
        !ctx@.valid_handle(*h) ==> r == Err::<RequestChallengeResponse, AuthError>(
            AuthError::InternalError,
        ),
        ctx@.valid_handle(*h) ==> (r == Err::<RequestChallengeResponse, AuthError>(
            AuthError::UnknownUser,
        ) <==> !user_has_cred(ctx@.staged, claimed_user)),
        r is Ok ==> (final(session).pending matches Some(
            ChallengeState::AuthenticationInFlight { user_id, .. },
        ) && user_id == claimed_user),
        r is Err ==> final(session).pending is None,
{
    let _ = session.take();
    let records = match ctx.list_credentials(h, claimed_user) {
        Err(e) => {
            return Err(e);
        },
        Ok(v) => v,
    };
    proof {
        crate::store::lemma_user_has_cred_filter(ctx@.staged, claimed_user);
        assert(records@.len() == ctx@.staged.creds.filter(
            |c: CredModel| c.user_id == claimed_user,
        ).len());
    }
    if records.len() == 0 {
        return Err(AuthError::UnknownUser);
    }
    let mut passkeys: Vec<webauthn_rs::prelude::Passkey> = Vec::new();
    let mut i: usize = 0;
    while i < records.len()
        decreases records.len() - i,
    {
        match crypto::passkey_from_bytes(&records[i].blob) {
            Err(_) => {
                return Err(AuthError::InternalError);
            },
            Ok(p) => passkeys.push(p),
        }
        i += 1;
    }
    match crypto::webauthn_start_authentication(webauthn, &passkeys) {
        Err(_) => Err(AuthError::InternalError),
        Ok((rcr, auth_state)) => {
            session.begin_authentication(claimed_user, auth_state);
            Ok(rcr)
        },
    }
}

/// The decision step of an authentication finish, once the verifier has
/// spoken: first persists every needed counter update inside the
/// request's transaction — even when the authentication is ultimately
/// rejected, since counter bookkeeping is independent of the
/// accept/reject decision — and only then evaluates the verifier's
/// user-verification flag: if it is false the call fails with
/// `AuthenticationRejected`, with the counter updates still staged; if it
/// is true the session records the user as logged in.
#[verifier::loop_isolation(false)]
pub fn finish_authentication_decide(
    session: &mut SessionStore,
    ctx: &mut ExecutionContext,
    h: &TxHandle,
    user_id: u128,
    user_verified: bool,
    updates: &Vec<CredentialUpdate>,
) -> (r: Result<(), AuthError>)
    requires
        old(ctx)@.wf(),
    ensures
        final(ctx)@.wf(),
        final(session).pending == old(session).pending,
        !old(ctx)@.valid_handle(*h) ==> r == Err::<(), AuthError>(AuthError::InternalError)
            && final(ctx)@ == old(ctx)@ && final(session).user == old(session).user,
        old(ctx)@.valid_handle(*h) ==> (if !updates_exist(
            old(ctx)@.staged,
            updates@.map_values(|u: CredentialUpdate| u@),
        ) {
            r == Err::<(), AuthError>(AuthError::NotFound) && final(ctx)@ == old(ctx)@
                && final(session).user == old(session).user
        } else {
            &&& final(ctx)@ == (CtxModel {
                staged: apply_ops(
                    old(ctx)@.staged,
                    upd_ops(updates@.map_values(|u: CredentialUpdate| u@)),
                )->Some_0,
                log: old(ctx)@.log + upd_ops(updates@.map_values(|u: CredentialUpdate| u@)),
                ..old(ctx)@
            })
            &&& user_verified ==> r == Ok::<(), AuthError>(()) && final(session).user == Some(
                user_id,
            )
            &&& !user_verified ==> r == Err::<(), AuthError>(AuthError::AuthenticationRejected)
                && final(session).user == old(session).user
        }),
{
    if !ctx.is_valid(h) {
        return Err(AuthError::InternalError);
    }
    let ghost ups = updates@.map_values(|u: CredentialUpdate| u@);
    let mut k: usize = 0;
    while k < updates.len()
        invariant
            0 <= k <= updates.len(),
            ups == updates@.map_values(|u: CredentialUpdate| u@),
            ctx@ == old(ctx)@,
            old(ctx)@.valid_handle(*h),
            forall|j: int| 0 <= j < k ==> cred_exists(ctx@.staged, #[trigger] ups[j].cred_id),
        decreases updates.len() - k,
    {
        match ctx.cred_exists_now(h, &updates[k].cred_id) {
            Err(e) => {
                proof {
                    assert(false);
                }
                return Err(e);
            },
            Ok(false) => {
                proof {
                    assert(!cred_exists(old(ctx)@.staged, ups[k as int].cred_id));
                }
                return Err(AuthError::NotFound);
            },
            Ok(true) => {
                proof {
                    assert(cred_exists(ctx@.staged, ups[k as int].cred_id));
                }
            },
        }
        k += 1;
    }
    proof {
        assert(updates_exist(old(ctx)@.staged, ups));
        lemma_updates_apply(old(ctx)@.staged, ups);
    }
    let ghost pre = ctx@;
    let mut k: usize = 0;
    while k < updates.len()
        invariant
            0 <= k <= updates.len(),
            ups == updates@.map_values(|u: CredentialUpdate| u@),
            pre == old(ctx)@,
            pre.wf(),
            pre.valid_handle(*h),
            ctx@.wf(),
            ctx@.id == pre.id,
            ctx@.finalized == pre.finalized,
            ctx@.base == pre.base,
            apply_ops(pre.staged, upd_ops(ups.take(k as int))) == Some(ctx@.staged),
            ctx@.log == pre.log + upd_ops(ups.take(k as int)),
            updates_exist(ctx@.staged, ups),
        decreases updates.len() - k,
    {
        let ghost staged_k = ctx@.staged;
        let ghost op = OpModel::UpdateCred { cred_id: ups[k as int].cred_id, blob: ups[k as int].blob };
        let nb = clone_bytes(&updates[k].blob);
        match ctx.update_credential(h, &updates[k].cred_id, nb) {
            Ok(()) => (),
            Err(e) => {
                proof {
                    assert(cred_exists(staged_k, ups[k as int].cred_id));
                    assert(false);
                }
                return Err(e);
            },
        }
        proof {
            assert(apply_op(staged_k, op) == Some(ctx@.staged));
            crate::store::lemma_apply_ops_push(pre.staged, upd_ops(ups.take(k as int)), op);
            assert(upd_ops(ups.take(k as int)).push(op) =~= upd_ops(ups.take(k + 1)));
            assert(ctx@.log =~= pre.log + upd_ops(ups.take(k + 1)));
            crate::store::lemma_update_keeps_creds(
                staged_k,
                ups[k as int].cred_id,
                ups[k as int].blob,
                ctx@.staged,
            );
            assert forall|j: int| 0 <= j < ups.len() implies cred_exists(
                ctx@.staged,
                #[trigger] ups[j].cred_id,
            ) by {
                assert(cred_exists(staged_k, ups[j].cred_id));
            }
        }
        k += 1;
    }
    proof {
        assert(ups.take(updates@.len() as int) =~= ups);
    }
    if user_verified {
        session.set_user(user_id);
        Ok(())
    } else {
        Err(AuthError::AuthenticationRejected)
    }
}

/// Completes an authentication ceremony: consumes the pending session
/// state (exactly once), hands the client's signed response to the
/// cryptographic verifier, computes which stored credentials need their
/// counters re-persisted, and delegates the persist-then-decide step —
/// counter updates are staged even when the attempt is rejected.
#[verifier::loop_isolation(false)]
pub fn finish_authentication(
    webauthn: &Webauthn,
    req: &PublicKeyCredential,
    session: &mut SessionStore,
    ctx: &mut ExecutionContext,
    h: &TxHandle,
) -> (r: Result<(), AuthError>)
    requires
        old(ctx)@.wf(),
    ensures
        final(ctx)@.wf(),
        finish_session_contract(old(session).pending, final(session).pending, r, false),
        r is Err ==> final(session).user == old(session).user,
        r is Err && r != Err::<(), AuthError>(AuthError::AuthenticationRejected) ==> final(ctx)@
            == old(ctx)@,
        r is Ok ==> (old(session).pending matches Some(
            ChallengeState::AuthenticationInFlight { user_id, .. },
        ) && final(session).user == Some(user_id)),
        r != Err::<(), AuthError>(AuthError::NotFound),
        r is Ok || r == Err::<(), AuthError>(AuthError::AuthenticationRejected) ==> (exists|
            ups: Seq<UpdateModel>,
        |
            updates_exist(old(ctx)@.staged, ups) && final(ctx)@ == (CtxModel {
                staged: apply_ops(old(ctx)@.staged, #[trigger] upd_ops(ups))->Some_0,
                log: old(ctx)@.log + upd_ops(ups),
                ..old(ctx)@
            })),
{
    match session.take() {
        None => Err(AuthError::NoPendingCeremony),
        Some(ChallengeState::RegistrationInFlight { .. }) => Err(AuthError::NoPendingCeremony),
        Some(ChallengeState::AuthenticationInFlight { user_id, auth_state }) => {
            match crypto::webauthn_finish_authentication(webauthn, req, &auth_state) {
                Err(_) => Err(AuthError::CryptoVerificationFailed),
                Ok(auth_result) => {
                    let user_verified = crypto::auth_result_user_verified(&auth_result);
                    let records = match ctx.list_credentials(h, user_id) {
                        Err(e) => {
                            return Err(e);
                        },
                        Ok(v) => v,
                    };
                    let ghost pred = |c: CredModel| c.user_id == user_id;
                    let mut updates: Vec<CredentialUpdate> = Vec::new();
                    let mut i: usize = 0;
                    while i < records.len()
                        invariant
                            pred == (|c: CredModel| c.user_id == user_id),
                            records@.map_values(|c: CredentialRecord| c@) == ctx@.staged
                                .creds.filter(pred),
                            forall|j: int|
                                0 <= j < updates@.len() ==> cred_exists(
                                    ctx@.staged,
                                    (#[trigger] updates@[j])@.cred_id,
                                ),
                        decreases records.len() - i,
                    {
                        let mut pk = match crypto::passkey_from_bytes(&records[i].blob) {
                            Err(_) => {
                                return Err(AuthError::InternalError);
                            },
                            Ok(p) => p,
                        };
                        match crypto::passkey_counter_update(&mut pk, &auth_result) {
                            Some(true) => {
                                let nb = match crypto::passkey_to_bytes(&pk) {
                                    Err(_) => {
                                        return Err(AuthError::InternalError);
                                    },
                                    Ok(b) => b,
                                };
                                let ghost prevups = updates@.map_values(
                                    |u: CredentialUpdate| u@,
                                );
                                let cid = clone_bytes(&records[i].cred_id);
                                updates.push(CredentialUpdate { cred_id: cid, blob: nb });
                                proof {
                                    let rv = records@.map_values(|c: CredentialRecord| c@);
                                    assert(rv[i as int] == records@[i as int]@);
                                    ctx@.staged.creds.lemma_filter_contains_rev(
                                        pred,
                                        rv[i as int],
                                    );
                                    let j = choose|j: int|
                                        0 <= j < ctx@.staged.creds.len() && ctx@.staged.creds[j]
                                            == rv[i as int];
                                    assert(cred_exists(ctx@.staged, records@[i as int]@.cred_id));
                                    assert(updates@.map_values(|u: CredentialUpdate| u@)
                                        =~= prevups.push(
                                        UpdateModel {
                                            cred_id: records@[i as int]@.cred_id,
                                            blob: nb@,
                                        },
                                    ));
                                }
                            },
                            _ => (),
                        }
                        i += 1;
                    }
                    proof {
                        let ups = updates@.map_values(|u: CredentialUpdate| u@);
                        assert forall|j: int| 0 <= j < ups.len() implies cred_exists(
                            ctx@.staged,
                            #[trigger] ups[j].cred_id,
                        ) by {
                            assert(ups[j] == updates@[j]@);
                        }
                        assert(updates_exist(ctx@.staged, ups));
                    }
                    let res = finish_authentication_decide(
                        session,
                        ctx,
                        h,
                        user_id,
                        user_verified,
                        &updates,
                    );
                    proof {
                        if res is Ok || res == Err::<(), AuthError>(
                            AuthError::AuthenticationRejected,
                        ) {
                            let ups = updates@.map_values(|u: CredentialUpdate| u@);
                            assert(updates_exist(old(ctx)@.staged, ups) && ctx@ == (CtxModel {
                                staged: apply_ops(old(ctx)@.staged, upd_ops(ups))->Some_0,
                                log: old(ctx)@.log + upd_ops(ups),
                                ..old(ctx)@
                            }));
                        }
                    }
                    res
                },
            }
        },
    }
}

} // verus!
