use vstd::prelude::*;

use crate::context::{CtxModel, ExecutionContext, Outcome};
use crate::engine::{finish_session_contract, registration_persisted};
use crate::errors::AuthError;
use crate::session::ChallengeState;
use crate::store::{apply_ops, CredModel, StoreModel};

verus! {

/// A pending ceremony is consumed by the first finish attempt: whatever
/// the first finish returned — success, a crypto failure, a store error —
/// a second finish on the same session, with no new ceremony begun in
/// between, always fails with `NoPendingCeremony`.
pub proof fn lemma_finish_single_use(
    p0: Option<ChallengeState>,
    p1: Option<ChallengeState>,
    p2: Option<ChallengeState>,
    r1: Result<(), AuthError>,
    r2: Result<(), AuthError>,
    reg1: bool,
    reg2: bool,
)
    requires
        finish_session_contract(p0, p1, r1, reg1),
        finish_session_contract(p1, p2, r2, reg2),
    ensures
        r2 == Err::<(), AuthError>(AuthError::NoPendingCeremony),
{
}

/// Finalization is single-shot: whatever the first finalization did,
/// a second finalization of the same context is rejected as a defect —
/// it returns `InternalError` and changes neither the context nor the
/// committed store. It never silently succeeds.
pub proof fn lemma_finalize_once(
    c0: CtxModel,
    c1: CtxModel,
    c2: CtxModel,
    db0: StoreModel,
    db1: StoreModel,
    db2: StoreModel,
    o1: Outcome,
    o2: Outcome,
    r1: Result<(), AuthError>,
    r2: Result<(), AuthError>,
)
    requires
        ExecutionContext::finalize_rel(c0, db0, c1, db1, o1, r1),
        ExecutionContext::finalize_rel(c1, db1, c2, db2, o2, r2),
    ensures
        r2 == Err::<(), AuthError>(AuthError::InternalError),
        c2 == c1,
        db2 == db1,
{
}

/// A finalization publishes either nothing or the whole transaction:
/// the store after it is either exactly the store before it, or exactly
/// the store with the transaction's full log applied. No reader of the
/// committed store can ever observe a prefix of a transaction — in
/// particular, never a registration's user row without its credential.
pub proof fn lemma_finalize_atomic(
    c0: CtxModel,
    c1: CtxModel,
    db0: StoreModel,
    db1: StoreModel,
    outcome: Outcome,
    r: Result<(), AuthError>,
)
    requires
        ExecutionContext::finalize_rel(c0, db0, c1, db1, outcome, r),
    ensures
        db1 == db0 || (apply_ops(db0, c0.log) matches Some(m) && db1 == m && r == Ok::<
            (),
            AuthError,
        >(())),
{
}

/// Round trip: the credential staged by a successful registration is
/// listed for its user by the same transaction before commit; and the
/// transaction's log, replayed on the store the transaction was opened
/// from, yields exactly its staged view — so a fresh transaction opened
/// after that commit lists the credential too.
pub proof fn lemma_registration_round_trip(
    pre: CtxModel,
    post: CtxModel,
    user_id: u128,
    cred_id: Seq<u8>,
    blob: Seq<u8>,
    now: i64,
)
    requires
        post.wf(),
        registration_persisted(pre, post, user_id, cred_id, blob, now),
    ensures
        post.staged.creds.filter(|c: CredModel| c.user_id == user_id).contains(
            CredModel { cred_id, user_id, blob },
        ),
        post.base == pre.base,
        apply_ops(post.base, post.log) == Some(post.staged),
{
    let c = CredModel { cred_id, user_id, blob };
    let pred = |c: CredModel| c.user_id == user_id;
    let n = post.staged.creds.len() - 1;
    assert(post.staged.creds[n] == c);
    post.staged.creds.lemma_filter_contains(pred, n);
}

} // verus!
