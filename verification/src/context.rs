use vstd::prelude::*;

use crate::errors::AuthError;
use crate::store::{
    apply_op, apply_op_exec, apply_ops, clone_cred, clone_tables, cred_exists,
    lemma_apply_op_wf, lemma_apply_ops_push, lemma_apply_ops_wf, lookup_cred, lookup_user,
    user_exists, wf_store, CredentialRecord, CredModel, Op, OpModel, StoreModel, Tables, User,
};

verus! {

/// The committed store: what every request sees when it opens a
/// transaction, and what a successful finalization publishes.
#[derive(Debug)]
pub struct Database {
    pub tables: Tables,
}

impl Database {
    pub open spec fn wf(self) -> bool {
        wf_store(self.tables@)
    }

    /// An empty store, trivially well-formed.
    pub fn new() -> (r: Database)
        ensures
            r.wf(),
            r.tables@.users =~= Seq::<User>::empty(),
            r.tables@.creds =~= Seq::<CredModel>::empty(),
    {
        Database { tables: Tables { users: Vec::new(), creds: Vec::new() } }
    }
}

/// How a request ended; decides whether its transaction commits.
#[derive(Clone, Copy, Debug, PartialEq, Eq, Structural)]
pub enum Outcome {
    Success,
    Failure,
}

/// A non-owning reference to one request's open transaction. Every use
/// must go back through the owning `ExecutionContext`, which checks the
/// handle and refuses it once the context is finalized: a borrow after
/// finalization is a programming/ordering defect, reported as
/// `InternalError`, never silently ignored.
#[derive(Clone, Copy, Debug, PartialEq, Eq, Structural)]
pub struct TxHandle {
    pub ctx_id: u64,
}

/// The mathematical model of an execution context.
pub struct CtxModel {
    pub id: u64,
    pub base: StoreModel,
    pub staged: StoreModel,
    pub log: Seq<OpModel>,
    pub finalized: bool,
}

/// One per inbound request: owns exactly one open transaction over the
/// store. `staged` is the transaction's view (the committed tables as seen
/// at open time, plus this request's own writes); `log` records those
/// writes so that finalization can replay them against the store under the
/// store's constraints.
///
/// The context is the transaction's only owner: a `TxHandle` carries no
/// part of the transaction itself, so no second ownership claim can
/// survive to finalization — a handle used out of turn is refused with
/// `InternalError` rather than silently keeping the transaction alive.
#[derive(Debug)]
pub struct ExecutionContext {
    pub id: u64,
    pub base: Tables,
    pub staged: Tables,
    pub log: Vec<Op>,
    pub finalized: bool,
}

impl View for ExecutionContext {
    type V = CtxModel;

    open spec fn view(&self) -> CtxModel {
        CtxModel {
            id: self.id,
            base: self.base@,
            staged: self.staged@,
            log: self.log@.map_values(|op: Op| op@),
            finalized: self.finalized,
        }
    }
}

impl CtxModel {
    /// The context's invariant: both views are well-formed and the staged
    /// view is exactly the base view with this request's writes applied.
    pub open spec fn wf(self) -> bool {
        &&& wf_store(self.base)
        &&& wf_store(self.staged)
        &&& apply_ops(self.base, self.log) == Some(self.staged)
    }

    /// Whether a handle may still reach this context's transaction.
    pub open spec fn valid_handle(self, h: TxHandle) -> bool {
        h.ctx_id == self.id && !self.finalized
    }
}

impl ExecutionContext {
    /// Begins one transaction for the request named by `request_id`: the
    /// staged view starts as a snapshot of the committed store.
    pub fn open(db: &Database, request_id: u64) -> (c: ExecutionContext)
        requires
            db.wf(),
        ensures
            c@.wf(),
            c@.id == request_id,
            !c@.finalized,
            c@.base == db.tables@,
            c@.staged == db.tables@,
            c@.log =~= Seq::<OpModel>::empty(),
    {
        let base = clone_tables(&db.tables);
        let staged = clone_tables(&db.tables);
        let c = ExecutionContext { id: request_id, base, staged, log: Vec::new(), finalized: false };
        proof {
            assert(c@.log =~= Seq::<OpModel>::empty());
        }
        c
    }

    /// Hands out a non-owning reference to this context's transaction.
    pub fn handle(&self) -> (h: TxHandle)
        ensures
            h.ctx_id == self@.id,
    {
        TxHandle { ctx_id: self.id }
    }

    /// Stages one write: checks the handle, applies the write to the
    /// staged view under the store's constraints, and records it in the
    /// log. The constraint failure surfaces as `ConstraintViolation`; a
    /// handle that no longer reaches an open transaction surfaces as
    /// `InternalError`.
    fn stage(&mut self, h: &TxHandle, op: Op) -> (r: Result<(), AuthError>)
        requires
            old(self)@.wf(),
        ensures
            final(self)@.wf(),
            !old(self)@.valid_handle(*h) ==> r == Err::<(), AuthError>(AuthError::InternalError)
                && final(self)@ == old(self)@,
            old(self)@.valid_handle(*h) ==> match apply_op(old(self)@.staged, op@) {
                Some(m) => r == Ok::<(), AuthError>(()) && final(self)@ == CtxModel {
                    staged: m,
                    log: old(self)@.log.push(op@),
                    ..old(self)@
                },
                None => r == Err::<(), AuthError>(AuthError::ConstraintViolation) && final(self)@
                    == old(self)@,
            },
    {
        if h.ctx_id != self.id || self.finalized {
            return Err(AuthError::InternalError);
        }
        let ghost pre = self@;
        let applied = apply_op_exec(&mut self.staged, &op);
        if !applied {
            proof {
                assert(self@ =~= pre);
            }
            return Err(AuthError::ConstraintViolation);
        }
        proof {
            lemma_apply_op_wf(pre.staged, op@, self.staged@);
        }
        self.log.push(op);
        proof {
            assert(self@.log =~= pre.log.push(op@));
            lemma_apply_ops_push(pre.base, pre.log, op@);
        }
        Ok(())
    }

    /// Inserts a new user row inside this request's transaction; rejected
    /// with `ConstraintViolation` when the identifier is already taken.
    pub fn insert_user(&mut self, h: &TxHandle, user: User) -> (r: Result<(), AuthError>)
        requires
            old(self)@.wf(),
        ensures
            final(self)@.wf(),
            !old(self)@.valid_handle(*h) ==> r == Err::<(), AuthError>(AuthError::InternalError)
                && final(self)@ == old(self)@,
            old(self)@.valid_handle(*h) ==> match apply_op(
                old(self)@.staged,
                OpModel::InsertUser(user),
            ) {
                Some(m) => r == Ok::<(), AuthError>(()) && final(self)@ == CtxModel {
                    staged: m,
                    log: old(self)@.log.push(OpModel::InsertUser(user)),
                    ..old(self)@
                },
                None => r == Err::<(), AuthError>(AuthError::ConstraintViolation) && final(self)@
                    == old(self)@,
            },
    {
        self.stage(h, Op::InsertUser(user))
    }

    /// Inserts one credential row inside this request's transaction; fails
    /// with `ConstraintViolation` when the owning user does not exist or
    /// the credential identifier is already taken.
    pub fn add_credential(&mut self, h: &TxHandle, cred: CredentialRecord) -> (r: Result<
        (),
        AuthError,
    >)
        requires
            old(self)@.wf(),
        ensures
            final(self)@.wf(),
            !old(self)@.valid_handle(*h) ==> r == Err::<(), AuthError>(AuthError::InternalError)
                && final(self)@ == old(self)@,
            old(self)@.valid_handle(*h) ==> match apply_op(
                old(self)@.staged,
                OpModel::InsertCred(cred@),
            ) {
                Some(m) => r == Ok::<(), AuthError>(()) && final(self)@ == CtxModel {
                    staged: m,
                    log: old(self)@.log.push(OpModel::InsertCred(cred@)),
                    ..old(self)@
                },
                None => r == Err::<(), AuthError>(AuthError::ConstraintViolation) && final(self)@
                    == old(self)@,
            },
    {
        self.stage(h, Op::InsertCred(cred))
    }

    /// Overwrites the opaque blob of one credential inside this request's
    /// transaction, used after an authentication to persist an updated
    /// signature counter; fails with `NotFound` when the credential no
    /// longer exists.
    pub fn update_credential(&mut self, h: &TxHandle, cred_id: &Vec<u8>, new_blob: Vec<u8>) -> (r:
        Result<(), AuthError>)
        requires
            old(self)@.wf(),
        ensures
            final(self)@.wf(),
            !old(self)@.valid_handle(*h) ==> r == Err::<(), AuthError>(AuthError::InternalError)
                && final(self)@ == old(self)@,
            old(self)@.valid_handle(*h) ==> match apply_op(
                old(self)@.staged,
                OpModel::UpdateCred { cred_id: cred_id@, blob: new_blob@ },
            ) {
                Some(m) => r == Ok::<(), AuthError>(()) && final(self)@ == CtxModel {
                    staged: m,
                    log: old(self)@.log.push(
                        OpModel::UpdateCred { cred_id: cred_id@, blob: new_blob@ },
                    ),
                    ..old(self)@
                },
                None => r == Err::<(), AuthError>(AuthError::NotFound) && final(self)@ == old(self)@,
            },
    {
        if h.ctx_id != self.id || self.finalized {
            return Err(AuthError::InternalError);
        }
        // The store rejects an update of a missing credential; report it
        // as the distinct `NotFound` before staging anything.
        if lookup_cred(&self.staged.creds, cred_id).is_none() {
            proof {
                assert forall|j: int|
                    0 <= j < self@.staged.creds.len() implies #[trigger] self@.staged.creds[j]
                    .cred_id != cred_id@ by {
                    assert(self.staged.creds@[j]@.cred_id != cred_id@);
                }
                assert(!cred_exists(self@.staged, cred_id@));
            }
            return Err(AuthError::NotFound);
        }
        let cid = crate::store::clone_bytes(cred_id);
        match self.stage(h, Op::UpdateCred { cred_id: cid, blob: new_blob }) {
            Ok(()) => Ok(()),
            Err(_) => Err(AuthError::NotFound),
        }
    }

    /// Whether a handle still reaches this context's open transaction.
    pub fn is_valid(&self, h: &TxHandle) -> (r: bool)
        ensures
            r == self@.valid_handle(*h),
    {
        h.ctx_id == self.id && !self.finalized
    }

    /// Whether a credential with this identifier exists, as seen by this
    /// request's transaction.
    pub fn cred_exists_now(&self, h: &TxHandle, cred_id: &Vec<u8>) -> (r: Result<bool, AuthError>)
        ensures
            !self@.valid_handle(*h) ==> r == Err::<bool, AuthError>(AuthError::InternalError),
            self@.valid_handle(*h) ==> r == Ok::<bool, AuthError>(
                cred_exists(self@.staged, cred_id@),
            ),
    {
        if h.ctx_id != self.id || self.finalized {
            return Err(AuthError::InternalError);
        }
        match lookup_cred(&self.staged.creds, cred_id) {
            Some(i) => {
                proof {
                    assert(self@.staged.creds[i as int].cred_id == cred_id@);
                }
                Ok(true)
            },
            None => {
                proof {
                    assert forall|j: int|
                        0 <= j < self@.staged.creds.len() implies #[trigger] self@.staged.creds[j]
                        .cred_id != cred_id@ by {
                        assert(self.staged.creds@[j]@.cred_id != cred_id@);
                    }
                    assert(!cred_exists(self@.staged, cred_id@));
                }
                Ok(false)
            },
        }
    }

    /// All credentials owned by one user, as seen by this request's
    /// transaction (staged writes included); order is irrelevant but the
    /// implementation keeps table order.
    pub fn list_credentials(&self, h: &TxHandle, user_id: u128) -> (r: Result<
        Vec<CredentialRecord>,
        AuthError,
    >)
        ensures
            !self@.valid_handle(*h) ==> r == Err::<Vec<CredentialRecord>, AuthError>(
                AuthError::InternalError,
            ),
            self@.valid_handle(*h) ==> match r {
                Ok(v) => v@.map_values(|c: CredentialRecord| c@) == self@.staged.creds.filter(
                    |c: CredModel| c.user_id == user_id,
                ),
                Err(_) => false,
            },
    {
        if h.ctx_id != self.id || self.finalized {
            return Err(AuthError::InternalError);
        }
        let ghost pred = |c: CredModel| c.user_id == user_id;
        let ghost vf = |c: CredentialRecord| c@;
        let mut out: Vec<CredentialRecord> = Vec::new();
        let mut i: usize = 0;
        while i < self.staged.creds.len()
            invariant
                0 <= i <= self.staged.creds.len(),
                pred == (|c: CredModel| c.user_id == user_id),
                vf == (|c: CredentialRecord| c@),
                out@.map_values(vf) =~= self@.staged.creds.take(i as int).filter(pred),
            decreases self.staged.creds.len() - i,
        {
            let ghost prev = out@.map_values(vf);
            let ghost cur = self@.staged.creds[i as int];
            proof {
                self@.staged.creds.take(i as int).lemma_filter_push(cur, pred);
                assert(self@.staged.creds.take(i as int).push(cur) =~= self@.staged.creds.take(
                    i + 1,
                ));
                assert(self@.staged.creds.take(i as int).push(cur).filter(pred)
                    == self@.staged.creds.take(i + 1).filter(pred));
            }
            if self.staged.creds[i].user_id == user_id {
                out.push(clone_cred(&self.staged.creds[i]));
                proof {
                    assert(pred(cur));
                    assert(out@.map_values(vf) =~= prev.push(cur));
                }
            } else {
                proof {
                    assert(!pred(cur));
                }
            }
            i += 1;
        }
        proof {
            assert(self@.staged.creds.take(self.staged.creds@.len() as int) =~= self@.staged.creds);
            assert(out@.map_values(|c: CredentialRecord| c@) =~= out@.map_values(vf));
            assert(self@.staged.creds.filter(|c: CredModel| c.user_id == user_id)
                == self@.staged.creds.filter(pred)) by {
                assert(pred =~= (|c: CredModel| c.user_id == user_id));
            }
        }
        Ok(out)
    }

    /// Whether this user exists, as seen by this request's transaction.
    pub fn user_exists_now(&self, h: &TxHandle, user_id: u128) -> (r: Result<bool, AuthError>)
        ensures
            !self@.valid_handle(*h) ==> r == Err::<bool, AuthError>(AuthError::InternalError),
            self@.valid_handle(*h) ==> r == Ok::<bool, AuthError>(
                user_exists(self@.staged, user_id),
            ),
    {
        if h.ctx_id != self.id || self.finalized {
            return Err(AuthError::InternalError);
        }
        let r = lookup_user(&self.staged.users, user_id);
        proof {
            if r {
                let j = choose|j: int|
                    0 <= j < self.staged.users@.len() && self.staged.users@[j].id == user_id;
                assert(self@.staged.users[j].id == user_id);
            } else {
                assert(!user_exists(self@.staged, user_id)) by {
                    assert(forall|j: int|
                        0 <= j < self@.staged.users.len() ==> #[trigger] self.staged.users@[j].id
                            != user_id);
                }
            }
        }
        Ok(r)
    }

    /// What `finalize` guarantees, as a relation over the models of the
    /// context and the committed store before and after the call.
    pub open spec fn finalize_rel(
        pre_ctx: CtxModel,
        pre_db: StoreModel,
        post_ctx: CtxModel,
        post_db: StoreModel,
        outcome: Outcome,
        r: Result<(), AuthError>,
    ) -> bool {
        &&& pre_ctx.finalized ==> r == Err::<(), AuthError>(AuthError::InternalError) && post_db
            == pre_db && post_ctx == pre_ctx
        &&& !pre_ctx.finalized ==> post_ctx == (CtxModel { finalized: true, ..pre_ctx })
        &&& !pre_ctx.finalized && outcome is Failure ==> r == Ok::<(), AuthError>(()) && post_db
            == pre_db
        &&& !pre_ctx.finalized && outcome is Success ==> (match apply_ops(pre_db, pre_ctx.log) {
            Some(m) => r == Ok::<(), AuthError>(()) && post_db == m,
            None => r == Err::<(), AuthError>(AuthError::ConstraintViolation) && post_db == pre_db,
        })
    }

    /// Finalizes the request: on `Success` the staged writes are replayed
    /// against the committed store, all or none — a replay rejected by the
    /// store's constraints (a concurrent request won a uniqueness race)
    /// surfaces as `ConstraintViolation` and leaves the store untouched.
    /// On `Failure` the transaction is rolled back: the store is left as
    /// it was. A second finalization of the same context is a defect: it
    /// is rejected with `InternalError` and changes nothing.
    pub fn finalize(&mut self, db: &mut Database, outcome: Outcome) -> (r: Result<(), AuthError>)
        requires
            old(self)@.wf(),
            old(db).wf(),
        ensures
            final(self)@.wf(),
            final(db).wf(),
            Self::finalize_rel(
                old(self)@,
                old(db).tables@,
                final(self)@,
                final(db).tables@,
                outcome,
                r,
            ),
    {
        if self.finalized {
            return Err(AuthError::InternalError);
        }
        self.finalized = true;
        match outcome {
            Outcome::Failure => Ok(()),
            Outcome::Success => {
                let ghost ops = self@.log;
                let mut t = clone_tables(&db.tables);
                let mut i: usize = 0;
                let mut ok = true;
                while ok && i < self.log.len()
                    invariant
                        0 <= i <= self.log.len(),
                        ops == self@.log,
                        ops.len() == self.log@.len(),
                        forall|k: int| 0 <= k < ops.len() ==> ops[k] == #[trigger] self.log@[k]@,
                        ok ==> apply_ops(old(db).tables@, ops.take(i as int)) == Some(t@),
                        !ok ==> apply_ops(old(db).tables@, ops) is None,
                    decreases self.log.len() - i,
                {
                    let applied = apply_op_exec(&mut t, &self.log[i]);
                    proof {
                        lemma_apply_ops_push(old(db).tables@, ops.take(i as int), ops[i as int]);
                        assert(ops.take(i as int).push(ops[i as int]) =~= ops.take(i + 1));
                        if !applied {
                            lemma_apply_ops_prefix_none(old(db).tables@, ops, i + 1);
                        }
                    }
                    if !applied {
                        ok = false;
                    }
                    i += 1;
                }
                if ok {
                    proof {
                        assert(ops.take(self.log@.len() as int) =~= ops);
                        lemma_apply_ops_wf(old(db).tables@, ops, t@);
                    }
                    db.tables = t;
                    Ok(())
                } else {
                    Err(AuthError::ConstraintViolation)
                }
            },
        }
    }
}

/// If some prefix of a log is already rejected, the whole log is rejected.
proof fn lemma_apply_ops_prefix_none(m: StoreModel, ops: Seq<OpModel>, n: int)
    requires
        0 <= n <= ops.len(),
        apply_ops(m, ops.take(n)) is None,
    ensures
        apply_ops(m, ops) is None,
    decreases ops.len() - n,
{
    if n == ops.len() {
        assert(ops.take(n) =~= ops);
    } else {
        lemma_apply_ops_push(m, ops.take(n), ops[n]);
        assert(ops.take(n).push(ops[n]) =~= ops.take(n + 1));
        lemma_apply_ops_prefix_none(m, ops, n + 1);
    }
}

} // verus!
