use vstd::prelude::*;

verus! {

/// One registered user row: the stable unique identifier and the
/// registration timestamp (microseconds since the Unix epoch). A user is
/// created exactly once, at the end of a successful registration ceremony,
/// and never deleted by this subsystem.
#[derive(Clone, Copy, Debug, PartialEq, Eq, Structural)]
pub struct User {
    pub id: u128,
    pub registered_at: i64,
}

/// One stored passkey: the credential's unique identifier, the owning
/// user, and the opaque serialized blob produced and consumed only by the
/// cryptographic verifier (it carries the public key and the signature
/// counter; this subsystem never looks inside it).
#[derive(Debug)]
pub struct CredentialRecord {
    pub cred_id: Vec<u8>,
    pub user_id: u128,
    pub blob: Vec<u8>,
}

/// The mathematical model of a stored credential.
pub struct CredModel {
    pub cred_id: Seq<u8>,
    pub user_id: u128,
    pub blob: Seq<u8>,
}

impl View for CredentialRecord {
    type V = CredModel;

    open spec fn view(&self) -> CredModel {
        CredModel { cred_id: self.cred_id@, user_id: self.user_id, blob: self.blob@ }
    }
}

/// The two tables this subsystem persists: users and their credentials.
#[derive(Debug)]
pub struct Tables {
    pub users: Vec<User>,
    pub creds: Vec<CredentialRecord>,
}

/// The mathematical model of the two tables.
pub struct StoreModel {
    pub users: Seq<User>,
    pub creds: Seq<CredModel>,
}

impl View for Tables {
    type V = StoreModel;

    open spec fn view(&self) -> StoreModel {
        StoreModel {
            users: self.users@,
            creds: self.creds@.map_values(|c: CredentialRecord| c@),
        }
    }
}

/// A write staged by a transaction, replayed against the committed state
/// when the owning execution context finalizes with success.
#[derive(Debug)]
pub enum Op {
    InsertUser(User),
    InsertCred(CredentialRecord),
    UpdateCred { cred_id: Vec<u8>, blob: Vec<u8> },
}

/// The mathematical model of a staged write.
pub enum OpModel {
    InsertUser(User),
    InsertCred(CredModel),
    UpdateCred { cred_id: Seq<u8>, blob: Seq<u8> },
}

impl View for Op {
    type V = OpModel;

    open spec fn view(&self) -> OpModel {
        match self {
            Op::InsertUser(u) => OpModel::InsertUser(*u),
            Op::InsertCred(c) => OpModel::InsertCred(c@),
            Op::UpdateCred { cred_id, blob } => OpModel::UpdateCred {
                cred_id: cred_id@,
                blob: blob@,
            },
        }
    }
}

/// Whether a user with this identifier exists.
pub open spec fn user_exists(m: StoreModel, id: u128) -> bool {
    exists|j: int| 0 <= j < m.users.len() && m.users[j].id == id
}

/// Whether a credential with this identifier exists.
pub open spec fn cred_exists(m: StoreModel, cred_id: Seq<u8>) -> bool {
    exists|j: int| 0 <= j < m.creds.len() && m.creds[j].cred_id == cred_id
}

/// Well-formedness of the stored tables: user identifiers are unique,
/// credential identifiers are unique, and every credential references an
/// existing user (the store's referential-integrity constraint, which
/// restricts deleting or rewriting a referenced user).
pub open spec fn wf_store(m: StoreModel) -> bool {
    &&& forall|i: int, j: int|
        0 <= i < j < m.users.len() ==> m.users[i].id != m.users[j].id
    &&& forall|i: int, j: int|
        0 <= i < j < m.creds.len() ==> m.creds[i].cred_id != m.creds[j].cred_id
    &&& forall|i: int| 0 <= i < m.creds.len() ==> user_exists(m, #[trigger] m.creds[i].user_id)
}

/// What one staged write does to a store: `None` means the store's
/// uniqueness or referential-integrity constraints reject it.
pub open spec fn apply_op(m: StoreModel, op: OpModel) -> Option<StoreModel> {
    match op {
        OpModel::InsertUser(u) => if user_exists(m, u.id) {
            None
        } else {
            Some(StoreModel { users: m.users.push(u), ..m })
        },
        OpModel::InsertCred(c) => if !user_exists(m, c.user_id) || cred_exists(m, c.cred_id) {
            None
        } else {
            Some(StoreModel { creds: m.creds.push(c), ..m })
        },
        OpModel::UpdateCred { cred_id, blob } => if !cred_exists(m, cred_id) {
            None
        } else {
            Some(
                StoreModel {
                    creds: m.creds.map_values(
                        |c: CredModel|
                            if c.cred_id == cred_id {
                                CredModel { blob, ..c }
                            } else {
                                c
                            },
                    ),
                    ..m
                },
            )
        },
    }
}

/// What a whole log of staged writes does to a store, in order; `None` if
/// any write is rejected.
pub open spec fn apply_ops(m: StoreModel, ops: Seq<OpModel>) -> Option<StoreModel>
    decreases ops.len(),
{
    if ops.len() == 0 {
        Some(m)
    } else {
        match apply_ops(m, ops.drop_last()) {
            None => None,
            Some(m2) => apply_op(m2, ops.last()),
        }
    }
}

/// Whether a user owns at least one stored credential.
pub open spec fn user_has_cred(m: StoreModel, user_id: u128) -> bool {
    exists|j: int| 0 <= j < m.creds.len() && m.creds[j].user_id == user_id
}

/// A user owns a credential exactly when the credential table filtered to
/// that user is non-empty.
pub proof fn lemma_user_has_cred_filter(m: StoreModel, user_id: u128)
    ensures
        user_has_cred(m, user_id) <==> m.creds.filter(|c: CredModel| c.user_id == user_id).len()
            != 0,
{
    let pred = |c: CredModel| c.user_id == user_id;
    if user_has_cred(m, user_id) {
        let j = choose|j: int| 0 <= j < m.creds.len() && m.creds[j].user_id == user_id;
        m.creds.lemma_filter_contains(pred, j);
        assert(m.creds.filter(pred).contains(m.creds[j]));
    } else {
        if m.creds.filter(pred).len() != 0 {
            m.creds.lemma_filter_pred(pred, 0);
            m.creds.lemma_filter_contains_rev(pred, m.creds.filter(pred)[0]);
            let j = choose|j: int|
                0 <= j < m.creds.len() && m.creds[j] == m.creds.filter(pred)[0];
            assert(m.creds[j].user_id == user_id);
        }
    }
}

/// A blob update never adds or removes a credential identifier.
pub proof fn lemma_update_keeps_creds(m: StoreModel, cred_id: Seq<u8>, blob: Seq<u8>, m2: StoreModel)
    requires
        apply_op(m, OpModel::UpdateCred { cred_id, blob }) == Some(m2),
    ensures
        m2.users == m.users,
        m2.creds.len() == m.creds.len(),
        forall|j: int|
            0 <= j < m.creds.len() ==> #[trigger] m2.creds[j].cred_id == m.creds[j].cred_id
                && m2.creds[j].user_id == m.creds[j].user_id,
        forall|cid: Seq<u8>| cred_exists(m2, cid) <==> cred_exists(m, cid),
{
    assert forall|cid: Seq<u8>| cred_exists(m2, cid) <==> cred_exists(m, cid) by {
        if cred_exists(m, cid) {
            let j = choose|j: int| 0 <= j < m.creds.len() && m.creds[j].cred_id == cid;
            assert(m2.creds[j].cred_id == cid);
        }
        if cred_exists(m2, cid) {
            let j = choose|j: int| 0 <= j < m2.creds.len() && m2.creds[j].cred_id == cid;
            assert(m.creds[j].cred_id == cid);
        }
    }
}

/// A single accepted write preserves the store's well-formedness.
pub proof fn lemma_apply_op_wf(m: StoreModel, op: OpModel, m2: StoreModel)
    requires
        wf_store(m),
        apply_op(m, op) == Some(m2),
    ensures
        wf_store(m2),
{
    match op {
        OpModel::InsertUser(u) => {
            assert forall|i: int| 0 <= i < m2.creds.len() implies user_exists(
                m2,
                #[trigger] m2.creds[i].user_id,
            ) by {
                assert(m2.creds[i] == m.creds[i]);
                assert(user_exists(m, m.creds[i].user_id));
                let j = choose|j: int|
                    0 <= j < m.users.len() && m.users[j].id == m.creds[i].user_id;
                assert(m2.users[j].id == m2.creds[i].user_id);
            }
        },
        OpModel::InsertCred(c) => {
            assert forall|i: int| 0 <= i < m2.creds.len() implies user_exists(
                m2,
                #[trigger] m2.creds[i].user_id,
            ) by {
                if i < m.creds.len() {
                    assert(m2.creds[i] == m.creds[i]);
                    assert(user_exists(m, m.creds[i].user_id));
                } else {
                    assert(m2.creds[i] == c);
                    assert(user_exists(m, c.user_id));
                }
                let j = choose|j: int|
                    0 <= j < m.users.len() && m.users[j].id == m2.creds[i].user_id;
                assert(m2.users[j].id == m2.creds[i].user_id);
            }
        },
        OpModel::UpdateCred { cred_id, blob } => {
            assert(forall|i: int|
                0 <= i < m.creds.len() ==> #[trigger] m2.creds[i].cred_id == m.creds[i].cred_id
                    && m2.creds[i].user_id == m.creds[i].user_id);
            assert forall|i: int| 0 <= i < m2.creds.len() implies user_exists(
                m2,
                #[trigger] m2.creds[i].user_id,
            ) by {
                assert(user_exists(m, m.creds[i].user_id));
                let j = choose|j: int|
                    0 <= j < m.users.len() && m.users[j].id == m.creds[i].user_id;
                assert(m2.users[j].id == m2.creds[i].user_id);
            }
        },
    }
}

/// A whole accepted log preserves the store's well-formedness.
pub proof fn lemma_apply_ops_wf(m: StoreModel, ops: Seq<OpModel>, m2: StoreModel)
    requires
        wf_store(m),
        apply_ops(m, ops) == Some(m2),
    ensures
        wf_store(m2),
    decreases ops.len(),
{
    if ops.len() == 0 {
    } else {
        let mid = apply_ops(m, ops.drop_last());
        lemma_apply_ops_wf(m, ops.drop_last(), mid->Some_0);
        lemma_apply_op_wf(mid->Some_0, ops.last(), m2);
    }
}

/// Appending one write to a log applies it after the rest.
pub proof fn lemma_apply_ops_push(m: StoreModel, ops: Seq<OpModel>, op: OpModel)
    ensures
        apply_ops(m, ops.push(op)) == match apply_ops(m, ops) {
            None => None::<StoreModel>,
            Some(m2) => apply_op(m2, op),
        },
{
    assert(ops.push(op).drop_last() =~= ops);
    assert(ops.push(op).last() == op);
}

/// Byte-string equality, the comparison under the credential-id uniqueness
/// constraint.
pub fn bytes_eq(a: &Vec<u8>, b: &Vec<u8>) -> (r: bool)
    ensures
        r <==> a@ == b@,
{
    if a.len() != b.len() {
        assert(a@ != b@);
        return false;
    }
    let mut i: usize = 0;
    while i < a.len()
        invariant
            0 <= i <= a.len(),
            a@.len() == b@.len(),
            forall|j: int| 0 <= j < i ==> a@[j] == b@[j],
        decreases a.len() - i,
    {
        if a[i] != b[i] {
            return false;
        }
        i += 1;
    }
    proof {
        assert(a@ =~= b@);
    }
    true
}

/// Whether the user table holds this identifier.
pub fn lookup_user(users: &Vec<User>, id: u128) -> (r: bool)
    ensures
        r <==> exists|j: int| 0 <= j < users@.len() && users@[j].id == id,
{
    let mut i: usize = 0;
    while i < users.len()
        invariant
            0 <= i <= users.len(),
            forall|j: int| 0 <= j < i ==> users@[j].id != id,
        decreases users.len() - i,
    {
        if users[i].id == id {
            return true;
        }
        i += 1;
    }
    false
}

/// The index of the credential with this identifier, if any.
pub fn lookup_cred(creds: &Vec<CredentialRecord>, cred_id: &Vec<u8>) -> (r: Option<usize>)
    ensures
        match r {
            Some(i) => i < creds@.len() && creds@[i as int]@.cred_id == cred_id@,
            None => forall|j: int| 0 <= j < creds@.len() ==> creds@[j]@.cred_id != cred_id@,
        },
{
    let mut i: usize = 0;
    while i < creds.len()
        invariant
            0 <= i <= creds.len(),
            forall|j: int| 0 <= j < i ==> creds@[j]@.cred_id != cred_id@,
        decreases creds.len() - i,
    {
        if bytes_eq(&creds[i].cred_id, cred_id) {
            return Some(i);
        }
        i += 1;
    }
    None
}

/// A copy of a byte string.
pub fn clone_bytes(v: &Vec<u8>) -> (r: Vec<u8>)
    ensures
        r@ == v@,
{
    let r = v.clone();
    proof {
        assert(r@ =~= v@);
    }
    r
}

/// A copy of a credential record.
pub fn clone_cred(c: &CredentialRecord) -> (r: CredentialRecord)
    ensures
        r@ == c@,
{
    CredentialRecord {
        cred_id: clone_bytes(&c.cred_id),
        user_id: c.user_id,
        blob: clone_bytes(&c.blob),
    }
}

/// A copy of both tables.
pub fn clone_tables(t: &Tables) -> (r: Tables)
    ensures
        r@ == t@,
{
    let mut users: Vec<User> = Vec::new();
    let mut i: usize = 0;
    while i < t.users.len()
        invariant
            0 <= i <= t.users.len(),
            users@ =~= t.users@.take(i as int),
        decreases t.users.len() - i,
    {
        users.push(t.users[i]);
        i += 1;
    }
    let mut creds: Vec<CredentialRecord> = Vec::new();
    let mut j: usize = 0;
    while j < t.creds.len()
        invariant
            0 <= j <= t.creds.len(),
            creds@.len() == j,
            forall|k: int| 0 <= k < j ==> creds@[k]@ == #[trigger] t.creds@[k]@,
        decreases t.creds.len() - j,
    {
        creds.push(clone_cred(&t.creds[j]));
        j += 1;
    }
    let r = Tables { users, creds };
    proof {
        assert(r@.users =~= t@.users);
        assert(r@.creds =~= t@.creds);
    }
    r
}

/// Applies one staged write to the tables in place. Returns false, leaving
/// the tables unchanged, when the store's constraints reject the write.
pub fn apply_op_exec(t: &mut Tables, op: &Op) -> (r: bool)
    ensures
        r ==> apply_op(old(t)@, op@) == Some(final(t)@),
        !r ==> apply_op(old(t)@, op@) is None && final(t)@ == old(t)@,
{
    match op {
        Op::InsertUser(u) => {
            if lookup_user(&t.users, u.id) {
                false
            } else {
                t.users.push(*u);
                proof {
                    assert(t@.creds =~= old(t)@.creds);
                    assert(t@.users =~= old(t)@.users.push(*u));
                }
                true
            }
        },
        Op::InsertCred(c) => {
            if !lookup_user(&t.users, c.user_id) {
                false
            } else {
                match lookup_cred(&t.creds, &c.cred_id) {
                    Some(i) => {
                        proof {
                            assert(t@.creds[i as int].cred_id == c@.cred_id);
                            assert(cred_exists(t@, c@.cred_id));
                        }
                        false
                    },
                    None => {
                        proof {
                            assert forall|j: int|
                                0 <= j < t@.creds.len() implies #[trigger] t@.creds[j].cred_id
                                != c@.cred_id by {
                                assert(t.creds@[j]@.cred_id != c.cred_id@);
                            }
                            assert(!cred_exists(t@, c@.cred_id));
                        }
                        let rec = clone_cred(c);
                        t.creds.push(rec);
                        proof {
                            assert(t@.creds =~= old(t)@.creds.push(c@));
                            assert(t@.users =~= old(t)@.users);
                        }
                        true
                    },
                }
            }
        },
        Op::UpdateCred { cred_id, blob } => {
            let ghost pre = t@;
            let ghost cid = cred_id@;
            let ghost updated = pre.creds.map_values(
                |c: CredModel|
                    if c.cred_id == cid {
                        CredModel { blob: blob@, ..c }
                    } else {
                        c
                    },
            );
            proof {
                assert(updated.len() == pre.creds.len());
            }
            let mut found = false;
            let mut i: usize = 0;
            while i < t.creds.len()
                invariant
                    0 <= i <= t.creds.len(),
                    t.creds@.len() == pre.creds.len(),
                    updated.len() == pre.creds.len(),
                    t@.users == pre.users,
                    cid == cred_id@,
                    updated == pre.creds.map_values(
                        |c: CredModel|
                            if c.cred_id == cid {
                                CredModel { blob: blob@, ..c }
                            } else {
                                c
                            },
                    ),
                    forall|k: int| i <= k < pre.creds.len() ==> t@.creds[k] == pre.creds[k],
                    forall|k: int| 0 <= k < i ==> t@.creds[k] == updated[k],
                    found <==> exists|k: int| 0 <= k < i && pre.creds[k].cred_id == cid,
                decreases t.creds.len() - i,
            {
                proof {
                    assert(t@.creds[i as int] == pre.creds[i as int]);
                    assert(updated[i as int] == if pre.creds[i as int].cred_id == cid {
                        CredModel { blob: blob@, ..pre.creds[i as int] }
                    } else {
                        pre.creds[i as int]
                    });
                }
                if bytes_eq(&t.creds[i].cred_id, cred_id) {
                    let nb = clone_bytes(blob);
                    let uid = t.creds[i].user_id;
                    let ci = clone_bytes(&t.creds[i].cred_id);
                    t.creds.set(i, CredentialRecord { cred_id: ci, user_id: uid, blob: nb });
                    proof {
                        assert(t@.creds[i as int] == updated[i as int]);
                    }
                    found = true;
                } else {
                    proof {
                        assert(t@.creds[i as int] == updated[i as int]);
                    }
                }
                i += 1;
            }
            if found {
                proof {
                    assert(cred_exists(pre, cid));
                    assert(t@.creds =~= updated);
                    assert(apply_op(pre, op@) == Some(t@));
                }
                true
            } else {
                proof {
                    assert(!cred_exists(pre, cid));
                    assert forall|k: int| 0 <= k < pre.creds.len() implies t@.creds[k]
                        == pre.creds[k] by {
                        assert(pre.creds[k].cred_id != cid);
                        assert(updated[k] == pre.creds[k]);
                    }
                    assert(t@.creds =~= pre.creds);
                }
                false
            }
        },
    }
}

} // verus!
