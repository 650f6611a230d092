use crate::api_keys::used_once;
use crate::error::BillingError;
use crate::models::{
    clone_api_key, clone_payment, clone_state, meta_upsert, opt_str_view, ApiKeyRecord,
    ApiKeyRecordV, BillingState, BillingStateV, PaymentRecord, PaymentRecordV, PaymentStatus,
};
use vstd::prelude::*;
use vstd::string::StringExecFns;

verus! {

/// First index of the payment with the given id, or -1 when absent.
pub open spec fn payment_index(ps: Seq<PaymentRecordV>, id: Seq<char>) -> int
    decreases ps.len(),
{
    if ps.len() == 0 {
        -1
    } else if ps[0].id == id {
        0
    } else {
        let r = payment_index(ps.drop_first(), id);
        if r == -1 {
            -1
        } else {
            r + 1
        }
    }
}

/// First index of the API-key record with the given id, or -1 when absent.
pub open spec fn key_index(ks: Seq<ApiKeyRecordV>, id: Seq<char>) -> int
    decreases ks.len(),
{
    if ks.len() == 0 {
        -1
    } else if ks[0].id == id {
        0
    } else {
        let r = key_index(ks.drop_first(), id);
        if r == -1 {
            -1
        } else {
            r + 1
        }
    }
}

/// `payment_index` finds the first record with the id, or -1.
pub proof fn lemma_payment_index_spec(ps: Seq<PaymentRecordV>, id: Seq<char>)
    ensures
        payment_index(ps, id) == -1 ==> forall|j: int| 0 <= j < ps.len() ==> ps[j].id != id,
        payment_index(ps, id) != -1 ==> 0 <= payment_index(ps, id) < ps.len()
            && ps[payment_index(ps, id)].id == id && (forall|j: int|
            0 <= j < payment_index(ps, id) ==> ps[j].id != id),
    decreases ps.len(),
{
    if ps.len() > 0 {
        let d = ps.drop_first();
        lemma_payment_index_spec(d, id);
        assert(forall|j: int| 0 <= j < d.len() ==> #[trigger] d[j] == ps[j + 1]);
        if ps[0].id != id {
            let r = payment_index(d, id);
            if r == -1 {
                assert(forall|j: int| 1 <= j < ps.len() ==> ps[j] == d[j - 1]);
            } else {
                assert(forall|j: int| 1 <= j < r + 1 ==> ps[j] == d[j - 1]);
            }
        }
    }
}

/// `key_index` finds the first record with the id, or -1.
pub proof fn lemma_key_index_spec(ks: Seq<ApiKeyRecordV>, id: Seq<char>)
    ensures
        key_index(ks, id) == -1 ==> forall|j: int| 0 <= j < ks.len() ==> ks[j].id != id,
        key_index(ks, id) != -1 ==> 0 <= key_index(ks, id) < ks.len() && ks[key_index(
            ks,
            id,
        )].id == id && (forall|j: int| 0 <= j < key_index(ks, id) ==> ks[j].id != id),
    decreases ks.len(),
{
    if ks.len() > 0 {
        let d = ks.drop_first();
        lemma_key_index_spec(d, id);
        assert(forall|j: int| 0 <= j < d.len() ==> #[trigger] d[j] == ks[j + 1]);
        if ks[0].id != id {
            let r = key_index(d, id);
            if r == -1 {
                assert(forall|j: int| 1 <= j < ks.len() ==> ks[j] == d[j - 1]);
            } else {
                assert(forall|j: int| 1 <= j < r + 1 ==> ks[j] == d[j - 1]);
            }
        }
    }
}

/// The payments after inserting or replacing the record with `r`'s id.
pub open spec fn upsert_payments(ps: Seq<PaymentRecordV>, r: PaymentRecordV) -> Seq<
    PaymentRecordV,
> {
    let i = payment_index(ps, r.id);
    if i == -1 {
        ps.push(r)
    } else {
        ps.update(i, r)
    }
}

/// The API keys after inserting or replacing the record with `r`'s id.
pub open spec fn upsert_keys(ks: Seq<ApiKeyRecordV>, r: ApiKeyRecordV) -> Seq<ApiKeyRecordV> {
    let i = key_index(ks, r.id);
    if i == -1 {
        ks.push(r)
    } else {
        ks.update(i, r)
    }
}

/// A mutation of one payment record, applied under the store's exclusive
/// access.
pub enum PaymentChange {
    /// Settlement: status becomes `Succeeded`, the reference is attached,
    /// the update stamp is set.
    Settle { reference: Option<String>, now: u64 },
    /// Failure: status becomes `Failed`, the reason is recorded in metadata
    /// under `failure_reason`, the update stamp is set.
    Fail { reason: String, now: u64 },
}

/// A mutation of one API-key record, applied under the store's exclusive
/// access.
pub enum ApiKeyChange {
    /// One successful use: allowed only on an unrevoked record under its
    /// usage limit; the count grows by one and the use is stamped.
    Use { now: u64 },
    /// Revocation: irreversible; the record is stamped.
    Revoke { now: u64 },
}

/// A payment after settlement.
pub open spec fn settle_applied(
    p: PaymentRecordV,
    reference: Option<Seq<char>>,
    now: u64,
) -> PaymentRecordV {
    PaymentRecordV { status: PaymentStatus::Succeeded, updated_at: now, reference, ..p }
}

/// A payment after being marked failed for `reason`.
pub open spec fn fail_applied(p: PaymentRecordV, reason: Seq<char>, now: u64) -> PaymentRecordV {
    PaymentRecordV {
        status: PaymentStatus::Failed,
        metadata: meta_upsert(p.metadata, "failure_reason"@, reason),
        updated_at: now,
        ..p
    }
}

/// The payment a change produces.
pub open spec fn payment_change_applied(p: PaymentRecordV, c: PaymentChange) -> PaymentRecordV {
    match c {
        PaymentChange::Settle { reference, now } => settle_applied(p, opt_str_view(reference), now),
        PaymentChange::Fail { reason, now } => fail_applied(p, reason@, now),
    }
}

/// Whether one more use of the key is allowed: the record is not revoked and
/// a configured usage limit is not yet reached.
pub open spec fn use_allowed(k: ApiKeyRecordV) -> bool {
    match k.usage_limit {
        Some(limit) => !k.revoked && k.usage_count < limit,
        None => !k.revoked,
    }
}

/// A key record after revocation.
pub open spec fn revoke_applied(k: ApiKeyRecordV, now: u64) -> ApiKeyRecordV {
    ApiKeyRecordV { revoked: true, last_used_at: Some(now), ..k }
}

/// Whether a change may be applied to the record: a use needs an unrevoked
/// record under its limit; a revocation is always allowed.
pub open spec fn key_change_allowed(k: ApiKeyRecordV, c: ApiKeyChange) -> bool {
    match c {
        ApiKeyChange::Use { now } => use_allowed(k),
        ApiKeyChange::Revoke { now } => true,
    }
}

/// The key record a change produces.
pub open spec fn key_change_applied(k: ApiKeyRecordV, c: ApiKeyChange) -> ApiKeyRecordV {
    match c {
        ApiKeyChange::Use { now } => used_once(k, now),
        ApiKeyChange::Revoke { now } => revoke_applied(k, now),
    }
}

/// The sole holder of mutable billing state. All reads go through shared
/// borrows and every mutation through one of the update functions, so the
/// store serializes state changes; the caller that owns the store decides
/// how access is shared and when a snapshot is persisted.
pub struct BillingStore {
    path: String,
    state: BillingState,
}

impl BillingStore {
    /// The configured backing path for snapshots.
    pub closed spec fn path_spec(&self) -> Seq<char> {
        self.path@
    }

    /// The current billing state.
    pub closed spec fn state_spec(&self) -> BillingStateV {
        self.state@
    }

    /// A store over an empty state. Restoring a persisted state is the
    /// caller's task, through `with_state`.
    pub fn new(path: String) -> (r: Result<BillingStore, BillingError>)
        ensures
            r is Ok,
            r->Ok_0.path_spec() == path@,
            r->Ok_0.state_spec().payments.len() == 0,
            r->Ok_0.state_spec().api_keys.len() == 0,
    {
        let state = BillingState { payments: Vec::new(), api_keys: Vec::new() };
        proof {
            assert(state@.payments =~= Seq::<PaymentRecordV>::empty());
            assert(state@.api_keys =~= Seq::<ApiKeyRecordV>::empty());
        }
        Ok(BillingStore { path, state })
    }

    /// A store over a previously persisted state.
    pub fn with_state(path: String, state: BillingState) -> (r: BillingStore)
        ensures
            r.path_spec() == path@,
            r.state_spec() == state@,
    {
        BillingStore { path, state }
    }

    /// The backing path this store was configured with.
    pub fn path(&self) -> (r: &String)
        ensures
            r@ == self.path_spec(),
    {
        &self.path
    }

    /// Replaces the in-memory state wholesale.
    pub fn replace_state(&mut self, state: BillingState)
        ensures
            final (self).path_spec() == old(self).path_spec(),
            final (self).state_spec() == state@,
    {
        self.state = state;
    }

    /// Shared access to the state, for reading.
    pub fn read(&self) -> (r: &BillingState)
        ensures
            r@ == self.state_spec(),
    {
        &self.state
    }

    /// A full snapshot copy of the state.
    pub fn snapshot(&self) -> (r: BillingState)
        ensures
            r@ == self.state_spec(),
    {
        clone_state(&self.state)
    }

    /// The stored API-key records themselves, for contracts that speak of a
    /// caller-supplied predicate over them.
    pub closed spec fn key_records_spec(&self) -> Seq<ApiKeyRecord> {
        self.state.api_keys@
    }

    /// The first API-key record the predicate accepts, as a copy.
    pub fn find_api_key<F: Fn(&ApiKeyRecord) -> bool>(&self, predicate: F) -> (r: Option<
        ApiKeyRecord,
    >)
        requires
            forall|k: &ApiKeyRecord| #[trigger] call_requires(predicate, (k,)),
        ensures
            match r {
                Some(rec) => exists|i: int|
                    0 <= i < self.key_records_spec().len() && rec@ == self.key_records_spec()[i]@
                        && call_ensures(predicate, (&self.key_records_spec()[i],), true),
                None => forall|i: int|
                    0 <= i < self.key_records_spec().len() ==> call_ensures(
                        predicate,
                        (&self.key_records_spec()[i],),
                        false,
                    ),
            },
    {
        let n: usize = self.state.api_keys.len();
        let mut i: usize = 0;
        while i < n
            invariant
                n == self.key_records_spec().len(),
                0 <= i <= n,
                forall|k: &ApiKeyRecord| #[trigger] call_requires(predicate, (k,)),
                forall|j: int|
                    0 <= j < i ==> call_ensures(predicate, (&self.key_records_spec()[j],), false),
            decreases n - i,
        {
            if predicate(&self.state.api_keys[i]) {
                return Some(clone_api_key(&self.state.api_keys[i]));
            }
            i = i + 1;
        }
        None
    }

    /// Inserts the record, or replaces the one that already carries its id.
    /// Returns a copy of what was stored.
    pub fn upsert_payment(&mut self, record: PaymentRecord) -> (r: Result<
        PaymentRecord,
        BillingError,
    >)
        ensures
            final (self).path_spec() == old(self).path_spec(),
            final (self).state_spec().api_keys == old(self).state_spec().api_keys,
            final (self).state_spec().payments == upsert_payments(
                old(self).state_spec().payments,
                record@,
            ),
            r matches Ok(p) && p == record,
    {
        let ghost ps = self.state@.payments;
        proof {
            lemma_payment_index_spec(ps, record.id@);
        }
        let n: usize = self.state.payments.len();
        let mut i: usize = 0;
        while i < n
            invariant
                n == self.state.payments@.len(),
                0 <= i <= n,
                *self == *old(self),
                ps == self.state@.payments,
                forall|j: int| 0 <= j < i ==> ps[j].id != record.id@,
            decreases n - i,
        {
            let hit: bool = self.state.payments[i].id == record.id;
            if hit {
                proof {
                    lemma_payment_index_spec(ps, record.id@);
                    assert(ps[i as int].id == record.id@);
                    assert(payment_index(ps, record.id@) == i);
                }
                let stored = clone_payment(&record);
                self.state.payments.set(i, stored);
                proof {
                    assert(self.state@.payments =~= upsert_payments(ps, record@));
                }
                return Ok(record);
            }
            assert(ps[i as int].id == record.id@ ==> false);
            i = i + 1;
        }
        proof {
            lemma_payment_index_spec(ps, record.id@);
            assert(payment_index(ps, record.id@) == -1);
        }
        let stored = clone_payment(&record);
        self.state.payments.push(stored);
        proof {
            assert(self.state@.payments =~= upsert_payments(ps, record@));
        }
        Ok(record)
    }

    /// Inserts the record, or replaces the one that already carries its id.
    /// Returns a copy of what was stored.
    pub fn upsert_api_key(&mut self, record: ApiKeyRecord) -> (r: Result<
        ApiKeyRecord,
        BillingError,
    >)
        ensures
            final (self).path_spec() == old(self).path_spec(),
            final (self).state_spec().payments == old(self).state_spec().payments,
            final (self).state_spec().api_keys == upsert_keys(
                old(self).state_spec().api_keys,
                record@,
            ),
            r matches Ok(k) && k == record,
    {
        let ghost ks = self.state@.api_keys;
        proof {
            lemma_key_index_spec(ks, record.id@);
        }
        let n: usize = self.state.api_keys.len();
        let mut i: usize = 0;
        while i < n
            invariant
                n == self.state.api_keys@.len(),
                0 <= i <= n,
                *self == *old(self),
                ks == self.state@.api_keys,
                forall|j: int| 0 <= j < i ==> ks[j].id != record.id@,
            decreases n - i,
        {
            let hit: bool = self.state.api_keys[i].id == record.id;
            if hit {
                proof {
                    lemma_key_index_spec(ks, record.id@);
                    assert(ks[i as int].id == record.id@);
                    assert(key_index(ks, record.id@) == i);
                }
                let stored = clone_api_key(&record);
                self.state.api_keys.set(i, stored);
                proof {
                    assert(self.state@.api_keys =~= upsert_keys(ks, record@));
                }
                return Ok(record);
            }
            assert(ks[i as int].id == record.id@ ==> false);
            i = i + 1;
        }
        proof {
            lemma_key_index_spec(ks, record.id@);
            assert(key_index(ks, record.id@) == -1);
        }
        let stored = clone_api_key(&record);
        self.state.api_keys.push(stored);
        proof {
            assert(self.state@.api_keys =~= upsert_keys(ks, record@));
        }
        Ok(record)
    }

    /// Locates the payment with the given id, applies the change and returns
    /// a copy of the updated record; `NotFound` and an unchanged state when
    /// the id is absent.
    pub fn update_payment(&mut self, id: &str, change: PaymentChange) -> (r: Result<
        PaymentRecord,
        BillingError,
    >)
        ensures
            final (self).path_spec() == old(self).path_spec(),
            ({
                let ps = old(self).state_spec().payments;
                let i = payment_index(ps, id@);
                &&& i == -1 ==> (r matches Err(BillingError::NotFound(_)) && *final (self) == *old(
                    self,
                ))
                &&& i != -1 ==> {
                    &&& final (self).state_spec().api_keys == old(self).state_spec().api_keys
                    &&& final (self).state_spec().payments == ps.update(
                        i,
                        payment_change_applied(ps[i], change),
                    )
                    &&& r matches Ok(p) && p@ == payment_change_applied(ps[i], change)
                }
            }),
    {
        let ghost ps = self.state@.payments;
        proof {
            lemma_payment_index_spec(ps, id@);
        }
        let n: usize = self.state.payments.len();
        let mut i: usize = 0;
        while i < n
            invariant
                n == self.state.payments@.len(),
                0 <= i <= n,
                *self == *old(self),
                ps == self.state@.payments,
                forall|j: int| 0 <= j < i ==> ps[j].id != id@,
            decreases n - i,
        {
            let hit: bool = crate::strutil::str_eq(self.state.payments[i].id.as_str(), id);
            if hit {
                proof {
                    lemma_payment_index_spec(ps, id@);
                    assert(ps[i as int].id == id@);
                    assert(payment_index(ps, id@) == i);
                }
                let mut updated = clone_payment(&self.state.payments[i]);
                match change {
                    PaymentChange::Settle { reference, now } => {
                        updated.status = PaymentStatus::Succeeded;
                        updated.updated_at = now;
                        updated.reference = reference;
                    },
                    PaymentChange::Fail { reason, now } => {
                        updated.status = PaymentStatus::Failed;
                        crate::models::meta_insert(
                            &mut updated.metadata,
                            String::from_str("failure_reason"),
                            reason,
                        );
                        updated.updated_at = now;
                    },
                }
                let out = clone_payment(&updated);
                self.state.payments.set(i, updated);
                proof {
                    assert(out@ == payment_change_applied(ps[i as int], change));
                }
                return Ok(out);
            }
            assert(ps[i as int].id == id@ ==> false);
            i = i + 1;
        }
        proof {
            lemma_payment_index_spec(ps, id@);
            assert(payment_index(ps, id@) == -1);
        }
        Err(BillingError::NotFound(String::from_str("payment not found")))
    }

    /// Locates the API-key record with the given id, applies the change and
    /// returns a copy of the updated record. `NotFound` and an unchanged
    /// state when the id is absent; for a use, `Validation` and an unchanged
    /// state when the record is revoked or its usage limit is reached — the
    /// check and the increment happen under the same exclusive access, so no
    /// interleaved use can slip past the limit.
    pub fn update_api_key(&mut self, id: &str, change: ApiKeyChange) -> (r: Result<
        ApiKeyRecord,
        BillingError,
    >)
        ensures
            final (self).path_spec() == old(self).path_spec(),
            ({
                let ks = old(self).state_spec().api_keys;
                let i = key_index(ks, id@);
                &&& i == -1 ==> (r matches Err(BillingError::NotFound(_)) && *final (self) == *old(
                    self,
                ))
                &&& (i != -1 && !key_change_allowed(ks[i], change)) ==> (r matches Err(
                    BillingError::Validation(_),
                ) && *final (self) == *old(self))
                &&& (i != -1 && key_change_allowed(ks[i], change)) ==> {
                    &&& final (self).state_spec().payments == old(self).state_spec().payments
                    &&& final (self).state_spec().api_keys == ks.update(
                        i,
                        key_change_applied(ks[i], change),
                    )
                    &&& r matches Ok(k) && k@ == key_change_applied(ks[i], change)
                }
            }),
    {
        let ghost ks = self.state@.api_keys;
        proof {
            lemma_key_index_spec(ks, id@);
        }
        let n: usize = self.state.api_keys.len();
        let mut i: usize = 0;
        while i < n
            invariant
                n == self.state.api_keys@.len(),
                0 <= i <= n,
                *self == *old(self),
                ks == self.state@.api_keys,
                forall|j: int| 0 <= j < i ==> ks[j].id != id@,
            decreases n - i,
        {
            let hit: bool = crate::strutil::str_eq(self.state.api_keys[i].id.as_str(), id);
            if hit {
                proof {
                    lemma_key_index_spec(ks, id@);
                    assert(ks[i as int].id == id@);
                    assert(key_index(ks, id@) == i);
                }
                match change {
                    ApiKeyChange::Use { now } => {
                        if self.state.api_keys[i].revoked {
                            return Err(
                                BillingError::Validation(
                                    String::from_str("API key has been revoked"),
                                ),
                            );
                        }
                        let under_limit: bool = match self.state.api_keys[i].usage_limit {
                            Some(limit) => self.state.api_keys[i].usage_count < limit,
                            None => true,
                        };
                        if !under_limit {
                            return Err(
                                BillingError::Validation(
                                    String::from_str("API key usage limit reached"),
                                ),
                            );
                        }
                        let mut updated = clone_api_key(&self.state.api_keys[i]);
                        crate::api_keys::ApiKeyManager::mark_use_at(&mut updated, now);
                        let out = clone_api_key(&updated);
                        self.state.api_keys.set(i, updated);
                        proof {
                            assert(out@ == used_once(ks[i as int], now));
                        }
                        return Ok(out);
                    },
                    ApiKeyChange::Revoke { now } => {
                        let mut updated = clone_api_key(&self.state.api_keys[i]);
                        updated.revoked = true;
                        updated.last_used_at = Some(now);
                        let out = clone_api_key(&updated);
                        self.state.api_keys.set(i, updated);
                        proof {
                            assert(out@ == revoke_applied(ks[i as int], now));
                        }
                        return Ok(out);
                    },
                }
            }
            assert(ks[i as int].id == id@ ==> false);
            i = i + 1;
        }
        proof {
            lemma_key_index_spec(ks, id@);
            assert(key_index(ks, id@) == -1);
        }
        Err(BillingError::NotFound(String::from_str("api key not found")))
    }
}

} // verus!
