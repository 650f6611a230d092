use crate::api_keys::{issued_key_wf, used_once, verify_spec, ApiKeyManager};
use crate::clock::now_epoch_seconds;
use crate::error::{BillingError, PaymentError};
use crate::hexstr::hex_chars;
use crate::models::{
    clone_api_key, meta_insert, meta_upsert, opt_str_view, ApiKeyRecord,
    ApiKeyRecordV, BillingState, BillingStateV, IssuedApiKey, PaymentIntent, PaymentIntentV,
    PaymentProviderConfig, PaymentProviderKind, PaymentRecord, PaymentRecordV, PaymentRequest,
    PaymentStatus,
};
use crate::providers::{
    build_processor_map, clone_meta, clone_string, default_checkout_url, intent_metadata,
    registry_fold, registry_index, registry_view, HostedCheckoutProcessor,
};
use crate::store::{
    fail_applied, key_index, payment_index, settle_applied, upsert_keys, upsert_payments,
    use_allowed, ApiKeyChange, BillingStore, PaymentChange,
};
use vstd::prelude::*;
use vstd::string::StringExecFns;

verus! {

/// A settled payment with the issued key recorded in its metadata.
pub open spec fn settled_payment(
    p: PaymentRecordV,
    reference: Option<Seq<char>>,
    now: u64,
    key_id: Seq<char>,
) -> PaymentRecordV {
    let s = settle_applied(p, reference, now);
    PaymentRecordV { metadata: meta_upsert(s.metadata, "api_key_id"@, key_id), ..s }
}

/// The payment record derived from a fresh intent at time `now`.
pub open spec fn checkout_record(
    intent: PaymentIntentV,
    req: PaymentRequest,
    now: u64,
) -> PaymentRecordV {
    PaymentRecordV {
        id: intent.id,
        provider: req.provider,
        status: intent.status,
        amount_cents: req.amount_cents,
        currency: req.currency@,
        user_id: req.user_id@,
        tier: req.tier,
        metadata: intent.metadata,
        created_at: now,
        updated_at: now,
        reference: None,
    }
}

/// First index of a record the candidate verifies against, or -1.
pub open spec fn verify_index(ks: Seq<ApiKeyRecordV>, candidate: Seq<char>) -> int
    decreases ks.len(),
{
    if ks.len() == 0 {
        -1
    } else if verify_spec(candidate, ks[0]) {
        0
    } else {
        let r = verify_index(ks.drop_first(), candidate);
        if r == -1 {
            -1
        } else {
            r + 1
        }
    }
}

/// `verify_index` finds the first verifying record, or -1.
pub proof fn lemma_verify_index_spec(ks: Seq<ApiKeyRecordV>, candidate: Seq<char>)
    ensures
        verify_index(ks, candidate) == -1 ==> forall|j: int|
            0 <= j < ks.len() ==> !verify_spec(candidate, ks[j]),
        verify_index(ks, candidate) != -1 ==> 0 <= verify_index(ks, candidate) < ks.len()
            && verify_spec(candidate, ks[verify_index(ks, candidate)]) && (forall|j: int|
            0 <= j < verify_index(ks, candidate) ==> !verify_spec(candidate, ks[j])),
    decreases ks.len(),
{
    if ks.len() > 0 {
        let d = ks.drop_first();
        lemma_verify_index_spec(d, candidate);
        assert(forall|j: int| 0 <= j < d.len() ==> #[trigger] d[j] == ks[j + 1]);
        if !verify_spec(candidate, ks[0]) {
            let r = verify_index(d, candidate);
            if r == -1 {
                assert(forall|j: int| 1 <= j < ks.len() ==> ks[j] == d[j - 1]);
            } else {
                assert(forall|j: int| 1 <= j < r + 1 ==> ks[j] == d[j - 1]);
            }
        }
    }
}

/// The message carried inside a processor-layer error.
fn payment_error_message(e: PaymentError) -> (m: String)
    ensures
        match e {
            PaymentError::ProviderUnavailable(s) => m == s,
            PaymentError::Validation(s) => m == s,
            PaymentError::Transport(s) => m == s,
            PaymentError::Unexpected(s) => m == s,
        },
{
    match e {
        PaymentError::ProviderUnavailable(s) => s,
        PaymentError::Validation(s) => s,
        PaymentError::Transport(s) => s,
        PaymentError::Unexpected(s) => s,
    }
}

/// The orchestrator behind the external billing contract: checkout creation,
/// settlement, failure marking, key validation and revocation, over one
/// store, one processor registry and one credential manager. The caller that
/// owns the service decides how it is shared; every mutation funnels through
/// `&mut self`, which serializes state changes.
pub struct BillingService {
    store: BillingStore,
    processors: Vec<HostedCheckoutProcessor>,
    key_manager: ApiKeyManager,
}

impl BillingService {
    /// The billing state behind the service.
    pub closed spec fn state_spec(&self) -> BillingStateV {
        self.store.state_spec()
    }

    /// The backing path configured for snapshots.
    pub closed spec fn path_spec(&self) -> Seq<char> {
        self.store.path_spec()
    }

    /// The configurations of the registered processors, in registry order.
    pub closed spec fn registry_spec(&self) -> Seq<PaymentProviderConfig> {
        registry_view(self.processors@)
    }

    /// The key prefix the credential manager stamps on new keys.
    pub closed spec fn prefix_spec(&self) -> Seq<char> {
        self.key_manager.prefix_spec()
    }

    /// A service over an empty state, the given provider configurations and
    /// the default key prefix. Restoring persisted state is the caller's
    /// task, through `restore_state`.
    pub fn new(store_path: String, provider_configs: Vec<PaymentProviderConfig>) -> (r: Result<
        BillingService,
        BillingError,
    >)
        ensures
            r is Ok,
            ({
                let s = r->Ok_0;
                &&& s.state_spec().payments.len() == 0
                &&& s.state_spec().api_keys.len() == 0
                &&& s.path_spec() == store_path@
                &&& s.registry_spec() == registry_fold(provider_configs@)
                &&& s.prefix_spec() == "QNT"@
            }),
    {
        let store = match BillingStore::new(store_path) {
            Ok(s) => s,
            Err(e) => {
                return Err(e);
            },
        };
        let processors = build_processor_map(provider_configs);
        Ok(BillingService { store, processors, key_manager: ApiKeyManager::default() })
    }

    /// One enabled configuration for every known provider kind, in a fixed
    /// order: the default registry of a fresh deployment.
    pub fn default_provider_configs() -> (r: Vec<PaymentProviderConfig>)
        ensures
            r@.map_values(|c: PaymentProviderConfig| c.provider) == seq![
                PaymentProviderKind::Stripe,
                PaymentProviderKind::Paypal,
                PaymentProviderKind::Shopify,
                PaymentProviderKind::Klarna,
                PaymentProviderKind::Affirm,
                PaymentProviderKind::ApplePay,
                PaymentProviderKind::WePay,
                PaymentProviderKind::Venmo,
                PaymentProviderKind::WeChat,
                PaymentProviderKind::QuickBooks,
                PaymentProviderKind::Mastercard,
                PaymentProviderKind::Visa,
                PaymentProviderKind::Bitcoin,
            ],
            forall|i: int| 0 <= i < r@.len() ==> (#[trigger] r@[i]).enabled,
    {
        let mut out: Vec<PaymentProviderConfig> = Vec::new();
        out.push(PaymentProviderConfig::enabled(PaymentProviderKind::Stripe));
        out.push(PaymentProviderConfig::enabled(PaymentProviderKind::Paypal));
        out.push(PaymentProviderConfig::enabled(PaymentProviderKind::Shopify));
        out.push(PaymentProviderConfig::enabled(PaymentProviderKind::Klarna));
        out.push(PaymentProviderConfig::enabled(PaymentProviderKind::Affirm));
        out.push(PaymentProviderConfig::enabled(PaymentProviderKind::ApplePay));
        out.push(PaymentProviderConfig::enabled(PaymentProviderKind::WePay));
        out.push(PaymentProviderConfig::enabled(PaymentProviderKind::Venmo));
        out.push(PaymentProviderConfig::enabled(PaymentProviderKind::WeChat));
        out.push(PaymentProviderConfig::enabled(PaymentProviderKind::QuickBooks));
        out.push(PaymentProviderConfig::enabled(PaymentProviderKind::Mastercard));
        out.push(PaymentProviderConfig::enabled(PaymentProviderKind::Visa));
        out.push(PaymentProviderConfig::enabled(PaymentProviderKind::Bitcoin));
        proof {
            assert(out@.map_values(|c: PaymentProviderConfig| c.provider) =~= seq![
                PaymentProviderKind::Stripe,
                PaymentProviderKind::Paypal,
                PaymentProviderKind::Shopify,
                PaymentProviderKind::Klarna,
                PaymentProviderKind::Affirm,
                PaymentProviderKind::ApplePay,
                PaymentProviderKind::WePay,
                PaymentProviderKind::Venmo,
                PaymentProviderKind::WeChat,
                PaymentProviderKind::QuickBooks,
                PaymentProviderKind::Mastercard,
                PaymentProviderKind::Visa,
                PaymentProviderKind::Bitcoin,
            ]);
        }
        out
    }

    /// Replaces the in-memory state wholesale, e.g. with one decoded from a
    /// persisted snapshot.
    pub fn restore_state(&mut self, state: BillingState)
        ensures
            final (self).state_spec() == state@,
            final (self).path_spec() == old(self).path_spec(),
            final (self).registry_spec() == old(self).registry_spec(),
            final (self).prefix_spec() == old(self).prefix_spec(),
    {
        self.store.replace_state(state);
    }

    /// Looks up the processor for the request's provider and delegates to
    /// it: an unknown provider is unavailable; a processor error is reported
    /// as a validation error at this layer. On success the intent is
    /// persisted as a pending payment record, stamped with the current time.
    pub fn create_checkout(&mut self, request: PaymentRequest) -> (r: Result<
        PaymentIntent,
        BillingError,
    >)
        ensures
            final (self).path_spec() == old(self).path_spec(),
            final (self).registry_spec() == old(self).registry_spec(),
            final (self).prefix_spec() == old(self).prefix_spec(),
            ({
                let reg = old(self).registry_spec();
                let i = registry_index(reg, request.provider);
                &&& i == -1 ==> (r matches Err(BillingError::ProviderUnavailable(_)) && final (self).state_spec() == old(self).state_spec())
                &&& (i != -1 && !reg[i].enabled) ==> (r matches Err(BillingError::Validation(_))
                    && final (self).state_spec() == old(self).state_spec())
                &&& (i != -1 && reg[i].enabled && request.amount_cents == 0) ==> (r matches Err(
                    BillingError::Validation(_),
                ) && final (self).state_spec() == old(self).state_spec())
                &&& (i != -1 && reg[i].enabled && request.amount_cents > 0) ==> (r is Ok && ({
                    let intent = r->Ok_0;
                    &&& intent@.provider == request.provider
                    &&& intent@.status == PaymentStatus::Pending
                    &&& intent@.amount_cents == request.amount_cents
                    &&& intent@.currency == request.currency@
                    &&& intent@.client_secret is None
                    &&& intent@.metadata == intent_metadata(
                        crate::models::meta_view(request.metadata@),
                        request.user_id@,
                        request.tier,
                    )
                    &&& exists|raw: Seq<u8>|
                        raw.len() == 10 && intent@.id == crate::models::provider_token(
                            request.provider,
                        ) + seq!['_'] + hex_chars(raw, true)
                    &&& intent@.checkout_url == match request.return_url {
                        Some(u) => Some(u@),
                        None => Some(default_checkout_url(request.provider, intent@.id)),
                    }
                    &&& final (self).state_spec().api_keys == old(self).state_spec().api_keys
                    &&& exists|now: u64|
                        final (self).state_spec().payments == upsert_payments(
                            old(self).state_spec().payments,
                            checkout_record(intent@, request, now),
                        )
                }))
            }),
    {
        let idx = match self.find_processor(request.provider) {
            Some(i) => i,
            None => {
                return Err(
                    BillingError::ProviderUnavailable(
                        String::from_str(request.provider.as_str()).concat(" is not registered"),
                    ),
                );
            },
        };
        proof {
            crate::providers::lemma_registry_index_spec(self.registry_spec(), request.provider);
            assert(self.registry_spec()[idx as int] == self.processors@[idx as int].config_spec());
            assert(self.registry_spec()[idx as int].provider == request.provider);
        }
        let intent = match self.processors[idx].create_payment_intent(&request) {
            Ok(intent) => intent,
            Err(e) => {
                return Err(BillingError::Validation(payment_error_message(e)));
            },
        };
        let now = now_epoch_seconds();
        let record = PaymentRecord {
            id: clone_string(&intent.id),
            provider: request.provider,
            status: intent.status,
            amount_cents: request.amount_cents,
            currency: clone_string(&request.currency),
            user_id: clone_string(&request.user_id),
            tier: request.tier,
            metadata: clone_meta(&intent.metadata),
            created_at: now,
            updated_at: now,
            reference: None,
        };
        proof {
            assert(record@ == checkout_record(intent@, request, now));
        }
        match self.store.upsert_payment(record) {
            Ok(_) => {},
            Err(e) => {
                return Err(e);
            },
        }
        Ok(intent)
    }

    /// The position of the processor serving `k`, when one is registered.
    fn find_processor(&self, k: PaymentProviderKind) -> (r: Option<usize>)
        ensures
            match r {
                Some(i) => i < self.registry_spec().len() && registry_index(
                    self.registry_spec(),
                    k,
                ) == i,
                None => registry_index(self.registry_spec(), k) == -1,
            },
    {
        let ghost reg = registry_view(self.processors@);
        let n: usize = self.processors.len();
        let mut i: usize = 0;
        while i < n
            invariant
                n == self.processors@.len(),
                reg == registry_view(self.processors@),
                0 <= i <= n,
                forall|j: int| 0 <= j < i ==> reg[j].provider != k,
            decreases n - i,
        {
            let hit: bool = self.processors[i].kind() == k;
            if hit {
                proof {
                    crate::providers::lemma_registry_index_spec(reg, k);
                    assert(reg[i as int].provider == k);
                    assert(registry_index(reg, k) == i);
                }
                return Some(i);
            }
            assert(reg[i as int].provider == k ==> false);
            i = i + 1;
        }
        proof {
            crate::providers::lemma_registry_index_spec(reg, k);
        }
        None
    }

    /// Settles the payment: its status becomes `Succeeded`, the reference is
    /// attached, a fresh API key scoped to the payment's user and tier is
    /// issued, the key's id is recorded in the payment's metadata under
    /// `api_key_id`, and both records are persisted. `NotFound` with the
    /// state unchanged when the id is absent. The plaintext key is surfaced
    /// exactly once, in the returned value.
    pub fn settle_payment(
        &mut self,
        payment_id: &str,
        reference: Option<String>,
        usage_limit: Option<u64>,
    ) -> (r: Result<IssuedApiKey, BillingError>)
        ensures
            final (self).path_spec() == old(self).path_spec(),
            final (self).registry_spec() == old(self).registry_spec(),
            final (self).prefix_spec() == old(self).prefix_spec(),
            ({
                let ps = old(self).state_spec().payments;
                let i = payment_index(ps, payment_id@);
                &&& i == -1 ==> (r matches Err(BillingError::NotFound(_)) && final (self).state_spec() == old(self).state_spec())
                &&& i != -1 ==> (r is Ok && ({
                    let issued = r->Ok_0;
                    &&& issued_key_wf(issued, old(self).prefix_spec())
                    &&& issued.record@.payment_id == ps[i].id
                    &&& issued.record@.user_id == ps[i].user_id
                    &&& issued.record@.tier == ps[i].tier
                    &&& issued.record@.usage_limit == usage_limit
                    &&& exists|now: u64|
                        final (self).state_spec().payments == ps.update(
                            i,
                            settled_payment(
                                ps[i],
                                opt_str_view(reference),
                                now,
                                issued.record@.id,
                            ),
                        )
                    &&& final (self).state_spec().api_keys == upsert_keys(
                        old(self).state_spec().api_keys,
                        issued.record@,
                    )
                }))
            }),
    {
        let ghost ps = self.store.state_spec().payments;
        let now = now_epoch_seconds();
        let settled = match self.store.update_payment(
            payment_id,
            PaymentChange::Settle { reference, now },
        ) {
            Ok(p) => p,
            Err(e) => {
                return Err(e);
            },
        };
        let ghost i = payment_index(ps, payment_id@);
        let issued = match self.key_manager.issue_key(
            settled.user_id.as_str(),
            settled.id.as_str(),
            settled.tier,
            usage_limit,
        ) {
            Ok(k) => k,
            Err(e) => {
                return Err(e);
            },
        };
        let mut updated = settled;
        meta_insert(
            &mut updated.metadata,
            String::from_str("api_key_id"),
            clone_string(&issued.record.id),
        );
        proof {
            crate::store::lemma_payment_index_spec(ps, payment_id@);
            assert(updated@ == settled_payment(
                ps[i],
                opt_str_view(reference),
                now,
                issued.record@.id,
            ));
        }
        let ghost mid = self.store.state_spec().payments;
        match self.store.upsert_payment(updated) {
            Ok(_) => {},
            Err(e) => {
                return Err(e);
            },
        }
        proof {
            let target = settled_payment(ps[i], opt_str_view(reference), now, issued.record@.id);
            assert(mid == ps.update(i, settle_applied(ps[i], opt_str_view(reference), now)));
            assert(target.id == ps[i].id);
            assert(forall|j: int| 0 <= j < ps.len() && j != i ==> mid[j] == ps[j]);
            crate::store::lemma_payment_index_spec(mid, target.id);
            assert(mid[i].id == target.id);
            assert(payment_index(mid, target.id) == i) by {
                let f = payment_index(mid, target.id);
                if f == -1 {
                    assert(mid[i].id != target.id);
                } else if f < i {
                    assert(ps[f].id != payment_id@);
                    assert(mid[f].id == ps[f].id);
                } else if f > i {
                    assert(mid[i].id != target.id);
                }
            }
            assert(self.store.state_spec().payments =~= ps.update(i, target));
        }
        match self.store.upsert_api_key(clone_api_key(&issued.record)) {
            Ok(_) => {},
            Err(e) => {
                return Err(e);
            },
        }
        Ok(issued)
    }

    /// Marks the payment `Failed`, records the reason in its metadata under
    /// `failure_reason` and stamps the update time. `NotFound` with the
    /// state unchanged when the id is absent.
    pub fn mark_payment_failed(&mut self, payment_id: &str, reason: &str) -> (r: Result<
        (),
        BillingError,
    >)
        ensures
            final (self).path_spec() == old(self).path_spec(),
            final (self).registry_spec() == old(self).registry_spec(),
            final (self).prefix_spec() == old(self).prefix_spec(),
            final (self).state_spec().api_keys == old(self).state_spec().api_keys,
            ({
                let ps = old(self).state_spec().payments;
                let i = payment_index(ps, payment_id@);
                &&& i == -1 ==> (r matches Err(BillingError::NotFound(_)) && final (self).state_spec() == old(self).state_spec())
                &&& i != -1 ==> (r is Ok && exists|now: u64|
                    final (self).state_spec().payments == ps.update(
                        i,
                        fail_applied(ps[i], reason@, now),
                    ))
            }),
    {
        let now = now_epoch_seconds();
        match self.store.update_payment(
            payment_id,
            PaymentChange::Fail { reason: String::from_str(reason), now },
        ) {
            Ok(_) => Ok(()),
            Err(e) => Err(e),
        }
    }

    /// Validates a candidate key: scans all records for one the candidate
    /// verifies against (revoked records never verify), then atomically
    /// re-checks revocation and the usage limit before incrementing the
    /// usage count — the check and increment happen under the same exclusive
    /// access, so no interleaved validation can observe a stale count. The
    /// updated record is returned.
    pub fn validate_api_key(&mut self, candidate: &str) -> (r: Result<ApiKeyRecord, BillingError>)
        ensures
            final (self).path_spec() == old(self).path_spec(),
            final (self).registry_spec() == old(self).registry_spec(),
            final (self).prefix_spec() == old(self).prefix_spec(),
            final (self).state_spec().payments == old(self).state_spec().payments,
            ({
                let ks = old(self).state_spec().api_keys;
                let v = verify_index(ks, candidate@);
                &&& v == -1 ==> (r matches Err(BillingError::Validation(_)) && final (self).state_spec() == old(self).state_spec())
                &&& v != -1 ==> ({
                    let i = key_index(ks, ks[v].id);
                    &&& !use_allowed(ks[i]) ==> (r matches Err(BillingError::Validation(_))
                        && final (self).state_spec() == old(self).state_spec())
                    &&& use_allowed(ks[i]) ==> (r is Ok && exists|now: u64|
                        (r->Ok_0@ == used_once(ks[i], now) && final (self).state_spec().api_keys
                            == ks.update(i, used_once(ks[i], now))))
                })
            }),
    {
        let ghost ks = self.store.state_spec().api_keys;
        let state = self.store.read();
        let n: usize = state.api_keys.len();
        let mut t: usize = 0;
        let mut found: Option<String> = None;
        while t < n && found.is_none()
            invariant
                n == state.api_keys@.len(),
                ks == state@.api_keys,
                0 <= t <= n,
                match found {
                    Some(id) => t >= 1 && t - 1 < n && verify_spec(
                        candidate@,
                        ks[t - 1],
                    ) && id@ == ks[t - 1].id && (forall|j: int|
                        0 <= j < t - 1 ==> !verify_spec(candidate@, ks[j])),
                    None => forall|j: int| 0 <= j < t ==> !verify_spec(candidate@, ks[j]),
                },
            decreases n - t,
        {
            let hit: bool = self.key_manager.verify(candidate, &state.api_keys[t]);
            if hit {
                found = Some(clone_string(&state.api_keys[t].id));
            }
            t = t + 1;
        }
        let record_id = match found {
            Some(id) => id,
            None => {
                proof {
                    lemma_verify_index_spec(ks, candidate@);
                    assert(verify_index(ks, candidate@) == -1) by {
                        if verify_index(ks, candidate@) != -1 {
                            assert(verify_spec(candidate@, ks[verify_index(ks, candidate@)]));
                        }
                    }
                }
                return Err(
                    BillingError::Validation(String::from_str("invalid or unknown API key")),
                );
            },
        };
        let ghost v = verify_index(ks, candidate@);
        proof {
            lemma_verify_index_spec(ks, candidate@);
            assert(verify_spec(candidate@, ks[t - 1]));
            assert(v == t - 1) by {
                if v == -1 {
                    assert(!verify_spec(candidate@, ks[t - 1]));
                } else if v < t - 1 {
                    assert(!verify_spec(candidate@, ks[v]));
                } else if v > t - 1 {
                    assert(!verify_spec(candidate@, ks[t - 1]));
                }
            }
            crate::store::lemma_key_index_spec(ks, ks[v].id);
            assert(key_index(ks, ks[v].id) != -1) by {
                if key_index(ks, ks[v].id) == -1 {
                    assert(ks[v].id != ks[v].id);
                }
            }
        }
        let now = now_epoch_seconds();
        self.store.update_api_key(record_id.as_str(), ApiKeyChange::Use { now })
    }

    /// Revokes the key record irreversibly and stamps the time. `NotFound`
    /// with the state unchanged when the id is absent.
    pub fn revoke_api_key(&mut self, record_id: &str) -> (r: Result<ApiKeyRecord, BillingError>)
        ensures
            final (self).path_spec() == old(self).path_spec(),
            final (self).registry_spec() == old(self).registry_spec(),
            final (self).prefix_spec() == old(self).prefix_spec(),
            final (self).state_spec().payments == old(self).state_spec().payments,
            ({
                let ks = old(self).state_spec().api_keys;
                let i = key_index(ks, record_id@);
                &&& i == -1 ==> (r matches Err(BillingError::NotFound(_)) && final (self).state_spec() == old(self).state_spec())
                &&& i != -1 ==> (r is Ok && exists|now: u64|
                    (r->Ok_0@ == crate::store::revoke_applied(ks[i], now) && final (self).state_spec().api_keys == ks.update(
                        i,
                        crate::store::revoke_applied(ks[i], now),
                    )))
            }),
    {
        let now = now_epoch_seconds();
        self.store.update_api_key(record_id, ApiKeyChange::Revoke { now })
    }

    /// A full snapshot copy of the billing state.
    pub fn list_state(&self) -> (r: BillingState)
        ensures
            r@ == self.state_spec(),
    {
        self.store.snapshot()
    }

    /// The provider kinds with a registered processor, in registry order.
    pub fn processors(&self) -> (r: Vec<PaymentProviderKind>)
        ensures
            r@ == self.registry_spec().map_values(|c: PaymentProviderConfig| c.provider),
    {
        let ghost reg = registry_view(self.processors@);
        let mut out: Vec<PaymentProviderKind> = Vec::new();
        let n: usize = self.processors.len();
        let mut i: usize = 0;
        while i < n
            invariant
                n == self.processors@.len(),
                reg == registry_view(self.processors@),
                0 <= i <= n,
                out@.len() == i,
                forall|j: int| 0 <= j < i ==> out@[j] == reg[j].provider,
            decreases n - i,
        {
            out.push(self.processors[i].kind());
            i = i + 1;
        }
        proof {
            assert(out@ =~= reg.map_values(|c: PaymentProviderConfig| c.provider));
        }
        out
    }
}

} // verus!
