use vstd::prelude::*;

verus! {

/// The payment providers a checkout can be routed to.
#[derive(Debug, Clone, Copy, PartialEq, Eq, Hash, Structural)]
pub enum PaymentProviderKind {
    Stripe,
    Paypal,
    Shopify,
    Klarna,
    Affirm,
    ApplePay,
    WePay,
    Venmo,
    WeChat,
    QuickBooks,
    Mastercard,
    Visa,
    Bitcoin,
}

/// The lowercase snake-case token that names a provider kind.
pub open spec fn provider_token(k: PaymentProviderKind) -> Seq<char> {
    match k {
        PaymentProviderKind::Stripe => "stripe"@,
        PaymentProviderKind::Paypal => "paypal"@,
        PaymentProviderKind::Shopify => "shopify"@,
        PaymentProviderKind::Klarna => "klarna"@,
        PaymentProviderKind::Affirm => "affirm"@,
        PaymentProviderKind::ApplePay => "apple_pay"@,
        PaymentProviderKind::WePay => "wepay"@,
        PaymentProviderKind::Venmo => "venmo"@,
        PaymentProviderKind::WeChat => "wechat"@,
        PaymentProviderKind::QuickBooks => "quickbooks"@,
        PaymentProviderKind::Mastercard => "mastercard"@,
        PaymentProviderKind::Visa => "visa"@,
        PaymentProviderKind::Bitcoin => "bitcoin"@,
    }
}

impl PaymentProviderKind {
    pub fn as_str(&self) -> (r: &'static str)
        ensures
            r@ == provider_token(*self),
    {
        match self {
            PaymentProviderKind::Stripe => "stripe",
            PaymentProviderKind::Paypal => "paypal",
            PaymentProviderKind::Shopify => "shopify",
            PaymentProviderKind::Klarna => "klarna",
            PaymentProviderKind::Affirm => "affirm",
            PaymentProviderKind::ApplePay => "apple_pay",
            PaymentProviderKind::WePay => "wepay",
            PaymentProviderKind::Venmo => "venmo",
            PaymentProviderKind::WeChat => "wechat",
            PaymentProviderKind::QuickBooks => "quickbooks",
            PaymentProviderKind::Mastercard => "mastercard",
            PaymentProviderKind::Visa => "visa",
            PaymentProviderKind::Bitcoin => "bitcoin",
        }
    }
}

/// Lifecycle states of a payment record.
#[derive(Debug, Clone, Copy, PartialEq, Eq, Structural)]
pub enum PaymentStatus {
    Pending,
    RequiresAction,
    Authorized,
    Succeeded,
    Refunded,
    Failed,
    Chargeback,
}

/// The lowercase snake-case token that names a payment status.
pub open spec fn status_token(s: PaymentStatus) -> Seq<char> {
    match s {
        PaymentStatus::Pending => "pending"@,
        PaymentStatus::RequiresAction => "requires_action"@,
        PaymentStatus::Authorized => "authorized"@,
        PaymentStatus::Succeeded => "succeeded"@,
        PaymentStatus::Refunded => "refunded"@,
        PaymentStatus::Failed => "failed"@,
        PaymentStatus::Chargeback => "chargeback"@,
    }
}

/// Service tiers an API key can be scoped to.
#[derive(Debug, Clone, Copy, PartialEq, Eq, Structural)]
pub enum ApiTier {
    Trial,
    Standard,
    Premium,
    Enterprise,
}

/// The lowercase token that names a tier.
pub open spec fn tier_token(t: ApiTier) -> Seq<char> {
    match t {
        ApiTier::Trial => "trial"@,
        ApiTier::Standard => "standard"@,
        ApiTier::Premium => "premium"@,
        ApiTier::Enterprise => "enterprise"@,
    }
}

impl ApiTier {
    pub fn as_str(&self) -> (r: &'static str)
        ensures
            r@ == tier_token(*self),
    {
        match self {
            ApiTier::Trial => "trial",
            ApiTier::Standard => "standard",
            ApiTier::Premium => "premium",
            ApiTier::Enterprise => "enterprise",
        }
    }
}

/// Static configuration of one payment provider.
#[derive(Debug, Clone, PartialEq, Eq)]
pub struct PaymentProviderConfig {
    pub provider: PaymentProviderKind,
    pub enabled: bool,
    pub api_key: Option<String>,
    pub webhook_secret: Option<String>,
    pub merchant_id: Option<String>,
    pub region: Option<String>,
}

impl PaymentProviderConfig {
    /// An enabled configuration for `provider` with no credentials attached.
    pub fn enabled(provider: PaymentProviderKind) -> (r: PaymentProviderConfig)
        ensures
            r.provider == provider,
            r.enabled,
            r.api_key is None,
            r.webhook_secret is None,
            r.merchant_id is None,
            r.region is None,
    {
        PaymentProviderConfig {
            provider,
            enabled: true,
            api_key: None,
            webhook_secret: None,
            merchant_id: None,
            region: None,
        }
    }
}

/// A caller's request to create a checkout.
#[derive(Debug, Clone, PartialEq, Eq)]
pub struct PaymentRequest {
    pub provider: PaymentProviderKind,
    pub amount_cents: u64,
    pub currency: String,
    pub user_id: String,
    pub tier: ApiTier,
    pub metadata: Vec<(String, String)>,
    pub return_url: Option<String>,
    pub cancel_url: Option<String>,
}

/// The transient provider-facing projection returned from checkout creation;
/// a `PaymentRecord` is derived from it, the intent itself is not persisted.
#[derive(Debug, Clone, PartialEq, Eq)]
pub struct PaymentIntent {
    pub id: String,
    pub provider: PaymentProviderKind,
    pub status: PaymentStatus,
    pub amount_cents: u64,
    pub currency: String,
    pub checkout_url: Option<String>,
    pub client_secret: Option<String>,
    pub metadata: Vec<(String, String)>,
}

/// A persisted payment.
#[derive(Debug, Clone, PartialEq, Eq)]
pub struct PaymentRecord {
    pub id: String,
    pub provider: PaymentProviderKind,
    pub status: PaymentStatus,
    pub amount_cents: u64,
    pub currency: String,
    pub user_id: String,
    pub tier: ApiTier,
    pub metadata: Vec<(String, String)>,
    pub created_at: u64,
    pub updated_at: u64,
    pub reference: Option<String>,
}

/// A persisted API-key credential; only the salted hash of the key is stored.
#[derive(Debug, Clone, PartialEq, Eq)]
pub struct ApiKeyRecord {
    pub id: String,
    pub hashed_key: String,
    pub user_id: String,
    pub payment_id: String,
    pub tier: ApiTier,
    pub created_at: u64,
    pub revoked: bool,
    pub usage_limit: Option<u64>,
    pub usage_count: u64,
    pub last_used_at: Option<u64>,
}

/// The entire persisted universe: all payments and all API keys.
#[derive(Debug, Clone, PartialEq, Eq)]
pub struct BillingState {
    pub payments: Vec<PaymentRecord>,
    pub api_keys: Vec<ApiKeyRecord>,
}

impl Default for BillingState {
    fn default() -> (r: BillingState)
        ensures
            r@.payments.len() == 0,
            r@.api_keys.len() == 0,
    {
        BillingState { payments: Vec::new(), api_keys: Vec::new() }
    }
}

/// A freshly issued key: the one-time plaintext paired with its record.
#[derive(Debug, Clone, PartialEq, Eq)]
pub struct IssuedApiKey {
    pub api_key: String,
    pub record: ApiKeyRecord,
}

/// Mathematical model of a metadata mapping: key/value pairs in order.
pub open spec fn meta_view(m: Seq<(String, String)>) -> Seq<(Seq<char>, Seq<char>)> {
    m.map_values(|p: (String, String)| (p.0@, p.1@))
}

/// The view of an optional string.
pub open spec fn opt_str_view(o: Option<String>) -> Option<Seq<char>> {
    match o {
        Some(s) => Some(s@),
        None => None,
    }
}

/// Mathematical model of a `PaymentRecord`.
pub ghost struct PaymentRecordV {
    pub id: Seq<char>,
    pub provider: PaymentProviderKind,
    pub status: PaymentStatus,
    pub amount_cents: u64,
    pub currency: Seq<char>,
    pub user_id: Seq<char>,
    pub tier: ApiTier,
    pub metadata: Seq<(Seq<char>, Seq<char>)>,
    pub created_at: u64,
    pub updated_at: u64,
    pub reference: Option<Seq<char>>,
}

impl View for PaymentRecord {
    type V = PaymentRecordV;

    open spec fn view(&self) -> PaymentRecordV {
        PaymentRecordV {
            id: self.id@,
            provider: self.provider,
            status: self.status,
            amount_cents: self.amount_cents,
            currency: self.currency@,
            user_id: self.user_id@,
            tier: self.tier,
            metadata: meta_view(self.metadata@),
            created_at: self.created_at,
            updated_at: self.updated_at,
            reference: match self.reference {
                Some(r) => Some(r@),
                None => None,
            },
        }
    }
}

/// Mathematical model of an `ApiKeyRecord`.
pub ghost struct ApiKeyRecordV {
    pub id: Seq<char>,
    pub hashed_key: Seq<char>,
    pub user_id: Seq<char>,
    pub payment_id: Seq<char>,
    pub tier: ApiTier,
    pub created_at: u64,
    pub revoked: bool,
    pub usage_limit: Option<u64>,
    pub usage_count: u64,
    pub last_used_at: Option<u64>,
}

impl View for ApiKeyRecord {
    type V = ApiKeyRecordV;

    open spec fn view(&self) -> ApiKeyRecordV {
        ApiKeyRecordV {
            id: self.id@,
            hashed_key: self.hashed_key@,
            user_id: self.user_id@,
            payment_id: self.payment_id@,
            tier: self.tier,
            created_at: self.created_at,
            revoked: self.revoked,
            usage_limit: self.usage_limit,
            usage_count: self.usage_count,
            last_used_at: self.last_used_at,
        }
    }
}

/// Mathematical model of a `PaymentIntent`.
pub ghost struct PaymentIntentV {
    pub id: Seq<char>,
    pub provider: PaymentProviderKind,
    pub status: PaymentStatus,
    pub amount_cents: u64,
    pub currency: Seq<char>,
    pub checkout_url: Option<Seq<char>>,
    pub client_secret: Option<Seq<char>>,
    pub metadata: Seq<(Seq<char>, Seq<char>)>,
}

impl View for PaymentIntent {
    type V = PaymentIntentV;

    open spec fn view(&self) -> PaymentIntentV {
        PaymentIntentV {
            id: self.id@,
            provider: self.provider,
            status: self.status,
            amount_cents: self.amount_cents,
            currency: self.currency@,
            checkout_url: match self.checkout_url {
                Some(u) => Some(u@),
                None => None,
            },
            client_secret: match self.client_secret {
                Some(s) => Some(s@),
                None => None,
            },
            metadata: meta_view(self.metadata@),
        }
    }
}

/// Mathematical model of the whole billing state.
pub ghost struct BillingStateV {
    pub payments: Seq<PaymentRecordV>,
    pub api_keys: Seq<ApiKeyRecordV>,
}

impl View for BillingState {
    type V = BillingStateV;

    open spec fn view(&self) -> BillingStateV {
        BillingStateV {
            payments: self.payments@.map_values(|p: PaymentRecord| p@),
            api_keys: self.api_keys@.map_values(|k: ApiKeyRecord| k@),
        }
    }
}

/// First index of `key` in a metadata sequence, or -1 when absent.
pub open spec fn meta_index(m: Seq<(Seq<char>, Seq<char>)>, key: Seq<char>) -> int
    decreases m.len(),
{
    if m.len() == 0 {
        -1
    } else if m[0].0 == key {
        0
    } else {
        let r = meta_index(m.drop_first(), key);
        if r == -1 {
            -1
        } else {
            r + 1
        }
    }
}

/// Metadata after inserting or replacing the pair for `key`.
pub open spec fn meta_upsert(
    m: Seq<(Seq<char>, Seq<char>)>,
    key: Seq<char>,
    value: Seq<char>,
) -> Seq<(Seq<char>, Seq<char>)> {
    let i = meta_index(m, key);
    if i == -1 {
        m.push((key, value))
    } else {
        m.update(i, (key, value))
    }
}

/// The value stored under `key`, when present.
pub open spec fn meta_get(m: Seq<(Seq<char>, Seq<char>)>, key: Seq<char>) -> Option<Seq<char>> {
    let i = meta_index(m, key);
    if i == -1 {
        None
    } else {
        Some(m[i].1)
    }
}

/// `meta_index` finds the first pair with the given key, or -1 when none
/// carries it.
pub proof fn lemma_meta_index_spec(m: Seq<(Seq<char>, Seq<char>)>, key: Seq<char>)
    ensures
        meta_index(m, key) == -1 ==> forall|j: int| 0 <= j < m.len() ==> m[j].0 != key,
        meta_index(m, key) != -1 ==> 0 <= meta_index(m, key) < m.len() && m[meta_index(m, key)].0
            == key && (forall|j: int| 0 <= j < meta_index(m, key) ==> m[j].0 != key),
    decreases m.len(),
{
    if m.len() > 0 {
        let d = m.drop_first();
        lemma_meta_index_spec(d, key);
        assert(forall|j: int| 0 <= j < d.len() ==> #[trigger] d[j] == m[j + 1]);
        if m[0].0 != key {
            let r = meta_index(d, key);
            if r == -1 {
                assert(meta_index(m, key) == -1);
                assert(forall|j: int| 1 <= j < m.len() ==> m[j] == d[j - 1]);
            } else {
                assert(meta_index(m, key) == r + 1);
                assert(forall|j: int| 1 <= j < r + 1 ==> m[j] == d[j - 1]);
            }
        }
    }
}

/// After an upsert, looking the key up finds exactly the inserted value.
pub proof fn lemma_meta_upsert_get(
    m: Seq<(Seq<char>, Seq<char>)>,
    key: Seq<char>,
    value: Seq<char>,
)
    ensures
        meta_get(meta_upsert(m, key, value), key) == Some(value),
{
    lemma_meta_index_spec(m, key);
    let i = meta_index(m, key);
    let w = meta_upsert(m, key, value);
    lemma_meta_index_spec(w, key);
    if i == -1 {
        assert(w == m.push((key, value)));
        assert(w[m.len() as int].0 == key);
        let f = meta_index(w, key);
        assert(f != -1);
        if f < m.len() {
            assert(w[f] == m[f]);
        }
        assert(f == m.len());
    } else {
        assert(w == m.update(i, (key, value)));
        assert(w[i].0 == key);
        let f = meta_index(w, key);
        assert(f != -1);
        if f < i {
            assert(w[f] == m[f]);
        } else if f > i {
            assert(w[i].0 != key);
        }
        assert(f == i);
    }
}

/// Inserts or replaces the pair for `key` in a metadata vector, as a map
/// insertion would; the first pair with that key is the one replaced.
pub fn meta_insert(m: &mut Vec<(String, String)>, key: String, value: String)
    ensures
        meta_view(final (m)@) == meta_upsert(meta_view(old(m)@), key@, value@),
{
    let n: usize = m.len();
    let mut i: usize = 0;
    while i < n
        invariant
            n == m@.len(),
            0 <= i <= n,
            m@ == old(m)@,
            forall|j: int| 0 <= j < i ==> meta_view(m@)[j].0 != key@,
        decreases n - i,
    {
        let hit: bool = m[i].0 == key;
        if hit {
            proof {
                lemma_meta_index_spec(meta_view(m@), key@);
                assert(meta_view(m@)[i as int].0 == key@);
                assert(meta_index(meta_view(m@), key@) == i);
            }
            m.set(i, (key, value));
            proof {
                assert(meta_view(m@) =~= meta_upsert(meta_view(old(m)@), key@, value@));
            }
            return ;
        }
        assert(meta_view(m@)[i as int].0 == key@ ==> false);
        i = i + 1;
    }
    proof {
        lemma_meta_index_spec(meta_view(m@), key@);
        assert(meta_index(meta_view(m@), key@) == -1);
    }
    m.push((key, value));
    proof {
        assert(meta_view(m@) =~= meta_upsert(meta_view(old(m)@), key@, value@));
    }
}

/// Duplicates a payment record; the copy has the same view.
pub fn clone_payment(p: &PaymentRecord) -> (r: PaymentRecord)
    ensures
        r@ == p@,
        r.id == p.id,
{
    PaymentRecord {
        id: crate::providers::clone_string(&p.id),
        provider: p.provider,
        status: p.status,
        amount_cents: p.amount_cents,
        currency: crate::providers::clone_string(&p.currency),
        user_id: crate::providers::clone_string(&p.user_id),
        tier: p.tier,
        metadata: crate::providers::clone_meta(&p.metadata),
        created_at: p.created_at,
        updated_at: p.updated_at,
        reference: crate::providers::clone_opt_string(&p.reference),
    }
}

/// Duplicates an API-key record; the copy equals the original.
pub fn clone_api_key(k: &ApiKeyRecord) -> (r: ApiKeyRecord)
    ensures
        r == *k,
{
    ApiKeyRecord {
        id: crate::providers::clone_string(&k.id),
        hashed_key: crate::providers::clone_string(&k.hashed_key),
        user_id: crate::providers::clone_string(&k.user_id),
        payment_id: crate::providers::clone_string(&k.payment_id),
        tier: k.tier,
        created_at: k.created_at,
        revoked: k.revoked,
        usage_limit: k.usage_limit,
        usage_count: k.usage_count,
        last_used_at: k.last_used_at,
    }
}

/// Duplicates a whole billing state; the copy has the same view.
pub fn clone_state(s: &BillingState) -> (r: BillingState)
    ensures
        r@ == s@,
{
    let mut payments: Vec<PaymentRecord> = Vec::new();
    let np: usize = s.payments.len();
    let mut i: usize = 0;
    while i < np
        invariant
            np == s.payments@.len(),
            0 <= i <= np,
            payments@.len() == i,
            forall|j: int| 0 <= j < i ==> (#[trigger] payments@[j])@ == s.payments@[j]@,
        decreases np - i,
    {
        payments.push(clone_payment(&s.payments[i]));
        i = i + 1;
    }
    let mut api_keys: Vec<ApiKeyRecord> = Vec::new();
    let nk: usize = s.api_keys.len();
    let mut t: usize = 0;
    while t < nk
        invariant
            nk == s.api_keys@.len(),
            0 <= t <= nk,
            api_keys@.len() == t,
            forall|j: int| 0 <= j < t ==> #[trigger] api_keys@[j] == s.api_keys@[j],
        decreases nk - t,
    {
        api_keys.push(clone_api_key(&s.api_keys[t]));
        t = t + 1;
    }
    proof {
        assert(payments@.map_values(|p: PaymentRecord| p@) =~= s.payments@.map_values(
            |p: PaymentRecord| p@,
        ));
        assert(api_keys@.map_values(|k: ApiKeyRecord| k@) =~= s.api_keys@.map_values(
            |k: ApiKeyRecord| k@,
        ));
    }
    BillingState { payments, api_keys }
}

} // verus!
