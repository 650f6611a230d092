use crate::api_keys::constant_time_eq;
use crate::error::PaymentError;
use crate::hexstr::hex_chars;
use crate::hexstr::to_hex;
use crate::models::{
    meta_upsert, meta_view, provider_token, tier_token, PaymentIntent, PaymentProviderConfig,
    PaymentProviderKind, PaymentRequest, PaymentStatus,
};
use crate::rng::random_bytes;
use crate::strutil::push_char;
use vstd::prelude::*;
use vstd::string::StrSliceExecFns;
use vstd::string::StringExecFns;
use vstd::utf8::encode_utf8;

verus! {

/// The capability set every payment processor offers. The one shipped
/// implementation is `HostedCheckoutProcessor`; real gateway integrations
/// are meant to stand behind this same interface.
pub trait PaymentProcessor {
    fn kind(&self) -> PaymentProviderKind;

    fn create_payment_intent(&self, request: &PaymentRequest) -> Result<
        PaymentIntent,
        PaymentError,
    >;

    fn confirm_intent(&self, intent_id: &str) -> Result<PaymentStatus, PaymentError>;

    fn validate_webhook_signature(&self, signature: &str, payload: &[u8]) -> bool;
}

/// The checkout domain used when a request carries no return URL.
pub open spec fn domain_token(k: PaymentProviderKind) -> Seq<char> {
    match k {
        PaymentProviderKind::Stripe => "checkout.stripe.com"@,
        PaymentProviderKind::Paypal => "www.paypal.com"@,
        PaymentProviderKind::Shopify => "shop.payments.shopify.com"@,
        PaymentProviderKind::Klarna => "pay.klarna.com"@,
        PaymentProviderKind::Affirm => "checkout.affirm.com"@,
        PaymentProviderKind::ApplePay => "pay.apple.com"@,
        PaymentProviderKind::WePay => "go.wepay.com"@,
        PaymentProviderKind::Venmo => "pay.venmo.com"@,
        PaymentProviderKind::WeChat => "pay.wechat.com"@,
        PaymentProviderKind::QuickBooks => "payments.quickbooks.com"@,
        PaymentProviderKind::Mastercard => "checkout.mastercard.com"@,
        PaymentProviderKind::Visa => "secure.visa.com"@,
        PaymentProviderKind::Bitcoin => "pay.bitcoin.example"@,
    }
}

/// The checkout URL built for an intent when the request has no return URL.
pub open spec fn default_checkout_url(k: PaymentProviderKind, id: Seq<char>) -> Seq<char> {
    "https://"@ + domain_token(k) + "/checkout?intent="@ + id
}

/// The metadata attached to a new intent: the request's own pairs with
/// `user_id` and `tier` merged in.
pub open spec fn intent_metadata(
    req_meta: Seq<(Seq<char>, Seq<char>)>,
    user_id: Seq<char>,
    tier: crate::models::ApiTier,
) -> Seq<(Seq<char>, Seq<char>)> {
    meta_upsert(meta_upsert(req_meta, "user_id"@, user_id), "tier"@, tier_token(tier))
}

/// Whether a webhook signature is accepted: with a configured secret the
/// signature's bytes must equal the secret's and the payload must be
/// non-empty; without one, anything is accepted.
pub open spec fn webhook_ok(
    cfg: PaymentProviderConfig,
    signature: Seq<char>,
    payload: Seq<u8>,
) -> bool {
    match cfg.webhook_secret {
        Some(secret) => encode_utf8(signature) == encode_utf8(secret@) && payload.len() > 0,
        None => true,
    }
}

/// A hosted-checkout style processor: it builds intents that send the payer
/// to a provider-hosted page. `confirm_intent` is a stub that reports
/// success unconditionally for an enabled provider.
pub struct HostedCheckoutProcessor {
    config: PaymentProviderConfig,
}

impl HostedCheckoutProcessor {
    /// The configuration this processor was built with.
    pub closed spec fn config_spec(&self) -> PaymentProviderConfig {
        self.config
    }

    pub fn new(config: PaymentProviderConfig) -> (r: HostedCheckoutProcessor)
        ensures
            r.config_spec() == config,
    {
        HostedCheckoutProcessor { config }
    }

    /// The provider this processor serves.
    pub fn kind(&self) -> (r: PaymentProviderKind)
        ensures
            r == self.config_spec().provider,
    {
        self.config.provider
    }

    fn checkout_domain(&self) -> (r: &'static str)
        ensures
            r@ == domain_token(self.config_spec().provider),
    {
        match self.config.provider {
            PaymentProviderKind::Stripe => "checkout.stripe.com",
            PaymentProviderKind::Paypal => "www.paypal.com",
            PaymentProviderKind::Shopify => "shop.payments.shopify.com",
            PaymentProviderKind::Klarna => "pay.klarna.com",
            PaymentProviderKind::Affirm => "checkout.affirm.com",
            PaymentProviderKind::ApplePay => "pay.apple.com",
            PaymentProviderKind::WePay => "go.wepay.com",
            PaymentProviderKind::Venmo => "pay.venmo.com",
            PaymentProviderKind::WeChat => "pay.wechat.com",
            PaymentProviderKind::QuickBooks => "payments.quickbooks.com",
            PaymentProviderKind::Mastercard => "checkout.mastercard.com",
            PaymentProviderKind::Visa => "secure.visa.com",
            PaymentProviderKind::Bitcoin => "pay.bitcoin.example",
        }
    }

    /// A provider-scoped reference id: the provider token, an underscore,
    /// then twenty uppercase hex characters of fresh random bytes.
    fn create_reference(&self) -> (r: String)
        ensures
            exists|raw: Seq<u8>|
                raw.len() == 10 && r@ == provider_token(self.config_spec().provider)
                    + seq!['_'] + hex_chars(raw, true),
    {
        let bytes = random_bytes(10);
        let hex = to_hex(bytes.as_slice(), true);
        let mut out = String::new();
        out.append(self.config.provider.as_str());
        push_char(&mut out, '_');
        out.append(hex.as_str());
        proof {
            assert(out@ =~= provider_token(self.config_spec().provider) + seq!['_'] + hex_chars(
                bytes@,
                true,
            ));
        }
        out
    }

    /// Builds a pending intent for the request, or rejects it: a disabled
    /// provider is unavailable, a zero amount fails validation. The intent
    /// carries the request's amount and currency, merged metadata, and a
    /// checkout URL taken from the request's return URL or built from the
    /// provider's default domain.
    pub fn create_payment_intent(&self, request: &PaymentRequest) -> (r: Result<
        PaymentIntent,
        PaymentError,
    >)
        ensures
            !self.config_spec().enabled ==> r matches Err(PaymentError::ProviderUnavailable(_)),
            self.config_spec().enabled && request.amount_cents == 0 ==> r matches Err(
                PaymentError::Validation(_),
            ),
            self.config_spec().enabled && request.amount_cents > 0 ==> r is Ok && ({
                let intent = r->Ok_0;
                &&& intent@.provider == self.config_spec().provider
                &&& intent@.status == PaymentStatus::Pending
                &&& intent@.amount_cents == request.amount_cents
                &&& intent@.currency == request.currency@
                &&& intent@.client_secret is None
                &&& intent@.metadata == intent_metadata(
                    meta_view(request.metadata@),
                    request.user_id@,
                    request.tier,
                )
                &&& exists|raw: Seq<u8>|
                    raw.len() == 10 && intent@.id == provider_token(self.config_spec().provider)
                        + seq!['_'] + hex_chars(raw, true)
                &&& intent@.checkout_url == match request.return_url {
                    Some(u) => Some(u@),
                    None => Some(
                        default_checkout_url(self.config_spec().provider, intent@.id),
                    ),
                }
            }),
    {
        if !self.config.enabled {
            return Err(PaymentError::ProviderUnavailable(String::from_str("provider is disabled")));
        }
        if request.amount_cents == 0 {
            return Err(
                PaymentError::Validation(String::from_str("amount must be greater than zero")),
            );
        }

        let intent_id = self.create_reference();
        let mut metadata = clone_meta(&request.metadata);
        crate::models::meta_insert(&mut metadata, String::from_str("user_id"), clone_string(&request.user_id));
        crate::models::meta_insert(
            &mut metadata,
            String::from_str("tier"),
            String::from_str(request.tier.as_str()),
        );

        let checkout_url = match &request.return_url {
            Some(u) => Some(clone_string(u)),
            None => {
                let mut url = String::new();
                url.append("https://");
                url.append(self.checkout_domain());
                url.append("/checkout?intent=");
                url.append(intent_id.as_str());
                proof {
                    assert(url@ =~= default_checkout_url(
                        self.config_spec().provider,
                        intent_id@,
                    ));
                }
                Some(url)
            },
        };

        Ok(
            PaymentIntent {
                id: intent_id,
                provider: self.config.provider,
                status: PaymentStatus::Pending,
                amount_cents: request.amount_cents,
                currency: clone_string(&request.currency),
                checkout_url,
                client_secret: None,
                metadata,
            },
        )
    }

    /// Reports the status of an intent: unavailable when the provider is
    /// disabled, otherwise always `Succeeded` — stub semantics; a real
    /// integration must query the provider.
    pub fn confirm_intent(&self, intent_id: &str) -> (r: Result<PaymentStatus, PaymentError>)
        ensures
            !self.config_spec().enabled ==> r matches Err(PaymentError::ProviderUnavailable(_)),
            self.config_spec().enabled ==> (r matches Ok(s) && s == PaymentStatus::Succeeded),
    {
        if !self.config.enabled {
            return Err(PaymentError::ProviderUnavailable(String::from_str("provider is disabled")));
        }
        Ok(PaymentStatus::Succeeded)
    }

    /// Decides whether a webhook signature is genuine, comparing against the
    /// configured secret in constant time; with no secret configured, every
    /// signature is accepted.
    pub fn validate_webhook_signature(&self, signature: &str, payload: &[u8]) -> (r: bool)
        ensures
            r == webhook_ok(self.config_spec(), signature@, payload@),
    {
        match &self.config.webhook_secret {
            Some(expected) => {
                let sig_bytes: &[u8] = signature.as_bytes();
                let exp_bytes: &[u8] = expected.as_str().as_bytes();
                let same = constant_time_eq(sig_bytes, exp_bytes);
                same && payload.len() > 0
            },
            None => true,
        }
    }
}

impl PaymentProcessor for HostedCheckoutProcessor {
    fn kind(&self) -> PaymentProviderKind {
        HostedCheckoutProcessor::kind(self)
    }

    fn create_payment_intent(&self, request: &PaymentRequest) -> Result<
        PaymentIntent,
        PaymentError,
    > {
        HostedCheckoutProcessor::create_payment_intent(self, request)
    }

    fn confirm_intent(&self, intent_id: &str) -> Result<PaymentStatus, PaymentError> {
        HostedCheckoutProcessor::confirm_intent(self, intent_id)
    }

    fn validate_webhook_signature(&self, signature: &str, payload: &[u8]) -> bool {
        HostedCheckoutProcessor::validate_webhook_signature(self, signature, payload)
    }
}

/// First index of a processor for kind `k`, or -1 when none serves it.
pub open spec fn registry_index(procs: Seq<PaymentProviderConfig>, k: PaymentProviderKind) -> int
    decreases procs.len(),
{
    if procs.len() == 0 {
        -1
    } else if procs[0].provider == k {
        0
    } else {
        let r = registry_index(procs.drop_first(), k);
        if r == -1 {
            -1
        } else {
            r + 1
        }
    }
}

/// `registry_index` finds the first processor for a kind, or -1.
pub proof fn lemma_registry_index_spec(procs: Seq<PaymentProviderConfig>, k: PaymentProviderKind)
    ensures
        registry_index(procs, k) == -1 ==> forall|j: int|
            0 <= j < procs.len() ==> procs[j].provider != k,
        registry_index(procs, k) != -1 ==> 0 <= registry_index(procs, k) < procs.len()
            && procs[registry_index(procs, k)].provider == k && (forall|j: int|
            0 <= j < registry_index(procs, k) ==> procs[j].provider != k),
    decreases procs.len(),
{
    if procs.len() > 0 {
        let d = procs.drop_first();
        lemma_registry_index_spec(d, k);
        assert(forall|j: int| 0 <= j < d.len() ==> #[trigger] d[j] == procs[j + 1]);
        if procs[0].provider != k {
            let r = registry_index(d, k);
            if r == -1 {
                assert(forall|j: int| 1 <= j < procs.len() ==> procs[j] == d[j - 1]);
            } else {
                assert(forall|j: int| 1 <= j < r + 1 ==> procs[j] == d[j - 1]);
            }
        }
    }
}

/// The registry configurations after folding in `configs` one by one: for
/// each, the first processor of the same kind is replaced, or one is
/// appended — the behaviour of inserting into a map keyed by kind.
pub open spec fn registry_fold(configs: Seq<PaymentProviderConfig>) -> Seq<PaymentProviderConfig>
    decreases configs.len(),
{
    if configs.len() == 0 {
        Seq::empty()
    } else {
        let prev = registry_fold(configs.drop_last());
        let c = configs.last();
        let i = registry_index(prev, c.provider);
        if i == -1 {
            prev.push(c)
        } else {
            prev.update(i, c)
        }
    }
}

/// The configurations the processors of a registry were built with.
pub open spec fn registry_view(procs: Seq<HostedCheckoutProcessor>) -> Seq<PaymentProviderConfig> {
    procs.map_values(|p: HostedCheckoutProcessor| p.config_spec())
}

/// Builds the processor registry for the given configurations: one
/// hosted-checkout processor per provider kind, a later configuration for
/// the same kind replacing the earlier one.
pub fn build_processor_map(configs: Vec<PaymentProviderConfig>) -> (r: Vec<
    HostedCheckoutProcessor,
>)
    ensures
        registry_view(r@) == registry_fold(configs@),
{
    let mut procs: Vec<HostedCheckoutProcessor> = Vec::new();
    let n: usize = configs.len();
    let mut i: usize = 0;
    proof {
        assert(configs@.take(0) =~= Seq::<PaymentProviderConfig>::empty());
        assert(registry_view(procs@) =~= registry_fold(configs@.take(0)));
    }
    while i < n
        invariant
            n == configs@.len(),
            0 <= i <= n,
            registry_view(procs@) == registry_fold(configs@.take(i as int)),
        decreases n - i,
    {
        let cfg = clone_config(&configs[i]);
        upsert_processor(&mut procs, cfg);
        proof {
            assert(configs@.take(i + 1).drop_last() =~= configs@.take(i as int));
            assert(configs@.take(i + 1).last() == configs@[i as int]);
        }
        i = i + 1;
    }
    proof {
        assert(configs@.take(n as int) =~= configs@);
    }
    procs
}

/// Replaces the first processor of `cfg`'s kind, or appends a new one.
fn upsert_processor(procs: &mut Vec<HostedCheckoutProcessor>, cfg: PaymentProviderConfig)
    ensures
        registry_view(final (procs)@) == ({
            let prev = registry_view(old(procs)@);
            let i = registry_index(prev, cfg.provider);
            if i == -1 {
                prev.push(cfg)
            } else {
                prev.update(i, cfg)
            }
        }),
{
    let n: usize = procs.len();
    let mut j: usize = 0;
    while j < n
        invariant
            n == procs@.len(),
            0 <= j <= n,
            procs@ == old(procs)@,
            forall|t: int| 0 <= t < j ==> registry_view(procs@)[t].provider != cfg.provider,
        decreases n - j,
    {
        let hit: bool = procs[j].kind() == cfg.provider;
        if hit {
            proof {
                lemma_registry_index_spec(registry_view(procs@), cfg.provider);
                assert(registry_view(procs@)[j as int].provider == cfg.provider);
                assert(registry_index(registry_view(procs@), cfg.provider) == j);
            }
            procs.set(j, HostedCheckoutProcessor::new(cfg));
            proof {
                assert(registry_view(procs@) =~= registry_view(old(procs)@).update(
                    j as int,
                    cfg,
                ));
            }
            return ;
        }
        assert(registry_view(procs@)[j as int].provider == cfg.provider ==> false);
        j = j + 1;
    }
    proof {
        lemma_registry_index_spec(registry_view(procs@), cfg.provider);
        assert(registry_index(registry_view(procs@), cfg.provider) == -1);
    }
    procs.push(HostedCheckoutProcessor::new(cfg));
    proof {
        assert(registry_view(procs@) =~= registry_view(old(procs)@).push(cfg));
    }
}

/// Duplicates a string; the copy equals the original.
pub fn clone_string(s: &String) -> (r: String)
    ensures
        r == *s,
{
    s.clone()
}

/// Duplicates an optional string; the copy equals the original.
pub fn clone_opt_string(s: &Option<String>) -> (r: Option<String>)
    ensures
        r == *s,
{
    match s {
        Some(v) => Some(clone_string(v)),
        None => None,
    }
}

/// Duplicates a provider configuration; the copy equals the original.
pub fn clone_config(c: &PaymentProviderConfig) -> (r: PaymentProviderConfig)
    ensures
        r == *c,
{
    PaymentProviderConfig {
        provider: c.provider,
        enabled: c.enabled,
        api_key: clone_opt_string(&c.api_key),
        webhook_secret: clone_opt_string(&c.webhook_secret),
        merchant_id: clone_opt_string(&c.merchant_id),
        region: clone_opt_string(&c.region),
    }
}

/// Duplicates a metadata vector; the copy equals the original.
pub fn clone_meta(m: &Vec<(String, String)>) -> (r: Vec<(String, String)>)
    ensures
        r@ == m@,
{
    let mut out: Vec<(String, String)> = Vec::new();
    let n: usize = m.len();
    let mut i: usize = 0;
    while i < n
        invariant
            n == m@.len(),
            0 <= i <= n,
            out@.len() == i,
            forall|j: int| 0 <= j < i ==> #[trigger] out@[j] == m@[j],
        decreases n - i,
    {
        let pair = (clone_string(&m[i].0), clone_string(&m[i].1));
        out.push(pair);
        i = i + 1;
    }
    proof {
        assert(out@ =~= m@);
    }
    out
}

} // verus!
