use billing::{
    ApiKeyManager, ApiKeyRecord, ApiTier, BillingError, BillingService, BillingState,
    HostedCheckoutProcessor, PaymentProviderConfig, PaymentProviderKind, PaymentRequest,
    PaymentStatus,
};

fn request(provider: PaymentProviderKind, amount: u64) -> PaymentRequest {
    PaymentRequest {
        provider,
        amount_cents: amount,
        currency: String::from("usd"),
        user_id: String::from("user-1"),
        tier: ApiTier::Premium,
        metadata: Vec::new(),
        return_url: None,
        cancel_url: None,
    }
}

fn stripe_service() -> BillingService {
    BillingService::new(
        String::from("billing_state.json"),
        vec![PaymentProviderConfig::enabled(PaymentProviderKind::Stripe)],
    )
    .unwrap()
}

#[test]
fn checkout_creates_pending_payment() {
    let mut svc = stripe_service();
    let intent = svc.create_checkout(request(PaymentProviderKind::Stripe, 1234)).unwrap();
    assert_eq!(intent.provider, PaymentProviderKind::Stripe);
    assert_eq!(intent.status, PaymentStatus::Pending);
    assert_eq!(intent.amount_cents, 1234);
    assert_eq!(intent.currency, "usd");
    assert!(intent.client_secret.is_none());
    let url = intent.checkout_url.clone().unwrap();
    assert!(url.starts_with("https://checkout.stripe.com/checkout?intent="));
    assert!(url.ends_with(&intent.id));
    let state = svc.list_state();
    assert_eq!(state.payments.len(), 1);
    let p = &state.payments[0];
    assert_eq!(p.id, intent.id);
    assert_eq!(p.status, PaymentStatus::Pending);
    assert_eq!(p.amount_cents, 1234);
    assert_eq!(p.created_at, p.updated_at);
    assert!(p.reference.is_none());
    assert_eq!(state.api_keys.len(), 0);
}

#[test]
fn checkout_uses_return_url_when_given() {
    let mut svc = stripe_service();
    let mut req = request(PaymentProviderKind::Stripe, 50);
    req.return_url = Some(String::from("https://example.test/back"));
    let intent = svc.create_checkout(req).unwrap();
    assert_eq!(intent.checkout_url.as_deref(), Some("https://example.test/back"));
}

#[test]
fn checkout_merges_user_and_tier_metadata() {
    let mut svc = stripe_service();
    let mut req = request(PaymentProviderKind::Stripe, 10);
    req.metadata.push((String::from("user_id"), String::from("stale")));
    req.metadata.push((String::from("plan"), String::from("x")));
    let intent = svc.create_checkout(req).unwrap();
    let users: Vec<&(String, String)> =
        intent.metadata.iter().filter(|p| p.0 == "user_id").collect();
    assert_eq!(users.len(), 1);
    assert_eq!(users[0].1, "user-1");
    assert!(intent.metadata.iter().any(|p| p.0 == "tier" && p.1 == "premium"));
    assert!(intent.metadata.iter().any(|p| p.0 == "plan" && p.1 == "x"));
}

#[test]
fn checkout_zero_amount_is_validation_error() {
    let mut svc = stripe_service();
    let r = svc.create_checkout(request(PaymentProviderKind::Stripe, 0));
    assert!(matches!(r, Err(BillingError::Validation(_))));
    assert_eq!(svc.list_state().payments.len(), 0);
}

#[test]
fn checkout_unregistered_provider_is_unavailable() {
    let mut svc = stripe_service();
    let r = svc.create_checkout(request(PaymentProviderKind::Paypal, 100));
    assert!(matches!(r, Err(BillingError::ProviderUnavailable(_))));
    assert_eq!(svc.list_state().payments.len(), 0);
}

#[test]
fn checkout_disabled_provider_is_validation_error() {
    let mut cfg = PaymentProviderConfig::enabled(PaymentProviderKind::Visa);
    cfg.enabled = false;
    let mut svc = BillingService::new(String::from("s.json"), vec![cfg]).unwrap();
    let r = svc.create_checkout(request(PaymentProviderKind::Visa, 5));
    assert!(matches!(r, Err(BillingError::Validation(_))));
    assert_eq!(svc.list_state().payments.len(), 0);
}

#[test]
fn settle_issues_key_and_links_records() {
    let mut svc = stripe_service();
    let intent = svc.create_checkout(request(PaymentProviderKind::Stripe, 900)).unwrap();
    let issued = svc
        .settle_payment(&intent.id, Some(String::from("ref-77")), Some(10))
        .unwrap();
    let state = svc.list_state();
    assert_eq!(state.payments.len(), 1);
    assert_eq!(state.api_keys.len(), 1);
    let p = &state.payments[0];
    assert_eq!(p.status, PaymentStatus::Succeeded);
    assert_eq!(p.reference.as_deref(), Some("ref-77"));
    let linked = p.metadata.iter().find(|m| m.0 == "api_key_id").unwrap();
    assert_eq!(linked.1, issued.record.id);
    let k = &state.api_keys[0];
    assert_eq!(k.id, issued.record.id);
    assert_eq!(k.payment_id, p.id);
    assert_eq!(k.user_id, "user-1");
    assert_eq!(k.tier, ApiTier::Premium);
    assert_eq!(k.usage_limit, Some(10));
    assert_eq!(k.usage_count, 0);
    assert!(!k.revoked);
}

#[test]
fn missing_ids_return_not_found_and_leave_state() {
    let mut svc = stripe_service();
    let intent = svc.create_checkout(request(PaymentProviderKind::Stripe, 30)).unwrap();
    let before = svc.list_state();
    assert!(matches!(
        svc.settle_payment("nope", None, None),
        Err(BillingError::NotFound(_))
    ));
    assert!(matches!(
        svc.mark_payment_failed("nope", "because"),
        Err(BillingError::NotFound(_))
    ));
    assert!(matches!(
        svc.revoke_api_key("nope"),
        Err(BillingError::NotFound(_))
    ));
    let after = svc.list_state();
    assert_eq!(before, after);
    assert_eq!(after.payments[0].id, intent.id);
}

#[test]
fn mark_payment_failed_records_reason() {
    let mut svc = stripe_service();
    let intent = svc.create_checkout(request(PaymentProviderKind::Stripe, 42)).unwrap();
    svc.mark_payment_failed(&intent.id, "card declined").unwrap();
    let state = svc.list_state();
    let p = &state.payments[0];
    assert_eq!(p.status, PaymentStatus::Failed);
    let reason = p.metadata.iter().find(|m| m.0 == "failure_reason").unwrap();
    assert_eq!(reason.1, "card declined");
}

#[test]
fn fresh_key_verifies_and_hides_plaintext() {
    let manager = ApiKeyManager::default();
    let issued = manager
        .issue_key("u", "pay_1", ApiTier::Trial, None)
        .unwrap();
    assert!(manager.verify(&issued.api_key, &issued.record));
    assert!(!manager.verify("QNT-WRONG", &issued.record));
    // 3-char prefix, hyphen, 8 groups of 8 hex chars joined by hyphens
    assert_eq!(issued.api_key.len(), 3 + 1 + 64 + 7);
    assert!(issued.api_key.starts_with("QNT-"));
    let groups: Vec<&str> = issued.api_key.split('-').collect();
    assert_eq!(groups.len(), 9);
    for g in &groups[1..] {
        assert_eq!(g.len(), 8);
        assert!(g.chars().all(|c| c.is_ascii_hexdigit() && !c.is_ascii_lowercase()));
    }
    // hex(16-byte salt) ":" "$" hex(32-byte digest)
    assert_eq!(issued.record.hashed_key.len(), 32 + 2 + 64);
    assert!(!issued.record.hashed_key.contains('-'));
    assert!(!issued.record.hashed_key.contains(&issued.api_key));
    assert!(issued.record.id.starts_with("key_"));
    assert_eq!(issued.record.id.len(), 4 + 24);
}

#[test]
fn two_issued_keys_differ() {
    let manager = ApiKeyManager::default();
    let a = manager.issue_key("u", "p", ApiTier::Trial, None).unwrap();
    let b = manager.issue_key("u", "p", ApiTier::Trial, None).unwrap();
    assert_ne!(a.api_key, b.api_key);
    assert_ne!(a.record.id, b.record.id);
    assert!(!manager.verify(&a.api_key, &b.record));
}

#[test]
fn custom_prefix_is_stamped() {
    let manager = ApiKeyManager::with_prefix(String::from("ACME"));
    let issued = manager.issue_key("u", "p", ApiTier::Standard, None).unwrap();
    assert!(issued.api_key.starts_with("ACME-"));
    assert!(manager.verify(&issued.api_key, &issued.record));
}

#[test]
fn revoked_record_never_verifies() {
    let manager = ApiKeyManager::default();
    let mut issued = manager
        .issue_key("u", "p", ApiTier::Enterprise, Some(1_000_000))
        .unwrap();
    assert!(manager.verify(&issued.api_key, &issued.record));
    issued.record.revoked = true;
    assert!(!manager.verify(&issued.api_key, &issued.record));
}

#[test]
fn verify_against_known_sha256_vector() {
    // SHA-256("abc"), with an empty salt before the candidate bytes
    let manager = ApiKeyManager::default();
    let record = ApiKeyRecord {
        id: String::from("key_test"),
        hashed_key: String::from(
            ":$ba7816bf8f01cfea414140de5dae2223b00361a396177a9cb410ff61f20015ad",
        ),
        user_id: String::from("u"),
        payment_id: String::from("p"),
        tier: ApiTier::Trial,
        created_at: 0,
        revoked: false,
        usage_limit: None,
        usage_count: 0,
        last_used_at: None,
    };
    assert!(manager.verify("abc", &record));
    assert!(!manager.verify("abd", &record));
    assert!(!manager.verify("", &record));
}

#[test]
fn malformed_stored_hash_fails_quietly() {
    let manager = ApiKeyManager::default();
    let mut record = ApiKeyRecord {
        id: String::from("key_test"),
        hashed_key: String::from("no colon here"),
        user_id: String::from("u"),
        payment_id: String::from("p"),
        tier: ApiTier::Trial,
        created_at: 0,
        revoked: false,
        usage_limit: None,
        usage_count: 0,
        last_used_at: None,
    };
    assert!(!manager.verify("anything", &record));
    record.hashed_key = String::from("zz:$zz");
    assert!(!manager.verify("anything", &record));
    record.hashed_key = String::from("abc:$ab");
    assert!(!manager.verify("anything", &record));
}

#[test]
fn mark_use_increments_and_saturates() {
    let manager = ApiKeyManager::default();
    let mut issued = manager.issue_key("u", "p", ApiTier::Trial, None).unwrap();
    ApiKeyManager::mark_use(&mut issued.record);
    assert_eq!(issued.record.usage_count, 1);
    assert!(issued.record.last_used_at.is_some());
    issued.record.usage_count = u64::MAX;
    ApiKeyManager::mark_use(&mut issued.record);
    assert_eq!(issued.record.usage_count, u64::MAX);
}

#[test]
fn usage_limit_is_enforced_at_the_boundary() {
    let mut svc = stripe_service();
    let intent = svc.create_checkout(request(PaymentProviderKind::Stripe, 10)).unwrap();
    let issued = svc.settle_payment(&intent.id, None, Some(2)).unwrap();
    let first = svc.validate_api_key(&issued.api_key).unwrap();
    assert_eq!(first.usage_count, 1);
    let second = svc.validate_api_key(&issued.api_key).unwrap();
    assert_eq!(second.usage_count, 2);
    let third = svc.validate_api_key(&issued.api_key);
    assert!(matches!(third, Err(BillingError::Validation(_))));
    let state = svc.list_state();
    assert_eq!(state.api_keys[0].usage_count, 2);
}

#[test]
fn unlimited_key_counts_every_use() {
    let mut svc = stripe_service();
    let intent = svc.create_checkout(request(PaymentProviderKind::Stripe, 10)).unwrap();
    let issued = svc.settle_payment(&intent.id, None, None).unwrap();
    for expected in 1..=5u64 {
        let rec = svc.validate_api_key(&issued.api_key).unwrap();
        assert_eq!(rec.usage_count, expected);
    }
    assert_eq!(svc.list_state().api_keys[0].usage_count, 5);
}

#[test]
fn unknown_key_is_validation_error() {
    let mut svc = stripe_service();
    let r = svc.validate_api_key("QNT-DEADBEEF");
    assert!(matches!(r, Err(BillingError::Validation(_))));
}

#[test]
fn revoked_key_fails_validation() {
    let mut svc = stripe_service();
    let intent = svc.create_checkout(request(PaymentProviderKind::Stripe, 10)).unwrap();
    let issued = svc.settle_payment(&intent.id, None, None).unwrap();
    let revoked = svc.revoke_api_key(&issued.record.id).unwrap();
    assert!(revoked.revoked);
    let r = svc.validate_api_key(&issued.api_key);
    assert!(matches!(r, Err(BillingError::Validation(_))));
    assert!(svc.list_state().api_keys[0].revoked);
}

#[test]
fn webhook_signature_rules() {
    let mut cfg = PaymentProviderConfig::enabled(PaymentProviderKind::Stripe);
    cfg.webhook_secret = Some(String::from("test-webhook-secret"));
    let p = HostedCheckoutProcessor::new(cfg);
    assert!(p.validate_webhook_signature("test-webhook-secret", b"payload"));
    assert!(!p.validate_webhook_signature("test-webhook-secret", b""));
    assert!(!p.validate_webhook_signature("wrong", b"payload"));
    let open = HostedCheckoutProcessor::new(PaymentProviderConfig::enabled(
        PaymentProviderKind::Stripe,
    ));
    assert!(open.validate_webhook_signature("anything", b""));
}

#[test]
fn confirm_intent_is_a_stub_success() {
    let p = HostedCheckoutProcessor::new(PaymentProviderConfig::enabled(
        PaymentProviderKind::Klarna,
    ));
    assert_eq!(p.confirm_intent("x").unwrap(), PaymentStatus::Succeeded);
    let mut cfg = PaymentProviderConfig::enabled(PaymentProviderKind::Klarna);
    cfg.enabled = false;
    let q = HostedCheckoutProcessor::new(cfg);
    assert!(matches!(
        q.confirm_intent("x"),
        Err(billing::PaymentError::ProviderUnavailable(_))
    ));
}

#[test]
fn processor_registry_keeps_last_config_per_kind() {
    let mut first = PaymentProviderConfig::enabled(PaymentProviderKind::Venmo);
    first.enabled = false;
    let second = PaymentProviderConfig::enabled(PaymentProviderKind::Venmo);
    let procs = billing::build_processor_map(vec![
        first,
        PaymentProviderConfig::enabled(PaymentProviderKind::Visa),
        second,
    ]);
    assert_eq!(procs.len(), 2);
    assert_eq!(procs[0].kind(), PaymentProviderKind::Venmo);
    assert_eq!(procs[1].kind(), PaymentProviderKind::Visa);
    // the later Venmo configuration (enabled) replaced the earlier one
    let mut svc = BillingService::new(
        String::from("s.json"),
        vec![
            {
                let mut c = PaymentProviderConfig::enabled(PaymentProviderKind::Venmo);
                c.enabled = false;
                c
            },
            PaymentProviderConfig::enabled(PaymentProviderKind::Venmo),
        ],
    )
    .unwrap();
    assert!(svc.create_checkout(request(PaymentProviderKind::Venmo, 10)).is_ok());
}

#[test]
fn provider_and_tier_tokens() {
    assert_eq!(PaymentProviderKind::ApplePay.as_str(), "apple_pay");
    assert_eq!(PaymentProviderKind::QuickBooks.as_str(), "quickbooks");
    assert_eq!(ApiTier::Enterprise.as_str(), "enterprise");
    assert_eq!(ApiTier::Trial.as_str(), "trial");
}

#[test]
fn listed_processors_follow_registry_order() {
    let svc = BillingService::new(
        String::from("s.json"),
        vec![
            PaymentProviderConfig::enabled(PaymentProviderKind::WeChat),
            PaymentProviderConfig::enabled(PaymentProviderKind::Bitcoin),
        ],
    )
    .unwrap();
    assert_eq!(
        svc.processors(),
        vec![PaymentProviderKind::WeChat, PaymentProviderKind::Bitcoin]
    );
}

#[test]
fn default_state_is_empty() {
    let s = BillingState::default();
    assert!(s.payments.is_empty());
    assert!(s.api_keys.is_empty());
}

#[test]
fn store_upserts_by_id_and_finds_by_predicate() {
    let mut store = billing::BillingStore::new(String::from("s.json")).unwrap();
    let rec = ApiKeyRecord {
        id: String::from("key_1"),
        hashed_key: String::from("aa:$bb"),
        user_id: String::from("u"),
        payment_id: String::from("p"),
        tier: ApiTier::Trial,
        created_at: 0,
        revoked: false,
        usage_limit: None,
        usage_count: 0,
        last_used_at: None,
    };
    store.upsert_api_key(rec.clone()).unwrap();
    let mut replacement = rec.clone();
    replacement.usage_count = 9;
    store.upsert_api_key(replacement).unwrap();
    assert_eq!(store.read().api_keys.len(), 1);
    assert_eq!(store.read().api_keys[0].usage_count, 9);
    let found = store.find_api_key(|k: &ApiKeyRecord| k.usage_count == 9);
    assert_eq!(found.unwrap().id, "key_1");
    let missing = store.find_api_key(|k: &ApiKeyRecord| k.revoked);
    assert!(missing.is_none());
}
