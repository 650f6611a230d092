use billing::models::clone_state;
use billing::codec::{decode_state, encode_state};
use billing::hexstr::{from_hex, to_hex};
use billing::api_keys::constant_time_eq;
use billing::{
    ApiKeyRecord, ApiTier, BillingError, BillingState, PaymentProviderKind, PaymentRecord,
    PaymentStatus,
};

fn sample_state() -> BillingState {
    BillingState {
        payments: vec![
            PaymentRecord {
                id: String::from("stripe_AB12"),
                provider: PaymentProviderKind::Stripe,
                status: PaymentStatus::Succeeded,
                amount_cents: 18446744073709551615,
                currency: String::from("usd"),
                user_id: String::from("user \"quoted\" and back\\slash"),
                tier: ApiTier::Premium,
                metadata: vec![
                    (String::from("api_key_id"), String::from("key_aa")),
                    (String::from("note"), String::from("line\\one \"two\"")),
                ],
                created_at: 0,
                updated_at: 1712345678,
                reference: Some(String::from("ref-1")),
            },
            PaymentRecord {
                id: String::from("visa_ZZ"),
                provider: PaymentProviderKind::Visa,
                status: PaymentStatus::Failed,
                amount_cents: 1,
                currency: String::from("eur"),
                user_id: String::from("u2"),
                tier: ApiTier::Trial,
                metadata: Vec::new(),
                created_at: 7,
                updated_at: 8,
                reference: None,
            },
        ],
        api_keys: vec![ApiKeyRecord {
            id: String::from("key_aa"),
            hashed_key: String::from("00ff:$aabb"),
            user_id: String::from("user \"quoted\" and back\\slash"),
            payment_id: String::from("stripe_AB12"),
            tier: ApiTier::Premium,
            created_at: 3,
            revoked: true,
            usage_limit: Some(42),
            usage_count: 41,
            last_used_at: None,
        }],
    }
}

#[test]
fn snapshot_round_trip_preserves_every_record() {
    let state = sample_state();
    let text = encode_state(&state);
    let reloaded = decode_state(&text).unwrap();
    assert_eq!(reloaded, state);
}

#[test]
fn empty_snapshot_round_trips() {
    let state = BillingState::default();
    let text = encode_state(&state);
    assert_eq!(text, "{\"payments\":[],\"api_keys\":[]}");
    let reloaded = decode_state(&text).unwrap();
    assert_eq!(reloaded, state);
}

#[test]
fn snapshot_text_is_exact_json() {
    let state = BillingState {
        payments: vec![PaymentRecord {
            id: String::from("p1"),
            provider: PaymentProviderKind::Bitcoin,
            status: PaymentStatus::Pending,
            amount_cents: 250,
            currency: String::from("usd"),
            user_id: String::from("u"),
            tier: ApiTier::Standard,
            metadata: vec![(String::from("k"), String::from("v"))],
            created_at: 10,
            updated_at: 11,
            reference: None,
        }],
        api_keys: Vec::new(),
    };
    let text = encode_state(&state);
    let expected = "{\"payments\":[{\"id\":\"p1\",\"provider\":\"bitcoin\",\"status\":\"pending\",\"amount_cents\":250,\"currency\":\"usd\",\"user_id\":\"u\",\"tier\":\"standard\",\"metadata\":{\"k\":\"v\"},\"created_at\":10,\"updated_at\":11,\"reference\":null}],\"api_keys\":[]}";
    assert_eq!(text, expected);
}

#[test]
fn malformed_snapshots_are_serialization_errors() {
    assert!(matches!(
        decode_state(""),
        Err(BillingError::Serialization(_))
    ));
    assert!(matches!(
        decode_state("{\"payments\":[]}"),
        Err(BillingError::Serialization(_))
    ));
    assert!(matches!(
        decode_state("{\"payments\":[],\"api_keys\":[]} trailing"),
        Err(BillingError::Serialization(_))
    ));
    assert!(matches!(
        decode_state("{\"payments\":[],\"api_keys\":[]"),
        Err(BillingError::Serialization(_))
    ));
}

#[test]
fn clone_state_copies_field_for_field() {
    let state = sample_state();
    let copy = clone_state(&state);
    assert_eq!(copy, state);
}

#[test]
fn hex_encoding_round_trips() {
    let bytes: Vec<u8> = vec![0x00, 0x0a, 0xff, 0x10];
    assert_eq!(to_hex(&bytes, false), "000aff10");
    assert_eq!(to_hex(&bytes, true), "000AFF10");
    assert_eq!(from_hex("000aff10").unwrap(), bytes);
    assert_eq!(from_hex("000AFF10").unwrap(), bytes);
    assert!(from_hex("abc").is_none());
    assert!(from_hex("zz").is_none());
    assert_eq!(from_hex("").unwrap(), Vec::<u8>::new());
}

#[test]
fn constant_time_eq_matches_equality() {
    assert!(constant_time_eq(b"same bytes", b"same bytes"));
    assert!(!constant_time_eq(b"same bytes", b"same bytez"));
    assert!(!constant_time_eq(b"short", b"longer value"));
    assert!(constant_time_eq(b"", b""));
}

#[test]
fn service_state_survives_encode_decode_restore() {
    let mut svc = billing::BillingService::new(
        String::from("a.json"),
        vec![billing::PaymentProviderConfig::enabled(PaymentProviderKind::Stripe)],
    )
    .unwrap();
    let intent = svc
        .create_checkout(billing::PaymentRequest {
            provider: PaymentProviderKind::Stripe,
            amount_cents: 77,
            currency: String::from("usd"),
            user_id: String::from("u"),
            tier: ApiTier::Trial,
            metadata: Vec::new(),
            return_url: None,
            cancel_url: None,
        })
        .unwrap();
    let issued = svc.settle_payment(&intent.id, None, Some(3)).unwrap();
    let saved = encode_state(&svc.list_state());

    let mut fresh = billing::BillingService::new(
        String::from("b.json"),
        vec![billing::PaymentProviderConfig::enabled(PaymentProviderKind::Stripe)],
    )
    .unwrap();
    fresh.restore_state(decode_state(&saved).unwrap());
    assert_eq!(fresh.list_state(), svc.list_state());
    // the reloaded key still validates
    let rec = fresh.validate_api_key(&issued.api_key).unwrap();
    assert_eq!(rec.usage_count, 1);
}
