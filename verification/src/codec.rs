//! The snapshot format: a JSON object `{"payments":[...],"api_keys":[...]}`
//! written compactly with a fixed field order. The decoder accepts exactly
//! what the encoder writes; anything else is a serialization error.

use crate::models::{provider_token, status_token, tier_token, ApiKeyRecord, ApiKeyRecordV,
    ApiTier, BillingState, BillingStateV, PaymentProviderKind, PaymentRecord, PaymentRecordV,
    PaymentStatus};
use crate::strutil::push_char;
use vstd::prelude::*;
use vstd::string::StrSliceExecFns;
use vstd::string::StringExecFns;

verus! {

broadcast use vstd::string::group_string_axioms;

/// A string's characters with `"` and `\` escaped by a backslash.
pub open spec fn esc(s: Seq<char>) -> Seq<char>
    decreases s.len(),
{
    if s.len() == 0 {
        Seq::empty()
    } else {
        (if s[0] == '"' || s[0] == '\\' {
            seq!['\\', s[0]]
        } else {
            seq![s[0]]
        }) + esc(s.drop_first())
    }
}

/// A JSON string: the escaped characters between double quotes.
pub open spec fn enc_str(s: Seq<char>) -> Seq<char> {
    seq!['"'] + esc(s) + seq!['"']
}

/// The decimal digit character for `d`.
pub open spec fn digit_char(d: u64) -> char
    recommends
        d < 10,
{
    (((d + 48) as u8) as char)
}

/// Whether `c` is a decimal digit.
pub open spec fn is_digit(c: char) -> bool {
    48 <= c as u32 <= 57
}

/// A number in decimal.
pub open spec fn enc_u64(n: u64) -> Seq<char>
    decreases n,
{
    if n < 10 {
        seq![digit_char(n)]
    } else {
        enc_u64(n / 10) + seq![digit_char(n % 10)]
    }
}

/// `true` or `false`.
pub open spec fn enc_bool(b: bool) -> Seq<char> {
    if b {
        "true"@
    } else {
        "false"@
    }
}

/// A number or `null`.
pub open spec fn enc_opt_u64(o: Option<u64>) -> Seq<char> {
    match o {
        Some(n) => enc_u64(n),
        None => "null"@,
    }
}

/// A JSON string or `null`.
pub open spec fn enc_opt_str(o: Option<Seq<char>>) -> Seq<char> {
    match o {
        Some(s) => enc_str(s),
        None => "null"@,
    }
}

/// Whether the text at position `i` begins with `lit`.
pub open spec fn at_lit(s: Seq<char>, i: int, lit: Seq<char>) -> bool {
    0 <= i && i + lit.len() <= s.len() && s.subrange(i, i + lit.len()) == lit
}

/// The characters of a JSON string starting at the opening quote at `i`,
/// with the position after the closing quote; `None` on malformed input.
pub open spec fn dec_str(s: Seq<char>, i: int) -> Option<(Seq<char>, int)> {
    if 0 <= i < s.len() && s[i] == '"' {
        dec_str_body(s, i + 1)
    } else {
        None
    }
}

/// The body of a JSON string from position `i` up to its closing quote.
pub open spec fn dec_str_body(s: Seq<char>, i: int) -> Option<(Seq<char>, int)>
    decreases s.len() - i,
{
    if i < 0 || i >= s.len() {
        None
    } else if s[i] == '"' {
        Some((Seq::empty(), i + 1))
    } else if s[i] == '\\' {
        if i + 1 < s.len() && (s[i + 1] == '"' || s[i + 1] == '\\') {
            match dec_str_body(s, i + 2) {
                Some((t, j)) => Some((seq![s[i + 1]] + t, j)),
                None => None,
            }
        } else {
            None
        }
    } else {
        match dec_str_body(s, i + 1) {
            Some((t, j)) => Some((seq![s[i]] + t, j)),
            None => None,
        }
    }
}

/// The end of the digit run starting at `i`.
pub open spec fn digits_end(s: Seq<char>, i: int) -> int
    decreases s.len() - i,
{
    if 0 <= i < s.len() && is_digit(s[i]) {
        digits_end(s, i + 1)
    } else {
        i
    }
}

/// The value of the digits in `[i, end)`.
pub open spec fn digits_val(s: Seq<char>, i: int, end: int) -> int
    decreases end - i,
{
    if i >= end {
        0
    } else {
        digits_val(s, i, end - 1) * 10 + (s[end - 1] as u32 - 48)
    }
}

/// A decimal number at `i`: its value and the position after its digits;
/// `None` without a digit at `i` or when the value does not fit in 64 bits.
pub open spec fn dec_u64(s: Seq<char>, i: int) -> Option<(u64, int)> {
    let end = digits_end(s, i);
    if end == i || i < 0 {
        None
    } else if digits_val(s, i, end) > u64::MAX {
        None
    } else {
        Some((digits_val(s, i, end) as u64, end))
    }
}

/// `true`, `false`, or `None` for anything else.
pub open spec fn dec_bool(s: Seq<char>, i: int) -> Option<(bool, int)> {
    if at_lit(s, i, "true"@) {
        Some((true, i + 4))
    } else if at_lit(s, i, "false"@) {
        Some((false, i + 5))
    } else {
        None
    }
}

/// A number or `null`.
pub open spec fn dec_opt_u64(s: Seq<char>, i: int) -> Option<(Option<u64>, int)> {
    if at_lit(s, i, "null"@) {
        Some((None, i + 4))
    } else {
        match dec_u64(s, i) {
            Some((n, j)) => Some((Some(n), j)),
            None => None,
        }
    }
}

/// A JSON string or `null`.
pub open spec fn dec_opt_str(s: Seq<char>, i: int) -> Option<(Option<Seq<char>>, int)> {
    if at_lit(s, i, "null"@) {
        Some((None, i + 4))
    } else {
        match dec_str(s, i) {
            Some((t, j)) => Some((Some(t), j)),
            None => None,
        }
    }
}

/// Every character of an escaped string body is preceded correctly; decoding
/// the body of an encoding recovers the original characters.
pub proof fn lemma_dec_str_body_of_esc(t: Seq<char>, s: Seq<char>, i: int)
    requires
        0 <= i,
        i + esc(t).len() + 1 <= s.len(),
        s.subrange(i, i + esc(t).len()) == esc(t),
        s[i + esc(t).len()] == '"',
    ensures
        dec_str_body(s, i) == Some((t, i + esc(t).len() + 1)),
    decreases t.len(),
{
    if t.len() == 0 {
        assert(esc(t).len() == 0);
        assert(s[i] == '"');
    } else {
        let e = esc(t);
        let et = esc(t.drop_first());
        if t[0] == '"' || t[0] == '\\' {
            assert(e == seq!['\\', t[0]] + et);
            assert(e[0] == '\\');
            assert(e[1] == t[0]);
            assert(s[i] == e[0]);
            assert(s[i + 1] == e[1]);
            assert(s.subrange(i + 2, i + 2 + et.len()) =~= et) by {
                assert(forall|k: int|
                    0 <= k < et.len() ==> s.subrange(i + 2, i + 2 + et.len())[k] == s[i + 2 + k]
                        && e[2 + k] == et[k]);
            }
            lemma_dec_str_body_of_esc(t.drop_first(), s, i + 2);
            assert(seq![s[i + 1]] + t.drop_first() =~= t);
        } else {
            assert(e == seq![t[0]] + et);
            assert(e[0] == t[0]);
            assert(s[i] == e[0]);
            assert(s[i] != '"' && s[i] != '\\');
            assert(s.subrange(i + 1, i + 1 + et.len()) =~= et) by {
                assert(forall|k: int|
                    0 <= k < et.len() ==> s.subrange(i + 1, i + 1 + et.len())[k] == s[i + 1 + k]
                        && e[1 + k] == et[k]);
            }
            lemma_dec_str_body_of_esc(t.drop_first(), s, i + 1);
            assert(seq![s[i]] + t.drop_first() =~= t);
        }
    }
}

/// Decoding an encoded string at its position recovers it exactly.
pub proof fn lemma_dec_str_of_enc(t: Seq<char>, s: Seq<char>, i: int)
    requires
        0 <= i,
        i + enc_str(t).len() <= s.len(),
        s.subrange(i, i + enc_str(t).len()) == enc_str(t),
    ensures
        dec_str(s, i) == Some((t, i + enc_str(t).len())),
{
    let e = enc_str(t);
    assert(e[0] == '"');
    assert(s[i] == e[0]);
    assert(e[e.len() - 1] == '"');
    assert(s[i + e.len() - 1] == e[e.len() - 1]);
    assert(s.subrange(i + 1, i + 1 + esc(t).len()) =~= esc(t)) by {
        assert(forall|k: int|
            0 <= k < esc(t).len() ==> s.subrange(i + 1, i + 1 + esc(t).len())[k] == s[i + 1 + k]
                && e[1 + k] == esc(t)[k]);
    }
    lemma_dec_str_body_of_esc(t, s, i + 1);
}

/// The characters of a number's encoding are digits.
pub proof fn lemma_enc_u64_digits(n: u64)
    ensures
        enc_u64(n).len() >= 1,
        forall|k: int| 0 <= k < enc_u64(n).len() ==> is_digit(#[trigger] enc_u64(n)[k]),
    decreases n,
{
    if n < 10 {
        assert(is_digit(digit_char(n)));
    } else {
        lemma_enc_u64_digits(n / 10);
        assert(is_digit(digit_char(n % 10)));
        assert(forall|k: int|
            0 <= k < enc_u64(n / 10).len() ==> enc_u64(n)[k] == enc_u64(n / 10)[k]);
        assert(enc_u64(n)[enc_u64(n).len() - 1] == digit_char(n % 10));
    }
}

proof fn lemma_digits_end_exact(s: Seq<char>, i: int, e: int)
    requires
        0 <= i <= e <= s.len(),
        forall|k: int| i <= k < e ==> is_digit(s[k]),
        e == s.len() || !is_digit(s[e]),
    ensures
        digits_end(s, i) == e,
    decreases e - i,
{
    if i < e {
        lemma_digits_end_exact(s, i + 1, e);
    }
}

proof fn lemma_digits_val_of_enc(n: u64, s: Seq<char>, i: int)
    requires
        0 <= i,
        i + enc_u64(n).len() <= s.len(),
        s.subrange(i, i + enc_u64(n).len()) == enc_u64(n),
    ensures
        digits_val(s, i, i + enc_u64(n).len()) == n,
    decreases n,
{
    let e = enc_u64(n);
    if n < 10 {
        assert(s[i] == e[0]);
        assert(e[0] == digit_char(n));
        assert(digits_val(s, i, i) == 0);
        assert(digits_val(s, i, i + 1) == s[i] as u32 - 48);
    } else {
        let ep = enc_u64(n / 10);
        assert(e == ep + seq![digit_char(n % 10)]);
        assert(s.subrange(i, i + ep.len()) =~= ep) by {
            assert(forall|k: int|
                0 <= k < ep.len() ==> s.subrange(i, i + ep.len())[k] == s[i + k] && e[k] == ep[k]);
        }
        lemma_digits_val_of_enc(n / 10, s, i);
        assert(s[i + e.len() - 1] == e[e.len() - 1]);
        assert(e[e.len() - 1] == digit_char(n % 10));
        assert(digits_val(s, i, i + e.len()) == digits_val(s, i, i + e.len() - 1) * 10 + (s[i
            + e.len() - 1] as u32 - 48));
        assert((n / 10) * 10 + (n % 10) == n) by (nonlinear_arith);
    }
}

/// The provider kind a token names, if any.
pub open spec fn provider_of_token(t: Seq<char>) -> Option<PaymentProviderKind> {
    if t == "stripe"@ {
        Some(PaymentProviderKind::Stripe)
    } else if t == "paypal"@ {
        Some(PaymentProviderKind::Paypal)
    } else if t == "shopify"@ {
        Some(PaymentProviderKind::Shopify)
    } else if t == "klarna"@ {
        Some(PaymentProviderKind::Klarna)
    } else if t == "affirm"@ {
        Some(PaymentProviderKind::Affirm)
    } else if t == "apple_pay"@ {
        Some(PaymentProviderKind::ApplePay)
    } else if t == "wepay"@ {
        Some(PaymentProviderKind::WePay)
    } else if t == "venmo"@ {
        Some(PaymentProviderKind::Venmo)
    } else if t == "wechat"@ {
        Some(PaymentProviderKind::WeChat)
    } else if t == "quickbooks"@ {
        Some(PaymentProviderKind::QuickBooks)
    } else if t == "mastercard"@ {
        Some(PaymentProviderKind::Mastercard)
    } else if t == "visa"@ {
        Some(PaymentProviderKind::Visa)
    } else if t == "bitcoin"@ {
        Some(PaymentProviderKind::Bitcoin)
    } else {
        None
    }
}

/// The payment status a token names, if any.
pub open spec fn status_of_token(t: Seq<char>) -> Option<PaymentStatus> {
    if t == "pending"@ {
        Some(PaymentStatus::Pending)
    } else if t == "requires_action"@ {
        Some(PaymentStatus::RequiresAction)
    } else if t == "authorized"@ {
        Some(PaymentStatus::Authorized)
    } else if t == "succeeded"@ {
        Some(PaymentStatus::Succeeded)
    } else if t == "refunded"@ {
        Some(PaymentStatus::Refunded)
    } else if t == "failed"@ {
        Some(PaymentStatus::Failed)
    } else if t == "chargeback"@ {
        Some(PaymentStatus::Chargeback)
    } else {
        None
    }
}

/// The tier a token names, if any.
pub open spec fn tier_of_token(t: Seq<char>) -> Option<ApiTier> {
    if t == "trial"@ {
        Some(ApiTier::Trial)
    } else if t == "standard"@ {
        Some(ApiTier::Standard)
    } else if t == "premium"@ {
        Some(ApiTier::Premium)
    } else if t == "enterprise"@ {
        Some(ApiTier::Enterprise)
    } else {
        None
    }
}

/// Token naming round-trips for every provider kind.
pub proof fn lemma_provider_token_rt(p: PaymentProviderKind)
    ensures
        provider_of_token(provider_token(p)) == Some(p),
{
    reveal_strlit("stripe");
    reveal_strlit("paypal");
    reveal_strlit("shopify");
    reveal_strlit("klarna");
    reveal_strlit("affirm");
    reveal_strlit("apple_pay");
    reveal_strlit("wepay");
    reveal_strlit("venmo");
    reveal_strlit("wechat");
    reveal_strlit("quickbooks");
    reveal_strlit("mastercard");
    reveal_strlit("visa");
    reveal_strlit("bitcoin");
    assert("stripe"@.len() == 6);
    assert("paypal"@.len() == 6);
    assert("shopify"@.len() == 7);
    assert("klarna"@.len() == 6);
    assert("affirm"@.len() == 6);
    assert("apple_pay"@.len() == 9);
    assert("wepay"@.len() == 5);
    assert("venmo"@.len() == 5);
    assert("wechat"@.len() == 6);
    assert("quickbooks"@.len() == 10);
    assert("mastercard"@.len() == 10);
    assert("visa"@.len() == 4);
    assert("bitcoin"@.len() == 7);
    assert("paypal"@[0] != "stripe"@[0]);
    assert("klarna"@[0] != "stripe"@[0]);
    assert("klarna"@[0] != "paypal"@[0]);
    assert("affirm"@[0] != "stripe"@[0]);
    assert("affirm"@[0] != "paypal"@[0]);
    assert("affirm"@[0] != "klarna"@[0]);
    assert("venmo"@[0] != "wepay"@[0]);
    assert("wechat"@[0] != "stripe"@[0]);
    assert("wechat"@[0] != "paypal"@[0]);
    assert("wechat"@[0] != "klarna"@[0]);
    assert("wechat"@[0] != "affirm"@[0]);
    assert("mastercard"@[0] != "quickbooks"@[0]);
    assert("bitcoin"@[0] != "shopify"@[0]);
}

/// Token naming round-trips for every payment status.
pub proof fn lemma_status_token_rt(st: PaymentStatus)
    ensures
        status_of_token(status_token(st)) == Some(st),
{
    reveal_strlit("pending");
    reveal_strlit("requires_action");
    reveal_strlit("authorized");
    reveal_strlit("succeeded");
    reveal_strlit("refunded");
    reveal_strlit("failed");
    reveal_strlit("chargeback");
    assert("pending"@.len() == 7);
    assert("requires_action"@.len() == 15);
    assert("authorized"@.len() == 10);
    assert("succeeded"@.len() == 9);
    assert("refunded"@.len() == 8);
    assert("failed"@.len() == 6);
    assert("chargeback"@.len() == 10);
    assert("chargeback"@[0] != "authorized"@[0]);
}

/// Token naming round-trips for every tier.
pub proof fn lemma_tier_token_rt(t: ApiTier)
    ensures
        tier_of_token(tier_token(t)) == Some(t),
{
    reveal_strlit("trial");
    reveal_strlit("standard");
    reveal_strlit("premium");
    reveal_strlit("enterprise");
    assert("trial"@.len() == 5);
    assert("standard"@.len() == 8);
    assert("premium"@.len() == 7);
    assert("enterprise"@.len() == 10);
}

/// A provider kind as a quoted token.
pub open spec fn dec_provider(s: Seq<char>, i: int) -> Option<(PaymentProviderKind, int)> {
    match dec_str(s, i) {
        Some((t, j)) => match provider_of_token(t) {
            Some(p) => Some((p, j)),
            None => None,
        },
        None => None,
    }
}

/// A payment status as a quoted token.
pub open spec fn dec_status(s: Seq<char>, i: int) -> Option<(PaymentStatus, int)> {
    match dec_str(s, i) {
        Some((t, j)) => match status_of_token(t) {
            Some(st, ) => Some((st, j)),
            None => None,
        },
        None => None,
    }
}

/// A tier as a quoted token.
pub open spec fn dec_tier(s: Seq<char>, i: int) -> Option<(ApiTier, int)> {
    match dec_str(s, i) {
        Some((t, j)) => match tier_of_token(t) {
            Some(ti) => Some((ti, j)),
            None => None,
        },
        None => None,
    }
}

/// The comma-separated items of a metadata object.
pub open spec fn enc_meta_items(m: Seq<(Seq<char>, Seq<char>)>) -> Seq<char>
    decreases m.len(),
{
    if m.len() == 0 {
        Seq::empty()
    } else if m.len() == 1 {
        enc_str(m[0].0) + seq![':'] + enc_str(m[0].1)
    } else {
        enc_str(m[0].0) + seq![':'] + enc_str(m[0].1) + seq![','] + enc_meta_items(m.drop_first())
    }
}

/// A metadata mapping as a JSON object, in pair order.
pub open spec fn enc_meta(m: Seq<(Seq<char>, Seq<char>)>) -> Seq<char> {
    seq!['{'] + enc_meta_items(m) + seq!['}']
}

/// One or more `"key":"value"` items up to and including the closing brace.
/// `fuel` bounds the recursion; each item consumes text, so any fuel at
/// least the remaining text length is enough.
pub open spec fn dec_meta_items(s: Seq<char>, i: int, fuel: nat) -> Option<
    (Seq<(Seq<char>, Seq<char>)>, int),
>
    decreases fuel,
{
    if fuel == 0 {
        None
    } else {
        match dec_str(s, i) {
            None => None,
            Some((k, j)) => {
                if j < s.len() && s[j] == ':' {
                    match dec_str(s, j + 1) {
                        None => None,
                        Some((v, j2)) => {
                            if j2 < s.len() && s[j2] == ',' {
                                match dec_meta_items(s, j2 + 1, (fuel - 1) as nat) {
                                    None => None,
                                    Some((rest, j3)) => Some((seq![(k, v)] + rest, j3)),
                                }
                            } else if j2 < s.len() && s[j2] == '}' {
                                Some((seq![(k, v)], j2 + 1))
                            } else {
                                None
                            }
                        },
                    }
                } else {
                    None
                }
            },
        }
    }
}

/// A metadata object from its opening brace, with the position after the
/// closing brace.
pub open spec fn dec_meta(s: Seq<char>, i: int) -> Option<(Seq<(Seq<char>, Seq<char>)>, int)> {
    if 0 <= i && i + 1 < s.len() && s[i] == '{' {
        if s[i + 1] == '}' {
            Some((Seq::empty(), i + 2))
        } else {
            dec_meta_items(s, i + 1, (s.len() - i) as nat)
        }
    } else {
        None
    }
}

/// An item list encoding is never shorter than the number of its items.
pub proof fn lemma_enc_meta_items_len(m: Seq<(Seq<char>, Seq<char>)>)
    ensures
        enc_meta_items(m).len() >= m.len(),
    decreases m.len(),
{
    if m.len() > 1 {
        lemma_enc_meta_items_len(m.drop_first());
    }
}

/// Decoding an encoded item list recovers the pairs, consuming the closing
/// brace that follows it.
pub proof fn lemma_dec_meta_items_of_enc(
    m: Seq<(Seq<char>, Seq<char>)>,
    s: Seq<char>,
    i: int,
    fuel: nat,
)
    requires
        m.len() >= 1,
        fuel >= m.len(),
        0 <= i,
        i + enc_meta_items(m).len() + 1 <= s.len(),
        s.subrange(i, i + enc_meta_items(m).len()) == enc_meta_items(m),
        s[i + enc_meta_items(m).len()] == '}',
    ensures
        dec_meta_items(s, i, fuel) == Some((m, i + enc_meta_items(m).len() + 1)),
    decreases m.len(),
{
    let e = enc_meta_items(m);
    let ek = enc_str(m[0].0);
    let ev = enc_str(m[0].1);
    assert(s.subrange(i, i + ek.len()) =~= ek) by {
        assert(forall|t: int|
            0 <= t < ek.len() ==> s.subrange(i, i + e.len())[t] == s[i + t] && e[t] == ek[t]);
    }
    lemma_dec_str_of_enc(m[0].0, s, i);
    let j = i + ek.len();
    assert(e[j - i] == ':');
    assert(s[j] == ':');
    assert(s.subrange(j + 1, j + 1 + ev.len()) =~= ev) by {
        assert(forall|t: int|
            0 <= t < ev.len() ==> s.subrange(i, i + e.len())[ek.len() + 1 + t] == s[j + 1 + t]
                && e[ek.len() + 1 + t] == ev[t]);
    }
    lemma_dec_str_of_enc(m[0].1, s, j + 1);
    let j2 = j + 1 + ev.len();
    if m.len() == 1 {
        assert(j2 == i + e.len());
        assert(s[j2] == '}');
        assert(seq![(m[0].0, m[0].1)] =~= m);
    } else {
        assert(e[j2 - i] == ',');
        assert(s[j2] == ',');
        let rest = enc_meta_items(m.drop_first());
        assert(s.subrange(j2 + 1, j2 + 1 + rest.len()) =~= rest) by {
            assert(forall|t: int|
                0 <= t < rest.len() ==> s.subrange(i, i + e.len())[j2 + 1 - i + t] == s[j2 + 1 + t]
                    && e[j2 + 1 - i + t] == rest[t]);
        }
        assert(s[j2 + 1 + rest.len()] == '}');
        lemma_dec_meta_items_of_enc(m.drop_first(), s, j2 + 1, (fuel - 1) as nat);
        assert(seq![(m[0].0, m[0].1)] + m.drop_first() =~= m);
    }
}

/// Decoding an encoded metadata object recovers the pairs.
pub proof fn lemma_dec_meta_of_enc(m: Seq<(Seq<char>, Seq<char>)>, s: Seq<char>, i: int)
    requires
        0 <= i,
        i + enc_meta(m).len() <= s.len(),
        s.subrange(i, i + enc_meta(m).len()) == enc_meta(m),
    ensures
        dec_meta(s, i) == Some((m, i + enc_meta(m).len())),
{
    let e = enc_meta(m);
    let items = enc_meta_items(m);
    assert(e[0] == '{');
    assert(s[i] == e[0]);
    assert(e[e.len() - 1] == '}');
    assert(s[i + e.len() - 1] == e[e.len() - 1]);
    if m.len() == 0 {
        assert(items.len() == 0);
        assert(s[i + 1] == '}');
    } else {
        lemma_enc_meta_items_len(m);
        assert(e[1] == items[0]);
        assert(items[0] == enc_str(m[0].0)[0]);
        assert(enc_str(m[0].0)[0] == '"');
        assert(s[i + 1] == '"');
        assert(s.subrange(i + 1, i + 1 + items.len()) =~= items) by {
            assert(forall|t: int|
                0 <= t < items.len() ==> s.subrange(i, i + e.len())[1 + t] == s[i + 1 + t] && e[1
                    + t] == items[t]);
        }
        assert(s.len() - i >= m.len());
        lemma_dec_meta_items_of_enc(m, s, i + 1, (s.len() - i) as nat);
    }
}

/// Decoding an encoded number recovers it, provided no digit follows it.
pub proof fn lemma_dec_u64_of_enc(n: u64, s: Seq<char>, i: int)
    requires
        0 <= i,
        i + enc_u64(n).len() <= s.len(),
        s.subrange(i, i + enc_u64(n).len()) == enc_u64(n),
        i + enc_u64(n).len() == s.len() || !is_digit(s[i + enc_u64(n).len()]),
    ensures
        dec_u64(s, i) == Some((n, i + enc_u64(n).len())),
{
    let e = enc_u64(n);
    lemma_enc_u64_digits(n);
    assert forall|k: int| i <= k < i + e.len() implies is_digit(s[k]) by {
        assert(s.subrange(i, i + e.len())[k - i] == s[k]);
        assert(is_digit(e[k - i]));
    }
    lemma_digits_end_exact(s, i, i + e.len());
    lemma_digits_val_of_enc(n, s, i);
}

/// Decoding an encoded boolean recovers it.
pub proof fn lemma_dec_bool_of_enc(b: bool, s: Seq<char>, i: int)
    requires
        0 <= i,
        i + enc_bool(b).len() <= s.len(),
        s.subrange(i, i + enc_bool(b).len()) == enc_bool(b),
    ensures
        dec_bool(s, i) == Some((b, i + enc_bool(b).len())),
{
    reveal_strlit("true");
    reveal_strlit("false");
    assert("true"@.len() == 4);
    assert("false"@.len() == 5);
    if b {
        assert(at_lit(s, i, "true"@));
    } else {
        assert(!at_lit(s, i, "true"@)) by {
            if at_lit(s, i, "true"@) {
                assert(s.subrange(i, i + 4)[0] == s[i]);
                assert(s.subrange(i, i + 5)[0] == s[i]);
                assert("true"@[0] != "false"@[0]);
            }
        }
        assert(at_lit(s, i, "false"@));
    }
}

/// Decoding an encoded optional number recovers it, provided no digit
/// follows it.
pub proof fn lemma_dec_opt_u64_of_enc(o: Option<u64>, s: Seq<char>, i: int)
    requires
        0 <= i,
        i + enc_opt_u64(o).len() <= s.len(),
        s.subrange(i, i + enc_opt_u64(o).len()) == enc_opt_u64(o),
        i + enc_opt_u64(o).len() == s.len() || !is_digit(s[i + enc_opt_u64(o).len()]),
    ensures
        dec_opt_u64(s, i) == Some((o, i + enc_opt_u64(o).len())),
{
    reveal_strlit("null");
    assert("null"@.len() == 4);
    match o {
        None => {
            assert(at_lit(s, i, "null"@));
        },
        Some(n) => {
            lemma_enc_u64_digits(n);
            assert(!at_lit(s, i, "null"@)) by {
                if at_lit(s, i, "null"@) {
                    assert(s.subrange(i, i + 4)[0] == s[i]);
                    assert(s.subrange(i, i + enc_u64(n).len())[0] == s[i]);
                    assert(is_digit(enc_u64(n)[0]));
                    assert(!is_digit("null"@[0]));
                }
            }
            lemma_dec_u64_of_enc(n, s, i);
        },
    }
}

/// Decoding an encoded optional string recovers it.
pub proof fn lemma_dec_opt_str_of_enc(o: Option<Seq<char>>, s: Seq<char>, i: int)
    requires
        0 <= i,
        i + enc_opt_str(o).len() <= s.len(),
        s.subrange(i, i + enc_opt_str(o).len()) == enc_opt_str(o),
    ensures
        dec_opt_str(s, i) == Some((o, i + enc_opt_str(o).len())),
{
    reveal_strlit("null");
    assert("null"@.len() == 4);
    match o {
        None => {
            assert(at_lit(s, i, "null"@));
        },
        Some(t) => {
            assert(!at_lit(s, i, "null"@)) by {
                if at_lit(s, i, "null"@) {
                    assert(s.subrange(i, i + 4)[0] == s[i]);
                    assert(s.subrange(i, i + enc_str(t).len())[0] == s[i]);
                    assert(enc_str(t)[0] == '"');
                    assert("null"@[0] != '"');
                }
            }
            lemma_dec_str_of_enc(t, s, i);
        },
    }
}

/// A literal at its position consumes exactly itself.
pub open spec fn dec_lit(s: Seq<char>, i: int, lit: Seq<char>) -> Option<int> {
    if at_lit(s, i, lit) {
        Some(i + lit.len())
    } else {
        None
    }
}


/// A record as a JSON object with a fixed field order.
pub open spec fn enc_payment(p: PaymentRecordV) -> Seq<char> {
    "{\"id\":"@ + enc_str(p.id) + ",\"provider\":"@ + enc_str(provider_token(p.provider)) + ",\"status\":"@ + enc_str(status_token(p.status)) + ",\"amount_cents\":"@ + enc_u64(p.amount_cents) + ",\"currency\":"@ + enc_str(p.currency) + ",\"user_id\":"@ + enc_str(p.user_id) + ",\"tier\":"@ + enc_str(tier_token(p.tier)) + ",\"metadata\":"@ + enc_meta(p.metadata) + ",\"created_at\":"@ + enc_u64(p.created_at) + ",\"updated_at\":"@ + enc_u64(p.updated_at) + ",\"reference\":"@ + enc_opt_str(p.reference) + "}"@
}

/// A record object at `i`: the value and the position after it.
pub open spec fn dec_payment(s: Seq<char>, i: int) -> Option<(PaymentRecordV, int)> {
    match dec_lit(s, i, "{\"id\":"@) {
        None => None,
        Some(p0) => {
            match dec_str(s, p0) {
                None => None,
                Some((v0, p1)) => {
                    match dec_lit(s, p1, ",\"provider\":"@) {
                        None => None,
                        Some(p2) => {
                            match dec_provider(s, p2) {
                                None => None,
                                Some((v1, p3)) => {
                                    match dec_lit(s, p3, ",\"status\":"@) {
                                        None => None,
                                        Some(p4) => {
                                            match dec_status(s, p4) {
                                                None => None,
                                                Some((v2, p5)) => {
                                                    match dec_lit(s, p5, ",\"amount_cents\":"@) {
                                                        None => None,
                                                        Some(p6) => {
                                                            match dec_u64(s, p6) {
                                                                None => None,
                                                                Some((v3, p7)) => {
                                                                    match dec_lit(s, p7, ",\"currency\":"@) {
                                                                        None => None,
                                                                        Some(p8) => {
                                                                            match dec_str(s, p8) {
                                                                                None => None,
                                                                                Some((v4, p9)) => {
                                                                                    match dec_lit(s, p9, ",\"user_id\":"@) {
                                                                                        None => None,
                                                                                        Some(p10) => {
                                                                                            match dec_str(s, p10) {
                                                                                                None => None,
                                                                                                Some((v5, p11)) => {
                                                                                                    match dec_lit(s, p11, ",\"tier\":"@) {
                                                                                                        None => None,
                                                                                                        Some(p12) => {
                                                                                                            match dec_tier(s, p12) {
                                                                                                                None => None,
                                                                                                                Some((v6, p13)) => {
                                                                                                                    match dec_lit(s, p13, ",\"metadata\":"@) {
                                                                                                                        None => None,
                                                                                                                        Some(p14) => {
                                                                                                                            match dec_meta(s, p14) {
                                                                                                                                None => None,
                                                                                                                                Some((v7, p15)) => {
                                                                                                                                    match dec_lit(s, p15, ",\"created_at\":"@) {
                                                                                                                                        None => None,
                                                                                                                                        Some(p16) => {
                                                                                                                                            match dec_u64(s, p16) {
                                                                                                                                                None => None,
                                                                                                                                                Some((v8, p17)) => {
                                                                                                                                                    match dec_lit(s, p17, ",\"updated_at\":"@) {
                                                                                                                                                        None => None,
                                                                                                                                                        Some(p18) => {
                                                                                                                                                            match dec_u64(s, p18) {
                                                                                                                                                                None => None,
                                                                                                                                                                Some((v9, p19)) => {
                                                                                                                                                                    match dec_lit(s, p19, ",\"reference\":"@) {
                                                                                                                                                                        None => None,
                                                                                                                                                                        Some(p20) => {
                                                                                                                                                                            match dec_opt_str(s, p20) {
                                                                                                                                                                                None => None,
                                                                                                                                                                                Some((v10, p21)) => {
                                                                                                                                                                                    match dec_lit(s, p21, "}"@) {
                                                                                                                                                                                        None => None,
                                                                                                                                                                                        Some(p22) => {
                                                                                                                                                                                            Some((PaymentRecordV { id: v0, provider: v1, status: v2, amount_cents: v3, currency: v4, user_id: v5, tier: v6, metadata: v7, created_at: v8, updated_at: v9, reference: v10 }, p22))
                                                                                                                                                                                        },
                                                                                                                                                                                    }
                                                                                                                                                                                },
                                                                                                                                                                            }
                                                                                                                                                                        },
                                                                                                                                                                    }
                                                                                                                                                                },
                                                                                                                                                            }
                                                                                                                                                        },
                                                                                                                                                    }
                                                                                                                                                },
                                                                                                                                            }
                                                                                                                                        },
                                                                                                                                    }
                                                                                                                                },
                                                                                                                            }
                                                                                                                        },
                                                                                                                    }
                                                                                                                },
                                                                                                            }
                                                                                                        },
                                                                                                    }
                                                                                                },
                                                                                            }
                                                                                        },
                                                                                    }
                                                                                },
                                                                            }
                                                                        },
                                                                    }
                                                                },
                                                            }
                                                        },
                                                    }
                                                },
                                            }
                                        },
                                    }
                                },
                            }
                        },
                    }
                },
            }
        },
    }
}



/// A record as a JSON object with a fixed field order.
pub open spec fn enc_key(p: ApiKeyRecordV) -> Seq<char> {
    "{\"id\":"@ + enc_str(p.id) + ",\"hashed_key\":"@ + enc_str(p.hashed_key) + ",\"user_id\":"@ + enc_str(p.user_id) + ",\"payment_id\":"@ + enc_str(p.payment_id) + ",\"tier\":"@ + enc_str(tier_token(p.tier)) + ",\"created_at\":"@ + enc_u64(p.created_at) + ",\"revoked\":"@ + enc_bool(p.revoked) + ",\"usage_limit\":"@ + enc_opt_u64(p.usage_limit) + ",\"usage_count\":"@ + enc_u64(p.usage_count) + ",\"last_used_at\":"@ + enc_opt_u64(p.last_used_at) + "}"@
}

/// A record object at `i`: the value and the position after it.
pub open spec fn dec_key(s: Seq<char>, i: int) -> Option<(ApiKeyRecordV, int)> {
    match dec_lit(s, i, "{\"id\":"@) {
        None => None,
        Some(p0) => {
            match dec_str(s, p0) {
                None => None,
                Some((v0, p1)) => {
                    match dec_lit(s, p1, ",\"hashed_key\":"@) {
                        None => None,
                        Some(p2) => {
                            match dec_str(s, p2) {
                                None => None,
                                Some((v1, p3)) => {
                                    match dec_lit(s, p3, ",\"user_id\":"@) {
                                        None => None,
                                        Some(p4) => {
                                            match dec_str(s, p4) {
                                                None => None,
                                                Some((v2, p5)) => {
                                                    match dec_lit(s, p5, ",\"payment_id\":"@) {
                                                        None => None,
                                                        Some(p6) => {
                                                            match dec_str(s, p6) {
                                                                None => None,
                                                                Some((v3, p7)) => {
                                                                    match dec_lit(s, p7, ",\"tier\":"@) {
                                                                        None => None,
                                                                        Some(p8) => {
                                                                            match dec_tier(s, p8) {
                                                                                None => None,
                                                                                Some((v4, p9)) => {
                                                                                    match dec_lit(s, p9, ",\"created_at\":"@) {
                                                                                        None => None,
                                                                                        Some(p10) => {
                                                                                            match dec_u64(s, p10) {
                                                                                                None => None,
                                                                                                Some((v5, p11)) => {
                                                                                                    match dec_lit(s, p11, ",\"revoked\":"@) {
                                                                                                        None => None,
                                                                                                        Some(p12) => {
                                                                                                            match dec_bool(s, p12) {
                                                                                                                None => None,
                                                                                                                Some((v6, p13)) => {
                                                                                                                    match dec_lit(s, p13, ",\"usage_limit\":"@) {
                                                                                                                        None => None,
                                                                                                                        Some(p14) => {
                                                                                                                            match dec_opt_u64(s, p14) {
                                                                                                                                None => None,
                                                                                                                                Some((v7, p15)) => {
                                                                                                                                    match dec_lit(s, p15, ",\"usage_count\":"@) {
                                                                                                                                        None => None,
                                                                                                                                        Some(p16) => {
                                                                                                                                            match dec_u64(s, p16) {
                                                                                                                                                None => None,
                                                                                                                                                Some((v8, p17)) => {
                                                                                                                                                    match dec_lit(s, p17, ",\"last_used_at\":"@) {
                                                                                                                                                        None => None,
                                                                                                                                                        Some(p18) => {
                                                                                                                                                            match dec_opt_u64(s, p18) {
                                                                                                                                                                None => None,
                                                                                                                                                                Some((v9, p19)) => {
                                                                                                                                                                    match dec_lit(s, p19, "}"@) {
                                                                                                                                                                        None => None,
                                                                                                                                                                        Some(p20) => {
                                                                                                                                                                            Some((ApiKeyRecordV { id: v0, hashed_key: v1, user_id: v2, payment_id: v3, tier: v4, created_at: v5, revoked: v6, usage_limit: v7, usage_count: v8, last_used_at: v9 }, p20))
                                                                                                                                                                        },
                                                                                                                                                                    }
                                                                                                                                                                },
                                                                                                                                                            }
                                                                                                                                                        },
                                                                                                                                                    }
                                                                                                                                                },
                                                                                                                                            }
                                                                                                                                        },
                                                                                                                                    }
                                                                                                                                },
                                                                                                                            }
                                                                                                                        },
                                                                                                                    }
                                                                                                                },
                                                                                                            }
                                                                                                        },
                                                                                                    }
                                                                                                },
                                                                                            }
                                                                                        },
                                                                                    }
                                                                                },
                                                                            }
                                                                        },
                                                                    }
                                                                },
                                                            }
                                                        },
                                                    }
                                                },
                                            }
                                        },
                                    }
                                },
                            }
                        },
                    }
                },
            }
        },
    }
}



/// A text span equal to a concatenation splits into spans equal to the two
/// halves.
pub proof fn lemma_concat_split(s: Seq<char>, i: int, a: Seq<char>, b: Seq<char>)
    requires
        0 <= i,
        i + a.len() + b.len() <= s.len(),
        s.subrange(i, i + a.len() + b.len()) == a + b,
    ensures
        s.subrange(i, i + a.len()) == a,
        s.subrange(i + a.len(), i + a.len() + b.len()) == b,
{
    let w = s.subrange(i, i + a.len() + b.len());
    assert(w.subrange(0, a.len() as int) =~= s.subrange(i, i + a.len()));
    assert(w.subrange(0, a.len() as int) =~= a);
    assert(w.subrange(a.len() as int, (a.len() + b.len()) as int) =~= s.subrange(
        i + a.len(),
        i + a.len() + b.len(),
    ));
    assert(w.subrange(a.len() as int, (a.len() + b.len()) as int) =~= b);
}

/// Decoding an encoded record at its position recovers it exactly.
#[verifier::rlimit(100)]
pub proof fn lemma_dec_payment_of_enc(p: PaymentRecordV, s: Seq<char>, i: int)
    requires
        0 <= i,
        i + enc_payment(p).len() <= s.len(),
        s.subrange(i, i + enc_payment(p).len()) == enc_payment(p),
    ensures
        dec_payment(s, i) == Some((p, i + enc_payment(p).len())),
{
    let e = enc_payment(p);
    reveal_strlit(",\"amount_cents\":");
    reveal_strlit(",\"created_at\":");
    reveal_strlit(",\"currency\":");
    reveal_strlit(",\"metadata\":");
    reveal_strlit(",\"provider\":");
    reveal_strlit(",\"reference\":");
    reveal_strlit(",\"status\":");
    reveal_strlit(",\"tier\":");
    reveal_strlit(",\"updated_at\":");
    reveal_strlit(",\"user_id\":");
    reveal_strlit("{\"id\":");
    reveal_strlit("}");
    assert(",\"amount_cents\":"@.len() == 16);
    assert(",\"created_at\":"@.len() == 14);
    assert(",\"currency\":"@.len() == 12);
    assert(",\"metadata\":"@.len() == 12);
    assert(",\"provider\":"@.len() == 12);
    assert(",\"reference\":"@.len() == 13);
    assert(",\"status\":"@.len() == 10);
    assert(",\"tier\":"@.len() == 8);
    assert(",\"updated_at\":"@.len() == 14);
    assert(",\"user_id\":"@.len() == 11);
    assert("{\"id\":"@.len() == 6);
    assert("}"@.len() == 1);
    let q0: int = i;
    let q1: int = q0 + "{\"id\":"@.len();
    let q2: int = q1 + enc_str(p.id).len();
    let q3: int = q2 + ",\"provider\":"@.len();
    let q4: int = q3 + enc_str(provider_token(p.provider)).len();
    let q5: int = q4 + ",\"status\":"@.len();
    let q6: int = q5 + enc_str(status_token(p.status)).len();
    let q7: int = q6 + ",\"amount_cents\":"@.len();
    let q8: int = q7 + enc_u64(p.amount_cents).len();
    let q9: int = q8 + ",\"currency\":"@.len();
    let q10: int = q9 + enc_str(p.currency).len();
    let q11: int = q10 + ",\"user_id\":"@.len();
    let q12: int = q11 + enc_str(p.user_id).len();
    let q13: int = q12 + ",\"tier\":"@.len();
    let q14: int = q13 + enc_str(tier_token(p.tier)).len();
    let q15: int = q14 + ",\"metadata\":"@.len();
    let q16: int = q15 + enc_meta(p.metadata).len();
    let q17: int = q16 + ",\"created_at\":"@.len();
    let q18: int = q17 + enc_u64(p.created_at).len();
    let q19: int = q18 + ",\"updated_at\":"@.len();
    let q20: int = q19 + enc_u64(p.updated_at).len();
    let q21: int = q20 + ",\"reference\":"@.len();
    let q22: int = q21 + enc_opt_str(p.reference).len();
    let q23: int = q22 + "}"@.len();
    assert(e == "{\"id\":"@ + enc_str(p.id) + ",\"provider\":"@ + enc_str(provider_token(p.provider)) + ",\"status\":"@ + enc_str(status_token(p.status)) + ",\"amount_cents\":"@ + enc_u64(p.amount_cents) + ",\"currency\":"@ + enc_str(p.currency) + ",\"user_id\":"@ + enc_str(p.user_id) + ",\"tier\":"@ + enc_str(tier_token(p.tier)) + ",\"metadata\":"@ + enc_meta(p.metadata) + ",\"created_at\":"@ + enc_u64(p.created_at) + ",\"updated_at\":"@ + enc_u64(p.updated_at) + ",\"reference\":"@ + enc_opt_str(p.reference) + "}"@);
    assert(s.subrange(q0, q23) == e);
    lemma_concat_split(s, i, "{\"id\":"@ + enc_str(p.id) + ",\"provider\":"@ + enc_str(provider_token(p.provider)) + ",\"status\":"@ + enc_str(status_token(p.status)) + ",\"amount_cents\":"@ + enc_u64(p.amount_cents) + ",\"currency\":"@ + enc_str(p.currency) + ",\"user_id\":"@ + enc_str(p.user_id) + ",\"tier\":"@ + enc_str(tier_token(p.tier)) + ",\"metadata\":"@ + enc_meta(p.metadata) + ",\"created_at\":"@ + enc_u64(p.created_at) + ",\"updated_at\":"@ + enc_u64(p.updated_at) + ",\"reference\":"@ + enc_opt_str(p.reference), "}"@);
    lemma_concat_split(s, i, "{\"id\":"@ + enc_str(p.id) + ",\"provider\":"@ + enc_str(provider_token(p.provider)) + ",\"status\":"@ + enc_str(status_token(p.status)) + ",\"amount_cents\":"@ + enc_u64(p.amount_cents) + ",\"currency\":"@ + enc_str(p.currency) + ",\"user_id\":"@ + enc_str(p.user_id) + ",\"tier\":"@ + enc_str(tier_token(p.tier)) + ",\"metadata\":"@ + enc_meta(p.metadata) + ",\"created_at\":"@ + enc_u64(p.created_at) + ",\"updated_at\":"@ + enc_u64(p.updated_at) + ",\"reference\":"@, enc_opt_str(p.reference));
    lemma_concat_split(s, i, "{\"id\":"@ + enc_str(p.id) + ",\"provider\":"@ + enc_str(provider_token(p.provider)) + ",\"status\":"@ + enc_str(status_token(p.status)) + ",\"amount_cents\":"@ + enc_u64(p.amount_cents) + ",\"currency\":"@ + enc_str(p.currency) + ",\"user_id\":"@ + enc_str(p.user_id) + ",\"tier\":"@ + enc_str(tier_token(p.tier)) + ",\"metadata\":"@ + enc_meta(p.metadata) + ",\"created_at\":"@ + enc_u64(p.created_at) + ",\"updated_at\":"@ + enc_u64(p.updated_at), ",\"reference\":"@);
    lemma_concat_split(s, i, "{\"id\":"@ + enc_str(p.id) + ",\"provider\":"@ + enc_str(provider_token(p.provider)) + ",\"status\":"@ + enc_str(status_token(p.status)) + ",\"amount_cents\":"@ + enc_u64(p.amount_cents) + ",\"currency\":"@ + enc_str(p.currency) + ",\"user_id\":"@ + enc_str(p.user_id) + ",\"tier\":"@ + enc_str(tier_token(p.tier)) + ",\"metadata\":"@ + enc_meta(p.metadata) + ",\"created_at\":"@ + enc_u64(p.created_at) + ",\"updated_at\":"@, enc_u64(p.updated_at));
    lemma_concat_split(s, i, "{\"id\":"@ + enc_str(p.id) + ",\"provider\":"@ + enc_str(provider_token(p.provider)) + ",\"status\":"@ + enc_str(status_token(p.status)) + ",\"amount_cents\":"@ + enc_u64(p.amount_cents) + ",\"currency\":"@ + enc_str(p.currency) + ",\"user_id\":"@ + enc_str(p.user_id) + ",\"tier\":"@ + enc_str(tier_token(p.tier)) + ",\"metadata\":"@ + enc_meta(p.metadata) + ",\"created_at\":"@ + enc_u64(p.created_at), ",\"updated_at\":"@);
    lemma_concat_split(s, i, "{\"id\":"@ + enc_str(p.id) + ",\"provider\":"@ + enc_str(provider_token(p.provider)) + ",\"status\":"@ + enc_str(status_token(p.status)) + ",\"amount_cents\":"@ + enc_u64(p.amount_cents) + ",\"currency\":"@ + enc_str(p.currency) + ",\"user_id\":"@ + enc_str(p.user_id) + ",\"tier\":"@ + enc_str(tier_token(p.tier)) + ",\"metadata\":"@ + enc_meta(p.metadata) + ",\"created_at\":"@, enc_u64(p.created_at));
    lemma_concat_split(s, i, "{\"id\":"@ + enc_str(p.id) + ",\"provider\":"@ + enc_str(provider_token(p.provider)) + ",\"status\":"@ + enc_str(status_token(p.status)) + ",\"amount_cents\":"@ + enc_u64(p.amount_cents) + ",\"currency\":"@ + enc_str(p.currency) + ",\"user_id\":"@ + enc_str(p.user_id) + ",\"tier\":"@ + enc_str(tier_token(p.tier)) + ",\"metadata\":"@ + enc_meta(p.metadata), ",\"created_at\":"@);
    lemma_concat_split(s, i, "{\"id\":"@ + enc_str(p.id) + ",\"provider\":"@ + enc_str(provider_token(p.provider)) + ",\"status\":"@ + enc_str(status_token(p.status)) + ",\"amount_cents\":"@ + enc_u64(p.amount_cents) + ",\"currency\":"@ + enc_str(p.currency) + ",\"user_id\":"@ + enc_str(p.user_id) + ",\"tier\":"@ + enc_str(tier_token(p.tier)) + ",\"metadata\":"@, enc_meta(p.metadata));
    lemma_concat_split(s, i, "{\"id\":"@ + enc_str(p.id) + ",\"provider\":"@ + enc_str(provider_token(p.provider)) + ",\"status\":"@ + enc_str(status_token(p.status)) + ",\"amount_cents\":"@ + enc_u64(p.amount_cents) + ",\"currency\":"@ + enc_str(p.currency) + ",\"user_id\":"@ + enc_str(p.user_id) + ",\"tier\":"@ + enc_str(tier_token(p.tier)), ",\"metadata\":"@);
    lemma_concat_split(s, i, "{\"id\":"@ + enc_str(p.id) + ",\"provider\":"@ + enc_str(provider_token(p.provider)) + ",\"status\":"@ + enc_str(status_token(p.status)) + ",\"amount_cents\":"@ + enc_u64(p.amount_cents) + ",\"currency\":"@ + enc_str(p.currency) + ",\"user_id\":"@ + enc_str(p.user_id) + ",\"tier\":"@, enc_str(tier_token(p.tier)));
    lemma_concat_split(s, i, "{\"id\":"@ + enc_str(p.id) + ",\"provider\":"@ + enc_str(provider_token(p.provider)) + ",\"status\":"@ + enc_str(status_token(p.status)) + ",\"amount_cents\":"@ + enc_u64(p.amount_cents) + ",\"currency\":"@ + enc_str(p.currency) + ",\"user_id\":"@ + enc_str(p.user_id), ",\"tier\":"@);
    lemma_concat_split(s, i, "{\"id\":"@ + enc_str(p.id) + ",\"provider\":"@ + enc_str(provider_token(p.provider)) + ",\"status\":"@ + enc_str(status_token(p.status)) + ",\"amount_cents\":"@ + enc_u64(p.amount_cents) + ",\"currency\":"@ + enc_str(p.currency) + ",\"user_id\":"@, enc_str(p.user_id));
    lemma_concat_split(s, i, "{\"id\":"@ + enc_str(p.id) + ",\"provider\":"@ + enc_str(provider_token(p.provider)) + ",\"status\":"@ + enc_str(status_token(p.status)) + ",\"amount_cents\":"@ + enc_u64(p.amount_cents) + ",\"currency\":"@ + enc_str(p.currency), ",\"user_id\":"@);
    lemma_concat_split(s, i, "{\"id\":"@ + enc_str(p.id) + ",\"provider\":"@ + enc_str(provider_token(p.provider)) + ",\"status\":"@ + enc_str(status_token(p.status)) + ",\"amount_cents\":"@ + enc_u64(p.amount_cents) + ",\"currency\":"@, enc_str(p.currency));
    lemma_concat_split(s, i, "{\"id\":"@ + enc_str(p.id) + ",\"provider\":"@ + enc_str(provider_token(p.provider)) + ",\"status\":"@ + enc_str(status_token(p.status)) + ",\"amount_cents\":"@ + enc_u64(p.amount_cents), ",\"currency\":"@);
    lemma_concat_split(s, i, "{\"id\":"@ + enc_str(p.id) + ",\"provider\":"@ + enc_str(provider_token(p.provider)) + ",\"status\":"@ + enc_str(status_token(p.status)) + ",\"amount_cents\":"@, enc_u64(p.amount_cents));
    lemma_concat_split(s, i, "{\"id\":"@ + enc_str(p.id) + ",\"provider\":"@ + enc_str(provider_token(p.provider)) + ",\"status\":"@ + enc_str(status_token(p.status)), ",\"amount_cents\":"@);
    lemma_concat_split(s, i, "{\"id\":"@ + enc_str(p.id) + ",\"provider\":"@ + enc_str(provider_token(p.provider)) + ",\"status\":"@, enc_str(status_token(p.status)));
    lemma_concat_split(s, i, "{\"id\":"@ + enc_str(p.id) + ",\"provider\":"@ + enc_str(provider_token(p.provider)), ",\"status\":"@);
    lemma_concat_split(s, i, "{\"id\":"@ + enc_str(p.id) + ",\"provider\":"@, enc_str(provider_token(p.provider)));
    lemma_concat_split(s, i, "{\"id\":"@ + enc_str(p.id), ",\"provider\":"@);
    lemma_concat_split(s, i, "{\"id\":"@, enc_str(p.id));
    assert(at_lit(s, q0, "{\"id\":"@));
    assert(dec_lit(s, q0, "{\"id\":"@) == Some(q1));
    lemma_dec_str_of_enc(p.id, s, q1);
    assert(at_lit(s, q2, ",\"provider\":"@));
    assert(dec_lit(s, q2, ",\"provider\":"@) == Some(q3));
    lemma_dec_str_of_enc(provider_token(p.provider), s, q3);
    lemma_provider_token_rt(p.provider);
    assert(at_lit(s, q4, ",\"status\":"@));
    assert(dec_lit(s, q4, ",\"status\":"@) == Some(q5));
    lemma_dec_str_of_enc(status_token(p.status), s, q5);
    lemma_status_token_rt(p.status);
    assert(at_lit(s, q6, ",\"amount_cents\":"@));
    assert(dec_lit(s, q6, ",\"amount_cents\":"@) == Some(q7));
    assert(s.subrange(q8, q8 + ",\"currency\":"@.len())[0] == s[q8]);
    assert(s[q8] == ",\"currency\":"@[0]);
    assert(!is_digit(s[q8]));
    lemma_dec_u64_of_enc(p.amount_cents, s, q7);
    assert(at_lit(s, q8, ",\"currency\":"@));
    assert(dec_lit(s, q8, ",\"currency\":"@) == Some(q9));
    lemma_dec_str_of_enc(p.currency, s, q9);
    assert(at_lit(s, q10, ",\"user_id\":"@));
    assert(dec_lit(s, q10, ",\"user_id\":"@) == Some(q11));
    lemma_dec_str_of_enc(p.user_id, s, q11);
    assert(at_lit(s, q12, ",\"tier\":"@));
    assert(dec_lit(s, q12, ",\"tier\":"@) == Some(q13));
    lemma_dec_str_of_enc(tier_token(p.tier), s, q13);
    lemma_tier_token_rt(p.tier);
    assert(at_lit(s, q14, ",\"metadata\":"@));
    assert(dec_lit(s, q14, ",\"metadata\":"@) == Some(q15));
    lemma_dec_meta_of_enc(p.metadata, s, q15);
    assert(at_lit(s, q16, ",\"created_at\":"@));
    assert(dec_lit(s, q16, ",\"created_at\":"@) == Some(q17));
    assert(s.subrange(q18, q18 + ",\"updated_at\":"@.len())[0] == s[q18]);
    assert(s[q18] == ",\"updated_at\":"@[0]);
    assert(!is_digit(s[q18]));
    lemma_dec_u64_of_enc(p.created_at, s, q17);
    assert(at_lit(s, q18, ",\"updated_at\":"@));
    assert(dec_lit(s, q18, ",\"updated_at\":"@) == Some(q19));
    assert(s.subrange(q20, q20 + ",\"reference\":"@.len())[0] == s[q20]);
    assert(s[q20] == ",\"reference\":"@[0]);
    assert(!is_digit(s[q20]));
    lemma_dec_u64_of_enc(p.updated_at, s, q19);
    assert(at_lit(s, q20, ",\"reference\":"@));
    assert(dec_lit(s, q20, ",\"reference\":"@) == Some(q21));
    lemma_dec_opt_str_of_enc(p.reference, s, q21);
    assert(at_lit(s, q22, "}"@));
    assert(dec_lit(s, q22, "}"@) == Some(q23));
    assert(dec_payment(s, i) == Some((p, i + e.len())));
}

/// Decoding an encoded record at its position recovers it exactly.
#[verifier::rlimit(100)]
pub proof fn lemma_dec_key_of_enc(p: ApiKeyRecordV, s: Seq<char>, i: int)
    requires
        0 <= i,
        i + enc_key(p).len() <= s.len(),
        s.subrange(i, i + enc_key(p).len()) == enc_key(p),
    ensures
        dec_key(s, i) == Some((p, i + enc_key(p).len())),
{
    let e = enc_key(p);
    reveal_strlit(",\"created_at\":");
    reveal_strlit(",\"hashed_key\":");
    reveal_strlit(",\"last_used_at\":");
    reveal_strlit(",\"payment_id\":");
    reveal_strlit(",\"revoked\":");
    reveal_strlit(",\"tier\":");
    reveal_strlit(",\"usage_count\":");
    reveal_strlit(",\"usage_limit\":");
    reveal_strlit(",\"user_id\":");
    reveal_strlit("{\"id\":");
    reveal_strlit("}");
    assert(",\"created_at\":"@.len() == 14);
    assert(",\"hashed_key\":"@.len() == 14);
    assert(",\"last_used_at\":"@.len() == 16);
    assert(",\"payment_id\":"@.len() == 14);
    assert(",\"revoked\":"@.len() == 11);
    assert(",\"tier\":"@.len() == 8);
    assert(",\"usage_count\":"@.len() == 15);
    assert(",\"usage_limit\":"@.len() == 15);
    assert(",\"user_id\":"@.len() == 11);
    assert("{\"id\":"@.len() == 6);
    assert("}"@.len() == 1);
    let q0: int = i;
    let q1: int = q0 + "{\"id\":"@.len();
    let q2: int = q1 + enc_str(p.id).len();
    let q3: int = q2 + ",\"hashed_key\":"@.len();
    let q4: int = q3 + enc_str(p.hashed_key).len();
    let q5: int = q4 + ",\"user_id\":"@.len();
    let q6: int = q5 + enc_str(p.user_id).len();
    let q7: int = q6 + ",\"payment_id\":"@.len();
    let q8: int = q7 + enc_str(p.payment_id).len();
    let q9: int = q8 + ",\"tier\":"@.len();
    let q10: int = q9 + enc_str(tier_token(p.tier)).len();
    let q11: int = q10 + ",\"created_at\":"@.len();
    let q12: int = q11 + enc_u64(p.created_at).len();
    let q13: int = q12 + ",\"revoked\":"@.len();
    let q14: int = q13 + enc_bool(p.revoked).len();
    let q15: int = q14 + ",\"usage_limit\":"@.len();
    let q16: int = q15 + enc_opt_u64(p.usage_limit).len();
    let q17: int = q16 + ",\"usage_count\":"@.len();
    let q18: int = q17 + enc_u64(p.usage_count).len();
    let q19: int = q18 + ",\"last_used_at\":"@.len();
    let q20: int = q19 + enc_opt_u64(p.last_used_at).len();
    let q21: int = q20 + "}"@.len();
    assert(e == "{\"id\":"@ + enc_str(p.id) + ",\"hashed_key\":"@ + enc_str(p.hashed_key) + ",\"user_id\":"@ + enc_str(p.user_id) + ",\"payment_id\":"@ + enc_str(p.payment_id) + ",\"tier\":"@ + enc_str(tier_token(p.tier)) + ",\"created_at\":"@ + enc_u64(p.created_at) + ",\"revoked\":"@ + enc_bool(p.revoked) + ",\"usage_limit\":"@ + enc_opt_u64(p.usage_limit) + ",\"usage_count\":"@ + enc_u64(p.usage_count) + ",\"last_used_at\":"@ + enc_opt_u64(p.last_used_at) + "}"@);
    assert(s.subrange(q0, q21) == e);
    lemma_concat_split(s, i, "{\"id\":"@ + enc_str(p.id) + ",\"hashed_key\":"@ + enc_str(p.hashed_key) + ",\"user_id\":"@ + enc_str(p.user_id) + ",\"payment_id\":"@ + enc_str(p.payment_id) + ",\"tier\":"@ + enc_str(tier_token(p.tier)) + ",\"created_at\":"@ + enc_u64(p.created_at) + ",\"revoked\":"@ + enc_bool(p.revoked) + ",\"usage_limit\":"@ + enc_opt_u64(p.usage_limit) + ",\"usage_count\":"@ + enc_u64(p.usage_count) + ",\"last_used_at\":"@ + enc_opt_u64(p.last_used_at), "}"@);
    lemma_concat_split(s, i, "{\"id\":"@ + enc_str(p.id) + ",\"hashed_key\":"@ + enc_str(p.hashed_key) + ",\"user_id\":"@ + enc_str(p.user_id) + ",\"payment_id\":"@ + enc_str(p.payment_id) + ",\"tier\":"@ + enc_str(tier_token(p.tier)) + ",\"created_at\":"@ + enc_u64(p.created_at) + ",\"revoked\":"@ + enc_bool(p.revoked) + ",\"usage_limit\":"@ + enc_opt_u64(p.usage_limit) + ",\"usage_count\":"@ + enc_u64(p.usage_count) + ",\"last_used_at\":"@, enc_opt_u64(p.last_used_at));
    lemma_concat_split(s, i, "{\"id\":"@ + enc_str(p.id) + ",\"hashed_key\":"@ + enc_str(p.hashed_key) + ",\"user_id\":"@ + enc_str(p.user_id) + ",\"payment_id\":"@ + enc_str(p.payment_id) + ",\"tier\":"@ + enc_str(tier_token(p.tier)) + ",\"created_at\":"@ + enc_u64(p.created_at) + ",\"revoked\":"@ + enc_bool(p.revoked) + ",\"usage_limit\":"@ + enc_opt_u64(p.usage_limit) + ",\"usage_count\":"@ + enc_u64(p.usage_count), ",\"last_used_at\":"@);
    lemma_concat_split(s, i, "{\"id\":"@ + enc_str(p.id) + ",\"hashed_key\":"@ + enc_str(p.hashed_key) + ",\"user_id\":"@ + enc_str(p.user_id) + ",\"payment_id\":"@ + enc_str(p.payment_id) + ",\"tier\":"@ + enc_str(tier_token(p.tier)) + ",\"created_at\":"@ + enc_u64(p.created_at) + ",\"revoked\":"@ + enc_bool(p.revoked) + ",\"usage_limit\":"@ + enc_opt_u64(p.usage_limit) + ",\"usage_count\":"@, enc_u64(p.usage_count));
    lemma_concat_split(s, i, "{\"id\":"@ + enc_str(p.id) + ",\"hashed_key\":"@ + enc_str(p.hashed_key) + ",\"user_id\":"@ + enc_str(p.user_id) + ",\"payment_id\":"@ + enc_str(p.payment_id) + ",\"tier\":"@ + enc_str(tier_token(p.tier)) + ",\"created_at\":"@ + enc_u64(p.created_at) + ",\"revoked\":"@ + enc_bool(p.revoked) + ",\"usage_limit\":"@ + enc_opt_u64(p.usage_limit), ",\"usage_count\":"@);
    lemma_concat_split(s, i, "{\"id\":"@ + enc_str(p.id) + ",\"hashed_key\":"@ + enc_str(p.hashed_key) + ",\"user_id\":"@ + enc_str(p.user_id) + ",\"payment_id\":"@ + enc_str(p.payment_id) + ",\"tier\":"@ + enc_str(tier_token(p.tier)) + ",\"created_at\":"@ + enc_u64(p.created_at) + ",\"revoked\":"@ + enc_bool(p.revoked) + ",\"usage_limit\":"@, enc_opt_u64(p.usage_limit));
    lemma_concat_split(s, i, "{\"id\":"@ + enc_str(p.id) + ",\"hashed_key\":"@ + enc_str(p.hashed_key) + ",\"user_id\":"@ + enc_str(p.user_id) + ",\"payment_id\":"@ + enc_str(p.payment_id) + ",\"tier\":"@ + enc_str(tier_token(p.tier)) + ",\"created_at\":"@ + enc_u64(p.created_at) + ",\"revoked\":"@ + enc_bool(p.revoked), ",\"usage_limit\":"@);
    lemma_concat_split(s, i, "{\"id\":"@ + enc_str(p.id) + ",\"hashed_key\":"@ + enc_str(p.hashed_key) + ",\"user_id\":"@ + enc_str(p.user_id) + ",\"payment_id\":"@ + enc_str(p.payment_id) + ",\"tier\":"@ + enc_str(tier_token(p.tier)) + ",\"created_at\":"@ + enc_u64(p.created_at) + ",\"revoked\":"@, enc_bool(p.revoked));
    lemma_concat_split(s, i, "{\"id\":"@ + enc_str(p.id) + ",\"hashed_key\":"@ + enc_str(p.hashed_key) + ",\"user_id\":"@ + enc_str(p.user_id) + ",\"payment_id\":"@ + enc_str(p.payment_id) + ",\"tier\":"@ + enc_str(tier_token(p.tier)) + ",\"created_at\":"@ + enc_u64(p.created_at), ",\"revoked\":"@);
    lemma_concat_split(s, i, "{\"id\":"@ + enc_str(p.id) + ",\"hashed_key\":"@ + enc_str(p.hashed_key) + ",\"user_id\":"@ + enc_str(p.user_id) + ",\"payment_id\":"@ + enc_str(p.payment_id) + ",\"tier\":"@ + enc_str(tier_token(p.tier)) + ",\"created_at\":"@, enc_u64(p.created_at));
    lemma_concat_split(s, i, "{\"id\":"@ + enc_str(p.id) + ",\"hashed_key\":"@ + enc_str(p.hashed_key) + ",\"user_id\":"@ + enc_str(p.user_id) + ",\"payment_id\":"@ + enc_str(p.payment_id) + ",\"tier\":"@ + enc_str(tier_token(p.tier)), ",\"created_at\":"@);
    lemma_concat_split(s, i, "{\"id\":"@ + enc_str(p.id) + ",\"hashed_key\":"@ + enc_str(p.hashed_key) + ",\"user_id\":"@ + enc_str(p.user_id) + ",\"payment_id\":"@ + enc_str(p.payment_id) + ",\"tier\":"@, enc_str(tier_token(p.tier)));
    lemma_concat_split(s, i, "{\"id\":"@ + enc_str(p.id) + ",\"hashed_key\":"@ + enc_str(p.hashed_key) + ",\"user_id\":"@ + enc_str(p.user_id) + ",\"payment_id\":"@ + enc_str(p.payment_id), ",\"tier\":"@);
    lemma_concat_split(s, i, "{\"id\":"@ + enc_str(p.id) + ",\"hashed_key\":"@ + enc_str(p.hashed_key) + ",\"user_id\":"@ + enc_str(p.user_id) + ",\"payment_id\":"@, enc_str(p.payment_id));
    lemma_concat_split(s, i, "{\"id\":"@ + enc_str(p.id) + ",\"hashed_key\":"@ + enc_str(p.hashed_key) + ",\"user_id\":"@ + enc_str(p.user_id), ",\"payment_id\":"@);
    lemma_concat_split(s, i, "{\"id\":"@ + enc_str(p.id) + ",\"hashed_key\":"@ + enc_str(p.hashed_key) + ",\"user_id\":"@, enc_str(p.user_id));
    lemma_concat_split(s, i, "{\"id\":"@ + enc_str(p.id) + ",\"hashed_key\":"@ + enc_str(p.hashed_key), ",\"user_id\":"@);
    lemma_concat_split(s, i, "{\"id\":"@ + enc_str(p.id) + ",\"hashed_key\":"@, enc_str(p.hashed_key));
    lemma_concat_split(s, i, "{\"id\":"@ + enc_str(p.id), ",\"hashed_key\":"@);
    lemma_concat_split(s, i, "{\"id\":"@, enc_str(p.id));
    assert(at_lit(s, q0, "{\"id\":"@));
    assert(dec_lit(s, q0, "{\"id\":"@) == Some(q1));
    lemma_dec_str_of_enc(p.id, s, q1);
    assert(at_lit(s, q2, ",\"hashed_key\":"@));
    assert(dec_lit(s, q2, ",\"hashed_key\":"@) == Some(q3));
    lemma_dec_str_of_enc(p.hashed_key, s, q3);
    assert(at_lit(s, q4, ",\"user_id\":"@));
    assert(dec_lit(s, q4, ",\"user_id\":"@) == Some(q5));
    lemma_dec_str_of_enc(p.user_id, s, q5);
    assert(at_lit(s, q6, ",\"payment_id\":"@));
    assert(dec_lit(s, q6, ",\"payment_id\":"@) == Some(q7));
    lemma_dec_str_of_enc(p.payment_id, s, q7);
    assert(at_lit(s, q8, ",\"tier\":"@));
    assert(dec_lit(s, q8, ",\"tier\":"@) == Some(q9));
    lemma_dec_str_of_enc(tier_token(p.tier), s, q9);
    lemma_tier_token_rt(p.tier);
    assert(at_lit(s, q10, ",\"created_at\":"@));
    assert(dec_lit(s, q10, ",\"created_at\":"@) == Some(q11));
    assert(s.subrange(q12, q12 + ",\"revoked\":"@.len())[0] == s[q12]);
    assert(s[q12] == ",\"revoked\":"@[0]);
    assert(!is_digit(s[q12]));
    lemma_dec_u64_of_enc(p.created_at, s, q11);
    assert(at_lit(s, q12, ",\"revoked\":"@));
    assert(dec_lit(s, q12, ",\"revoked\":"@) == Some(q13));
    lemma_dec_bool_of_enc(p.revoked, s, q13);
    assert(at_lit(s, q14, ",\"usage_limit\":"@));
    assert(dec_lit(s, q14, ",\"usage_limit\":"@) == Some(q15));
    assert(s.subrange(q16, q16 + ",\"usage_count\":"@.len())[0] == s[q16]);
    assert(s[q16] == ",\"usage_count\":"@[0]);
    assert(!is_digit(s[q16]));
    lemma_dec_opt_u64_of_enc(p.usage_limit, s, q15);
    assert(at_lit(s, q16, ",\"usage_count\":"@));
    assert(dec_lit(s, q16, ",\"usage_count\":"@) == Some(q17));
    assert(s.subrange(q18, q18 + ",\"last_used_at\":"@.len())[0] == s[q18]);
    assert(s[q18] == ",\"last_used_at\":"@[0]);
    assert(!is_digit(s[q18]));
    lemma_dec_u64_of_enc(p.usage_count, s, q17);
    assert(at_lit(s, q18, ",\"last_used_at\":"@));
    assert(dec_lit(s, q18, ",\"last_used_at\":"@) == Some(q19));
    assert(s.subrange(q20, q20 + "}"@.len())[0] == s[q20]);
    assert(s[q20] == "}"@[0]);
    assert(!is_digit(s[q20]));
    lemma_dec_opt_u64_of_enc(p.last_used_at, s, q19);
    assert(at_lit(s, q20, "}"@));
    assert(dec_lit(s, q20, "}"@) == Some(q21));
    assert(dec_key(s, i) == Some((p, i + e.len())));
}


/// The comma-separated items of a record array.
pub open spec fn enc_payments_items(ps: Seq<PaymentRecordV>) -> Seq<char>
    decreases ps.len(),
{
    if ps.len() == 0 {
        Seq::empty()
    } else if ps.len() == 1 {
        enc_payment(ps[0])
    } else {
        enc_payment(ps[0]) + seq![','] + enc_payments_items(ps.drop_first())
    }
}

/// A record array as a JSON array, in order.
pub open spec fn enc_payments(ps: Seq<PaymentRecordV>) -> Seq<char> {
    seq!['['] + enc_payments_items(ps) + seq![']']
}

/// One or more records up to and including the closing bracket.
pub open spec fn dec_payments_items(s: Seq<char>, i: int, fuel: nat) -> Option<(Seq<PaymentRecordV>, int)>
    decreases fuel,
{
    if fuel == 0 {
        None
    } else {
        match dec_payment(s, i) {
            None => None,
            Some((p, j)) => {
                if j < s.len() && s[j] == ',' {
                    match dec_payments_items(s, j + 1, (fuel - 1) as nat) {
                        None => None,
                        Some((rest, j2)) => Some((seq![p] + rest, j2)),
                    }
                } else if j < s.len() && s[j] == ']' {
                    Some((seq![p], j + 1))
                } else {
                    None
                }
            },
        }
    }
}

/// A record array from its opening bracket, with the position after the
/// closing bracket.
pub open spec fn dec_payments(s: Seq<char>, i: int) -> Option<(Seq<PaymentRecordV>, int)> {
    if 0 <= i && i + 1 < s.len() && s[i] == '[' {
        if s[i + 1] == ']' {
            Some((Seq::empty(), i + 2))
        } else {
            dec_payments_items(s, i + 1, (s.len() - i) as nat)
        }
    } else {
        None
    }
}

/// An item list encoding is never shorter than the number of its items.
pub proof fn lemma_enc_payments_items_len(ps: Seq<PaymentRecordV>)
    ensures
        enc_payments_items(ps).len() >= ps.len(),
    decreases ps.len(),
{
    if ps.len() >= 1 {
        reveal_strlit("{\"id\":");
        assert("{\"id\":"@.len() == 6);
        assert(enc_payment(ps[0]).len() >= 1);
        if ps.len() > 1 {
            lemma_enc_payments_items_len(ps.drop_first());
        }
    }
}

/// Decoding an encoded item list recovers the records, consuming the
/// closing bracket that follows it.
#[verifier::rlimit(100)]
pub proof fn lemma_dec_payments_items_of_enc(ps: Seq<PaymentRecordV>, s: Seq<char>, i: int, fuel: nat)
    requires
        ps.len() >= 1,
        fuel >= ps.len(),
        0 <= i,
        i + enc_payments_items(ps).len() + 1 <= s.len(),
        s.subrange(i, i + enc_payments_items(ps).len()) == enc_payments_items(ps),
        s[i + enc_payments_items(ps).len()] == ']',
    ensures
        dec_payments_items(s, i, fuel) == Some((ps, i + enc_payments_items(ps).len() + 1)),
    decreases ps.len(),
{
    let e = enc_payments_items(ps);
    let e0 = enc_payment(ps[0]);
    if ps.len() == 1 {
        assert(e == e0);
        lemma_dec_payment_of_enc(ps[0], s, i);
        assert(s[i + e0.len()] == ']');
        assert(seq![ps[0]] =~= ps);
    } else {
        let rest = enc_payments_items(ps.drop_first());
        assert(e == e0 + seq![','] + rest);
        lemma_concat_split(s, i, e0 + seq![','], rest);
        lemma_concat_split(s, i, e0, seq![',']);
        lemma_dec_payment_of_enc(ps[0], s, i);
        let j = i + e0.len();
        assert(s.subrange(j, j + 1)[0] == s[j]);
        assert(s[j] == ',');
        assert(s[j + 1 + rest.len()] == ']');
        lemma_dec_payments_items_of_enc(ps.drop_first(), s, j + 1, (fuel - 1) as nat);
        assert(seq![ps[0]] + ps.drop_first() =~= ps);
    }
}

/// Decoding an encoded record array recovers it.
pub proof fn lemma_dec_payments_of_enc(ps: Seq<PaymentRecordV>, s: Seq<char>, i: int)
    requires
        0 <= i,
        i + enc_payments(ps).len() <= s.len(),
        s.subrange(i, i + enc_payments(ps).len()) == enc_payments(ps),
    ensures
        dec_payments(s, i) == Some((ps, i + enc_payments(ps).len())),
{
    let e = enc_payments(ps);
    let items = enc_payments_items(ps);
    assert(e == seq!['['] + items + seq![']']);
    lemma_concat_split(s, i, seq!['['] + items, seq![']']);
    lemma_concat_split(s, i, seq!['['], items);
    assert(s.subrange(i, i + 1)[0] == s[i]);
    assert(s[i] == '[');
    assert(s.subrange(i + 1 + items.len(), i + e.len())[0] == s[i + 1 + items.len()]);
    assert(s[i + 1 + items.len()] == ']');
    if ps.len() == 0 {
        assert(items.len() == 0);
        assert(s[i + 1] == ']');
    } else {
        lemma_enc_payments_items_len(ps);
        reveal_strlit("{\"id\":");
        assert("{\"id\":"@.len() == 6);
        assert(enc_payment(ps[0])[0] == '{');
        assert(items[0] == enc_payment(ps[0])[0]);
        assert(s.subrange(i + 1, i + 1 + items.len())[0] == s[i + 1]);
        assert(s[i + 1] == '{');
        assert(s[i + 1] != ']');
        assert(s.len() - i >= ps.len());
        lemma_dec_payments_items_of_enc(ps, s, i + 1, (s.len() - i) as nat);
    }
}

/// The comma-separated items of a record array.
pub open spec fn enc_keys_items(ps: Seq<ApiKeyRecordV>) -> Seq<char>
    decreases ps.len(),
{
    if ps.len() == 0 {
        Seq::empty()
    } else if ps.len() == 1 {
        enc_key(ps[0])
    } else {
        enc_key(ps[0]) + seq![','] + enc_keys_items(ps.drop_first())
    }
}

/// A record array as a JSON array, in order.
pub open spec fn enc_keys(ps: Seq<ApiKeyRecordV>) -> Seq<char> {
    seq!['['] + enc_keys_items(ps) + seq![']']
}

/// One or more records up to and including the closing bracket.
pub open spec fn dec_keys_items(s: Seq<char>, i: int, fuel: nat) -> Option<(Seq<ApiKeyRecordV>, int)>
    decreases fuel,
{
    if fuel == 0 {
        None
    } else {
        match dec_key(s, i) {
            None => None,
            Some((p, j)) => {
                if j < s.len() && s[j] == ',' {
                    match dec_keys_items(s, j + 1, (fuel - 1) as nat) {
                        None => None,
                        Some((rest, j2)) => Some((seq![p] + rest, j2)),
                    }
                } else if j < s.len() && s[j] == ']' {
                    Some((seq![p], j + 1))
                } else {
                    None
                }
            },
        }
    }
}

/// A record array from its opening bracket, with the position after the
/// closing bracket.
pub open spec fn dec_keys(s: Seq<char>, i: int) -> Option<(Seq<ApiKeyRecordV>, int)> {
    if 0 <= i && i + 1 < s.len() && s[i] == '[' {
        if s[i + 1] == ']' {
            Some((Seq::empty(), i + 2))
        } else {
            dec_keys_items(s, i + 1, (s.len() - i) as nat)
        }
    } else {
        None
    }
}

/// An item list encoding is never shorter than the number of its items.
pub proof fn lemma_enc_keys_items_len(ps: Seq<ApiKeyRecordV>)
    ensures
        enc_keys_items(ps).len() >= ps.len(),
    decreases ps.len(),
{
    if ps.len() >= 1 {
        reveal_strlit("{\"id\":");
        assert("{\"id\":"@.len() == 6);
        assert(enc_key(ps[0]).len() >= 1);
        if ps.len() > 1 {
            lemma_enc_keys_items_len(ps.drop_first());
        }
    }
}

/// Decoding an encoded item list recovers the records, consuming the
/// closing bracket that follows it.
#[verifier::rlimit(100)]
pub proof fn lemma_dec_keys_items_of_enc(ps: Seq<ApiKeyRecordV>, s: Seq<char>, i: int, fuel: nat)
    requires
        ps.len() >= 1,
        fuel >= ps.len(),
        0 <= i,
        i + enc_keys_items(ps).len() + 1 <= s.len(),
        s.subrange(i, i + enc_keys_items(ps).len()) == enc_keys_items(ps),
        s[i + enc_keys_items(ps).len()] == ']',
    ensures
        dec_keys_items(s, i, fuel) == Some((ps, i + enc_keys_items(ps).len() + 1)),
    decreases ps.len(),
{
    let e = enc_keys_items(ps);
    let e0 = enc_key(ps[0]);
    if ps.len() == 1 {
        assert(e == e0);
        lemma_dec_key_of_enc(ps[0], s, i);
        assert(s[i + e0.len()] == ']');
        assert(seq![ps[0]] =~= ps);
    } else {
        let rest = enc_keys_items(ps.drop_first());
        assert(e == e0 + seq![','] + rest);
        lemma_concat_split(s, i, e0 + seq![','], rest);
        lemma_concat_split(s, i, e0, seq![',']);
        lemma_dec_key_of_enc(ps[0], s, i);
        let j = i + e0.len();
        assert(s.subrange(j, j + 1)[0] == s[j]);
        assert(s[j] == ',');
        assert(s[j + 1 + rest.len()] == ']');
        lemma_dec_keys_items_of_enc(ps.drop_first(), s, j + 1, (fuel - 1) as nat);
        assert(seq![ps[0]] + ps.drop_first() =~= ps);
    }
}

/// Decoding an encoded record array recovers it.
pub proof fn lemma_dec_keys_of_enc(ps: Seq<ApiKeyRecordV>, s: Seq<char>, i: int)
    requires
        0 <= i,
        i + enc_keys(ps).len() <= s.len(),
        s.subrange(i, i + enc_keys(ps).len()) == enc_keys(ps),
    ensures
        dec_keys(s, i) == Some((ps, i + enc_keys(ps).len())),
{
    let e = enc_keys(ps);
    let items = enc_keys_items(ps);
    assert(e == seq!['['] + items + seq![']']);
    lemma_concat_split(s, i, seq!['['] + items, seq![']']);
    lemma_concat_split(s, i, seq!['['], items);
    assert(s.subrange(i, i + 1)[0] == s[i]);
    assert(s[i] == '[');
    assert(s.subrange(i + 1 + items.len(), i + e.len())[0] == s[i + 1 + items.len()]);
    assert(s[i + 1 + items.len()] == ']');
    if ps.len() == 0 {
        assert(items.len() == 0);
        assert(s[i + 1] == ']');
    } else {
        lemma_enc_keys_items_len(ps);
        reveal_strlit("{\"id\":");
        assert("{\"id\":"@.len() == 6);
        assert(enc_key(ps[0])[0] == '{');
        assert(items[0] == enc_key(ps[0])[0]);
        assert(s.subrange(i + 1, i + 1 + items.len())[0] == s[i + 1]);
        assert(s[i + 1] == '{');
        assert(s[i + 1] != ']');
        assert(s.len() - i >= ps.len());
        lemma_dec_keys_items_of_enc(ps, s, i + 1, (s.len() - i) as nat);
    }
}

/// The whole billing state as one JSON object.
pub open spec fn enc_state(v: BillingStateV) -> Seq<char> {
    "{\"payments\":"@ + enc_payments(v.payments) + ",\"api_keys\":"@ + enc_keys(v.api_keys)
        + "}"@
}

/// The state object at `i`, with the position after it.
pub open spec fn dec_state_pos(s: Seq<char>, i: int) -> Option<(BillingStateV, int)> {
    match dec_lit(s, i, "{\"payments\":"@) {
        None => None,
        Some(i1) => match dec_payments(s, i1) {
            None => None,
            Some((ps, i2)) => match dec_lit(s, i2, ",\"api_keys\":"@) {
                None => None,
                Some(i3) => match dec_keys(s, i3) {
                    None => None,
                    Some((ks, i4)) => match dec_lit(s, i4, "}"@) {
                        None => None,
                        Some(i5) => Some((BillingStateV { payments: ps, api_keys: ks }, i5)),
                    },
                },
            },
        },
    }
}

/// The state a whole text denotes: the text must be one state object and
/// nothing more.
pub open spec fn dec_state(s: Seq<char>) -> Option<BillingStateV> {
    match dec_state_pos(s, 0) {
        Some((v, end)) => if end == s.len() {
            Some(v)
        } else {
            None
        },
        None => None,
    }
}

/// Decoding an encoded state recovers it exactly: persisting a snapshot and
/// reloading it yields the same payments and the same API-key records, in
/// the same order, field for field.
pub proof fn lemma_state_round_trip(v: BillingStateV)
    ensures
        dec_state(enc_state(v)) == Some(v),
{
    let s = enc_state(v);
    let lp = "{\"payments\":"@;
    let lk = ",\"api_keys\":"@;
    let lc = "}"@;
    reveal_strlit("{\"payments\":");
    reveal_strlit(",\"api_keys\":");
    reveal_strlit("}");
    assert(lp.len() == 12);
    assert(lk.len() == 12);
    assert(lc.len() == 1);
    let ep = enc_payments(v.payments);
    let ek = enc_keys(v.api_keys);
    assert(s == lp + ep + lk + ek + lc);
    assert(s.subrange(0, s.len() as int) =~= s);
    lemma_concat_split(s, 0, lp + ep + lk + ek, lc);
    lemma_concat_split(s, 0, lp + ep + lk, ek);
    lemma_concat_split(s, 0, lp + ep, lk);
    lemma_concat_split(s, 0, lp, ep);
    assert(at_lit(s, 0, lp));
    lemma_dec_payments_of_enc(v.payments, s, lp.len() as int);
    assert(at_lit(s, (lp.len() + ep.len()) as int, lk));
    lemma_dec_keys_of_enc(v.api_keys, s, (lp.len() + ep.len() + lk.len()) as int);
    assert(at_lit(s, (lp.len() + ep.len() + lk.len() + ek.len()) as int, lc));
    assert(dec_state_pos(s, 0) == Some((v, s.len() as int)));
}

/// The escape expansion of one character.
pub open spec fn esc_char(c: char) -> Seq<char> {
    if c == '"' || c == '\\' {
        seq!['\\', c]
    } else {
        seq![c]
    }
}

/// Escaping distributes over appending one character.
pub proof fn lemma_esc_push(t: Seq<char>, c: char)
    ensures
        esc(t.push(c)) == esc(t) + esc_char(c),
    decreases t.len(),
{
    if t.len() == 0 {
        assert(t.push(c)[0] == c);
        assert(t.push(c).drop_first() =~= Seq::<char>::empty());
        assert(esc(Seq::<char>::empty()) =~= Seq::<char>::empty());
        assert(esc(t.push(c)) =~= esc(t) + esc_char(c));
    } else {
        assert(t.push(c)[0] == t[0]);
        assert(t.push(c).drop_first() =~= t.drop_first().push(c));
        lemma_esc_push(t.drop_first(), c);
        assert(esc(t.push(c)) =~= esc(t) + esc_char(c));
    }
}

/// Appends the JSON form of `s` to `out`.
fn encode_string_into(out: &mut String, s: &str)
    ensures
        final (out)@ == old(out)@ + enc_str(s@),
{
    push_char(out, '"');
    let n: usize = s.unicode_len();
    let mut i: usize = 0;
    proof {
        assert(esc(s@.take(0)) =~= Seq::<char>::empty());
        assert(out@ =~= old(out)@ + seq!['"'] + esc(s@.take(0)));
    }
    while i < n
        invariant
            n == s@.len(),
            0 <= i <= n,
            out@ == old(out)@ + seq!['"'] + esc(s@.take(i as int)),
        decreases n - i,
    {
        let c = s.get_char(i);
        if c == '"' || c == '\\' {
            push_char(out, '\\');
        }
        push_char(out, c);
        proof {
            assert(s@.take(i + 1) =~= s@.take(i as int).push(s@[i as int]));
            lemma_esc_push(s@.take(i as int), s@[i as int]);
            assert(out@ =~= old(out)@ + seq!['"'] + esc(s@.take(i + 1)));
        }
        i = i + 1;
    }
    push_char(out, '"');
    proof {
        assert(s@.take(n as int) =~= s@);
        assert(out@ =~= old(out)@ + enc_str(s@));
    }
}

/// Appends the decimal form of `n` to `out`.
fn encode_u64_into(out: &mut String, n: u64)
    ensures
        final (out)@ == old(out)@ + enc_u64(n),
    decreases n,
{
    if n < 10 {
        push_char(out, (n as u8 + 48) as char);
        proof {
            assert(out@ =~= old(out)@ + enc_u64(n));
        }
    } else {
        encode_u64_into(out, n / 10);
        push_char(out, ((n % 10) as u8 + 48) as char);
        proof {
            assert(out@ =~= old(out)@ + enc_u64(n));
        }
    }
}

/// Item lists grow at the end as the encoder walks the pairs in order.
proof fn lemma_meta_items_push(m: Seq<(Seq<char>, Seq<char>)>, pr: (Seq<char>, Seq<char>))
    ensures
        enc_meta_items(m.push(pr)) == if m.len() == 0 {
            enc_str(pr.0) + seq![':'] + enc_str(pr.1)
        } else {
            enc_meta_items(m) + seq![','] + (enc_str(pr.0) + seq![':'] + enc_str(pr.1))
        },
    decreases m.len(),
{
    let w = m.push(pr);
    if m.len() == 0 {
        assert(w.len() == 1);
        assert(w[0] == pr);
        assert(enc_meta_items(w) =~= enc_str(pr.0) + seq![':'] + enc_str(pr.1));
    } else {
        assert(w[0] == m[0]);
        assert(w.drop_first() =~= m.drop_first().push(pr));
        lemma_meta_items_push(m.drop_first(), pr);
        if m.len() == 1 {
            assert(m.drop_first().len() == 0);
            assert(enc_meta_items(w) =~= enc_meta_items(m) + seq![','] + (enc_str(pr.0)
                + seq![':'] + enc_str(pr.1)));
        } else {
            assert(enc_meta_items(w) =~= enc_meta_items(m) + seq![','] + (enc_str(pr.0)
                + seq![':'] + enc_str(pr.1)));
        }
    }
}

/// Appends the JSON object form of a metadata vector to `out`.
fn encode_meta_into(out: &mut String, m: &Vec<(String, String)>)
    ensures
        final (out)@ == old(out)@ + enc_meta(crate::models::meta_view(m@)),
{
    push_char(out, '{');
    let n: usize = m.len();
    let mut i: usize = 0;
    proof {
        let ghost mv = crate::models::meta_view(m@);
        assert(enc_meta_items(mv.take(0)) =~= Seq::<char>::empty());
        assert(out@ =~= old(out)@ + seq!['{'] + enc_meta_items(mv.take(0)));
    }
    while i < n
        invariant
            n == m@.len(),
            0 <= i <= n,
            out@ == old(out)@ + seq!['{'] + enc_meta_items(
                crate::models::meta_view(m@).take(i as int),
            ),
        decreases n - i,
    {
        let ghost mv = crate::models::meta_view(m@);
        if i > 0 {
            push_char(out, ',');
        }
        encode_string_into(out, m[i].0.as_str());
        push_char(out, ':');
        encode_string_into(out, m[i].1.as_str());
        proof {
            assert(mv.take(i + 1) =~= mv.take(i as int).push(mv[i as int]));
            lemma_meta_items_push(mv.take(i as int), mv[i as int]);
            assert(mv[i as int].0 == m@[i as int].0@);
            assert(mv[i as int].1 == m@[i as int].1@);
            assert(out@ =~= old(out)@ + seq!['{'] + enc_meta_items(mv.take(i + 1)));
        }
        i = i + 1;
    }
    push_char(out, '}');
    proof {
        let ghost mv = crate::models::meta_view(m@);
        assert(mv.take(n as int) =~= mv);
        assert(out@ =~= old(out)@ + enc_meta(mv));
    }
}

/// Appends `null` or the JSON string form of `o` to `out`.
fn encode_opt_string_into(out: &mut String, o: &Option<String>)
    ensures
        final (out)@ == old(out)@ + enc_opt_str(crate::models::opt_str_view(*o)),
{
    match o {
        Some(v) => {
            encode_string_into(out, v.as_str());
        },
        None => {
            out.append("null");
        },
    }
}

/// Appends `null` or the decimal form of `o` to `out`.
fn encode_opt_u64_into(out: &mut String, o: Option<u64>)
    ensures
        final (out)@ == old(out)@ + enc_opt_u64(o),
{
    match o {
        Some(v) => {
            encode_u64_into(out, v);
        },
        None => {
            out.append("null");
        },
    }
}

/// Appends one payment record object to `out`.
#[verifier::rlimit(100)]
fn encode_payment_into(out: &mut String, p: &PaymentRecord)
    ensures
        final (out)@ == old(out)@ + enc_payment(p@),
{
    out.append("{\"id\":");
    encode_string_into(out, p.id.as_str());
    out.append(",\"provider\":");
    encode_string_into(out, p.provider.as_str());
    out.append(",\"status\":");
    encode_status_into(out, p.status);
    out.append(",\"amount_cents\":");
    encode_u64_into(out, p.amount_cents);
    out.append(",\"currency\":");
    encode_string_into(out, p.currency.as_str());
    out.append(",\"user_id\":");
    encode_string_into(out, p.user_id.as_str());
    out.append(",\"tier\":");
    encode_string_into(out, p.tier.as_str());
    out.append(",\"metadata\":");
    encode_meta_into(out, &p.metadata);
    out.append(",\"created_at\":");
    encode_u64_into(out, p.created_at);
    out.append(",\"updated_at\":");
    encode_u64_into(out, p.updated_at);
    out.append(",\"reference\":");
    encode_opt_string_into(out, &p.reference);
    out.append("}");
    proof {
        assert(out@ =~= old(out)@ + enc_payment(p@));
    }
}

/// Appends the status token, quoted, to `out`.
fn encode_status_into(out: &mut String, st: PaymentStatus)
    ensures
        final (out)@ == old(out)@ + enc_str(status_token(st)),
{
    let tok: &str = match st {
        PaymentStatus::Pending => "pending",
        PaymentStatus::RequiresAction => "requires_action",
        PaymentStatus::Authorized => "authorized",
        PaymentStatus::Succeeded => "succeeded",
        PaymentStatus::Refunded => "refunded",
        PaymentStatus::Failed => "failed",
        PaymentStatus::Chargeback => "chargeback",
    };
    encode_string_into(out, tok);
}

/// Appends one API-key record object to `out`.
#[verifier::rlimit(100)]
fn encode_key_into(out: &mut String, p: &ApiKeyRecord)
    ensures
        final (out)@ == old(out)@ + enc_key(p@),
{
    out.append("{\"id\":");
    encode_string_into(out, p.id.as_str());
    out.append(",\"hashed_key\":");
    encode_string_into(out, p.hashed_key.as_str());
    out.append(",\"user_id\":");
    encode_string_into(out, p.user_id.as_str());
    out.append(",\"payment_id\":");
    encode_string_into(out, p.payment_id.as_str());
    out.append(",\"tier\":");
    encode_string_into(out, p.tier.as_str());
    out.append(",\"created_at\":");
    encode_u64_into(out, p.created_at);
    out.append(",\"revoked\":");
    if p.revoked {
        out.append("true");
    } else {
        out.append("false");
    }
    out.append(",\"usage_limit\":");
    encode_opt_u64_into(out, p.usage_limit);
    out.append(",\"usage_count\":");
    encode_u64_into(out, p.usage_count);
    out.append(",\"last_used_at\":");
    encode_opt_u64_into(out, p.last_used_at);
    out.append("}");
    proof {
        assert(out@ =~= old(out)@ + enc_key(p@));
    }
}

/// Record arrays grow at the end as the encoder walks the records in order.
proof fn lemma_payments_items_push(ps: Seq<PaymentRecordV>, p: PaymentRecordV)
    ensures
        enc_payments_items(ps.push(p)) == if ps.len() == 0 {
            enc_payment(p)
        } else {
            enc_payments_items(ps) + seq![','] + enc_payment(p)
        },
    decreases ps.len(),
{
    let w = ps.push(p);
    if ps.len() == 0 {
        assert(w[0] == p);
        assert(enc_payments_items(w) =~= enc_payment(p));
    } else {
        assert(w[0] == ps[0]);
        assert(w.drop_first() =~= ps.drop_first().push(p));
        lemma_payments_items_push(ps.drop_first(), p);
        assert(enc_payments_items(w) =~= enc_payments_items(ps) + seq![','] + enc_payment(p));
    }
}

/// Record arrays grow at the end as the encoder walks the records in order.
proof fn lemma_keys_items_push(ps: Seq<ApiKeyRecordV>, p: ApiKeyRecordV)
    ensures
        enc_keys_items(ps.push(p)) == if ps.len() == 0 {
            enc_key(p)
        } else {
            enc_keys_items(ps) + seq![','] + enc_key(p)
        },
    decreases ps.len(),
{
    let w = ps.push(p);
    if ps.len() == 0 {
        assert(w[0] == p);
        assert(enc_keys_items(w) =~= enc_key(p));
    } else {
        assert(w[0] == ps[0]);
        assert(w.drop_first() =~= ps.drop_first().push(p));
        lemma_keys_items_push(ps.drop_first(), p);
        assert(enc_keys_items(w) =~= enc_keys_items(ps) + seq![','] + enc_key(p));
    }
}

/// Encodes the whole billing state as its JSON snapshot text.
pub fn encode_state(state: &BillingState) -> (r: String)
    ensures
        r@ == enc_state(state@),
{
    let mut out = String::new();
    out.append("{\"payments\":");
    push_char(&mut out, '[');
    let ghost pv = state@.payments;
    let np: usize = state.payments.len();
    let mut i: usize = 0;
    proof {
        assert(enc_payments_items(pv.take(0)) =~= Seq::<char>::empty());
    }
    while i < np
        invariant
            np == state.payments@.len(),
            pv == state@.payments,
            0 <= i <= np,
            out@ == "{\"payments\":"@ + seq!['['] + enc_payments_items(pv.take(i as int)),
        decreases np - i,
    {
        if i > 0 {
            push_char(&mut out, ',');
        }
        encode_payment_into(&mut out, &state.payments[i]);
        proof {
            assert(pv.take(i + 1) =~= pv.take(i as int).push(pv[i as int]));
            lemma_payments_items_push(pv.take(i as int), pv[i as int]);
            assert(out@ =~= "{\"payments\":"@ + seq!['['] + enc_payments_items(pv.take(i + 1)));
        }
        i = i + 1;
    }
    push_char(&mut out, ']');
    proof {
        assert(pv.take(np as int) =~= pv);
        assert(out@ =~= "{\"payments\":"@ + enc_payments(pv));
    }
    out.append(",\"api_keys\":");
    push_char(&mut out, '[');
    let ghost kv = state@.api_keys;
    let nk: usize = state.api_keys.len();
    let mut t: usize = 0;
    proof {
        assert(enc_keys_items(kv.take(0)) =~= Seq::<char>::empty());
    }
    while t < nk
        invariant
            nk == state.api_keys@.len(),
            kv == state@.api_keys,
            pv == state@.payments,
            0 <= t <= nk,
            out@ == "{\"payments\":"@ + enc_payments(pv) + ",\"api_keys\":"@ + seq!['[']
                + enc_keys_items(kv.take(t as int)),
        decreases nk - t,
    {
        if t > 0 {
            push_char(&mut out, ',');
        }
        encode_key_into(&mut out, &state.api_keys[t]);
        proof {
            assert(kv.take(t + 1) =~= kv.take(t as int).push(kv[t as int]));
            lemma_keys_items_push(kv.take(t as int), kv[t as int]);
            assert(out@ =~= "{\"payments\":"@ + enc_payments(pv) + ",\"api_keys\":"@
                + seq!['['] + enc_keys_items(kv.take(t + 1)));
        }
        t = t + 1;
    }
    push_char(&mut out, ']');
    out.append("}");
    proof {
        assert(kv.take(nk as int) =~= kv);
        assert(out@ =~= enc_state(state@));
    }
    out
}

/// Whether `lit` stands at position `i` of `s`.
fn expect_lit(s: &str, i: usize, lit: &str) -> (r: bool)
    ensures
        r == at_lit(s@, i as int, lit@),
{
    let n: usize = s.unicode_len();
    let m: usize = lit.unicode_len();
    if i > n || m > n - i {
        proof {
            assert(!at_lit(s@, i as int, lit@));
        }
        return false;
    }
    let mut j: usize = 0;
    while j < m
        invariant
            n == s@.len(),
            m == lit@.len(),
            i + m <= n,
            0 <= j <= m,
            forall|t: int| 0 <= t < j ==> s@[i + t] == lit@[t],
        decreases m - j,
    {
        if s.get_char(i + j) != lit.get_char(j) {
            proof {
                assert(!at_lit(s@, i as int, lit@)) by {
                    if at_lit(s@, i as int, lit@) {
                        assert(s@.subrange(i as int, i + m) =~= lit@);
                        assert(s@.subrange(i as int, i + m)[j as int] == s@[i + j]);
                    }
                }
            }
            return false;
        }
        j = j + 1;
    }
    proof {
        assert(s@.subrange(i as int, i + m) =~= lit@);
    }
    true
}

/// `lit` consumed at position `i`, or `None`.
fn eat_lit(s: &str, i: usize, lit: &str) -> (r: Option<usize>)
    ensures
        match r {
            Some(j) => dec_lit(s@, i as int, lit@) == Some(j as int) && i <= j <= s@.len(),
            None => dec_lit(s@, i as int, lit@) is None,
        },
{
    let n: usize = s.unicode_len();
    let m: usize = lit.unicode_len();
    if expect_lit(s, i, lit) {
        proof {
            assert(i + m <= n);
        }
        Some(i + m)
    } else {
        None
    }
}

/// A JSON string at `i`: the decoded characters and the position after the
/// closing quote.
fn d_str(s: &str, i: usize) -> (r: Option<(String, usize)>)
    ensures
        match r {
            Some(p) => dec_str(s@, i as int) == Some((p.0@, p.1 as int)) && i <= p.1 <= s@.len(),
            None => dec_str(s@, i as int) is None,
        },
{
    let n: usize = s.unicode_len();
    if !(i < n && s.get_char(i) == '"') {
        return None;
    }
    let mut out = String::new();
    let mut k: usize = i + 1;
    let ghost i0: int = i + 1;
    proof {
        assert(out@ =~= Seq::<char>::empty());
        if dec_str_body(s@, i0) is Some {
            let (t, j) = dec_str_body(s@, i0).unwrap();
            assert(out@ + t =~= t);
        }
    }
    loop
        invariant
            n == s@.len(),
            i0 == i + 1,
            i < n,
            s@[i as int] == '"',
            i0 <= k <= n,
            0 < i0,
            match dec_str_body(s@, k as int) {
                Some((t, j)) => dec_str_body(s@, i0) == Some((out@ + t, j)),
                None => dec_str_body(s@, i0) is None,
            },
        decreases n - k,
    {
        if k >= n {
            return None;
        }
        let c = s.get_char(k);
        if c == '"' {
            proof {
                assert(out@ + Seq::<char>::empty() =~= out@);
            }
            return Some((out, k + 1));
        } else if c == '\\' {
            if k + 1 < n {
                let c2 = s.get_char(k + 1);
                if c2 == '"' || c2 == '\\' {
                    let ghost out0 = out@;
                    push_char(&mut out, c2);
                    proof {
                        if dec_str_body(s@, k as int + 2) is Some {
                            let (t, j) = dec_str_body(s@, k as int + 2).unwrap();
                            assert(out0 + (seq![s@[k as int + 1]] + t) =~= out0.push(
                                s@[k as int + 1],
                            ) + t);
                        }
                    }
                    k = k + 2;
                } else {
                    return None;
                }
            } else {
                return None;
            }
        } else {
            let ghost out0 = out@;
            push_char(&mut out, c);
            proof {
                if dec_str_body(s@, k as int + 1) is Some {
                    let (t, j) = dec_str_body(s@, k as int + 1).unwrap();
                    assert(out0 + (seq![s@[k as int]] + t) =~= out0.push(s@[k as int]) + t);
                }
            }
            k = k + 1;
        }
    }
}

proof fn lemma_digits_val_nonneg(s: Seq<char>, i: int, end: int)
    requires
        forall|j: int| i <= j < end ==> is_digit(s[j]),
    ensures
        digits_val(s, i, end) >= 0,
    decreases end - i,
{
    if i < end {
        lemma_digits_val_nonneg(s, i, end - 1);
        assert(is_digit(s[end - 1]));
    }
}

/// A decimal number at `i`: its value and the position after its digits.
fn d_u64(s: &str, i: usize) -> (r: Option<(u64, usize)>)
    ensures
        match r {
            Some(p) => dec_u64(s@, i as int) == Some((p.0, p.1 as int)) && i <= p.1 <= s@.len(),
            None => dec_u64(s@, i as int) is None,
        },
{
    let n: usize = s.unicode_len();
    if i >= n {
        return None;
    }
    let mut k: usize = i;
    let mut acc: u64 = 0;
    let mut overflow: bool = false;
    loop
        invariant
            n == s@.len(),
            i <= k <= n,
            forall|j: int| i <= j < k ==> is_digit(s@[j]),
            !overflow ==> digits_val(s@, i as int, k as int) == acc,
            overflow ==> digits_val(s@, i as int, k as int) > u64::MAX,
        ensures
            i <= k <= n,
            forall|j: int| i <= j < k ==> is_digit(s@[j]),
            !overflow ==> digits_val(s@, i as int, k as int) == acc,
            overflow ==> digits_val(s@, i as int, k as int) > u64::MAX,
            k == n || !is_digit(s@[k as int]),
        decreases n - k,
    {
        if k >= n {
            break ;
        }
        let c = s.get_char(k);
        let u = c as u32;
        if !(48 <= u && u <= 57) {
            break ;
        }
        let d: u64 = (c as u32 - 48) as u64;
        proof {
            assert(is_digit(s@[k as int]));
            assert(digits_val(s@, i as int, k as int + 1) == digits_val(s@, i as int, k as int)
                * 10 + d);
            lemma_digits_val_nonneg(s@, i as int, k as int);
        }
        if overflow {
            proof {
                let v = digits_val(s@, i as int, k as int);
                assert(v * 10 + d > u64::MAX) by (nonlinear_arith)
                    requires
                        v > u64::MAX,
                        d >= 0,
                ;
            }
        } else {
            if acc > (u64::MAX - d) / 10 {
                proof {
                    assert(acc * 10 + d > u64::MAX) by (nonlinear_arith)
                        requires
                            acc > (u64::MAX - d) / 10,
                            0 <= d < 10,
                    ;
                }
                overflow = true;
            } else {
                proof {
                    assert(acc * 10 + d <= u64::MAX) by (nonlinear_arith)
                        requires
                            acc <= (u64::MAX - d) / 10,
                            0 <= d < 10,
                    ;
                }
                acc = acc * 10 + d;
            }
        }
        k = k + 1;
    }
    proof {
        lemma_digits_end_exact(s@, i as int, k as int);
    }
    if k == i {
        return None;
    }
    if overflow {
        return None;
    }
    Some((acc, k))
}

/// `true` or `false` at `i`.
fn d_bool(s: &str, i: usize) -> (r: Option<(bool, usize)>)
    ensures
        match r {
            Some(p) => dec_bool(s@, i as int) == Some((p.0, p.1 as int)) && i <= p.1 <= s@.len(),
            None => dec_bool(s@, i as int) is None,
        },
{
    proof {
        reveal_strlit("true");
        reveal_strlit("false");
        assert("true"@.len() == 4);
        assert("false"@.len() == 5);
    }
    let n: usize = s.unicode_len();
    if expect_lit(s, i, "true") {
        Some((true, i + 4))
    } else if expect_lit(s, i, "false") {
        Some((false, i + 5))
    } else {
        None
    }
}

/// A number or `null` at `i`.
fn d_opt_u64(s: &str, i: usize) -> (r: Option<(Option<u64>, usize)>)
    ensures
        match r {
            Some(p) => dec_opt_u64(s@, i as int) == Some((p.0, p.1 as int)) && i <= p.1
                <= s@.len(),
            None => dec_opt_u64(s@, i as int) is None,
        },
{
    proof {
        reveal_strlit("null");
        assert("null"@.len() == 4);
    }
    let n: usize = s.unicode_len();
    if expect_lit(s, i, "null") {
        Some((None, i + 4))
    } else {
        match d_u64(s, i) {
            Some((v, j)) => Some((Some(v), j)),
            None => None,
        }
    }
}

/// A JSON string or `null` at `i`.
fn d_opt_str(s: &str, i: usize) -> (r: Option<(Option<String>, usize)>)
    ensures
        match r {
            Some(p) => dec_opt_str(s@, i as int) == Some(
                (crate::models::opt_str_view(p.0), p.1 as int),
            ) && i <= p.1 <= s@.len(),
            None => dec_opt_str(s@, i as int) is None,
        },
{
    proof {
        reveal_strlit("null");
        assert("null"@.len() == 4);
    }
    let n: usize = s.unicode_len();
    if expect_lit(s, i, "null") {
        Some((None, i + 4))
    } else {
        match d_str(s, i) {
            Some((v, j)) => Some((Some(v), j)),
            None => None,
        }
    }
}

/// A quoted provider token at `i`.
fn d_provider(s: &str, i: usize) -> (r: Option<(PaymentProviderKind, usize)>)
    ensures
        match r {
            Some(p) => dec_provider(s@, i as int) == Some((p.0, p.1 as int)) && i <= p.1
                <= s@.len(),
            None => dec_provider(s@, i as int) is None,
        },
{
    let (tok, j) = match d_str(s, i) {
        Some(p) => p,
        None => {
            return None;
        },
    };
    let t = tok.as_str();
    if crate::strutil::str_eq(t, "stripe") {
        Some((PaymentProviderKind::Stripe, j))
    } else if crate::strutil::str_eq(t, "paypal") {
        Some((PaymentProviderKind::Paypal, j))
    } else if crate::strutil::str_eq(t, "shopify") {
        Some((PaymentProviderKind::Shopify, j))
    } else if crate::strutil::str_eq(t, "klarna") {
        Some((PaymentProviderKind::Klarna, j))
    } else if crate::strutil::str_eq(t, "affirm") {
        Some((PaymentProviderKind::Affirm, j))
    } else if crate::strutil::str_eq(t, "apple_pay") {
        Some((PaymentProviderKind::ApplePay, j))
    } else if crate::strutil::str_eq(t, "wepay") {
        Some((PaymentProviderKind::WePay, j))
    } else if crate::strutil::str_eq(t, "venmo") {
        Some((PaymentProviderKind::Venmo, j))
    } else if crate::strutil::str_eq(t, "wechat") {
        Some((PaymentProviderKind::WeChat, j))
    } else if crate::strutil::str_eq(t, "quickbooks") {
        Some((PaymentProviderKind::QuickBooks, j))
    } else if crate::strutil::str_eq(t, "mastercard") {
        Some((PaymentProviderKind::Mastercard, j))
    } else if crate::strutil::str_eq(t, "visa") {
        Some((PaymentProviderKind::Visa, j))
    } else if crate::strutil::str_eq(t, "bitcoin") {
        Some((PaymentProviderKind::Bitcoin, j))
    } else {
        None
    }
}

/// A quoted status token at `i`.
fn d_status(s: &str, i: usize) -> (r: Option<(PaymentStatus, usize)>)
    ensures
        match r {
            Some(p) => dec_status(s@, i as int) == Some((p.0, p.1 as int)) && i <= p.1 <= s@.len(),
            None => dec_status(s@, i as int) is None,
        },
{
    let (tok, j) = match d_str(s, i) {
        Some(p) => p,
        None => {
            return None;
        },
    };
    let t = tok.as_str();
    if crate::strutil::str_eq(t, "pending") {
        Some((PaymentStatus::Pending, j))
    } else if crate::strutil::str_eq(t, "requires_action") {
        Some((PaymentStatus::RequiresAction, j))
    } else if crate::strutil::str_eq(t, "authorized") {
        Some((PaymentStatus::Authorized, j))
    } else if crate::strutil::str_eq(t, "succeeded") {
        Some((PaymentStatus::Succeeded, j))
    } else if crate::strutil::str_eq(t, "refunded") {
        Some((PaymentStatus::Refunded, j))
    } else if crate::strutil::str_eq(t, "failed") {
        Some((PaymentStatus::Failed, j))
    } else if crate::strutil::str_eq(t, "chargeback") {
        Some((PaymentStatus::Chargeback, j))
    } else {
        None
    }
}

/// A quoted tier token at `i`.
fn d_tier(s: &str, i: usize) -> (r: Option<(ApiTier, usize)>)
    ensures
        match r {
            Some(p) => dec_tier(s@, i as int) == Some((p.0, p.1 as int)) && i <= p.1 <= s@.len(),
            None => dec_tier(s@, i as int) is None,
        },
{
    let (tok, j) = match d_str(s, i) {
        Some(p) => p,
        None => {
            return None;
        },
    };
    let t = tok.as_str();
    if crate::strutil::str_eq(t, "trial") {
        Some((ApiTier::Trial, j))
    } else if crate::strutil::str_eq(t, "standard") {
        Some((ApiTier::Standard, j))
    } else if crate::strutil::str_eq(t, "premium") {
        Some((ApiTier::Premium, j))
    } else if crate::strutil::str_eq(t, "enterprise") {
        Some((ApiTier::Enterprise, j))
    } else {
        None
    }
}

/// A metadata object at `i`.
fn d_meta(s: &str, i: usize) -> (r: Option<(Vec<(String, String)>, usize)>)
    ensures
        match r {
            Some(p) => dec_meta(s@, i as int) == Some(
                (crate::models::meta_view(p.0@), p.1 as int),
            ) && i <= p.1 <= s@.len(),
            None => dec_meta(s@, i as int) is None,
        },
{
    let n: usize = s.unicode_len();
    if i >= n {
        return None;
    }
    if !(i + 1 < n && s.get_char(i) == '{') {
        return None;
    }
    if s.get_char(i + 1) == '}' {
        let out: Vec<(String, String)> = Vec::new();
        proof {
            assert(crate::models::meta_view(out@) =~= Seq::<(Seq<char>, Seq<char>)>::empty());
        }
        return Some((out, i + 2));
    }
    let ghost f0: nat = (s@.len() - i) as nat;
    let mut out: Vec<(String, String)> = Vec::new();
    let mut k: usize = i + 1;
    let ghost i0: int = i + 1;
    proof {
        if dec_meta_items(s@, i0, f0) is Some {
            let (rest, j) = dec_meta_items(s@, i0, f0).unwrap();
            assert(crate::models::meta_view(out@) + rest =~= rest);
        }
    }
    loop
        invariant
            n == s@.len(),
            i0 == i + 1,
            i + 1 <= k <= n,
            f0 == (s@.len() - i) as nat,
            out@.len() <= k - i0,
            i + 1 < n,
            s@[i as int] == '{',
            s@[i as int + 1] != '}',
            match dec_meta_items(s@, k as int, (f0 - out@.len()) as nat) {
                Some((rest, j)) => dec_meta_items(s@, i0, f0) == Some(
                    (crate::models::meta_view(out@) + rest, j),
                ),
                None => dec_meta_items(s@, i0, f0) is None,
            },
        decreases n - k,
    {
        let ghost fuel = (f0 - out@.len()) as nat;
        proof {
            assert(fuel >= 1);
        }
        let (key, j) = match d_str(s, k) {
            Some(p) => p,
            None => {
                return None;
            },
        };
        if !(j < n && s.get_char(j) == ':') {
            return None;
        }
        let (val, j2) = match d_str(s, j + 1) {
            Some(p) => p,
            None => {
                return None;
            },
        };
        if j2 < n && s.get_char(j2) == ',' {
            let ghost out0 = out@;
            out.push((key, val));
            proof {
                let pr = (out@[out@.len() - 1].0@, out@[out@.len() - 1].1@);
                assert(crate::models::meta_view(out@) =~= crate::models::meta_view(out0).push(pr));
                if dec_meta_items(s@, j2 + 1, (fuel - 1) as nat) is Some {
                    let (rest, j3) = dec_meta_items(s@, j2 + 1, (fuel - 1) as nat).unwrap();
                    assert(crate::models::meta_view(out0) + (seq![pr] + rest)
                        =~= crate::models::meta_view(out0).push(pr) + rest);
                }
                assert(j2 + 1 - i0 >= out@.len());
            }
            if j2 + 1 > n {
                proof {
                    assert(false);
                }
            }
            k = j2 + 1;
        } else if j2 < n && s.get_char(j2) == '}' {
            let ghost out0 = out@;
            out.push((key, val));
            proof {
                let pr = (out@[out@.len() - 1].0@, out@[out@.len() - 1].1@);
                assert(crate::models::meta_view(out@) =~= crate::models::meta_view(out0).push(pr));
                assert(crate::models::meta_view(out0) + seq![pr] =~= crate::models::meta_view(
                    out0,
                ).push(pr));
            }
            return Some((out, j2 + 1));
        } else {
            return None;
        }
    }
}

/// A payment record object at `i`.
fn d_payment(s: &str, i: usize) -> (r: Option<(PaymentRecord, usize)>)
    ensures
        match r {
            Some(p) => dec_payment(s@, i as int) == Some((p.0@, p.1 as int)) && i <= p.1
                <= s@.len(),
            None => dec_payment(s@, i as int) is None,
        },
{
    let i1 = match eat_lit(s, i, "{\"id\":") {
        Some(j) => j,
        None => {
            return None;
        },
    };
    let (id, i2) = match d_str(s, i1) {
        Some(p) => p,
        None => {
            return None;
        },
    };
    let i3 = match eat_lit(s, i2, ",\"provider\":") {
        Some(j) => j,
        None => {
            return None;
        },
    };
    let (provider, i4) = match d_provider(s, i3) {
        Some(p) => p,
        None => {
            return None;
        },
    };
    let i5 = match eat_lit(s, i4, ",\"status\":") {
        Some(j) => j,
        None => {
            return None;
        },
    };
    let (status, i6) = match d_status(s, i5) {
        Some(p) => p,
        None => {
            return None;
        },
    };
    let i7 = match eat_lit(s, i6, ",\"amount_cents\":") {
        Some(j) => j,
        None => {
            return None;
        },
    };
    let (amount_cents, i8) = match d_u64(s, i7) {
        Some(p) => p,
        None => {
            return None;
        },
    };
    let i9 = match eat_lit(s, i8, ",\"currency\":") {
        Some(j) => j,
        None => {
            return None;
        },
    };
    let (currency, i10) = match d_str(s, i9) {
        Some(p) => p,
        None => {
            return None;
        },
    };
    let i11 = match eat_lit(s, i10, ",\"user_id\":") {
        Some(j) => j,
        None => {
            return None;
        },
    };
    let (user_id, i12) = match d_str(s, i11) {
        Some(p) => p,
        None => {
            return None;
        },
    };
    let i13 = match eat_lit(s, i12, ",\"tier\":") {
        Some(j) => j,
        None => {
            return None;
        },
    };
    let (tier, i14) = match d_tier(s, i13) {
        Some(p) => p,
        None => {
            return None;
        },
    };
    let i15 = match eat_lit(s, i14, ",\"metadata\":") {
        Some(j) => j,
        None => {
            return None;
        },
    };
    let (metadata, i16) = match d_meta(s, i15) {
        Some(p) => p,
        None => {
            return None;
        },
    };
    let i17 = match eat_lit(s, i16, ",\"created_at\":") {
        Some(j) => j,
        None => {
            return None;
        },
    };
    let (created_at, i18) = match d_u64(s, i17) {
        Some(p) => p,
        None => {
            return None;
        },
    };
    let i19 = match eat_lit(s, i18, ",\"updated_at\":") {
        Some(j) => j,
        None => {
            return None;
        },
    };
    let (updated_at, i20) = match d_u64(s, i19) {
        Some(p) => p,
        None => {
            return None;
        },
    };
    let i21 = match eat_lit(s, i20, ",\"reference\":") {
        Some(j) => j,
        None => {
            return None;
        },
    };
    let (reference, i22) = match d_opt_str(s, i21) {
        Some(p) => p,
        None => {
            return None;
        },
    };
    let end = match eat_lit(s, i22, "}") {
        Some(j) => j,
        None => {
            return None;
        },
    };
    let rec = PaymentRecord {
        id,
        provider,
        status,
        amount_cents,
        currency,
        user_id,
        tier,
        metadata,
        created_at,
        updated_at,
        reference,
    };
    Some((rec, end))
}

/// An API-key record object at `i`.
fn d_key(s: &str, i: usize) -> (r: Option<(ApiKeyRecord, usize)>)
    ensures
        match r {
            Some(p) => dec_key(s@, i as int) == Some((p.0@, p.1 as int)) && i <= p.1 <= s@.len(),
            None => dec_key(s@, i as int) is None,
        },
{
    let i1 = match eat_lit(s, i, "{\"id\":") {
        Some(j) => j,
        None => {
            return None;
        },
    };
    let (id, i2) = match d_str(s, i1) {
        Some(p) => p,
        None => {
            return None;
        },
    };
    let i3 = match eat_lit(s, i2, ",\"hashed_key\":") {
        Some(j) => j,
        None => {
            return None;
        },
    };
    let (hashed_key, i4) = match d_str(s, i3) {
        Some(p) => p,
        None => {
            return None;
        },
    };
    let i5 = match eat_lit(s, i4, ",\"user_id\":") {
        Some(j) => j,
        None => {
            return None;
        },
    };
    let (user_id, i6) = match d_str(s, i5) {
        Some(p) => p,
        None => {
            return None;
        },
    };
    let i7 = match eat_lit(s, i6, ",\"payment_id\":") {
        Some(j) => j,
        None => {
            return None;
        },
    };
    let (payment_id, i8) = match d_str(s, i7) {
        Some(p) => p,
        None => {
            return None;
        },
    };
    let i9 = match eat_lit(s, i8, ",\"tier\":") {
        Some(j) => j,
        None => {
            return None;
        },
    };
    let (tier, i10) = match d_tier(s, i9) {
        Some(p) => p,
        None => {
            return None;
        },
    };
    let i11 = match eat_lit(s, i10, ",\"created_at\":") {
        Some(j) => j,
        None => {
            return None;
        },
    };
    let (created_at, i12) = match d_u64(s, i11) {
        Some(p) => p,
        None => {
            return None;
        },
    };
    let i13 = match eat_lit(s, i12, ",\"revoked\":") {
        Some(j) => j,
        None => {
            return None;
        },
    };
    let (revoked, i14) = match d_bool(s, i13) {
        Some(p) => p,
        None => {
            return None;
        },
    };
    let i15 = match eat_lit(s, i14, ",\"usage_limit\":") {
        Some(j) => j,
        None => {
            return None;
        },
    };
    let (usage_limit, i16) = match d_opt_u64(s, i15) {
        Some(p) => p,
        None => {
            return None;
        },
    };
    let i17 = match eat_lit(s, i16, ",\"usage_count\":") {
        Some(j) => j,
        None => {
            return None;
        },
    };
    let (usage_count, i18) = match d_u64(s, i17) {
        Some(p) => p,
        None => {
            return None;
        },
    };
    let i19 = match eat_lit(s, i18, ",\"last_used_at\":") {
        Some(j) => j,
        None => {
            return None;
        },
    };
    let (last_used_at, i20) = match d_opt_u64(s, i19) {
        Some(p) => p,
        None => {
            return None;
        },
    };
    let end = match eat_lit(s, i20, "}") {
        Some(j) => j,
        None => {
            return None;
        },
    };
    let rec = ApiKeyRecord {
        id,
        hashed_key,
        user_id,
        payment_id,
        tier,
        created_at,
        revoked,
        usage_limit,
        usage_count,
        last_used_at,
    };
    Some((rec, end))
}

/// A payment array at `i`.
#[verifier::rlimit(100)]
fn d_payments(s: &str, i: usize) -> (r: Option<(Vec<PaymentRecord>, usize)>)
    ensures
        match r {
            Some(p) => dec_payments(s@, i as int) == Some(
                (p.0@.map_values(|q: PaymentRecord| q@), p.1 as int),
            ) && i <= p.1 <= s@.len(),
            None => dec_payments(s@, i as int) is None,
        },
{
    let n: usize = s.unicode_len();
    if i >= n {
        return None;
    }
    if !(i + 1 < n && s.get_char(i) == '[') {
        return None;
    }
    if s.get_char(i + 1) == ']' {
        let out: Vec<PaymentRecord> = Vec::new();
        proof {
            assert(out@.map_values(|q: PaymentRecord| q@) =~= Seq::<PaymentRecordV>::empty());
        }
        return Some((out, i + 2));
    }
    let ghost f0: nat = (s@.len() - i) as nat;
    let mut out: Vec<PaymentRecord> = Vec::new();
    let mut k: usize = i + 1;
    let ghost i0: int = i + 1;
    proof {
        if dec_payments_items(s@, i0, f0) is Some {
            let (rest, j) = dec_payments_items(s@, i0, f0).unwrap();
            assert(out@.map_values(|q: PaymentRecord| q@) + rest =~= rest);
        }
    }
    loop
        invariant
            n == s@.len(),
            i0 == i + 1,
            i + 1 <= k <= n,
            f0 == (s@.len() - i) as nat,
            out@.len() <= k - i0,
            i + 1 < n,
            s@[i as int] == '[',
            s@[i as int + 1] != ']',
            match dec_payments_items(s@, k as int, (f0 - out@.len()) as nat) {
                Some((rest, j)) => dec_payments_items(s@, i0, f0) == Some(
                    (out@.map_values(|q: PaymentRecord| q@) + rest, j),
                ),
                None => dec_payments_items(s@, i0, f0) is None,
            },
        decreases n - k,
    {
        let ghost fuel = (f0 - out@.len()) as nat;
        proof {
            assert(fuel >= 1);
        }
        let (rec, j) = match d_payment(s, k) {
            Some(p) => p,
            None => {
                return None;
            },
        };
        if j < n && s.get_char(j) == ',' {
            let ghost out0 = out@;
            out.push(rec);
            proof {
                let pv = out@[out@.len() - 1]@;
                assert(out@.map_values(|q: PaymentRecord| q@) =~= out0.map_values(
                    |q: PaymentRecord| q@,
                ).push(pv));
                if dec_payments_items(s@, j + 1, (fuel - 1) as nat) is Some {
                    let (rest, j3) = dec_payments_items(s@, j + 1, (fuel - 1) as nat).unwrap();
                    assert(out0.map_values(|q: PaymentRecord| q@) + (seq![pv] + rest)
                        =~= out0.map_values(|q: PaymentRecord| q@).push(pv) + rest);
                }
            }
            if j + 1 > n {
                proof {
                    assert(false);
                }
            }
            k = j + 1;
        } else if j < n && s.get_char(j) == ']' {
            let ghost out0 = out@;
            out.push(rec);
            proof {
                let pv = out@[out@.len() - 1]@;
                assert(out@.map_values(|q: PaymentRecord| q@) =~= out0.map_values(
                    |q: PaymentRecord| q@,
                ).push(pv));
                assert(out0.map_values(|q: PaymentRecord| q@) + seq![pv] =~= out0.map_values(
                    |q: PaymentRecord| q@,
                ).push(pv));
            }
            return Some((out, j + 1));
        } else {
            return None;
        }
    }
}

/// An API-key array at `i`.
#[verifier::rlimit(100)]
fn d_keys(s: &str, i: usize) -> (r: Option<(Vec<ApiKeyRecord>, usize)>)
    ensures
        match r {
            Some(p) => dec_keys(s@, i as int) == Some(
                (p.0@.map_values(|q: ApiKeyRecord| q@), p.1 as int),
            ) && i <= p.1 <= s@.len(),
            None => dec_keys(s@, i as int) is None,
        },
{
    let n: usize = s.unicode_len();
    if i >= n {
        return None;
    }
    if !(i + 1 < n && s.get_char(i) == '[') {
        return None;
    }
    if s.get_char(i + 1) == ']' {
        let out: Vec<ApiKeyRecord> = Vec::new();
        proof {
            assert(out@.map_values(|q: ApiKeyRecord| q@) =~= Seq::<ApiKeyRecordV>::empty());
        }
        return Some((out, i + 2));
    }
    let ghost f0: nat = (s@.len() - i) as nat;
    let mut out: Vec<ApiKeyRecord> = Vec::new();
    let mut k: usize = i + 1;
    let ghost i0: int = i + 1;
    proof {
        if dec_keys_items(s@, i0, f0) is Some {
            let (rest, j) = dec_keys_items(s@, i0, f0).unwrap();
            assert(out@.map_values(|q: ApiKeyRecord| q@) + rest =~= rest);
        }
    }
    loop
        invariant
            n == s@.len(),
            i0 == i + 1,
            i + 1 <= k <= n,
            f0 == (s@.len() - i) as nat,
            out@.len() <= k - i0,
            i + 1 < n,
            s@[i as int] == '[',
            s@[i as int + 1] != ']',
            match dec_keys_items(s@, k as int, (f0 - out@.len()) as nat) {
                Some((rest, j)) => dec_keys_items(s@, i0, f0) == Some(
                    (out@.map_values(|q: ApiKeyRecord| q@) + rest, j),
                ),
                None => dec_keys_items(s@, i0, f0) is None,
            },
        decreases n - k,
    {
        let ghost fuel = (f0 - out@.len()) as nat;
        proof {
            assert(fuel >= 1);
        }
        let (rec, j) = match d_key(s, k) {
            Some(p) => p,
            None => {
                return None;
            },
        };
        if j < n && s.get_char(j) == ',' {
            let ghost out0 = out@;
            out.push(rec);
            proof {
                let pv = out@[out@.len() - 1]@;
                assert(out@.map_values(|q: ApiKeyRecord| q@) =~= out0.map_values(
                    |q: ApiKeyRecord| q@,
                ).push(pv));
                if dec_keys_items(s@, j + 1, (fuel - 1) as nat) is Some {
                    let (rest, j3) = dec_keys_items(s@, j + 1, (fuel - 1) as nat).unwrap();
                    assert(out0.map_values(|q: ApiKeyRecord| q@) + (seq![pv] + rest)
                        =~= out0.map_values(|q: ApiKeyRecord| q@).push(pv) + rest);
                }
            }
            if j + 1 > n {
                proof {
                    assert(false);
                }
            }
            k = j + 1;
        } else if j < n && s.get_char(j) == ']' {
            let ghost out0 = out@;
            out.push(rec);
            proof {
                let pv = out@[out@.len() - 1]@;
                assert(out@.map_values(|q: ApiKeyRecord| q@) =~= out0.map_values(
                    |q: ApiKeyRecord| q@,
                ).push(pv));
                assert(out0.map_values(|q: ApiKeyRecord| q@) + seq![pv] =~= out0.map_values(
                    |q: ApiKeyRecord| q@,
                ).push(pv));
            }
            return Some((out, j + 1));
        } else {
            return None;
        }
    }
}

/// Decodes a snapshot text back into a billing state; a text that is not
/// exactly one state object is a serialization error.
pub fn decode_state(s: &str) -> (r: Result<BillingState, crate::error::BillingError>)
    ensures
        match dec_state(s@) {
            Some(v) => r matches Ok(st) && st@ == v,
            None => r matches Err(crate::error::BillingError::Serialization(_)),
        },
{
    let n: usize = s.unicode_len();
    let i1 = match eat_lit(s, 0, "{\"payments\":") {
        Some(j) => j,
        None => {
            return Err(
                crate::error::BillingError::Serialization(
                    String::from_str("malformed billing snapshot"),
                ),
            );
        },
    };
    let (payments, i2) = match d_payments(s, i1) {
        Some(p) => p,
        None => {
            return Err(
                crate::error::BillingError::Serialization(
                    String::from_str("malformed billing snapshot"),
                ),
            );
        },
    };
    let i3 = match eat_lit(s, i2, ",\"api_keys\":") {
        Some(j) => j,
        None => {
            return Err(
                crate::error::BillingError::Serialization(
                    String::from_str("malformed billing snapshot"),
                ),
            );
        },
    };
    let (api_keys, i4) = match d_keys(s, i3) {
        Some(p) => p,
        None => {
            return Err(
                crate::error::BillingError::Serialization(
                    String::from_str("malformed billing snapshot"),
                ),
            );
        },
    };
    let i5 = match eat_lit(s, i4, "}") {
        Some(j) => j,
        None => {
            return Err(
                crate::error::BillingError::Serialization(
                    String::from_str("malformed billing snapshot"),
                ),
            );
        },
    };
    if i5 != n {
        return Err(
            crate::error::BillingError::Serialization(
                String::from_str("malformed billing snapshot"),
            ),
        );
    }
    Ok(BillingState { payments, api_keys })
}

} // verus!
