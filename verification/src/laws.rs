use crate::api_keys::{
    first_colon, hashed_value_spec, issued_key_wf, key_string_spec, lemma_first_colon_spec,
    split_hashed_spec, strip_dollars, used_once, verify_spec, SALT_BYTES,
};
use crate::hexstr::{
    from_hex_spec, hex_chars, is_hex_digit, lemma_from_hex_of_hex_chars, lemma_hex_chars_digits,
    lemma_hex_chars_len,
};
use crate::models::{ApiKeyRecordV, IssuedApiKey};
use crate::store::{key_index, upsert_keys, use_allowed};
use vstd::prelude::*;
use vstd::utf8::encode_utf8;

verus! {

proof fn lemma_first_colon_at(s: Seq<char>, pos: int)
    requires
        0 <= pos < s.len(),
        s[pos] == ':',
        forall|j: int| 0 <= j < pos ==> s[j] != ':',
    ensures
        first_colon(s) == pos,
{
    lemma_first_colon_spec(s);
    let f = first_colon(s);
    if f == -1 {
        assert(s[pos] != ':');
    } else if f < pos {
        assert(s[f] != ':');
    } else if f > pos {
        assert(s[pos] != ':');
    }
}

proof fn lemma_verify_of_encoding(key: Seq<char>, salt: Seq<u8>, rec: ApiKeyRecordV)
    requires
        !rec.revoked,
        rec.hashed_key == hashed_value_spec(salt, key),
    ensures
        verify_spec(key, rec),
{
    let digest = crate::api_keys::sha256_of(salt + encode_utf8(key));
    let ha = hex_chars(salt, false);
    let hb = hex_chars(digest, false);
    let s = rec.hashed_key;
    lemma_hex_chars_len(salt, false);
    lemma_hex_chars_len(digest, false);
    lemma_hex_chars_digits(salt, false);
    lemma_hex_chars_digits(digest, false);
    let pos = ha.len() as int;
    assert(s == ha + seq![':', '$'] + hb);
    assert(s[pos] == ':');
    assert forall|j: int| 0 <= j < pos implies s[j] != ':' by {
        assert(s[j] == ha[j]);
        assert(is_hex_digit(ha[j]));
    }
    lemma_first_colon_at(s, pos);
    assert(s.take(pos) =~= ha);
    lemma_from_hex_of_hex_chars(salt, false);
    assert(from_hex_spec(s.take(pos)) == Some(salt));
    assert(s.skip(pos + 1) =~= seq!['$'] + hb);
    let rest = seq!['$'] + hb;
    assert(rest[0] == '$');
    assert(rest.drop_first() =~= hb);
    assert(strip_dollars(rest) == strip_dollars(hb));
    if hb.len() > 0 {
        assert(is_hex_digit(hb[0]));
        assert(hb[0] != '$');
    }
    assert(strip_dollars(hb) == hb);
    lemma_from_hex_of_hex_chars(digest, false);
    assert(from_hex_spec(strip_dollars(s.skip(pos + 1))) == Some(digest));
    assert(split_hashed_spec(s) == Some((salt, digest)));
}

/// A freshly issued key verifies against its own record: the record is not
/// revoked, its stored hash splits back into the salt and digest it was
/// built from, and the recomputed digest matches.
pub proof fn lemma_fresh_key_verifies(k: IssuedApiKey, prefix: Seq<char>)
    requires
        issued_key_wf(k, prefix),
    ensures
        verify_spec(k.api_key@, k.record@),
{
    let salt = choose|salt: Seq<u8>|
        salt.len() == SALT_BYTES && k.record@.hashed_key == hashed_value_spec(salt, k.api_key@);
    lemma_verify_of_encoding(k.api_key@, salt, k.record@);
}

/// The plaintext of a freshly issued key never appears as a substring of the
/// persisted stored-hash value: the plaintext always carries a hyphen, and
/// the stored value is made of hex digits, one colon and one dollar sign
/// only.
pub proof fn lemma_plaintext_absent_from_hash(k: IssuedApiKey, prefix: Seq<char>)
    requires
        issued_key_wf(k, prefix),
    ensures
        forall|j: int|
            0 <= j <= k.record@.hashed_key.len() - k.api_key@.len() ==> #[trigger] k.record@.hashed_key.subrange(j, j + k.api_key@.len() as int) != k.api_key@,
{
    let key = k.api_key@;
    let s = k.record@.hashed_key;
    let salt = choose|salt: Seq<u8>|
        salt.len() == SALT_BYTES && k.record@.hashed_key == hashed_value_spec(salt, key);
    let raw = choose|raw: Seq<u8>|
        raw.len() == crate::api_keys::API_KEY_BYTES && key == key_string_spec(prefix, raw);
    let digest = crate::api_keys::sha256_of(salt + encode_utf8(key));
    let ha = hex_chars(salt, false);
    let hb = hex_chars(digest, false);
    lemma_hex_chars_len(salt, false);
    lemma_hex_chars_len(digest, false);
    lemma_hex_chars_digits(salt, false);
    lemma_hex_chars_digits(digest, false);
    let d = prefix.len() as int;
    assert(key == prefix + seq!['-'] + crate::api_keys::group8(hex_chars(raw, true)));
    assert(key[d] == '-');
    assert forall|i: int| 0 <= i < s.len() implies s[i] != '-' by {
        assert(s == ha + seq![':', '$'] + hb);
        if i < ha.len() {
            assert(s[i] == ha[i]);
            assert(is_hex_digit(ha[i]));
        } else if i == ha.len() {
            assert(s[i] == ':');
        } else if i == ha.len() + 1 {
            assert(s[i] == '$');
        } else {
            assert(s[i] == hb[i - ha.len() - 2]);
            assert(is_hex_digit(hb[i - ha.len() - 2]));
        }
    }
    assert(key.len() >= d + 1);
    assert forall|j: int| 0 <= j <= s.len() - key.len() implies #[trigger] s.subrange(
        j,
        j + key.len() as int,
    ) != key by {
        assert(s.subrange(j, j + key.len() as int)[d] == s[j + d]);
        assert(s[j + d] != '-');
    }
}

/// A revoked record fails verification, whatever its usage count and limit
/// hold.
pub proof fn lemma_revoked_never_verifies(candidate: Seq<char>, rec: ApiKeyRecordV)
    requires
        rec.revoked,
    ensures
        !verify_spec(candidate, rec),
{
}

/// The record after `n` successful uses at time `now`.
pub open spec fn used_times(k: ApiKeyRecordV, now: u64, n: nat) -> ApiKeyRecordV
    decreases n,
{
    if n == 0 {
        k
    } else {
        used_once(used_times(k, now, (n - 1) as nat), now)
    }
}

/// Repeated use accumulates exactly: after `n` uses the count has grown by
/// `n`, and nothing else about the record's identity, limit or revocation
/// has moved.
pub proof fn lemma_repeated_use_counts(k: ApiKeyRecordV, now: u64, n: nat)
    requires
        k.usage_count + n <= u64::MAX,
    ensures
        used_times(k, now, n).usage_count == k.usage_count + n,
        used_times(k, now, n).revoked == k.revoked,
        used_times(k, now, n).usage_limit == k.usage_limit,
        used_times(k, now, n).id == k.id,
    decreases n,
{
    if n > 0 {
        lemma_repeated_use_counts(k, now, (n - 1) as nat);
    }
}

/// With no usage limit, every one of `n` consecutive uses is allowed and the
/// final count is exactly the initial count plus `n`: under the store's
/// exclusive access per use, no concurrent schedule loses an update.
pub proof fn lemma_unlimited_uses_accumulate(k: ApiKeyRecordV, now: u64, n: nat)
    requires
        !k.revoked,
        k.usage_limit is None,
        k.usage_count + n <= u64::MAX,
    ensures
        used_times(k, now, n).usage_count == k.usage_count + n,
        forall|j: nat| j < n ==> use_allowed(used_times(k, now, j)),
{
    lemma_repeated_use_counts(k, now, n);
    assert forall|j: nat| j < n implies use_allowed(used_times(k, now, j)) by {
        lemma_repeated_use_counts(k, now, j);
    }
}

/// With `usage_limit == limit` and a fresh count, the first `limit` uses are
/// allowed, the count then stands exactly at the limit, and the next use is
/// rejected — the count is never pushed past the limit.
pub proof fn lemma_limit_exhaustion(k: ApiKeyRecordV, now: u64, limit: u64)
    requires
        !k.revoked,
        k.usage_limit == Some(limit),
        k.usage_count == 0,
    ensures
        forall|j: nat| j < limit ==> use_allowed(used_times(k, now, j)),
        used_times(k, now, limit as nat).usage_count == limit,
        !use_allowed(used_times(k, now, limit as nat)),
{
    lemma_repeated_use_counts(k, now, limit as nat);
    assert forall|j: nat| j < limit implies use_allowed(used_times(k, now, j)) by {
        lemma_repeated_use_counts(k, now, j);
    }
}

/// Settling a payment whose issued key id is fresh appends exactly one new
/// API-key record: the upsert cannot replace anything.
pub proof fn lemma_upsert_fresh_key_appends(ks: Seq<ApiKeyRecordV>, r: ApiKeyRecordV)
    requires
        key_index(ks, r.id) == -1,
    ensures
        upsert_keys(ks, r) == ks.push(r),
        upsert_keys(ks, r).len() == ks.len() + 1,
        upsert_keys(ks, r)[ks.len() as int] == r,
{
}

} // verus!
