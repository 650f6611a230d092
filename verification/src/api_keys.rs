use crate::clock::now_epoch_seconds;
use crate::error::BillingError;
use crate::hexstr::{from_hex, from_hex_spec, hex_chars, to_hex};
use crate::models::{ApiKeyRecord, ApiKeyRecordV, ApiTier, IssuedApiKey};
use crate::rng::random_bytes;
use crate::strutil::push_char;
use sha2::Digest;
use vstd::prelude::*;
use vstd::string::StrSliceExecFns;
use vstd::string::StringExecFns;
use vstd::utf8::encode_utf8;

verus! {

/// The number of random bytes behind a plaintext key.
pub const API_KEY_BYTES: usize = 32;

/// The number of random salt bytes in a stored hash.
pub const SALT_BYTES: usize = 16;

/// The SHA-256 digest of a byte sequence. The digest is a pure function of
/// the bytes; its definition is carried by the `sha256` wrapper below.
pub uninterp spec fn sha256_of(data: Seq<u8>) -> Seq<u8>;

/// Relies on `sha2::Sha256` through `Digest::new`, `Digest::update` and
/// `Digest::finalize`: the SHA-256 digest of `data`, a pure function of the
/// input bytes, 32 bytes long.
#[verifier::external_body]
fn sha256(data: &[u8]) -> (r: Vec<u8>)
    ensures
        r@ == sha256_of(data@),
        r@.len() == 32,
{
    let mut hasher = sha2::Sha256::new();
    hasher.update(data);
    hasher.finalize().to_vec()
}

/// Compares two byte slices for equality in time independent of the position
/// of the first difference: the loop inspects every byte of equal-length
/// inputs and never branches on their contents.
pub fn constant_time_eq(a: &[u8], b: &[u8]) -> (r: bool)
    ensures
        r == (a@ == b@),
{
    let n: usize = a.len();
    if n != b.len() {
        proof {
            assert(a@ != b@);
        }
        return false;
    }
    let mut diff: u8 = 0;
    let mut i: usize = 0;
    while i < n
        invariant
            n == a@.len(),
            n == b@.len(),
            0 <= i <= n,
            (diff == 0) <==> (forall|j: int| 0 <= j < i ==> a@[j] == b@[j]),
        decreases n - i,
    {
        let x = a[i];
        let y = b[i];
        let ghost d0 = diff;
        diff = diff | (x ^ y);
        proof {
            assert(((d0 | (x ^ y)) == 0) <==> (d0 == 0 && x == y)) by (bit_vector);
        }
        i = i + 1;
    }
    if diff == 0 {
        proof {
            assert(a@ =~= b@);
        }
        true
    } else {
        proof {
            let j = choose|j: int| 0 <= j < n && a@[j] != b@[j];
            assert(a@[j] != b@[j]);
        }
        false
    }
}

/// First index of `:` in `s`, or -1 when `s` holds none.
pub open spec fn first_colon(s: Seq<char>) -> int
    decreases s.len(),
{
    if s.len() == 0 {
        -1
    } else if s[0] == ':' {
        0
    } else {
        let r = first_colon(s.drop_first());
        if r == -1 {
            -1
        } else {
            r + 1
        }
    }
}

/// `first_colon` finds the first `:`, or -1 when there is none.
pub proof fn lemma_first_colon_spec(s: Seq<char>)
    ensures
        first_colon(s) == -1 ==> forall|j: int| 0 <= j < s.len() ==> s[j] != ':',
        first_colon(s) != -1 ==> 0 <= first_colon(s) < s.len() && s[first_colon(s)] == ':' && (
        forall|j: int| 0 <= j < first_colon(s) ==> s[j] != ':'),
    decreases s.len(),
{
    if s.len() > 0 {
        let d = s.drop_first();
        lemma_first_colon_spec(d);
        assert(forall|j: int| 0 <= j < d.len() ==> #[trigger] d[j] == s[j + 1]);
        if s[0] != ':' {
            let r = first_colon(d);
            if r == -1 {
                assert(forall|j: int| 1 <= j < s.len() ==> s[j] == d[j - 1]);
            } else {
                assert(forall|j: int| 1 <= j < r + 1 ==> s[j] == d[j - 1]);
            }
        }
    }
}

/// `s` with every leading `$` removed.
pub open spec fn strip_dollars(s: Seq<char>) -> Seq<char>
    decreases s.len(),
{
    if s.len() > 0 && s[0] == '$' {
        strip_dollars(s.drop_first())
    } else {
        s
    }
}

/// The salt and digest a stored hash value denotes: the hex before the first
/// `:` and the hex after it (leading `$` stripped); `None` when the value
/// does not have that shape.
pub open spec fn split_hashed_spec(s: Seq<char>) -> Option<(Seq<u8>, Seq<u8>)> {
    let i = first_colon(s);
    if i == -1 {
        None
    } else {
        match (from_hex_spec(s.take(i)), from_hex_spec(strip_dollars(s.skip(i + 1)))) {
            (Some(salt), Some(digest)) => Some((salt, digest)),
            _ => None,
        }
    }
}

/// What `verify` decides: the record is not revoked, its stored hash parses,
/// and the digest equals SHA-256 of the salt followed by the candidate's
/// UTF-8 bytes. A malformed stored value never verifies.
pub open spec fn verify_spec(candidate: Seq<char>, rec: ApiKeyRecordV) -> bool {
    &&& !rec.revoked
    &&& match split_hashed_spec(rec.hashed_key) {
        Some(p) => sha256_of(p.0 + encode_utf8(candidate)) == p.1,
        None => false,
    }
}

/// The stored-hash encoding for a salt and plaintext key:
/// `hex(salt) ":" "$" hex(SHA-256(salt || key))`, hex lowercase.
pub open spec fn hashed_value_spec(salt: Seq<u8>, key: Seq<char>) -> Seq<char> {
    hex_chars(salt, false) + seq![':', '$'] + hex_chars(
        sha256_of(salt + encode_utf8(key)),
        false,
    )
}

/// The textual form of a key: the prefix, a hyphen, then the uppercase hex
/// of the raw bytes in hyphen-separated groups of eight characters.
pub open spec fn key_string_spec(prefix: Seq<char>, raw: Seq<u8>) -> Seq<char> {
    prefix + seq!['-'] + group8(hex_chars(raw, true))
}

/// Groups of eight characters joined by hyphens.
pub open spec fn group8(s: Seq<char>) -> Seq<char>
    decreases s.len(),
{
    if s.len() <= 8 {
        s
    } else {
        s.take(8) + seq!['-'] + group8(s.skip(8))
    }
}

/// The record state after one successful use at time `now`: the usage count
/// grows by one (saturating) and the last-used stamp is set.
pub open spec fn used_once(rec: ApiKeyRecordV, now: u64) -> ApiKeyRecordV {
    ApiKeyRecordV {
        usage_count: if rec.usage_count == u64::MAX {
            u64::MAX
        } else {
            (rec.usage_count + 1) as u64
        },
        last_used_at: Some(now),
        ..rec
    }
}

/// The shape every freshly issued key has: the plaintext has the key form
/// under `prefix`, the stored hash is the salted-hash encoding of that
/// plaintext, the id is `key_` plus twelve random bytes in hex, and the
/// record starts unrevoked with a zero usage count.
pub open spec fn issued_key_wf(k: IssuedApiKey, prefix: Seq<char>) -> bool {
    &&& exists|raw: Seq<u8>|
        raw.len() == API_KEY_BYTES && k.api_key@ == key_string_spec(prefix, raw)
    &&& exists|salt: Seq<u8>|
        salt.len() == SALT_BYTES && k.record@.hashed_key == hashed_value_spec(salt, k.api_key@)
    &&& exists|idb: Seq<u8>| idb.len() == 12 && k.record@.id == "key_"@ + hex_chars(idb, false)
    &&& k.record@.revoked == false
    &&& k.record@.usage_count == 0
    &&& k.record@.last_used_at is None
}

/// Generates, hashes and verifies API-key credentials; stateless except for
/// the configured key prefix.
pub struct ApiKeyManager {
    prefix: String,
}

impl ApiKeyManager {
    /// The configured key prefix.
    pub closed spec fn prefix_spec(&self) -> Seq<char> {
        self.prefix@
    }

    /// A manager whose keys carry the given prefix.
    pub fn with_prefix(prefix: String) -> (r: ApiKeyManager)
        ensures
            r.prefix_spec() == prefix@,
    {
        ApiKeyManager { prefix }
    }

    /// Draws fresh random material and issues a new key: the plaintext is
    /// returned exactly once, the record stores only the salted hash.
    pub fn issue_key(
        &self,
        user_id: &str,
        payment_id: &str,
        tier: ApiTier,
        usage_limit: Option<u64>,
    ) -> (r: Result<IssuedApiKey, BillingError>)
        ensures
            r is Ok,
            ({
                let k = r->Ok_0;
                &&& issued_key_wf(k, self.prefix_spec())
                &&& k.record@.user_id == user_id@
                &&& k.record@.payment_id == payment_id@
                &&& k.record@.tier == tier
                &&& k.record@.usage_limit == usage_limit
            }),
    {
        let raw = random_bytes(API_KEY_BYTES);
        let api_key = self.build_key_string(raw.as_slice());
        let salt = random_bytes(SALT_BYTES);
        let hashed = Self::hash_with_salt(api_key.as_str(), salt.as_slice());
        let record_id = Self::random_identifier();
        let now = now_epoch_seconds();

        let record = ApiKeyRecord {
            id: record_id,
            hashed_key: hashed,
            user_id: user_id.to_owned(),
            payment_id: payment_id.to_owned(),
            tier,
            created_at: now,
            revoked: false,
            usage_limit,
            usage_count: 0,
            last_used_at: None,
        };

        Ok(IssuedApiKey { api_key, record })
    }

    /// Decides whether `candidate` is the key behind `record`: a revoked
    /// record always fails; otherwise the stored value is split on the first
    /// `:`, both halves are hex-decoded, and the recomputed digest is
    /// compared in constant time. Malformed stored values fail quietly.
    pub fn verify(&self, candidate: &str, record: &ApiKeyRecord) -> (r: bool)
        ensures
            r == verify_spec(candidate@, record@),
            record.revoked ==> r == false,
    {
        if record.revoked {
            return false;
        }
        let hashed: &str = record.hashed_key.as_str();
        let n: usize = hashed.unicode_len();
        proof {
            lemma_first_colon_spec(hashed@);
        }
        let mut i: usize = 0;
        let mut colon: Option<usize> = None;
        while i < n && colon.is_none()
            invariant
                n == hashed@.len(),
                0 <= i <= n,
                match colon {
                    Some(c) => c < n && hashed@[c as int] == ':' && i == c + 1 && (forall|j: int|
                        0 <= j < c ==> hashed@[j] != ':'),
                    None => forall|j: int| 0 <= j < i ==> hashed@[j] != ':',
                },
            decreases n - i,
        {
            if hashed.get_char(i) == ':' {
                colon = Some(i);
            }
            i = i + 1;
        }
        let c = match colon {
            Some(c) => c,
            None => {
                proof {
                    assert(first_colon(hashed@) == -1) by {
                        if first_colon(hashed@) != -1 {
                            assert(hashed@[first_colon(hashed@)] == ':');
                        }
                    }
                }
                return false;
            },
        };
        proof {
            assert(first_colon(hashed@) == c) by {
                if first_colon(hashed@) == -1 {
                    assert(hashed@[c as int] != ':');
                } else {
                    let f = first_colon(hashed@);
                    if f < c {
                        assert(hashed@[f] != ':');
                    } else if f > c {
                        assert(hashed@[c as int] != ':');
                    }
                }
            }
        }
        let salt_hex = hashed.substring_char(0, c);
        let rest = hashed.substring_char(c + 1, n);
        proof {
            assert(salt_hex@ =~= hashed@.take(c as int));
            assert(rest@ =~= hashed@.skip(c as int + 1));
        }
        let rn: usize = rest.unicode_len();
        let mut j: usize = 0;
        proof {
            assert(rest@.skip(0) =~= rest@);
        }
        while j < rn && rest.get_char(j) == '$'
            invariant
                rn == rest@.len(),
                0 <= j <= rn,
                strip_dollars(rest@) == strip_dollars(rest@.skip(j as int)),
            decreases rn - j,
        {
            proof {
                let t = rest@.skip(j as int);
                assert(t[0] == rest@[j as int]);
                assert(t.drop_first() =~= rest@.skip(j as int + 1));
            }
            j = j + 1;
        }
        proof {
            let t = rest@.skip(j as int);
            if j < rn {
                assert(t[0] == rest@[j as int]);
            }
            assert(strip_dollars(t) == t);
        }
        let digest_hex = rest.substring_char(j, rn);
        proof {
            assert(digest_hex@ =~= rest@.skip(j as int));
        }
        let salt = match from_hex(salt_hex) {
            Some(v) => v,
            None => {
                return false;
            },
        };
        let expected = match from_hex(digest_hex) {
            Some(v) => v,
            None => {
                return false;
            },
        };
        let recomputed = Self::hash_digest(candidate, salt.as_slice());
        constant_time_eq(recomputed.as_slice(), expected.as_slice())
    }

    /// Increments the record's usage count by one (saturating) and stamps the
    /// time of use, read from the system clock.
    pub fn mark_use(record: &mut ApiKeyRecord)
        ensures
            exists|t: u64| final (record)@ == used_once(old(record)@, t),
    {
        let now = now_epoch_seconds();
        Self::mark_use_at(record, now);
    }

    /// Increments the record's usage count by one (saturating) and stamps the
    /// given time of use.
    pub fn mark_use_at(record: &mut ApiKeyRecord, now: u64)
        ensures
            final (record)@ == used_once(old(record)@, now),
    {
        if record.usage_count < u64::MAX {
            record.usage_count = record.usage_count + 1;
        }
        record.last_used_at = Some(now);
    }

    /// The textual key for raw bytes: uppercase hex in hyphen-joined groups
    /// of eight characters behind the prefix.
    fn build_key_string(&self, raw: &[u8]) -> (r: String)
        ensures
            r@ == key_string_spec(self.prefix_spec(), raw@),
    {
        let hex = to_hex(raw, true);
        let mut out = String::new();
        out.append(self.prefix.as_str());
        push_char(&mut out, '-');
        let mut rest: &str = hex.as_str();
        proof {
            assert(out@ =~= self.prefix@ + seq!['-']);
        }
        while rest.unicode_len() > 8
            invariant
                self.prefix@ + seq!['-'] + group8(hex@) == out@ + group8(rest@),
            decreases rest@.len(),
        {
            let m: usize = rest.unicode_len();
            let head = rest.substring_char(0, 8);
            out.append(head);
            push_char(&mut out, '-');
            let tail = rest.substring_char(8, m);
            proof {
                assert(head@ =~= rest@.take(8));
                assert(tail@ =~= rest@.skip(8));
                assert(group8(rest@) == rest@.take(8) + seq!['-'] + group8(rest@.skip(8)));
            }
            rest = tail;
        }
        let m: usize = rest.unicode_len();
        out.append(rest);
        proof {
            assert(group8(rest@) == rest@);
        }
        out
    }

    /// A fresh record id: `key_` followed by the lowercase hex of 12 random
    /// bytes.
    fn random_identifier() -> (r: String)
        ensures
            exists|idb: Seq<u8>| idb.len() == 12 && r@ == "key_"@ + hex_chars(idb, false),
    {
        let bytes = random_bytes(12);
        let hex = to_hex(bytes.as_slice(), false);
        let mut out = String::new();
        out.append("key_");
        out.append(hex.as_str());
        proof {
            assert(out@ =~= "key_"@ + hex_chars(bytes@, false));
        }
        out
    }

    /// The stored value for a key under a fresh salt: lowercase hex of the
    /// salt, `:`, `$`, then lowercase hex of SHA-256(salt || key).
    fn hash_with_salt(key: &str, salt: &[u8]) -> (r: String)
        ensures
            r@ == hashed_value_spec(salt@, key@),
    {
        let digest = Self::hash_digest(key, salt);
        let mut out = to_hex(salt, false);
        push_char(&mut out, ':');
        push_char(&mut out, '$');
        let digest_hex = to_hex(digest.as_slice(), false);
        out.append(digest_hex.as_str());
        proof {
            assert(out@ =~= hashed_value_spec(salt@, key@));
        }
        out
    }

    /// SHA-256 over the salt followed by the key's UTF-8 bytes.
    fn hash_digest(key: &str, salt: &[u8]) -> (r: Vec<u8>)
        ensures
            r@ == sha256_of(salt@ + encode_utf8(key@)),
            r@.len() == 32,
    {
        let mut buf: Vec<u8> = Vec::new();
        append_bytes(&mut buf, salt);
        let kb: &[u8] = key.as_bytes();
        append_bytes(&mut buf, kb);
        proof {
            assert(buf@ =~= salt@ + encode_utf8(key@));
        }
        sha256(buf.as_slice())
    }
}

impl Default for ApiKeyManager {
    /// The default manager uses the `QNT` prefix.
    fn default() -> (r: ApiKeyManager)
        ensures
            r.prefix_spec() == "QNT"@,
    {
        ApiKeyManager { prefix: String::from_str("QNT") }
    }
}

/// Appends every byte of `src` to `dst`.
fn append_bytes(dst: &mut Vec<u8>, src: &[u8])
    ensures
        final (dst)@ == old(dst)@ + src@,
{
    let n: usize = src.len();
    let mut i: usize = 0;
    while i < n
        invariant
            n == src@.len(),
            0 <= i <= n,
            dst@ == old(dst)@ + src@.take(i as int),
        decreases n - i,
    {
        dst.push(src[i]);
        proof {
            assert(old(dst)@ + src@.take(i + 1) =~= (old(dst)@ + src@.take(i as int)).push(
                src@[i as int],
            ));
        }
        i = i + 1;
    }
    proof {
        assert(old(dst)@ + src@.take(n as int) =~= old(dst)@ + src@);
    }
}

} // verus!
