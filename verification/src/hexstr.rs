use crate::strutil::push_char;
use vstd::prelude::*;

verus! {

/// The hex digit (one nibble) for `n`, lowercase or uppercase.
pub open spec fn nibble(n: u8, upper: bool) -> char
    recommends
        n < 16,
{
    if n < 10 {
        ((n + 48) as u8) as char
    } else if upper {
        ((n + 55) as u8) as char
    } else {
        ((n + 87) as u8) as char
    }
}

/// Hex encoding of a byte sequence, two digits per byte.
pub open spec fn hex_chars(bs: Seq<u8>, upper: bool) -> Seq<char>
    decreases bs.len(),
{
    if bs.len() == 0 {
        Seq::empty()
    } else {
        seq![nibble(bs[0] / 16, upper), nibble(bs[0] % 16, upper)] + hex_chars(
            bs.drop_first(),
            upper,
        )
    }
}

/// True of the characters hex encodings are made of.
pub open spec fn is_hex_digit(c: char) -> bool {
    (48 <= c as u32 <= 57) || (97 <= c as u32 <= 102) || (65 <= c as u32 <= 70)
}

/// The value of a hex digit, in either case; `None` for any other character.
pub open spec fn hex_val(c: char) -> Option<u8> {
    let u = c as u32;
    if 48 <= u <= 57 {
        Some((u - 48) as u8)
    } else if 97 <= u <= 102 {
        Some((u - 87) as u8)
    } else if 65 <= u <= 70 {
        Some((u - 55) as u8)
    } else {
        None
    }
}

/// The bytes a hex string denotes: `None` when the length is odd or any
/// character is not a hex digit.
pub open spec fn from_hex_spec(s: Seq<char>) -> Option<Seq<u8>>
    decreases s.len(),
{
    if s.len() % 2 != 0 {
        None
    } else if s.len() == 0 {
        Some(Seq::empty())
    } else {
        match (hex_val(s[0]), hex_val(s[1])) {
            (Some(hi), Some(lo)) => match from_hex_spec(s.skip(2)) {
                Some(rest) => Some(seq![(hi * 16 + lo) as u8] + rest),
                None => None,
            },
            _ => None,
        }
    }
}

pub proof fn lemma_hex_chars_len(bs: Seq<u8>, upper: bool)
    ensures
        hex_chars(bs, upper).len() == 2 * bs.len(),
    decreases bs.len(),
{
    if bs.len() > 0 {
        lemma_hex_chars_len(bs.drop_first(), upper);
    }
}

/// Appending a byte appends its two digits.
pub proof fn lemma_hex_chars_push(bs: Seq<u8>, b: u8, upper: bool)
    ensures
        hex_chars(bs.push(b), upper) == hex_chars(bs, upper) + seq![
            nibble(b / 16, upper),
            nibble(b % 16, upper),
        ],
    decreases bs.len(),
{
    if bs.len() == 0 {
        assert(bs.push(b)[0] == b);
        assert(bs.push(b).drop_first() =~= Seq::<u8>::empty());
        assert(hex_chars(Seq::<u8>::empty(), upper) =~= Seq::<char>::empty());
        assert(hex_chars(bs.push(b), upper) =~= hex_chars(bs, upper) + seq![
            nibble(b / 16, upper),
            nibble(b % 16, upper),
        ]);
    } else {
        assert(bs.push(b)[0] == bs[0]);
        assert(bs.push(b).drop_first() =~= bs.drop_first().push(b));
        lemma_hex_chars_push(bs.drop_first(), b, upper);
        assert(hex_chars(bs.push(b), upper) =~= hex_chars(bs, upper) + seq![
            nibble(b / 16, upper),
            nibble(b % 16, upper),
        ]);
    }
}

/// Every character of a hex encoding is a hex digit.
pub proof fn lemma_hex_chars_digits(bs: Seq<u8>, upper: bool)
    ensures
        forall|i: int|
            0 <= i < hex_chars(bs, upper).len() ==> is_hex_digit(
                #[trigger] hex_chars(bs, upper)[i],
            ),
    decreases bs.len(),
{
    if bs.len() > 0 {
        lemma_hex_chars_digits(bs.drop_first(), upper);
        let s = hex_chars(bs, upper);
        let rest = hex_chars(bs.drop_first(), upper);
        assert(s == seq![nibble(bs[0] / 16, upper), nibble(bs[0] % 16, upper)] + rest);
        assert forall|i: int| 0 <= i < s.len() implies is_hex_digit(#[trigger] s[i]) by {
            if i == 0 {
                assert(s[i] == nibble(bs[0] / 16, upper));
                assert(is_hex_digit(nibble(bs[0] / 16, upper)));
            } else if i == 1 {
                assert(s[i] == nibble(bs[0] % 16, upper));
                assert(is_hex_digit(nibble(bs[0] % 16, upper)));
            } else {
                assert(s[i] == rest[i - 2]);
            }
        }
    }
}

proof fn lemma_hex_val_nibble(n: u8, upper: bool)
    requires
        n < 16,
    ensures
        hex_val(nibble(n, upper)) == Some(n),
{
}

/// Decoding a hex encoding gives the bytes back.
pub proof fn lemma_from_hex_of_hex_chars(bs: Seq<u8>, upper: bool)
    ensures
        from_hex_spec(hex_chars(bs, upper)) == Some(bs),
    decreases bs.len(),
{
    lemma_hex_chars_len(bs, upper);
    if bs.len() == 0 {
        assert(hex_chars(bs, upper).len() == 0);
        assert(from_hex_spec(hex_chars(bs, upper)) == Some(Seq::<u8>::empty()));
        assert(bs =~= Seq::<u8>::empty());
    } else {
        let s = hex_chars(bs, upper);
        lemma_hex_chars_len(bs.drop_first(), upper);
        assert(s[0] == nibble(bs[0] / 16, upper));
        assert(s[1] == nibble(bs[0] % 16, upper));
        lemma_hex_val_nibble(bs[0] / 16, upper);
        lemma_hex_val_nibble(bs[0] % 16, upper);
        assert(s.skip(2) =~= hex_chars(bs.drop_first(), upper));
        lemma_from_hex_of_hex_chars(bs.drop_first(), upper);
        assert((bs[0] / 16) * 16 + (bs[0] % 16) == bs[0]) by (nonlinear_arith);
        assert(seq![bs[0]] + bs.drop_first() =~= bs);
    }
}

/// The hex digit character for a nibble, as executable code.
fn nibble_char(n: u8, upper: bool) -> (r: char)
    requires
        n < 16,
    ensures
        r == nibble(n, upper),
{
    if n < 10 {
        (n + 48) as char
    } else if upper {
        (n + 55) as char
    } else {
        (n + 87) as char
    }
}

/// Hex-encodes `bytes`, two digits per byte, lowercase when `upper` is false.
pub fn to_hex(bytes: &[u8], upper: bool) -> (r: String)
    ensures
        r@ == hex_chars(bytes@, upper),
{
    let n: usize = bytes.len();
    let mut out = String::new();
    let mut i: usize = 0;
    while i < n
        invariant
            n == bytes@.len(),
            0 <= i <= n,
            out@ == hex_chars(bytes@.take(i as int), upper),
        decreases n - i,
    {
        let b = bytes[i];
        push_char(&mut out, nibble_char(b / 16, upper));
        push_char(&mut out, nibble_char(b % 16, upper));
        proof {
            assert(bytes@.take(i + 1) =~= bytes@.take(i as int).push(bytes@[i as int]));
            lemma_hex_chars_push(bytes@.take(i as int), bytes@[i as int], upper);
        }
        i = i + 1;
    }
    proof {
        assert(bytes@.take(n as int) =~= bytes@);
    }
    out
}

/// The value of a hex digit, as executable code.
fn hex_digit(c: char) -> (r: Option<u8>)
    ensures
        r == hex_val(c),
{
    let u = c as u32;
    if 48 <= u && u <= 57 {
        Some((u - 48) as u8)
    } else if 97 <= u && u <= 102 {
        Some((u - 87) as u8)
    } else if 65 <= u && u <= 70 {
        Some((u - 55) as u8)
    } else {
        None
    }
}

/// Decodes a hex string into its bytes; `None` when the length is odd or a
/// character is not a hex digit.
pub fn from_hex(s: &str) -> (r: Option<Vec<u8>>)
    ensures
        match r {
            Some(v) => from_hex_spec(s@) == Some(v@),
            None => from_hex_spec(s@) is None,
        },
{
    let n: usize = s.unicode_len();
    if n % 2 != 0 {
        return None;
    }
    let mut out: Vec<u8> = Vec::new();
    let mut i: usize = 0;
    proof {
        assert(s@.skip(0) =~= s@);
    }
    while i < n
        invariant
            n == s@.len(),
            n % 2 == 0,
            i % 2 == 0,
            0 <= i <= n,
            from_hex_spec(s@) == match from_hex_spec(s@.skip(i as int)) {
                Some(rest) => Some(out@ + rest),
                None => None::<Seq<u8>>,
            },
        decreases n - i,
    {
        let c1 = s.get_char(i);
        let c2 = s.get_char(i + 1);
        let ghost tail = s@.skip(i as int);
        proof {
            assert(tail.len() == n - i);
            assert(tail.len() % 2 == 0);
            assert(tail[0] == s@[i as int]);
            assert(tail[1] == s@[i as int + 1]);
            assert(tail.skip(2) =~= s@.skip(i as int + 2));
        }
        let d1 = hex_digit(c1);
        let d2 = hex_digit(c2);
        match (d1, d2) {
            (Some(hi), Some(lo)) => {
                let ghost out0 = out@;
                let b: u8 = hi * 16 + lo;
                out.push(b);
                proof {
                    if from_hex_spec(s@.skip(i as int + 2)) is Some {
                        let rest2 = from_hex_spec(s@.skip(i as int + 2)).unwrap();
                        assert(out0.push(b) + rest2 =~= out0 + (seq![b] + rest2));
                    }
                }
            },
            _ => {
                return None;
            },
        }
        i = i + 2;
    }
    proof {
        assert(s@.skip(n as int) =~= Seq::<char>::empty());
        assert(from_hex_spec(s@.skip(n as int)) == Some(Seq::<u8>::empty()));
        assert(out@ + Seq::<u8>::empty() =~= out@);
    }
    Some(out)
}

} // verus!
