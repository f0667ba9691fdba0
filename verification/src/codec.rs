//! Byte codecs and keyed hashes: lowercase hex, decimal integers, HMAC-SHA256
//! and SHA-256, and constant-time comparison.

use vstd::prelude::*;
use hmac::Mac;

verus! {

/// The lowercase hex digit for `n` (`0 <= n < 16`).
pub open spec fn hex_digit(n: int) -> char {
    seq!['0', '1', '2', '3', '4', '5', '6', '7', '8', '9', 'a', 'b', 'c', 'd', 'e', 'f'][n]
}

/// Lowercase hex encoding: two digits per byte, high nibble first.
pub open spec fn hex_lower_spec(b: Seq<u8>) -> Seq<char>
    decreases b.len(),
{
    if b.len() == 0 {
        Seq::empty()
    } else {
        hex_lower_spec(b.drop_last()) + seq![
            hex_digit(b.last() as int / 16),
            hex_digit(b.last() as int % 16),
        ]
    }
}

/// Every character of a lowercase hex encoding is a digit or `a` to `f`.
pub proof fn lemma_hex_chars(b: Seq<u8>)
    ensures
        forall|i: int| 0 <= i < hex_lower_spec(b).len() ==> {
            let c = #[trigger] hex_lower_spec(b)[i];
            ('0' <= c && c <= '9') || ('a' <= c && c <= 'f')
        },
    decreases b.len(),
{
    if b.len() > 0 {
        lemma_hex_chars(b.drop_last());
        let hi = b.last() as int / 16;
        let lo = b.last() as int % 16;
        lemma_hex_digit_char(hi);
        lemma_hex_digit_char(lo);
        let prev = hex_lower_spec(b.drop_last());
        let tail = seq![hex_digit(hi), hex_digit(lo)];
        assert(hex_lower_spec(b) == prev + tail);
        assert forall|i: int| 0 <= i < hex_lower_spec(b).len() implies {
            let c = #[trigger] hex_lower_spec(b)[i];
            ('0' <= c && c <= '9') || ('a' <= c && c <= 'f')
        } by {
            if i < prev.len() {
                assert(hex_lower_spec(b)[i] == prev[i]);
            } else {
                assert(hex_lower_spec(b)[i] == tail[i - prev.len()]);
            }
        }
    }
}

/// A hex digit is a decimal digit or `a` to `f`.
pub proof fn lemma_hex_digit_char(n: int)
    requires
        0 <= n < 16,
    ensures
        ('0' <= hex_digit(n) && hex_digit(n) <= '9') || ('a' <= hex_digit(n) && hex_digit(n) <= 'f'),
{
    let t = seq!['0', '1', '2', '3', '4', '5', '6', '7', '8', '9', 'a', 'b', 'c', 'd', 'e', 'f'];
    assert(hex_digit(n) == t[n]);
    if n < 8 {
        if n < 4 {
            if n == 0 {} else if n == 1 {} else if n == 2 {} else {}
        } else {
            if n == 4 {} else if n == 5 {} else if n == 6 {} else {}
        }
    } else {
        if n < 12 {
            if n == 8 {} else if n == 9 {} else if n == 10 {} else {}
        } else {
            if n == 12 {} else if n == 13 {} else if n == 14 {} else {}
        }
    }
}

/// `hex::encode`: lowercase hex of `data`.
#[verifier::external_body]
pub(crate) fn hex_encode(data: &[u8]) -> (s: String)
    ensures
        s@ == hex_lower_spec(data@),
{
    hex::encode(data)
}

/// The HMAC-SHA256 tag of `msg` under `key`.
pub uninterp spec fn hmac_sha256_spec(key: Seq<u8>, msg: Seq<u8>) -> Seq<u8>;

/// `Hmac::<Sha256>::new_from_slice(key)`, `update(msg)`, `finalize()`.
/// HMAC takes a key of any length, so the construction never fails; the tag
/// is the SHA-256 output size, 32 bytes.
#[verifier::external_body]
pub(crate) fn hmac_sha256(key: &[u8], msg: &[u8]) -> (tag: Vec<u8>)
    ensures
        tag@ == hmac_sha256_spec(key@, msg@),
        tag@.len() == 32,
{
    let mut mac = <hmac::Hmac<sha2::Sha256> as hmac::digest::KeyInit>::new_from_slice(key)
        .expect("HMAC accepts keys of any length");
    mac.update(msg);
    mac.finalize().into_bytes().to_vec()
}

/// The SHA-256 digest of `data`.
pub uninterp spec fn sha256_spec(data: Seq<u8>) -> Seq<u8>;

/// `Sha256::digest(data)`: the 32-byte SHA-256 digest.
#[verifier::external_body]
pub(crate) fn sha256(data: &[u8]) -> (d: Vec<u8>)
    ensures
        d@ == sha256_spec(data@),
        d@.len() == 32,
{
    <sha2::Sha256 as sha2::Digest>::digest(data).to_vec()
}

/// `subtle::ConstantTimeEq::ct_eq` on byte slices, read as a `bool`: true
/// exactly when the slices are equal (different lengths compare unequal).
#[verifier::external_body]
pub(crate) fn ct_eq(a: &[u8], b: &[u8]) -> (r: bool)
    ensures
        r == (a@ == b@),
{
    bool::from(subtle::ConstantTimeEq::ct_eq(a, b))
}

/// Byte comparison that does not stop at the first difference once the
/// lengths agree.
pub fn constant_time_eq(a: &[u8], b: &[u8]) -> (r: bool)
    ensures
        r == (a@ == b@),
{
    if a.len() != b.len() {
        return false;
    }
    ct_eq(a, b)
}

/// Whether `c` is an ASCII decimal digit.
pub open spec fn is_digit(c: char) -> bool {
    '0' <= c && c <= '9'
}

/// The value of a run of decimal digits.
pub open spec fn digits_value(d: Seq<char>) -> nat
    decreases d.len(),
{
    if d.len() == 0 {
        0
    } else {
        (digits_value(d.drop_last()) * 10 + (d.last() as nat - '0' as nat)) as nat
    }
}

/// Whether every character of `d` is a decimal digit.
pub open spec fn all_digits(d: Seq<char>) -> bool {
    forall|i: int| 0 <= i < d.len() ==> is_digit(#[trigger] d[i])
}

/// `s` without its leading sign character, if it has one.
pub open spec fn unsigned_part(s: Seq<char>) -> Seq<char> {
    if s.len() > 0 && (s[0] == '-' || s[0] == '+') {
        s.skip(1)
    } else {
        s
    }
}

/// `s` parsed as an `i64` the way `i64::from_str` does: an optional `+` or
/// `-`, then one or more ASCII digits, within the `i64` range.
pub open spec fn parse_i64_spec(s: Seq<char>) -> Option<int> {
    let digits = unsigned_part(s);
    if digits.len() == 0 || !all_digits(digits) {
        None
    } else {
        let v: int = if s[0] == '-' {
            -(digits_value(digits) as int)
        } else {
            digits_value(digits) as int
        };
        if i64::MIN <= v && v <= i64::MAX {
            Some(v)
        } else {
            None
        }
    }
}

/// Parse `s` as an `i64`, as `i64::from_str` does.
pub fn parse_i64(s: &[char]) -> (r: Option<i64>)
    ensures
        r matches Some(v) ==> parse_i64_spec(s@) == Some(v as int),
        r is None ==> parse_i64_spec(s@) is None,
{
    let n = s.len();
    let neg = n > 0 && s[0] == '-';
    let start: usize = if n > 0 && (s[0] == '-' || s[0] == '+') {
        1
    } else {
        0
    };
    let ghost digits = unsigned_part(s@);
    assert(digits =~= s@.skip(start as int));
    if start >= n {
        assert(digits.len() == 0);
        return None;
    }
    let limit: u128 = 9223372036854775808;
    let cap: u128 = 9223372036854775809;
    let mut acc: u128 = 0;
    let mut i: usize = start;
    while i < n
        invariant
            start <= i <= n == s@.len(),
            digits =~= s@.skip(start as int),
            digits == unsigned_part(s@),
            limit == 9223372036854775808,
            cap == limit + 1,
            forall|j: int| 0 <= j < i - start ==> is_digit(#[trigger] digits[j]),
            acc == (if digits_value(digits.take(i - start)) > limit {
                cap as int
            } else {
                digits_value(digits.take(i - start)) as int
            }),
        decreases n - i,
    {
        let c = s[i];
        if !('0' <= c && c <= '9') {
            assert(digits[i - start] == c);
            assert(!is_digit(digits[i - start]));
            assert(!all_digits(digits));
            return None;
        }
        let d = (c as u32 - '0' as u32) as u128;
        proof {
            let t = digits.take(i - start + 1);
            assert(t.drop_last() =~= digits.take(i - start));
            assert(t.last() == c);
        }
        if acc <= limit {
            acc = acc * 10 + d;
            if acc > limit {
                acc = cap;
            }
        }
        i = i + 1;
    }
    proof {
        assert(digits.take(n - start) =~= digits);
    }
    if acc > limit {
        return None;
    }
    if neg {
        if acc == limit {
            Some(i64::MIN)
        } else {
            Some(-(acc as i64))
        }
    } else {
        if acc == limit {
            None
        } else {
            Some(acc as i64)
        }
    }
}

} // verus!
