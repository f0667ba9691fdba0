//! Stripe webhook signatures: the `Stripe-Signature` header is a list of
//! `key=value` pairs; the event is accepted when its timestamp is within
//! five minutes of now and one of its `v1` signatures is the lowercase hex
//! HMAC-SHA256 of `"<t>.<body>"` under the webhook secret.

use vstd::prelude::*;
use vstd::utf8::encode_utf8;
use crate::text::{
    chars_of, chars_start_with, has_prefix, lemma_split_two, skip_chars, split_chars, split_spec,
    string_from_chars, trim_chars, trim_end_spec, trim_spec, trim_start_spec, views,
};
use crate::codec::{
    all_digits, constant_time_eq, hex_encode, hex_lower_spec, hmac_sha256, hmac_sha256_spec, is_digit,
    lemma_hex_chars, parse_i64, parse_i64_spec,
};

verus! {

/// Stripe's replay tolerance: a signed event is refused when its `t=`
/// timestamp is more than this many seconds away from the server clock.
pub const STRIPE_TIMESTAMP_TOLERANCE_SECS: i64 = 300;

/// The prefix of the timestamp pair.
pub open spec fn t_key() -> Seq<char> {
    seq!['t', '=']
}

/// The prefix of a signature pair.
pub open spec fn v1_key() -> Seq<char> {
    seq!['v', '1', '=']
}

/// What the header pieces carry, read left to right: the value of the last
/// `t=` piece, and the values of the `v1=` pieces in order. Each piece is
/// trimmed first; other pieces are ignored.
pub open spec fn header_fields(parts: Seq<Seq<char>>) -> (Option<Seq<char>>, Seq<Seq<char>>)
    decreases parts.len(),
{
    if parts.len() == 0 {
        (None, Seq::empty())
    } else {
        let prev = header_fields(parts.drop_last());
        let p = trim_spec(parts.last());
        if has_prefix(p, t_key()) {
            (Some(p.skip(2)), prev.1)
        } else if has_prefix(p, v1_key()) {
            (prev.0, prev.1.push(p.skip(3)))
        } else {
            prev
        }
    }
}

/// The timestamp and signatures of a `Stripe-Signature` header.
pub open spec fn stripe_header(header: Seq<char>) -> (Option<Seq<char>>, Seq<Seq<char>>) {
    header_fields(split_spec(header, ','))
}

/// The bytes that Stripe signs: the timestamp as written, a dot, the body.
pub open spec fn signed_payload(t: Seq<char>, payload: Seq<u8>) -> Seq<u8> {
    encode_utf8(t) + seq![46u8] + payload
}

/// The signature expected for timestamp `t` and `payload`: lowercase hex of
/// the HMAC-SHA256 tag under the secret's bytes.
pub open spec fn expected_signature(secret: Seq<char>, t: Seq<char>, payload: Seq<u8>) -> Seq<char> {
    hex_lower_spec(hmac_sha256_spec(encode_utf8(secret), signed_payload(t, payload)))
}

/// `|a - b|` over the integers.
pub open spec fn abs_diff(a: int, b: int) -> int {
    if a >= b {
        a - b
    } else {
        b - a
    }
}

/// When a webhook is accepted: the header has a `t=` pair holding an `i64`
/// within the tolerance of `now`, at least one `v1=` pair, and one of those
/// signatures has the same bytes as the expected one.
pub open spec fn stripe_signature_valid(
    secret: Seq<char>,
    payload: Seq<u8>,
    header: Seq<char>,
    now: int,
) -> bool {
    let fields = stripe_header(header);
    let t = fields.0;
    let sigs = fields.1;
    &&& t is Some
    &&& sigs.len() > 0
    &&& parse_i64_spec(t->0) is Some
    &&& abs_diff(now, parse_i64_spec(t->0)->0) <= STRIPE_TIMESTAMP_TOLERANCE_SECS
    &&& exists|i: int|
        0 <= i < sigs.len() && #[trigger] encode_utf8(sigs[i]) == encode_utf8(
            expected_signature(secret, t->0, payload),
        )
}

/// The header Stripe sends for one signature: `t=<ts>,v1=<signature>`.
pub open spec fn signed_header(ts: Seq<char>, signature: Seq<char>) -> Seq<char> {
    t_key() + ts + seq![','] + v1_key() + signature
}

/// A header carrying a decimal timestamp and, as its one signature, the
/// signature expected for that timestamp and body under the secret is
/// accepted exactly when the timestamp is within the tolerance of now: the
/// right key always verifies, and a replay outside the window never does.
pub proof fn law_signed_header_accepted(secret: Seq<char>, payload: Seq<u8>, ts: Seq<char>, now: int)
    requires
        ts.len() > 0,
        all_digits(ts),
        parse_i64_spec(ts) is Some,
    ensures
        stripe_signature_valid(secret, payload, signed_header(ts, expected_signature(secret, ts, payload)), now)
            <==> abs_diff(now, parse_i64_spec(ts)->0) <= STRIPE_TIMESTAMP_TOLERANCE_SECS,
{
    let sig = expected_signature(secret, ts, payload);
    lemma_hex_chars(hmac_sha256_spec(encode_utf8(secret), signed_payload(ts, payload)));
    let a = t_key() + ts;
    let b = v1_key() + sig;
    assert forall|i: int| 0 <= i < a.len() implies a[i] != ',' by {
        if i >= 2 {
            assert(a[i] == ts[i - 2]);
            assert(is_digit(ts[i - 2]));
        }
    }
    assert forall|i: int| 0 <= i < b.len() implies b[i] != ',' by {
        if i >= 3 {
            assert(b[i] == sig[i - 3]);
        }
    }
    lemma_split_two(a, b, ',');
    let header = signed_header(ts, sig);
    assert(header =~= a + seq![','] + b);
    let parts = split_spec(header, ',');
    assert(parts == seq![a, b]);
    // Neither piece has white space at its ends.
    assert(trim_start_spec(a) == a);
    assert(is_digit(ts.last()));
    assert(a.last() == ts.last());
    assert(trim_end_spec(a) == a);
    assert(trim_start_spec(b) == b);
    if sig.len() > 0 {
        assert(b.last() == sig[sig.len() - 1]);
    } else {
        assert(b.last() == '=');
    }
    assert(trim_end_spec(b) == b);
    assert(has_prefix(a, t_key())) by {
        assert(a.take(2) =~= t_key());
    }
    assert(a.skip(2) =~= ts);
    assert(!has_prefix(b, t_key())) by {
        assert(b.take(2)[0] == 'v');
    }
    assert(has_prefix(b, v1_key())) by {
        assert(b.take(3) =~= v1_key());
    }
    assert(b.skip(3) =~= sig);
    assert(parts.drop_last() =~= seq![a]);
    assert(seq![a].drop_last() =~= Seq::<Seq<char>>::empty());
    assert(trim_spec(a) == a);
    assert(trim_spec(b) == b);
    assert(header_fields(Seq::<Seq<char>>::empty()) == (None::<Seq<char>>, Seq::<Seq<char>>::empty()));
    assert(seq![a].last() == a);
    assert(parts.last() == b);
    let first = header_fields(seq![a]);
    assert(first == (Some(ts), Seq::<Seq<char>>::empty()));
    let fields = header_fields(parts);
    assert(fields.1 =~= seq![sig]);
    assert(fields.0 == Some(ts));
    assert(stripe_header(header) == fields);
    if abs_diff(now, parse_i64_spec(ts)->0) <= STRIPE_TIMESTAMP_TOLERANCE_SECS {
        assert(encode_utf8(fields.1[0]) == encode_utf8(sig));
    }
}

/// The value of an optional character vector.
pub open spec fn opt_view(o: Option<Vec<char>>) -> Option<Seq<char>> {
    match o {
        Some(v) => Some(v@),
        None => None,
    }
}

/// Read the timestamp and the signatures out of the header.
fn parse_signature_header(sig_header: &str) -> (r: (Option<Vec<char>>, Vec<Vec<char>>))
    ensures
        opt_view(r.0) == stripe_header(sig_header@).0,
        views(r.1@) == stripe_header(sig_header@).1,
{
    let hv = chars_of(sig_header);
    let parts = split_chars(hv.as_slice(), ',');
    let ghost pv = views(parts@);
    let t_key_v: Vec<char> = vec!['t', '='];
    let v1_key_v: Vec<char> = vec!['v', '1', '='];
    assert(t_key_v@ =~= t_key());
    assert(v1_key_v@ =~= v1_key());
    let mut timestamp: Option<Vec<char>> = None;
    let mut signatures: Vec<Vec<char>> = Vec::new();
    let mut i: usize = 0;
    assert(pv.take(0) =~= Seq::<Seq<char>>::empty());
    while i < parts.len()
        invariant
            i <= parts@.len(),
            pv == views(parts@),
            pv == split_spec(hv@, ','),
            t_key_v@ == t_key(),
            v1_key_v@ == v1_key(),
            opt_view(timestamp) == header_fields(pv.take(i as int)).0,
            views(signatures@) == header_fields(pv.take(i as int)).1,
        decreases parts@.len() - i,
    {
        let ghost pre = pv.take(i as int);
        proof {
            assert(pv.take(i + 1).drop_last() =~= pre);
            assert(pv.take(i + 1).last() == parts@[i as int]@);
        }
        let p = trim_chars(parts[i].as_slice());
        if chars_start_with(p.as_slice(), t_key_v.as_slice()) {
            let v = skip_chars(p.as_slice(), 2);
            timestamp = Some(v);
        } else if chars_start_with(p.as_slice(), v1_key_v.as_slice()) {
            let v = skip_chars(p.as_slice(), 3);
            proof {
                assert(views(signatures@.push(v)) =~= views(signatures@).push(v@));
            }
            signatures.push(v);
        }
        i = i + 1;
    }
    proof {
        assert(pv.take(parts@.len() as int) =~= pv);
    }
    (timestamp, signatures)
}

/// `time::OffsetDateTime::now_utc().unix_timestamp()`: the current time in
/// seconds since the Unix epoch. It depends on the clock, so nothing is
/// stated of it.
#[verifier::external_body]
fn now_unix() -> i64 {
    time::OffsetDateTime::now_utc().unix_timestamp()
}

/// Check a Stripe webhook signature against the current time: the answer
/// is that of `verify_stripe_signature_at` at the clock's reading, so it is
/// `Ok` exactly when the header is valid at that one `i64` second. Which
/// second the clock gives is not known here, so a header that is invalid at
/// every time (no `t=` pair, no `v1=` pair, no matching signature) is
/// always refused, and a valid one is accepted only within the tolerance of
/// the reading.
pub fn verify_stripe_signature(secret: &str, payload: &[u8], sig_header: &str) -> (r: Result<(), ()>)
    ensures
        exists|now: int|
            i64::MIN <= now <= i64::MAX && ((r is Ok) <==> #[trigger] stripe_signature_valid(
                secret@,
                payload@,
                sig_header@,
                now,
            )),
{
    let now = now_unix();
    let r = verify_stripe_signature_at(secret, payload, sig_header, now);
    assert((r is Ok) <==> stripe_signature_valid(secret@, payload@, sig_header@, now as int));
    r
}

/// Check a Stripe webhook signature, with the current time given.
#[verifier::loop_isolation(false)]
pub fn verify_stripe_signature_at(secret: &str, payload: &[u8], sig_header: &str, now_unix: i64) -> (r:
    Result<(), ()>)
    ensures
        r is Ok <==> stripe_signature_valid(secret@, payload@, sig_header@, now_unix as int),
{
    let (timestamp, signatures) = parse_signature_header(sig_header);
    let t = match timestamp {
        Some(t) => t,
        None => return Err(()),
    };
    if signatures.len() == 0 {
        return Err(());
    }
    let t_secs = match parse_i64(t.as_slice()) {
        Some(v) => v,
        None => return Err(()),
    };
    let diff: i128 = now_unix as i128 - t_secs as i128;
    if diff > STRIPE_TIMESTAMP_TOLERANCE_SECS as i128 || diff < -(STRIPE_TIMESTAMP_TOLERANCE_SECS as i128) {
        return Err(());
    }
    let t_str = string_from_chars(t.as_slice());
    let mut signed: Vec<u8> = vstd::slice::slice_to_vec(t_str.as_str().as_bytes());
    signed.push(46u8);
    signed.extend_from_slice(payload);
    proof {
        assert(signed@ =~= signed_payload(t@, payload@));
    }
    let tag = hmac_sha256(secret.as_bytes(), signed.as_slice());
    let expected_hex = hex_encode(tag.as_slice());
    let expected = expected_hex.as_str().as_bytes();
    let ghost want = expected_signature(secret@, t@, payload@);
    assert(expected@ == encode_utf8(want));
    let mut k: usize = 0;
    while k < signatures.len()
        invariant
            k <= signatures@.len(),
            expected@ == encode_utf8(want),
            forall|j: int| 0 <= j < k ==> encode_utf8(#[trigger] signatures@[j]@) != encode_utf8(want),
        decreases signatures@.len() - k,
    {
        let sig = string_from_chars(signatures[k].as_slice());
        if constant_time_eq(sig.as_str().as_bytes(), expected) {
            proof {
                let sigs = views(signatures@);
                assert(sigs[k as int] == signatures@[k as int]@);
                assert(encode_utf8(sigs[k as int]) == encode_utf8(want));
                assert(abs_diff(now_unix as int, t_secs as int) <= STRIPE_TIMESTAMP_TOLERANCE_SECS);
            }
            return Ok(());
        }
        k = k + 1;
    }
    proof {
        let sigs = views(signatures@);
        assert forall|j: int| 0 <= j < sigs.len() implies #[trigger] encode_utf8(sigs[j]) != encode_utf8(want) by {
            assert(sigs[j] == signatures@[j]@);
        }
    }
    Err(())
}

} // verus!
