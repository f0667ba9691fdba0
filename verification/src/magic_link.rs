//! Passwordless e-mail login: the login key an address normalizes to, the
//! throttle keys, the single-use token and its stored hash, and the link
//! that is mailed.

use vstd::prelude::*;
use base64::Engine;
use vstd::utf8::encode_utf8;
use crate::codec::{sha256, sha256_spec};
use crate::text::{chars_of, is_whitespace_spec, push_chars, push_str, string_from_chars, to_owned_string, trim_chars, trim_spec};

verus! {

/// Requests allowed per client IP in one window, and the window in seconds.
pub const MAGIC_LINK_REQ_IP_MAX: u32 = 30;
pub const MAGIC_LINK_REQ_IP_WINDOW_SECS: u32 = 600;
/// Requests allowed per e-mail address in one window, and the window.
pub const MAGIC_LINK_REQ_EMAIL_MAX: u32 = 5;
pub const MAGIC_LINK_REQ_EMAIL_WINDOW_SECS: u32 = 900;

/// Unicode lower case of a string, as `str::to_lowercase` gives it.
pub uninterp spec fn lowercase_spec(s: Seq<char>) -> Seq<char>;

/// `str::to_lowercase`: the full Unicode lower-case mapping of `s`.
#[verifier::external_body]
pub(crate) fn to_lowercase(s: &str) -> (r: String)
    ensures
        r@ == lowercase_spec(s@),
{
    s.to_lowercase()
}

/// Whether `s` holds a white-space character.
pub open spec fn has_whitespace(s: Seq<char>) -> bool {
    exists|i: int| 0 <= i < s.len() && is_whitespace_spec(#[trigger] s[i])
}

/// The login key of an address: trimmed and lower-cased, kept when it has
/// the shape `local@domain` with both parts non-empty, a dot in the domain
/// (after the first `@`), and no white space anywhere.
pub open spec fn normalize_email_spec(raw: Seq<char>) -> Option<Seq<char>> {
    let e = lowercase_spec(trim_spec(raw));
    if !e.contains('@') {
        None
    } else {
        let local = crate::risk::before_first(e, '@');
        let domain = e.skip(local.len() as int + 1);
        if local.len() == 0 || domain.len() == 0 || !domain.contains('.') || has_whitespace(e) {
            None
        } else {
            Some(e)
        }
    }
}

/// Normalize an address for use as the login key; `None` for anything that
/// is not a plausible `local@domain`.
#[verifier::loop_isolation(false)]
pub fn normalize_login_email(raw: &str) -> (r: Option<String>)
    ensures
        match normalize_email_spec(raw@) {
            Some(e) => r matches Some(s) && s@ == e,
            None => r is None,
        },
{
    let t = trim_chars(chars_of(raw).as_slice());
    let ts = string_from_chars(t.as_slice());
    let e = to_lowercase(ts.as_str());
    let v = chars_of(e.as_str());
    if !crate::text::chars_contain(v.as_slice(), '@') {
        return None;
    }
    let local = crate::risk::chars_before_first(v.as_slice(), '@');
    proof {
        lemma_before_first_len(v@, '@');
    }
    assert(local.len() < v.len());
    let domain = crate::text::skip_chars(v.as_slice(), local.len() + 1);
    if local.len() == 0 || domain.len() == 0 || !crate::text::chars_contain(domain.as_slice(), '.') {
        return None;
    }
    let mut i: usize = 0;
    while i < v.len()
        invariant
            i <= v@.len(),
            forall|j: int| 0 <= j < i ==> !is_whitespace_spec(#[trigger] v@[j]),
        decreases v@.len() - i,
    {
        if crate::text::is_whitespace(v[i]) {
            assert(has_whitespace(v@)) by {
                assert(is_whitespace_spec(v@[i as int]));
            }
            return None;
        }
        i = i + 1;
    }
    Some(e)
}

proof fn lemma_before_first_len(s: Seq<char>, c: char)
    requires
        s.contains(c),
    ensures
        crate::risk::before_first(s, c).len() < s.len(),
    decreases s.len(),
{
    if s[0] != c {
        let k = choose|k: int| 0 <= k < s.len() && s[k] == c;
        assert(s.skip(1)[k - 1] == c);
        lemma_before_first_len(s.skip(1), c);
    }
}

/// The throttle key of a client IP (`unknown` when it is not known).
pub fn ip_throttle_key(ip: Option<&str>) -> (k: String)
    ensures
        k@ == "ml:req:ip:"@ + (match ip {
            Some(a) => a@,
            None => "unknown"@,
        }),
{
    let mut k = String::new();
    push_str(&mut k, "ml:req:ip:");
    match ip {
        Some(a) => push_str(&mut k, a),
        None => push_str(&mut k, "unknown"),
    }
    k
}

/// The throttle key of a normalized address.
pub fn email_throttle_key(email: &str) -> (k: String)
    ensures
        k@ == "ml:req:email:"@ + email@,
{
    let mut k = String::new();
    push_str(&mut k, "ml:req:email:");
    push_str(&mut k, email);
    k
}

/// Seconds until a throttle window resets, never negative.
pub fn retry_after(reset_at: u64, now: u64) -> (r: u64)
    ensures
        r == (if reset_at >= now { reset_at - now } else { 0 }),
{
    reset_at.saturating_sub(now)
}

/// The base64url text (no padding) of some bytes, as the `base64` crate's
/// `URL_SAFE_NO_PAD` engine writes it.
pub uninterp spec fn b64url_encode_spec(b: Seq<u8>) -> Seq<char>;

/// `base64::engine::general_purpose::URL_SAFE_NO_PAD.encode(b)`.
#[verifier::external_body]
fn b64url_encode(b: &[u8]) -> (r: String)
    ensures
        r@ == b64url_encode_spec(b@),
{
    base64::engine::general_purpose::URL_SAFE_NO_PAD.encode(b)
}

/// `rand::rng().fill(&mut buf)`: 32 bytes from the thread's generator.
/// Nothing is stated of their values.
#[verifier::external_body]
fn random_token_bytes() -> [u8; 32] {
    let mut buf = [0u8; 32];
    rand::Rng::fill_bytes(&mut rand::rng(), &mut buf);
    buf
}

/// The stored form of a login token: the SHA-256 of its text. Only this
/// is kept, so a leaked table holds no usable link.
pub open spec fn token_hash_spec(token: Seq<char>) -> Seq<u8> {
    sha256_spec(encode_utf8(token))
}

/// The stored hash of a login token.
pub fn token_hash(token: &str) -> (h: Vec<u8>)
    ensures
        h@ == token_hash_spec(token@),
{
    sha256(token.as_bytes())
}

/// A fresh login token and its stored hash: 32 random bytes in base64url,
/// and the hash of that text.
pub fn new_login_token() -> (r: (String, Vec<u8>))
    ensures
        exists|b: Seq<u8>| b.len() == 32 && r.0@ == b64url_encode_spec(b),
        r.1@ == token_hash_spec(r.0@),
{
    let buf = random_token_bytes();
    let raw = b64url_encode(&buf);
    assert(buf@.len() == 32);
    let h = token_hash(raw.as_str());
    (raw, h)
}

/// The link mailed for a login token.
pub fn verify_url(public_url: &str, raw_token: &str) -> (u: String)
    ensures
        u@ == crate::billing::trim_end_char(public_url@, '/') + "/auth/magic-link/verify?token="@
            + crate::login::url_encode_spec(encode_utf8(raw_token@)),
{
    crate::login::url_link(public_url, "/auth/magic-link/verify?token=", raw_token)
}

/// What a magic-link request is answered with.
#[derive(Debug, Clone, Copy, PartialEq, Eq, Structural)]
pub enum MagicLinkAnswer {
    /// 404: magic-link login is switched off.
    Disabled,
    /// 429 for the client IP, with the window's limit, its reset time and
    /// the seconds until then.
    RateLimited { limit: u32, reset_at: u64, retry_after: u64 },
    /// The opaque `{"sent": true}`.
    Sent,
    /// `{"sent": true}` with the verify link, for a dev deployment.
    SentWithDevLink,
}

/// The answer to a magic-link request, from what its steps found: whether
/// the feature is on, whether the client IP is within its window (and when
/// that resets), whether the address normalises, whether the address is
/// within its window, whether the mail went out, and whether dev sign-in is
/// on. A step after one that stops the request is not consulted. Apart from
/// the switch and the IP throttle, the answer is the same `Sent` whatever
/// happened to the address, unless a dev deployment gets the link of a
/// mail that went out.
pub open spec fn magic_link_answer_spec(
    enabled: bool,
    ip_allowed: bool,
    ip_reset_at: u64,
    now: u64,
    email_valid: bool,
    email_allowed: bool,
    mail_sent: bool,
    dev_auth_enabled: bool,
) -> MagicLinkAnswer {
    if !enabled {
        MagicLinkAnswer::Disabled
    } else if !ip_allowed {
        MagicLinkAnswer::RateLimited {
            limit: MAGIC_LINK_REQ_IP_MAX,
            reset_at: ip_reset_at,
            retry_after: if ip_reset_at >= now { (ip_reset_at - now) as u64 } else { 0 },
        }
    } else if email_valid && email_allowed && mail_sent && dev_auth_enabled {
        MagicLinkAnswer::SentWithDevLink
    } else {
        MagicLinkAnswer::Sent
    }
}

/// Answer a magic-link request.
pub fn magic_link_answer(
    enabled: bool,
    ip_allowed: bool,
    ip_reset_at: u64,
    now: u64,
    email_valid: bool,
    email_allowed: bool,
    mail_sent: bool,
    dev_auth_enabled: bool,
) -> (a: MagicLinkAnswer)
    ensures
        a == magic_link_answer_spec(
            enabled,
            ip_allowed,
            ip_reset_at,
            now,
            email_valid,
            email_allowed,
            mail_sent,
            dev_auth_enabled,
        ),
{
    if !enabled {
        return MagicLinkAnswer::Disabled;
    }
    if !ip_allowed {
        return MagicLinkAnswer::RateLimited {
            limit: MAGIC_LINK_REQ_IP_MAX,
            reset_at: ip_reset_at,
            retry_after: retry_after(ip_reset_at, now),
        };
    }
    if email_valid && email_allowed && mail_sent && dev_auth_enabled {
        MagicLinkAnswer::SentWithDevLink
    } else {
        MagicLinkAnswer::Sent
    }
}

/// The answer does not tell a caller anything about the address: past the
/// switch and the IP throttle, an invalid address, a throttled address and
/// a failed mail all get the same `Sent` as a delivered one (outside a dev
/// deployment).
pub proof fn law_magic_link_uniform_answer(
    ip_reset_at: u64,
    now: u64,
    email_valid: bool,
    email_allowed: bool,
    mail_sent: bool,
)
    ensures
        magic_link_answer_spec(true, true, ip_reset_at, now, email_valid, email_allowed, mail_sent, false)
            == MagicLinkAnswer::Sent,
{
}

} // verus!
