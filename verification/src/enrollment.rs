//! Agent enrollment: the prefixed secrets handed to agents (enrollment
//! tokens, poll tokens, API keys) and their stored hashes, the signed
//! approval token of a browser consent link, and the steps of a pending
//! enrollment's life.

use vstd::prelude::*;
use crate::codec::{hex_encode, hex_lower_spec, hmac_sha256, hmac_sha256_spec};
use crate::error::{ApiError, is_error, message_of};
use vstd::utf8::{encode_utf8, is_continuation_byte};
use crate::text::{chars_of, has_prefix, push_chars, push_str, str_eq, str_starts_with, string_from_chars, to_owned_string};

verus! {

/// How long an enrollment token lives when the request names no lifetime.
pub fn default_token_expiry() -> (secs: u64)
    ensures
        secs == 900,
{
    900
}

/// How many leading characters of a token are stored in clear to find its
/// row.
pub const TOKEN_PREFIX_LEN: usize = 12;

/// Whether every character is ASCII.
pub open spec fn all_ascii(s: Seq<char>) -> bool {
    forall|i: int| 0 <= i < s.len() ==> (#[trigger] s[i] as u32) < 128
}

/// A presented token has the shape of one of ours: it starts with `kind`
/// (`ose_` for enrollment tokens, `osp_` for poll tokens), is ASCII, and
/// has at least the stored prefix's length. Its lookup prefix is then its
/// first twelve characters.
pub open spec fn token_lookup_spec(token: Seq<char>, kind: Seq<char>) -> Option<Seq<char>> {
    if has_prefix(token, kind) && all_ascii(token) && token.len() >= 12 {
        Some(token.take(12))
    } else {
        None
    }
}

/// The lookup prefix of a presented token, if it has the right shape.
pub fn token_lookup_prefix(token: &str, kind: &str) -> (r: Option<String>)
    ensures
        match token_lookup_spec(token@, kind@) {
            Some(p) => r matches Some(s) && s@ == p,
            None => r is None,
        },
{
    if !str_starts_with(token, kind) {
        return None;
    }
    let v = chars_of(token);
    let mut i: usize = 0;
    while i < v.len()
        invariant
            i <= v@.len(),
            v@ == token@,
            forall|j: int| 0 <= j < i ==> (#[trigger] v@[j] as u32) < 128,
        decreases v@.len() - i,
    {
        if (v[i] as u32) >= 128 {
            assert(!all_ascii(token@)) by {
                assert((token@[i as int] as u32) >= 128);
            }
            return None;
        }
        i = i + 1;
    }
    if v.len() < TOKEN_PREFIX_LEN {
        return None;
    }
    let mut p: Vec<char> = Vec::new();
    let mut k: usize = 0;
    while k < TOKEN_PREFIX_LEN
        invariant
            k <= 12,
            v@.len() >= 12,
            p@ == v@.take(k as int),
        decreases 12 - k,
    {
        p.push(v[k]);
        proof {
            assert(v@.take(k + 1) =~= v@.take(k as int).push(v@[k as int]));
        }
        k = k + 1;
    }
    Some(string_from_chars(p.as_slice()))
}

/// `rand::rng().fill_bytes(..)`: 32 bytes from the thread's generator.
/// Nothing is stated of their values.
#[verifier::external_body]
fn random_secret_bytes() -> [u8; 32] {
    let mut bytes = [0u8; 32];
    rand::Rng::fill_bytes(&mut rand::rng(), &mut bytes);
    bytes
}

/// `argon2::Argon2::default().hash_password(raw, &salt)` with a fresh salt
/// made from 16 random bytes, in its PHC string form; on failure, the
/// error's display text. The salt is random, so the hash's text is not
/// stated; what is stated is that the hash verifies `raw`: `verify_password`
/// parses the PHC string and recomputes the hash of `raw` with the salt and
/// parameters it records, which gives back the stored output.
#[verifier::external_body]
fn argon2_hash(raw: &[u8]) -> (r: Result<String, String>)
    ensures
        r matches Ok(h) ==> argon2_verify_spec(raw@, h@) == Some(true),
{
    let salt_bytes: [u8; 16] = rand::random();
    let salt = match argon2::password_hash::SaltString::encode_b64(&salt_bytes) {
        Ok(s) => s,
        Err(e) => return Err(e.to_string()),
    };
    match argon2::PasswordHasher::hash_password(&argon2::Argon2::default(), raw, &salt) {
        Ok(h) => Ok(h.to_string()),
        Err(e) => Err(e.to_string()),
    }
}

/// A freshly minted secret: the raw text handed out once, its stored hash,
/// and its lookup prefix.
#[derive(Debug, Clone)]
pub struct MintedSecret {
    pub raw: String,
    pub hash: String,
    pub prefix: String,
}

/// Mint a secret with the given kind prefix (`ose_`, `osp_`, `osk_`): the
/// prefix and 32 random bytes in lowercase hex; the stored hash is an
/// Argon2 hash of its bytes, which verifies them; the lookup prefix is its
/// first twelve bytes. A hashing failure is an internal error carrying the
/// hasher's text. Cutting at byte twelve needs a character boundary there,
/// which only a kind of more than twelve bytes can break.
pub fn generate_prefixed_token(kind: &str) -> (r: Result<MintedSecret, ApiError>)
    requires
        encode_utf8(kind@).len() > 12 ==> !is_continuation_byte(encode_utf8(kind@)[12]),
    ensures
        r matches Ok(m) ==> (exists|b: Seq<u8>| b.len() == 32 && m.raw@ == kind@ + hex_lower_spec(b))
            && encode_utf8(m.prefix@) == encode_utf8(m.raw@).take(12)
            && argon2_verify_spec(encode_utf8(m.raw@), m.hash@) == Some(true),
        r matches Err(e) ==> e is Internal && exists|t: Seq<char>| message_of(e) == "hash error: "@ + t,
{
    let bytes = random_secret_bytes();
    let encoded = hex_encode(&bytes);
    let mut raw = String::new();
    push_str(&mut raw, kind);
    push_str(&mut raw, encoded.as_str());
    proof {
        assert(bytes@.len() == 32);
        lemma_hex_len(bytes@);
        lemma_prefix_cut_is_boundary(kind@, bytes@);
        assert(raw@ =~= kind@ + hex_lower_spec(bytes@));
    }
    let (head, _rest) = raw.as_str().split_at(TOKEN_PREFIX_LEN);
    let prefix = to_owned_string(head);
    let hash = match argon2_hash(raw.as_str().as_bytes()) {
        Ok(h) => h,
        Err(e) => {
            let mut m = String::new();
            push_str(&mut m, "hash error: ");
            push_str(&mut m, e.as_str());
            return Err(ApiError::Internal(m));
        },
    };
    Ok(MintedSecret { raw, hash, prefix })
}

/// The UTF-8 bytes of a concatenation are those of its parts.
proof fn lemma_encode_utf8_concat(a: Seq<char>, b: Seq<char>)
    ensures
        encode_utf8(a + b) == encode_utf8(a) + encode_utf8(b),
    decreases a.len(),
{
    if a.len() == 0 {
        assert(a + b =~= b);
        assert(encode_utf8(a) + encode_utf8(b) =~= encode_utf8(b));
    } else {
        lemma_encode_utf8_concat(a.drop_first(), b);
        assert((a + b)[0] == a[0]);
        assert((a + b).drop_first() =~= a.drop_first() + b);
        assert(encode_utf8(a + b) =~= encode_utf8(a) + encode_utf8(b));
    }
}

/// Byte twelve of a minted secret starts a character: either it lies in
/// the kind, where the caller's condition holds, or in the ASCII hex.
proof fn lemma_prefix_cut_is_boundary(kind: Seq<char>, b: Seq<u8>)
    requires
        encode_utf8(kind).len() > 12 ==> !is_continuation_byte(encode_utf8(kind)[12]),
        b.len() == 32,
    ensures
        encode_utf8(kind + hex_lower_spec(b)).len() > 12,
        vstd::utf8::is_char_boundary(encode_utf8(kind + hex_lower_spec(b)), 12),
{
    let h = hex_lower_spec(b);
    lemma_hex_len(b);
    crate::codec::lemma_hex_chars(b);
    assert(vstd::utf8::is_ascii_chars(h)) by {
        assert forall|i: int| 0 <= i < h.len() implies '\0' <= #[trigger] h[i] <= '\u{7f}' by {
            assert(('0' <= h[i] && h[i] <= '9') || ('a' <= h[i] && h[i] <= 'f'));
        }
    }
    vstd::utf8::is_ascii_chars_encode_utf8(h);
    lemma_encode_utf8_concat(kind, h);
    let kb = encode_utf8(kind);
    let hb = encode_utf8(h);
    let all = encode_utf8(kind + h);
    assert(all == kb + hb);
    assert(all.len() == kb.len() + 64);
    vstd::utf8::encode_utf8_valid_utf8(kind + h);
    if kb.len() > 12 {
        assert(all[12] == kb[12]);
    } else {
        let j = 12 - kb.len();
        assert(all[12] == hb[j]);
        assert(h[j] as u8 == hb[j]);
        assert(('0' <= h[j] && h[j] <= '9') || ('a' <= h[j] && h[j] <= 'f'));
        assert(hb[j] < 128);
    }
    vstd::utf8::is_char_boundary_iff_not_is_continuation_byte(all, 12);
}

proof fn lemma_hex_len(b: Seq<u8>)
    ensures
        hex_lower_spec(b).len() == 2 * b.len(),
    decreases b.len(),
{
    if b.len() > 0 {
        lemma_hex_len(b.drop_last());
    }
}

/// A minted secret is recognised as one of its kind, and its lookup prefix
/// is the prefix stored when it was minted: for an ASCII kind and the 32
/// random bytes, `token_lookup_spec` of `kind + hex(bytes)` gives its first
/// twelve characters, whose bytes are the first twelve bytes that
/// `generate_prefixed_token` stores.
pub proof fn law_minted_token_found_by_prefix(kind: Seq<char>, b: Seq<u8>)
    requires
        all_ascii(kind),
        b.len() == 32,
    ensures
        token_lookup_spec(kind + hex_lower_spec(b), kind) == Some((kind + hex_lower_spec(b)).take(12)),
        encode_utf8((kind + hex_lower_spec(b)).take(12)) == encode_utf8(kind + hex_lower_spec(b)).take(12),
{
    let h = hex_lower_spec(b);
    let raw = kind + h;
    lemma_hex_len(b);
    crate::codec::lemma_hex_chars(b);
    assert(raw.take(kind.len() as int) =~= kind);
    assert forall|i: int| 0 <= i < raw.len() implies (#[trigger] raw[i] as u32) < 128 && raw[i] <= '\u{7f}' by {
        if i < kind.len() {
            assert(raw[i] == kind[i]);
            assert((kind[i] as u32) < 128);
            lemma_ascii_char(kind[i]);
        } else {
            let c = h[i - kind.len()];
            assert(raw[i] == c);
            assert(('0' <= c && c <= '9') || ('a' <= c && c <= 'f'));
            lemma_ascii_char_u32(c);
        }
    }
    assert(raw.len() >= 12);
    let head = raw.take(12);
    assert(vstd::utf8::is_ascii_chars(head)) by {
        assert forall|i: int| 0 <= i < head.len() implies '\0' <= #[trigger] head[i] <= '\u{7f}' by {
            assert(head[i] == raw[i]);
            assert((raw[i] as u32) < 128);
            lemma_ascii_char(raw[i]);
        }
    }
    vstd::utf8::is_ascii_chars_encode_utf8(head);
    lemma_encode_utf8_concat(head, raw.skip(12));
    assert(head + raw.skip(12) =~= raw);
    assert(encode_utf8(head) =~= encode_utf8(raw).take(12));
}

proof fn lemma_ascii_char(c: char)
    requires
        (c as u32) < 128,
    ensures
        '\0' <= c <= '\u{7f}',
{
}

proof fn lemma_ascii_char_u32(c: char)
    requires
        c <= '\u{7f}',
    ensures
        (c as u32) < 128,
{
}

/// Whether `raw` matches a stored Argon2 hash: `None` when the stored text
/// is not a PHC hash string, else whether the password verifies.
pub uninterp spec fn argon2_verify_spec(raw: Seq<u8>, stored: Seq<char>) -> Option<bool>;

/// `argon2::PasswordHash::new(stored)` and then
/// `Argon2::default().verify_password(raw, &parsed)`.
#[verifier::external_body]
fn argon2_verify(raw: &[u8], stored: &str) -> (r: Option<bool>)
    ensures
        r == argon2_verify_spec(raw@, stored@),
{
    match argon2::PasswordHash::new(stored) {
        Err(_) => None,
        Ok(parsed) => Some(
            argon2::PasswordVerifier::verify_password(&argon2::Argon2::default(), raw, &parsed).is_ok(),
        ),
    }
}

/// Check a presented secret against its stored hash: an unreadable stored
/// hash is an internal error, a mismatch an authentication failure.
pub fn verify_argon2_hash(raw: &str, stored_hash: &str) -> (r: Result<(), ApiError>)
    ensures
        match argon2_verify_spec(vstd::utf8::encode_utf8(raw@), stored_hash@) {
            None => is_error(r, 500, "invalid stored hash"@),
            Some(false) => is_error(r, 401, "invalid token"@),
            Some(true) => r is Ok,
        },
{
    match argon2_verify(raw.as_bytes(), stored_hash) {
        None => Err(ApiError::Internal(to_owned_string("invalid stored hash"))),
        Some(false) => Err(ApiError::Unauthorized(to_owned_string("invalid token"))),
        Some(true) => Ok(()),
    }
}

/// The value of a hex digit of either case.
pub open spec fn hex_value(c: char) -> int {
    if '0' <= c && c <= '9' {
        c as int - '0' as int
    } else if 'a' <= c && c <= 'f' {
        c as int - 'a' as int + 10
    } else {
        c as int - 'A' as int + 10
    }
}

/// Whether `c` is a hex digit of either case.
pub open spec fn is_hex_char(c: char) -> bool {
    ('0' <= c && c <= '9') || ('a' <= c && c <= 'f') || ('A' <= c && c <= 'F')
}

/// `hex::decode`: an even number of hex digits (either case), two per
/// byte, high nibble first; anything else does not decode.
pub open spec fn hex_decode_spec(s: Seq<char>) -> Option<Seq<u8>> {
    if s.len() % 2 == 0 && forall|i: int| 0 <= i < s.len() ==> is_hex_char(#[trigger] s[i]) {
        Some(Seq::new(s.len() / 2, |i: int| (hex_value(s[2 * i]) * 16 + hex_value(s[2 * i + 1])) as u8))
    } else {
        None
    }
}

/// `hex::decode(s)`; `None` on any decode error.
#[verifier::external_body]
fn hex_decode(s: &str) -> (r: Option<Vec<u8>>)
    ensures
        match hex_decode_spec(s@) {
            Some(b) => r matches Some(v) && v@ == b,
            None => r is None,
        },
{
    hex::decode(s).ok()
}

/// The bytes of the signing key: hex-decoded when it is hex, else its text.
pub open spec fn signing_key_spec(signing_key: Seq<char>) -> Seq<u8> {
    match hex_decode_spec(signing_key) {
        Some(b) => b,
        None => vstd::utf8::encode_utf8(signing_key),
    }
}

/// The bytes of the signing key.
pub fn signing_key_bytes(signing_key: &str) -> (b: Vec<u8>)
    ensures
        b@ == signing_key_spec(signing_key@),
{
    match hex_decode(signing_key) {
        Some(b) => b,
        None => vstd::slice::slice_to_vec(signing_key.as_bytes()),
    }
}

/// The hyphenated lowercase text of a UUID's sixteen bytes:
/// `8-4-4-4-12` hex digits.
pub open spec fn uuid_text_spec(b: Seq<u8>) -> Seq<char> {
    hex_lower_spec(b.subrange(0, 4)) + seq!['-'] + hex_lower_spec(b.subrange(4, 6)) + seq!['-'] + hex_lower_spec(
        b.subrange(6, 8),
    ) + seq!['-'] + hex_lower_spec(b.subrange(8, 10)) + seq!['-'] + hex_lower_spec(b.subrange(10, 16))
}

/// `uuid::Uuid::new_v4()`: a random UUID, as its bytes and its hyphenated
/// lowercase text. Nothing is stated of the bytes.
#[verifier::external_body]
fn new_uuid_v4() -> (r: ([u8; 16], String))
    ensures
        r.1@ == uuid_text_spec(r.0@),
{
    let id = uuid::Uuid::new_v4();
    (*id.as_bytes(), id.to_string())
}

/// The approval token of a consent link for a UUID with text `id_text` and
/// bytes `id`: the text, a hyphen, and the first sixteen hex digits of the
/// HMAC-SHA256 of the bytes under the signing key.
pub open spec fn approval_token_spec(id_text: Seq<char>, id: Seq<u8>, signing_key: Seq<char>) -> Seq<char> {
    id_text + seq!['-'] + hex_lower_spec(hmac_sha256_spec(signing_key_spec(signing_key), id)).take(16)
}

/// Sign a consent-link id.
pub fn approval_token_for(id_text: &str, id: &[u8], signing_key: &str) -> (t: String)
    ensures
        t@ == approval_token_spec(id_text@, id@, signing_key@),
{
    let key = signing_key_bytes(signing_key);
    let tag = hmac_sha256(key.as_slice(), id);
    let sig = hex_encode(tag.as_slice());
    proof {
        lemma_hex_len(tag@);
    }
    let sv = chars_of(sig.as_str());
    let mut t = String::new();
    push_str(&mut t, id_text);
    push_str(&mut t, "-");
    let mut k: usize = 0;
    let ghost start = t@;
    proof {
        reveal_strlit("-");
    }
    while k < 16
        invariant
            k <= 16,
            sv@.len() == 64,
            t@ == start + sv@.take(k as int),
        decreases 16 - k,
    {
        crate::text::push_char(&mut t, sv[k]);
        proof {
            assert(sv@.take(k + 1) =~= sv@.take(k as int).push(sv@[k as int]));
            assert(start + sv@.take(k + 1) =~= (start + sv@.take(k as int)).push(sv@[k as int]));
        }
        k = k + 1;
    }
    proof {
        assert(t@ =~= approval_token_spec(id_text@, id@, signing_key@));
    }
    t
}

/// A fresh approval token for a consent link.
pub fn generate_approval_token(signing_key: &str) -> (t: String)
    ensures
        exists|b: Seq<u8>| b.len() == 16 && t@ == approval_token_spec(uuid_text_spec(b), b, signing_key@),
{
    let (bytes, text) = new_uuid_v4();
    let t = approval_token_for(text.as_str(), &bytes, signing_key);
    assert(bytes@.len() == 16);
    t
}

/// Where the consent page for an approval token lives: on the dashboard
/// when its URL is absolute, else on the public URL with the dashboard's
/// path.
pub open spec fn approval_url_spec(dashboard_url: Seq<char>, public_url: Seq<char>, token: Seq<char>) -> Seq<char> {
    let dash = crate::billing::trim_end_char(dashboard_url, '/');
    if has_prefix(dash, "http://"@) || has_prefix(dash, "https://"@) {
        dash + "/enroll/consent/"@ + token
    } else {
        crate::billing::trim_end_char(public_url, '/') + dash + "/enroll/consent/"@ + token
    }
}

/// The consent link an agent shows its user.
pub fn approval_url(dashboard_url: &str, public_url: &str, token: &str) -> (u: String)
    ensures
        u@ == approval_url_spec(dashboard_url@, public_url@, token@),
{
    let dash = crate::billing::trim_end_char_exec(dashboard_url, '/');
    let dash_s = string_from_chars(dash.as_slice());
    let mut u = String::new();
    if str_starts_with(dash_s.as_str(), "http://") || str_starts_with(dash_s.as_str(), "https://") {
        push_chars(&mut u, dash.as_slice());
    } else {
        let base = crate::billing::trim_end_char_exec(public_url, '/');
        push_chars(&mut u, base.as_slice());
        push_chars(&mut u, dash.as_slice());
    }
    push_str(&mut u, "/enroll/consent/");
    push_str(&mut u, token);
    u
}

/// Enrollment tokens are issued only for agents.
pub fn check_token_target_kind(kind: &str) -> (r: Result<(), ApiError>)
    ensures
        (kind@ == "agent"@ || kind@ == "sub_agent"@) ==> r is Ok,
        !(kind@ == "agent"@ || kind@ == "sub_agent"@) ==> is_error(
            r,
            400,
            "enrollment tokens can only be created for agent or sub_agent identities"@,
        ),
{
    if str_eq(kind, "agent") || str_eq(kind, "sub_agent") {
        Ok(())
    } else {
        Err(ApiError::BadRequest(to_owned_string("enrollment tokens can only be created for agent or sub_agent identities")))
    }
}

/// What the consent page shows for a pending enrollment.
#[derive(Debug, Clone, Copy, PartialEq, Eq, Structural)]
pub enum ConsentView {
    /// Gone: the enrollment expired.
    Expired,
    /// Already approved or denied.
    Resolved,
    /// The viewer must sign in first.
    SignInRequired,
    /// Show the request to the signed-in viewer.
    Show,
}

/// The consent page's view: expiry is checked before status (a row the
/// cleanup job has not marked yet is still expired), then whether it is
/// still pending, then whether the viewer is signed in.
pub fn consent_view(status: &str, expires_at: i64, now: i64, signed_in: bool) -> (v: ConsentView)
    ensures
        (status@ == "expired"@ || expires_at < now) ==> v == ConsentView::Expired,
        !(status@ == "expired"@ || expires_at < now) && status@ != "pending"@ ==> v == ConsentView::Resolved,
        !(status@ == "expired"@ || expires_at < now) && status@ == "pending"@ && !signed_in ==> v
            == ConsentView::SignInRequired,
        !(status@ == "expired"@ || expires_at < now) && status@ == "pending"@ && signed_in ==> v == ConsentView::Show,
{
    if str_eq(status, "expired") || expires_at < now {
        return ConsentView::Expired;
    }
    if !str_eq(status, "pending") {
        return ConsentView::Resolved;
    }
    if !signed_in {
        return ConsentView::SignInRequired;
    }
    ConsentView::Show
}

/// A consent decision.
#[derive(Debug, Clone, Copy, PartialEq, Eq, Structural)]
pub enum EnrollmentDecision {
    Approve,
    Deny,
}

/// A pending enrollment can still be decided: it must be pending and
/// unexpired. This is checked before the enrollment is claimed for the
/// deciding org.
pub fn check_pending_enrollment(status: &str, expires_at: i64, now: i64) -> (r: Result<(), ApiError>)
    ensures
        status@ != "pending"@ ==> is_error(r, 409, "enrollment already resolved"@),
        status@ == "pending"@ && expires_at < now ==> is_error(r, 409, "enrollment has expired"@),
        status@ == "pending"@ && expires_at >= now ==> r is Ok,
{
    if !str_eq(status, "pending") {
        return Err(ApiError::Conflict(to_owned_string("enrollment already resolved")));
    }
    if expires_at < now {
        return Err(ApiError::Conflict(to_owned_string("enrollment has expired")));
    }
    Ok(())
}

/// The claim of a pending enrollment for the deciding org: it succeeds when
/// the enrollment is unclaimed or already claimed by that org; a claim by
/// another org answers as if the enrollment did not exist.
pub fn check_enrollment_claim(claimed: bool) -> (r: Result<(), ApiError>)
    ensures
        claimed ==> r is Ok,
        !claimed ==> is_error(r, 404, "enrollment not found"@),
{
    if claimed {
        Ok(())
    } else {
        Err(ApiError::NotFound(to_owned_string("enrollment not found")))
    }
}

/// Read a consent decision, after the claim: `approve` or `deny`.
pub fn parse_enrollment_decision(decision: &str) -> (r: Result<EnrollmentDecision, ApiError>)
    ensures
        decision@ == "approve"@ ==> r == Ok::<EnrollmentDecision, ApiError>(EnrollmentDecision::Approve),
        decision@ == "deny"@ ==> r == Ok::<EnrollmentDecision, ApiError>(EnrollmentDecision::Deny),
        decision@ != "approve"@ && decision@ != "deny"@ ==> is_error(r, 400, "invalid decision: "@ + decision@),
{
    proof {
        reveal_strlit("approve");
        reveal_strlit("deny");
        assert("approve"@.len() == 7 && "deny"@.len() == 4);
    }
    if str_eq(decision, "approve") {
        Ok(EnrollmentDecision::Approve)
    } else if str_eq(decision, "deny") {
        Ok(EnrollmentDecision::Deny)
    } else {
        let mut m = String::new();
        push_str(&mut m, "invalid decision: ");
        push_str(&mut m, decision);
        Err(ApiError::BadRequest(m))
    }
}

/// What follows recording an approval on the pending enrollment.
#[derive(Debug, Clone, PartialEq, Eq)]
pub enum ApprovalRecordStep {
    /// The approval is recorded: answer with the new agent.
    Done,
    /// Another request resolved the enrollment first: delete the agent
    /// just created, then answer with this error.
    DeleteAgentThenFail(ApiError),
}

/// An approval that loses the race to another request removes the agent it
/// created and answers with a conflict.
pub fn approval_record_step(recorded: bool) -> (r: ApprovalRecordStep)
    ensures
        recorded ==> r == ApprovalRecordStep::Done,
        !recorded ==> (r matches ApprovalRecordStep::DeleteAgentThenFail(e) && is_error(
            Err::<(), ApiError>(e),
            409,
            "enrollment already resolved by another request"@,
        )),
{
    if recorded {
        ApprovalRecordStep::Done
    } else {
        ApprovalRecordStep::DeleteAgentThenFail(
            ApiError::Conflict(to_owned_string("enrollment already resolved by another request")),
        )
    }
}

/// The identity an approved agent is created under, as the store has it.
#[derive(Debug, Clone)]
pub struct ParentIdentity {
    pub id: u128,
    pub kind: String,
    pub owner_id: Option<u128>,
    pub depth: i32,
}

/// Where an approved agent goes: its parent's id, its owner, and its depth.
#[derive(Debug, Clone, Copy, PartialEq, Eq, Structural)]
pub struct AgentPlacement {
    pub parent_id: u128,
    pub owner_id: u128,
    pub depth: i32,
}

/// Place a newly approved agent. A chosen parent must be a user, agent or
/// sub-agent. The owner is the parent itself when it is a user, else the
/// parent's owner, which must exist. The agent sits one level below.
pub fn place_enrolled_agent(parent: &ParentIdentity, chosen: bool) -> (r: Result<AgentPlacement, ApiError>)
    requires
        parent.depth < i32::MAX,
    ensures
        (chosen && !(parent.kind@ == "user"@ || parent.kind@ == "agent"@ || parent.kind@ == "sub_agent"@))
            ==> is_error(r, 400, "parent must be a user, agent, or sub_agent"@),
        (!chosen || parent.kind@ == "user"@ || parent.kind@ == "agent"@ || parent.kind@ == "sub_agent"@) ==> (
        if parent.kind@ == "user"@ {
            r == Ok::<AgentPlacement, ApiError>(
                AgentPlacement { parent_id: parent.id, owner_id: parent.id, depth: (parent.depth + 1) as i32 },
            )
        } else {
            match parent.owner_id {
                Some(o) => r == Ok::<AgentPlacement, ApiError>(
                    AgentPlacement { parent_id: parent.id, owner_id: o, depth: (parent.depth + 1) as i32 },
                ),
                None => is_error(r, 400, "cannot enroll under an identity with no owner chain"@),
            }
        }),
{
    let k = parent.kind.as_str();
    let is_user = str_eq(k, "user");
    if chosen && !(is_user || str_eq(k, "agent") || str_eq(k, "sub_agent")) {
        return Err(ApiError::BadRequest(to_owned_string("parent must be a user, agent, or sub_agent")));
    }
    let owner = if is_user {
        parent.id
    } else {
        match parent.owner_id {
            Some(o) => o,
            None => {
                return Err(ApiError::BadRequest(to_owned_string("cannot enroll under an identity with no owner chain")));
            },
        }
    };
    Ok(AgentPlacement { parent_id: parent.id, owner_id: owner, depth: parent.depth + 1 })
}

/// What a poll reports: an expired pending enrollment is reported expired
/// (and swept); otherwise its status.
pub fn poll_status(status: &str, expires_at: i64, now: i64) -> (r: String)
    ensures
        (status@ == "pending"@ && expires_at < now) ==> r@ == "expired"@,
        !(status@ == "pending"@ && expires_at < now) ==> r@ == status@,
{
    if str_eq(status, "pending") && expires_at < now {
        to_owned_string("expired")
    } else {
        to_owned_string(status)
    }
}

} // verus!
