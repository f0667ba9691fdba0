//! The identity-provider login round trip: the OAuth `state` parameter and
//! its checks at the callback, the org a login belongs to, the auth-state
//! cookies carried across the bounce, and where the user lands afterwards.

use vstd::prelude::*;
use base64::Engine;
use crate::codec::{hex_encode, hex_lower_spec};
use crate::cookies::{
    auth_cookie, clear_auth_cookie, cookie_value, domain_attr, extract_cookie, next_ok, opt_str,
    sanitize_next, session_cookie, session_cookie_spec, header_value_ok,
};
use crate::error::{ApiError, is_error};
use crate::risk::{before_first, chars_before_first};
use crate::text::{
    chars_of, chars_start_with, has_prefix, push_chars, push_str, skip_chars, str_eq, str_starts_with,
    string_from_chars, to_owned_string,
};

verus! {

/// The OAuth `state` a login sends to the identity provider:
/// `login:<provider>:<nonce>`, with `:<preview id>` appended for a preview
/// deployment's handoff.
pub open spec fn login_state_spec(provider: Seq<char>, nonce: Seq<char>, preview_id: Option<Seq<char>>) -> Seq<char> {
    match preview_id {
        Some(id) => "login:"@ + provider + ":"@ + nonce + ":"@ + id,
        None => "login:"@ + provider + ":"@ + nonce,
    }
}

/// Build the OAuth `state` of a login.
pub fn login_state(provider: &str, nonce: &str, preview_id: Option<&str>) -> (s: String)
    ensures
        s@ == login_state_spec(provider@, nonce@, opt_str(preview_id)),
{
    let mut s = String::new();
    push_str(&mut s, "login:");
    push_str(&mut s, provider);
    push_str(&mut s, ":");
    push_str(&mut s, nonce);
    match preview_id {
        Some(id) => {
            push_str(&mut s, ":");
            push_str(&mut s, id);
        },
        None => {},
    }
    s
}

/// The pieces of `s` split on `c` into at most `n` pieces, the last one
/// holding the rest, as `str::splitn` gives them (`n >= 1`).
pub open spec fn splitn_spec(s: Seq<char>, n: nat, c: char) -> Seq<Seq<char>>
    decreases n,
{
    if n <= 1 || !s.contains(c) {
        seq![s]
    } else {
        let head = before_first(s, c);
        seq![head] + splitn_spec(s.skip(head.len() as int + 1), (n - 1) as nat, c)
    }
}

proof fn lemma_before_first_bounds(s: Seq<char>, c: char)
    ensures
        before_first(s, c).len() <= s.len(),
        forall|i: int| 0 <= i < before_first(s, c).len() ==> s[i] != c && before_first(s, c)[i] == s[i],
        s.contains(c) ==> before_first(s, c).len() < s.len() && s[before_first(s, c).len() as int] == c,
        !s.contains(c) ==> before_first(s, c) == s,
    decreases s.len(),
{
    if s.len() > 0 && s[0] != c {
        lemma_before_first_bounds(s.skip(1), c);
        let t = s.skip(1);
        assert forall|i: int| 0 <= i < before_first(s, c).len() implies s[i] != c && before_first(s, c)[i] == s[i] by {
            if i > 0 {
                assert(s[i] == t[i - 1]);
            }
        }
        if s.contains(c) {
            let k = choose|k: int| 0 <= k < s.len() && s[k] == c;
            assert(t[k - 1] == c);
            assert(t.contains(c));
        } else {
            assert forall|k: int| 0 <= k < t.len() implies t[k] != c by {
                assert(t[k] == s[k + 1]);
            }
            assert(seq![s[0]] + t =~= s);
        }
    } else if s.len() > 0 {
        assert(s.contains(c)) by {
            assert(s[0] == c);
        }
    } else {
        assert(s =~= Seq::<char>::empty());
    }
}

fn contains_char(s: &[char], c: char) -> (r: bool)
    ensures
        r == s@.contains(c),
{
    crate::text::chars_contain(s, c)
}

/// `s` split on `c` into at most `n` pieces.
pub fn split_n(s: &[char], n: usize, c: char) -> (parts: Vec<Vec<char>>)
    requires
        n >= 1,
    ensures
        crate::text::views(parts@) == splitn_spec(s@, n as nat, c),
    decreases n,
{
    if n <= 1 || !contains_char(s, c) {
        let v = vstd::slice::slice_to_vec(s);
        let mut out: Vec<Vec<char>> = Vec::new();
        out.push(v);
        proof {
            assert(crate::text::views(out@) =~= seq![s@]);
        }
        return out;
    }
    let head = chars_before_first(s, c);
    proof {
        lemma_before_first_bounds(s@, c);
        assert(s@.contains(c));
        assert(head@.len() < s@.len());
    }
    assert(head.len() < s.len());
    let rest = skip_chars(s, head.len() + 1);
    let tail = split_n(rest.as_slice(), n - 1, c);
    let mut out: Vec<Vec<char>> = Vec::new();
    out.push(head);
    let mut i: usize = 0;
    while i < tail.len()
        invariant
            i <= tail@.len(),
            out@.len() == i + 1,
            crate::text::views(out@) == seq![before_first(s@, c)] + crate::text::views(tail@).take(i as int),
        decreases tail@.len() - i,
    {
        let piece = vstd::slice::slice_to_vec(tail[i].as_slice());
        let ghost before = crate::text::views(out@);
        out.push(piece);
        proof {
            assert(crate::text::views(out@) =~= before.push(tail@[i as int]@));
            assert(crate::text::views(tail@).take(i + 1) =~= crate::text::views(tail@).take(i as int).push(
                tail@[i as int]@,
            ));
            assert(seq![before_first(s@, c)] + crate::text::views(tail@).take(i + 1) =~= (seq![
                before_first(s@, c),
            ] + crate::text::views(tail@).take(i as int)).push(tail@[i as int]@));
        }
        i = i + 1;
    }
    proof {
        assert(crate::text::views(tail@).take(tail@.len() as int) =~= crate::text::views(tail@));
    }
    out
}

/// The value of a UUID in its text forms, as `uuid::Uuid::parse_str`
/// reads them.
pub uninterp spec fn uuid_parse_spec(s: Seq<char>) -> Option<u128>;

/// `uuid::Uuid::parse_str(s)`, read as its 128-bit value; `None` when the
/// text is not a UUID.
#[verifier::external_body]
pub(crate) fn parse_uuid(s: &str) -> (r: Option<u128>)
    ensures
        r == uuid_parse_spec(s@),
{
    match uuid::Uuid::parse_str(s) {
        Ok(u) => Some(u.as_u128()),
        Err(_) => None,
    }
}

/// What a callback's `state` carries once checked: the login nonce and the
/// preview handoff id, if any.
#[derive(Debug, Clone, PartialEq, Eq)]
pub struct CallbackState {
    pub nonce: String,
    pub preview_id: Option<u128>,
}

/// How the callback reads `state`: split into at most four pieces on `:`;
/// the first must be `login`, there must be a nonce, a fourth piece (the
/// preview id) is refused unless preview handoff is enabled, the provider
/// must be the one called back, and the preview id must be a UUID.
pub open spec fn callback_state_spec(state: Seq<char>, provider_key: Seq<char>, preview_enabled: bool) -> Result<
    (Seq<char>, Option<u128>),
    Seq<char>,
> {
    let parts = splitn_spec(state, 4, ':');
    if parts.len() < 3 || parts[0] != "login"@ {
        Err("invalid state parameter"@)
    } else if parts.len() > 3 && !preview_enabled {
        Err("invalid state parameter"@)
    } else if parts[1] != provider_key {
        Err("provider mismatch in state"@)
    } else if parts.len() > 3 {
        match uuid_parse_spec(parts[3]) {
            Some(id) => Ok((parts[2], Some(id))),
            None => Err("invalid state parameter"@),
        }
    } else {
        Ok((parts[2], None))
    }
}

/// Check the `state` an identity provider hands back.
pub fn parse_callback_state(state: &str, provider_key: &str, preview_enabled: bool) -> (r: Result<CallbackState, ApiError>)
    ensures
        match callback_state_spec(state@, provider_key@, preview_enabled) {
            Ok((nonce, id)) => r matches Ok(cs) && cs.nonce@ == nonce && cs.preview_id == id,
            Err(m) => is_error(r, 400, m),
        },
{
    let s = chars_of(state);
    let parts = split_n(s.as_slice(), 4, ':');
    let login: [char; 5] = ['l', 'o', 'g', 'i', 'n'];
    proof {
        reveal_strlit("login");
        assert(login@ =~= "login"@);
    }
    if parts.len() < 3 || !crate::text::chars_eq(parts[0].as_slice(), &login) {
        return Err(ApiError::BadRequest(to_owned_string("invalid state parameter")));
    }
    if parts.len() > 3 && !preview_enabled {
        return Err(ApiError::BadRequest(to_owned_string("invalid state parameter")));
    }
    let pk = chars_of(provider_key);
    if !crate::text::chars_eq(parts[1].as_slice(), pk.as_slice()) {
        return Err(ApiError::BadRequest(to_owned_string("provider mismatch in state")));
    }
    let nonce = string_from_chars(parts[2].as_slice());
    if parts.len() > 3 {
        let id_text = string_from_chars(parts[3].as_slice());
        match parse_uuid(id_text.as_str()) {
            Some(id) => Ok(CallbackState { nonce, preview_id: Some(id) }),
            None => Err(ApiError::BadRequest(to_owned_string("invalid state parameter"))),
        }
    } else {
        Ok(CallbackState { nonce, preview_id: None })
    }
}

/// The text before the first `c` of `a + rest` is `a` when `a` holds no
/// `c` and `rest` starts with one.
proof fn lemma_before_first_of_join(a: Seq<char>, rest: Seq<char>, c: char)
    requires
        !a.contains(c),
        rest.len() > 0,
        rest[0] == c,
    ensures
        before_first(a + rest, c) == a,
    decreases a.len(),
{
    if a.len() == 0 {
        assert(a + rest =~= rest);
    } else {
        let t = a.skip(1);
        assert(!t.contains(c)) by {
            if t.contains(c) {
                let k = choose|k: int| 0 <= k < t.len() && t[k] == c;
                assert(a[k + 1] == c);
            }
        }
        lemma_before_first_of_join(t, rest, c);
        assert((a + rest).skip(1) =~= t + rest);
        assert((a + rest)[0] == a[0]);
        assert(seq![a[0]] + t =~= a);
    }
}

/// Splitting `a`, a `c`, then `b` into `n >= 2` pieces gives `a` and the
/// split of `b` into one piece fewer, when `a` holds no `c`.
proof fn lemma_splitn_join(a: Seq<char>, b: Seq<char>, n: nat, c: char)
    requires
        !a.contains(c),
        n >= 2,
    ensures
        splitn_spec(a + seq![c] + b, n, c) == seq![a] + splitn_spec(b, (n - 1) as nat, c),
{
    let s = a + seq![c] + b;
    assert(s[a.len() as int] == c);
    assert(s.contains(c));
    assert(s =~= a + (seq![c] + b));
    lemma_before_first_of_join(a, seq![c] + b, c);
    assert(s.skip(a.len() as int + 1) =~= b);
}

/// A text without `c` is one piece.
proof fn lemma_splitn_plain(s: Seq<char>, n: nat, c: char)
    requires
        !s.contains(c),
    ensures
        splitn_spec(s, n, c) == seq![s],
{
}

/// The pieces the callback splits a login's `state` into.
proof fn lemma_login_state_parts(provider: Seq<char>, nonce: Seq<char>, preview: Option<Seq<char>>)
    requires
        !provider.contains(':'),
        !nonce.contains(':'),
    ensures
        splitn_spec(login_state_spec(provider, nonce, preview), 4, ':') == (match preview {
            Some(t) => seq!["login"@, provider, nonce, t],
            None => seq!["login"@, provider, nonce],
        }),
{
    let login = "login"@;
    let c = seq![':'];
    assert(!login.contains(':')) by {
        reveal_strlit("login");
        if login.contains(':') {
            let k = choose|k: int| 0 <= k < login.len() && login[k] == ':';
            assert(login[k] == ':');
        }
    }
    assert("login:"@ =~= login + c) by {
        reveal_strlit("login:");
        reveal_strlit("login");
    }
    assert(":"@ =~= c) by {
        reveal_strlit(":");
    }
    let tail = match preview {
        Some(t) => nonce + c + t,
        None => nonce,
    };
    let state = login_state_spec(provider, nonce, preview);
    assert(state =~= login + c + (provider + c + tail));
    lemma_splitn_join(login, provider + c + tail, 4, ':');
    lemma_splitn_join(provider, tail, 3, ':');
    match preview {
        Some(t) => {
            lemma_splitn_join(nonce, t, 2, ':');
            assert(splitn_spec(t, 1, ':') == seq![t]);
            assert(splitn_spec(state, 4, ':') =~= seq![login, provider, nonce, t]);
        },
        None => {
            lemma_splitn_plain(nonce, 2, ':');
            assert(splitn_spec(state, 4, ':') =~= seq![login, provider, nonce]);
        },
    }
}

/// The `state` a login sends comes back at the callback of the same
/// provider as its nonce and its preview id; at another provider's callback
/// it is refused as a provider mismatch. This holds for provider keys and
/// nonces without `:`, and for a preview id that is a UUID on a deployment
/// with preview handoff enabled.
pub proof fn law_login_state_round_trip(
    provider: Seq<char>,
    nonce: Seq<char>,
    preview: Option<Seq<char>>,
    preview_enabled: bool,
    callback_provider: Seq<char>,
)
    requires
        !provider.contains(':'),
        !nonce.contains(':'),
        preview matches Some(t) ==> preview_enabled && uuid_parse_spec(t) is Some,
    ensures
        callback_state_spec(login_state_spec(provider, nonce, preview), callback_provider, preview_enabled) == (
        if callback_provider == provider {
            Ok::<(Seq<char>, Option<u128>), Seq<char>>(
                (
                    nonce,
                    match preview {
                        Some(t) => uuid_parse_spec(t),
                        None => None,
                    },
                ),
            )
        } else {
            Err::<(Seq<char>, Option<u128>), Seq<char>>("provider mismatch in state"@)
        }),
{
    lemma_login_state_parts(provider, nonce, preview);
}

/// The `state` of a login begun before provider keys were part of it,
/// `login:<nonce>`, read as a Google login; any other state is kept.
pub open spec fn google_compat_state_spec(state: Seq<char>) -> Seq<char> {
    if has_prefix(state, "login:"@) && splitn_spec(state, 3, ':').len() == 2 {
        "login:google:"@ + splitn_spec(state, 3, ':')[1]
    } else {
        state
    }
}

/// Rewrite an old-format Google callback `state`.
pub fn google_compat_state(state: &str) -> (r: String)
    ensures
        r@ == google_compat_state_spec(state@),
{
    if str_starts_with(state, "login:") {
        let s = chars_of(state);
        let parts = split_n(s.as_slice(), 3, ':');
        if parts.len() == 2 {
            let mut out = String::new();
            push_str(&mut out, "login:google:");
            push_chars(&mut out, parts[1].as_slice());
            return out;
        }
    }
    to_owned_string(state)
}

/// The org a login is for. On an org's subdomain that org decides, and a
/// different `?org=` is refused; on the apex `?org=` names it, if given.
pub fn effective_org_slug(subdomain_slug: Option<&str>, query_org: Option<&str>) -> (r: Result<Option<String>, ApiError>)
    ensures
        match (subdomain_slug, query_org) {
            (Some(s), Some(q)) => if s@ != q@ {
                is_error(r, 400, "org param does not match subdomain"@)
            } else {
                r matches Ok(Some(v)) && v@ == s@
            },
            (Some(s), None) => r matches Ok(Some(v)) && v@ == s@,
            (None, Some(q)) => r matches Ok(Some(v)) && v@ == q@,
            (None, None) => r matches Ok(None),
        },
{
    match subdomain_slug {
        Some(s) => {
            match query_org {
                Some(q) => {
                    if !str_eq(q, s) {
                        return Err(ApiError::BadRequest(to_owned_string("org param does not match subdomain")));
                    }
                },
                None => {},
            }
            Ok(Some(to_owned_string(s)))
        },
        None => match query_org {
            Some(q) => Ok(Some(to_owned_string(q))),
            None => Ok(None),
        },
    }
}

/// Unicode `Alphabetic` or `Numeric`, as `char::is_alphanumeric` decides.
pub uninterp spec fn is_alphanumeric_spec(c: char) -> bool;

/// `char::is_alphanumeric`.
#[verifier::external_body]
fn is_alphanumeric(c: char) -> (r: bool)
    ensures
        r == is_alphanumeric_spec(c),
{
    c.is_alphanumeric()
}

/// Whether an org slug may travel in the `oss_auth_org` cookie: not empty,
/// and only alphanumerics, `-`, `_` and `.` (which also keeps it from
/// breaking the header).
pub open spec fn slug_cookie_safe(s: Seq<char>) -> bool {
    s.len() > 0 && forall|i: int| 0 <= i < s.len() ==> (is_alphanumeric_spec(#[trigger] s[i]) || s[i] == '-'
        || s[i] == '_' || s[i] == '.')
}

/// The value of the `oss_auth_org` cookie: the org slug when it is safe to
/// carry, else `none`.
pub fn org_slug_cookie_value(slug: Option<&str>) -> (r: String)
    ensures
        (slug matches Some(s) && slug_cookie_safe(s@)) ==> r@ == slug->0@,
        !(slug matches Some(s) && slug_cookie_safe(s@)) ==> r@ == "none"@,
{
    match slug {
        Some(s) => {
            let v = chars_of(s);
            if v.len() == 0 {
                return to_owned_string("none");
            }
            let mut i: usize = 0;
            while i < v.len()
                invariant
                    i <= v@.len(),
                    v@ == s@,
                    slug == Some(s),
                    forall|j: int| 0 <= j < i ==> (is_alphanumeric_spec(#[trigger] v@[j]) || v@[j] == '-'
                        || v@[j] == '_' || v@[j] == '.'),
                decreases v@.len() - i,
            {
                let c = v[i];
                if !(is_alphanumeric(c) || c == '-' || c == '_' || c == '.') {
                    assert(!(is_alphanumeric_spec(s@[i as int]) || s@[i as int] == '-' || s@[i as int] == '_'
                        || s@[i as int] == '.'));
                    assert(!slug_cookie_safe(s@));
                    return to_owned_string("none");
                }
                i = i + 1;
            }
            to_owned_string(s)
        },
        None => to_owned_string("none"),
    }
}

/// The `Set-Cookie` values a login sets before bouncing to the provider:
/// the nonce, the PKCE verifier (`none` without PKCE), the org slug cookie
/// value, and the `next` path when there is one.
pub fn login_cookies(
    domain: Option<&str>,
    nonce: &str,
    verifier: Option<&str>,
    org_value: &str,
    next: Option<&str>,
) -> (cs: Vec<String>)
    ensures
        cs@.len() == (if next is Some { 4int } else { 3int }),
        cs@[0]@ == "oss_auth_nonce"@ + "="@ + nonce@ + "; HttpOnly; SameSite=Lax; Path=/auth; Max-Age=600"@
            + domain_attr(opt_str(domain)),
        cs@[1]@ == "oss_auth_verifier"@ + "="@ + (match verifier {
            Some(v) => v@,
            None => "none"@,
        }) + "; HttpOnly; SameSite=Lax; Path=/auth; Max-Age=600"@ + domain_attr(opt_str(domain)),
        cs@[2]@ == "oss_auth_org"@ + "="@ + org_value@ + "; HttpOnly; SameSite=Lax; Path=/auth; Max-Age=600"@
            + domain_attr(opt_str(domain)),
        next matches Some(n) ==> cs@[3]@ == "oss_auth_next"@ + "="@ + n@
            + "; HttpOnly; SameSite=Lax; Path=/auth; Max-Age=600"@ + domain_attr(opt_str(domain)),
{
    let mut cs: Vec<String> = Vec::new();
    cs.push(auth_cookie(domain, "oss_auth_nonce", nonce));
    let v = match verifier {
        Some(v) => v,
        None => "none",
    };
    cs.push(auth_cookie(domain, "oss_auth_verifier", v));
    cs.push(auth_cookie(domain, "oss_auth_org", org_value));
    match next {
        Some(n) => {
            cs.push(auth_cookie(domain, "oss_auth_next", n));
        },
        None => {},
    }
    cs
}

/// The auth state a callback reads from its cookies.
#[derive(Debug, Clone, PartialEq, Eq)]
pub struct CookieAuthState {
    pub nonce: String,
    pub verifier: Option<String>,
    pub org_slug: Option<String>,
    pub next: Option<String>,
}

/// A cookie's value, unless it is the placeholder `none`.
pub open spec fn unless_none(v: Option<Seq<char>>) -> Option<Seq<char>> {
    match v {
        Some(x) => if x == "none"@ { None } else { Some(x) },
        None => None,
    }
}

/// The view of an optional string.
pub open spec fn opt_string(o: Option<String>) -> Option<Seq<char>> {
    match o {
        Some(s) => Some(s@),
        None => None,
    }
}

fn cookie_unless_none(header: &str, name: &str) -> (r: Option<String>)
    ensures
        opt_string(r) == unless_none(cookie_value(header@, name@)),
{
    match extract_cookie(header, name) {
        Some(v) => {
            if str_eq(v.as_str(), "none") {
                None
            } else {
                Some(v)
            }
        },
        None => None,
    }
}

/// Read the login's auth state from the callback's `Cookie` header (absent,
/// or not readable as text, when `None`). The nonce cookie is required;
/// `none` stands for no verifier and no org; `next` is kept only when it is
/// a same-origin path.
pub fn cookie_auth_state(cookie_header: Option<&str>) -> (r: Result<CookieAuthState, ApiError>)
    ensures
        match cookie_header {
            None => is_error(r, 400, "missing auth nonce cookie"@),
            Some(h) => match cookie_value(h@, "oss_auth_nonce"@) {
                None => is_error(r, 400, "missing auth nonce cookie"@),
                Some(n) => r matches Ok(st) && st.nonce@ == n && opt_string(st.verifier) == unless_none(
                    cookie_value(h@, "oss_auth_verifier"@),
                ) && opt_string(st.org_slug) == unless_none(cookie_value(h@, "oss_auth_org"@)) && opt_string(
                    st.next,
                ) == (match cookie_value(h@, "oss_auth_next"@) {
                    Some(x) => if next_ok(x) { Some(x) } else { None },
                    None => None,
                }),
            },
        },
{
    let h = match cookie_header {
        Some(h) => h,
        None => return Err(ApiError::BadRequest(to_owned_string("missing auth nonce cookie"))),
    };
    let nonce = match extract_cookie(h, "oss_auth_nonce") {
        Some(n) => n,
        None => return Err(ApiError::BadRequest(to_owned_string("missing auth nonce cookie"))),
    };
    let verifier = cookie_unless_none(h, "oss_auth_verifier");
    let org_slug = cookie_unless_none(h, "oss_auth_org");
    let next = match extract_cookie(h, "oss_auth_next") {
        Some(v) => sanitize_next(v.as_str()),
        None => None,
    };
    Ok(CookieAuthState { nonce, verifier, org_slug, next })
}

/// The nonce the login minted must come back in `state`.
pub fn check_nonce(expected: &str, nonce: &str) -> (r: Result<(), ApiError>)
    ensures
        expected@ == nonce@ ==> r is Ok,
        expected@ != nonce@ ==> is_error(r, 400, "nonce mismatch"@),
{
    if str_eq(expected, nonce) {
        Ok(())
    } else {
        Err(ApiError::BadRequest(to_owned_string("nonce mismatch")))
    }
}

/// The org a callback signs into: the subdomain's when there is one (it is
/// authoritative), else the one carried across the bounce.
pub fn callback_org_slug(subdomain_slug: Option<&str>, slug_from_state: Option<String>) -> (r: Option<String>)
    ensures
        subdomain_slug matches Some(s) ==> (r matches Some(v) && v@ == s@),
        subdomain_slug is None ==> r == slug_from_state,
{
    match subdomain_slug {
        Some(s) => Some(to_owned_string(s)),
        None => slug_from_state,
    }
}

/// The OAuth scopes asked of a provider: GitHub's user scopes, else the
/// OpenID Connect standard ones.
pub open spec fn scopes_spec(provider_key: Seq<char>) -> Seq<Seq<char>> {
    if provider_key == "github"@ {
        seq!["read:user"@, "user:email"@]
    } else {
        seq!["openid"@, "email"@, "profile"@]
    }
}

/// The OAuth scopes to request from `provider_key`.
pub fn scopes_for_provider(provider_key: &str) -> (v: Vec<String>)
    ensures
        crate::audit::string_views(v@) == scopes_spec(provider_key@),
{
    let mut v: Vec<String> = Vec::new();
    if str_eq(provider_key, "github") {
        v.push(to_owned_string("read:user"));
        v.push(to_owned_string("user:email"));
        proof {
            assert(crate::audit::string_views(v@) =~= seq!["read:user"@, "user:email"@]);
        }
    } else {
        v.push(to_owned_string("openid"));
        v.push(to_owned_string("email"));
        v.push(to_owned_string("profile"));
        proof {
            assert(crate::audit::string_views(v@) =~= seq!["openid"@, "email"@, "profile"@]);
        }
    }
    v
}

/// What an org's sign-in configuration holds for a provider.
#[derive(Debug, Clone, PartialEq, Eq)]
pub enum OrgCredentialLookup {
    /// The client id and secret to use.
    Found(String, String),
    /// The org has an IdP for the provider but switched it off.
    Disabled,
    /// Neither an IdP of the org nor managed sign-in covers the provider.
    NotConfigured,
}

/// The OAuth client credentials for a root-level login: the deployment's
/// own, when it has them for the provider.
pub fn root_credentials(provider_key: &str, env: Option<(String, String)>) -> (r: Result<(String, String), ApiError>)
    ensures
        env matches Some(c) ==> r == Ok::<(String, String), ApiError>(c),
        env is None ==> is_error(r, 404, "provider "@ + provider_key@ + " is not configured at the root level"@),
{
    match env {
        Some(c) => Ok(c),
        None => {
            let mut m = String::new();
            push_str(&mut m, "provider ");
            push_str(&mut m, provider_key);
            push_str(&mut m, " is not configured at the root level");
            Err(ApiError::NotFound(m))
        },
    }
}

/// The OAuth client credentials for a login to the org `slug`: `None` when
/// no org has that slug, else what the org's sign-in configuration holds.
/// The two refusals for a known org point an admin at different fixes.
pub fn org_credentials(provider_key: &str, slug: &str, lookup: Option<OrgCredentialLookup>) -> (r: Result<(String, String), ApiError>)
    ensures
        lookup is None ==> is_error(r, 404, "org not found: "@ + slug@),
        lookup matches Some(OrgCredentialLookup::Found(id, secret)) ==> r == Ok::<(String, String), ApiError>((id, secret)),
        lookup matches Some(OrgCredentialLookup::Disabled) ==> is_error(
            r,
            404,
            "provider "@ + provider_key@ + " is disabled for org "@ + slug@,
        ),
        lookup matches Some(OrgCredentialLookup::NotConfigured) ==> is_error(
            r,
            404,
            "provider "@ + provider_key@ + " not configured for org "@ + slug@,
        ),
{
    match lookup {
        None => {
            let mut m = String::new();
            push_str(&mut m, "org not found: ");
            push_str(&mut m, slug);
            Err(ApiError::NotFound(m))
        },
        Some(OrgCredentialLookup::Found(id, secret)) => Ok((id, secret)),
        Some(OrgCredentialLookup::Disabled) => {
            let mut m = String::new();
            push_str(&mut m, "provider ");
            push_str(&mut m, provider_key);
            push_str(&mut m, " is disabled for org ");
            push_str(&mut m, slug);
            Err(ApiError::NotFound(m))
        },
        Some(OrgCredentialLookup::NotConfigured) => {
            let mut m = String::new();
            push_str(&mut m, "provider ");
            push_str(&mut m, provider_key);
            push_str(&mut m, " not configured for org ");
            push_str(&mut m, slug);
            Err(ApiError::NotFound(m))
        },
    }
}

/// The redirect URI registered with providers: `<public url>/auth/callback/<provider>`.
pub fn callback_redirect_uri(public_url: &str, provider_key: &str) -> (r: String)
    ensures
        r@ == public_url@ + "/auth/callback/"@ + provider_key@,
{
    let mut s = String::new();
    push_str(&mut s, public_url);
    push_str(&mut s, "/auth/callback/");
    push_str(&mut s, provider_key);
    s
}

/// The characters after the last `c` in `s`, if `c` occurs.
pub open spec fn after_last(s: Seq<char>, c: char) -> Option<Seq<char>>
    decreases s.len(),
{
    if s.len() == 0 {
        None
    } else if s.last() == c {
        Some(Seq::empty())
    } else {
        match after_last(s.drop_last(), c) {
            Some(t) => Some(t.push(s.last())),
            None => None,
        }
    }
}

/// The characters after the last `c` in `s`, as `rsplit_once(c)` gives
/// its second half.
pub fn chars_after_last(s: &[char], c: char) -> (r: Option<Vec<char>>)
    ensures
        match after_last(s@, c) {
            Some(t) => r matches Some(v) && v@ == t,
            None => r is None,
        },
{
    let mut j: usize = s.len();
    proof {
        assert(s@.take(s@.len() as int) =~= s@);
        assert(s@.skip(s@.len() as int) =~= Seq::<char>::empty());
    }
    while j > 0 && s[j - 1] != c
        invariant
            j <= s@.len(),
            after_last(s@, c) == (match after_last(s@.take(j as int), c) {
                Some(t) => Some(t + s@.skip(j as int)),
                None => None,
            }),
        decreases j,
    {
        proof {
            let t = s@.take(j as int);
            assert(t.last() == s@[j - 1]);
            assert(t.drop_last() =~= s@.take(j - 1));
            match after_last(s@.take(j - 1), c) {
                Some(u) => {
                    assert(u.push(s@[j - 1]) + s@.skip(j as int) =~= u + s@.skip(j - 1));
                },
                None => {},
            }
        }
        j = j - 1;
    }
    if j == 0 {
        proof {
            assert(s@.take(0) =~= Seq::<char>::empty());
        }
        None
    } else {
        proof {
            let t = s@.take(j as int);
            assert(t.last() == s@[j - 1]);
            assert(Seq::<char>::empty() + s@.skip(j as int) =~= s@.skip(j as int));
        }
        Some(skip_chars(s, j))
    }
}

/// `http` or `https`, as the public URL is.
pub open spec fn scheme_of(public_url: Seq<char>) -> Seq<char> {
    if has_prefix(public_url, "https://"@) {
        "https"@
    } else {
        "http"@
    }
}

/// The `:<port>` of the public URL's host part (after its last `/`), or
/// nothing.
pub open spec fn port_suffix(public_url: Seq<char>) -> Seq<char> {
    let host = match after_last(public_url, '/') {
        Some(h) => h,
        None => public_url,
    };
    match after_last(host, ':') {
        Some(port) => ":"@ + port,
        None => Seq::empty(),
    }
}

/// `path` with a leading `/`.
pub open spec fn rooted(path: Seq<char>) -> Seq<char> {
    if has_prefix(path, "/"@) {
        path
    } else {
        "/"@ + path
    }
}

/// The URL of `path` on an org's app host: `<scheme>://<slug>.<apex><port><path>`.
pub open spec fn org_app_url_spec(app_host_suffix: Option<Seq<char>>, public_url: Seq<char>, slug: Seq<char>, path: Seq<char>) -> Option<Seq<char>> {
    match app_host_suffix {
        Some(apex) => Some(scheme_of(public_url) + "://"@ + slug + "."@ + apex + port_suffix(public_url) + rooted(path)),
        None => None,
    }
}

fn push_scheme(out: &mut String, public_url: &str)
    ensures
        final(out)@ == old(out)@ + scheme_of(public_url@),
{
    if str_starts_with(public_url, "https://") {
        push_str(out, "https");
    } else {
        push_str(out, "http");
    }
}

fn push_port_suffix(out: &mut String, public_url: &str)
    ensures
        final(out)@ == old(out)@ + port_suffix(public_url@),
{
    let u = chars_of(public_url);
    let host = match chars_after_last(u.as_slice(), '/') {
        Some(h) => h,
        None => u,
    };
    match chars_after_last(host.as_slice(), ':') {
        Some(port) => {
            push_str(out, ":");
            push_chars(out, port.as_slice());
        },
        None => {
            assert(old(out)@ + Seq::<char>::empty() =~= old(out)@);
        },
    }
}

/// The URL of `path` on the org's app host, when an app host suffix is
/// configured. Logins are sent there first: the auth-state cookies are set
/// for the app domain, and a login begun on another host would lose them.
pub fn org_app_url(app_host_suffix: Option<&str>, public_url: &str, slug: &str, path: &str) -> (r: Option<String>)
    ensures
        opt_string(r) == org_app_url_spec(opt_str(app_host_suffix), public_url@, slug@, path@),
{
    let apex = match app_host_suffix {
        Some(a) => a,
        None => return None,
    };
    let mut out = String::new();
    push_scheme(&mut out, public_url);
    push_str(&mut out, "://");
    push_str(&mut out, slug);
    push_str(&mut out, ".");
    push_str(&mut out, apex);
    push_port_suffix(&mut out, public_url);
    if str_starts_with(path, "/") {
        push_str(&mut out, path);
    } else {
        push_str(&mut out, "/");
        push_str(&mut out, path);
    }
    Some(out)
}

/// Where a login that began on an org's subdomain lands: `path` on that
/// org's app host, when the `oss_auth_org` cookie names an org and an app
/// host suffix is configured; else `path` as it is.
pub open spec fn absolute_redirect_spec(
    app_host_suffix: Option<Seq<char>>,
    public_url: Seq<char>,
    cookie_header: Option<Seq<char>>,
    path: Seq<char>,
) -> Seq<char> {
    let slug = match cookie_header {
        Some(h) => unless_none(cookie_value(h, "oss_auth_org"@)),
        None => None,
    };
    match slug {
        Some(s) => match org_app_url_spec(app_host_suffix, public_url, s, path) {
            Some(u) => u,
            None => path,
        },
        None => path,
    }
}

/// The absolute redirect back to the org a login started from.
pub fn absolute_redirect_for_org(
    app_host_suffix: Option<&str>,
    public_url: &str,
    cookie_header: Option<&str>,
    path: &str,
) -> (r: String)
    ensures
        r@ == absolute_redirect_spec(opt_str(app_host_suffix), public_url@, opt_str(cookie_header), path@),
{
    let slug = match cookie_header {
        Some(h) => cookie_unless_none(h, "oss_auth_org"),
        None => None,
    };
    match slug {
        Some(s) => match org_app_url(app_host_suffix, public_url, s.as_str(), path) {
            Some(u) => u,
            None => to_owned_string(path),
        },
        None => to_owned_string(path),
    }
}

/// Where the dashboard reloads to after switching org: the apex for a
/// personal org, the org's subdomain otherwise; without an app host suffix,
/// the dashboard URL given.
pub fn build_org_redirect(
    app_host_suffix: Option<&str>,
    public_url: &str,
    is_personal: bool,
    slug: &str,
    dashboard_root: &str,
) -> (r: String)
    ensures
        app_host_suffix is None ==> r@ == dashboard_root@,
        (app_host_suffix matches Some(apex) && is_personal) ==> r@ == scheme_of(public_url@) + "://"@ + app_host_suffix->0@ + "/"@,
        (app_host_suffix matches Some(apex) && !is_personal) ==> r@ == scheme_of(public_url@) + "://"@ + slug@ + "."@
            + app_host_suffix->0@ + "/"@,
{
    match app_host_suffix {
        Some(apex) => {
            let mut out = String::new();
            push_scheme(&mut out, public_url);
            push_str(&mut out, "://");
            if !is_personal {
                push_str(&mut out, slug);
                push_str(&mut out, ".");
            }
            push_str(&mut out, apex);
            push_str(&mut out, "/");
            out
        },
        None => to_owned_string(dashboard_root),
    }
}

/// The `Set-Cookie` values of a completed login: the session cookie, then
/// the clears of the four auth-state cookies.
pub fn post_login_cookies(domain: Option<&str>, token: &str) -> (r: Result<Vec<String>, ApiError>)
    ensures
        !header_value_ok(session_cookie_spec(opt_str(domain), token@)) ==> (r matches Err(ApiError::Internal(m))
            && m@ == "build session cookie: failed to parse header value"@),
        header_value_ok(session_cookie_spec(opt_str(domain), token@)) ==> (r matches Ok(cs) && cs@.len() == 5
            && cs@[0]@ == session_cookie_spec(opt_str(domain), token@)
            && cs@[1]@ == "oss_auth_nonce"@ + "=; HttpOnly; SameSite=Lax; Path=/auth; Max-Age=0"@ + domain_attr(opt_str(domain))
            && cs@[2]@ == "oss_auth_verifier"@ + "=; HttpOnly; SameSite=Lax; Path=/auth; Max-Age=0"@ + domain_attr(opt_str(domain))
            && cs@[3]@ == "oss_auth_org"@ + "=; HttpOnly; SameSite=Lax; Path=/auth; Max-Age=0"@ + domain_attr(opt_str(domain))
            && cs@[4]@ == "oss_auth_next"@ + "=; HttpOnly; SameSite=Lax; Path=/auth; Max-Age=0"@ + domain_attr(opt_str(domain))),
{
    let session = match session_cookie(domain, token) {
        Ok(c) => c,
        Err(e) => return Err(e),
    };
    let mut cs: Vec<String> = Vec::new();
    cs.push(session);
    cs.push(clear_auth_cookie(domain, "oss_auth_nonce"));
    cs.push(clear_auth_cookie(domain, "oss_auth_verifier"));
    cs.push(clear_auth_cookie(domain, "oss_auth_org"));
    cs.push(clear_auth_cookie(domain, "oss_auth_next"));
    Ok(cs)
}

/// Where a completed login sends the user: the `next` carried across the
/// bounce, else the dashboard, made absolute on the org's host when the
/// login began on one.
pub fn post_login_target(
    next: Option<String>,
    dashboard_url: &str,
    app_host_suffix: Option<&str>,
    public_url: &str,
    cookie_header: Option<&str>,
) -> (r: String)
    ensures
        r@ == absolute_redirect_spec(
            opt_str(app_host_suffix),
            public_url@,
            opt_str(cookie_header),
            match next {
                Some(n) => n@,
                None => dashboard_url@,
            },
        ),
{
    let path = match next {
        Some(n) => n,
        None => to_owned_string(dashboard_url),
    };
    absolute_redirect_for_org(app_host_suffix, public_url, cookie_header, path.as_str())
}

/// `rand::random::<[u8; 32]>()`: 32 bytes from the thread's generator.
/// Nothing is stated of their values.
#[verifier::external_body]
fn random_bytes32() -> [u8; 32] {
    rand::random()
}

/// A one-time preview handoff code: 32 random bytes in lowercase hex.
pub fn preview_handoff_code() -> (code: String)
    ensures
        exists|b: Seq<u8>| b.len() == 32 && code@ == hex_lower_spec(b),
{
    let buf = random_bytes32();
    let code = hex_encode(&buf);
    assert(buf@.len() == 32);
    code
}

/// Whether a byte is left as it is by URL encoding: ASCII letters and
/// digits, `-`, `.`, `_` and `~`.
pub open spec fn url_unreserved(b: u8) -> bool {
    (48 <= b <= 57) || (65 <= b <= 90) || (97 <= b <= 122) || b == 45 || b == 46 || b == 95 || b == 126
}

/// An uppercase hex digit.
pub open spec fn upper_hex_digit(n: int) -> char {
    seq!['0', '1', '2', '3', '4', '5', '6', '7', '8', '9', 'A', 'B', 'C', 'D', 'E', 'F'][n]
}

/// Percent-encoding of bytes: unreserved bytes as themselves, every other
/// byte as `%` and two uppercase hex digits.
pub open spec fn url_encode_spec(b: Seq<u8>) -> Seq<char>
    decreases b.len(),
{
    if b.len() == 0 {
        Seq::empty()
    } else {
        (if url_unreserved(b[0]) {
            seq![b[0] as char]
        } else {
            seq!['%', upper_hex_digit(b[0] as int / 16), upper_hex_digit(b[0] as int % 16)]
        }) + url_encode_spec(b.skip(1))
    }
}

/// `urlencoding::encode(s)`: percent-encodes every byte of `s`'s UTF-8 form
/// except ASCII alphanumerics and `-`, `_`, `.`, `~`.
#[verifier::external_body]
pub(crate) fn url_encode(s: &str) -> (r: String)
    ensures
        r@ == url_encode_spec(vstd::utf8::encode_utf8(s@)),
{
    urlencoding::encode(s).into_owned()
}

/// `base` without trailing slashes, then `path`, then `value`
/// percent-encoded.
pub fn url_link(base: &str, path: &str, value: &str) -> (r: String)
    ensures
        r@ == crate::billing::trim_end_char(base@, '/') + path@ + url_encode_spec(vstd::utf8::encode_utf8(value@)),
{
    let b = crate::billing::trim_end_char_exec(base, '/');
    let mut out = String::new();
    push_chars(&mut out, b.as_slice());
    push_str(&mut out, path);
    let enc = url_encode(value);
    push_str(&mut out, enc.as_str());
    out
}

/// Where the callback sends a preview login: the preview origin's handoff
/// page with the one-time code.
pub fn handoff_redirect(origin: &str, code: &str) -> (r: String)
    ensures
        r@ == crate::billing::trim_end_char(origin@, '/') + "/auth/handoff?code="@ + url_encode_spec(
            vstd::utf8::encode_utf8(code@),
        ),
{
    url_link(origin, "/auth/handoff?code=", code)
}

/// Where the preview lands after adopting its session: the stored `next`
/// when it is a same-origin path, else `/`.
pub fn handoff_next(next_path: Option<&str>) -> (r: String)
    ensures
        (next_path matches Some(n) && next_ok(n@)) ==> r@ == next_path->0@,
        !(next_path matches Some(n) && next_ok(n@)) ==> r@ == "/"@,
{
    match next_path {
        Some(n) => match sanitize_next(n) {
            Some(s) => s,
            None => to_owned_string("/"),
        },
        None => to_owned_string("/"),
    }
}

/// The host of a URL as `url::Url::parse(s)` then `host_str()` read it, or
/// the parse error's text.
pub uninterp spec fn url_host_spec(s: Seq<char>) -> Result<Option<Seq<char>>, Seq<char>>;

/// `url::Url::parse(s)` and its `host_str()`; on a parse error, the error's
/// display text.
#[verifier::external_body]
pub(crate) fn url_host(s: &str) -> (r: Result<Option<String>, String>)
    ensures
        match url_host_spec(s@) {
            Ok(Some(h)) => r matches Ok(Some(x)) && x@ == h,
            Ok(None) => r matches Ok(None),
            Err(e) => r matches Err(x) && x@ == e,
        },
{
    match url::Url::parse(s) {
        Ok(u) => Ok(u.host_str().map(|h| h.to_string())),
        Err(e) => Err(e.to_string()),
    }
}

/// ASCII lower case of a string, other characters kept.
pub open spec fn ascii_lowercase(s: Seq<char>) -> Seq<char> {
    s.map_values(|c: char| if 'A' <= c && c <= 'Z' { (((c as u8) + 32) as u8) as char } else { c })
}

/// `str::to_ascii_lowercase`.
pub fn to_ascii_lowercase(s: &str) -> (r: Vec<char>)
    ensures
        r@ == ascii_lowercase(s@),
{
    let v = chars_of(s);
    let mut out: Vec<char> = Vec::new();
    let mut i: usize = 0;
    while i < v.len()
        invariant
            i <= v@.len(),
            v@ == s@,
            out@ == ascii_lowercase(v@).take(i as int),
        decreases v@.len() - i,
    {
        let c = v[i];
        let l = if 'A' <= c && c <= 'Z' {
            ((c as u8) + 32) as char
        } else {
            c
        };
        proof {
            assert(ascii_lowercase(v@).take(i + 1) =~= ascii_lowercase(v@).take(i as int).push(l));
        }
        out.push(l);
        i = i + 1;
    }
    proof {
        assert(ascii_lowercase(v@).take(v@.len() as int) =~= ascii_lowercase(v@));
    }
    out
}

/// The checks before a preview handoff code is redeemed: the stored origin
/// must parse, its host (lower case, empty when it has none) must be the
/// host the request came to, and the origin must still be allowed.
pub open spec fn handoff_origin_spec(actual_host: Seq<char>, origin: Seq<char>, origin_allowed: bool) -> Result<(), (u16, Seq<char>)> {
    match url_host_spec(origin) {
        Err(e) => Err((500u16, "stored origin not parseable: "@ + e)),
        Ok(h) => {
            let host = match h {
                Some(x) => ascii_lowercase(x),
                None => Seq::empty(),
            };
            if actual_host != host {
                Err((400u16, "handoff origin mismatch"@))
            } else if !origin_allowed {
                Err((403u16, "preview origin not in allowlist"@))
            } else {
                Ok(())
            }
        },
    }
}

/// Check a preview handoff against the host it arrived at.
pub fn check_handoff_origin(actual_host: &str, origin: &str, origin_allowed: bool) -> (r: Result<(), ApiError>)
    ensures
        match handoff_origin_spec(actual_host@, origin@, origin_allowed) {
            Ok(()) => r is Ok,
            Err((code, m)) => is_error(r, code, m),
        },
{
    let host = match url_host(origin) {
        Err(e) => {
            let mut m = String::new();
            push_str(&mut m, "stored origin not parseable: ");
            push_str(&mut m, e.as_str());
            return Err(ApiError::Internal(m));
        },
        Ok(Some(h)) => to_ascii_lowercase(h.as_str()),
        Ok(None) => Vec::new(),
    };
    let actual = chars_of(actual_host);
    if !crate::text::chars_eq(actual.as_slice(), host.as_slice()) {
        return Err(ApiError::BadRequest(to_owned_string("handoff origin mismatch")));
    }
    if !origin_allowed {
        return Err(ApiError::Forbidden(to_owned_string("preview origin not in allowlist")));
    }
    Ok(())
}

/// The bytes of a base64url text without padding, as the `base64` crate's
/// `URL_SAFE_NO_PAD` engine decodes it; `None` when it does not decode.
pub uninterp spec fn b64url_decode_spec(s: Seq<char>) -> Option<Seq<u8>>;

/// `base64::engine::general_purpose::URL_SAFE_NO_PAD.decode(s)`.
#[verifier::external_body]
fn b64url_decode(s: &str) -> (r: Option<Vec<u8>>)
    ensures
        match b64url_decode_spec(s@) {
            Some(b) => r matches Some(v) && v@ == b,
            None => r is None,
        },
{
    base64::engine::general_purpose::URL_SAFE_NO_PAD.decode(s).ok()
}

/// The payload bytes of an ID token: its second `.`-separated segment,
/// base64url-decoded. `None` when there is no such segment or it does not
/// decode.
pub fn id_token_payload(id_token: &str) -> (r: Option<Vec<u8>>)
    ensures
        crate::text::split_spec(id_token@, '.').len() < 2 ==> r is None,
        crate::text::split_spec(id_token@, '.').len() >= 2 ==> match b64url_decode_spec(
            crate::text::split_spec(id_token@, '.')[1],
        ) {
            Some(b) => r matches Some(v) && v@ == b,
            None => r is None,
        },
{
    let s = chars_of(id_token);
    let parts = crate::text::split_chars(s.as_slice(), '.');
    if parts.len() < 2 {
        return None;
    }
    proof {
        assert(crate::text::views(parts@)[1] == parts@[1]@);
    }
    let seg = string_from_chars(parts[1].as_slice());
    b64url_decode(seg.as_str())
}

/// Whether an ID token's claims are trusted against the login nonce: a
/// missing nonce on either side is tolerated, a different one voids them.
pub fn id_token_nonce_ok(expected: Option<&str>, actual: Option<&str>) -> (r: bool)
    ensures
        r == !(expected is Some && actual is Some && expected->0@ != actual->0@),
{
    match (expected, actual) {
        (Some(e), Some(a)) => str_eq(e, a),
        _ => true,
    }
}

/// The claims an ID token contributes, as key and JSON text of the value:
/// those of its payload (the second `.`-separated segment, base64url
/// decoded) when that is a JSON object, unless the login expects a nonce
/// and the payload carries a different string `nonce`; a token that cannot
/// be read, or fails the nonce, contributes nothing.
pub open spec fn id_token_claims_spec(id_token: Seq<char>, expected_nonce: Option<Seq<char>>) -> Seq<
    (Seq<char>, Seq<char>),
> {
    let parts = crate::text::split_spec(id_token, '.');
    if parts.len() < 2 {
        Seq::empty()
    } else {
        match b64url_decode_spec(parts[1]) {
            None => Seq::empty(),
            Some(payload) => match crate::json::json_object_entries_spec(payload) {
                None => Seq::empty(),
                Some(claims) => match expected_nonce {
                    None => claims,
                    Some(e) => match crate::stripe_json::leaf_at(
                        payload,
                        seq![crate::json::key_step("nonce"@)],
                    ).0 {
                        Some(a) => if a != e {
                            Seq::empty()
                        } else {
                            claims
                        },
                        None => claims,
                    },
                },
            },
        }
    }
}

/// The claims of an ID token, checked against the login nonce.
pub fn id_token_claims(id_token: &str, expected_nonce: Option<&str>) -> (r: Vec<(String, String)>)
    ensures
        crate::json::entry_views(r@) == id_token_claims_spec(id_token@, crate::cookies::opt_str(expected_nonce)),
{
    let payload = match id_token_payload(id_token) {
        Some(p) => p,
        None => {
            let r: Vec<(String, String)> = Vec::new();
            proof {
                assert(crate::json::entry_views(r@) =~= Seq::<(Seq<char>, Seq<char>)>::empty());
            }
            return r;
        },
    };
    let claims = match crate::json::json_object_entries(payload.as_slice()) {
        Some(c) => c,
        None => {
            let r: Vec<(String, String)> = Vec::new();
            proof {
                assert(crate::json::entry_views(r@) =~= Seq::<(Seq<char>, Seq<char>)>::empty());
            }
            return r;
        },
    };
    if let Some(expected) = expected_nonce {
        let p = crate::json::key_path("nonce");
        let mut ps: Vec<Vec<crate::json::JsonStep>> = Vec::new();
        ps.push(p);
        proof {
            assert(ps@[0] == p);
            assert(crate::json::path_view(ps@[0]) =~= seq![crate::json::key_step("nonce"@)]);
        }
        let actual: Option<String> = match crate::json::json_lookup(payload.as_slice(), ps.as_slice()) {
            Ok(v) => match &v[0].text {
                Some(a) => Some(to_owned_string(a.as_str())),
                None => None,
            },
            Err(_) => None,
        };
        let a_str: Option<&str> = match &actual {
            Some(a) => Some(a.as_str()),
            None => None,
        };
        if !id_token_nonce_ok(Some(expected), a_str) {
            let r: Vec<(String, String)> = Vec::new();
            proof {
                assert(crate::json::entry_views(r@) =~= Seq::<(Seq<char>, Seq<char>)>::empty());
            }
            return r;
        }
    }
    claims
}

} // verus!
