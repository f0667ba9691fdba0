//! Cookies of the login flow: the short-lived `oss_auth_*` state cookies,
//! the session cookie, reading a cookie back from a `Cookie` header, and the
//! check that keeps `?next=` a same-origin path.

use vstd::prelude::*;
use vstd::string::StringSliceAdditionalSpecFns;
use crate::error::ApiError;
use crate::text::{
    chars_contain, chars_of, chars_start_with, has_prefix, push_chars, push_str, skip_chars, split_chars,
    split_spec, string_from_chars, to_owned_string, trim_chars, trim_spec, views,
};

verus! {

/// `; Domain=<d>` when a cookie domain is configured, else nothing.
pub open spec fn domain_attr(domain: Option<Seq<char>>) -> Seq<char> {
    match domain {
        Some(d) => "; Domain="@ + d,
        None => Seq::empty(),
    }
}

fn push_domain(out: &mut String, domain: Option<&str>)
    ensures
        final(out)@ == old(out)@ + domain_attr(match domain { Some(d) => Some(d@), None => None }),
{
    match domain {
        Some(d) => {
            push_str(out, "; Domain=");
            push_str(out, d);
        },
        None => {
            assert(old(out)@ + Seq::<char>::empty() =~= old(out)@);
        },
    }
}

/// The view of an optional string slice.
pub open spec fn opt_str(o: Option<&str>) -> Option<Seq<char>> {
    match o {
        Some(s) => Some(s@),
        None => None,
    }
}

/// A `Set-Cookie` value for one of the auth-state cookies (nonce, PKCE
/// verifier, org slug, `next`): ten minutes, scoped to `/auth`, under the
/// session cookie's domain when one is configured so that the login host
/// and the callback host share it.
pub fn auth_cookie(domain: Option<&str>, name: &str, value: &str) -> (c: String)
    ensures
        c@ == name@ + "="@ + value@ + "; HttpOnly; SameSite=Lax; Path=/auth; Max-Age=600"@ + domain_attr(
            opt_str(domain),
        ),
{
    let mut out = String::new();
    push_str(&mut out, name);
    push_str(&mut out, "=");
    push_str(&mut out, value);
    push_str(&mut out, "; HttpOnly; SameSite=Lax; Path=/auth; Max-Age=600");
    push_domain(&mut out, domain);
    out
}

/// The `Set-Cookie` value that clears an auth-state cookie: the same path
/// and domain, no value, no lifetime.
pub fn clear_auth_cookie(domain: Option<&str>, name: &str) -> (c: String)
    ensures
        c@ == name@ + "=; HttpOnly; SameSite=Lax; Path=/auth; Max-Age=0"@ + domain_attr(opt_str(domain)),
{
    let mut out = String::new();
    push_str(&mut out, name);
    push_str(&mut out, "=; HttpOnly; SameSite=Lax; Path=/auth; Max-Age=0");
    push_domain(&mut out, domain);
    out
}

/// Whether a byte may stand in an HTTP header value: visible ASCII, tab,
/// or any byte from 128 up; not the other control bytes nor DEL.
pub open spec fn header_byte_ok(b: u8) -> bool {
    (b >= 32 && b != 127) || b == 9
}

/// Whether a string can be sent as an HTTP header value.
pub open spec fn header_value_ok(s: Seq<char>) -> bool {
    forall|i: int| 0 <= i < vstd::utf8::encode_utf8(s).len() ==> header_byte_ok(
        #[trigger] vstd::utf8::encode_utf8(s)[i],
    )
}

/// `axum::http::HeaderValue::from_str(s).is_ok()`: the value is accepted
/// exactly when every byte of it is a header byte (http's `is_valid`).
#[verifier::external_body]
fn header_value_valid(s: &str) -> (r: bool)
    ensures
        r == header_value_ok(s@),
{
    axum::http::HeaderValue::from_str(s).is_ok()
}

/// The `Set-Cookie` value of a session token: a week, the whole site,
/// under the configured cookie domain.
pub open spec fn session_cookie_spec(domain: Option<Seq<char>>, token: Seq<char>) -> Seq<char> {
    "oss_session="@ + token + "; HttpOnly; SameSite=Lax; Path=/; Max-Age=604800"@ + domain_attr(domain)
}

/// The session cookie for `token`; refused when the text cannot be sent as
/// a header value.
pub fn session_cookie(domain: Option<&str>, token: &str) -> (r: Result<String, ApiError>)
    ensures
        header_value_ok(session_cookie_spec(opt_str(domain), token@)) ==> (r matches Ok(c) && c@
            == session_cookie_spec(opt_str(domain), token@)),
        !header_value_ok(session_cookie_spec(opt_str(domain), token@)) ==> (r matches Err(
            ApiError::Internal(m),
        ) && m@ == "build session cookie: failed to parse header value"@),
{
    let mut value = String::new();
    push_str(&mut value, "oss_session=");
    push_str(&mut value, token);
    push_str(&mut value, "; HttpOnly; SameSite=Lax; Path=/; Max-Age=604800");
    push_domain(&mut value, domain);
    if header_value_valid(value.as_str()) {
        Ok(value)
    } else {
        Err(ApiError::Internal(to_owned_string("build session cookie: failed to parse header value")))
    }
}

/// The host-only session cookie a preview deployment adopts after the
/// handoff: no domain (the preview's parent domain is shared by tenants),
/// and `Secure`.
pub open spec fn handoff_cookie_spec(token: Seq<char>) -> Seq<char> {
    "oss_session="@ + token + "; HttpOnly; SameSite=Lax; Path=/; Secure; Max-Age=604800"@
}

/// The preview's session cookie for `token`; refused when the text cannot
/// be sent as a header value.
pub fn handoff_cookie(token: &str) -> (r: Result<String, ApiError>)
    ensures
        header_value_ok(handoff_cookie_spec(token@)) ==> (r matches Ok(c) && c@ == handoff_cookie_spec(
            token@,
        )),
        !header_value_ok(handoff_cookie_spec(token@)) ==> (r matches Err(ApiError::Internal(m)) && m@
            == "build session cookie: failed to parse header value"@),
{
    let mut value = String::new();
    push_str(&mut value, "oss_session=");
    push_str(&mut value, token);
    push_str(&mut value, "; HttpOnly; SameSite=Lax; Path=/; Secure; Max-Age=604800");
    if header_value_valid(value.as_str()) {
        Ok(value)
    } else {
        Err(ApiError::Internal(to_owned_string("build session cookie: failed to parse header value")))
    }
}

/// The cookie that ends a session: empty, expired, with the session
/// cookie's path and domain.
pub fn clear_session_cookie(domain: Option<&str>) -> (c: String)
    ensures
        c@ == "oss_session=; HttpOnly; SameSite=Lax; Path=/; Max-Age=0"@ + domain_attr(opt_str(domain)),
{
    let mut out = String::new();
    push_str(&mut out, "oss_session=; HttpOnly; SameSite=Lax; Path=/; Max-Age=0");
    push_domain(&mut out, domain);
    out
}

/// A `next` target is kept only when it is a path on this origin: it starts
/// with `/` but not `//`, and holds no line break (no header injection).
pub open spec fn next_ok(raw: Seq<char>) -> bool {
    &&& has_prefix(raw, seq!['/'])
    &&& !has_prefix(raw, seq!['/', '/'])
    &&& !raw.contains('\r')
    &&& !raw.contains('\n')
}

/// Keep `raw` as a post-login redirect only when it is a same-origin path.
pub fn sanitize_next(raw: &str) -> (r: Option<String>)
    ensures
        next_ok(raw@) ==> (r matches Some(s) && s@ == raw@),
        !next_ok(raw@) ==> r is None,
{
    let v = chars_of(raw);
    let one: [char; 1] = ['/'];
    let two: [char; 2] = ['/', '/'];
    assert(one@ =~= seq!['/']);
    assert(two@ =~= seq!['/', '/']);
    if chars_start_with(v.as_slice(), &one) && !chars_start_with(v.as_slice(), &two) && !chars_contain(
        v.as_slice(),
        '\r',
    ) && !chars_contain(v.as_slice(), '\n') {
        Some(to_owned_string(raw))
    } else {
        None
    }
}

/// The value of the first cookie piece (trimmed) that starts with
/// `name=`.
pub open spec fn find_cookie(pieces: Seq<Seq<char>>, name: Seq<char>) -> Option<Seq<char>>
    decreases pieces.len(),
{
    if pieces.len() == 0 {
        None
    } else if has_prefix(trim_spec(pieces[0]), name + seq!['=']) {
        Some(trim_spec(pieces[0]).skip(name.len() as int + 1))
    } else {
        find_cookie(pieces.skip(1), name)
    }
}

/// The value of cookie `name` in a `Cookie` header.
pub open spec fn cookie_value(header: Seq<char>, name: Seq<char>) -> Option<Seq<char>> {
    find_cookie(split_spec(header, ';'), name)
}

/// Read cookie `name` out of a `Cookie` header: the pairs are split on `;`
/// and trimmed, and the first one named `name` wins.
pub fn extract_cookie(cookie_header: &str, name: &str) -> (r: Option<String>)
    ensures
        match cookie_value(cookie_header@, name@) {
            Some(v) => r matches Some(s) && s@ == v,
            None => r is None,
        },
{
    let h = chars_of(cookie_header);
    let parts = split_chars(h.as_slice(), ';');
    let mut prefix = chars_of(name);
    prefix.push('=');
    let ghost pv = views(parts@);
    let mut i: usize = 0;
    proof {
        assert(pv.skip(0) =~= pv);
    }
    while i < parts.len()
        invariant
            i <= parts@.len(),
            pv == views(parts@),
            pv == split_spec(cookie_header@, ';'),
            h@ == cookie_header@,
            prefix@ == name@ + seq!['='],
            find_cookie(pv, name@) == find_cookie(pv.skip(i as int), name@),
        decreases parts@.len() - i,
    {
        proof {
            assert(pv.skip(i as int)[0] == parts@[i as int]@);
            assert(pv.skip(i as int).skip(1) =~= pv.skip(i + 1));
        }
        let p = trim_chars(parts[i].as_slice());
        if chars_start_with(p.as_slice(), prefix.as_slice()) {
            let v = skip_chars(p.as_slice(), prefix.len());
            return Some(string_from_chars(v.as_slice()));
        }
        i = i + 1;
    }
    None
}

/// One cookie as a browser sends it: `name=value`.
pub open spec fn cookie_pair(p: (Seq<char>, Seq<char>)) -> Seq<char> {
    p.0 + seq!['='] + p.1
}

/// The `Cookie` header a browser sends for `pairs`: the pairs joined with
/// `; `.
pub open spec fn cookie_header(pairs: Seq<(Seq<char>, Seq<char>)>) -> Seq<char>
    decreases pairs.len(),
{
    if pairs.len() == 0 {
        Seq::empty()
    } else if pairs.len() == 1 {
        cookie_pair(pairs[0])
    } else {
        cookie_header(pairs.drop_last()) + seq![';', ' '] + cookie_pair(pairs.last())
    }
}

/// The value of the first pair named `name`.
pub open spec fn first_named(pairs: Seq<(Seq<char>, Seq<char>)>, name: Seq<char>) -> Option<Seq<char>>
    decreases pairs.len(),
{
    if pairs.len() == 0 {
        None
    } else {
        match first_named(pairs.drop_last(), name) {
            Some(v) => Some(v),
            None => if pairs.last().0 == name {
                Some(pairs.last().1)
            } else {
                None
            },
        }
    }
}

/// A cookie a server can set and read back: its name holds neither `;`
/// nor `=` and does not start with white space; its value holds no `;`
/// and does not end with white space.
pub open spec fn cookie_text_ok(p: (Seq<char>, Seq<char>)) -> bool {
    &&& !p.0.contains(';')
    &&& !p.0.contains('=')
    &&& !p.1.contains(';')
    &&& (p.0.len() > 0 ==> !crate::text::is_whitespace_spec(p.0[0]))
    &&& (p.1.len() > 0 ==> !crate::text::is_whitespace_spec(p.1.last()))
}

/// The pieces the header of `pairs` splits into on `;`.
pub open spec fn cookie_pieces(pairs: Seq<(Seq<char>, Seq<char>)>) -> Seq<Seq<char>>
    decreases pairs.len(),
{
    if pairs.len() <= 1 {
        seq![cookie_header(pairs)]
    } else {
        cookie_pieces(pairs.drop_last()).push(seq![' '] + cookie_pair(pairs.last()))
    }
}

proof fn lemma_no_char_concat(a: Seq<char>, b: Seq<char>, c: char)
    requires
        !a.contains(c),
        !b.contains(c),
    ensures
        !(a + b).contains(c),
{
    if (a + b).contains(c) {
        let k = choose|k: int| 0 <= k < (a + b).len() && (a + b)[k] == c;
        if k < a.len() {
            assert(a[k] == c);
        } else {
            assert(b[k - a.len()] == c);
        }
    }
}

proof fn lemma_pair_plain(p: (Seq<char>, Seq<char>))
    requires
        cookie_text_ok(p),
    ensures
        forall|i: int| 0 <= i < cookie_pair(p).len() ==> cookie_pair(p)[i] != ';',
        forall|i: int| 0 <= i < (seq![' '] + cookie_pair(p)).len() ==> (seq![' '] + cookie_pair(p))[i] != ';',
{
    lemma_no_char_concat(p.0, seq!['='], ';');
    lemma_no_char_concat(p.0 + seq!['='], p.1, ';');
    lemma_no_char_concat(seq![' '], cookie_pair(p), ';');
    assert forall|i: int| 0 <= i < cookie_pair(p).len() implies cookie_pair(p)[i] != ';' by {
        assert(!cookie_pair(p).contains(';'));
    }
    assert forall|i: int| 0 <= i < (seq![' '] + cookie_pair(p)).len() implies (seq![' '] + cookie_pair(p))[i]
        != ';' by {
        assert(!(seq![' '] + cookie_pair(p)).contains(';'));
    }
}

proof fn lemma_split_header(pairs: Seq<(Seq<char>, Seq<char>)>)
    requires
        forall|i: int| 0 <= i < pairs.len() ==> cookie_text_ok(#[trigger] pairs[i]),
    ensures
        split_spec(cookie_header(pairs), ';') == cookie_pieces(pairs),
    decreases pairs.len(),
{
    let e = Seq::<char>::empty();
    if pairs.len() == 0 {
        assert(split_spec(e, ';') == seq![e]);
    } else if pairs.len() == 1 {
        lemma_pair_plain(pairs[0]);
        crate::text::lemma_split_append_plain(e, cookie_pair(pairs[0]), ';');
        assert(e + cookie_pair(pairs[0]) =~= cookie_pair(pairs[0]));
        assert(split_spec(e, ';') == seq![e]);
        assert(e + cookie_pair(pairs[0]) =~= cookie_pair(pairs[0]));
        assert(split_spec(cookie_pair(pairs[0]), ';') =~= seq![cookie_pair(pairs[0])]);
    } else {
        let init = pairs.drop_last();
        assert forall|i: int| 0 <= i < init.len() implies cookie_text_ok(#[trigger] init[i]) by {
            assert(init[i] == pairs[i]);
        }
        lemma_split_header(init);
        assert(cookie_text_ok(pairs[pairs.len() - 1]));
        lemma_pair_plain(pairs.last());
        let h = cookie_header(init);
        let x = h + seq![';'];
        let b = seq![' '] + cookie_pair(pairs.last());
        assert(cookie_header(pairs) =~= x + b);
        assert(x.drop_last() =~= h);
        assert(x.last() == ';');
        crate::text::lemma_split_nonempty(h, ';');
        assert(split_spec(x, ';') == split_spec(h, ';').push(e));
        crate::text::lemma_split_append_plain(x, b, ';');
        assert(e + b =~= b);
        assert(split_spec(x + b, ';') =~= cookie_pieces(init).push(b));
    }
}

proof fn lemma_find_cookie_push(ps: Seq<Seq<char>>, q: Seq<char>, name: Seq<char>)
    ensures
        find_cookie(ps.push(q), name) == (match find_cookie(ps, name) {
            Some(v) => Some(v),
            None => find_cookie(seq![q], name),
        }),
    decreases ps.len(),
{
    if ps.len() == 0 {
        assert(ps.push(q) =~= seq![q]);
    } else {
        assert(ps.push(q)[0] == ps[0]);
        assert(ps.push(q).skip(1) =~= ps.skip(1).push(q));
        lemma_find_cookie_push(ps.skip(1), q, name);
    }
}

proof fn lemma_trim_piece(p: (Seq<char>, Seq<char>), lead: bool)
    requires
        cookie_text_ok(p),
    ensures
        trim_spec(if lead { seq![' '] + cookie_pair(p) } else { cookie_pair(p) }) == cookie_pair(p),
{
    let x = cookie_pair(p);
    assert(x.len() > 0);
    if p.0.len() > 0 {
        assert(x[0] == p.0[0]);
    } else {
        assert(x[0] == '=');
    }
    if p.1.len() > 0 {
        assert(x.last() == p.1.last());
    } else {
        assert(x.last() == '=');
    }
    assert(crate::text::trim_start_spec(x) == x);
    assert(crate::text::trim_end_spec(x) == x);
    if lead {
        let y = seq![' '] + x;
        assert(y.skip(1) =~= x);
        assert(crate::text::trim_start_spec(y) == crate::text::trim_start_spec(x));
    }
}

proof fn lemma_pair_prefix(p: (Seq<char>, Seq<char>), name: Seq<char>)
    requires
        cookie_text_ok(p),
        !name.contains('='),
    ensures
        has_prefix(cookie_pair(p), name + seq!['=']) <==> p.0 == name,
        p.0 == name ==> cookie_pair(p).skip(name.len() as int + 1) == p.1,
{
    let x = cookie_pair(p);
    let pre = name + seq!['='];
    if p.0 == name {
        assert(x.take(pre.len() as int) =~= pre);
        assert(x.skip(name.len() as int + 1) =~= p.1);
    }
    if has_prefix(x, pre) {
        if p.0.len() > name.len() {
            assert(x[name.len() as int] == p.0[name.len() as int]);
            assert(x.take(pre.len() as int)[name.len() as int] == '=');
            assert(p.0.contains('='));
        } else if p.0.len() < name.len() {
            assert(x[p.0.len() as int] == '=');
            assert(x.take(pre.len() as int)[p.0.len() as int] == name[p.0.len() as int]);
            assert(name.contains('='));
        } else {
            assert forall|i: int| 0 <= i < name.len() implies p.0[i] == name[i] by {
                assert(x[i] == p.0[i]);
                assert(x.take(pre.len() as int)[i] == pre[i]);
            }
            assert(p.0 =~= name);
        }
    }
}

/// What a browser sends back is what the server set: in a `Cookie` header
/// made of `name=value` pairs joined with `; `, the value read for a name
/// is that of the first pair with that name, and none when no pair has it.
/// Names hold neither `;` nor `=`, values no `;`, and neither has white
/// space where the trim would take it.
pub proof fn law_cookie_read_back(pairs: Seq<(Seq<char>, Seq<char>)>, name: Seq<char>)
    requires
        forall|i: int| 0 <= i < pairs.len() ==> cookie_text_ok(#[trigger] pairs[i]),
        !name.contains('='),
    ensures
        cookie_value(cookie_header(pairs), name) == first_named(pairs, name),
    decreases pairs.len(),
{
    lemma_split_header(pairs);
    if pairs.len() == 0 {
        let e = Seq::<char>::empty();
        assert(cookie_pieces(pairs) == seq![e]);
        assert(trim_spec(e) == e);
        assert(seq![e].skip(1) =~= Seq::<Seq<char>>::empty());
    } else if pairs.len() == 1 {
        let p = pairs[0];
        lemma_trim_piece(p, false);
        lemma_pair_prefix(p, name);
        assert(pairs.drop_last() =~= Seq::<(Seq<char>, Seq<char>)>::empty());
        assert(seq![cookie_pair(p)].skip(1) =~= Seq::<Seq<char>>::empty());
        assert(pairs.last() == p);
        assert(cookie_pieces(pairs) == seq![cookie_pair(p)]);
        assert(find_cookie(Seq::<Seq<char>>::empty(), name) is None);
        assert(first_named(Seq::<(Seq<char>, Seq<char>)>::empty(), name) is None);
        assert(first_named(pairs, name) == (if p.0 == name { Some(p.1) } else { None::<Seq<char>> }));
    } else {
        let init = pairs.drop_last();
        assert forall|i: int| 0 <= i < init.len() implies cookie_text_ok(#[trigger] init[i]) by {
            assert(init[i] == pairs[i]);
        }
        law_cookie_read_back(init, name);
        lemma_split_header(init);
        let p = pairs.last();
        assert(cookie_text_ok(pairs[pairs.len() - 1]));
        let q = seq![' '] + cookie_pair(p);
        lemma_find_cookie_push(cookie_pieces(init), q, name);
        lemma_trim_piece(p, true);
        lemma_pair_prefix(p, name);
        assert(seq![q][0] == q);
        assert(seq![q].skip(1) =~= Seq::<Seq<char>>::empty());
        assert(cookie_pieces(pairs) == cookie_pieces(init).push(q));
        assert(find_cookie(cookie_pieces(init), name) == first_named(init, name));
        assert(find_cookie(Seq::<Seq<char>>::empty(), name) is None);
        assert(find_cookie(seq![q], name) == (if p.0 == name { Some(p.1) } else { None::<Seq<char>> }));
        assert(first_named(pairs, name) == (match first_named(init, name) {
            Some(v) => Some(v),
            None => if p.0 == name { Some(p.1) } else { None::<Seq<char>> },
        }));
    }
}

} // verus!
