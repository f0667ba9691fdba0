//! Minimal server-rendered pages for the OAuth connect gate. Every piece of
//! caller-controlled text goes through [`html_escape`] before it is placed in
//! markup.

use vstd::prelude::*;
use crate::text::{push_char, push_chars, push_str, to_owned_string};

verus! {

/// The replacement text for one character.
pub open spec fn escape_char_spec(c: char) -> Seq<char> {
    if c == '&' {
        seq!['&', 'a', 'm', 'p', ';']
    } else if c == '<' {
        seq!['&', 'l', 't', ';']
    } else if c == '>' {
        seq!['&', 'g', 't', ';']
    } else if c == '"' {
        seq!['&', 'q', 'u', 'o', 't', ';']
    } else if c == '\'' {
        seq!['&', '#', 'x', '2', '7', ';']
    } else {
        seq![c]
    }
}

/// `s` with each of `& < > " '` replaced by its entity.
pub open spec fn html_escape_spec(s: Seq<char>) -> Seq<char>
    decreases s.len(),
{
    if s.len() == 0 {
        Seq::empty()
    } else {
        html_escape_spec(s.drop_last()) + escape_char_spec(s.last())
    }
}

/// Characters that must never appear unescaped in rendered markup.
pub open spec fn is_markup_char(c: char) -> bool {
    c == '<' || c == '>' || c == '"' || c == '\''
}

fn push_escaped(out: &mut String, c: char)
    ensures
        final(out)@ == old(out)@ + escape_char_spec(c),
{
    if c == '&' {
        push_chars(out, &['&', 'a', 'm', 'p', ';']);
    } else if c == '<' {
        push_chars(out, &['&', 'l', 't', ';']);
    } else if c == '>' {
        push_chars(out, &['&', 'g', 't', ';']);
    } else if c == '"' {
        push_chars(out, &['&', 'q', 'u', 'o', 't', ';']);
    } else if c == '\'' {
        push_chars(out, &['&', '#', 'x', '2', '7', ';']);
    } else {
        push_char(out, c);
        assert(old(out)@.push(c) =~= old(out)@ + seq![c]);
    }
}

/// Escape `input` for interpolation into HTML text or a quoted attribute.
pub fn html_escape(input: &str) -> (out: String)
    ensures
        out@ == html_escape_spec(input@),
{
    let mut out = String::new();
    for c in it: input.chars()
        invariant
            it.seq() == input@,
            out@ == html_escape_spec(it.seq().take(it.index() as int)),
    {
        proof {
            let pre = it.seq().take(it.index() + 1);
            assert(pre.drop_last() =~= it.seq().take(it.index() as int));
            assert(pre.last() == c);
        }
        push_escaped(&mut out, c);
    }
    proof {
        assert(input@.take(input@.len() as int) =~= input@);
    }
    out
}

/// The escaped text holds none of `< > " '`: escaping leaves no way to open
/// a tag or close an attribute.
pub proof fn lemma_escape_has_no_markup(s: Seq<char>)
    ensures
        forall|i: int| 0 <= i < html_escape_spec(s).len() ==> !is_markup_char(
            #[trigger] html_escape_spec(s)[i],
        ),
    decreases s.len(),
{
    if s.len() > 0 {
        lemma_escape_has_no_markup(s.drop_last());
        let a = html_escape_spec(s.drop_last());
        let b = escape_char_spec(s.last());
        assert forall|i: int| 0 <= i < html_escape_spec(s).len() implies !is_markup_char(
            #[trigger] html_escape_spec(s)[i],
        ) by {
            if i >= a.len() {
                assert(html_escape_spec(s)[i] == b[i - a.len()]);
            } else {
                assert(html_escape_spec(s)[i] == a[i]);
            }
        }
    }
}

/// Escaping distributes over concatenation.
pub proof fn lemma_escape_concat(a: Seq<char>, b: Seq<char>)
    ensures
        html_escape_spec(a + b) == html_escape_spec(a) + html_escape_spec(b),
    decreases b.len(),
{
    if b.len() == 0 {
        assert(a + b =~= a);
        assert(html_escape_spec(a) + html_escape_spec(b) =~= html_escape_spec(a));
    } else {
        lemma_escape_concat(a, b.drop_last());
        assert((a + b).drop_last() =~= a + b.drop_last());
        assert((a + b).last() == b.last());
        assert(html_escape_spec(a + b) == html_escape_spec(a + b.drop_last()) + escape_char_spec(b.last()));
        assert(html_escape_spec(a) + html_escape_spec(b) =~= html_escape_spec(a) + html_escape_spec(b.drop_last()) + escape_char_spec(b.last()));
    }
}

/// Text without any of `& < > " '` is left as it is.
pub proof fn lemma_escape_identity_on_plain_text(s: Seq<char>)
    requires
        forall|i: int| 0 <= i < s.len() ==> !is_markup_char(#[trigger] s[i]) && s[i] != '&',
    ensures
        html_escape_spec(s) == s,
    decreases s.len(),
{
    if s.len() > 0 {
        lemma_escape_identity_on_plain_text(s.drop_last());
        assert(s.drop_last().push(s.last()) =~= s);
        assert(s[s.len() - 1] == s.last());
        assert(s.drop_last() + seq![s.last()] =~= s);
    }
}


/// A rendered page: the HTTP status and the HTML body.
pub struct HtmlPage {
    pub status: u16,
    pub body: String,
}

/// Page shown when an OAuth link is unknown, used or expired (status 410).
/// `msg` is escaped before it is placed in the body.
pub fn gone_html(msg: &str) -> (page: HtmlPage)
    ensures
        page.status == 410,
        page.body@ == "<!doctype html><meta charset=utf-8><title>OAuth link unavailable</title><body style='font-family:system-ui;max-width:480px;margin:4rem auto;padding:0 1rem'><h1>Link unavailable</h1><p>"@
            + html_escape_spec(msg@) + "</p></body>"@,
{
    let mut body = to_owned_string(
        "<!doctype html><meta charset=utf-8><title>OAuth link unavailable</title><body style='font-family:system-ui;max-width:480px;margin:4rem auto;padding:0 1rem'><h1>Link unavailable</h1><p>",
    );
    let escaped = html_escape(msg);
    push_str(&mut body, escaped.as_str());
    push_str(&mut body, "</p></body>");
    HtmlPage { status: 410, body }
}

/// Page shown when the signed-in account may not use an OAuth link (status 403).
pub fn mismatch_html() -> (page: HtmlPage)
    ensures
        page.status == 403,
        page.body@ == "<!doctype html><meta charset=utf-8><title>Wrong account</title><body style='font-family:system-ui;max-width:480px;margin:4rem auto;padding:0 1rem'><h1>Wrong account</h1><p>This OAuth link was created for a different Overslash account. If you believe this is an error, sign out and sign in as the correct user, then click the link again.</p></body>"@,
{
    let body = to_owned_string(
        "<!doctype html><meta charset=utf-8><title>Wrong account</title><body style='font-family:system-ui;max-width:480px;margin:4rem auto;padding:0 1rem'><h1>Wrong account</h1><p>This OAuth link was created for a different Overslash account. If you believe this is an error, sign out and sign in as the correct user, then click the link again.</p></body>",
    );
    HtmlPage { status: 403, body }
}

/// The markup of the consent interstitial, with already-escaped owner,
/// provider and flow id.
pub open spec fn consent_body_spec(owner: Seq<char>, prov: Seq<char>, id: Seq<char>) -> Seq<char> {
    "<!doctype html><meta charset=utf-8><title>Connect on someone's behalf</title><body style='font-family:system-ui;max-width:480px;margin:4rem auto;padding:0 1rem'><h1>Connect "@
        + prov + " for "@ + owner + "?</h1><p>This connection belongs to <strong>"@ + owner
        + "</strong>, not to you. You can authorize it because you are an administrator of their org.</p><p style='border-left:3px solid #b45309;background:#fffbeb;padding:.75rem 1rem;border-radius:4px'>\u{26a0} The "@
        + prov + " account you sign in with on the next screen will be linked to <strong>"@ + owner
        + "</strong>'s connection. Those credentials will be used by <strong>"@ + owner
        + "</strong> \u{2014} including any agents acting as them \u{2014} not by you.</p><form method='post' action='/connect-authorize/confirm' style='margin-top:1.5rem'><input type='hidden' name='id' value='"@
        + id + "'><button type='submit' style='padding:.6rem 1.1rem;font-size:1rem;cursor:pointer'>Continue to "@
        + prov + "</button><button type='button' onclick='window.close()' style='margin-left:.5rem;padding:.6rem 1.1rem;font-size:1rem;cursor:pointer'>Cancel</button></form></body>"@
}

/// The admin/actor consent interstitial (status 200). It names whose account
/// is being linked; every interpolated value is escaped.
pub fn admin_consent_html(owner_label: &str, provider: &str, flow_id: &str) -> (page: HtmlPage)
    ensures
        page.status == 200,
        page.body@ == consent_body_spec(
            html_escape_spec(owner_label@),
            html_escape_spec(provider@),
            html_escape_spec(flow_id@),
        ),
{
    let owner = html_escape(owner_label);
    let prov = html_escape(provider);
    let id = html_escape(flow_id);
    let mut b = to_owned_string(
        "<!doctype html><meta charset=utf-8><title>Connect on someone's behalf</title><body style='font-family:system-ui;max-width:480px;margin:4rem auto;padding:0 1rem'><h1>Connect ",
    );
    push_str(&mut b, prov.as_str());
    push_str(&mut b, " for ");
    push_str(&mut b, owner.as_str());
    push_str(&mut b, "?</h1><p>This connection belongs to <strong>");
    push_str(&mut b, owner.as_str());
    push_str(
        &mut b,
        "</strong>, not to you. You can authorize it because you are an administrator of their org.</p><p style='border-left:3px solid #b45309;background:#fffbeb;padding:.75rem 1rem;border-radius:4px'>\u{26a0} The ",
    );
    push_str(&mut b, prov.as_str());
    push_str(&mut b, " account you sign in with on the next screen will be linked to <strong>");
    push_str(&mut b, owner.as_str());
    push_str(&mut b, "</strong>'s connection. Those credentials will be used by <strong>");
    push_str(&mut b, owner.as_str());
    push_str(
        &mut b,
        "</strong> \u{2014} including any agents acting as them \u{2014} not by you.</p><form method='post' action='/connect-authorize/confirm' style='margin-top:1.5rem'><input type='hidden' name='id' value='",
    );
    push_str(&mut b, id.as_str());
    push_str(
        &mut b,
        "'><button type='submit' style='padding:.6rem 1.1rem;font-size:1rem;cursor:pointer'>Continue to ",
    );
    push_str(&mut b, prov.as_str());
    push_str(
        &mut b,
        "</button><button type='button' onclick='window.close()' style='margin-left:.5rem;padding:.6rem 1.1rem;font-size:1rem;cursor:pointer'>Cancel</button></form></body>",
    );
    HtmlPage { status: 200, body: b }
}

} // verus!
