//! Audit-log query parameters: the page size, the free-text terms of `q`
//! (comma separated, with `\,` and `\\` as escapes), the plain comma lists
//! of `tag` and `identity_kind`, and the risk filter of `risk` / `risk_min`.

use vstd::prelude::*;
use crate::error::ApiError;
use crate::risk::{Risk, at_least_spec, parse_risk_spec, risk_name_spec};
use crate::text::{
    chars_of, push_chars, push_str, split_chars, split_spec, string_from_chars, trim_chars, trim_spec,
    views,
};

verus! {

/// The page size when the query names none.
pub fn default_limit() -> (n: i64)
    ensures
        n == 50,
{
    50
}

/// The views of a list of strings.
pub open spec fn string_views(v: Seq<String>) -> Seq<Seq<char>> {
    v.map_values(|t: String| t@)
}

/// `terms`, with `cur` added when it is not blank after trimming.
pub open spec fn keep_term(terms: Seq<Seq<char>>, cur: Seq<char>) -> Seq<Seq<char>> {
    if trim_spec(cur).len() > 0 {
        terms.push(trim_spec(cur))
    } else {
        terms
    }
}

/// Scan `s` for `q` terms, given the terms already found and the term being
/// read. A backslash before `,` or `\` stands for that character; before
/// anything else both characters are kept, and at the very end it is kept.
/// An unescaped comma ends a term; terms are trimmed and blank ones dropped.
pub open spec fn q_scan(s: Seq<char>, terms: Seq<Seq<char>>, cur: Seq<char>) -> Seq<Seq<char>>
    decreases s.len(),
{
    if s.len() == 0 {
        keep_term(terms, cur)
    } else if s[0] == '\\' {
        if s.len() == 1 {
            keep_term(terms, cur.push('\\'))
        } else if s[1] == ',' || s[1] == '\\' {
            q_scan(s.skip(2), terms, cur.push(s[1]))
        } else {
            q_scan(s.skip(2), terms, cur.push('\\').push(s[1]))
        }
    } else if s[0] == ',' {
        q_scan(s.skip(1), keep_term(terms, cur), Seq::empty())
    } else {
        q_scan(s.skip(1), terms, cur.push(s[0]))
    }
}

/// The free-text terms of a `q` parameter.
pub open spec fn q_terms_spec(raw: Seq<char>) -> Seq<Seq<char>> {
    q_scan(raw, Seq::empty(), Seq::empty())
}

fn keep_term_exec(out: &mut Vec<String>, cur: &Vec<char>)
    ensures
        string_views(final(out)@) == keep_term(string_views(old(out)@), cur@),
{
    let t = trim_chars(cur.as_slice());
    if t.len() > 0 {
        let ghost before = string_views(out@);
        let term = string_from_chars(t.as_slice());
        out.push(term);
        proof {
            assert(string_views(out@) =~= before.push(trim_spec(cur@)));
        }
    }
}

/// Split `q` into its free-text terms on unescaped commas, so that a phrase
/// may hold a comma written as `\,`.
pub fn split_q_terms(raw: &str) -> (terms: Vec<String>)
    ensures
        string_views(terms@) == q_terms_spec(raw@),
{
    let s = chars_of(raw);
    let mut out: Vec<String> = Vec::new();
    let mut cur: Vec<char> = Vec::new();
    let mut i: usize = 0;
    proof {
        assert(s@.skip(0) =~= s@);
        assert(string_views(out@) =~= Seq::<Seq<char>>::empty());
    }
    while i < s.len()
        invariant
            i <= s@.len(),
            s@ == raw@,
            q_terms_spec(raw@) == q_scan(s@.skip(i as int), string_views(out@), cur@),
        decreases s@.len() - i,
    {
        let c = s[i];
        let ghost rest = s@.skip(i as int);
        assert(rest[0] == c);
        if c == '\\' {
            if i + 1 == s.len() {
                cur.push('\\');
                i = i + 1;
                keep_term_exec(&mut out, &cur);
                proof {
                    assert(s@.skip(i as int).len() == 0);
                }
                return out;
            }
            let next = s[i + 1];
            assert(rest[1] == next);
            assert(rest.skip(2) =~= s@.skip(i + 2));
            if next == ',' || next == '\\' {
                cur.push(next);
            } else {
                cur.push('\\');
                cur.push(next);
            }
            i = i + 2;
        } else if c == ',' {
            assert(rest.skip(1) =~= s@.skip(i + 1));
            keep_term_exec(&mut out, &cur);
            cur = Vec::new();
            i = i + 1;
        } else {
            assert(rest.skip(1) =~= s@.skip(i + 1));
            cur.push(c);
            i = i + 1;
        }
    }
    keep_term_exec(&mut out, &cur);
    out
}

/// A term as a search bubble writes it into `q`: `\` becomes `\\` and `,`
/// becomes `\,`.
pub open spec fn escape_q_term(t: Seq<char>) -> Seq<char>
    decreases t.len(),
{
    if t.len() == 0 {
        Seq::empty()
    } else if t[0] == '\\' || t[0] == ',' {
        seq!['\\', t[0]] + escape_q_term(t.skip(1))
    } else {
        seq![t[0]] + escape_q_term(t.skip(1))
    }
}

/// Terms written into one `q` value: escaped, joined by commas.
pub open spec fn join_q_terms(terms: Seq<Seq<char>>) -> Seq<char>
    decreases terms.len(),
{
    if terms.len() == 0 {
        Seq::empty()
    } else if terms.len() == 1 {
        escape_q_term(terms[0])
    } else {
        escape_q_term(terms[0]) + seq![','] + join_q_terms(terms.skip(1))
    }
}

proof fn lemma_scan_escaped(t: Seq<char>, rest: Seq<char>, terms: Seq<Seq<char>>, cur: Seq<char>)
    ensures
        q_scan(escape_q_term(t) + rest, terms, cur) == q_scan(rest, terms, cur + t),
    decreases t.len(),
{
    if t.len() == 0 {
        assert(escape_q_term(t) + rest =~= rest);
        assert(cur + t =~= cur);
    } else {
        let s = escape_q_term(t) + rest;
        lemma_scan_escaped(t.skip(1), rest, terms, cur.push(t[0]));
        assert(cur.push(t[0]) + t.skip(1) =~= cur + t);
        if t[0] == '\\' || t[0] == ',' {
            assert(s =~= seq!['\\', t[0]] + (escape_q_term(t.skip(1)) + rest));
            assert(s[0] == '\\' && s[1] == t[0]);
            assert(s.skip(2) =~= escape_q_term(t.skip(1)) + rest);
        } else {
            assert(s =~= seq![t[0]] + (escape_q_term(t.skip(1)) + rest));
            assert(s[0] == t[0]);
            assert(s.skip(1) =~= escape_q_term(t.skip(1)) + rest);
        }
    }
}

proof fn lemma_scan_joined(ts: Seq<Seq<char>>, terms: Seq<Seq<char>>)
    requires
        forall|i: int| 0 <= i < ts.len() ==> (#[trigger] ts[i]).len() > 0 && trim_spec(ts[i]) == ts[i],
    ensures
        q_scan(join_q_terms(ts), terms, Seq::empty()) == terms + ts,
    decreases ts.len(),
{
    let e = Seq::<char>::empty();
    if ts.len() == 0 {
        assert(trim_spec(e) =~= e);
        assert(terms + ts =~= terms);
    } else if ts.len() == 1 {
        lemma_scan_escaped(ts[0], e, terms, e);
        assert(escape_q_term(ts[0]) + e =~= escape_q_term(ts[0]));
        assert(e + ts[0] =~= ts[0]);
        assert(terms + ts =~= terms.push(ts[0]));
    } else {
        let tail = seq![','] + join_q_terms(ts.skip(1));
        assert(join_q_terms(ts) =~= escape_q_term(ts[0]) + tail);
        lemma_scan_escaped(ts[0], tail, terms, e);
        assert(e + ts[0] =~= ts[0]);
        assert(tail[0] == ',');
        assert(tail.skip(1) =~= join_q_terms(ts.skip(1)));
        assert forall|i: int| 0 <= i < ts.skip(1).len() implies (#[trigger] ts.skip(1)[i]).len() > 0
            && trim_spec(ts.skip(1)[i]) == ts.skip(1)[i] by {
            assert(ts.skip(1)[i] == ts[i + 1]);
        }
        lemma_scan_joined(ts.skip(1), terms.push(ts[0]));
        assert(terms.push(ts[0]) + ts.skip(1) =~= terms + ts);
    }
}

/// Search terms survive the round trip through `q`: terms that are not
/// blank and carry no outer white space, escaped and joined by commas, split
/// back into the same terms, commas and backslashes inside them included.
pub proof fn law_q_terms_round_trip(terms: Seq<Seq<char>>)
    requires
        forall|i: int| 0 <= i < terms.len() ==> (#[trigger] terms[i]).len() > 0 && trim_spec(terms[i]) == terms[i],
    ensures
        q_terms_spec(join_q_terms(terms)) == terms,
{
    lemma_scan_joined(terms, Seq::empty());
    assert(Seq::<Seq<char>>::empty() + terms =~= terms);
}

/// The pieces of a list, trimmed, blank ones dropped.
pub open spec fn trimmed_items(parts: Seq<Seq<char>>) -> Seq<Seq<char>>
    decreases parts.len(),
{
    if parts.len() == 0 {
        Seq::empty()
    } else {
        let prev = trimmed_items(parts.drop_last());
        let t = trim_spec(parts.last());
        if t.len() > 0 {
            prev.push(t)
        } else {
            prev
        }
    }
}

/// The items of a plain comma-separated list.
pub open spec fn comma_items(raw: Seq<char>) -> Seq<Seq<char>> {
    trimmed_items(split_spec(raw, ','))
}

/// The items of a comma-separated list, trimmed, blank ones dropped.
pub fn comma_list(raw: &str) -> (items: Vec<Vec<char>>)
    ensures
        views(items@) == comma_items(raw@),
{
    let s = chars_of(raw);
    let parts = split_chars(s.as_slice(), ',');
    let ghost pv = views(parts@);
    let mut out: Vec<Vec<char>> = Vec::new();
    let mut i: usize = 0;
    proof {
        assert(pv.take(0) =~= Seq::<Seq<char>>::empty());
        assert(views(out@) =~= Seq::<Seq<char>>::empty());
    }
    while i < parts.len()
        invariant
            i <= parts@.len(),
            pv == views(parts@),
            pv == split_spec(s@, ','),
            s@ == raw@,
            views(out@) == trimmed_items(pv.take(i as int)),
        decreases parts@.len() - i,
    {
        proof {
            assert(pv.take(i + 1).drop_last() =~= pv.take(i as int));
            assert(pv.take(i + 1).last() == parts@[i as int]@);
        }
        let t = trim_chars(parts[i].as_slice());
        if t.len() > 0 {
            proof {
                assert(views(out@.push(t)) =~= views(out@).push(t@));
            }
            out.push(t);
        }
        i = i + 1;
    }
    proof {
        assert(pv.take(parts@.len() as int) =~= pv);
    }
    out
}

/// The items of a list parameter as strings (`tag`, `identity_kind`):
/// `None` when the parameter is absent, empty, or lists nothing.
pub fn list_param(p: Option<&str>) -> (r: Option<Vec<String>>)
    ensures
        (p matches Some(raw) && comma_items(raw@).len() > 0) ==> (r matches Some(v)
            && string_views(v@) == comma_items(p->0@)),
        !(p matches Some(raw) && comma_items(raw@).len() > 0) ==> r is None,
{
    match p {
        None => None,
        Some(raw) => {
            let items = comma_list(raw);
            if items.len() == 0 {
                return None;
            }
            let mut out: Vec<String> = Vec::new();
            let mut i: usize = 0;
            while i < items.len()
                invariant
                    i <= items@.len(),
                    string_views(out@) == views(items@).take(i as int),
                decreases items@.len() - i,
            {
                let ghost before = string_views(out@);
                let item = string_from_chars(items[i].as_slice());
                out.push(item);
                proof {
                    assert(string_views(out@) =~= before.push(items@[i as int]@));
                    assert(views(items@).take(i + 1) =~= views(items@).take(i as int).push(items@[i as int]@));
                }
                i = i + 1;
            }
            proof {
                assert(views(items@).take(items@.len() as int) =~= views(items@));
            }
            Some(out)
        },
    }
}

/// The `q` terms as filtered on: `None` when `q` is absent, empty, or holds
/// no term.
pub fn q_param(q: Option<&str>) -> (r: Option<Vec<String>>)
    ensures
        (q matches Some(raw) && q_terms_spec(raw@).len() > 0) ==> (r matches Some(v)
            && string_views(v@) == q_terms_spec(q->0@)),
        !(q matches Some(raw) && q_terms_spec(raw@).len() > 0) ==> r is None,
{
    match q {
        None => None,
        Some(raw) => {
            let terms = split_q_terms(raw);
            if terms.len() == 0 {
                None
            } else {
                Some(terms)
            }
        },
    }
}

/// A text parameter as filtered on: `None` when absent or empty.
pub fn text_param(p: Option<String>) -> (r: Option<String>)
    ensures
        (p matches Some(s) && s@.len() > 0) ==> r == p,
        !(p matches Some(s) && s@.len() > 0) ==> r is None,
{
    match p {
        Some(s) => {
            if s.as_str().is_empty() {
                None
            } else {
                Some(s)
            }
        },
        None => None,
    }
}

/// The risks listed in `items`, or the first item that is not a risk.
pub open spec fn parse_risks(items: Seq<Seq<char>>) -> Result<Seq<Risk>, Seq<char>>
    decreases items.len(),
{
    if items.len() == 0 {
        Ok(Seq::empty())
    } else {
        match parse_risk_spec(items[0]) {
            None => Err(items[0]),
            Some(r) => match parse_risks(items.skip(1)) {
                Ok(rest) => Ok(seq![r] + rest),
                Err(e) => Err(e),
            },
        }
    }
}

/// The message for a value that is not a risk.
pub open spec fn unknown_risk_message(v: Seq<char>) -> Seq<char> {
    "unknown risk `"@ + v + "` — expected read, write or delete"@
}

/// The items of `xs` that occur in `ys`, in order.
pub open spec fn keep_listed(xs: Seq<Risk>, ys: Seq<Risk>) -> Seq<Risk> {
    xs.filter(|x: Risk| ys.contains(x))
}

/// What `risk` and `risk_min` ask for: `Ok(None)` for no filter, else the
/// set of risks a row may have, by wire name; `Err(v)` names the first value
/// that is not a risk. The explicit list is read first; given both, the
/// answer is the listed risks that reach the floor, in listed order.
pub open spec fn resolve_risks_spec(risk: Option<Seq<char>>, risk_min: Option<Seq<char>>) -> Result<
    Option<Seq<Risk>>,
    Seq<char>,
> {
    let explicit: Option<Result<Seq<Risk>, Seq<char>>> = match risk {
        Some(raw) if trim_spec(raw).len() > 0 => Some(parse_risks(comma_items(trim_spec(raw)))),
        _ => None,
    };
    let floor: Option<Result<Seq<Risk>, Seq<char>>> = match risk_min {
        Some(raw) if trim_spec(raw).len() > 0 => Some(
            match parse_risk_spec(trim_spec(raw)) {
                Some(r) => Ok(at_least_spec(r)),
                None => Err(trim_spec(raw)),
            },
        ),
        _ => None,
    };
    match (explicit, floor) {
        (Some(Err(e)), _) => Err(e),
        (_, Some(Err(e))) => Err(e),
        (Some(Ok(a)), Some(Ok(b))) => Ok(Some(keep_listed(a, b))),
        (Some(Ok(v)), None) => Ok(Some(v)),
        (None, Some(Ok(v))) => Ok(Some(v)),
        (None, None) => Ok(None),
    }
}

/// The wire names of a list of risks.
pub open spec fn risk_names(v: Seq<Risk>) -> Seq<Seq<char>> {
    v.map_values(|r: Risk| risk_name_spec(r))
}

fn parse_risk_items(items: &Vec<Vec<char>>) -> (r: Result<Vec<Risk>, Vec<char>>)
    ensures
        r matches Ok(v) ==> parse_risks(views(items@)) == Ok::<Seq<Risk>, Seq<char>>(v@),
        r matches Err(e) ==> parse_risks(views(items@)) == Err::<Seq<Risk>, Seq<char>>(e@),
{
    let ghost all = views(items@);
    let mut out: Vec<Risk> = Vec::new();
    let mut i: usize = 0;
    proof {
        assert(all.skip(0) =~= all);
    }
    while i < items.len()
        invariant
            i <= items@.len(),
            all == views(items@),
            forall|e: Seq<char>| parse_risks(all) == Err::<Seq<Risk>, Seq<char>>(e) <==> parse_risks(all.skip(i as int))
                == Err::<Seq<Risk>, Seq<char>>(e),
            forall|w: Seq<Risk>| #[trigger] parse_risks(all.skip(i as int)) == Ok::<Seq<Risk>, Seq<char>>(w)
                ==> parse_risks(all) == Ok::<Seq<Risk>, Seq<char>>(out@ + w),
        decreases items@.len() - i,
    {
        let ghost rest = all.skip(i as int);
        proof {
            assert(rest[0] == items@[i as int]@);
            assert(rest.skip(1) =~= all.skip(i + 1));
        }
        let name = string_from_chars(items[i].as_slice());
        match Risk::parse(name.as_str()) {
            None => {
                let e = vstd::slice::slice_to_vec(items[i].as_slice());
                return Err(e);
            },
            Some(r) => {
                proof {
                    assert forall|w: Seq<Risk>| #[trigger] parse_risks(all.skip(i + 1)) == Ok::<Seq<Risk>, Seq<char>>(w)
                        implies parse_risks(all) == Ok::<Seq<Risk>, Seq<char>>(out@.push(r) + w) by {
                        assert(parse_risks(rest) == Ok::<Seq<Risk>, Seq<char>>(seq![r] + w));
                        assert(out@ + (seq![r] + w) =~= out@.push(r) + w);
                    }
                }
                out.push(r);
            },
        }
        i = i + 1;
    }
    proof {
        assert(all.skip(i as int) =~= Seq::<Seq<char>>::empty());
        assert(out@ + Seq::<Risk>::empty() =~= out@);
    }
    Ok(out)
}

fn unknown_risk_error(v: &[char]) -> (e: ApiError)
    ensures
        e matches ApiError::BadRequest(m) && m@ == unknown_risk_message(v@),
{
    let mut m = String::new();
    push_str(&mut m, "unknown risk `");
    push_chars(&mut m, v);
    push_str(&mut m, "` — expected read, write or delete");
    ApiError::BadRequest(m)
}

/// Resolve `risk` and `risk_min` into the set of risk names a row may have.
/// An empty set is kept: a filter that contradicts itself matches no row.
pub fn resolve_risks(risk: Option<&str>, risk_min: Option<&str>) -> (r: Result<Option<Vec<String>>, ApiError>)
    ensures
        match resolve_risks_spec(
            match risk { Some(s) => Some(s@), None => None },
            match risk_min { Some(s) => Some(s@), None => None },
        ) {
            Ok(None) => r matches Ok(None),
            Ok(Some(v)) => r matches Ok(Some(names)) && string_views(names@) == risk_names(v),
            Err(bad) => r matches Err(ApiError::BadRequest(m)) && m@ == unknown_risk_message(bad),
        },
{
    let explicit: Option<Vec<Risk>> = match risk {
        Some(raw) => {
            let t = trim_chars(chars_of(raw).as_slice());
            if t.len() == 0 {
                None
            } else {
                let ts = string_from_chars(t.as_slice());
                let items = comma_list(ts.as_str());
                match parse_risk_items(&items) {
                    Ok(v) => Some(v),
                    Err(bad) => return Err(unknown_risk_error(bad.as_slice())),
                }
            }
        },
        None => None,
    };
    let floor: Option<Vec<Risk>> = match risk_min {
        Some(raw) => {
            let t = trim_chars(chars_of(raw).as_slice());
            if t.len() == 0 {
                None
            } else {
                let ts = string_from_chars(t.as_slice());
                match Risk::parse(ts.as_str()) {
                    Some(r) => Some(r.at_least()),
                    None => return Err(unknown_risk_error(t.as_slice())),
                }
            }
        },
        None => None,
    };
    let resolved: Option<Vec<Risk>> = match (explicit, floor) {
        (None, None) => None,
        (Some(v), None) => Some(v),
        (None, Some(v)) => Some(v),
        (Some(a), Some(b)) => {
            let mut kept: Vec<Risk> = Vec::new();
            let mut i: usize = 0;
            while i < a.len()
                invariant
                    i <= a@.len(),
                    kept@ == keep_listed(a@.take(i as int), b@),
                decreases a@.len() - i,
            {
                let x = a[i];
                let mut found = false;
                let mut j: usize = 0;
                while j < b.len()
                    invariant
                        j <= b@.len(),
                        found == b@.take(j as int).contains(x),
                    decreases b@.len() - j,
                {
                    proof {
                        assert(b@.take(j + 1) =~= b@.take(j as int).push(b@[j as int]));
                    }
                    if b[j] == x {
                        found = true;
                        proof {
                            assert(b@.take(j + 1)[j as int] == x);
                        }
                    } else {
                        proof {
                            if b@.take(j + 1).contains(x) {
                                let k = choose|k: int| 0 <= k < j + 1 && #[trigger] b@.take(j + 1)[k] == x;
                                if k < j {
                                    assert(b@.take(j as int)[k] == x);
                                }
                            }
                        }
                    }
                    j = j + 1;
                }
                proof {
                    assert(b@.take(b@.len() as int) =~= b@);
                    assert(a@.take(i + 1).drop_last() =~= a@.take(i as int));
                    vstd::seq_lib::lemma_seq_take_len(a@, i + 1);
                    reveal(Seq::filter);
                }
                if found {
                    kept.push(x);
                }
                i = i + 1;
            }
            proof {
                assert(a@.take(a@.len() as int) =~= a@);
            }
            Some(kept)
        },
    };
    match resolved {
        None => Ok(None),
        Some(v) => {
            let mut names: Vec<String> = Vec::new();
            let mut i: usize = 0;
            while i < v.len()
                invariant
                    i <= v@.len(),
                    string_views(names@) == risk_names(v@).take(i as int),
                decreases v@.len() - i,
            {
                let ghost before = string_views(names@);
                let nm = v[i].name();
                names.push(nm);
                proof {
                    assert(string_views(names@) =~= before.push(risk_name_spec(v@[i as int])));
                    assert(risk_names(v@).take(i + 1) =~= risk_names(v@).take(i as int).push(risk_name_spec(v@[i as int])));
                }
                i = i + 1;
            }
            proof {
                assert(risk_names(v@).take(v@.len() as int) =~= risk_names(v@));
            }
            Ok(Some(names))
        },
    }
}

/// The names and text an audit entry is shown with.
#[derive(Debug, Clone, PartialEq, Eq)]
pub struct AuditRowText {
    pub identity_name: Option<String>,
    pub description: Option<String>,
}

/// What an audit row shows: the actor name recorded with the row, else the
/// identity's current name (`live_name`, looked up by the row's identity,
/// `None` when it has none or it is gone); and the row's description, else
/// the `description` string in its detail, for rows written before the
/// column existed.
pub fn audit_row_text(
    actor_name: Option<String>,
    live_name: Option<String>,
    description: Option<String>,
    detail_description: Option<String>,
) -> (r: AuditRowText)
    ensures
        r.identity_name == (match actor_name {
            Some(n) => Some(n),
            None => live_name,
        }),
        r.description == (match description {
            Some(d) => Some(d),
            None => detail_description,
        }),
{
    AuditRowText {
        identity_name: match actor_name {
            Some(n) => Some(n),
            None => live_name,
        },
        description: match description {
            Some(d) => Some(d),
            None => detail_description,
        },
    }
}

} // verus!
