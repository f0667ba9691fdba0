//! Connection flows: which service instances a finished OAuth flow binds
//! the new connection to, where the browser is sent back to (only hosts the
//! operator allowed), the coarse reason a failure is reported with, and the
//! checks in front of a connect link.

use vstd::prelude::*;
use crate::error::{ApiError, is_error};
use crate::login::{ascii_lowercase, url_host, url_host_spec};
use crate::text::{chars_eq, push_chars, push_str, str_eq, string_from_chars, to_owned_string};

verus! {

/// The coarse reason token a tenant page receives for a failed flow, by
/// HTTP status; raw error text is never echoed into the URL.
pub open spec fn reason_token_spec(status: u16) -> Seq<char> {
    if status == 400 {
        "bad_request"@
    } else if status == 401 {
        "unauthorized"@
    } else if status == 403 {
        "forbidden"@
    } else if status == 404 {
        "not_found"@
    } else if status == 409 {
        "conflict"@
    } else if status == 410 {
        "gone"@
    } else if status == 429 {
        "rate_limited"@
    } else if status == 502 {
        "upstream_error"@
    } else {
        "internal_error"@
    }
}

/// The reason token for an error's status.
pub fn redirect_reason_token(status: u16) -> (s: &'static str)
    ensures
        s@ == reason_token_spec(status),
{
    if status == 400 {
        "bad_request"
    } else if status == 401 {
        "unauthorized"
    } else if status == 403 {
        "forbidden"
    } else if status == 404 {
        "not_found"
    } else if status == 409 {
        "conflict"
    } else if status == 410 {
        "gone"
    } else if status == 429 {
        "rate_limited"
    } else if status == 502 {
        "upstream_error"
    } else {
        "internal_error"
    }
}

/// The instances a finished flow binds: the flow's pinned instances, with
/// the legacy single instance put first when it is not already pinned.
pub open spec fn merged_pins_spec(pins: Seq<u128>, legacy: Option<u128>) -> Seq<u128> {
    match legacy {
        Some(s) => if pins.contains(s) { pins } else { seq![s] + pins },
        None => pins,
    }
}

/// Merge a flow's legacy instance id into its pinned ids.
pub fn merge_pin_ids(pins: &[u128], legacy: Option<u128>) -> (r: Vec<u128>)
    ensures
        r@ == merged_pins_spec(pins@, legacy),
{
    let mut out: Vec<u128> = Vec::new();
    let put_first = match legacy {
        Some(s) => !crate::connect_gate::contains_id(pins, s),
        None => false,
    };
    if put_first {
        out.push(legacy.unwrap());
    }
    let ghost start = out@;
    let mut i: usize = 0;
    while i < pins.len()
        invariant
            i <= pins@.len(),
            out@ == start + pins@.take(i as int),
        decreases pins@.len() - i,
    {
        out.push(pins[i]);
        proof {
            assert(pins@.take(i + 1) =~= pins@.take(i as int).push(pins@[i as int]));
            assert(start + pins@.take(i + 1) =~= (start + pins@.take(i as int)).push(pins@[i as int]));
        }
        i = i + 1;
    }
    proof {
        assert(pins@.take(pins@.len() as int) =~= pins@);
        match legacy {
            Some(s) => {
                if !pins@.contains(s) {
                    assert(start =~= seq![s]);
                } else {
                    assert(start =~= Seq::<u128>::empty());
                    assert(start + pins@ =~= pins@);
                }
            },
            None => {
                assert(start + pins@ =~= pins@);
            },
        }
    }
    out
}

/// Whether a string list holds `s`.
pub open spec fn listed(list: Seq<Seq<char>>, s: Seq<char>) -> bool {
    list.contains(s)
}

/// The tenant page a flow returns to, when allowed: an allow-list must be
/// configured, the flow must carry a `return_url` that parses with a host,
/// and that host (lower case) must be on the list.
pub open spec fn return_target_spec(allowed_hosts: Seq<Seq<char>>, return_url: Option<Seq<char>>) -> bool {
    allowed_hosts.len() > 0 && match return_url {
        None => false,
        Some(u) => match url_host_spec(u) {
            Ok(Some(h)) => listed(allowed_hosts, ascii_lowercase(h)),
            _ => false,
        },
    }
}

/// Whether a flow's `return_url` may be redirected to.
#[verifier::loop_isolation(false)]
pub fn return_target_allowed(allowed_hosts: &[String], return_url: Option<&str>) -> (b: bool)
    ensures
        b == return_target_spec(crate::audit::string_views(allowed_hosts@), crate::cookies::opt_str(return_url)),
{
    if allowed_hosts.len() == 0 {
        return false;
    }
    let raw = match return_url {
        None => return false,
        Some(r) => r,
    };
    let host = match url_host(raw) {
        Ok(Some(h)) => crate::login::to_ascii_lowercase(h.as_str()),
        _ => return false,
    };
    let ghost list = crate::audit::string_views(allowed_hosts@);
    let mut i: usize = 0;
    while i < allowed_hosts.len()
        invariant
            i <= allowed_hosts@.len(),
            list == crate::audit::string_views(allowed_hosts@),
            forall|j: int| 0 <= j < i ==> list[j] != host@,
        decreases allowed_hosts@.len() - i,
    {
        let e = crate::text::chars_of(allowed_hosts[i].as_str());
        if chars_eq(e.as_slice(), host.as_slice()) {
            assert(list[i as int] == host@);
            return true;
        }
        i = i + 1;
    }
    false
}

/// The URL `url` with `pairs` appended to its query, form-encoded, as
/// `url::Url::parse` and `query_pairs_mut().append_pair` write it; `None`
/// when `url` does not parse.
pub uninterp spec fn url_with_pairs_spec(url: Seq<char>, pairs: Seq<(Seq<char>, Seq<char>)>) -> Option<Seq<char>>;

/// The views of key/value pairs.
pub open spec fn pair_views(pairs: Seq<(String, String)>) -> Seq<(Seq<char>, Seq<char>)> {
    pairs.map_values(|p: (String, String)| (p.0@, p.1@))
}

/// `url::Url::parse(url)`, then `append_pair` for each pair in order, then
/// `as_str()`.
#[verifier::external_body]
fn url_with_pairs(url: &str, pairs: &[(String, String)]) -> (r: Option<String>)
    ensures
        match url_with_pairs_spec(url@, pair_views(pairs@)) {
            Some(u) => r matches Some(s) && s@ == u,
            None => r is None,
        },
{
    match url::Url::parse(url) {
        Err(_) => None,
        Ok(mut u) => {
            for (k, v) in pairs {
                u.query_pairs_mut().append_pair(k, v);
            }
            Some(u.as_str().to_string())
        },
    }
}

/// The query pairs of a success redirect: `status=success`, the
/// connection id, the provider, and the account e-mail, first bound
/// instance and bind error when present.
pub open spec fn success_pairs_spec(
    connection_id: Seq<char>,
    provider: Seq<char>,
    account_email: Option<Seq<char>>,
    service_instance_id: Option<Seq<char>>,
    bind_error: Option<Seq<char>>,
) -> Seq<(Seq<char>, Seq<char>)> {
    seq![("status"@, "success"@), ("connection_id"@, connection_id), ("provider"@, provider)] + (match account_email {
        Some(e) => seq![("account_email"@, e)],
        None => Seq::empty(),
    }) + (match service_instance_id {
        Some(s) => seq![("service_instance_id"@, s)],
        None => Seq::empty(),
    }) + (match bind_error {
        Some(b) => seq![("service_instance_bind_error"@, b)],
        None => Seq::empty(),
    })
}

fn pair(k: &str, v: &str) -> (p: (String, String))
    ensures
        p.0@ == k@,
        p.1@ == v@,
{
    (to_owned_string(k), to_owned_string(v))
}

/// The tenant redirect of a finished flow.
pub fn success_redirect_url(
    return_url: &str,
    connection_id: &str,
    provider: &str,
    account_email: Option<&str>,
    service_instance_id: Option<&str>,
    bind_error: Option<&str>,
) -> (r: Option<String>)
    ensures
        match url_with_pairs_spec(
            return_url@,
            success_pairs_spec(
                connection_id@,
                provider@,
                crate::cookies::opt_str(account_email),
                crate::cookies::opt_str(service_instance_id),
                crate::cookies::opt_str(bind_error),
            ),
        ) {
            Some(u) => r matches Some(s) && s@ == u,
            None => r is None,
        },
{
    let mut pairs: Vec<(String, String)> = Vec::new();
    pairs.push(pair("status", "success"));
    pairs.push(pair("connection_id", connection_id));
    pairs.push(pair("provider", provider));
    let ghost base = pair_views(pairs@);
    let ghost a = match account_email {
        Some(e) => seq![("account_email"@, e@)],
        None => Seq::empty(),
    };
    let ghost s = match service_instance_id {
        Some(x) => seq![("service_instance_id"@, x@)],
        None => Seq::empty(),
    };
    let ghost b = match bind_error {
        Some(x) => seq![("service_instance_bind_error"@, x@)],
        None => Seq::empty(),
    };
    proof {
        assert(base =~= seq![("status"@, "success"@), ("connection_id"@, connection_id@), ("provider"@, provider@)]);
    }
    if let Some(e) = account_email {
        pairs.push(pair("account_email", e));
    }
    proof {
        assert(pair_views(pairs@) =~= base + a);
    }
    if let Some(x) = service_instance_id {
        pairs.push(pair("service_instance_id", x));
    }
    proof {
        assert(pair_views(pairs@) =~= base + a + s);
    }
    if let Some(x) = bind_error {
        pairs.push(pair("service_instance_bind_error", x));
    }
    proof {
        assert(pair_views(pairs@) =~= base + a + s + b);
    }
    url_with_pairs(return_url, pairs.as_slice())
}

/// The tenant redirect of a failed flow: `status=error`, the provider and
/// the coarse reason.
pub fn error_redirect_url(return_url: &str, provider: &str, status: u16) -> (r: Option<String>)
    ensures
        match url_with_pairs_spec(
            return_url@,
            seq![("status"@, "error"@), ("provider"@, provider@), ("reason"@, reason_token_spec(status))],
        ) {
            Some(u) => r matches Some(s) && s@ == u,
            None => r is None,
        },
{
    let mut pairs: Vec<(String, String)> = Vec::new();
    pairs.push(pair("status", "error"));
    pairs.push(pair("provider", provider));
    pairs.push(pair("reason", redirect_reason_token(status)));
    proof {
        assert(pair_views(pairs@) =~= seq![("status"@, "error"@), ("provider"@, provider@), ("reason"@, reason_token_spec(status))]);
    }
    url_with_pairs(return_url, pairs.as_slice())
}

/// A scope upgrade must land on a connection of the same identity and
/// provider as the flow.
pub fn check_upgrade_target(
    existing_identity: u128,
    existing_provider: &str,
    identity: u128,
    provider: &str,
) -> (r: Result<(), ApiError>)
    ensures
        (existing_identity == identity && existing_provider@ == provider@) ==> r is Ok,
        !(existing_identity == identity && existing_provider@ == provider@) ==> is_error(
            r,
            400,
            "state mismatch: upgrade connection does not match identity/provider"@,
        ),
{
    if existing_identity != identity || !str_eq(existing_provider, provider) {
        Err(ApiError::BadRequest(to_owned_string("state mismatch: upgrade connection does not match identity/provider")))
    } else {
        Ok(())
    }
}

/// Whether an instance may be bound to the new connection: it must exist
/// (`None` when it does not), and belong to the connection's identity (an
/// org-level instance, owned by no one, is refused too). The coarse code on
/// refusal.
pub fn bind_precheck(instance_owner: Option<Option<u128>>, identity: u128) -> (r: Result<(), &'static str>)
    ensures
        instance_owner is None ==> (r matches Err(c) && c@ == "service_instance_not_found"@),
        (instance_owner matches Some(o) && o != Some(identity)) ==> (r matches Err(c) && c@
            == "service_instance_owner_mismatch"@),
        instance_owner == Some(Some(identity)) ==> r is Ok,
{
    match instance_owner {
        None => Err("service_instance_not_found"),
        Some(o) => {
            if o == Some(identity) {
                Ok(())
            } else {
                Err("service_instance_owner_mismatch")
            }
        },
    }
}

/// The code for a bind update's result: `Some(true)` bound, `Some(false)`
/// the instance vanished meanwhile, `None` the update failed.
pub fn bind_update_result(updated: Option<bool>) -> (r: Result<(), &'static str>)
    ensures
        updated == Some(true) ==> r is Ok,
        updated == Some(false) ==> (r matches Err(c) && c@ == "service_instance_not_found"@),
        updated is None ==> (r matches Err(c) && c@ == "service_instance_bind_failed"@),
{
    match updated {
        Some(true) => Ok(()),
        Some(false) => Err("service_instance_not_found"),
        None => Err("service_instance_bind_failed"),
    }
}

/// Binding a new connection to the requested service instances, in order,
/// from each instance's outcome (`None`: bound; `Some(code)`: refused with
/// that coarse code): the ids bound so far and the first failure's code.
/// Binding stops at the first failure, so later outcomes are not consulted.
pub open spec fn bind_fold(ids: Seq<u128>, outcomes: Seq<Option<Seq<char>>>) -> (Seq<u128>, Option<Seq<char>>)
    decreases ids.len(),
{
    if ids.len() == 0 || outcomes.len() == 0 {
        (Seq::empty(), None)
    } else {
        let n = if ids.len() < outcomes.len() { ids.len() } else { outcomes.len() };
        let prev = bind_fold(ids.take(n - 1), outcomes.take(n - 1));
        if prev.1 is Some {
            prev
        } else {
            match outcomes[n - 1] {
                None => (prev.0.push(ids[n - 1]), None),
                Some(c) => (prev.0, Some(c)),
            }
        }
    }
}

/// The views of the outcomes.
pub open spec fn outcome_views(outcomes: Seq<Option<&'static str>>) -> Seq<Option<Seq<char>>> {
    outcomes.map_values(|o: Option<&'static str>| match o {
        Some(c) => Some(c@),
        None => None,
    })
}

/// Whether the binding goes on to the next instance: only while nothing
/// has failed.
pub fn bind_continues(error: Option<&'static str>) -> (b: bool)
    ensures
        b == (error is None),
{
    error.is_none()
}

/// Bind the requested instances from their outcomes, stopping at the first
/// failure. The connection is kept whatever happens.
pub fn bind_all(ids: &[u128], outcomes: &[Option<&'static str>]) -> (r: (Vec<u128>, Option<&'static str>))
    requires
        ids@.len() == outcomes@.len(),
    ensures
        (r.0@, match r.1 {
            Some(c) => Some(c@),
            None => None::<Seq<char>>,
        }) == bind_fold(ids@, outcome_views(outcomes@)),
{
    let ghost os = outcome_views(outcomes@);
    let mut bound: Vec<u128> = Vec::new();
    let mut error: Option<&'static str> = None;
    let mut i: usize = 0;
    while i < ids.len() && bind_continues(error)
        invariant
            i <= ids@.len() == outcomes@.len(),
            os == outcome_views(outcomes@),
            (bound@, match error {
                Some(c) => Some(c@),
                None => None::<Seq<char>>,
            }) == bind_fold(ids@.take(i as int), os.take(i as int)),
        decreases ids@.len() - i,
    {
        proof {
            assert(ids@.take(i + 1).take(i as int) =~= ids@.take(i as int));
            assert(os.take(i + 1).take(i as int) =~= os.take(i as int));
            assert(os.take(i + 1)[i as int] == os[i as int]);
        }
        match outcomes[i] {
            None => bound.push(ids[i]),
            Some(c) => error = Some(c),
        }
        i = i + 1;
    }
    proof {
        lemma_bind_fold_stops(ids@, os, i as nat);
    }
    (bound, error)
}

/// Once a failure is recorded, later outcomes change nothing.
proof fn lemma_bind_fold_stops(ids: Seq<u128>, os: Seq<Option<Seq<char>>>, i: nat)
    requires
        ids.len() == os.len(),
        i <= ids.len(),
        i < ids.len() ==> bind_fold(ids.take(i as int), os.take(i as int)).1 is Some,
    ensures
        bind_fold(ids, os) == bind_fold(ids.take(i as int), os.take(i as int)),
    decreases ids.len() - i,
{
    if i == ids.len() {
        assert(ids.take(i as int) =~= ids);
        assert(os.take(i as int) =~= os);
    } else {
        let j = (i + 1) as nat;
        assert(ids.take(j as int).take(i as int) =~= ids.take(i as int));
        assert(os.take(j as int).take(i as int) =~= os.take(i as int));
        lemma_bind_fold_stops(ids, os, j);
    }
}

/// The binding law: the bound ids are the requested ids before the first
/// failure, in order, and a code is reported exactly when fewer ids were
/// bound than requested, namely the code of the first instance not bound.
pub proof fn law_bind_stops_at_first_failure(ids: Seq<u128>, os: Seq<Option<Seq<char>>>)
    requires
        ids.len() == os.len(),
    ensures
        bind_fold(ids, os).0 == ids.take(bind_fold(ids, os).0.len() as int),
        bind_fold(ids, os).0.len() <= ids.len(),
        (bind_fold(ids, os).1 is Some) <==> bind_fold(ids, os).0.len() < ids.len(),
        forall|j: int| 0 <= j < bind_fold(ids, os).0.len() ==> os[j] is None,
        bind_fold(ids, os).1 is Some ==> os[bind_fold(ids, os).0.len() as int] == bind_fold(ids, os).1,
    decreases ids.len(),
{
    if ids.len() > 0 {
        let n = ids.len();
        assert(ids.take(n - 1).len() == os.take(n - 1).len());
        law_bind_stops_at_first_failure(ids.take(n - 1), os.take(n - 1));
        let prev = bind_fold(ids.take(n - 1), os.take(n - 1));
        assert forall|j: int| 0 <= j < prev.0.len() implies os[j] is None by {
            assert(os.take(n - 1)[j] == os[j]);
        }
        if prev.1 is Some {
            assert(os.take(n - 1)[prev.0.len() as int] == os[prev.0.len() as int]);
            assert(ids.take(n - 1).take(prev.0.len() as int) =~= ids.take(prev.0.len() as int));
        } else {
            assert(prev.0.len() == n - 1);
            assert(ids.take(n - 1).take(prev.0.len() as int) =~= ids.take(n - 1));
            assert(prev.0.push(ids[n - 1]) =~= ids.take(n as int));
            assert(ids.take(n as int) =~= ids);
            assert(ids.take(n - 1) =~= ids.take(prev.0.len() as int));
        }
    }
}

/// Why a connect link can no longer be used, if it cannot: it was already
/// used, or it expired.
pub fn connect_link_gone(consumed: bool, expires_at: i64, now: i64) -> (r: Option<&'static str>)
    ensures
        consumed ==> (r matches Some(m) && m@ == "This OAuth link has already been used. Initiate the connection again to retry."@),
        !consumed && expires_at <= now ==> (r matches Some(m) && m@ == "This OAuth link has expired. Initiate the connection again to retry."@),
        !consumed && expires_at > now ==> r is None,
{
    if consumed {
        Some("This OAuth link has already been used. Initiate the connection again to retry.")
    } else if expires_at <= now {
        Some("This OAuth link has expired. Initiate the connection again to retry.")
    } else {
        None
    }
}

/// What a connect-link page answers.
#[derive(Debug, Clone, Copy, PartialEq, Eq)]
pub enum ConnectPage {
    /// The "link unavailable" page (410) with this message.
    Gone(&'static str),
    /// Send the visitor to log in, coming back to the link.
    Login,
    /// Refuse with 401 and this message.
    Unauthorized(&'static str),
    /// The wrong-account page.
    Mismatch,
    /// The admin consent page.
    Consent,
    /// Consume the link and go on to the provider, switching the session to
    /// the flow's org first when `remint`.
    Proceed { remint: bool },
}

/// The link itself: unknown, used or expired links end on the
/// "link unavailable" page. `flow` is whether it was consumed and when it
/// expires, `None` when no flow has the id.
pub fn connect_flow_page(flow: Option<(bool, i64)>, now: i64) -> (r: Option<ConnectPage>)
    ensures
        flow is None ==> (r matches Some(ConnectPage::Gone(m)) && m@ == "This OAuth link is invalid or has been revoked."@),
        flow matches Some((consumed, expires_at)) ==> (consumed ==> (r matches Some(ConnectPage::Gone(m))
            && m@ == "This OAuth link has already been used. Initiate the connection again to retry."@)),
        flow matches Some((consumed, expires_at)) ==> (!consumed && expires_at <= now ==> (r matches Some(
            ConnectPage::Gone(m),
        ) && m@ == "This OAuth link has expired. Initiate the connection again to retry."@)),
        flow matches Some((consumed, expires_at)) ==> (!consumed && expires_at > now ==> r is None),
{
    match flow {
        None => Some(ConnectPage::Gone("This OAuth link is invalid or has been revoked.")),
        Some((consumed, expires_at)) => match connect_link_gone(consumed, expires_at, now) {
            Some(m) => Some(ConnectPage::Gone(m)),
            None => None,
        },
    }
}

/// Without a readable session: the link page sends a visitor without one
/// to log in, while the consent form (`confirming`) refuses; a cookie that
/// does not verify is refused on both.
pub fn connect_session_page(confirming: bool, err: crate::connect_gate::SessionError) -> (r: ConnectPage)
    ensures
        err == crate::connect_gate::SessionError::Missing && !confirming ==> r == ConnectPage::Login,
        err == crate::connect_gate::SessionError::Missing && confirming ==> (r matches ConnectPage::Unauthorized(m)
            && m@ == "missing session"@),
        err == crate::connect_gate::SessionError::Invalid ==> (r matches ConnectPage::Unauthorized(m) && m@
            == "invalid session cookie"@),
{
    match err {
        crate::connect_gate::SessionError::Missing => if confirming {
            ConnectPage::Unauthorized("missing session")
        } else {
            ConnectPage::Login
        },
        crate::connect_gate::SessionError::Invalid => ConnectPage::Unauthorized("invalid session cookie"),
    }
}

/// The connect check's decision as a page: a denial shows the wrong-account page; a
/// consent-gated flow shows the consent page on the link and proceeds once
/// the consent form (`confirming`) is posted; an allowed flow proceeds.
pub fn connect_gate_page(confirming: bool, d: crate::connect_gate::GateDecision) -> (r: ConnectPage)
    ensures
        r == (match d {
            crate::connect_gate::GateDecision::Deny => ConnectPage::Mismatch,
            crate::connect_gate::GateDecision::NeedsConsent { remint } => if confirming {
                ConnectPage::Proceed { remint }
            } else {
                ConnectPage::Consent
            },
            crate::connect_gate::GateDecision::Allow { remint } => ConnectPage::Proceed { remint },
        }),
{
    match d {
        crate::connect_gate::GateDecision::Deny => ConnectPage::Mismatch,
        crate::connect_gate::GateDecision::NeedsConsent { remint } => if confirming {
            ConnectPage::Proceed { remint }
        } else {
            ConnectPage::Consent
        },
        crate::connect_gate::GateDecision::Allow { remint } => ConnectPage::Proceed { remint },
    }
}

/// Consuming the link is atomic: when another request consumed it first
/// (`consumed` false), the visitor gets the "already used" page instead
/// of the provider.
pub fn consume_page(consumed: bool) -> (r: Option<ConnectPage>)
    ensures
        consumed ==> r is None,
        !consumed ==> (r matches Some(ConnectPage::Gone(m)) && m@
            == "This OAuth link has already been used. Initiate the connection again to retry."@),
{
    if consumed {
        None
    } else {
        Some(ConnectPage::Gone("This OAuth link has already been used. Initiate the connection again to retry."))
    }
}

/// The login path a connect link bounces an unsigned visitor through: the
/// login page with the link (on the public URL) as `next`, percent-encoded.
pub fn connect_login_path(public_url: &str, flow_id: &str) -> (p: String)
    ensures
        p@ == "/auth/login?next="@ + crate::login::url_encode_spec(vstd::utf8::encode_utf8(
            crate::billing::trim_end_char(public_url@, '/') + "/connect-authorize?id="@ + flow_id@,
        )),
{
    let base = crate::billing::trim_end_char_exec(public_url, '/');
    let mut ret = String::new();
    push_chars(&mut ret, base.as_slice());
    push_str(&mut ret, "/connect-authorize?id=");
    push_str(&mut ret, flow_id);
    let enc = crate::login::url_encode(ret.as_str());
    let mut p = String::new();
    push_str(&mut p, "/auth/login?next=");
    push_str(&mut p, enc.as_str());
    p
}

/// Whether the connect check may switch the browser's session to the flow's org:
/// never on an explicit org subdomain, where the dashboard keeps the
/// session aligned itself.
pub fn allow_remint(on_org_subdomain: bool) -> (b: bool)
    ensures
        b == !on_org_subdomain,
{
    !on_org_subdomain
}

/// Whose connections a listing shows.
#[derive(Debug, Clone, Copy, PartialEq, Eq, Structural)]
pub enum ListingScope {
    Own,
    Identity(u128),
    WholeOrg,
}

/// The listing's scope: a named owner is shown when it is the caller or the
/// caller is an org admin (anyone else quietly gets their own); otherwise
/// an admin asking for every user's rows gets the whole org; everyone else
/// their own.
pub fn listing_scope(owner: Option<u128>, caller: u128, include_user_level: bool, is_org_admin: bool) -> (s: ListingScope)
    ensures
        (owner matches Some(o) && o == caller) ==> s == ListingScope::Own,
        (owner matches Some(o) && o != caller && is_org_admin) ==> s == ListingScope::Identity(owner->0),
        (owner matches Some(o) && o != caller && !is_org_admin) ==> s == ListingScope::Own,
        (owner is None && include_user_level && is_org_admin) ==> s == ListingScope::WholeOrg,
        (owner is None && !(include_user_level && is_org_admin)) ==> s == ListingScope::Own,
{
    match owner {
        Some(o) => {
            if o == caller {
                ListingScope::Own
            } else if is_org_admin {
                ListingScope::Identity(o)
            } else {
                ListingScope::Own
            }
        },
        None => {
            if include_user_level && is_org_admin {
                ListingScope::WholeOrg
            } else {
                ListingScope::Own
            }
        },
    }
}

/// The instances a new connection request pins: the listed ones, with the
/// single `service_instance_id` appended when it is not listed yet.
pub fn append_pin_id(pins: &[u128], single: Option<u128>) -> (r: Vec<u128>)
    ensures
        r@ == (match single {
            Some(s) => if pins@.contains(s) { pins@ } else { pins@.push(s) },
            None => pins@,
        }),
{
    let mut out = vstd::slice::slice_to_vec(pins);
    match single {
        Some(s) => {
            if !crate::connect_gate::contains_id(pins, s) {
                out.push(s);
            }
        },
        None => {},
    }
    out
}

/// Who may set a connection's "keep" flag: a key bound to no identity (it
/// acts for the org), the connection's owner, or an org admin. Anyone else
/// is told the connection does not exist.
pub fn keep_allowed(identity_bound: bool, owns: bool, is_org_admin: bool) -> (r: Result<(), ApiError>)
    ensures
        (!identity_bound || owns || is_org_admin) ==> r is Ok,
        !(!identity_bound || owns || is_org_admin) ==> is_error(r, 404, "connection not found"@),
{
    if !identity_bound || owns || is_org_admin {
        Ok(())
    } else {
        Err(ApiError::NotFound(to_owned_string("connection not found")))
    }
}

/// Whether a delete by an identity-bound caller goes through: its own
/// connection, or any connection when it is an org admin.
pub fn delete_allowed(identity_bound: bool, owns: bool, is_org_admin: bool) -> (b: bool)
    ensures
        b == (!identity_bound || owns || is_org_admin),
{
    !identity_bound || owns || is_org_admin
}

/// The checks in front of a scope upgrade: an identity-bound key; the
/// connection must exist and belong to the caller or to the caller's
/// ceiling user; a headless org upgrades on its own side. On success, the
/// owner the new flow is minted for.
pub fn check_scope_upgrade(
    caller: Option<u128>,
    owner: Option<u128>,
    ceiling: u128,
    headless: bool,
) -> (r: Result<u128, ApiError>)
    ensures
        caller is None ==> is_error(r, 400, "OAuth requires an identity-bound API key"@),
        (caller is Some && owner is None) ==> is_error(r, 404, "connection not found"@),
        (caller matches Some(c) && owner matches Some(o) && o != c && o != ceiling) ==> is_error(
            r,
            403,
            "connection belongs to another identity"@,
        ),
        (caller matches Some(c) && owner matches Some(o) && (o == c || o == ceiling) && headless) ==> is_error(
            r,
            400,
            "this org is headless; scopes can't be upgraded through Overslash — broaden the grant and re-import the connection via POST /v1/connections/import"@,
        ),
        (caller matches Some(c) && owner matches Some(o) && (o == c || o == ceiling) && !headless) ==> r
            == Ok::<u128, ApiError>(owner->0),
{
    let c = match caller {
        None => return Err(ApiError::BadRequest(to_owned_string("OAuth requires an identity-bound API key"))),
        Some(c) => c,
    };
    let o = match owner {
        None => return Err(ApiError::NotFound(to_owned_string("connection not found"))),
        Some(o) => o,
    };
    if o != c && o != ceiling {
        return Err(ApiError::Forbidden(to_owned_string("connection belongs to another identity")));
    }
    if headless {
        return Err(ApiError::BadRequest(to_owned_string("this org is headless; scopes can't be upgraded through Overslash — broaden the grant and re-import the connection via POST /v1/connections/import")));
    }
    Ok(o)
}

} // verus!
