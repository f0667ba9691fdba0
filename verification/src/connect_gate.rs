//! The connect gate in front of OAuth-flow URLs: who may drive a flow
//! created for some identity. The owner (or an identity above it) proceeds;
//! the same human signed into another org proceeds after a session switch;
//! an org admin or the flow's actor proceeds only after a loud consent page;
//! everyone else is turned away.

use vstd::prelude::*;
use crate::text::{push_str, to_owned_string};

verus! {

/// A dashboard session, as its verified token names it.
#[derive(Debug, Clone, Copy, PartialEq, Eq, Structural)]
pub struct ParsedSession {
    pub org_id: u128,
    pub identity_id: u128,
    pub user_id: Option<u128>,
}

/// Why no session could be read.
#[derive(Debug, Clone, Copy, PartialEq, Eq, Structural)]
pub enum SessionError {
    Missing,
    Invalid,
}

/// The session token of a request: its `oss_session` cookie.
pub fn session_token(cookie_header: Option<&str>) -> (r: Result<String, SessionError>)
    ensures
        match cookie_header {
            None => r == Err::<String, SessionError>(SessionError::Missing),
            Some(h) => match crate::cookies::cookie_value(h@, "oss_session"@) {
                None => r == Err::<String, SessionError>(SessionError::Missing),
                Some(t) => r matches Ok(s) && s@ == t,
            },
        },
{
    match cookie_header {
        None => Err(SessionError::Missing),
        Some(h) => match crate::cookies::extract_cookie(h, "oss_session") {
            Some(t) => Ok(t),
            None => Err(SessionError::Missing),
        },
    }
}

/// The session a verified token stands for: its org, subject and user
/// claims; a token that failed verification is invalid.
pub fn session_from_claims(verified: Option<(u128, u128, Option<u128>)>) -> (r: Result<ParsedSession, SessionError>)
    ensures
        match verified {
            None => r == Err::<ParsedSession, SessionError>(SessionError::Invalid),
            Some((org, sub, user)) => r == Ok::<ParsedSession, SessionError>(
                ParsedSession { org_id: org, identity_id: sub, user_id: user },
            ),
        },
{
    match verified {
        None => Err(SessionError::Invalid),
        Some((org, sub, user)) => Ok(ParsedSession { org_id: org, identity_id: sub, user_id: user }),
    }
}

/// Whether `x` occurs in `xs`.
pub fn contains_id(xs: &[u128], x: u128) -> (r: bool)
    ensures
        r == xs@.contains(x),
{
    let mut i: usize = 0;
    while i < xs.len()
        invariant
            i <= xs@.len(),
            forall|j: int| 0 <= j < i ==> xs@[j] != x,
        decreases xs@.len() - i,
    {
        if xs[i] == x {
            assert(xs@[i as int] == x);
            return true;
        }
        i = i + 1;
    }
    false
}

/// The generic permit: the session is in the flow's org and is the flow's
/// identity or one of its ancestors (`ancestors`, the owner chain above it).
pub open spec fn authorized_spec(session: ParsedSession, flow_org: u128, flow_identity: u128, ancestors: Seq<u128>) -> bool {
    session.org_id == flow_org && (session.identity_id == flow_identity || ancestors.contains(
        session.identity_id,
    ))
}

/// Whether the session may act for the flow's identity in its org.
pub fn session_authorized_for_org_identity(
    session: &ParsedSession,
    flow_org_id: u128,
    flow_identity_id: u128,
    ancestors: &[u128],
) -> (r: bool)
    ensures
        r == authorized_spec(*session, flow_org_id, flow_identity_id, ancestors@),
{
    if session.org_id != flow_org_id {
        return false;
    }
    if session.identity_id == flow_identity_id {
        return true;
    }
    contains_id(ancestors, session.identity_id)
}

/// A user-kind identity as the same-human match reads it: its id, and the
/// IdP subject and provider it was signed in with.
#[derive(Debug, Clone)]
pub struct IdpIdentity {
    pub id: u128,
    pub external_id: Option<String>,
    pub provider: Option<String>,
}

/// The identity in the target org that is the same human as the session:
/// the identity of the same user when there is one, else the identity
/// bound to the same IdP subject with the same provider. E-mail is never a
/// match key.
pub open spec fn same_human_spec(
    session_user: Option<u128>,
    by_user: Option<u128>,
    session_identity: Option<(Option<Seq<char>>, Option<Seq<char>>)>,
    by_subject: Option<(u128, Option<Seq<char>>)>,
) -> Option<u128> {
    if session_user is Some && by_user is Some {
        by_user
    } else {
        match session_identity {
            None => None,
            Some((subject, provider)) => if subject is None || provider is None {
                None
            } else {
                match by_subject {
                    Some((id, p)) => if p == provider { Some(id) } else { None },
                    None => None,
                }
            },
        }
    }
}

/// Find the same human in the target org. `by_user` is the target org's
/// identity of the session's user (looked up only when the session has
/// one); `session_identity` is the session's own identity; `by_subject` is
/// the target org's identity bound to that identity's subject.
pub fn resolve_same_human_in_org(
    session_user: Option<u128>,
    by_user: Option<u128>,
    session_identity: Option<&IdpIdentity>,
    by_subject: Option<&IdpIdentity>,
) -> (r: Option<u128>)
    ensures
        r == same_human_spec(
            session_user,
            by_user,
            match session_identity {
                Some(s) => Some((crate::login::opt_string(s.external_id), crate::login::opt_string(s.provider))),
                None => None,
            },
            match by_subject {
                Some(c) => Some((c.id, crate::login::opt_string(c.provider))),
                None => None,
            },
        ),
{
    if session_user.is_some() && by_user.is_some() {
        return by_user;
    }
    let s = match session_identity {
        None => return None,
        Some(s) => s,
    };
    if s.external_id.is_none() || s.provider.is_none() {
        return None;
    }
    match by_subject {
        None => None,
        Some(c) => {
            let same = match (&c.provider, &s.provider) {
                (Some(a), Some(b)) => crate::text::str_eq(a.as_str(), b.as_str()),
                (None, None) => true,
                _ => false,
            };
            if same {
                Some(c.id)
            } else {
                None
            }
        },
    }
}

/// The identity acting in the flow's org: its id, its user, whether it is
/// an org admin, and whether that user still holds a membership there.
#[derive(Debug, Clone, Copy, PartialEq, Eq, Structural)]
pub struct ActingIdentity {
    pub id: u128,
    pub user_id: Option<u128>,
    pub is_org_admin: bool,
    pub has_membership: bool,
}

/// How the connect check answers.
#[derive(Debug, Clone, Copy, PartialEq, Eq, Structural)]
pub enum GateDecision {
    /// Proceed to the provider; with `remint`, after switching the browser
    /// session to the acting identity in the flow's org.
    Allow { remint: bool },
    /// Proceed only after the consent page names whose account is linked.
    NeedsConsent { remint: bool },
    Deny,
}

/// The connect check's three tiers, most trusted first. The owner or an ancestor in
/// the flow's org proceeds untouched. Otherwise the acting identity is the
/// session's own in the same org, or (cross-org, when reminting is allowed)
/// the same human's identity there. With a live membership, an owner or
/// ancestor proceeds (switching session if needed) and an org admin may
/// consent; the flow's actor may always consent. Everyone else is denied.
pub open spec fn gate_spec(
    session: ParsedSession,
    flow_org: u128,
    flow_identity: u128,
    flow_actor: u128,
    ancestors: Seq<u128>,
    allow_remint: bool,
    acting: Option<ActingIdentity>,
) -> GateDecision {
    if authorized_spec(session, flow_org, flow_identity, ancestors) {
        GateDecision::Allow { remint: false }
    } else if session.org_id != flow_org && !allow_remint {
        GateDecision::Deny
    } else {
        let remint = session.org_id != flow_org;
        match acting {
            None => GateDecision::Deny,
            Some(a) => {
                let live = a.user_id is Some && a.has_membership;
                if live && (a.id == flow_identity || ancestors.contains(a.id)) {
                    GateDecision::Allow { remint }
                } else if (live && a.is_org_admin) || a.id == flow_actor {
                    GateDecision::NeedsConsent { remint }
                } else {
                    GateDecision::Deny
                }
            },
        }
    }
}

/// Evaluate the connect gate. `acting` is the session's identity in the
/// flow's org (same org), or the same human's identity there (cross org);
/// `None` when there is none.
pub fn evaluate_connect_gate(
    session: &ParsedSession,
    flow_org_id: u128,
    flow_identity_id: u128,
    flow_actor_id: u128,
    ancestors: &[u128],
    allow_remint: bool,
    acting: Option<ActingIdentity>,
) -> (d: GateDecision)
    ensures
        d == gate_spec(*session, flow_org_id, flow_identity_id, flow_actor_id, ancestors@, allow_remint, acting),
{
    if session_authorized_for_org_identity(session, flow_org_id, flow_identity_id, ancestors) {
        return GateDecision::Allow { remint: false };
    }
    if session.org_id != flow_org_id && !allow_remint {
        return GateDecision::Deny;
    }
    let remint = session.org_id != flow_org_id;
    let a = match acting {
        None => return GateDecision::Deny,
        Some(a) => a,
    };
    let live = a.user_id.is_some() && a.has_membership;
    if live && (a.id == flow_identity_id || contains_id(ancestors, a.id)) {
        return GateDecision::Allow { remint };
    }
    if (live && a.is_org_admin) || a.id == flow_actor_id {
        return GateDecision::NeedsConsent { remint };
    }
    GateDecision::Deny
}

/// The owner and its ancestors always pass, and never have their session
/// switched.
pub proof fn law_owner_always_allowed(
    session: ParsedSession,
    flow_org: u128,
    flow_actor: u128,
    ancestors: Seq<u128>,
    allow_remint: bool,
    acting: Option<ActingIdentity>,
)
    requires
        session.org_id == flow_org,
    ensures
        gate_spec(session, flow_org, session.identity_id, flow_actor, ancestors, allow_remint, acting)
            == (GateDecision::Allow { remint: false }),
{
}

/// The owner tier for the acting identity: an identity with a live
/// membership in the flow's org (a user and a membership there) that is the
/// flow's identity or one of its ancestors is let through, with a session
/// switch exactly when the session is in another org, whenever such a
/// switch is allowed or not needed.
pub proof fn law_live_owner_or_ancestor_allowed(
    session: ParsedSession,
    flow_org: u128,
    flow_identity: u128,
    flow_actor: u128,
    ancestors: Seq<u128>,
    allow_remint: bool,
    a: ActingIdentity,
)
    requires
        a.user_id is Some,
        a.has_membership,
        a.id == flow_identity || ancestors.contains(a.id),
        session.org_id == flow_org || allow_remint,
    ensures
        gate_spec(session, flow_org, flow_identity, flow_actor, ancestors, allow_remint, Some(a))
            == (GateDecision::Allow { remint: session.org_id != flow_org }),
{
}

/// Without reminting, a session from another org is always denied.
pub proof fn law_no_cross_org_without_remint(
    session: ParsedSession,
    flow_org: u128,
    flow_identity: u128,
    flow_actor: u128,
    ancestors: Seq<u128>,
    acting: Option<ActingIdentity>,
)
    requires
        session.org_id != flow_org,
    ensures
        gate_spec(session, flow_org, flow_identity, flow_actor, ancestors, false, acting) == GateDecision::Deny,
{
}

/// An admin whose membership is gone is never let through as an admin:
/// without a live membership only the flow's actor reaches consent, and
/// nothing is allowed outright beyond the owner tier.
pub proof fn law_stale_admin_not_trusted(
    session: ParsedSession,
    flow_org: u128,
    flow_identity: u128,
    flow_actor: u128,
    ancestors: Seq<u128>,
    allow_remint: bool,
    a: ActingIdentity,
)
    requires
        !authorized_spec(session, flow_org, flow_identity, ancestors),
        !a.has_membership,
        a.id != flow_actor,
    ensures
        gate_spec(session, flow_org, flow_identity, flow_actor, ancestors, allow_remint, Some(a))
            == GateDecision::Deny,
{
}

/// The outcome handed to the connect check's caller.
#[derive(Debug, Clone, PartialEq, Eq)]
pub enum ConnectGateOutcome {
    Allow { set_cookie: Option<String> },
    NeedsConsent { set_cookie: Option<String>, owner_label: String, provider: String },
    Deny,
}

/// The consent page's name for an owner given as its name and e-mail:
/// `name (email)` when it has a non-empty e-mail, its name otherwise, and
/// `another identity` when the owner is gone.
pub open spec fn owner_label_spec(owner: Option<(Seq<char>, Option<Seq<char>>)>) -> Seq<char> {
    match owner {
        None => "another identity"@,
        Some((name, email)) => match email {
            Some(e) => if e.len() > 0 {
                name + " ("@ + e + ")"@
            } else {
                name
            },
            None => name,
        },
    }
}

/// An owner as plain values.
pub open spec fn owner_view(owner: Option<(&str, Option<&str>)>) -> Option<(Seq<char>, Option<Seq<char>>)> {
    match owner {
        None => None,
        Some((name, email)) => Some((name@, crate::cookies::opt_str(email))),
    }
}

/// The consent page's name for the flow's owner: `name (email)` when it
/// has an e-mail, its name otherwise, and `another identity` when the owner
/// is gone.
pub fn owner_label(owner: Option<(&str, Option<&str>)>) -> (s: String)
    ensures
        s@ == owner_label_spec(owner_view(owner)),
{
    match owner {
        None => to_owned_string("another identity"),
        Some((name, email)) => match email {
            Some(e) => {
                if e.is_empty() {
                    to_owned_string(name)
                } else {
                    let mut s = String::new();
                    push_str(&mut s, name);
                    push_str(&mut s, " (");
                    push_str(&mut s, e);
                    push_str(&mut s, ")");
                    s
                }
            },
            None => to_owned_string(name),
        },
    }
}

/// The cookie an outcome carries, when the decision switches the session.
pub open spec fn switch_cookie_for(remint: bool, switch_cookie: Option<String>) -> Option<String> {
    if remint {
        switch_cookie
    } else {
        None
    }
}

/// The connect check's outcome as a connect page receives it: the decision
/// of `evaluate_connect_gate`; an allowed or consent-gated flow carries the
/// session-switch cookie exactly when the decision switches the session
/// (`switch_cookie` is the cookie minted for the acting identity in the
/// flow's org); a consent-gated flow also carries the label of the flow's
/// owner and the flow's provider, for the consent page.
pub fn connect_gate_outcome(
    session: &ParsedSession,
    flow_org_id: u128,
    flow_identity_id: u128,
    flow_actor_id: u128,
    ancestors: &[u128],
    allow_remint: bool,
    acting: Option<ActingIdentity>,
    switch_cookie: Option<String>,
    owner: Option<(&str, Option<&str>)>,
    provider: &str,
) -> (o: ConnectGateOutcome)
    ensures
        match gate_spec(*session, flow_org_id, flow_identity_id, flow_actor_id, ancestors@, allow_remint, acting) {
            GateDecision::Deny => o == ConnectGateOutcome::Deny,
            GateDecision::Allow { remint } => o == (ConnectGateOutcome::Allow {
                set_cookie: switch_cookie_for(remint, switch_cookie),
            }),
            GateDecision::NeedsConsent { remint } => o matches ConnectGateOutcome::NeedsConsent {
                set_cookie,
                owner_label: l,
                provider: p,
            } && set_cookie == switch_cookie_for(remint, switch_cookie) && l@ == owner_label_spec(owner_view(owner))
                && p@ == provider@,
        },
        (o matches ConnectGateOutcome::Allow { set_cookie } && set_cookie is Some) ==> session.org_id
            != flow_org_id && allow_remint,
        (o matches ConnectGateOutcome::NeedsConsent { set_cookie, .. } && set_cookie is Some) ==> session.org_id
            != flow_org_id && allow_remint,
        switch_cookie is Some ==> (o matches ConnectGateOutcome::Allow { set_cookie } ==> (set_cookie is Some
            <==> session.org_id != flow_org_id)),
        switch_cookie is Some ==> (o matches ConnectGateOutcome::NeedsConsent { set_cookie, .. } ==> (set_cookie
            is Some <==> session.org_id != flow_org_id)),
{
    let d = evaluate_connect_gate(session, flow_org_id, flow_identity_id, flow_actor_id, ancestors, allow_remint, acting);
    match d {
        GateDecision::Deny => ConnectGateOutcome::Deny,
        GateDecision::Allow { remint } => ConnectGateOutcome::Allow {
            set_cookie: if remint { switch_cookie } else { None },
        },
        GateDecision::NeedsConsent { remint } => ConnectGateOutcome::NeedsConsent {
            set_cookie: if remint { switch_cookie } else { None },
            owner_label: owner_label(owner),
            provider: to_owned_string(provider),
        },
    }
}

} // verus!
