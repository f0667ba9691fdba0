//! The approval queue's rules: who may resolve, call or cancel an approval,
//! what a resolution means, which "remember" keys are stored, and how a
//! lost race on the execution row is reported.

use vstd::prelude::*;
use crate::audit::string_views;
use crate::error::{ApiError, is_error};
use crate::text::{push_str, str_eq, to_owned_string};

verus! {

/// An API credential's access level, lowest first.
#[derive(Debug, Clone, Copy, PartialEq, Eq, Structural)]
pub enum AccessLevel {
    Read,
    Write,
    Admin,
}

/// The rung of an access level.
pub open spec fn level_rank(l: AccessLevel) -> int {
    match l {
        AccessLevel::Read => 0,
        AccessLevel::Write => 1,
        AccessLevel::Admin => 2,
    }
}

fn at_least_write(l: AccessLevel) -> (r: bool)
    ensures
        r == (level_rank(l) >= 1),
{
    match l {
        AccessLevel::Read => false,
        _ => true,
    }
}

fn is_admin(l: AccessLevel) -> (r: bool)
    ensures
        r == (level_rank(l) >= 2),
{
    match l {
        AccessLevel::Admin => true,
        _ => false,
    }
}

/// The higher of two optional levels.
pub open spec fn higher_level(a: Option<AccessLevel>, b: Option<AccessLevel>) -> Option<AccessLevel> {
    match (a, b) {
        (None, _) => b,
        (_, None) => a,
        (Some(x), Some(y)) => if level_rank(y) > level_rank(x) { b } else { a },
    }
}

/// The highest level among the grants of the `overslash` template; each
/// grant is its template key and its level, `None` when the level text was
/// not a level.
pub open spec fn overslash_level_spec(grants: Seq<(Seq<char>, Option<AccessLevel>)>) -> Option<AccessLevel>
    decreases grants.len(),
{
    if grants.len() == 0 {
        None
    } else {
        let g = grants.last();
        higher_level(
            overslash_level_spec(grants.drop_last()),
            if g.0 == "overslash"@ { g.1 } else { None },
        )
    }
}

/// A grant as plain values.
pub open spec fn grant_view(g: (String, Option<AccessLevel>)) -> (Seq<char>, Option<AccessLevel>) {
    (g.0@, g.1)
}

/// The access level a session reports: the highest one granted to the
/// user through the `overslash` template, none without such a grant.
pub fn overslash_acl_level(grants: &[(String, Option<AccessLevel>)]) -> (r: Option<AccessLevel>)
    ensures
        r == overslash_level_spec(grants@.map_values(|g: (String, Option<AccessLevel>)| grant_view(g))),
{
    let ghost gs = grants@.map_values(|g: (String, Option<AccessLevel>)| grant_view(g));
    let mut best: Option<AccessLevel> = None;
    let mut i: usize = 0;
    while i < grants.len()
        invariant
            i <= grants@.len(),
            gs == grants@.map_values(|g: (String, Option<AccessLevel>)| grant_view(g)),
            best == overslash_level_spec(gs.take(i as int)),
        decreases grants@.len() - i,
    {
        proof {
            assert(gs.take(i + 1).drop_last() =~= gs.take(i as int));
            assert(gs.take(i + 1).last() == grant_view(grants@[i as int]));
        }
        let (key, level) = &grants[i];
        let cand = if str_eq(key.as_str(), "overslash") { *level } else { None };
        best = match (best, cand) {
            (None, _) => cand,
            (_, None) => best,
            (Some(x), Some(y)) => if level_value(y) > level_value(x) { cand } else { best },
        };
        i = i + 1;
    }
    proof {
        assert(gs.take(grants@.len() as int) =~= gs);
    }
    best
}

fn level_value(l: AccessLevel) -> (v: u8)
    ensures
        v == level_rank(l),
{
    match l {
        AccessLevel::Read => 0,
        AccessLevel::Write => 1,
        AccessLevel::Admin => 2,
    }
}

/// How the caller stands to the identity that requested an approval.
#[derive(Debug, Clone, Copy, PartialEq, Eq, Structural)]
pub enum Relationship {
    SelfApproval,
    Downstream,
    NotInYourChain,
}

impl Relationship {
    /// The wire name of the relationship.
    pub fn as_str(self) -> (s: &'static str)
        ensures
            s@ == (match self {
                Relationship::SelfApproval => "self"@,
                Relationship::Downstream => "downstream"@,
                Relationship::NotInYourChain => "not_in_your_chain"@,
            }),
    {
        match self {
            Relationship::SelfApproval => "self",
            Relationship::Downstream => "downstream",
            Relationship::NotInYourChain => "not_in_your_chain",
        }
    }
}

/// Why a resolver was refused.
#[derive(Debug, Clone, PartialEq, Eq)]
pub enum ResolveRefusal {
    /// The typed "not in your chain" envelope, with its reason.
    NotInYourChain { identity_id: u128, reason: String },
    Forbidden(String),
}

/// Who may resolve an approval. A self-approval needs the caller's MCP
/// binding with self-approval switched on (`binding` is that binding's id
/// and flag, looked up only for an MCP client). A downstream caller must be
/// the current resolver or above it, unless an admin. A caller outside the
/// requester's chain needs admin access. On success, the binding that
/// authorized a self-approval, if any.
pub open spec fn resolve_auth_spec(
    caller: u128,
    rel: Relationship,
    has_mcp_client: bool,
    binding: Option<(u128, bool)>,
    level: AccessLevel,
    in_resolver_chain: bool,
) -> Result<Option<u128>, ResolveRefusal> {
    match rel {
        Relationship::SelfApproval => if !has_mcp_client {
            Err(ResolveRefusal::NotInYourChain { identity_id: caller, reason: arbitrary() })
        } else {
            match binding {
                Some((id, true)) => Ok(Some(id)),
                _ => Err(ResolveRefusal::NotInYourChain { identity_id: caller, reason: arbitrary() }),
            }
        },
        Relationship::Downstream => if level_rank(level) < 2 && !in_resolver_chain {
            Err(ResolveRefusal::Forbidden(arbitrary()))
        } else {
            Ok(None)
        },
        Relationship::NotInYourChain => if level_rank(level) < 2 {
            Err(ResolveRefusal::NotInYourChain { identity_id: caller, reason: arbitrary() })
        } else {
            Ok(None)
        },
    }
}

/// Whether a refusal is the one `resolve_auth_spec` names, with the reason
/// each case carries.
pub open spec fn refusal_matches(got: ResolveRefusal, want: ResolveRefusal, rel: Relationship) -> bool {
    match (got, want) {
        (ResolveRefusal::NotInYourChain { identity_id: a, reason: r }, ResolveRefusal::NotInYourChain {
            identity_id: b,
            reason: _,
        }) => a == b && r@ == (if rel == Relationship::SelfApproval {
            "self_approval_disabled"@
        } else {
            "caller is not in the requester's identity chain"@
        }),
        (ResolveRefusal::Forbidden(m), ResolveRefusal::Forbidden(_)) => m@
            == "caller is not authorized to resolve this approval"@,
        _ => false,
    }
}

/// Authorize a caller to resolve an approval.
pub fn authorize_resolver(
    caller: u128,
    rel: Relationship,
    has_mcp_client: bool,
    binding: Option<(u128, bool)>,
    level: AccessLevel,
    in_resolver_chain: bool,
) -> (r: Result<Option<u128>, ResolveRefusal>)
    ensures
        match resolve_auth_spec(caller, rel, has_mcp_client, binding, level, in_resolver_chain) {
            Ok(b) => r == Ok::<Option<u128>, ResolveRefusal>(b),
            Err(want) => r matches Err(got) && refusal_matches(got, want, rel),
        },
{
    match rel {
        Relationship::SelfApproval => {
            if !has_mcp_client {
                return Err(
                    ResolveRefusal::NotInYourChain {
                        identity_id: caller,
                        reason: to_owned_string("self_approval_disabled"),
                    },
                );
            }
            match binding {
                Some((id, enabled)) => {
                    if enabled {
                        Ok(Some(id))
                    } else {
                        Err(
                            ResolveRefusal::NotInYourChain {
                                identity_id: caller,
                                reason: to_owned_string("self_approval_disabled"),
                            },
                        )
                    }
                },
                None => Err(
                    ResolveRefusal::NotInYourChain {
                        identity_id: caller,
                        reason: to_owned_string("self_approval_disabled"),
                    },
                ),
            }
        },
        Relationship::Downstream => {
            if !is_admin(level) && !in_resolver_chain {
                Err(ResolveRefusal::Forbidden(to_owned_string("caller is not authorized to resolve this approval")))
            } else {
                Ok(None)
            }
        },
        Relationship::NotInYourChain => {
            if !is_admin(level) {
                Err(
                    ResolveRefusal::NotInYourChain {
                        identity_id: caller,
                        reason: to_owned_string("caller is not in the requester's identity chain"),
                    },
                )
            } else {
                Ok(None)
            }
        },
    }
}

/// A self-approval is never authorized by access level alone: without an
/// enabled binding it is refused, even for an admin.
pub proof fn law_self_approval_needs_binding(
    caller: u128,
    has_mcp_client: bool,
    binding: Option<(u128, bool)>,
    level: AccessLevel,
    in_resolver_chain: bool,
)
    requires
        !(has_mcp_client && binding matches Some((_, true))),
    ensures
        resolve_auth_spec(caller, Relationship::SelfApproval, has_mcp_client, binding, level, in_resolver_chain) is Err,
{
}

/// An org admin may resolve any approval in the org that is not their own,
/// whether or not they are in its chain.
pub proof fn law_admin_resolves_others(
    caller: u128,
    rel: Relationship,
    has_mcp_client: bool,
    binding: Option<(u128, bool)>,
    in_resolver_chain: bool,
)
    requires
        rel != Relationship::SelfApproval,
    ensures
        resolve_auth_spec(caller, rel, has_mcp_client, binding, AccessLevel::Admin, in_resolver_chain)
            == Ok::<Option<u128>, ResolveRefusal>(None),
{
}

/// What a resolver asks for.
#[derive(Debug, Clone, Copy, PartialEq, Eq, Structural)]
pub enum Resolution {
    Allow,
    Deny,
    AllowRemember,
    BubbleUp,
}

/// Read a resolution; anything else is a bad request naming it.
pub fn parse_resolution(s: &str) -> (r: Result<Resolution, ApiError>)
    ensures
        s@ == "allow"@ ==> r == Ok::<Resolution, ApiError>(Resolution::Allow),
        s@ == "deny"@ ==> r == Ok::<Resolution, ApiError>(Resolution::Deny),
        s@ == "allow_remember"@ ==> r == Ok::<Resolution, ApiError>(Resolution::AllowRemember),
        s@ == "bubble_up"@ ==> r == Ok::<Resolution, ApiError>(Resolution::BubbleUp),
        (s@ != "allow"@ && s@ != "deny"@ && s@ != "allow_remember"@ && s@ != "bubble_up"@) ==> is_error(
            r,
            400,
            "invalid resolution: "@ + s@,
        ),
{
    proof {
        reveal_strlit("allow");
        reveal_strlit("deny");
        reveal_strlit("allow_remember");
        reveal_strlit("bubble_up");
        assert("allow"@.len() == 5 && "deny"@.len() == 4 && "allow_remember"@.len() == 14
            && "bubble_up"@.len() == 9);
    }
    if str_eq(s, "bubble_up") {
        Ok(Resolution::BubbleUp)
    } else if str_eq(s, "allow") {
        Ok(Resolution::Allow)
    } else if str_eq(s, "deny") {
        Ok(Resolution::Deny)
    } else if str_eq(s, "allow_remember") {
        Ok(Resolution::AllowRemember)
    } else {
        let mut m = String::new();
        push_str(&mut m, "invalid resolution: ");
        push_str(&mut m, s);
        Err(ApiError::BadRequest(m))
    }
}

/// The status a resolution writes and whether it remembers a rule; a
/// bubble-up writes none.
pub fn resolution_outcome(r: Resolution) -> (o: Option<(&'static str, bool)>)
    ensures
        r == Resolution::Allow ==> (o matches Some((s, false)) && s@ == "allowed"@),
        r == Resolution::Deny ==> (o matches Some((s, false)) && s@ == "denied"@),
        r == Resolution::AllowRemember ==> (o matches Some((s, true)) && s@ == "allowed"@),
        r == Resolution::BubbleUp ==> o is None,
{
    match r {
        Resolution::Allow => Some(("allowed", false)),
        Resolution::Deny => Some(("denied", false)),
        Resolution::AllowRemember => Some(("allowed", true)),
        Resolution::BubbleUp => None,
    }
}

/// A bubble-up must move the approval: at the final resolver it is a
/// conflict.
pub fn check_bubble(current_resolver: u128, next_resolver: u128) -> (r: Result<(), ApiError>)
    ensures
        next_resolver == current_resolver ==> is_error(r, 409, "approval is already at the final resolver"@),
        next_resolver != current_resolver ==> r is Ok,
{
    if next_resolver == current_resolver {
        Err(ApiError::Conflict(to_owned_string("approval is already at the final resolver")))
    } else {
        Ok(())
    }
}

/// The metric label of a resolved status.
pub fn event_label(status: &str) -> (s: String)
    ensures
        status@ == "allowed"@ ==> s@ == "approved"@,
        status@ == "denied"@ ==> s@ == "denied"@,
        (status@ != "allowed"@ && status@ != "denied"@) ==> s@ == status@,
{
    proof {
        reveal_strlit("allowed");
        reveal_strlit("denied");
        assert("allowed"@.len() == 7 && "denied"@.len() == 6);
    }
    if str_eq(status, "allowed") {
        to_owned_string("approved")
    } else if str_eq(status, "denied") {
        to_owned_string("denied")
    } else {
        to_owned_string(status)
    }
}

/// The longest a remembered rule may live: a year.
pub const MAX_REMEMBER_TTL_SECS: u64 = 31536000;

/// Check the TTL of a remembered rule: `None` when none was asked; for a
/// TTL text `t`, `parsed` is its length in seconds, `None` when it does
/// not parse. The rule's lifetime in seconds when accepted.
pub fn check_remember_ttl(ttl: Option<(&str, Option<u64>)>) -> (r: Result<Option<i64>, ApiError>)
    ensures
        match ttl {
            None => r == Ok::<Option<i64>, ApiError>(None),
            Some((t, None)) => is_error(r, 400, "invalid ttl: "@ + t@),
            Some((t, Some(secs))) => if secs > MAX_REMEMBER_TTL_SECS {
                is_error(r, 400, "ttl must not exceed 365 days"@)
            } else {
                r == Ok::<Option<i64>, ApiError>(Some(secs as i64))
            },
        },
{
    match ttl {
        None => Ok(None),
        Some((t, parsed)) => match parsed {
            None => {
                let mut m = String::new();
                push_str(&mut m, "invalid ttl: ");
                push_str(&mut m, t);
                Err(ApiError::BadRequest(m))
            },
            Some(secs) => {
                if secs > MAX_REMEMBER_TTL_SECS {
                    Err(ApiError::BadRequest(to_owned_string("ttl must not exceed 365 days")))
                } else {
                    Ok(Some(secs as i64))
                }
            },
        },
    }
}

/// The keys of `keys` without repeats, first occurrences in order.
pub open spec fn dedupe_spec(keys: Seq<Seq<char>>) -> Seq<Seq<char>>
    decreases keys.len(),
{
    if keys.len() == 0 {
        Seq::empty()
    } else {
        let prev = dedupe_spec(keys.drop_last());
        if prev.contains(keys.last()) {
            prev
        } else {
            prev.push(keys.last())
        }
    }
}

proof fn lemma_dedupe_members(keys: Seq<Seq<char>>)
    ensures
        forall|k: Seq<char>| dedupe_spec(keys).contains(k) <==> keys.contains(k),
        forall|i: int, j: int| 0 <= i < j < dedupe_spec(keys).len() ==> dedupe_spec(keys)[i] != dedupe_spec(keys)[j],
    decreases keys.len(),
{
    if keys.len() > 0 {
        let init = keys.drop_last();
        lemma_dedupe_members(init);
        let prev = dedupe_spec(init);
        assert forall|k: Seq<char>| dedupe_spec(keys).contains(k) <==> keys.contains(k) by {
            assert(prev.contains(k) <==> init.contains(k));
            if keys.contains(k) {
                let i = choose|i: int| 0 <= i < keys.len() && keys[i] == k;
                if i < keys.len() - 1 {
                    assert(init[i] == k);
                    assert(init.contains(k));
                    assert(prev.contains(k));
                    if !prev.contains(keys.last()) {
                        let w = choose|w: int| 0 <= w < prev.len() && prev[w] == k;
                        assert(prev.push(keys.last())[w] == k);
                    }
                } else {
                    assert(k == keys.last());
                    if !prev.contains(keys.last()) {
                        assert(prev.push(keys.last())[prev.len() as int] == k);
                    }
                }
            }
            if dedupe_spec(keys).contains(k) {
                if prev.contains(k) {
                    assert(init.contains(k));
                    let i = choose|i: int| 0 <= i < init.len() && init[i] == k;
                    assert(keys[i] == k);
                } else {
                    let d = dedupe_spec(keys);
                    let i = choose|i: int| 0 <= i < d.len() && d[i] == k;
                    assert(i == prev.len());
                    assert(k == keys.last());
                    assert(keys[keys.len() - 1] == k);
                }
            }
        }
        let d = dedupe_spec(keys);
        assert forall|i: int, j: int| 0 <= i < j < d.len() implies d[i] != d[j] by {
            if !prev.contains(keys.last()) && j == prev.len() {
                assert(d[i] == prev[i]);
                if d[i] == d[j] {
                    assert(prev.contains(keys.last()));
                }
            }
        }
    }
}

/// Drop repeated keys, keeping the first of each: one key, one rule.
pub fn dedupe_keys(keys: &[String]) -> (out: Vec<String>)
    ensures
        string_views(out@) == dedupe_spec(string_views(keys@)),
{
    let ghost all = string_views(keys@);
    let mut out: Vec<String> = Vec::new();
    let mut i: usize = 0;
    proof {
        assert(string_views(out@) =~= dedupe_spec(all.take(0)));
    }
    while i < keys.len()
        invariant
            i <= keys@.len(),
            all == string_views(keys@),
            string_views(out@) == dedupe_spec(all.take(i as int)),
        decreases keys@.len() - i,
    {
        let ghost prev = string_views(out@);
        proof {
            assert(all.take(i + 1).drop_last() =~= all.take(i as int));
            assert(all.take(i + 1).last() == keys@[i as int]@);
        }
        let mut seen = false;
        let mut j: usize = 0;
        while j < out.len()
            invariant
                j <= out@.len(),
                prev == string_views(out@),
                seen == prev.take(j as int).contains(keys@[i as int]@),
                i < keys@.len(),
            decreases out@.len() - j,
        {
            proof {
                assert(prev.take(j + 1) =~= prev.take(j as int).push(prev[j as int]));
            }
            if str_eq(out[j].as_str(), keys[i].as_str()) {
                proof {
                    assert(prev.take(j + 1)[j as int] == keys@[i as int]@);
                }
                seen = true;
            } else {
                proof {
                    if prev.take(j + 1).contains(keys@[i as int]@) {
                        let k = choose|k: int| 0 <= k < j + 1 && #[trigger] prev.take(j + 1)[k] == keys@[i as int]@;
                        assert(prev.take(j as int)[k] == keys@[i as int]@);
                    }
                }
            }
            j = j + 1;
        }
        proof {
            assert(prev.take(prev.len() as int) =~= prev);
        }
        if !seen {
            let k = to_owned_string(keys[i].as_str());
            out.push(k);
            proof {
                assert(string_views(out@) =~= prev.push(keys@[i as int]@));
            }
        }
        i = i + 1;
    }
    proof {
        assert(all.take(keys@.len() as int) =~= all);
    }
    out
}

/// Deduplication keeps exactly the keys it was given, each once.
pub proof fn law_dedupe_keeps_keys_once(keys: Seq<Seq<char>>)
    ensures
        forall|k: Seq<char>| dedupe_spec(keys).contains(k) <==> keys.contains(k),
        forall|i: int, j: int| 0 <= i < j < dedupe_spec(keys).len() ==> dedupe_spec(keys)[i] != dedupe_spec(keys)[j],
{
    lemma_dedupe_members(keys);
}

/// The first index at which `flags` is false, if any.
pub open spec fn first_false(flags: Seq<bool>) -> Option<int> {
    if exists|i: int| 0 <= i < flags.len() && !flags[i] {
        Some(choose|i: int| 0 <= i < flags.len() && !flags[i] && forall|j: int| 0 <= j < i ==> flags[j])
    } else {
        None
    }
}

fn first_false_exec(flags: &[bool]) -> (r: Option<usize>)
    ensures
        match r {
            Some(i) => i < flags@.len() && !flags@[i as int] && forall|j: int| 0 <= j < i ==> flags@[j],
            None => forall|j: int| 0 <= j < flags@.len() ==> flags@[j],
        },
{
    let mut i: usize = 0;
    while i < flags.len()
        invariant
            i <= flags@.len(),
            forall|j: int| 0 <= j < i ==> flags@[j],
        decreases flags@.len() - i,
    {
        if !flags[i] {
            return Some(i);
        }
        i = i + 1;
    }
    None
}

/// The keys a remembered rule is written for. Explicit keys must not be an
/// empty list, and each must relate to the request (`relates[i]` says
/// whether key `i` is one of the suggested tiers or covers a requested
/// key); the first that does not is refused by name. Repeats are dropped.
/// Without explicit keys, the approval's own permission keys are used.
pub fn effective_remember_keys(
    requested: Option<&[String]>,
    relates: &[bool],
    permission_keys: &[String],
) -> (r: Result<Vec<String>, ApiError>)
    requires
        requested matches Some(k) ==> k@.len() == relates@.len(),
    ensures
        requested is None ==> (r matches Ok(v) && string_views(v@) == string_views(permission_keys@)),
        (requested matches Some(k) && k@.len() == 0) ==> is_error(r, 400, "remember_keys must not be empty"@),
        (requested matches Some(k) && k@.len() > 0 && forall|j: int| 0 <= j < relates@.len() ==> relates@[j])
            ==> (r matches Ok(v) && string_views(v@) == dedupe_spec(string_views(requested->0@))),
        (requested matches Some(k) && k@.len() > 0 && exists|j: int| 0 <= j < relates@.len() && !relates@[j])
            ==> exists|i: int| 0 <= i < relates@.len() && !relates@[i] && (forall|j: int| 0 <= j < i ==> relates@[j])
            && is_error(r, 400, "remember_key '"@ + requested->0@[i]@ + "' does not cover any permission key this approval requested"@),
{
    match requested {
        None => {
            let mut out: Vec<String> = Vec::new();
            let mut i: usize = 0;
            while i < permission_keys.len()
                invariant
                    i <= permission_keys@.len(),
                    string_views(out@) == string_views(permission_keys@).take(i as int),
                decreases permission_keys@.len() - i,
            {
                let ghost before = string_views(out@);
                let k = to_owned_string(permission_keys[i].as_str());
                out.push(k);
                proof {
                    assert(string_views(out@) =~= before.push(permission_keys@[i as int]@));
                    assert(string_views(permission_keys@).take(i + 1) =~= string_views(permission_keys@).take(
                        i as int,
                    ).push(permission_keys@[i as int]@));
                }
                i = i + 1;
            }
            proof {
                assert(string_views(permission_keys@).take(permission_keys@.len() as int) =~= string_views(
                    permission_keys@,
                ));
            }
            Ok(out)
        },
        Some(keys) => {
            if keys.len() == 0 {
                return Err(ApiError::BadRequest(to_owned_string("remember_keys must not be empty")));
            }
            match first_false_exec(relates) {
                Some(i) => {
                    let mut m = String::new();
                    push_str(&mut m, "remember_key '");
                    push_str(&mut m, keys[i].as_str());
                    push_str(&mut m, "' does not cover any permission key this approval requested");
                    Err(ApiError::BadRequest(m))
                },
                None => Ok(dedupe_keys(keys)),
            }
        },
    }
}

/// The group-ceiling check of remembered keys: `exceeded[i]` is the reason
/// key `i` exceeds the caller's ceiling, if it does; the first such key is
/// refused by name.
pub fn check_ceiling(keys: &[String], exceeded: &[Option<String>]) -> (r: Result<(), ApiError>)
    requires
        keys@.len() == exceeded@.len(),
    ensures
        (forall|j: int| 0 <= j < exceeded@.len() ==> exceeded@[j] is None) ==> r is Ok,
        (exists|j: int| 0 <= j < exceeded@.len() && exceeded@[j] is Some) ==> exists|i: int|
            0 <= i < exceeded@.len() && exceeded@[i] is Some && (forall|j: int| 0 <= j < i ==> exceeded@[j] is None)
                && is_error(r, 400, "key '"@ + keys@[i]@ + "' exceeds group ceiling: "@ + exceeded@[i]->0@),
{
    let mut i: usize = 0;
    while i < exceeded.len()
        invariant
            i <= exceeded@.len(),
            keys@.len() == exceeded@.len(),
            forall|j: int| 0 <= j < i ==> exceeded@[j] is None,
        decreases exceeded@.len() - i,
    {
        match &exceeded[i] {
            Some(reason) => {
                let mut m = String::new();
                push_str(&mut m, "key '");
                push_str(&mut m, keys[i].as_str());
                push_str(&mut m, "' exceeds group ceiling: ");
                push_str(&mut m, reason.as_str());
                return Err(ApiError::BadRequest(m));
            },
            None => {},
        }
        i = i + 1;
    }
    Ok(())
}

/// Whether an allowed approval is handed to the background auto-call: the
/// requesting identity opted in (a failed lookup counts as not) and no
/// elicitation round trip is already driving it.
pub fn should_auto_call(auto_call_on_approve: Option<bool>, elicitation_active: Option<bool>) -> (b: bool)
    ensures
        b == (auto_call_on_approve == Some(true) && elicitation_active != Some(true)),
{
    let enabled = match auto_call_on_approve {
        Some(b) => b,
        None => false,
    };
    let active = match elicitation_active {
        Some(b) => b,
        None => false,
    };
    !active && enabled
}

/// Who triggered a replay and whether they may: the requester itself
/// (`agent`), else a caller with write access who is the current resolver
/// or above it, or an admin (`user`).
pub fn call_trigger(
    caller: Option<u128>,
    requester: u128,
    level: AccessLevel,
    in_resolver_chain: bool,
) -> (r: Result<&'static str, ApiError>)
    ensures
        caller is None ==> is_error(r, 403, "identity-bound credential required"@),
        caller == Some(requester) ==> (r matches Ok(s) && s@ == "agent"@),
        (caller matches Some(c) && c != requester && level_rank(level) < 1) ==> is_error(r, 403, "write access required"@),
        (caller matches Some(c) && c != requester && level_rank(level) == 1 && !in_resolver_chain) ==> is_error(
            r,
            403,
            "caller is not authorized to call this approval"@,
        ),
        (caller matches Some(c) && c != requester && level_rank(level) >= 1 && (level_rank(level) == 2
            || in_resolver_chain)) ==> (r matches Ok(s) && s@ == "user"@),
{
    let c = match caller {
        None => return Err(ApiError::Forbidden(to_owned_string("identity-bound credential required"))),
        Some(c) => c,
    };
    if c == requester {
        return Ok("agent");
    }
    if !at_least_write(level) {
        return Err(ApiError::Forbidden(to_owned_string("write access required")));
    }
    if !is_admin(level) && !in_resolver_chain {
        return Err(ApiError::Forbidden(to_owned_string("caller is not authorized to call this approval")));
    }
    Ok("user")
}

/// Only an allowed approval can be called.
pub fn check_callable(status: &str) -> (r: Result<(), ApiError>)
    ensures
        status@ == "allowed"@ ==> r is Ok,
        status@ != "allowed"@ ==> is_error(r, 409, "approval is not in 'allowed' state (status="@ + status@ + ")"@),
{
    if str_eq(status, "allowed") {
        Ok(())
    } else {
        let mut m = String::new();
        push_str(&mut m, "approval is not in 'allowed' state (status=");
        push_str(&mut m, status);
        push_str(&mut m, ")");
        Err(ApiError::Conflict(m))
    }
}

/// Who may cancel an approval's execution: a credential without an identity
/// is not checked here; the requester may cancel its own; anyone else needs
/// write access and, short of admin, must be the current resolver or above.
pub fn authorize_cancel(
    caller: Option<u128>,
    requester: u128,
    level: AccessLevel,
    in_resolver_chain: bool,
) -> (r: Result<(), ApiError>)
    ensures
        (caller is None || caller == Some(requester)) ==> r is Ok,
        (caller matches Some(c) && c != requester && level_rank(level) < 1) ==> is_error(r, 403, "write access required"@),
        (caller matches Some(c) && c != requester && level_rank(level) == 1 && !in_resolver_chain) ==> is_error(
            r,
            403,
            "caller is not authorized to cancel this execution"@,
        ),
        (caller matches Some(c) && c != requester && level_rank(level) >= 1 && (level_rank(level) == 2
            || in_resolver_chain)) ==> r is Ok,
{
    match caller {
        None => Ok(()),
        Some(c) => {
            if c == requester {
                return Ok(());
            }
            if !at_least_write(level) {
                return Err(ApiError::Forbidden(to_owned_string("write access required")));
            }
            if !is_admin(level) && !in_resolver_chain {
                return Err(ApiError::Forbidden(to_owned_string("caller is not authorized to cancel this execution")));
            }
            Ok(())
        },
    }
}

/// The state of an approval's execution row, as a lost race reads it.
#[derive(Debug, Clone)]
pub struct ExecutionState {
    pub status: String,
    pub expires_at: i64,
    pub has_request: bool,
}

/// The error for a claim or cancel that found the execution row not
/// available, by what the row shows now.
pub open spec fn conflict_spec(current: Option<(Seq<char>, i64)>, now: i64) -> (u16, Seq<char>) {
    match current {
        None => (409u16, "no pending execution for this approval"@),
        Some((status, expires_at)) => if status == "pending"@ {
            if expires_at <= now {
                (410u16, "pending execution has expired"@)
            } else {
                (409u16, "execution is being processed concurrently"@)
            }
        } else if status == "executing"@ {
            (409u16, "execution is already in progress"@)
        } else if status == "executed"@ {
            (409u16, "execution has already completed — fetch the output from GET /v1/approvals/{id}/execution (MCP: the overslash `get_result` action; CLI: `overslash get-result <approval_id>`)"@)
        } else if status == "failed"@ {
            (409u16, "execution already attempted and failed — fetch the error from GET /v1/approvals/{id}/execution (MCP: the overslash `get_result` action; CLI: `overslash get-result <approval_id>`)"@)
        } else if status == "cancelled"@ {
            (409u16, "execution was cancelled"@)
        } else if status == "expired"@ {
            (410u16, "pending execution has expired"@)
        } else {
            (409u16, "execution in unexpected state: "@ + status)
        },
    }
}

/// Map a lost claim or cancel to the error the caller sees.
pub fn execution_conflict_error(current: Option<&ExecutionState>, now: i64) -> (e: ApiError)
    ensures
        is_error(
            Err::<(), ApiError>(e),
            conflict_spec(
                match current {
                    Some(c) => Some((c.status@, c.expires_at)),
                    None => None,
                },
                now,
            ).0,
            conflict_spec(
                match current {
                    Some(c) => Some((c.status@, c.expires_at)),
                    None => None,
                },
                now,
            ).1,
        ),
{
    match current {
        None => ApiError::Conflict(to_owned_string("no pending execution for this approval")),
        Some(row) => {
            let s = row.status.as_str();
            if str_eq(s, "pending") {
                if row.expires_at <= now {
                    ApiError::Gone(to_owned_string("pending execution has expired"))
                } else {
                    ApiError::Conflict(to_owned_string("execution is being processed concurrently"))
                }
            } else if str_eq(s, "executing") {
                ApiError::Conflict(to_owned_string("execution is already in progress"))
            } else if str_eq(s, "executed") {
                ApiError::Conflict(to_owned_string("execution has already completed — fetch the output from GET /v1/approvals/{id}/execution (MCP: the overslash `get_result` action; CLI: `overslash get-result <approval_id>`)"))
            } else if str_eq(s, "failed") {
                ApiError::Conflict(to_owned_string("execution already attempted and failed — fetch the error from GET /v1/approvals/{id}/execution (MCP: the overslash `get_result` action; CLI: `overslash get-result <approval_id>`)"))
            } else if str_eq(s, "cancelled") {
                ApiError::Conflict(to_owned_string("execution was cancelled"))
            } else if str_eq(s, "expired") {
                ApiError::Gone(to_owned_string("pending execution has expired"))
            } else {
                let mut m = String::new();
                push_str(&mut m, "execution in unexpected state: ");
                push_str(&mut m, s);
                ApiError::Conflict(m)
            }
        },
    }
}

/// How a cancel proceeds when the pending row could not be flipped: a row a
/// worker is running (it holds a stored request and is executing) is asked
/// to stop; anything else is a conflict.
pub fn cancel_fallback(current: Option<&ExecutionState>) -> (cooperative: bool)
    ensures
        cooperative == (current matches Some(c) && c.has_request && c.status@ == "executing"@),
{
    match current {
        Some(c) => c.has_request && str_eq(c.status.as_str(), "executing"),
        None => false,
    }
}

/// A replay that found nothing to queue conflicts when someone already
/// holds the execution (it has a stored request, or it left `pending`);
/// only a legacy row with nothing to hand a worker runs inline.
pub fn queued_conflict(current: Option<&ExecutionState>) -> (conflict: bool)
    ensures
        conflict == (current matches Some(c) && (c.has_request || c.status@ != "pending"@)),
{
    match current {
        Some(c) => c.has_request || !str_eq(c.status.as_str(), "pending"),
        None => false,
    }
}

/// The metric status of a replay: failed, succeeded with an upstream
/// error, or called.
pub fn replay_status(succeeded: bool, upstream_errored: bool) -> (s: &'static str)
    ensures
        !succeeded ==> s@ == "failed"@,
        succeeded && upstream_errored ==> s@ == "upstream_error"@,
        succeeded && !upstream_errored ==> s@ == "called"@,
{
    if !succeeded {
        "failed"
    } else if upstream_errored {
        "upstream_error"
    } else {
        "called"
    }
}

/// Whether remembered rules are written after a replay: only on success,
/// so that a failed replay can be retried once the cause is fixed.
pub fn writes_remembered_rules(succeeded: bool, remember: bool) -> (b: bool)
    ensures
        b == (succeeded && remember),
{
    succeeded && remember
}

/// Where a replay's request comes from.
#[derive(Debug, Clone, Copy, PartialEq, Eq, Structural)]
pub enum ReplaySource {
    /// The raw stored replay payload.
    Payload,
    /// A legacy row's action detail.
    LegacyDetail,
}

/// Choose the replay's source: the stored payload when there is one; else
/// a legacy action detail, unless it describes an MCP call (legacy MCP rows
/// kept only a redacted view and cannot be replayed); else nothing. On a
/// refusal, the failure text for the execution row and the error.
pub fn replay_source(
    has_payload: bool,
    detail: Option<(Option<&str>, bool)>,
) -> (r: Result<ReplaySource, (&'static str, ApiError)>)
    ensures
        if has_payload {
            r == Ok::<ReplaySource, (&'static str, ApiError)>(ReplaySource::Payload)
        } else {
            match detail {
                Some((rt, has_tool)) => if (match rt {
                    Some(x) => x@ == "mcp"@,
                    None => false,
                }) || has_tool {
                    r matches Err((f, ApiError::Conflict(m))) && f@ == "mcp_replay_not_supported_legacy"@ && m@
                        == "replay of MCP-runtime approvals created before this feature is not supported"@
                } else {
                    r == Ok::<ReplaySource, (&'static str, ApiError)>(ReplaySource::LegacyDetail)
                },
                None => r matches Err((f, ApiError::Internal(m))) && f@ == "no_replay_payload"@ && m@
                    == "approval has no stored replay payload — cannot replay"@,
            }
        },
{
    if has_payload {
        return Ok(ReplaySource::Payload);
    }
    match detail {
        Some((runtime, has_tool)) => {
            let is_mcp = match runtime {
                Some(x) => str_eq(x, "mcp"),
                None => false,
            };
            if is_mcp || has_tool {
                Err((
                    "mcp_replay_not_supported_legacy",
                    ApiError::Conflict(
                        to_owned_string("replay of MCP-runtime approvals created before this feature is not supported"),
                    ),
                ))
            } else {
                Ok(ReplaySource::LegacyDetail)
            }
        },
        None => Err((
            "no_replay_payload",
            ApiError::Internal(to_owned_string("approval has no stored replay payload — cannot replay")),
        )),
    }
}

/// The keys remembered rules are written for after a successful replay:
/// the keys stored at resolve time, else the approval's own permission
/// keys, once each.
pub fn rule_keys(remember_keys: Option<&[String]>, permission_keys: &[String]) -> (out: Vec<String>)
    ensures
        string_views(out@) == dedupe_spec(
            match remember_keys {
                Some(k) => string_views(k@),
                None => string_views(permission_keys@),
            },
        ),
{
    match remember_keys {
        Some(k) => dedupe_keys(k),
        None => dedupe_keys(permission_keys),
    }
}

/// Whether an approval the cascade resolved is auto-called: it needs a
/// pending execution, and then the same opt-in and elicitation test as a
/// resolve.
pub fn cascade_auto_call(has_execution: bool, auto_call_on_approve: Option<bool>, elicitation_active: Option<bool>) -> (b: bool)
    ensures
        b == (has_execution && auto_call_on_approve == Some(true) && elicitation_active != Some(true)),
{
    has_execution && should_auto_call(auto_call_on_approve, elicitation_active)
}

/// The audit action of a finished replay.
pub fn execution_audit_action(succeeded: bool) -> (s: &'static str)
    ensures
        succeeded ==> s@ == "approval.executed"@,
        !succeeded ==> s@ == "approval.execution_failed"@,
{
    if succeeded {
        "approval.executed"
    } else {
        "approval.execution_failed"
    }
}

/// Whether the replay event carries the result body: exactly when nobody
/// received it in-band (an auto-fired or worker-run execution) and the
/// replay succeeded with a result.
pub fn event_carries_result(triggered_by: &str, has_request: bool, succeeded: bool, has_result: bool) -> (b: bool)
    ensures
        b == (!(triggered_by@ != "auto"@ && !has_request) && succeeded && has_result),
{
    let answered_in_band = !str_eq(triggered_by, "auto") && !has_request;
    !answered_in_band && succeeded && has_result
}

/// Which approvals a listing reads.
#[derive(Debug, Clone, Copy, PartialEq, Eq, Structural)]
pub enum ApprovalListing {
    /// Those the caller requested.
    Mine { identity_id: u128 },
    /// Those the caller currently resolves.
    Assigned { identity_id: u128 },
    /// Those the caller or a descendant resolves.
    Actionable { identity_id: u128 },
    /// The org's pending approvals.
    OrgPending,
}

/// The listing a `scope` parameter asks for. The three personal views need
/// an identity-bound key; any other value is refused by name.
pub fn approval_listing(scope: Option<&str>, caller: Option<u128>) -> (r: Result<ApprovalListing, ApiError>)
    ensures
        scope is None ==> r == Ok::<ApprovalListing, ApiError>(ApprovalListing::OrgPending),
        (scope matches Some(s) && s@ == "mine"@) ==> match caller {
            Some(c) => r == Ok::<ApprovalListing, ApiError>(ApprovalListing::Mine { identity_id: c }),
            None => is_error(r, 400, "scope=mine requires an identity-bound api key"@),
        },
        (scope matches Some(s) && s@ == "assigned"@) ==> match caller {
            Some(c) => r == Ok::<ApprovalListing, ApiError>(ApprovalListing::Assigned { identity_id: c }),
            None => is_error(r, 400, "scope=assigned requires an identity-bound api key"@),
        },
        (scope matches Some(s) && s@ == "actionable"@) ==> match caller {
            Some(c) => r == Ok::<ApprovalListing, ApiError>(ApprovalListing::Actionable { identity_id: c }),
            None => is_error(r, 400, "scope=actionable requires an identity-bound api key"@),
        },
        (scope matches Some(s) && s@ != "mine"@ && s@ != "assigned"@ && s@ != "actionable"@) ==> is_error(
            r,
            400,
            "invalid scope '"@ + scope->0@ + "': expected 'mine', 'assigned', or 'actionable'"@,
        ),
{
    proof {
        reveal_strlit("mine");
        reveal_strlit("assigned");
        reveal_strlit("actionable");
        assert("mine"@.len() == 4 && "assigned"@.len() == 8 && "actionable"@.len() == 10);
    }
    match scope {
        None => Ok(ApprovalListing::OrgPending),
        Some(s) => {
            if str_eq(s, "mine") {
                match caller {
                    Some(c) => Ok(ApprovalListing::Mine { identity_id: c }),
                    None => Err(ApiError::BadRequest(to_owned_string("scope=mine requires an identity-bound api key"))),
                }
            } else if str_eq(s, "assigned") {
                match caller {
                    Some(c) => Ok(ApprovalListing::Assigned { identity_id: c }),
                    None => Err(ApiError::BadRequest(to_owned_string("scope=assigned requires an identity-bound api key"))),
                }
            } else if str_eq(s, "actionable") {
                match caller {
                    Some(c) => Ok(ApprovalListing::Actionable { identity_id: c }),
                    None => Err(ApiError::BadRequest(to_owned_string("scope=actionable requires an identity-bound api key"))),
                }
            } else {
                let mut m = String::new();
                push_str(&mut m, "invalid scope '");
                push_str(&mut m, s);
                push_str(&mut m, "': expected 'mine', 'assigned', or 'actionable'");
                Err(ApiError::BadRequest(m))
            }
        },
    }
}

/// The positions of the rows whose status is `wanted`, in order.
pub open spec fn status_positions(statuses: Seq<Seq<char>>, wanted: Seq<char>) -> Seq<int>
    decreases statuses.len(),
{
    if statuses.len() == 0 {
        Seq::empty()
    } else {
        let prev = status_positions(statuses.drop_last(), wanted);
        if statuses.last() == wanted {
            prev.push(statuses.len() - 1)
        } else {
            prev
        }
    }
}

/// Keep the rows with the wanted status.
pub fn filter_by_status(statuses: &[String], wanted: &str) -> (idx: Vec<usize>)
    ensures
        idx@.map_values(|i: usize| i as int) == status_positions(string_views(statuses@), wanted@),
{
    let ghost all = string_views(statuses@);
    let mut out: Vec<usize> = Vec::new();
    let mut i: usize = 0;
    while i < statuses.len()
        invariant
            i <= statuses@.len(),
            all == string_views(statuses@),
            out@.map_values(|k: usize| k as int) == status_positions(all.take(i as int), wanted@),
        decreases statuses@.len() - i,
    {
        proof {
            assert(all.take(i + 1).drop_last() =~= all.take(i as int));
            assert(all.take(i + 1).last() == statuses@[i as int]@);
        }
        if str_eq(statuses[i].as_str(), wanted) {
            let ghost before = out@.map_values(|k: usize| k as int);
            out.push(i);
            proof {
                assert(out@.map_values(|k: usize| k as int) =~= before.push(i as int));
            }
        }
        i = i + 1;
    }
    proof {
        assert(all.take(statuses@.len() as int) =~= all);
    }
    out
}

/// Only the requesting agent's own read marks an execution's result as
/// read; a resolver's or an admin's view leaves it unread.
pub fn marks_result_read(caller: Option<u128>, requester: u128) -> (b: bool)
    ensures
        b == (caller == Some(requester)),
{
    match caller {
        Some(c) => c == requester,
        None => false,
    }
}

/// How a stored call ended.
#[derive(Debug, Clone, Copy, PartialEq, Eq, Structural)]
pub enum StoredOutcomeKind {
    /// The upstream answered (possibly reporting failure).
    Executed { upstream_errored: bool },
    /// The call failed.
    Failed,
    /// The credential could not be re-resolved: the caller is answered with
    /// the error.
    Rejected,
}

/// The replay flags an outcome yields, `(succeeded, upstream_errored)`;
/// `None` when the replay is surfaced as an error instead.
pub fn outcome_flags(o: StoredOutcomeKind) -> (r: Option<(bool, bool)>)
    ensures
        match o {
            StoredOutcomeKind::Executed { upstream_errored } => r == Some((true, upstream_errored)),
            StoredOutcomeKind::Failed => r == Some((false, false)),
            StoredOutcomeKind::Rejected => r is None,
        },
{
    match o {
        StoredOutcomeKind::Executed { upstream_errored } => Some((true, upstream_errored)),
        StoredOutcomeKind::Failed => Some((false, false)),
        StoredOutcomeKind::Rejected => None,
    }
}

} // verus!
