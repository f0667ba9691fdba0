//! Account rules: who a session belongs to, leaving an org (never the
//! personal one, never as its last admin), switching org, and the
//! e-mail preference toggles.

use vstd::prelude::*;
use crate::error::{ApiError, is_error};
use crate::text::to_owned_string;

verus! {

/// The user behind a session: its `user_id` claim, else the identity's
/// link (for tokens minted before the claim existed). `identity` is `None`
/// when the session's identity is gone.
pub fn resolve_session_user(claim: Option<u128>, identity: Option<Option<u128>>) -> (r: Result<u128, ApiError>)
    ensures
        claim matches Some(u) ==> r == Ok::<u128, ApiError>(claim->0),
        (claim is None && identity is None) ==> is_error(r, 404, "identity not found"@),
        (claim is None && identity matches Some(None)) ==> is_error(
            r,
            401,
            "session has no resolvable user; sign in again"@,
        ),
        (claim is None && identity matches Some(Some(u))) ==> r == Ok::<u128, ApiError>(identity->0->0),
{
    if let Some(u) = claim {
        return Ok(u);
    }
    match identity {
        None => Err(ApiError::NotFound(to_owned_string("identity not found"))),
        Some(None) => Err(ApiError::Unauthorized(to_owned_string("session has no resolvable user; sign in again"))),
        Some(Some(u)) => Ok(u),
    }
}

/// A permitted departure: whether the leaver was an admin, and whether
/// they founded the org.
#[derive(Debug, Clone, Copy, PartialEq, Eq, Structural)]
pub struct Departure {
    pub was_admin: bool,
    pub was_original_creator: bool,
}

/// Whether `xs` holds `x`.
pub open spec fn holds(xs: Seq<u128>, x: u128) -> bool {
    xs.contains(x)
}

/// When a user may leave an org, checked in this order: the org must
/// exist; a personal org cannot be left; the user must be a member; an
/// admin may leave only while another admin remains.
pub open spec fn drop_membership_spec(
    org_exists: bool,
    is_personal: bool,
    creator: Option<u128>,
    admin_user_ids: Seq<u128>,
    has_membership: bool,
    user: u128,
) -> Result<Departure, (u16, Seq<char>)> {
    if !org_exists {
        Err((404u16, "org not found"@))
    } else if is_personal {
        Err((400u16, "cannot drop membership of your own personal org"@))
    } else if !has_membership {
        Err((404u16, "no such membership"@))
    } else if holds(admin_user_ids, user) && admin_user_ids.len() <= 1 {
        Err((400u16, "cannot drop the last admin of a non-personal org"@))
    } else {
        Ok(Departure { was_admin: holds(admin_user_ids, user), was_original_creator: creator == Some(user) })
    }
}

/// Decide whether `user` may leave the org, given its admins (as locked
/// for the change) and whether the user holds a membership.
pub fn check_drop_membership(
    org_exists: bool,
    is_personal: bool,
    creator: Option<u128>,
    admin_user_ids: &[u128],
    has_membership: bool,
    user: u128,
) -> (r: Result<Departure, ApiError>)
    ensures
        match drop_membership_spec(org_exists, is_personal, creator, admin_user_ids@, has_membership, user) {
            Ok(d) => r == Ok::<Departure, ApiError>(d),
            Err((code, m)) => is_error(r, code, m),
        },
{
    if !org_exists {
        return Err(ApiError::NotFound(to_owned_string("org not found")));
    }
    if is_personal {
        return Err(ApiError::BadRequest(to_owned_string("cannot drop membership of your own personal org")));
    }
    if !has_membership {
        return Err(ApiError::NotFound(to_owned_string("no such membership")));
    }
    let mut is_admin = false;
    let mut i: usize = 0;
    while i < admin_user_ids.len()
        invariant
            i <= admin_user_ids@.len(),
            is_admin == admin_user_ids@.take(i as int).contains(user),
        decreases admin_user_ids@.len() - i,
    {
        proof {
            let t = admin_user_ids@.take(i + 1);
            assert(t =~= admin_user_ids@.take(i as int).push(admin_user_ids@[i as int]));
            if admin_user_ids@[i as int] == user {
                assert(t[i as int] == user);
            } else if t.contains(user) {
                let k = choose|k: int| 0 <= k < t.len() && #[trigger] t[k] == user;
                assert(admin_user_ids@.take(i as int)[k] == user);
            }
        }
        if admin_user_ids[i] == user {
            is_admin = true;
        }
        i = i + 1;
    }
    proof {
        assert(admin_user_ids@.take(admin_user_ids@.len() as int) =~= admin_user_ids@);
    }
    if is_admin && admin_user_ids.len() <= 1 {
        return Err(ApiError::BadRequest(to_owned_string("cannot drop the last admin of a non-personal org")));
    }
    let was_original_creator = match creator {
        Some(c) => c == user,
        None => false,
    };
    Ok(Departure { was_admin: is_admin, was_original_creator })
}

/// An org never loses its last admin by a departure: when an admin is
/// allowed to leave, another admin remains.
pub proof fn law_last_admin_stays(
    org_exists: bool,
    is_personal: bool,
    creator: Option<u128>,
    admin_user_ids: Seq<u128>,
    has_membership: bool,
    user: u128,
)
    requires
        drop_membership_spec(org_exists, is_personal, creator, admin_user_ids, has_membership, user) is Ok,
        holds(admin_user_ids, user),
    ensures
        admin_user_ids.len() >= 2,
{
}

/// The audit description of a departure.
pub fn departure_description(d: Departure) -> (s: &'static str)
    ensures
        d.was_original_creator ==> s@ == "Original creator left the org"@,
        !d.was_original_creator ==> s@ == "Member left the org"@,
{
    if d.was_original_creator {
        "Original creator left the org"
    } else {
        "Member left the org"
    }
}

/// The e-mail a switched session carries: the target identity's, else the
/// current one's, else empty.
pub fn switch_claim_email(target: Option<String>, current: Option<String>) -> (r: String)
    ensures
        target matches Some(t) ==> r@ == target->0@,
        (target is None && current is Some) ==> r@ == current->0@,
        (target is None && current is None) ==> r@.len() == 0,
{
    match target {
        Some(t) => t,
        None => match current {
            Some(c) => c,
            None => String::new(),
        },
    }
}

/// An e-mail category a user can opt out of.
#[derive(Debug, Clone, Copy, PartialEq, Eq, Structural)]
pub enum EmailCategory {
    Welcome,
    WebhookDigest,
}

/// A change to one preference, with its audit action and description.
#[derive(Debug, Clone, Copy, PartialEq, Eq)]
pub struct PrefChange {
    pub subscribe: bool,
    pub action: &'static str,
    pub description: &'static str,
}

/// What toggling a preference does: nothing when the request leaves it out
/// or asks for what is already set; otherwise a change to the wanted state.
pub fn preference_change(category: EmailCategory, subscribed: bool, want: Option<bool>) -> (r: Option<PrefChange>)
    ensures
        (want is None || want == Some(subscribed)) ==> r is None,
        (want matches Some(w) && w != subscribed) ==> (r matches Some(c) && c.subscribe == want->0 && (c.subscribe
            ==> c.action@ == "email.resubscribed"@) && (!c.subscribe ==> c.action@ == "email.unsubscribed"@)
            && c.description@ == (match (category, c.subscribe) {
                (EmailCategory::Welcome, true) => "Welcome / product emails re-enabled from /account"@,
                (EmailCategory::Welcome, false) => "Welcome / product emails unsubscribed from /account"@,
                (EmailCategory::WebhookDigest, true) => "Webhook DLQ digest re-enabled from /account"@,
                (EmailCategory::WebhookDigest, false) => "Webhook DLQ digest unsubscribed from /account"@,
            })),
{
    let w = match want {
        None => return None,
        Some(w) => w,
    };
    if w == subscribed {
        return None;
    }
    let action = if w {
        "email.resubscribed"
    } else {
        "email.unsubscribed"
    };
    let description = match (category, w) {
        (EmailCategory::Welcome, true) => "Welcome / product emails re-enabled from /account",
        (EmailCategory::Welcome, false) => "Welcome / product emails unsubscribed from /account",
        (EmailCategory::WebhookDigest, true) => "Webhook DLQ digest re-enabled from /account",
        (EmailCategory::WebhookDigest, false) => "Webhook DLQ digest unsubscribed from /account",
    };
    Some(PrefChange { subscribe: w, action, description })
}

/// A preference state after a request: the wanted state, or the current
/// one when nothing is asked.
pub open spec fn pref_after(subscribed: bool, want: Option<bool>) -> bool {
    match want {
        Some(w) => w,
        None => subscribed,
    }
}

/// Preference updates are idempotent: once a request is applied, the same
/// request asks for the state already set, which `preference_change`
/// answers with no change and no audit row.
pub proof fn law_preference_idempotent(subscribed: bool, want: Option<bool>)
    ensures
        want is None || want == Some(pref_after(subscribed, want)),
{
}

} // verus!
