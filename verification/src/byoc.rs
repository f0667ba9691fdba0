//! Bring-your-own OAuth client credentials: who may create, read, replace
//! or delete one (its owner, or an admin), which rows a listing shows, and
//! the shape accepted for its metadata.

use vstd::prelude::*;
use crate::approvals::{AccessLevel, level_rank};
use crate::error::{ApiError, is_error};
use crate::text::{push_str, to_owned_string};

verus! {

/// The identity a BYOC request acts as; a credential bound to no identity
/// may not manage client credentials.
pub fn byoc_caller(identity: Option<u128>) -> (r: Result<u128, ApiError>)
    ensures
        identity matches Some(i) ==> r == Ok::<u128, ApiError>(identity->0),
        identity is None ==> is_error(r, 403, "identity-bound credential required for BYOC"@),
{
    match identity {
        Some(i) => Ok(i),
        None => Err(ApiError::Forbidden(to_owned_string("identity-bound credential required for BYOC"))),
    }
}

/// What is done to a credential.
#[derive(Debug, Clone, Copy, PartialEq, Eq, Structural)]
pub enum ByocOp {
    Create,
    Read,
    Replace,
    Delete,
}

/// The refusal text for acting on another identity's credential.
pub open spec fn byoc_refusal(op: ByocOp) -> Seq<char> {
    match op {
        ByocOp::Create => "creating BYOC for another identity requires admin access"@,
        ByocOp::Read => "reading another identity's BYOC requires admin access"@,
        ByocOp::Replace => "replacing another identity's BYOC requires admin access"@,
        ByocOp::Delete => "deleting another identity's BYOC requires admin access"@,
    }
}

/// Self-or-admin: the credential's owner may act on it, and so may an
/// admin; anyone else is refused.
pub fn check_byoc_access(op: ByocOp, owner: u128, caller: u128, level: AccessLevel) -> (r: Result<(), ApiError>)
    ensures
        (owner == caller || level_rank(level) >= 2) ==> r is Ok,
        !(owner == caller || level_rank(level) >= 2) ==> is_error(r, 403, byoc_refusal(op)),
{
    let admin = match level {
        AccessLevel::Admin => true,
        _ => false,
    };
    if owner != caller && !admin {
        let m = match op {
            ByocOp::Create => "creating BYOC for another identity requires admin access",
            ByocOp::Read => "reading another identity's BYOC requires admin access",
            ByocOp::Replace => "replacing another identity's BYOC requires admin access",
            ByocOp::Delete => "deleting another identity's BYOC requires admin access",
        };
        return Err(ApiError::Forbidden(to_owned_string(m)));
    }
    Ok(())
}

/// The positions of the credentials a listing shows: all of them to an
/// admin, the caller's own to anyone else, in order.
pub open spec fn visible_spec(owners: Seq<u128>, caller: u128, is_admin: bool) -> Seq<int>
    decreases owners.len(),
{
    if owners.len() == 0 {
        Seq::empty()
    } else {
        let prev = visible_spec(owners.drop_last(), caller, is_admin);
        if is_admin || owners.last() == caller {
            prev.push(owners.len() - 1)
        } else {
            prev
        }
    }
}

/// Filter a credential listing.
pub fn visible_byoc(owners: &[u128], caller: u128, is_admin: bool) -> (idx: Vec<usize>)
    ensures
        idx@.map_values(|i: usize| i as int) == visible_spec(owners@, caller, is_admin),
{
    let mut out: Vec<usize> = Vec::new();
    let mut i: usize = 0;
    while i < owners.len()
        invariant
            i <= owners@.len(),
            out@.map_values(|k: usize| k as int) == visible_spec(owners@.take(i as int), caller, is_admin),
        decreases owners@.len() - i,
    {
        proof {
            assert(owners@.take(i + 1).drop_last() =~= owners@.take(i as int));
            assert(owners@.take(i + 1).last() == owners@[i as int]);
        }
        if is_admin || owners[i] == caller {
            let ghost before = out@.map_values(|k: usize| k as int);
            out.push(i);
            proof {
                assert(out@.map_values(|k: usize| k as int) =~= before.push(i as int));
            }
        }
        i = i + 1;
    }
    proof {
        assert(owners@.take(owners@.len() as int) =~= owners@);
    }
    out
}

/// A listing never shows a non-admin someone else's credential.
pub proof fn law_listing_shows_own_only(owners: Seq<u128>, caller: u128)
    ensures
        forall|k: int| 0 <= k < visible_spec(owners, caller, false).len() ==> 0 <= #[trigger] visible_spec(
            owners,
            caller,
            false,
        )[k] < owners.len() && owners[visible_spec(owners, caller, false)[k]] == caller,
    decreases owners.len(),
{
    if owners.len() > 0 {
        law_listing_shows_own_only(owners.drop_last(), caller);
        let prev = visible_spec(owners.drop_last(), caller, false);
        assert forall|k: int| 0 <= k < prev.len() implies owners[prev[k]] == owners.drop_last()[prev[k]] by {}
    }
}

/// The JSON shape of caller-supplied metadata.
#[derive(Debug, Clone, Copy, PartialEq, Eq, Structural)]
pub enum JsonShape {
    Null,
    Object,
    Other,
}

/// How metadata is stored.
#[derive(Debug, Clone, Copy, PartialEq, Eq, Structural)]
pub enum MetadataChoice {
    /// Store an empty object.
    Empty,
    /// Store the object as given.
    Keep,
}

/// Metadata must be an object of tags: nothing becomes `{}`, an object is
/// kept, anything else is refused.
pub fn normalize_metadata(shape: JsonShape) -> (r: Result<MetadataChoice, ApiError>)
    ensures
        shape == JsonShape::Null ==> r == Ok::<MetadataChoice, ApiError>(MetadataChoice::Empty),
        shape == JsonShape::Object ==> r == Ok::<MetadataChoice, ApiError>(MetadataChoice::Keep),
        shape == JsonShape::Other ==> is_error(r, 400, "metadata must be a JSON object of key/value tags"@),
{
    match shape {
        JsonShape::Null => Ok(MetadataChoice::Empty),
        JsonShape::Object => Ok(MetadataChoice::Keep),
        JsonShape::Other => Err(ApiError::BadRequest(to_owned_string("metadata must be a JSON object of key/value tags"))),
    }
}

/// The conflict reported when the identity already has a credential for
/// the provider.
pub fn byoc_exists_error(provider: &str) -> (e: ApiError)
    ensures
        e matches ApiError::Conflict(m) && m@ == "BYOC credential already exists for provider '"@ + provider@ + "'"@,
{
    let mut m = String::new();
    push_str(&mut m, "BYOC credential already exists for provider '");
    push_str(&mut m, provider);
    push_str(&mut m, "'");
    ApiError::Conflict(m)
}

/// Only groups an admin created can take a directory source: the system
/// groups are refused (`is_system` of the target group; `None` when the
/// group does not exist).
pub fn check_directory_target(is_system: Option<bool>) -> (r: Result<(), ApiError>)
    ensures
        is_system is None ==> is_error(r, 404, "group not found"@),
        is_system == Some(true) ==> is_error(
            r,
            400,
            "system groups cannot take a directory source; map onto a group you created"@,
        ),
        is_system == Some(false) ==> r is Ok,
{
    match is_system {
        None => Err(ApiError::NotFound(to_owned_string("group not found"))),
        Some(true) => Err(
            ApiError::BadRequest(to_owned_string("system groups cannot take a directory source; map onto a group you created")),
        ),
        Some(false) => Ok(()),
    }
}

} // verus!
