//! Dev-only end-to-end seeding: the request that registers fake identity
//! providers and attaches them to orgs, and the guard on dev-org teardown.

use vstd::prelude::*;
use crate::error::{ApiError, is_error};
use crate::text::{str_eq, to_owned_string};

verus! {

/// What the seeding endpoint is asked to register.
#[derive(Debug, Clone)]
pub struct SeedRequest {
    pub providers: Vec<SeedProvider>,
    pub orgs: Vec<SeedOrg>,
}

/// A fake identity provider to register.
#[derive(Debug, Clone)]
pub struct SeedProvider {
    /// The key used in `/auth/login/{key}`.
    pub key: String,
    pub display_name: String,
    pub authorization_endpoint: String,
    pub token_endpoint: String,
    pub userinfo_endpoint: String,
    pub issuer_url: String,
}

/// An org to create (if missing) and attach a provider to.
#[derive(Debug, Clone)]
pub struct SeedOrg {
    pub slug: String,
    pub name: String,
    /// A key from the request's providers.
    pub provider_key: String,
    pub client_id: String,
    pub client_secret: String,
    pub allowed_email_domains: Vec<String>,
}

/// The dev endpoints exist only when dev sign-in is enabled; otherwise
/// they answer as if absent.
pub fn check_dev_enabled(dev_auth_enabled: bool) -> (r: Result<(), ApiError>)
    ensures
        dev_auth_enabled ==> r is Ok,
        !dev_auth_enabled ==> is_error(r, 404, "not found"@),
{
    if dev_auth_enabled {
        Ok(())
    } else {
        Err(ApiError::NotFound(to_owned_string("not found")))
    }
}

/// Teardown of a dev org: only with dev sign-in enabled, and never the
/// shared `dev-org` other specs rely on.
pub fn check_dev_org_delete(dev_auth_enabled: bool, slug: &str) -> (r: Result<(), ApiError>)
    ensures
        !dev_auth_enabled ==> is_error(r, 404, "not found"@),
        dev_auth_enabled && slug@ == "dev-org"@ ==> is_error(r, 400, "refusing to delete the shared 'dev-org'"@),
        dev_auth_enabled && slug@ != "dev-org"@ ==> r is Ok,
{
    if !dev_auth_enabled {
        return Err(ApiError::NotFound(to_owned_string("not found")));
    }
    if str_eq(slug, "dev-org") {
        return Err(ApiError::BadRequest(to_owned_string("refusing to delete the shared 'dev-org'")));
    }
    Ok(())
}

} // verus!
