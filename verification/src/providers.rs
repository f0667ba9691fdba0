//! The sign-in providers a login page lists: on the root apex the
//! Overslash-level providers that have credentials, then the built-in email
//! link and the dev login when they are switched on; on an org subdomain the
//! providers that org can sign in with.

use vstd::prelude::*;
use crate::text::to_owned_string;

verus! {

/// One entry of a provider listing.
#[derive(Debug, Clone, PartialEq, Eq)]
pub struct ProviderEntry {
    pub key: String,
    pub display_name: String,
    /// `env`, `db` or `builtin`: where the provider's configuration lives.
    pub source: String,
    /// Listed for an org's providers only.
    pub managed: Option<bool>,
    /// Listed for an org's providers only.
    pub is_default: Option<bool>,
}

/// An entry as plain values.
pub open spec fn entry_view(e: ProviderEntry) -> (Seq<char>, Seq<char>, Seq<char>, Option<bool>, Option<bool>) {
    (e.key@, e.display_name@, e.source@, e.managed, e.is_default)
}

/// The views of a listing.
pub open spec fn entries_view(v: Seq<ProviderEntry>) -> Seq<(Seq<char>, Seq<char>, Seq<char>, Option<bool>, Option<bool>)> {
    v.map_values(|e: ProviderEntry| entry_view(e))
}

/// An Overslash-level provider and whether the deployment has credentials
/// for it.
#[derive(Debug, Clone, PartialEq, Eq)]
pub struct ManagedProvider {
    pub key: String,
    pub display_name: String,
    pub configured: bool,
}

/// A managed provider as plain values.
pub open spec fn managed_view(m: ManagedProvider) -> (Seq<char>, Seq<char>, bool) {
    (m.key@, m.display_name@, m.configured)
}

/// The views of the managed providers.
pub open spec fn managed_views(v: Seq<ManagedProvider>) -> Seq<(Seq<char>, Seq<char>, bool)> {
    v.map_values(|m: ManagedProvider| managed_view(m))
}

/// The root entries of the configured managed providers, in their order.
pub open spec fn configured_entries(
    cands: Seq<(Seq<char>, Seq<char>, bool)>,
) -> Seq<(Seq<char>, Seq<char>, Seq<char>, Option<bool>, Option<bool>)>
    decreases cands.len(),
{
    if cands.len() == 0 {
        Seq::empty()
    } else {
        let rest = configured_entries(cands.drop_last());
        let c = cands.last();
        if c.2 {
            rest.push((c.0, c.1, "env"@, None, None))
        } else {
            rest
        }
    }
}

/// The root listing: the configured managed providers, then the email link,
/// then the dev login.
pub open spec fn root_listing(
    cands: Seq<(Seq<char>, Seq<char>, bool)>,
    magic_link_enabled: bool,
    dev_auth_enabled: bool,
) -> Seq<(Seq<char>, Seq<char>, Seq<char>, Option<bool>, Option<bool>)> {
    let managed = configured_entries(cands);
    let with_email = if magic_link_enabled {
        managed.push(("email"@, "Email"@, "builtin"@, None, None))
    } else {
        managed
    };
    if dev_auth_enabled {
        with_email.push(("dev"@, "Dev Login"@, "env"@, None, None))
    } else {
        with_email
    }
}

fn root_entry(key: &str, display_name: &str, source: &str) -> (e: ProviderEntry)
    ensures
        entry_view(e) == (key@, display_name@, source@, None::<bool>, None::<bool>),
{
    ProviderEntry {
        key: to_owned_string(key),
        display_name: to_owned_string(display_name),
        source: to_owned_string(source),
        managed: None,
        is_default: None,
    }
}

/// The providers listed on the root apex.
pub fn root_providers(managed: &[ManagedProvider], magic_link_enabled: bool, dev_auth_enabled: bool) -> (out: Vec<ProviderEntry>)
    ensures
        entries_view(out@) == root_listing(managed_views(managed@), magic_link_enabled, dev_auth_enabled),
{
    let mut out: Vec<ProviderEntry> = Vec::new();
    let mut i: usize = 0;
    while i < managed.len()
        invariant
            i <= managed.len(),
            entries_view(out@) == configured_entries(managed_views(managed@).take(i as int)),
        decreases managed.len() - i,
    {
        let m = &managed[i];
        proof {
            let cs = managed_views(managed@);
            assert(cs.take(i as int + 1).drop_last() =~= cs.take(i as int));
            assert(cs.take(i as int + 1).last() == managed_view(managed@[i as int]));
        }
        if m.configured {
            let ghost before = entries_view(out@);
            out.push(root_entry(m.key.as_str(), m.display_name.as_str(), "env"));
            proof {
                reveal_strlit("env");
                assert(entries_view(out@) =~= before.push((m.key@, m.display_name@, "env"@, None, None)));
            }
        }
        i = i + 1;
    }
    proof {
        assert(managed_views(managed@).take(managed@.len() as int) =~= managed_views(managed@));
    }
    if magic_link_enabled {
        let ghost before = entries_view(out@);
        out.push(root_entry("email", "Email", "builtin"));
        proof {
            assert(entries_view(out@) =~= before.push(("email"@, "Email"@, "builtin"@, None, None)));
        }
    }
    if dev_auth_enabled {
        let ghost before = entries_view(out@);
        out.push(root_entry("dev", "Dev Login", "env"));
        proof {
            assert(entries_view(out@) =~= before.push(("dev"@, "Dev Login"@, "env"@, None, None)));
        }
    }
    out
}

/// An org's provider as listed on its subdomain: managed providers come
/// from the deployment's environment, the org's own IdPs from the store.
pub fn org_provider_entry(key: &str, display_name: &str, managed: bool, is_default: bool) -> (e: ProviderEntry)
    ensures
        entry_view(e) == (key@, display_name@, if managed { "env"@ } else { "db"@ }, Some(managed), Some(is_default)),
{
    let source = if managed { to_owned_string("env") } else { to_owned_string("db") };
    ProviderEntry {
        key: to_owned_string(key),
        display_name: to_owned_string(display_name),
        source,
        managed: Some(managed),
        is_default: Some(is_default),
    }
}

/// Which listing a request gets: the subdomain's org, else on the root apex
/// the org named by `?org=` when one was found, else the root listing
/// (`None`).
pub fn listing_org(subdomain_org: Option<u128>, query_org: Option<u128>) -> (r: Option<u128>)
    ensures
        r == (match subdomain_org {
            Some(o) => Some(o),
            None => query_org,
        }),
{
    match subdomain_org {
        Some(o) => Some(o),
        None => query_org,
    }
}

} // verus!
