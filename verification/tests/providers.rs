use overslash_api::providers::{
    listing_org, org_provider_entry, root_providers, ManagedProvider, ProviderEntry,
};

fn managed(key: &str, name: &str, configured: bool) -> ManagedProvider {
    ManagedProvider { key: key.to_string(), display_name: name.to_string(), configured }
}

fn root(key: &str, name: &str, source: &str) -> ProviderEntry {
    ProviderEntry {
        key: key.to_string(),
        display_name: name.to_string(),
        source: source.to_string(),
        managed: None,
        is_default: None,
    }
}

#[test]
fn root_lists_configured_providers_then_builtins() {
    let cands = vec![
        managed("google", "Google", true),
        managed("github", "GitHub", false),
        managed("x", "X", true),
    ];
    assert_eq!(
        root_providers(&cands, true, true),
        vec![
            root("google", "Google", "env"),
            root("x", "X", "env"),
            root("email", "Email", "builtin"),
            root("dev", "Dev Login", "env"),
        ]
    );
    assert_eq!(root_providers(&cands, false, false).len(), 2);
    assert_eq!(root_providers(&[], false, true), vec![root("dev", "Dev Login", "env")]);
}

#[test]
fn org_entries_say_where_they_come_from() {
    let e = org_provider_entry("google", "Google", true, false);
    assert_eq!(e.source, "env");
    assert_eq!(e.managed, Some(true));
    assert_eq!(e.is_default, Some(false));
    let d = org_provider_entry("okta-corp", "Okta", false, true);
    assert_eq!(d.source, "db");
    assert_eq!(d.key, "okta-corp");
    assert_eq!(d.is_default, Some(true));
}

#[test]
fn subdomain_org_wins_over_query() {
    assert_eq!(listing_org(Some(1), Some(2)), Some(1));
    assert_eq!(listing_org(None, Some(2)), Some(2));
    assert_eq!(listing_org(None, None), None);
}
