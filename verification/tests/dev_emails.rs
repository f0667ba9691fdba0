use overslash_api::dev::{DevOrg, DevProfile};

#[test]
fn dev_addresses_never_collide() {
    let shared = DevOrg::Shared;
    let a = DevOrg::parse(Some("team-a")).unwrap();
    let b = DevOrg::parse(Some("team-b")).unwrap();
    let profiles = [DevProfile::Admin, DevProfile::Member, DevProfile::Readonly];
    let orgs = [&shared, &a, &b];
    let mut seen = Vec::new();
    for p in profiles {
        for o in orgs {
            seen.push(p.email_for(o));
        }
    }
    for i in 0..seen.len() {
        for j in 0..seen.len() {
            if i != j {
                assert_ne!(seen[i], seen[j]);
            }
        }
    }
    assert_eq!(DevProfile::Member.email_for(&a), "member+team-a@overslash.local");
    assert_eq!(DevProfile::Admin.email_for(&shared), "dev@overslash.local");
}
