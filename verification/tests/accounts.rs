use overslash_api::account::{
    check_drop_membership, departure_description, preference_change, resolve_session_user,
    switch_claim_email, Departure, EmailCategory,
};
use overslash_api::admission::{
    admission_gate, generate_personal_slug, member_display_name, personal_slug, plan_org_login,
    admission_membership, IdentityFacts, MemberRole, MembershipInsert, OrgLoginFacts, OrgLoginPlan, UserChoice,
};
use overslash_api::dev::{session_expiry, DevOrg, DevProfile};
use overslash_api::error::ApiError;
use overslash_api::magic_link::{
    email_throttle_key, ip_throttle_key, new_login_token, normalize_login_email, retry_after,
    token_hash, verify_url,
};

#[test]
fn login_emails_normalize() {
    assert_eq!(normalize_login_email("  Alice@Example.COM "), Some("alice@example.com".into()));
    assert_eq!(normalize_login_email("a@b"), None);
    assert_eq!(normalize_login_email("@b.c"), None);
    assert_eq!(normalize_login_email("a@"), None);
    assert_eq!(normalize_login_email("a b@c.d"), None);
    assert_eq!(normalize_login_email("no-at.example"), None);
    assert_eq!(normalize_login_email("a@b@c.d"), Some("a@b@c.d".into()));
}

#[test]
fn magic_link_tokens() {
    assert_eq!(ip_throttle_key(None), "ml:req:ip:unknown");
    assert_eq!(email_throttle_key("a@b.c"), "ml:req:email:a@b.c");
    assert_eq!(retry_after(10, 4), 6);
    assert_eq!(retry_after(4, 10), 0);
    let (raw, hash) = new_login_token();
    assert_eq!(raw.len(), 43);
    assert_eq!(hash, token_hash(&raw));
    assert_eq!(hash.len(), 32);
    assert_eq!(
        verify_url("https://api.x.com/", "a+b"),
        "https://api.x.com/auth/magic-link/verify?token=a%2Bb"
    );
}

#[test]
fn dev_profiles_and_orgs() {
    assert_eq!(DevProfile::parse(None), DevProfile::Admin);
    assert_eq!(DevProfile::parse(Some("member")), DevProfile::Member);
    assert_eq!(DevProfile::parse(Some("nope")), DevProfile::Admin);
    assert_eq!(DevProfile::Readonly.email(), "readonly@overslash.local");
    assert_eq!(DevProfile::Readonly.display_name(), "Dev Readonly");
    assert_eq!(DevProfile::Member.external_id(), "dev-local-member");
    let shared = DevOrg::parse(None).unwrap();
    assert_eq!(shared.slug(), "dev-org");
    assert_eq!(shared.display_name(), "Dev Org");
    assert_eq!(DevProfile::Admin.email_for(&shared), "dev@overslash.local");
    let scoped = DevOrg::parse(Some(" run-42 ")).unwrap();
    assert_eq!(scoped.slug(), "run-42");
    assert_eq!(scoped.display_name(), "Dev Org (run-42)");
    assert_eq!(DevProfile::Member.email_for(&scoped), "member+run-42@overslash.local");
    assert_eq!(
        DevOrg::parse(Some("-bad")),
        Err(ApiError::BadRequest(
            "invalid dev org slug \"-bad\": 2-63 chars of [a-z0-9-], no leading/trailing hyphen".into()
        ))
    );
    assert_eq!(
        DevOrg::parse(Some("dev-org")),
        Err(ApiError::BadRequest(
            "dev org slug 'dev-org' is reserved — omit ?org= to use the shared org".into()
        ))
    );
    assert!(DevOrg::parse(Some("A")).is_err());
    assert_eq!(session_expiry(100), 604_900);
}

fn facts() -> OrgLoginFacts {
    OrgLoginFacts {
        is_personal: false,
        allow_managed_signin: false,
        require_invite_admission: true,
        managed_signin_allowed_domains: vec![],
        idp_allowed_domains: Some(vec![]),
        subject_identity: None,
        overslash_user: None,
        account_identity: None,
        email_identity: None,
    }
}

#[test]
fn admission_gate_rules() {
    let doms = vec!["Acme.io".to_string()];
    assert_eq!(admission_gate("acme", Some("acme"), true, true, &[], None, "x@y.z"), Ok(()));
    assert_eq!(
        admission_gate("acme", None, true, true, &doms, None, "a@acme.io"),
        Err(ApiError::Forbidden("not_invited".into()))
    );
    assert_eq!(admission_gate("acme", None, true, false, &doms, None, "a@ACME.io"), Ok(()));
    assert_eq!(
        admission_gate("acme", None, true, false, &[], None, "a@acme.io"),
        Err(ApiError::Forbidden("domain_admission_not_configured".into()))
    );
    assert_eq!(
        admission_gate("acme", None, true, false, &doms, None, "a@other.io"),
        Err(ApiError::Forbidden("domain_not_allowed".into()))
    );
    assert_eq!(
        admission_gate("acme", None, false, true, &[], None, "a@acme.io"),
        Err(ApiError::Forbidden("not_permitted_by_org_idp".into()))
    );
    assert_eq!(admission_gate("acme", None, false, true, &[], Some(&[]), "a@any.io"), Ok(()));
    assert_eq!(admission_gate("acme", None, false, true, &[], Some(&doms), "a@sub@acme.io"), Ok(()));
}

#[test]
fn org_login_plans() {
    assert_eq!(
        plan_org_login(None, "acme", None, "a@b.c"),
        Err(ApiError::NotFound("org not found: acme".into()))
    );
    let mut f = facts();
    f.is_personal = true;
    assert_eq!(
        plan_org_login(Some(&f), "p", None, "a@b.c"),
        Err(ApiError::BadRequest("personal orgs do not accept IdP logins".into()))
    );
    let mut f = facts();
    f.subject_identity = Some(IdentityFacts { identity_id: 1, user_id: Some(2), has_external_id: true });
    assert_eq!(plan_org_login(Some(&f), "acme", None, "a@b.c"), Ok(OrgLoginPlan::Returning { identity_id: 1, user_id: 2 }));
    let mut f = facts();
    f.overslash_user = Some(9);
    f.account_identity = Some(IdentityFacts { identity_id: 3, user_id: Some(9), has_external_id: false });
    f.email_identity = Some(IdentityFacts { identity_id: 4, user_id: None, has_external_id: false });
    assert_eq!(
        plan_org_login(Some(&f), "acme", None, "a@b.c"),
        Ok(OrgLoginPlan::AdoptByUser { identity_id: 3, user_id: 9, claim_subject: true })
    );
    let mut f = facts();
    f.email_identity = Some(IdentityFacts { identity_id: 4, user_id: None, has_external_id: true });
    assert_eq!(
        plan_org_login(Some(&f), "acme", None, "a@b.c"),
        Ok(OrgLoginPlan::AdoptByEmail { identity_id: 4, user: UserChoice::NewOrgOnly, claim_subject: false, complete_invite: true })
    );
    assert_eq!(plan_org_login(Some(&facts()), "acme", None, "a@b.c"), Ok(OrgLoginPlan::Admit { user: UserChoice::NewOrgOnly, role: MemberRole::Member }));
    let mut f = facts();
    f.allow_managed_signin = true;
    assert_eq!(plan_org_login(Some(&f), "acme", None, "a@b.c"), Err(ApiError::Forbidden("not_invited".into())));
}

#[test]
fn personal_slugs() {
    assert_eq!(personal_slug(0), "personal-0000000000000000");
    assert_eq!(personal_slug(0xdead_beef), "personal-00000000deadbeef");
    assert_eq!(personal_slug(u64::MAX), "personal-ffffffffffffffff");
    assert_eq!(generate_personal_slug().len(), 25);
    assert_eq!(member_display_name(None, "a@b.c"), "a@b.c");
    assert_eq!(member_display_name(Some("Ann"), "a@b.c"), "Ann");
}

#[test]
fn leaving_an_org() {
    assert_eq!(
        check_drop_membership(true, true, None, &[], true, 1),
        Err(ApiError::BadRequest("cannot drop membership of your own personal org".into()))
    );
    assert_eq!(
        check_drop_membership(true, false, None, &[1], true, 1),
        Err(ApiError::BadRequest("cannot drop the last admin of a non-personal org".into()))
    );
    assert_eq!(
        check_drop_membership(true, false, Some(1), &[1, 2], true, 1),
        Ok(Departure { was_admin: true, was_original_creator: true })
    );
    assert_eq!(
        check_drop_membership(true, false, None, &[2], true, 1),
        Ok(Departure { was_admin: false, was_original_creator: false })
    );
    assert_eq!(
        check_drop_membership(true, false, None, &[2], false, 1),
        Err(ApiError::NotFound("no such membership".into()))
    );
    assert_eq!(check_drop_membership(false, false, None, &[], true, 1), Err(ApiError::NotFound("org not found".into())));
    assert_eq!(departure_description(Departure { was_admin: false, was_original_creator: true }), "Original creator left the org");
}

#[test]
fn session_users_and_prefs() {
    assert_eq!(resolve_session_user(Some(5), None), Ok(5));
    assert_eq!(resolve_session_user(None, Some(Some(6))), Ok(6));
    assert_eq!(resolve_session_user(None, None), Err(ApiError::NotFound("identity not found".into())));
    assert_eq!(
        resolve_session_user(None, Some(None)),
        Err(ApiError::Unauthorized("session has no resolvable user; sign in again".into()))
    );
    assert_eq!(switch_claim_email(None, Some("c@x".into())), "c@x");
    assert_eq!(switch_claim_email(None, None), "");
    assert!(preference_change(EmailCategory::Welcome, true, Some(true)).is_none());
    assert!(preference_change(EmailCategory::Welcome, true, None).is_none());
    let c = preference_change(EmailCategory::WebhookDigest, true, Some(false)).unwrap();
    assert!(!c.subscribe);
    assert_eq!(c.action, "email.unsubscribed");
    assert_eq!(c.description, "Webhook DLQ digest unsubscribed from /account");
}

#[test]
fn admitted_member_keeps_existing_membership() {
    assert_eq!(admission_membership(MembershipInsert::Inserted), Ok(true));
    assert_eq!(admission_membership(MembershipInsert::AlreadyMember), Ok(false));
    assert_eq!(admission_membership(MembershipInsert::Failed), Err(()));
    assert_eq!(MemberRole::Member.as_str(), "member");
    assert_eq!(MemberRole::Admin.as_str(), "admin");
}
