use overslash_api::byoc::{
    byoc_caller, byoc_exists_error, check_byoc_access, check_directory_target, normalize_metadata,
    visible_byoc, ByocOp, JsonShape, MetadataChoice,
};
use overslash_api::approvals::AccessLevel;
use overslash_api::connections::{
    allow_remint, bind_precheck, bind_update_result, check_upgrade_target, connect_link_gone,
    connect_login_path, error_redirect_url, listing_scope, merge_pin_ids, redirect_reason_token,
    return_target_allowed, success_redirect_url, ListingScope,
};
use overslash_api::dev_e2e::{check_dev_enabled, check_dev_org_delete};
use overslash_api::downloads::{download_audit_fields, download_throttle_key, forwarded_headers, Redeemed};
use overslash_api::error::ApiError;

#[test]
fn reason_tokens() {
    assert_eq!(redirect_reason_token(400), "bad_request");
    assert_eq!(redirect_reason_token(429), "rate_limited");
    assert_eq!(redirect_reason_token(502), "upstream_error");
    assert_eq!(redirect_reason_token(500), "internal_error");
    assert_eq!(redirect_reason_token(418), "internal_error");
}

#[test]
fn pinned_instances() {
    assert_eq!(merge_pin_ids(&[2, 3], Some(1)), vec![1, 2, 3]);
    assert_eq!(merge_pin_ids(&[2, 3], Some(3)), vec![2, 3]);
    assert_eq!(merge_pin_ids(&[], None), Vec::<u128>::new());
    assert_eq!(bind_precheck(None, 1), Err("service_instance_not_found"));
    assert_eq!(bind_precheck(Some(None), 1), Err("service_instance_owner_mismatch"));
    assert_eq!(bind_precheck(Some(Some(2)), 1), Err("service_instance_owner_mismatch"));
    assert_eq!(bind_precheck(Some(Some(1)), 1), Ok(()));
    assert_eq!(bind_update_result(Some(false)), Err("service_instance_not_found"));
    assert_eq!(bind_update_result(None), Err("service_instance_bind_failed"));
}

#[test]
fn tenant_return_urls() {
    let hosts = vec!["partner.example".to_string()];
    assert!(return_target_allowed(&hosts, Some("https://Partner.Example/done")));
    assert!(!return_target_allowed(&hosts, Some("https://evil.example/done")));
    assert!(!return_target_allowed(&[], Some("https://partner.example/done")));
    assert!(!return_target_allowed(&hosts, None));
    assert!(!return_target_allowed(&hosts, Some("::nope")));
    assert_eq!(
        success_redirect_url("https://partner.example/done?x=1", "c1", "github", Some("a@b.c"), None, None),
        Some("https://partner.example/done?x=1&status=success&connection_id=c1&provider=github&account_email=a%40b.c".to_string())
    );
    assert_eq!(
        error_redirect_url("https://partner.example/done", "github", 409),
        Some("https://partner.example/done?status=error&provider=github&reason=conflict".to_string())
    );
}

#[test]
fn connect_links() {
    assert_eq!(
        check_upgrade_target(1, "github", 1, "google"),
        Err(ApiError::BadRequest("state mismatch: upgrade connection does not match identity/provider".into()))
    );
    assert_eq!(check_upgrade_target(1, "github", 1, "github"), Ok(()));
    assert_eq!(connect_link_gone(false, 5, 10), Some("This OAuth link has expired. Initiate the connection again to retry."));
    assert_eq!(connect_link_gone(true, 50, 10), Some("This OAuth link has already been used. Initiate the connection again to retry."));
    assert_eq!(connect_link_gone(false, 50, 10), None);
    assert_eq!(
        connect_login_path("https://api.x.com/", "F1"),
        "/auth/login?next=https%3A%2F%2Fapi.x.com%2Fconnect-authorize%3Fid%3DF1"
    );
    assert!(allow_remint(false));
    assert!(!allow_remint(true));
    assert_eq!(listing_scope(Some(5), 5, true, true), ListingScope::Own);
    assert_eq!(listing_scope(Some(6), 5, false, true), ListingScope::Identity(6));
    assert_eq!(listing_scope(Some(6), 5, true, false), ListingScope::Own);
    assert_eq!(listing_scope(None, 5, true, true), ListingScope::WholeOrg);
    assert_eq!(listing_scope(None, 5, true, false), ListingScope::Own);
}

#[test]
fn byoc_rules() {
    assert_eq!(byoc_caller(Some(4)), Ok(4));
    assert_eq!(byoc_caller(None), Err(ApiError::Forbidden("identity-bound credential required for BYOC".into())));
    assert_eq!(check_byoc_access(ByocOp::Read, 1, 1, AccessLevel::Write), Ok(()));
    assert_eq!(check_byoc_access(ByocOp::Delete, 1, 2, AccessLevel::Admin), Ok(()));
    assert_eq!(
        check_byoc_access(ByocOp::Replace, 1, 2, AccessLevel::Write),
        Err(ApiError::Forbidden("replacing another identity's BYOC requires admin access".into()))
    );
    assert_eq!(visible_byoc(&[1, 2, 1], 1, false), vec![0, 2]);
    assert_eq!(visible_byoc(&[1, 2, 1], 1, true), vec![0, 1, 2]);
    assert_eq!(normalize_metadata(JsonShape::Null), Ok(MetadataChoice::Empty));
    assert_eq!(normalize_metadata(JsonShape::Object), Ok(MetadataChoice::Keep));
    assert!(normalize_metadata(JsonShape::Other).is_err());
    assert_eq!(byoc_exists_error("github"), ApiError::Conflict("BYOC credential already exists for provider 'github'".into()));
    assert_eq!(check_directory_target(Some(false)), Ok(()));
    assert_eq!(check_directory_target(None), Err(ApiError::NotFound("group not found".into())));
    assert!(check_directory_target(Some(true)).is_err());
}

#[test]
fn downloads_and_dev_endpoints() {
    assert_eq!(download_throttle_key(Some("1.2.3.4")), "dl:redeem:ip:1.2.3.4");
    assert_eq!(download_audit_fields(Redeemed::Upstream { status: 404 }), (Some(404), true, None));
    assert_eq!(download_audit_fields(Redeemed::Stored { stored_status: 404 }), (Some(200), false, Some(404)));
    assert_eq!(download_audit_fields(Redeemed::Failed), (None, true, None));
    let stored = vec![
        ("Content-Type".to_string(), "text/plain".to_string()),
        ("content-length".to_string(), "10".to_string()),
        ("content-type".to_string(), "ignored".to_string()),
    ];
    assert_eq!(
        forwarded_headers(&["content-type", "content-length", "etag"], &stored),
        vec![("content-type".to_string(), "text/plain".to_string())]
    );
    assert_eq!(check_dev_enabled(false), Err(ApiError::NotFound("not found".into())));
    assert_eq!(check_dev_enabled(true), Ok(()));
    assert_eq!(
        check_dev_org_delete(true, "dev-org"),
        Err(ApiError::BadRequest("refusing to delete the shared 'dev-org'".into()))
    );
    assert_eq!(check_dev_org_delete(true, "run-1"), Ok(()));
}
