use overslash_api::admission::{
    personal_org_step, returning_user_personal_org, winner_poll_again, winner_poll_delay_ms,
    PersonalOrgStep,
};
use overslash_api::error::ApiError;
use overslash_api::login::{org_credentials, root_credentials, OrgCredentialLookup};

#[test]
fn taken_personal_slug_is_retried_five_times() {
    assert_eq!(personal_org_step(true, false, 0), PersonalOrgStep::Created);
    assert_eq!(personal_org_step(false, true, 0), PersonalOrgStep::RetryFreshSlug);
    assert_eq!(personal_org_step(false, true, 4), PersonalOrgStep::RetryFreshSlug);
    assert_eq!(personal_org_step(false, true, 5), PersonalOrgStep::Fail);
    assert_eq!(personal_org_step(false, false, 0), PersonalOrgStep::Fail);
}

#[test]
fn race_loser_backs_off_exponentially() {
    assert_eq!(winner_poll_delay_ms(0), 50);
    assert_eq!(winner_poll_delay_ms(1), 100);
    assert_eq!(winner_poll_delay_ms(4), 800);
    assert!(winner_poll_again(false, 0));
    assert!(!winner_poll_again(true, 0));
    assert!(!winner_poll_again(false, 5));
}

#[test]
fn returning_user_needs_a_personal_org() {
    assert_eq!(returning_user_personal_org(Some(9)), Ok(9));
    assert_eq!(
        returning_user_personal_org(None),
        Err(ApiError::Internal(
            "Overslash-backed user has no personal_org_id; backfill incomplete".to_string()
        ))
    );
}

#[test]
fn credential_lookup_errors_name_the_fix() {
    let pair = ("id".to_string(), "secret".to_string());
    assert_eq!(root_credentials("google", Some(pair.clone())), Ok(pair.clone()));
    assert_eq!(
        root_credentials("google", None),
        Err(ApiError::NotFound("provider google is not configured at the root level".to_string()))
    );
    assert_eq!(
        org_credentials("google", "acme", None),
        Err(ApiError::NotFound("org not found: acme".to_string()))
    );
    assert_eq!(
        org_credentials("google", "acme", Some(OrgCredentialLookup::Found("id".into(), "secret".into()))),
        Ok(pair)
    );
    assert_eq!(
        org_credentials("okta", "acme", Some(OrgCredentialLookup::Disabled)),
        Err(ApiError::NotFound("provider okta is disabled for org acme".to_string()))
    );
    assert_eq!(
        org_credentials("okta", "acme", Some(OrgCredentialLookup::NotConfigured)),
        Err(ApiError::NotFound("provider okta not configured for org acme".to_string()))
    );
}
