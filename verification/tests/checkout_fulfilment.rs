use overslash_api::billing::{
    checkout_event_ids_present, checkout_org_choice, pending_checkout_skip, period_timestamp,
    subscription_fields, CheckoutOrg, CheckoutSkip, OrgCreation, SubscriptionFields,
    UPDATED_SUBSCRIPTION_DEFAULT_SEATS,
};

#[test]
fn checkout_event_needs_all_three_ids() {
    assert!(checkout_event_ids_present("cs_1", "sub_1", "cus_1"));
    assert!(!checkout_event_ids_present("", "sub_1", "cus_1"));
    assert!(!checkout_event_ids_present("cs_1", "", "cus_1"));
    assert!(!checkout_event_ids_present("cs_1", "sub_1", ""));
}

#[test]
fn pending_checkout_decides_whether_to_go_on() {
    assert_eq!(pending_checkout_skip(None), Some(CheckoutSkip::NoPendingCheckout));
    assert_eq!(pending_checkout_skip(Some(true)), Some(CheckoutSkip::AlreadyFulfilled));
    assert_eq!(pending_checkout_skip(Some(false)), None);
}

#[test]
fn taken_slug_is_reused_only_by_its_owner() {
    assert_eq!(checkout_org_choice(OrgCreation::Created, false), CheckoutOrg::New);
    assert_eq!(checkout_org_choice(OrgCreation::SlugTaken, true), CheckoutOrg::Existing);
    assert_eq!(
        checkout_org_choice(OrgCreation::SlugTaken, false),
        CheckoutOrg::Skip(CheckoutSkip::SlugTakenByOther)
    );
    assert_eq!(checkout_org_choice(OrgCreation::Failed, true), CheckoutOrg::Fail);
}

#[test]
fn period_bounds_outside_the_date_range_are_dropped() {
    assert_eq!(period_timestamp(Some(0)), Some(0));
    assert_eq!(period_timestamp(Some(1_546_300_800)), Some(1_546_300_800));
    assert_eq!(period_timestamp(Some(i64::MAX)), None);
    assert_eq!(period_timestamp(Some(i64::MIN)), None);
    assert_eq!(period_timestamp(None), None);
    assert_eq!(period_timestamp(Some(-377_705_116_800)), Some(-377_705_116_800));
    assert_eq!(period_timestamp(Some(253_402_300_799)), Some(253_402_300_799));
}

#[test]
fn subscription_object_defaults() {
    assert_eq!(
        subscription_fields(None, UPDATED_SUBSCRIPTION_DEFAULT_SEATS, None, None, None, None),
        SubscriptionFields {
            seats: 2,
            status: "active".to_string(),
            current_period_start: None,
            current_period_end: None,
            cancel_at_period_end: false,
        }
    );
    assert_eq!(
        subscription_fields(Some(7), 3, Some("past_due"), Some(100), Some(i64::MAX), Some(true)),
        SubscriptionFields {
            seats: 7,
            status: "past_due".to_string(),
            current_period_start: Some(100),
            current_period_end: None,
            cancel_at_period_end: true,
        }
    );
    assert_eq!(subscription_fields(None, 5, None, None, None, None).seats, 5);
}
