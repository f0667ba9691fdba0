use overslash_api::billing::{customer_save_step, CustomerSave, CustomerSaveStep};
use overslash_api::billing::{
    billing_secret_key, billing_user, check_subscription_org, checkout_price_id, checkout_status,
    checkout_trial_days, portal_customer, CheckoutStatus, Currency,
};
use overslash_api::error::ApiError;

#[test]
fn billing_needs_an_account_session() {
    assert_eq!(billing_user(Some(4)), Ok(4));
    assert_eq!(
        billing_user(None),
        Err(ApiError::Unauthorized("multi-org session required".to_string()))
    );
}

#[test]
fn price_follows_currency() {
    assert_eq!(checkout_price_id(Currency::Eur, Some("price_e"), Some("price_u")), Ok("price_e".to_string()));
    assert_eq!(checkout_price_id(Currency::Usd, Some("price_e"), Some("price_u")), Ok("price_u".to_string()));
    assert_eq!(
        checkout_price_id(Currency::Eur, None, Some("price_u")),
        Err(ApiError::Internal("STRIPE_EUR_PRICE_ID not set".to_string()))
    );
    assert_eq!(
        checkout_price_id(Currency::Usd, Some("price_e"), None),
        Err(ApiError::Internal("STRIPE_USD_PRICE_ID not set".to_string()))
    );
    assert_eq!(checkout_trial_days(true, 14), Some(14));
    assert_eq!(checkout_trial_days(false, 14), None);
    assert_eq!(billing_secret_key(Some("sk")), Ok("sk".to_string()));
    assert_eq!(
        billing_secret_key(None),
        Err(ApiError::Internal("billing not configured".to_string()))
    );
}

#[test]
fn only_the_buyer_polls_a_checkout() {
    assert_eq!(checkout_status(1, Some((1, None))), Ok(CheckoutStatus::Pending));
    assert_eq!(checkout_status(1, Some((1, Some(7)))), Ok(CheckoutStatus::Fulfilled(7)));
    assert_eq!(
        checkout_status(1, Some((2, Some(7)))),
        Err(ApiError::Forbidden("not your checkout".to_string()))
    );
    assert_eq!(
        checkout_status(1, None),
        Err(ApiError::NotFound("checkout not found".to_string()))
    );
}

#[test]
fn portal_is_for_the_billing_contact() {
    assert_eq!(portal_customer(Some("cus_1"), Some("cus_1")), Ok("cus_1".to_string()));
    let refused = Err(ApiError::Forbidden("not the billing contact for this org".to_string()));
    assert_eq!(portal_customer(Some("cus_1"), Some("cus_2")), refused);
    assert_eq!(portal_customer(Some("cus_1"), None), refused);
    assert_eq!(
        portal_customer(None, Some("cus_1")),
        Err(ApiError::NotFound("no subscription for this org".to_string()))
    );
    assert_eq!(check_subscription_org(3, 3), Ok(()));
    assert_eq!(
        check_subscription_org(3, 4),
        Err(ApiError::Forbidden("org mismatch".to_string()))
    );
}

#[test]
fn unsaved_customer_is_deleted_again() {
    assert_eq!(customer_save_step(CustomerSave::Saved), CustomerSaveStep::Proceed);
    assert_eq!(
        customer_save_step(CustomerSave::UserGone),
        CustomerSaveStep::DeleteCustomerThenFail(Some(ApiError::NotFound("user not found".into())))
    );
    assert_eq!(customer_save_step(CustomerSave::Failed), CustomerSaveStep::DeleteCustomerThenFail(None));
}
