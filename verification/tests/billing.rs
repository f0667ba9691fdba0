use overslash_api::billing::{
    checkout_return_urls, classify_webhook, geo_pricing, is_eu_country, portal_return_url,
    request_country, subscription_seats, synthetic_plan, validate_checkout, Currency, GeoPricing,
    TrialState, WebhookAction,
};
use overslash_api::codec::{constant_time_eq, parse_i64};
use overslash_api::error::ApiError;

#[test]
fn eu_countries_pay_in_euros() {
    assert!(is_eu_country("DE"));
    assert!(is_eu_country("SK"));
    assert!(!is_eu_country("GB"));
    assert!(!is_eu_country("de"));
    assert_eq!(geo_pricing(Some("FR")), GeoPricing { currency: Currency::Eur, base_price: 15 });
    assert_eq!(geo_pricing(Some("US")), GeoPricing { currency: Currency::Usd, base_price: 20 });
    assert_eq!(geo_pricing(None), GeoPricing { currency: Currency::Usd, base_price: 20 });
    assert_eq!(Currency::Eur.code(), "eur");
}

#[test]
fn geo_header_priority() {
    assert_eq!(request_country(Some(Some("DE")), Some(Some("US")), None), Some("DE"));
    assert_eq!(request_country(None, Some(Some("US")), Some(Some("DE"))), Some("US"));
    assert_eq!(request_country(None, None, Some(Some("NL"))), Some("NL"));
    assert_eq!(request_country(Some(None), Some(Some("US")), None), None);
    assert_eq!(request_country(None, None, None), None);
}

#[test]
fn checkout_validation() {
    assert_eq!(validate_checkout(2, "EUR"), Ok(Currency::Eur));
    assert_eq!(validate_checkout(20, "usd"), Ok(Currency::Usd));
    assert_eq!(
        validate_checkout(1, "eur"),
        Err(ApiError::BadRequest("seats must be between 2 and 20".into()))
    );
    assert_eq!(
        validate_checkout(21, "gbp"),
        Err(ApiError::BadRequest("seats must be between 2 and 20".into()))
    );
    assert_eq!(
        validate_checkout(5, "gbp"),
        Err(ApiError::BadRequest("currency must be eur or usd".into()))
    );
}

#[test]
fn return_urls_drop_trailing_slashes() {
    let (ok, cancel) = checkout_return_urls("https://dash.x.com//");
    assert_eq!(ok, "https://dash.x.com/billing/success?session_id={CHECKOUT_SESSION_ID}");
    assert_eq!(cancel, "https://dash.x.com/billing/new-team");
    assert_eq!(portal_return_url("https://dash.x.com"), "https://dash.x.com/org");
}

#[test]
fn webhook_routing() {
    assert_eq!(classify_webhook("checkout.session.completed", "evt_1"), Ok(WebhookAction::CheckoutCompleted));
    assert_eq!(classify_webhook("invoice.payment_failed", "evt_1"), Ok(WebhookAction::InvoicePaymentFailed));
    assert_eq!(classify_webhook("customer.created", "evt_1"), Ok(WebhookAction::Ignore));
    assert_eq!(
        classify_webhook("checkout.session.completed", ""),
        Err(ApiError::BadRequest("missing event id".into()))
    );
}

#[test]
fn seats_and_plans() {
    assert_eq!(subscription_seats(Some(7), 2), 7);
    assert_eq!(subscription_seats(None, 3), 3);
    assert_eq!(subscription_seats(Some(4_294_967_297), 2), 1);
    let p = synthetic_plan(true, TrialState::Active { ends_at: 5 }).unwrap();
    assert_eq!((p.plan.as_str(), p.status.as_str(), p.seats), ("free_unlimited", "active", 0));
    let t = synthetic_plan(false, TrialState::Expired { ends_at: 9 }).unwrap();
    assert_eq!((t.plan.as_str(), t.status.as_str(), t.current_period_end), ("trial", "trial_expired", Some(9)));
    assert_eq!(synthetic_plan(false, TrialState::NoTrial), None);
}

#[test]
fn integer_parsing_and_comparison() {
    let p = |s: &str| parse_i64(&s.chars().collect::<Vec<_>>());
    assert_eq!(p("-9223372036854775808"), Some(i64::MIN));
    assert_eq!(p("9223372036854775807"), Some(i64::MAX));
    assert_eq!(p("9223372036854775808"), None);
    assert_eq!(p("+12"), Some(12));
    assert_eq!(p("-"), None);
    assert_eq!(p("1 "), None);
    assert!(constant_time_eq(b"abc", b"abc"));
    assert!(!constant_time_eq(b"abc", b"abd"));
    assert!(!constant_time_eq(b"abc", b"ab"));
}
