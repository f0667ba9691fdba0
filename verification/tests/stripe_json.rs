use base64::Engine;
use hmac::Mac;
use overslash_api::billing::{pending_checkout_step, period_timestamp, PendingCheckoutStep, WebhookAction};
use overslash_api::error::ApiError;
use overslash_api::login::id_token_claims;
use overslash_api::stripe_json::{
    checkout_ids, object_subscription_fields, price_from_lookup, price_lookup_url,
    subscription_details, webhook_event, webhook_intake, StripeObject,
};

fn sign_now(secret: &str, payload: &[u8]) -> String {
    let t = time::OffsetDateTime::now_utc().unix_timestamp().to_string();
    let mut mac = <hmac::Hmac<sha2::Sha256> as hmac::digest::KeyInit>::new_from_slice(secret.as_bytes()).unwrap();
    let mut signed = t.as_bytes().to_vec();
    signed.push(b'.');
    signed.extend_from_slice(payload);
    mac.update(&signed);
    format!("t={t},v1={}", hex::encode(mac.finalize().into_bytes()))
}

const EVENT: &[u8] = br#"{"id":"evt_1","type":"customer.subscription.updated","data":{"object":{"id":"sub_9","customer":"cus_2","status":"past_due","items":{"data":[{"quantity":7}]},"current_period_start":100,"current_period_end":200,"cancel_at_period_end":true}}}"#;

#[test]
fn webhook_body_is_read_by_the_library() {
    let e = webhook_event(EVENT).unwrap();
    assert_eq!(e.id, "evt_1");
    assert_eq!(e.action, WebhookAction::SubscriptionUpdated);
    assert_eq!(
        e.object,
        StripeObject {
            id: Some("sub_9".into()),
            subscription: None,
            customer: Some("cus_2".into()),
            status: Some("past_due".into()),
            quantity: Some(7),
            current_period_start: Some(100),
            current_period_end: Some(200),
            cancel_at_period_end: Some(true),
        }
    );
    let f = object_subscription_fields(&e.object, 2);
    assert_eq!(f.seats, 7);
    assert_eq!(f.status, "past_due");
    assert!(f.cancel_at_period_end);
    assert_eq!(webhook_event(b"not json"), Err(ApiError::BadRequest("invalid JSON".into())));
    assert_eq!(
        webhook_event(br#"{"type":"invoice.payment_failed"}"#),
        Err(ApiError::BadRequest("missing event id".into()))
    );
    assert_eq!(
        webhook_event(br#"{"id":"evt_2"}"#).unwrap().action,
        WebhookAction::Ignore
    );
}

#[test]
fn webhook_intake_checks_secret_header_and_signature() {
    assert_eq!(
        webhook_intake(None, Some("t=1,v1=x"), EVENT),
        Err(ApiError::Internal("webhook secret not configured".into()))
    );
    assert_eq!(
        webhook_intake(Some("whsec"), None, EVENT),
        Err(ApiError::BadRequest("missing Stripe-Signature".into()))
    );
    assert_eq!(
        webhook_intake(Some("whsec"), Some("t=1,v1=00"), EVENT),
        Err(ApiError::BadRequest("invalid webhook signature".into()))
    );
    let header = sign_now("whsec", EVENT);
    assert_eq!(webhook_intake(Some("whsec"), Some(&header), EVENT).unwrap().id, "evt_1");
}

#[test]
fn checkout_session_ids() {
    let session = webhook_event(
        br#"{"id":"evt_3","type":"checkout.session.completed","data":{"object":{"id":"cs_1","subscription":"sub_1","customer":"cus_1"}}}"#,
    )
    .unwrap()
    .object;
    assert_eq!(checkout_ids(&session), Some(("cs_1".into(), "sub_1".into(), "cus_1".into())));
    let partial = webhook_event(br#"{"id":"evt_4","data":{"object":{"id":"cs_1","customer":"cus_1"}}}"#)
        .unwrap()
        .object;
    assert_eq!(checkout_ids(&partial), None);
}

#[test]
fn fetched_subscription_and_price_list() {
    let sub = subscription_details(br#"{"id":"sub_1","status":"active","items":{"data":[{"quantity":3}]}}"#).unwrap();
    assert_eq!(sub.quantity, Some(3));
    assert_eq!(object_subscription_fields(&sub, 5).seats, 3);
    assert!(matches!(subscription_details(b"{"), Err(ApiError::Internal(m)) if m.starts_with("stripe subscription parse: ")));
    assert_eq!(
        price_lookup_url("https://api.stripe.com/v1", "team seat"),
        "https://api.stripe.com/v1/prices?lookup_keys[]=team%20seat&active=true&limit=1"
    );
    assert_eq!(price_from_lookup(br#"{"data":[{"id":"price_1"}]}"#, "team"), Ok("price_1".into()));
    assert_eq!(
        price_from_lookup(br#"{"data":[]}"#, "team"),
        Err(ApiError::Internal("no active Stripe price for lookup_key=team".into()))
    );
    assert!(matches!(price_from_lookup(b"nope", "team"), Err(ApiError::Internal(m)) if m.starts_with("stripe price parse: ")));
}

#[test]
fn clean_up_steps_and_timestamp_range() {
    assert_eq!(pending_checkout_step(true), PendingCheckoutStep::Proceed);
    assert_eq!(pending_checkout_step(false), PendingCheckoutStep::ExpireSessionThenFail);
    assert_eq!(period_timestamp(Some(-377_705_116_801)), None);
    assert_eq!(period_timestamp(Some(253_402_300_800)), None);
}

fn id_token(payload: &str) -> String {
    let p = base64::engine::general_purpose::URL_SAFE_NO_PAD.encode(payload);
    format!("hdr.{p}.sig")
}

#[test]
fn id_token_claims_follow_the_nonce() {
    let t = id_token(r#"{"email":"a@b.c","nonce":"n1"}"#);
    let claims = id_token_claims(&t, Some("n1"));
    assert_eq!(
        claims,
        vec![("email".to_string(), "\"a@b.c\"".to_string()), ("nonce".to_string(), "\"n1\"".to_string())]
    );
    assert!(id_token_claims(&t, Some("other")).is_empty());
    assert_eq!(id_token_claims(&t, None).len(), 2);
    let no_nonce = id_token(r#"{"email":"a@b.c"}"#);
    assert_eq!(id_token_claims(&no_nonce, Some("n1")).len(), 1);
    assert!(id_token_claims(&id_token("[1,2]"), None).is_empty());
    assert!(id_token_claims("no-dots", None).is_empty());
    assert!(id_token_claims("a.!!!.c", None).is_empty());
}
