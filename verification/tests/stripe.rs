use hmac::Mac;
use overslash_api::stripe::verify_stripe_signature_at;

fn sign(secret: &str, t: &str, payload: &[u8]) -> String {
    let mut mac = <hmac::Hmac<sha2::Sha256> as hmac::digest::KeyInit>::new_from_slice(secret.as_bytes()).unwrap();
    let mut signed = t.as_bytes().to_vec();
    signed.push(b'.');
    signed.extend_from_slice(payload);
    mac.update(&signed);
    hex::encode(mac.finalize().into_bytes())
}

const SECRET: &str = "whsec_test";
const BODY: &[u8] = br#"{"id":"evt_1","type":"invoice.payment_succeeded"}"#;

#[test]
fn valid_signature_is_accepted() {
    let sig = sign(SECRET, "1700000000", BODY);
    let header = format!("t=1700000000,v1={sig}");
    assert_eq!(verify_stripe_signature_at(SECRET, BODY, &header, 1700000100), Ok(()));
}

#[test]
fn any_matching_v1_signature_is_enough() {
    let sig = sign(SECRET, "1700000000", BODY);
    let header = format!("t=1700000000, v1=deadbeef , v0=ignored, v1={sig}");
    assert_eq!(verify_stripe_signature_at(SECRET, BODY, &header, 1700000000), Ok(()));
}

#[test]
fn tampered_body_is_refused() {
    let sig = sign(SECRET, "1700000000", BODY);
    let header = format!("t=1700000000,v1={sig}");
    assert_eq!(verify_stripe_signature_at(SECRET, b"{}", &header, 1700000000), Err(()));
}

#[test]
fn wrong_secret_is_refused() {
    let sig = sign("other", "1700000000", BODY);
    let header = format!("t=1700000000,v1={sig}");
    assert_eq!(verify_stripe_signature_at(SECRET, BODY, &header, 1700000000), Err(()));
}

#[test]
fn timestamp_tolerance_is_five_minutes_both_ways() {
    let sig = sign(SECRET, "1700000000", BODY);
    let header = format!("t=1700000000,v1={sig}");
    assert_eq!(verify_stripe_signature_at(SECRET, BODY, &header, 1700000300), Ok(()));
    assert_eq!(verify_stripe_signature_at(SECRET, BODY, &header, 1700000301), Err(()));
    assert_eq!(verify_stripe_signature_at(SECRET, BODY, &header, 1699999700), Ok(()));
    assert_eq!(verify_stripe_signature_at(SECRET, BODY, &header, 1699999699), Err(()));
}

#[test]
fn last_timestamp_wins() {
    let sig = sign(SECRET, "1700000000", BODY);
    let header = format!("t=1,t=1700000000,v1={sig}");
    assert_eq!(verify_stripe_signature_at(SECRET, BODY, &header, 1700000000), Ok(()));
    let header2 = format!("t=1700000000,t=1,v1={sig}");
    assert_eq!(verify_stripe_signature_at(SECRET, BODY, &header2, 1700000000), Err(()));
}

#[test]
fn malformed_headers_are_refused() {
    let sig = sign(SECRET, "1700000000", BODY);
    assert_eq!(verify_stripe_signature_at(SECRET, BODY, &format!("v1={sig}"), 1700000000), Err(()));
    assert_eq!(verify_stripe_signature_at(SECRET, BODY, "t=1700000000", 1700000000), Err(()));
    assert_eq!(verify_stripe_signature_at(SECRET, BODY, &format!("t=abc,v1={sig}"), 1700000000), Err(()));
    assert_eq!(verify_stripe_signature_at(SECRET, BODY, "", 1700000000), Err(()));
}

#[test]
fn signed_text_is_the_timestamp_as_written() {
    let sig = sign(SECRET, "+1700000000", BODY);
    let header = format!("t=+1700000000,v1={sig}");
    assert_eq!(verify_stripe_signature_at(SECRET, BODY, &header, 1700000000), Ok(()));
}
