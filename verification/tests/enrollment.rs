use overslash_api::enrollment::{approval_record_step, ApprovalRecordStep};
use hmac::Mac;
use overslash_api::enrollment::{
    approval_token_for, approval_url, check_enrollment_claim, check_pending_enrollment,
    check_token_target_kind, parse_enrollment_decision,
    consent_view, default_token_expiry, generate_approval_token, generate_prefixed_token,
    place_enrolled_agent, poll_status, signing_key_bytes, token_lookup_prefix, verify_argon2_hash,
    AgentPlacement, ConsentView, EnrollmentDecision, ParentIdentity,
};
use overslash_api::error::ApiError;

#[test]
fn token_expiry_default() {
    assert_eq!(default_token_expiry(), 900);
}

#[test]
fn presented_token_shape() {
    assert_eq!(token_lookup_prefix("ose_0123456789abcdef", "ose_"), Some("ose_01234567".to_string()));
    assert_eq!(token_lookup_prefix("ose_short", "ose_"), None);
    assert_eq!(token_lookup_prefix("osp_0123456789abcdef", "ose_"), None);
    assert_eq!(token_lookup_prefix("ose_0123456789abcdé", "ose_"), None);
}

#[test]
fn minted_secrets_verify() {
    let m = generate_prefixed_token("osk_").unwrap();
    assert!(m.raw.starts_with("osk_"));
    assert_eq!(m.raw.len(), 68);
    assert_eq!(m.prefix, m.raw[..12]);
    assert_eq!(verify_argon2_hash(&m.raw, &m.hash), Ok(()));
    assert_eq!(verify_argon2_hash("osk_wrong", &m.hash), Err(ApiError::Unauthorized("invalid token".into())));
    assert_eq!(verify_argon2_hash(&m.raw, "not a hash"), Err(ApiError::Internal("invalid stored hash".into())));
}

#[test]
fn lookup_prefix_is_twelve_bytes() {
    let m = generate_prefixed_token("ééééééé").unwrap();
    assert_eq!(m.prefix, "éééééé");
    assert_eq!(verify_argon2_hash(&m.raw, &m.hash), Ok(()));
    let long = generate_prefixed_token("enrollment_token_").unwrap();
    assert_eq!(long.prefix, "enrollment_t");
    assert_eq!(long.raw.len(), 17 + 64);
}

#[test]
fn approval_tokens() {
    assert_eq!(signing_key_bytes("00ff"), vec![0, 255]);
    assert_eq!(signing_key_bytes("zz"), b"zz".to_vec());
    let id = [7u8; 16];
    let t = approval_token_for("07070707-0707-0707-0707-070707070707", &id, "secret");
    let mut mac = <hmac::Hmac<sha2::Sha256> as hmac::digest::KeyInit>::new_from_slice(b"secret").unwrap();
    mac.update(&id);
    let sig = hex::encode(mac.finalize().into_bytes());
    assert_eq!(t, format!("07070707-0707-0707-0707-070707070707-{}", &sig[..16]));
    let fresh = generate_approval_token("00ff");
    assert_eq!(fresh.len(), 36 + 1 + 16);
    assert_eq!(&fresh[8..9], "-");
}

#[test]
fn consent_links() {
    assert_eq!(approval_url("https://dash.x.com/", "https://api", "T"), "https://dash.x.com/enroll/consent/T");
    assert_eq!(approval_url("/", "https://api.x.com/", "T"), "https://api.x.com/enroll/consent/T");
    assert_eq!(approval_url("/app", "https://api.x.com", "T"), "https://api.x.com/app/enroll/consent/T");
}

#[test]
fn enrollment_steps() {
    assert_eq!(check_token_target_kind("agent"), Ok(()));
    assert!(check_token_target_kind("user").is_err());
    assert_eq!(consent_view("pending", 5, 10, true), ConsentView::Expired);
    assert_eq!(consent_view("expired", 50, 10, true), ConsentView::Expired);
    assert_eq!(consent_view("approved", 50, 10, true), ConsentView::Resolved);
    assert_eq!(consent_view("pending", 50, 10, false), ConsentView::SignInRequired);
    assert_eq!(consent_view("pending", 50, 10, true), ConsentView::Show);
    assert_eq!(check_pending_enrollment("denied", 50, 10), Err(ApiError::Conflict("enrollment already resolved".into())));
    assert_eq!(check_pending_enrollment("pending", 5, 10), Err(ApiError::Conflict("enrollment has expired".into())));
    assert_eq!(check_pending_enrollment("pending", 50, 10), Ok(()));
    assert_eq!(check_enrollment_claim(true), Ok(()));
    assert_eq!(check_enrollment_claim(false), Err(ApiError::NotFound("enrollment not found".into())));
    assert_eq!(parse_enrollment_decision("approve"), Ok(EnrollmentDecision::Approve));
    assert_eq!(parse_enrollment_decision("deny"), Ok(EnrollmentDecision::Deny));
    assert_eq!(parse_enrollment_decision("hmm"), Err(ApiError::BadRequest("invalid decision: hmm".into())));
    assert_eq!(poll_status("pending", 5, 10), "expired");
    assert_eq!(poll_status("approved", 5, 10), "approved");
}

#[test]
fn agent_placement() {
    let user = ParentIdentity { id: 1, kind: "user".into(), owner_id: None, depth: 0 };
    assert_eq!(place_enrolled_agent(&user, false), Ok(AgentPlacement { parent_id: 1, owner_id: 1, depth: 1 }));
    let agent = ParentIdentity { id: 2, kind: "agent".into(), owner_id: Some(1), depth: 1 };
    assert_eq!(place_enrolled_agent(&agent, true), Ok(AgentPlacement { parent_id: 2, owner_id: 1, depth: 2 }));
    let orphan = ParentIdentity { id: 3, kind: "sub_agent".into(), owner_id: None, depth: 2 };
    assert_eq!(
        place_enrolled_agent(&orphan, true),
        Err(ApiError::BadRequest("cannot enroll under an identity with no owner chain".into()))
    );
    let service = ParentIdentity { id: 4, kind: "service".into(), owner_id: Some(1), depth: 0 };
    assert_eq!(
        place_enrolled_agent(&service, true),
        Err(ApiError::BadRequest("parent must be a user, agent, or sub_agent".into()))
    );
}

#[test]
fn approval_race_removes_the_agent() {
    assert_eq!(approval_record_step(true), ApprovalRecordStep::Done);
    assert_eq!(
        approval_record_step(false),
        ApprovalRecordStep::DeleteAgentThenFail(ApiError::Conflict("enrollment already resolved by another request".into()))
    );
}
