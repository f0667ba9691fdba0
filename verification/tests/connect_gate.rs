use overslash_api::connect_gate::{
    ActingIdentity, GateDecision, IdpIdentity, ParsedSession, SessionError, evaluate_connect_gate,
    owner_label, resolve_same_human_in_org, session_authorized_for_org_identity, session_from_claims,
    session_token,
};
use overslash_api::html::{admin_consent_html, gone_html, html_escape, mismatch_html};

#[test]
fn html_escape_handles_xss_payloads() {
    assert_eq!(
        html_escape("<script>alert('x')</script>"),
        "&lt;script&gt;alert(&#x27;x&#x27;)&lt;/script&gt;"
    );
    assert_eq!(html_escape("a&b\"c"), "a&amp;b&quot;c");
}

#[test]
fn html_escape_keeps_plain_text() {
    assert_eq!(html_escape("plain text é"), "plain text é");
    assert_eq!(html_escape(""), "");
}

#[test]
fn gate_pages_escape_caller_data() {
    let page = gone_html("<b>gone</b>");
    assert_eq!(page.status, 410);
    assert!(page.body.contains("&lt;b&gt;gone&lt;/b&gt;"));
    assert!(!page.body.contains("<b>gone"));
    assert_eq!(mismatch_html().status, 403);
    let consent = admin_consent_html("Eve <e@x>", "github", "f'1");
    assert_eq!(consent.status, 200);
    assert!(consent.body.contains("Eve &lt;e@x&gt;"));
    assert!(consent.body.contains("value='f&#x27;1'"));
}

fn session(org: u128, id: u128) -> ParsedSession {
    ParsedSession { org_id: org, identity_id: id, user_id: Some(7) }
}

#[test]
fn owner_and_ancestors_pass_the_permit() {
    assert!(session_authorized_for_org_identity(&session(1, 10), 1, 10, &[]));
    assert!(session_authorized_for_org_identity(&session(1, 5), 1, 10, &[5, 3]));
    assert!(!session_authorized_for_org_identity(&session(2, 5), 1, 10, &[5]));
    assert!(!session_authorized_for_org_identity(&session(1, 6), 1, 10, &[5]));
}

#[test]
fn gate_tiers() {
    let s = session(1, 10);
    assert_eq!(evaluate_connect_gate(&s, 1, 10, 99, &[], true, None), GateDecision::Allow { remint: false });
    let admin = ActingIdentity { id: 20, user_id: Some(7), is_org_admin: true, has_membership: true };
    let s2 = session(1, 20);
    assert_eq!(evaluate_connect_gate(&s2, 1, 10, 99, &[], true, Some(admin)), GateDecision::NeedsConsent { remint: false });
    let stale = ActingIdentity { has_membership: false, ..admin };
    assert_eq!(evaluate_connect_gate(&s2, 1, 10, 99, &[], true, Some(stale)), GateDecision::Deny);
    let actor = ActingIdentity { id: 99, user_id: None, is_org_admin: false, has_membership: false };
    let s3 = session(1, 99);
    assert_eq!(evaluate_connect_gate(&s3, 1, 10, 99, &[], true, Some(actor)), GateDecision::NeedsConsent { remint: false });
    let other_org = session(2, 30);
    let same_human = ActingIdentity { id: 10, user_id: Some(7), is_org_admin: false, has_membership: true };
    assert_eq!(evaluate_connect_gate(&other_org, 1, 10, 99, &[], true, Some(same_human)), GateDecision::Allow { remint: true });
    assert_eq!(evaluate_connect_gate(&other_org, 1, 10, 99, &[], false, Some(same_human)), GateDecision::Deny);
    assert_eq!(evaluate_connect_gate(&other_org, 1, 10, 99, &[], true, None), GateDecision::Deny);
}

#[test]
fn same_human_by_user_then_by_idp() {
    assert_eq!(resolve_same_human_in_org(Some(7), Some(42), None, None), Some(42));
    let me = IdpIdentity { id: 1, external_id: Some("sub".into()), provider: Some("google".into()) };
    let them = IdpIdentity { id: 2, external_id: Some("sub".into()), provider: Some("google".into()) };
    let other = IdpIdentity { id: 3, external_id: Some("sub".into()), provider: Some("github".into()) };
    assert_eq!(resolve_same_human_in_org(Some(7), None, Some(&me), Some(&them)), Some(2));
    assert_eq!(resolve_same_human_in_org(None, None, Some(&me), Some(&other)), None);
    let no_sub = IdpIdentity { id: 1, external_id: None, provider: Some("google".into()) };
    assert_eq!(resolve_same_human_in_org(None, None, Some(&no_sub), Some(&them)), None);
}

#[test]
fn session_reading() {
    assert_eq!(session_token(None), Err(SessionError::Missing));
    assert_eq!(session_token(Some("a=b")), Err(SessionError::Missing));
    assert_eq!(session_token(Some("a=b; oss_session=tok")), Ok("tok".to_string()));
    assert_eq!(session_from_claims(None), Err(SessionError::Invalid));
    assert_eq!(
        session_from_claims(Some((1, 2, None))),
        Ok(ParsedSession { org_id: 1, identity_id: 2, user_id: None })
    );
}

#[test]
fn consent_owner_label() {
    assert_eq!(owner_label(None), "another identity");
    assert_eq!(owner_label(Some(("Ann", Some("a@x.io")))), "Ann (a@x.io)");
    assert_eq!(owner_label(Some(("Ann", Some("")))), "Ann");
    assert_eq!(owner_label(Some(("Ann", None))), "Ann");
}
