use overslash_api::connect_gate::{
    connect_gate_outcome, ActingIdentity, ConnectGateOutcome, ParsedSession,
};

fn session(org: u128, id: u128) -> ParsedSession {
    ParsedSession { org_id: org, identity_id: id, user_id: Some(7) }
}

#[test]
fn owner_in_same_org_gets_no_cookie() {
    let o = connect_gate_outcome(&session(1, 10), 1, 10, 99, &[], true, None, Some("c".into()), None, "github");
    assert_eq!(o, ConnectGateOutcome::Allow { set_cookie: None });
}

#[test]
fn same_human_in_other_org_gets_switch_cookie() {
    let acting = ActingIdentity { id: 10, user_id: Some(7), is_org_admin: false, has_membership: true };
    let o = connect_gate_outcome(
        &session(2, 50), 1, 10, 99, &[], true, Some(acting), Some("oss_session=x".into()), None, "github",
    );
    assert_eq!(o, ConnectGateOutcome::Allow { set_cookie: Some("oss_session=x".into()) });
    let denied = connect_gate_outcome(
        &session(2, 50), 1, 10, 99, &[], false, Some(acting), Some("oss_session=x".into()), None, "github",
    );
    assert_eq!(denied, ConnectGateOutcome::Deny);
}

#[test]
fn consent_names_owner_and_provider() {
    let admin = ActingIdentity { id: 20, user_id: Some(7), is_org_admin: true, has_membership: true };
    let o = connect_gate_outcome(
        &session(1, 20), 1, 10, 99, &[], true, Some(admin), None, Some(("Ann", Some("a@x.io"))), "google",
    );
    assert_eq!(
        o,
        ConnectGateOutcome::NeedsConsent {
            set_cookie: None,
            owner_label: "Ann (a@x.io)".into(),
            provider: "google".into(),
        }
    );
}
