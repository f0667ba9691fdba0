use overslash_api::connect_gate::{GateDecision, SessionError};
use overslash_api::connections::{
    connect_flow_page, connect_gate_page, connect_session_page, consume_page, ConnectPage,
};

const USED: &str = "This OAuth link has already been used. Initiate the connection again to retry.";

#[test]
fn unusable_links_end_on_the_gone_page() {
    assert_eq!(
        connect_flow_page(None, 100),
        Some(ConnectPage::Gone("This OAuth link is invalid or has been revoked."))
    );
    assert_eq!(connect_flow_page(Some((true, 200)), 100), Some(ConnectPage::Gone(USED)));
    assert_eq!(
        connect_flow_page(Some((false, 100)), 100),
        Some(ConnectPage::Gone(
            "This OAuth link has expired. Initiate the connection again to retry."
        ))
    );
    assert_eq!(connect_flow_page(Some((false, 101)), 100), None);
}

#[test]
fn missing_session_logs_in_on_the_link_only() {
    assert_eq!(connect_session_page(false, SessionError::Missing), ConnectPage::Login);
    assert_eq!(
        connect_session_page(true, SessionError::Missing),
        ConnectPage::Unauthorized("missing session")
    );
    assert_eq!(
        connect_session_page(false, SessionError::Invalid),
        ConnectPage::Unauthorized("invalid session cookie")
    );
}

#[test]
fn consent_gated_flows_proceed_once_confirmed() {
    assert_eq!(connect_gate_page(false, GateDecision::Deny), ConnectPage::Mismatch);
    assert_eq!(connect_gate_page(true, GateDecision::Deny), ConnectPage::Mismatch);
    assert_eq!(
        connect_gate_page(false, GateDecision::NeedsConsent { remint: true }),
        ConnectPage::Consent
    );
    assert_eq!(
        connect_gate_page(true, GateDecision::NeedsConsent { remint: true }),
        ConnectPage::Proceed { remint: true }
    );
    assert_eq!(
        connect_gate_page(false, GateDecision::Allow { remint: false }),
        ConnectPage::Proceed { remint: false }
    );
    assert_eq!(consume_page(true), None);
    assert_eq!(consume_page(false), Some(ConnectPage::Gone(USED)));
}
