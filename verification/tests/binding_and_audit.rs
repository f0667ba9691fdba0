use overslash_api::audit::{audit_row_text, AuditRowText};
use overslash_api::connections::{bind_all, bind_continues};

#[test]
fn binding_stops_at_first_failure() {
    let ids = [1u128, 2, 3, 4];
    assert_eq!(bind_all(&ids, &[None, None, None, None]), (vec![1, 2, 3, 4], None));
    assert_eq!(
        bind_all(&ids, &[None, Some("service_instance_owner_mismatch"), None, Some("service_instance_not_found")]),
        (vec![1], Some("service_instance_owner_mismatch"))
    );
    assert_eq!(
        bind_all(&ids, &[Some("service_instance_bind_failed"), None, None, None]),
        (vec![], Some("service_instance_bind_failed"))
    );
    assert_eq!(bind_all(&[], &[]), (vec![], None));
    assert!(bind_continues(None));
    assert!(!bind_continues(Some("service_instance_not_found")));
}

#[test]
fn audit_rows_prefer_recorded_text() {
    assert_eq!(
        audit_row_text(Some("Ann".into()), Some("Anne".into()), None, Some("old".into())),
        AuditRowText { identity_name: Some("Ann".into()), description: Some("old".into()) }
    );
    assert_eq!(
        audit_row_text(None, Some("Anne".into()), Some("new".into()), Some("old".into())),
        AuditRowText { identity_name: Some("Anne".into()), description: Some("new".into()) }
    );
    assert_eq!(
        audit_row_text(None, None, None, None),
        AuditRowText { identity_name: None, description: None }
    );
}
