use overslash_api::approvals::{overslash_acl_level, AccessLevel};

#[test]
fn session_reports_highest_overslash_grant() {
    let grants = vec![
        ("overslash".to_string(), Some(AccessLevel::Read)),
        ("github".to_string(), Some(AccessLevel::Admin)),
        ("overslash".to_string(), Some(AccessLevel::Write)),
        ("overslash".to_string(), None),
    ];
    assert_eq!(overslash_acl_level(&grants), Some(AccessLevel::Write));
    assert_eq!(overslash_acl_level(&grants[1..2]), None);
    assert_eq!(overslash_acl_level(&[]), None);
    let admin = vec![
        ("overslash".to_string(), Some(AccessLevel::Admin)),
        ("overslash".to_string(), Some(AccessLevel::Read)),
    ];
    assert_eq!(overslash_acl_level(&admin), Some(AccessLevel::Admin));
}
