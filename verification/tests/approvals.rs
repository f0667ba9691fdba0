use overslash_api::approvals::{
    authorize_cancel, authorize_resolver, call_trigger, cancel_fallback, check_bubble,
    check_callable, check_ceiling, check_remember_ttl, dedupe_keys, effective_remember_keys,
    event_label, execution_conflict_error, parse_resolution, queued_conflict, replay_source,
    replay_status, resolution_outcome, should_auto_call, writes_remembered_rules, AccessLevel,
    ExecutionState, Relationship, ReplaySource, ResolveRefusal, Resolution,
};
use overslash_api::error::ApiError;

fn s(v: &[&str]) -> Vec<String> {
    v.iter().map(|x| x.to_string()).collect()
}

#[test]
fn resolutions() {
    assert_eq!(parse_resolution("allow"), Ok(Resolution::Allow));
    assert_eq!(parse_resolution("bubble_up"), Ok(Resolution::BubbleUp));
    assert_eq!(parse_resolution("maybe"), Err(ApiError::BadRequest("invalid resolution: maybe".into())));
    assert_eq!(resolution_outcome(Resolution::AllowRemember), Some(("allowed", true)));
    assert_eq!(resolution_outcome(Resolution::Deny), Some(("denied", false)));
    assert_eq!(resolution_outcome(Resolution::BubbleUp), None);
    assert_eq!(check_bubble(3, 3), Err(ApiError::Conflict("approval is already at the final resolver".into())));
    assert_eq!(check_bubble(3, 4), Ok(()));
    assert_eq!(event_label("allowed"), "approved");
    assert_eq!(event_label("denied"), "denied");
    assert_eq!(event_label("expired"), "expired");
}

#[test]
fn resolver_authorization() {
    assert_eq!(authorize_resolver(1, Relationship::SelfApproval, true, Some((8, true)), AccessLevel::Write, false), Ok(Some(8)));
    assert_eq!(
        authorize_resolver(1, Relationship::SelfApproval, true, Some((8, false)), AccessLevel::Admin, true),
        Err(ResolveRefusal::NotInYourChain { identity_id: 1, reason: "self_approval_disabled".into() })
    );
    assert_eq!(
        authorize_resolver(1, Relationship::SelfApproval, false, None, AccessLevel::Admin, true),
        Err(ResolveRefusal::NotInYourChain { identity_id: 1, reason: "self_approval_disabled".into() })
    );
    assert_eq!(authorize_resolver(1, Relationship::Downstream, false, None, AccessLevel::Write, true), Ok(None));
    assert_eq!(
        authorize_resolver(1, Relationship::Downstream, false, None, AccessLevel::Write, false),
        Err(ResolveRefusal::Forbidden("caller is not authorized to resolve this approval".into()))
    );
    assert_eq!(authorize_resolver(1, Relationship::Downstream, false, None, AccessLevel::Admin, false), Ok(None));
    assert_eq!(
        authorize_resolver(1, Relationship::NotInYourChain, false, None, AccessLevel::Write, true),
        Err(ResolveRefusal::NotInYourChain { identity_id: 1, reason: "caller is not in the requester's identity chain".into() })
    );
    assert_eq!(Relationship::Downstream.as_str(), "downstream");
}

#[test]
fn remembered_rules() {
    assert_eq!(check_remember_ttl(None), Ok(None));
    assert_eq!(check_remember_ttl(Some(("30d", Some(2_592_000)))), Ok(Some(2_592_000)));
    assert_eq!(check_remember_ttl(Some(("2y", Some(63_072_000)))), Err(ApiError::BadRequest("ttl must not exceed 365 days".into())));
    assert_eq!(check_remember_ttl(Some(("soon", None))), Err(ApiError::BadRequest("invalid ttl: soon".into())));
    let perms = s(&["github:list_repos:*"]);
    assert_eq!(effective_remember_keys(None, &[], &perms), Ok(perms.clone()));
    assert_eq!(
        effective_remember_keys(Some(&[]), &[], &perms),
        Err(ApiError::BadRequest("remember_keys must not be empty".into()))
    );
    let keys = s(&["a", "b", "a"]);
    assert_eq!(effective_remember_keys(Some(&keys), &[true, true, true], &perms), Ok(s(&["a", "b"])));
    assert_eq!(
        effective_remember_keys(Some(&keys), &[true, false, false], &perms),
        Err(ApiError::BadRequest("remember_key 'b' does not cover any permission key this approval requested".into()))
    );
    assert_eq!(dedupe_keys(&s(&["x", "y", "x", "z", "y"])), s(&["x", "y", "z"]));
    assert_eq!(check_ceiling(&s(&["a", "b"]), &[None, None]), Ok(()));
    assert_eq!(
        check_ceiling(&s(&["a", "b"]), &[None, Some("no group grants write".into())]),
        Err(ApiError::BadRequest("key 'b' exceeds group ceiling: no group grants write".into()))
    );
}

#[test]
fn calling_and_cancelling() {
    assert_eq!(call_trigger(None, 1, AccessLevel::Admin, true), Err(ApiError::Forbidden("identity-bound credential required".into())));
    assert_eq!(call_trigger(Some(1), 1, AccessLevel::Read, false), Ok("agent"));
    assert_eq!(call_trigger(Some(2), 1, AccessLevel::Read, true), Err(ApiError::Forbidden("write access required".into())));
    assert_eq!(
        call_trigger(Some(2), 1, AccessLevel::Write, false),
        Err(ApiError::Forbidden("caller is not authorized to call this approval".into()))
    );
    assert_eq!(call_trigger(Some(2), 1, AccessLevel::Admin, false), Ok("user"));
    assert_eq!(check_callable("allowed"), Ok(()));
    assert_eq!(
        check_callable("pending"),
        Err(ApiError::Conflict("approval is not in 'allowed' state (status=pending)".into()))
    );
    assert_eq!(authorize_cancel(None, 1, AccessLevel::Read, false), Ok(()));
    assert_eq!(authorize_cancel(Some(1), 1, AccessLevel::Read, false), Ok(()));
    assert_eq!(
        authorize_cancel(Some(2), 1, AccessLevel::Write, false),
        Err(ApiError::Forbidden("caller is not authorized to cancel this execution".into()))
    );
    assert!(should_auto_call(Some(true), Some(false)));
    assert!(should_auto_call(Some(true), None));
    assert!(!should_auto_call(None, None));
    assert!(!should_auto_call(Some(true), Some(true)));
}

fn exec(status: &str, expires_at: i64, has_request: bool) -> ExecutionState {
    ExecutionState { status: status.into(), expires_at, has_request }
}

#[test]
fn lost_races() {
    assert_eq!(execution_conflict_error(None, 0), ApiError::Conflict("no pending execution for this approval".into()));
    assert_eq!(execution_conflict_error(Some(&exec("pending", 5, false)), 10), ApiError::Gone("pending execution has expired".into()));
    assert_eq!(
        execution_conflict_error(Some(&exec("pending", 50, false)), 10),
        ApiError::Conflict("execution is being processed concurrently".into())
    );
    assert_eq!(execution_conflict_error(Some(&exec("cancelled", 0, false)), 0), ApiError::Conflict("execution was cancelled".into()));
    assert_eq!(execution_conflict_error(Some(&exec("expired", 0, false)), 0).status(), 410);
    assert_eq!(
        execution_conflict_error(Some(&exec("weird", 0, false)), 0),
        ApiError::Conflict("execution in unexpected state: weird".into())
    );
    assert!(cancel_fallback(Some(&exec("executing", 0, true))));
    assert!(!cancel_fallback(Some(&exec("executing", 0, false))));
    assert!(queued_conflict(Some(&exec("pending", 0, true))));
    assert!(!queued_conflict(Some(&exec("pending", 0, false))));
    assert!(!queued_conflict(None));
}

#[test]
fn replays() {
    assert_eq!(replay_status(false, true), "failed");
    assert_eq!(replay_status(true, true), "upstream_error");
    assert_eq!(replay_status(true, false), "called");
    assert!(writes_remembered_rules(true, true));
    assert!(!writes_remembered_rules(false, true));
    assert_eq!(replay_source(true, None), Ok(ReplaySource::Payload));
    assert_eq!(replay_source(false, Some((Some("http"), false))), Ok(ReplaySource::LegacyDetail));
    let (fail, err) = replay_source(false, Some((Some("mcp"), false))).unwrap_err();
    assert_eq!(fail, "mcp_replay_not_supported_legacy");
    assert_eq!(err.status(), 409);
    let (fail, err) = replay_source(false, None).unwrap_err();
    assert_eq!(fail, "no_replay_payload");
    assert_eq!(err.status(), 500);
}
