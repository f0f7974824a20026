use pod_net::remote_agent::{
    take_remote_actions, RemoteAgentFallbackReason, RemoteAgentLimits, RemoteAgentRuntimeStatus,
};
use pod_net::stdb_adapter::StdbClientError;

/// The limits of the LLM agent profile: three actions per tick, stale after
/// a few ticks, timed out a little later.
fn llm_limits() -> RemoteAgentLimits {
    RemoteAgentLimits {
        max_actions_per_tick: 3,
        heartbeat_timeout_ticks: 5,
        stale_after_ticks: 2,
    }
}

/// A connected remote agent at world tick 0 that has no observation yet.
fn connected_status() -> RemoteAgentRuntimeStatus {
    RemoteAgentRuntimeStatus::connected(Some(0), None)
}

#[test]
fn test_send_actions_rejects_budget_overflow_for_remote_agent() {
    let mut status = connected_status();
    let mut pending = vec!["idle"; 4];

    let err = take_remote_actions(&mut status, &mut pending, true, false, true, 0, None, Some(llm_limits()))
        .expect_err("too many queued actions should be rejected");
    assert!(matches!(err, StdbClientError::InvalidState(_)));
    assert_eq!(status.budget_overflow_rejections, 1);
    assert_eq!(status.fallback_reason, Some(RemoteAgentFallbackReason::ActionBudgetExceeded));
    assert_eq!(status.pending_action_count, 0);
    assert!(pending.is_empty());
}

#[test]
fn test_send_actions_rejects_stale_remote_observation() {
    let mut status = connected_status();
    let mut pending = vec!["idle"];

    let err = take_remote_actions(&mut status, &mut pending, true, false, true, 4, Some(0), Some(llm_limits()))
        .expect_err("stale observation should be rejected");
    assert!(matches!(err, StdbClientError::InvalidState(_)));
    assert_eq!(status.stale_action_rejections, 1);
    assert_eq!(status.stale_observation_ticks, 4);
    assert_eq!(status.fallback_reason, Some(RemoteAgentFallbackReason::ObservationStale));
}

#[test]
fn test_send_actions_rejects_timed_out_remote_observation() {
    let mut status = connected_status();
    let mut pending = vec!["idle"];

    let err = take_remote_actions(&mut status, &mut pending, true, false, true, 7, Some(0), Some(llm_limits()))
        .expect_err("timed out observation should be rejected");
    assert!(matches!(err, StdbClientError::InvalidState(_)));
    assert_eq!(status.timeout_rejections, 1);
    assert_eq!(status.fallback_reason, Some(RemoteAgentFallbackReason::HeartbeatTimedOut));
}

#[test]
fn test_fresh_observation_clears_remote_agent_fallback() {
    let mut status = connected_status();
    let mut pending = vec!["idle"];
    let _ = take_remote_actions(&mut status, &mut pending, true, false, true, 4, Some(0), Some(llm_limits()));
    assert!(status.fallback_active);

    status.record_observation(4, 1, Some(1));

    assert!(!status.fallback_active);
    assert_eq!(status.fallback_reason, None);
    assert_eq!(status.last_observation_tick, Some(4));
}

#[test]
fn test_send_actions_not_connected() {
    let mut status = RemoteAgentRuntimeStatus::connected(None, None);
    let mut pending = vec!["idle"];
    let result = take_remote_actions(&mut status, &mut pending, false, false, false, 0, None, None);
    assert!(result.is_err());
    assert!(matches!(result.unwrap_err(), StdbClientError::NotConnected));
}

#[test]
fn integration_send_actions_guarded_by_connection_and_spectator_profile() {
    let mut status = RemoteAgentRuntimeStatus::connected(None, None);
    let mut pending = vec!["move"];

    let not_connected = take_remote_actions(&mut status, &mut pending, false, true, false, 0, None, None);
    assert!(matches!(not_connected, Err(StdbClientError::NotConnected)));
}

#[test]
fn accepted_remote_actions_are_all_taken_and_recorded() {
    let mut status = connected_status();
    let mut pending = vec!["idle", "stop"];

    let taken = take_remote_actions(&mut status, &mut pending, true, false, true, 3, Some(2), Some(llm_limits()))
        .expect("fresh observation within budget should pass");
    assert_eq!(taken, vec!["idle", "stop"]);
    assert!(pending.is_empty());
    assert_eq!(status.pending_action_count, 2);
    assert_eq!(status.last_authoritative_tick, Some(3));
    assert_eq!(status.last_observation_tick, Some(2));
    assert_eq!(status.stale_observation_ticks, 1);

    status.record_actions_submitted();
    assert_eq!(status.pending_action_count, 0);
    assert!(!status.fallback_active);
}

#[test]
fn observation_of_another_entity_leaves_status_unchanged() {
    let mut status = connected_status();
    let before = status;
    status.record_observation(9, 2, Some(1));
    assert_eq!(status, before);
}

#[test]
fn authoritative_tick_measures_observation_age() {
    let mut status = RemoteAgentRuntimeStatus::connected(Some(5), Some(3));
    assert_eq!(status.stale_observation_ticks, 2);
    status.record_authoritative_tick(9);
    assert_eq!(status.last_authoritative_tick, Some(9));
    assert_eq!(status.stale_observation_ticks, 6);
    status.record_authoritative_tick(4);
    assert_eq!(status.last_authoritative_tick, Some(9));
    assert_eq!(status.stale_observation_ticks, 1);
}
