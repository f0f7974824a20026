use pod_net::remote_agent::{take_remote_actions, RemoteAgentLimits, RemoteAgentRuntimeStatus};
use pod_net::stdb_poll::{StdbClientAction, StdbClientEvent, StdbClientState};

#[test]
fn welcome_is_sent_once_per_connection() {
    let mut state = StdbClientState::new();
    assert_eq!(state.on_event(StdbClientEvent::RemoteTopologyUpdated, 3), StdbClientAction::Nothing);
    assert_eq!(state.on_event(StdbClientEvent::Connected, 3), StdbClientAction::ApplySubscriptions);
    assert_eq!(
        state.on_event(StdbClientEvent::SubscriptionApplied, 3),
        StdbClientAction::Welcome { tick: 3, send: true }
    );
    assert_eq!(state.on_event(StdbClientEvent::SubscriptionApplied, 4), StdbClientAction::Nothing);
    assert_eq!(
        state.on_event(StdbClientEvent::RemoteTopologyUpdated, 5),
        StdbClientAction::FullSnapshot { tick: 5 }
    );

    assert_eq!(
        state.on_event(StdbClientEvent::Disconnected { reason: "bye".to_string() }, 6),
        StdbClientAction::ClearPresentation
    );
    assert!(!state.connected);
    assert_eq!(
        state.on_event(StdbClientEvent::SubscriptionApplied, 7),
        StdbClientAction::Welcome { tick: 7, send: false }
    );
}

#[test]
fn entity_changes_older_than_the_emitted_tick_are_dropped() {
    let mut state = StdbClientState::new();
    assert_eq!(
        state.on_event(StdbClientEvent::TickAdvanced { tick: 10 }, 10),
        StdbClientAction::AdvanceSnapshot { tick: 10 }
    );
    assert_eq!(state.last_emitted_tick, 10);
    assert_eq!(
        state.on_event(StdbClientEvent::EntityUpserted { entity_id: 4, cached: true }, 9),
        StdbClientAction::Nothing
    );
    assert_eq!(
        state.on_event(StdbClientEvent::EntityUpserted { entity_id: 4, cached: false }, 10),
        StdbClientAction::Nothing
    );
    assert_eq!(
        state.on_event(StdbClientEvent::EntityUpserted { entity_id: 4, cached: true }, 10),
        StdbClientAction::EntityUpdate { tick: 10, entity_id: 4 }
    );
    assert_eq!(
        state.on_event(StdbClientEvent::EntityDeleted { entity_id: 4 }, 11),
        StdbClientAction::EntityRemoval { tick: 11, entity_id: 4 }
    );
    state.on_event(StdbClientEvent::WorldStateUpdated { tick: 8 }, 8);
    assert_eq!(state.last_emitted_tick, 10);
}

#[test]
fn documents_are_forwarded_and_telemetry_is_kept() {
    let mut state = StdbClientState::new();
    assert_eq!(
        state.on_event(StdbClientEvent::TelemetryDocument { document: "tick-12".to_string() }, 12),
        StdbClientAction::Document { document: "tick-12".to_string() }
    );
    assert_eq!(state.last_telemetry_document.as_deref(), Some("tick-12"));
    assert_eq!(
        state.on_event(StdbClientEvent::DebugDocument { document: "rollup".to_string() }, 12),
        StdbClientAction::Document { document: "rollup".to_string() }
    );
    assert_eq!(state.last_telemetry_document.as_deref(), Some("tick-12"));
    assert_eq!(
        state.on_event(StdbClientEvent::ConnectError { message: "refused".to_string() }, 0),
        StdbClientAction::Reject { reason: "refused".to_string() }
    );
}

#[test]
fn fresh_observation_event_clears_the_fallback() {
    let mut state = StdbClientState::new();
    state.controlled_entity = Some(1);
    state.remote_agent = RemoteAgentRuntimeStatus::connected(Some(0), None);
    let limits = RemoteAgentLimits { max_actions_per_tick: 3, heartbeat_timeout_ticks: 5, stale_after_ticks: 2 };
    let mut pending = vec!["idle"];
    let _ = take_remote_actions(&mut state.remote_agent, &mut pending, true, false, true, 4, Some(0), Some(limits));
    assert!(state.remote_agent.fallback_active);

    state.on_event(StdbClientEvent::ObservationReceived { tick: 4, observer_entity_id: 2 }, 4);
    assert!(state.remote_agent.fallback_active);
    state.on_event(StdbClientEvent::ObservationReceived { tick: 4, observer_entity_id: 1 }, 4);
    assert!(!state.remote_agent.fallback_active);
    assert_eq!(state.remote_agent.fallback_reason, None);
    assert_eq!(state.remote_agent.last_observation_tick, Some(4));
}
