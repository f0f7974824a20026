use pod_net::inbound::{InboundEffect, InboundMessage};
use pod_net::protocol::{ClientId, ServerConfig};
use pod_net::server::next_snapshot_tick;
use pod_net::shard::{
    delta_state_update, full_state_update, ConnectAction, ShardState, TimedOutClient,
};

type Shard = ShardState<u32, &'static str, &'static str, &'static str>;

fn with_session_edit(shard: &mut Shard, id: ClientId, edit: impl FnOnce(&mut pod_net::session::ClientSession<u32, &'static str>)) {
    let mut session = shard.sessions.remove(id).expect("session exists");
    edit(&mut session);
    shard.sessions.insert(id, session);
}

#[test]
fn test_handle_connections_resume_connect_preserves_transport_counters() {
    let mut shard = Shard::new();
    let previous_client_id = ClientId(11);
    shard.sessions.register_pending(previous_client_id, shard.tick);

    let first = shard.connect(previous_client_id, "resume-player".to_string(), None);
    let reconnect_token = match first.action {
        ConnectAction::SpawnAgent { reconnect_token, ref player_name } => {
            assert_eq!(player_name, "resume-player");
            reconnect_token
        }
        other => panic!("unexpected initial welcome: {other:?}"),
    };
    let controlled_entity = 70;
    assert!(shard.sessions.attach_agent(previous_client_id, "resume-player".to_string(), 7, controlled_entity));

    with_session_edit(&mut shard, previous_client_id, |session| {
        session.last_action_tick = Some(9);
        session.last_processed_action_tick = Some(7);
        session.debug_telemetry_enabled = true;
        session.debug_focus_entity = Some(controlled_entity);
        session.transport.session_resumes = 3;
        session.transport.recovery_snapshots_sent = 2;
        session.transport.recovery_snapshot_bytes_sent = 333;
        session.transport.full_snapshot_requests = 2;
        session.transport.delta_messages_sent = 5;
        session.transport.delta_bytes_sent = 512;
        session.transport.max_delta_bytes = 256;
        session.transport.delta_entities_updated = 11;
        session.transport.delta_entities_destroyed = 2;
        session.transport.queue_pressure_events = 4;
        session.transport.peak_pending_action_queue_depth = 9;
    });

    let resumed_client_id = ClientId(12);
    shard.sessions.register_pending(resumed_client_id, shard.tick);
    let effect = shard.handle_inbound(
        resumed_client_id,
        40,
        InboundMessage::Connect {
            player_name: "resume-player".to_string(),
            reconnect_token: Some(reconnect_token),
        },
        0,
    );
    let (player_name, token) = match effect {
        InboundEffect::Attach { player_name, reconnect_token } => (player_name, reconnect_token),
        other => panic!("unexpected effect: {other:?}"),
    };
    let plan = shard.connect(resumed_client_id, player_name, token);

    assert_eq!(plan.previous, Some(previous_client_id));
    assert!(!shard.sessions.contains(previous_client_id));
    assert_eq!(shard.sessions.len(), 1);
    assert_eq!(shard.resumed_sessions, 1);

    let session = shard.sessions.get(resumed_client_id).expect("resumed session");
    assert_eq!(session.transport.session_resumes, 4);
    assert_eq!(session.transport.recovery_snapshots_sent, 2);
    assert_eq!(session.transport.full_snapshot_requests, 2);
    assert_eq!(session.transport.delta_messages_sent, 5);
    assert_eq!(session.transport.delta_bytes_sent, 512);
    assert_eq!(session.transport.max_delta_bytes, 256);
    assert_eq!(session.transport.delta_entities_updated, 11);
    assert_eq!(session.transport.delta_entities_destroyed, 2);
    assert_eq!(session.transport.queue_pressure_events, 4);
    assert_eq!(session.transport.peak_pending_action_queue_depth, 9);
    assert!(session.debug_telemetry_enabled);

    match plan.action {
        ConnectAction::Rewelcome { reconnect_token: resumed_token, agent_id, acknowledged_action_tick } => {
            assert_eq!(resumed_token, reconnect_token);
            assert_eq!(agent_id, 7);
            assert_eq!(acknowledged_action_tick, Some(7));
        }
        other => panic!("unexpected resume welcome: {other:?}"),
    }
}

#[test]
fn connect_without_session_is_refused() {
    let mut shard = Shard::new();
    let plan = shard.connect(ClientId(3), "ghost".to_string(), None);
    assert_eq!(plan.previous, None);
    assert_eq!(plan.action, ConnectAction::MissingSession);
}

#[test]
fn test_prune_stale_clients_disconnects_inactive_sessions() {
    let mut shard = Shard::new();
    let client_id = ClientId(5);
    shard.sessions.register_pending(client_id, 1);
    shard.tick = 5;

    let removed = shard.prune_stale_clients(3);

    assert_eq!(shard.sessions.len(), 0);
    assert_eq!(shard.timed_out_clients, 1);
    assert_eq!(removed, vec![TimedOutClient { client_id, idle_ticks: 4, agent_id: None }]);
}

#[test]
fn prune_keeps_recent_clients_and_reports_agents() {
    let mut shard = Shard::new();
    shard.sessions.register_pending(ClientId(1), 0);
    assert!(shard.sessions.attach_agent(ClientId(1), "alpha".to_string(), 8, 80));
    shard.sessions.register_pending(ClientId(2), 9);
    shard.tick = 10;

    let removed = shard.prune_stale_clients(3);
    assert_eq!(removed, vec![TimedOutClient { client_id: ClientId(1), idle_ticks: 10, agent_id: Some(8) }]);
    assert!(shard.sessions.contains(ClientId(2)));
    assert_eq!(shard.timed_out_clients, 1);

    assert!(shard.prune_stale_clients(0).is_empty());
    assert_eq!(shard.timed_out_clients, 1);
}

#[test]
fn test_handle_connections_request_full_snapshot_tracks_recovery_transport_counters() {
    let mut shard = Shard::new();
    let client_id = ClientId(21);
    shard.sessions.register_pending(client_id, 0);
    with_session_edit(&mut shard, client_id, |session| {
        session.player_name = Some("recovering".to_string());
        session.last_processed_action_tick = Some(4);
    });

    let effect = shard.handle_inbound(
        client_id,
        30,
        InboundMessage::RequestFullSnapshot { last_known_tick: Some(3), last_known_digest: Some(123) },
        0,
    );
    assert_eq!(effect, InboundEffect::SendFullSnapshot);
    let (acknowledged_action_tick, agent_id) = shard.recovery_target(client_id);
    assert_eq!(acknowledged_action_tick, Some(4));
    assert_eq!(agent_id, None);
    shard.record_recovery_snapshot(client_id, true, 96, "full");

    assert_eq!(shard.recovery_snapshots_sent, 1);
    assert_eq!(shard.recovery_delivery_failures, 0);
    let session = shard.sessions.get(client_id).unwrap();
    assert_eq!(session.transport.full_snapshot_requests, 1);
    assert_eq!(session.transport.inbound_messages, 1);
    assert_eq!(session.transport.recovery_snapshots_sent, 1);
    assert_eq!(session.transport.recovery_delivery_failures, 0);
    assert!(session.transport.recovery_snapshot_bytes_sent > 0);
    assert_eq!(session.last_sent_snapshot, Some("full"));
}

#[test]
fn test_send_full_snapshot_tracks_recovery_delivery_failure() {
    let mut shard = Shard::new();
    let client_id = ClientId(22);
    shard.sessions.register_pending(client_id, 0);
    shard.record_recovery_snapshot(client_id, false, 96, "full");

    assert_eq!(shard.recovery_snapshots_sent, 0);
    assert_eq!(shard.recovery_delivery_failures, 1);
    let session = shard.sessions.get(client_id).unwrap();
    assert_eq!(session.transport.recovery_delivery_failures, 1);
    assert_eq!(session.transport.recovery_snapshot_bytes_sent, 0);
    assert_eq!(session.last_sent_snapshot, None);
}

#[test]
fn action_batch_at_window_edge_is_queued_without_rejection() {
    let mut shard = Shard::new();
    let client_id = ClientId(31);
    shard.sessions.register_pending(client_id, 0);
    assert!(shard.sessions.attach_agent(client_id, "p".to_string(), 1, 10));

    for action in [1u32, 2u32] {
        let warn_depth = ServerConfig::default().queue_pressure_warn_depth;
        let effect = shard.handle_inbound(client_id, 16, InboundMessage::ActionBatch { tick: 2, actions: vec![action] }, warn_depth);
        match effect {
            InboundEffect::ActionBatch { rejection, pressure_incident, .. } => {
                assert_eq!(rejection, None);
                assert!(!pressure_incident);
            }
            other => panic!("unexpected effect: {other:?}"),
        }
    }
    let session = shard.sessions.get(client_id).unwrap();
    assert_eq!(session.pending_actions, vec![(2, 1), (2, 2)]);
    assert_eq!(session.last_action_tick, Some(2));
    assert_eq!(session.transport.action_batches_received, 2);
    assert_eq!(shard.queue_pressure_events, 0);
}

#[test]
fn action_batch_rejections_carry_their_reason() {
    let mut shard = Shard::new();
    let client_id = ClientId(32);
    shard.sessions.register_pending(client_id, 0);

    let effect = shard.handle_inbound(client_id, 16, InboundMessage::ActionBatch { tick: 0, actions: vec![1] }, 0);
    match effect {
        InboundEffect::ActionBatch { rejection, .. } => {
            assert_eq!(rejection.as_deref(), Some("client must send Connect before action batches"));
        }
        other => panic!("unexpected effect: {other:?}"),
    }

    assert!(shard.sessions.attach_agent(client_id, "p".to_string(), 1, 10));
    let effect = shard.handle_inbound(client_id, 16, InboundMessage::ActionBatch { tick: 3, actions: vec![1] }, 0);
    match effect {
        InboundEffect::ActionBatch { rejection, .. } => {
            assert_eq!(rejection.as_deref(), Some("action batch tick out of window: tick=3 accepted=[0..=2]"));
        }
        other => panic!("unexpected effect: {other:?}"),
    }
}

#[test]
fn queue_pressure_counts_shard_incidents() {
    let mut shard = Shard::new();
    let client_id = ClientId(33);
    shard.sessions.register_pending(client_id, 0);
    assert!(shard.sessions.attach_agent(client_id, "p".to_string(), 1, 10));

    let effect = shard.handle_inbound(client_id, 16, InboundMessage::ActionBatch { tick: 1, actions: vec![7; 300] }, 0);
    match effect {
        InboundEffect::ActionBatch { rejection, pressure_incident, .. } => {
            assert_eq!(rejection.as_deref(), Some("action queue full (max depth=256)"));
            assert!(pressure_incident);
        }
        other => panic!("unexpected effect: {other:?}"),
    }
    assert_eq!(shard.queue_pressure_events, 1);
    assert_eq!(shard.sessions.get(client_id).unwrap().pending_actions.len(), 256);
}

#[test]
fn broadcast_messages_acknowledge_and_finish_clears_the_tick() {
    let mut shard = Shard::new();
    shard.sessions.register_pending(ClientId(1), 0);
    assert!(shard.sessions.attach_agent(ClientId(1), "alpha".to_string(), 4, 40));
    with_session_edit(&mut shard, ClientId(1), |session| session.last_processed_action_tick = Some(6));
    shard.sessions.register_pending(ClientId(2), 0);
    shard.tick = 12;
    shard.pending_events.push("hello shard");
    shard.pending_debug_documents.push("summary");

    let targets = shard.broadcast_targets();
    assert_eq!(targets.len(), 2);
    assert_eq!(targets[0].client_id, ClientId(1));
    assert_eq!(targets[0].agent_id, Some(4));
    assert_eq!(targets[0].acknowledged_action_tick, Some(6));
    assert!(!targets[0].has_baseline);
    assert_eq!(targets[1].acknowledged_action_tick, None);

    let full = full_state_update(shard.tick, &targets[0], 99, vec!["alpha", "rock"], 2u32);
    assert_eq!(full.tick, 12);
    assert_eq!(full.acknowledged_action_tick, Some(6));
    assert_eq!(full.authoritative_digest, 99);
    assert!(full.is_full_snapshot);
    assert_eq!(full.updated, vec!["alpha", "rock"]);
    assert!(full.destroyed.is_empty());
    assert_eq!(full.population, 2);

    let delta = delta_state_update(shard.tick, &targets[1], 98, vec!["rock"], vec![5], 1u32);
    assert!(!delta.is_full_snapshot);
    assert_eq!(delta.destroyed, vec![5]);
    assert_eq!(delta.acknowledged_action_tick, None);

    let published = shard.finish_broadcast(false, true, true, "world-12", vec![(ClientId(1), "alpha-12"), (ClientId(9), "gone")]);
    assert_eq!(published, vec!["summary"]);
    assert!(shard.pending_events.is_empty());
    assert!(shard.pending_debug_documents.is_empty());
    assert_eq!(shard.last_snapshot_tick, next_snapshot_tick(12, 0, false, true));
    assert_eq!(shard.last_snapshot_tick, 12);
    assert_eq!(shard.last_snapshot, Some("world-12"));
    assert_eq!(shard.sessions.get(ClientId(1)).unwrap().last_sent_snapshot, Some("alpha-12"));
    assert_eq!(shard.sessions.get(ClientId(2)).unwrap().last_sent_snapshot, None);
    assert!(shard.broadcast_targets()[0].has_baseline);
}

#[test]
fn skipped_broadcast_drops_the_tick_only() {
    let mut shard = Shard::new();
    shard.tick = 3;
    shard.pending_events.push("e");
    shard.pending_debug_documents.push("d");
    shard.skip_broadcast();
    assert!(shard.pending_events.is_empty());
    assert!(shard.pending_debug_documents.is_empty());
    assert_eq!(shard.last_snapshot_tick, 0);
    assert_eq!(shard.last_snapshot, None);
}
