use pod_net::benchmark::{
    assemble_transport_benchmark_report, build_transport_benchmark_aggregate,
    build_transport_scenario_report, checks_all_passed, transport_check, ScenarioSummary,
    TransportBenchmarkProfile, TransportBenchmarkScenarioReport,
};
use pod_net::lifecycle::{
    LifecycleStep, ServerLifecycleCommand, ServerLifecyclePhase, ServerLifecycleState,
};
use pod_net::ops::{OpsDocumentArchiveSnapshot, OpsDocumentHistory};
use pod_net::protocol::{ClientId, ReconnectToken, ServerConfig};
use pod_net::server::{
    emits_incident_summary, emits_rollups, next_snapshot_tick, plan_broadcast, plan_client_update,
    rollup_window_start, transport_summary_due, ServerError,
};
use pod_net::session::{
    action_window, is_queue_pressure_depth, queue_pressure_warn_depth, ActionBatchOutcome,
    ClientSession, ClientSessions, InboundKind, OutboundKind, ACTION_QUEUE_MAX_DEPTH,
};
use pod_net::transport::{client_summaries, transport_totals};

type Sessions = ClientSessions<u32, &'static str>;

fn attached_table(id: u128, server_tick: u64) -> Sessions {
    let mut sessions = Sessions::new();
    sessions.register_pending(ClientId(id), server_tick);
    assert!(sessions.attach_agent(ClientId(id), "alpha".to_string(), 7, 70));
    sessions
}

#[test]
fn lifecycle_starts_running_and_accepting() {
    let state = ServerLifecycleState::running("alpha-1".to_string());
    assert_eq!(state.shard_id, "alpha-1");
    assert_eq!(state.phase, ServerLifecyclePhase::Running);
    assert!(state.accepting_new_connections);
    assert_eq!(state.latest_tick, 0);
    assert!(state.reason.is_none());
}

#[test]
fn lifecycle_drain_then_idle_stops() {
    let mut state = ServerLifecycleState::running("alpha-1".to_string());
    let step = state.apply_command(
        ServerLifecycleCommand::BeginDrain {
            reason: "deploy rollout".to_string(),
        },
        12,
    );
    assert_eq!(step, LifecycleStep::Changed);
    assert_eq!(state.phase, ServerLifecyclePhase::Draining);
    assert!(!state.accepting_new_connections);
    assert_eq!(state.latest_tick, 12);
    assert_eq!(state.reason.as_deref(), Some("deploy rollout"));

    assert!(!state.finish_drain_if_idle(2, 13));
    assert_eq!(state.phase, ServerLifecyclePhase::Draining);
    assert!(state.finish_drain_if_idle(0, 14));
    assert_eq!(state.phase, ServerLifecyclePhase::Stopped);
    assert_eq!(state.latest_tick, 14);
    assert_eq!(state.reason.as_deref(), Some("deploy rollout"));
}

#[test]
fn lifecycle_shutdown_is_final_and_ends_the_batch() {
    let mut state = ServerLifecycleState::running("alpha-1".to_string());
    let stop = state.apply_lifecycle_commands(
        vec![
            ServerLifecycleCommand::Shutdown {
                reason: "operator stop".to_string(),
            },
            ServerLifecycleCommand::BeginDrain {
                reason: "late".to_string(),
            },
        ],
        30,
    );
    assert!(stop);
    assert_eq!(state.phase, ServerLifecyclePhase::Stopped);
    assert_eq!(state.reason.as_deref(), Some("operator stop"));
    assert_eq!(state.latest_tick, 30);

    let step = state.apply_command(
        ServerLifecycleCommand::BeginDrain {
            reason: "again".to_string(),
        },
        31,
    );
    assert_eq!(step, LifecycleStep::Unchanged);
    assert_eq!(state.phase, ServerLifecyclePhase::Stopped);
    assert_eq!(state.latest_tick, 30);
}

#[test]
fn lifecycle_drain_batch_keeps_running_loop() {
    let mut state = ServerLifecycleState::running("alpha-1".to_string());
    let stop = state.apply_lifecycle_commands(
        vec![ServerLifecycleCommand::BeginDrain {
            reason: "deploy rollout".to_string(),
        }],
        5,
    );
    assert!(!stop);
    assert_eq!(state.phase, ServerLifecyclePhase::Draining);
    assert!(!state.apply_lifecycle_commands(Vec::new(), 6));
    assert_eq!(state.latest_tick, 5);
}

#[test]
fn action_window_and_pressure_depth() {
    assert_eq!(action_window(10), (8, 12));
    assert_eq!(action_window(1), (0, 3));
    assert_eq!(queue_pressure_warn_depth(0), 1);
    assert_eq!(queue_pressure_warn_depth(192), 192);
    assert_eq!(queue_pressure_warn_depth(1000), ACTION_QUEUE_MAX_DEPTH);
    assert!(is_queue_pressure_depth(192, 192));
    assert!(!is_queue_pressure_depth(191, 192));
}

#[test]
fn unregistered_client_batch_is_rejected() {
    let mut session: ClientSession<u32, ()> = ClientSession::new("pending".to_string());
    let outcome = session.admit_action_batch(10, vec![1, 2], 10, 192);
    assert_eq!(outcome, ActionBatchOutcome::Unregistered);
    assert!(session.pending_actions.is_empty());
    assert_eq!(
        outcome.rejection_reason(10).as_deref(),
        Some("client must send Connect before action batches")
    );
    assert!(!outcome.raises_queue_pressure());
}

#[test]
fn out_of_window_and_stale_batches_are_rejected() {
    let mut session: ClientSession<u32, ()> = ClientSession::new("alpha".to_string());
    session.agent_id = Some(3);

    let outcome = session.admit_action_batch(20, vec![1], 10, 192);
    assert_eq!(
        outcome,
        ActionBatchOutcome::OutOfWindow {
            min_tick: 8,
            max_tick: 12
        }
    );
    assert_eq!(
        outcome.rejection_reason(20).as_deref(),
        Some("action batch tick out of window: tick=20 accepted=[8..=12]")
    );

    let accepted = session.admit_action_batch(11, vec![1], 10, 192);
    assert!(matches!(accepted, ActionBatchOutcome::Accepted { queue_depth: 1, overflow: false, queue_pressure: false }));
    assert_eq!(accepted.rejection_reason(11), None);
    assert_eq!(session.last_action_tick, Some(11));

    let stale = session.admit_action_batch(9, vec![2], 10, 192);
    assert_eq!(stale, ActionBatchOutcome::Stale { last_tick: 11 });
    assert_eq!(
        stale.rejection_reason(9).as_deref(),
        Some("stale action batch tick=9; requires non-decreasing submission order")
    );
    assert_eq!(session.pending_actions, vec![(11, 1)]);
}

#[test]
fn full_queue_keeps_what_fits_and_reports_overflow() {
    let mut session: ClientSession<u32, ()> = ClientSession::new("alpha".to_string());
    session.agent_id = Some(3);
    let first: Vec<u32> = (0..250).collect();
    let outcome = session.admit_action_batch(10, first, 10, 192);
    assert_eq!(
        outcome,
        ActionBatchOutcome::Accepted {
            queue_depth: 250,
            overflow: false,
            queue_pressure: true
        }
    );
    assert!(outcome.raises_queue_pressure());
    assert_eq!(session.transport.queue_pressure_events, 1);

    let outcome = session.admit_action_batch(10, (0..10).collect(), 10, 192);
    assert_eq!(
        outcome,
        ActionBatchOutcome::Accepted {
            queue_depth: 256,
            overflow: true,
            queue_pressure: true
        }
    );
    assert_eq!(
        outcome.rejection_reason(10).as_deref(),
        Some("action queue full (max depth=256)")
    );
    assert_eq!(session.pending_actions.len(), 256);
    assert_eq!(session.pending_actions[255], (10, 5));
    assert_eq!(session.transport.peak_pending_action_queue_depth, 256);
    assert_eq!(session.transport.queue_pressure_events, 2);
}

#[test]
fn due_actions_follow_the_window_and_update_processed_tick() {
    let mut session: ClientSession<u32, ()> = ClientSession::new("alpha".to_string());
    session.agent_id = Some(3);
    session.pending_actions = vec![(5, 1), (9, 2), (12, 3), (11, 4)];
    let due = session.take_due_actions(10);
    assert_eq!(due, vec![2, 3, 4]);
    assert!(session.pending_actions.is_empty());
    assert_eq!(session.last_processed_action_tick, Some(12));

    session.pending_actions = vec![(1, 9)];
    let due = session.take_due_actions(10);
    assert!(due.is_empty());
    assert_eq!(session.last_processed_action_tick, Some(12));

    let mut idle: ClientSession<u32, ()> = ClientSession::new("idle".to_string());
    idle.pending_actions = vec![(10, 1)];
    assert!(idle.take_due_actions(10).is_empty());
    assert!(idle.pending_actions.is_empty());
}

#[test]
fn accepted_batch_is_handed_out_on_the_next_tick() {
    let mut sessions = attached_table(1, 10);
    let outcome = sessions
        .admit_action_batch(ClientId(1), 11, vec![4, 5], 10, 192)
        .expect("client is connected");
    assert!(matches!(outcome, ActionBatchOutcome::Accepted { queue_depth: 2, .. }));
    let due = sessions.take_due_actions(11);
    assert_eq!(due, vec![(7, 4), (7, 5)]);
    let session = sessions.get(ClientId(1)).unwrap();
    assert!(session.pending_actions.is_empty());
    assert_eq!(session.last_processed_action_tick, Some(11));
    assert!(sessions
        .admit_action_batch(ClientId(2), 11, vec![1], 10, 192)
        .is_none());
}

#[test]
fn pending_registration_and_disconnect() {
    let mut sessions = Sessions::new();
    sessions.register_pending(ClientId(5), 42);
    assert_eq!(sessions.len(), 1);
    let session = sessions.get(ClientId(5)).unwrap();
    assert_eq!(session.player_name.as_deref(), Some("pending"));
    assert_eq!(session.transport.last_seen_tick, 42);
    assert!(session.agent_id.is_none());
    assert_eq!((session.reconnect_token.0 >> 76) & 0xf, 4);

    assert!(sessions.contains(ClientId(5)));
    let removed = sessions.remove(ClientId(5)).expect("session was registered");
    assert_eq!(removed.transport.last_seen_tick, 42);
    assert!(!sessions.contains(ClientId(5)));
    assert!(sessions.remove(ClientId(5)).is_none());
    assert_eq!(sessions.len(), 0);
}

#[test]
fn resume_takes_over_the_previous_session() {
    let mut sessions = attached_table(1, 10);
    let token = sessions.get(ClientId(1)).unwrap().reconnect_token;
    assert!(sessions.record_inbound(ClientId(1), InboundKind::Ping, 40, 11));
    assert!(sessions.set_debug_telemetry(ClientId(1), true));

    sessions.register_pending(ClientId(2), 20);
    let previous = sessions.resume(ClientId(2), token, "ignored".to_string());
    assert_eq!(previous, Some(ClientId(1)));
    assert!(!sessions.contains(ClientId(1)));

    let resumed = sessions.get(ClientId(2)).unwrap();
    assert_eq!(resumed.reconnect_token, token);
    assert_eq!(resumed.player_name.as_deref(), Some("alpha"));
    assert_eq!(resumed.agent_id, Some(7));
    assert!(resumed.debug_telemetry_enabled);
    assert_eq!(resumed.debug_focus_entity, Some(70));
    assert_eq!(resumed.transport.session_resumes, 1);
    assert_eq!(resumed.transport.ping_requests, 1);
    assert_eq!(resumed.transport.inbound_bytes, 40);
    assert!(resumed.last_sent_snapshot.is_none());
}

#[test]
fn resume_without_holder_only_adopts_the_token() {
    let mut sessions = Sessions::new();
    sessions.register_pending(ClientId(3), 0);
    let mut unnamed: ClientSession<u32, &'static str> = ClientSession::new("x".to_string());
    unnamed.player_name = None;
    sessions.insert(ClientId(4), unnamed);

    let token = ReconnectToken(0xabc);
    assert_eq!(sessions.resume(ClientId(3), token, "bob".to_string()), None);
    let kept = sessions.get(ClientId(3)).unwrap();
    assert_eq!(kept.reconnect_token, token);
    assert_eq!(kept.player_name.as_deref(), Some("pending"));

    assert_eq!(sessions.resume(ClientId(4), ReconnectToken(0xdef), "bob".to_string()), None);
    assert_eq!(sessions.get(ClientId(4)).unwrap().player_name.as_deref(), Some("bob"));
}

#[test]
fn stale_clients_respect_the_timeout() {
    let mut sessions = Sessions::new();
    sessions.register_pending(ClientId(1), 0);
    sessions.register_pending(ClientId(2), 90);
    assert_eq!(sessions.stale_clients(100, 50), vec![(ClientId(1), 100)]);
    assert!(sessions.stale_clients(100, 0).is_empty());
    assert!(sessions.stale_clients(100, 100).is_empty());
}

#[test]
fn outbound_counters_track_kinds_and_sizes() {
    let mut sessions = attached_table(9, 1);
    assert!(sessions.record_outbound(
        ClientId(9),
        OutboundKind::Delta {
            updated_entities: 1,
            destroyed_entities: 1
        },
        174,
        2
    ));
    assert!(sessions.record_outbound(ClientId(9), OutboundKind::FullSnapshot { recovery: false }, 300, 3));
    assert!(sessions.record_outbound(ClientId(9), OutboundKind::Rejected, 20, 3));
    assert!(sessions.record_recovery_delivery(ClientId(9), true, 78));
    assert!(sessions.record_recovery_delivery(ClientId(9), false, 78));
    assert!(!sessions.record_outbound(ClientId(8), OutboundKind::Other, 1, 1));

    let t = sessions.get(ClientId(9)).unwrap().transport;
    assert_eq!(t.outbound_messages, 3);
    assert_eq!(t.outbound_bytes, 494);
    assert_eq!(t.state_deltas_sent, 2);
    assert_eq!(t.delta_messages_sent, 1);
    assert_eq!(t.max_delta_bytes, 174);
    assert_eq!(t.delta_entities_destroyed, 1);
    assert_eq!(t.full_snapshots_sent, 1);
    assert_eq!(t.max_full_snapshot_bytes, 300);
    assert_eq!(t.rejected_messages_sent, 1);
    assert_eq!(t.last_sent_tick, Some(3));
    assert_eq!(t.recovery_snapshots_sent, 1);
    assert_eq!(t.recovery_snapshot_bytes_sent, 78);
    assert_eq!(t.recovery_delivery_failures, 1);
}

#[test]
fn welcome_records_baseline_and_default_focus() {
    let mut sessions = Sessions::new();
    sessions.register_pending(ClientId(1), 0);
    assert!(sessions.record_welcome(ClientId(1), "snap-1", Some(44)));
    let session = sessions.get(ClientId(1)).unwrap();
    assert_eq!(session.last_sent_snapshot, Some("snap-1"));
    assert_eq!(session.debug_focus_entity, Some(44));

    assert!(sessions.set_debug_focus(ClientId(1), Some(12)));
    assert!(sessions.record_welcome(ClientId(1), "snap-2", Some(44)));
    assert_eq!(sessions.get(ClientId(1)).unwrap().debug_focus_entity, Some(12));
    assert!(sessions.set_last_sent_snapshot(ClientId(1), "snap-3"));
    assert_eq!(sessions.get(ClientId(1)).unwrap().last_sent_snapshot, Some("snap-3"));
}

#[test]
fn transport_summary_totals_and_order() {
    let mut sessions = Sessions::new();
    sessions.register_pending(ClientId(30), 0);
    sessions.register_pending(ClientId(10), 5);
    sessions.register_pending(ClientId(20), 8);
    assert!(sessions.record_inbound(ClientId(30), InboundKind::ActionBatch, 100, 9));
    assert!(sessions.record_inbound(ClientId(10), InboundKind::RequestFullSnapshot, 11, 9));
    assert!(sessions.record_outbound(ClientId(20), OutboundKind::FullSnapshot { recovery: true }, 500, 9));
    assert!(sessions.attach_agent(ClientId(30), "p".to_string(), 1, 2));
    let _ = sessions.admit_action_batch(ClientId(30), 10, vec![1, 2, 3], 10, 2);

    let totals = transport_totals(&sessions, 2);
    assert_eq!(totals.client_count, 3);
    assert_eq!(totals.queue_pressure_warn_depth, 2);
    assert_eq!(totals.total_pending_action_queue_depth, 3);
    assert_eq!(totals.peak_pending_action_queue_depth, 3);
    assert_eq!(totals.queue_pressure_client_count, 1);
    assert_eq!(totals.total_inbound_messages, 2);
    assert_eq!(totals.total_inbound_bytes, 111);
    assert_eq!(totals.action_batches_received, 1);
    assert_eq!(totals.full_snapshot_requests, 1);
    assert_eq!(totals.full_snapshots_sent, 1);
    assert_eq!(totals.total_full_snapshot_bytes, 500);
    assert_eq!(totals.max_full_snapshot_bytes, 500);
    assert_eq!(totals.total_recovery_snapshot_bytes, 500);

    let reports = client_summaries(&sessions, 12, 2);
    let ids: Vec<u128> = reports.iter().map(|r| r.client_id.0).collect();
    assert_eq!(ids, vec![10, 20, 30]);
    assert_eq!(reports[0].ticks_since_last_seen, 3);
    assert_eq!(reports[2].pending_action_queue_depth, 3);
    assert!(reports[2].queue_pressure);
    assert!(!reports[1].queue_pressure);
    assert_eq!(reports[2].player_name.as_deref(), Some("p"));
}

#[test]
fn broadcast_planning() {
    let plan = plan_broadcast(20, 10, 10, true, 1, false, false, false);
    assert!(!plan.skip);
    assert!(plan.should_snapshot);
    assert!(!plan.emit_transport_summary);

    let idle = plan_broadcast(60, 55, 10, false, 0, false, false, false);
    assert!(idle.skip);
    assert!(!idle.should_snapshot);

    let summary = plan_broadcast(60, 55, 10, true, 0, true, false, false);
    assert!(summary.emit_transport_summary);

    let client = plan_client_update(false, false, 0, false);
    assert!(client.is_full_snapshot && client.has_state_update);
    let quiet = plan_client_update(false, true, 0, false);
    assert!(!quiet.is_full_snapshot && !quiet.has_state_update);
    let changed = plan_client_update(false, true, 2, false);
    assert!(!changed.is_full_snapshot && changed.has_state_update);

    assert_eq!(next_snapshot_tick(25, 20, false, true), 25);
    assert_eq!(next_snapshot_tick(25, 20, false, false), 20);
    assert!(emits_rollups(59));
    assert!(!emits_rollups(60));
    assert_eq!(rollup_window_start(59), 0);
    assert_eq!(rollup_window_start(119), 60);
    assert!(emits_incident_summary(5, false));
    assert!(emits_incident_summary(119, true));
    assert!(!emits_incident_summary(120, true));
    assert!(transport_summary_due(120, 60));
    assert!(!transport_summary_due(119, 60));
}

#[test]
fn server_error_messages() {
    assert_eq!(ServerError::NetworkError("down".into()).message(), "Network error: down");
    assert_eq!(ServerError::ConfigError("bad".into()).message(), "Config error: bad");
    assert_eq!(
        ServerError::ClientError("missing session for client 7".into()).message(),
        "Client error: missing session for client 7"
    );
}

#[test]
fn server_config_defaults() {
    let config = ServerConfig::default();
    assert_eq!(config.max_clients, 64);
    assert_eq!(config.tick_rate, 60);
    assert_eq!(config.snapshot_interval, 10);
    assert_eq!(config.bind_addr, "0.0.0.0");
    assert_eq!(config.bind_port, 5000);
    assert!(config.enable_websocket);
    assert_eq!(config.websocket_port, 5001);
    assert_eq!(config.client_inactivity_timeout_ticks, 600);
    assert_eq!(config.queue_pressure_warn_depth, 192);
}

#[test]
fn ops_history_keeps_most_recent_documents() {
    let mut history = OpsDocumentHistory::new(2);
    history.publish("doc-1".to_string());
    history.publish("doc-2".to_string());
    history.publish("doc-3".to_string());
    assert_eq!(history.recent_documents(), vec!["doc-2".to_string(), "doc-3".to_string()]);
    assert_eq!(history.retained_document_count(), 2);

    let mut none = OpsDocumentHistory::new(0);
    none.publish("doc-1".to_string());
    assert_eq!(none.retained_document_count(), 0);

    let mut restored = OpsDocumentHistory::restore(
        3,
        vec!["a".to_string(), "b".to_string(), "c".to_string(), "d".to_string()],
    );
    assert_eq!(restored.retained_document_count(), 4);
    restored.publish("e".to_string());
    assert_eq!(
        restored.recent_documents(),
        vec!["c".to_string(), "d".to_string(), "e".to_string()]
    );
}

#[test]
fn ops_archive_snapshot_counts_and_keeps_recent() {
    let documents = vec!["doc-1".to_string(), "doc-2".to_string(), "doc-3".to_string()];
    let snapshot = OpsDocumentArchiveSnapshot::load("ops/alpha-1-ops.jsonl".to_string(), documents.clone(), 2);
    assert_eq!(snapshot.archive_path, "ops/alpha-1-ops.jsonl");
    assert_eq!(snapshot.persisted_document_count, 3);
    assert_eq!(snapshot.recent_documents, vec!["doc-2".to_string(), "doc-3".to_string()]);

    let all = OpsDocumentArchiveSnapshot::load("x".to_string(), documents.clone(), 16);
    assert_eq!(all.recent_documents, documents);
    let none = OpsDocumentArchiveSnapshot::load("x".to_string(), documents, 0);
    assert_eq!(none.persisted_document_count, 3);
    assert!(none.recent_documents.is_empty());
}

#[test]
fn benchmark_profiles_parse_and_name() {
    assert_eq!(TransportBenchmarkProfile::CiSmoke.as_str(), "ci-smoke");
    assert_eq!(TransportBenchmarkProfile::ShardTarget.as_str(), "shard-target");
    assert_eq!(TransportBenchmarkProfile::CiSmoke.delta_messages(), 2);
    assert_eq!(TransportBenchmarkProfile::ShardTarget.delta_messages(), 8);
    assert_eq!(TransportBenchmarkProfile::CiSmoke.recovery_requests(), 1);
    assert_eq!(TransportBenchmarkProfile::ShardTarget.recovery_requests(), 3);
    assert_eq!(TransportBenchmarkProfile::ShardTarget.queue_pressure_action_count(), 6);
    assert_eq!(
        "shard-target".parse::<TransportBenchmarkProfile>(),
        Ok(TransportBenchmarkProfile::ShardTarget)
    );
    assert_eq!(
        TransportBenchmarkProfile::from_name("ci-smoke"),
        Ok(TransportBenchmarkProfile::CiSmoke)
    );
    assert_eq!(
        "nightly".parse::<TransportBenchmarkProfile>(),
        Err("unsupported transport benchmark profile 'nightly' (expected 'ci-smoke' or 'shard-target')".to_string())
    );
}

fn scenario(
    passed: bool,
    full: u64,
    recovery: u64,
    delta: u64,
    peak: usize,
    pressure: u64,
) -> TransportBenchmarkScenarioReport {
    let summary = ScenarioSummary {
        total_full_snapshot_bytes: full,
        total_recovery_snapshot_bytes: recovery,
        total_delta_bytes: delta,
        total_delta_entities_updated: 1,
        total_delta_entities_destroyed: 2,
        queue_pressure_events: pressure,
        resumed_sessions: 1,
        timed_out_clients: 0,
        recovery_delivery_failures: 0,
        peak_pending_action_queue_depth: peak,
    };
    let checks = vec![transport_check(
        "state_deltas_sent",
        passed,
        "2".to_string(),
        if passed { "2" } else { "1" }.to_string(),
    )];
    build_transport_scenario_report("steady-delta", "delta path", summary, checks)
}

#[test]
fn benchmark_aggregate_checks_published_baselines() {
    let scenarios = vec![
        scenario(true, 1000, 234, 1392, 0, 0),
        scenario(true, 220, 0, 512, 6, 1),
    ];
    let aggregate = build_transport_benchmark_aggregate(TransportBenchmarkProfile::ShardTarget, &scenarios);
    assert_eq!(aggregate.scenario_count, 2);
    assert_eq!(aggregate.scenarios_passed, 2);
    assert_eq!(aggregate.total_full_snapshot_bytes, 1220);
    assert_eq!(aggregate.total_delta_bytes, 1904);
    assert_eq!(aggregate.total_delta_entities_destroyed, 4);
    assert_eq!(aggregate.total_resumed_sessions, 2);
    assert_eq!(aggregate.published_baseline_profile.as_deref(), Some("shard-target"));
    assert_eq!(aggregate.checks.len(), 5);
    assert_eq!(
        aggregate.checks[0].metric,
        "published_baseline.aggregate.total_full_snapshot_bytes"
    );
    assert_eq!(aggregate.checks[0].expected, "1220");
    assert_eq!(aggregate.checks[0].observed, "1220");
    assert!(aggregate.all_checks_passed);

    let drifted = vec![scenario(true, 999, 234, 1904, 7, 1)];
    let aggregate = build_transport_benchmark_aggregate(TransportBenchmarkProfile::ShardTarget, &drifted);
    assert!(!aggregate.all_checks_passed);
    assert!(!aggregate.checks[0].passed);
    assert_eq!(aggregate.checks[0].observed, "999");
    assert_eq!(aggregate.checks[3].observed, "7");

    let ci = build_transport_benchmark_aggregate(
        TransportBenchmarkProfile::CiSmoke,
        &vec![scenario(true, 1, 1, 1, 1, 1), scenario(false, 1, 1, 1, 1, 1)],
    );
    assert!(ci.checks.is_empty());
    assert!(ci.published_baseline_profile.is_none());
    assert_eq!(ci.scenarios_passed, 1);
    assert!(!ci.all_checks_passed);
}

#[test]
fn benchmark_checks_report_pass_state() {
    let checks = vec![
        transport_check("state_deltas_sent", true, "2".to_string(), "2".to_string()),
        transport_check("total_delta_bytes", false, "> 0".to_string(), "0".to_string()),
    ];
    assert_eq!(checks[1].metric, "total_delta_bytes");
    assert!(!checks_all_passed(&checks));
    assert!(checks_all_passed(&checks[..1].to_vec()));
    assert!(checks_all_passed(&Vec::new()));
}

#[test]
fn benchmark_report_assembly() {
    let report = assemble_transport_benchmark_report(
        TransportBenchmarkProfile::ShardTarget,
        vec![scenario(true, 1220, 234, 1904, 6, 1)],
        1_741_315_200_000,
    );
    assert_eq!(report.schema_version, 2);
    assert_eq!(report.generated_at_unix_ms, 1_741_315_200_000);
    assert_eq!(report.profile, "shard-target");
    assert_eq!(report.scenarios.len(), 1);
    assert_eq!(report.scenarios[0].name, "steady-delta");
    assert!(report.all_checks_passed());
    assert_eq!(report.notes.len(), 3);
    assert!(report.notes[2].starts_with("The shard-target profile also enforces"));

    let ci = assemble_transport_benchmark_report(
        TransportBenchmarkProfile::CiSmoke,
        vec![scenario(false, 1, 1, 1, 1, 1)],
        7,
    );
    assert_eq!(ci.notes.len(), 2);
    assert!(!ci.all_checks_passed());
    assert!(!ci.scenarios[0].all_checks_passed);
}

use pod_net::rollups::{group_frames_for_rollup, AgentFrame, TelemetryFrame};

fn tick(tick: u64, agents: Vec<(Option<u64>, &'static str)>) -> TelemetryFrame<&'static str> {
    TelemetryFrame {
        tick,
        agents: agents
            .into_iter()
            .map(|(entity_id, frame)| AgentFrame { entity_id, frame })
            .collect(),
    }
}

#[test]
fn rollup_frames_are_grouped_by_entity_within_the_window() {
    let archive = vec![
        tick(0, vec![(Some(44), "too-old")]),
        tick(60, vec![(Some(44), "a1"), (Some(12), "b1"), (None, "no-entity")]),
        tick(90, vec![(Some(12), "b2")]),
        tick(119, vec![(Some(44), "a2")]),
        tick(120, vec![(Some(44), "too-new")]),
    ];
    let groups = group_frames_for_rollup(archive, 119);
    assert_eq!(groups.len(), 2);
    assert_eq!(groups[0].entity_id, 12);
    assert_eq!(groups[0].frames, vec!["b1", "b2"]);
    assert_eq!(groups[1].entity_id, 44);
    assert_eq!(groups[1].frames, vec!["a1", "a2"]);

    let early = group_frames_for_rollup(vec![tick(0, vec![(Some(7), "x")])], 59);
    assert_eq!(early.len(), 1);
    assert_eq!(early[0].frames, vec!["x"]);
}

use pod_net::inbound::{handle_inbound_message, InboundEffect, InboundMessage};

#[test]
fn inbound_messages_update_sessions_and_name_effects() {
    let mut sessions = attached_table(1, 10);
    let effect = handle_inbound_message(
        &mut sessions,
        ClientId(1),
        32,
        InboundMessage::ActionBatch {
            tick: 30,
            actions: vec![1, 2],
        },
        10,
        192,
    );
    assert_eq!(
        effect,
        InboundEffect::ActionBatch {
            outcome: ActionBatchOutcome::OutOfWindow {
                min_tick: 8,
                max_tick: 12
            },
            rejection: Some("action batch tick out of window: tick=30 accepted=[8..=12]".to_string()),
            pressure_incident: false,
        }
    );
    let session = sessions.get(ClientId(1)).unwrap();
    assert_eq!(session.transport.action_batches_received, 1);
    assert_eq!(session.transport.inbound_bytes, 32);
    assert_eq!(session.transport.last_seen_tick, 10);

    let effect = handle_inbound_message(
        &mut sessions,
        ClientId(1),
        8,
        InboundMessage::Ping { timestamp: 77 },
        11,
        192,
    );
    assert_eq!(effect, InboundEffect::Pong { client_ts: 77, server_ts: 11 });
    assert_eq!(sessions.get(ClientId(1)).unwrap().transport.ping_requests, 1);

    let effect = handle_inbound_message(
        &mut sessions,
        ClientId(1),
        8,
        InboundMessage::SetDebugFocus { entity_id: Some(5) },
        11,
        192,
    );
    assert_eq!(effect, InboundEffect::Updated);
    assert_eq!(sessions.get(ClientId(1)).unwrap().debug_focus_entity, Some(5));

    let effect = handle_inbound_message(
        &mut sessions,
        ClientId(1),
        8,
        InboundMessage::Disconnect { reason: None },
        12,
        192,
    );
    assert_eq!(
        effect,
        InboundEffect::Disconnect {
            reason: "client requested disconnect".to_string()
        }
    );

    let effect = handle_inbound_message(
        &mut sessions,
        ClientId(9),
        8,
        InboundMessage::ActionBatch {
            tick: 12,
            actions: vec![1],
        },
        12,
        192,
    );
    assert_eq!(effect, InboundEffect::Ignored);
    assert_eq!(sessions.len(), 1);

    let effect = handle_inbound_message(
        &mut sessions,
        ClientId(1),
        8,
        InboundMessage::RequestFullSnapshot {
            last_known_tick: Some(3),
            last_known_digest: None,
        },
        12,
        192,
    );
    assert_eq!(effect, InboundEffect::SendFullSnapshot);
    assert_eq!(sessions.get(ClientId(1)).unwrap().transport.full_snapshot_requests, 1);

    let effect = handle_inbound_message(
        &mut sessions,
        ClientId(1),
        8,
        InboundMessage::Connect {
            player_name: "alpha".to_string(),
            reconnect_token: None,
        },
        12,
        192,
    );
    assert_eq!(
        effect,
        InboundEffect::Attach {
            player_name: "alpha".to_string(),
            reconnect_token: None
        }
    );
    assert_eq!(sessions.get(ClientId(1)).unwrap().transport.inbound_messages, 6);
}
