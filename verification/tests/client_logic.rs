use pod_net::stdb_adapter::{
    augment_available_actions, context_message_texts, join_with, RustSdkBankState,
    RustSdkDialogState, RustSdkShopState,
};
use pod_net::entity::{
    combat_style_name, encounter_kind_name, skill_kind_name, team_to_id, CombatStyle,
    EncounterKind, SkillKind, Team,
};
use pod_net::client::{build_ws_url, reconnect_delay_ms, ClientError};
use pod_net::decimal::{decimal_string, parse_unsigned};
use pod_net::digest::{hash_bool, hash_option_str, hash_option_u64, hash_u64, FNV_OFFSET_BASIS};
use pod_net::entity::{
    check_authoritative_digest, classify_entity_kind, entity_kind_name, interaction_hints_for_entity,
    EntityComponentFacts, EntityKind, LootFacts, SnapshotUpdateError,
};
use pod_net::history::SnapshotInterpolationBuffer;
use pod_net::prediction::{
    plan_state_delta, ClientSyncState, PredictionHistory, RecoveryRequest, StateDeltaDisposition,
};
use pod_net::protocol::{ClientConfig, ClientId, ReconnectToken};
use pod_net::stdb_adapter::{collect_topology_feed_checks, TopologyFeedWorldPathReport};

#[test]
fn client_ids_are_random_v4_uuids() {
    let a = ClientId::new();
    let b = ClientId::new();
    assert_ne!(a, b);
    for value in [a.0, b.0, ReconnectToken::new().0] {
        assert_eq!((value >> 76) & 0xf, 4);
        assert_eq!((value >> 62) & 0x3, 2);
    }
}

#[test]
fn client_error_messages() {
    assert_eq!(ClientError::NotConnected.message(), "Not connected to server");
    assert_eq!(ClientError::Connection("refused".into()).message(), "Connection error: refused");
    assert_eq!(ClientError::Serialization("eof".into()).message(), "Serialization error: eof");
    assert_eq!(ClientError::Config("tls".into()).message(), "Config error: tls");
    assert_eq!(ClientError::Timeout.message(), "Connection timeout");
    assert_eq!(ClientError::Rejected("full".into()).message(), "Connection rejected: full");
}

#[test]
fn websocket_url_follows_page_protocol() {
    let config = ClientConfig {
        server_addr: "localhost".to_string(),
        server_port: 5001,
        player_name: "WebPlayer".to_string(),
        timeout_ms: 5000,
    };
    assert_eq!(build_ws_url("https:", &config), "wss://localhost:5001");
    assert_eq!(build_ws_url("http:", &config), "ws://localhost:5001");
}

#[test]
fn reconnect_backoff_doubles_then_caps() {
    assert_eq!(reconnect_delay_ms(0), 250);
    assert_eq!(reconnect_delay_ms(1), 500);
    assert_eq!(reconnect_delay_ms(5), 8000);
    assert_eq!(reconnect_delay_ms(6), 10_000);
    assert_eq!(reconnect_delay_ms(u32::MAX), 10_000);
}

#[test]
fn client_config_defaults() {
    let config = ClientConfig::default();
    assert_eq!(config.server_addr, "localhost");
    assert_eq!(config.server_port, 5000);
    assert_eq!(config.player_name, "Player");
    assert_eq!(config.timeout_ms, 5000);
}

#[test]
fn decimal_parse_and_render() {
    assert_eq!(parse_unsigned("7000", 65535), Some(7000));
    assert_eq!(parse_unsigned("+7", 65535), Some(7));
    assert_eq!(parse_unsigned("-1", 65535), None);
    assert_eq!(parse_unsigned("65536", 65535), None);
    assert_eq!(parse_unsigned("", 65535), None);
    assert_eq!(parse_unsigned("12a", 65535), None);
    assert_eq!(decimal_string(0), "0");
    assert_eq!(decimal_string(1904), "1904");
    assert_eq!(decimal_string(u64::MAX), u64::MAX.to_string());
    assert_eq!(parse_unsigned(&decimal_string(987654321), u64::MAX), Some(987654321));
}

#[test]
fn digest_folding_matches_fnv() {
    let mut hash = FNV_OFFSET_BASIS;
    hash_u64(&mut hash, 42);
    assert_eq!(hash, (FNV_OFFSET_BASIS ^ 42).wrapping_mul(0x100000001b3));

    let mut a = FNV_OFFSET_BASIS;
    hash_bool(&mut a, true);
    let mut b = FNV_OFFSET_BASIS;
    hash_u64(&mut b, 1);
    assert_eq!(a, b);

    let mut some = FNV_OFFSET_BASIS;
    hash_option_u64(&mut some, Some(0));
    let mut none = FNV_OFFSET_BASIS;
    hash_option_u64(&mut none, None);
    assert_ne!(some, none);

    let mut text = FNV_OFFSET_BASIS;
    hash_option_str(&mut text, Some("ab"));
    let mut manual = FNV_OFFSET_BASIS;
    hash_u64(&mut manual, 1);
    hash_u64(&mut manual, b'a' as u64);
    hash_u64(&mut manual, b'b' as u64);
    assert_eq!(text, manual);
}

fn facts() -> EntityComponentFacts {
    EntityComponentFacts {
        controlled: false,
        resource_remaining_uses: None,
        loot: None,
        creature_is_wild: None,
        has_combat_loadout: false,
        health_positive: None,
    }
}

#[test]
fn entity_classification_precedence() {
    let mut resource = facts();
    resource.resource_remaining_uses = Some(3);
    resource.controlled = true;
    assert_eq!(classify_entity_kind(&resource), EntityKind::ResourceNode);

    let mut loot = facts();
    loot.loot = Some(LootFacts {
        claimed: false,
        coins: 5,
        item_count: 0,
    });
    assert_eq!(classify_entity_kind(&loot), EntityKind::LootContainer);

    let mut wild = facts();
    wild.creature_is_wild = Some(true);
    assert_eq!(classify_entity_kind(&wild), EntityKind::WildCreature);

    let mut player = facts();
    player.controlled = true;
    assert_eq!(classify_entity_kind(&player), EntityKind::Player);
    assert_eq!(classify_entity_kind(&facts()), EntityKind::Scenery);
    assert_eq!(entity_kind_name(EntityKind::LootContainer), "loot_container");

    let hints = interaction_hints_for_entity(EntityKind::ResourceNode, &resource);
    assert!(hints.can_gather);
}

#[test]
fn digest_mismatch_is_reported() {
    assert_eq!(check_authoritative_digest(7, 100, 100), Ok(()));
    assert_eq!(
        check_authoritative_digest(7, 100, 101),
        Err(SnapshotUpdateError::DigestMismatch {
            tick: 7,
            expected: 100,
            actual: 101
        })
    );
}

#[test]
fn snapshot_history_replaces_same_tick_and_trims_oldest() {
    let mut buffer: SnapshotInterpolationBuffer<&'static str> = SnapshotInterpolationBuffer::new(2);
    buffer.push(10, "old");
    buffer.push(10, "new");
    assert_eq!(buffer.snapshot_count(), 1);
    assert_eq!(buffer.rewind_to(10).unwrap().snapshot, "new");

    buffer.push(12, "b");
    buffer.push(11, "a");
    assert_eq!(buffer.snapshot_count(), 2);
    assert_eq!(buffer.oldest_tick(), Some(11));
    assert_eq!(buffer.latest_tick(), Some(12));
    assert_eq!(buffer.rewind_to(12).unwrap().snapshot, "b");
    assert_eq!(buffer.rewind_to(5).unwrap().snapshot, "a");

    buffer.clear();
    assert!(buffer.rewind_to(12).is_none());
    assert_eq!(buffer.latest_tick(), None);
}

#[test]
fn prediction_history_prunes_acknowledged_batches() {
    let mut history: PredictionHistory<u8> = PredictionHistory::new();
    history.record_sent(10, vec![1, 2]);
    history.record_sent(11, vec![3]);
    history.record_sent(12, vec![4, 5, 6]);
    assert_eq!(history.pending_action_count(), 6);

    history.prune_acknowledged(Some(11));
    assert_eq!(history.pending_batches(), 1);
    assert_eq!(history.last_acknowledged_action_tick(), Some(11));
    history.prune_acknowledged(Some(9));
    assert_eq!(history.last_acknowledged_action_tick(), Some(11));
    assert_eq!(history.pending_batches(), 1);

    let replay = history.replay_after(10);
    assert_eq!(replay.replayed_batches, 1);
    assert_eq!(replay.replayed_action_count, 3);
    assert_eq!(replay.first_replayed_tick, Some(12));
    assert_eq!(replay.last_replayed_tick, Some(12));
}

#[test]
fn state_delta_dispositions() {
    assert_eq!(plan_state_delta(10, 9, true), StateDeltaDisposition::Stale);
    assert_eq!(plan_state_delta(10, 13, false), StateDeltaDisposition::GapRecovery);
    assert_eq!(
        plan_state_delta(10, 13, true),
        StateDeltaDisposition::Apply {
            use_baseline: false,
            gap_detected: true
        }
    );
    assert_eq!(
        plan_state_delta(10, 11, false),
        StateDeltaDisposition::Apply {
            use_baseline: true,
            gap_detected: false
        }
    );
    assert_eq!(
        plan_state_delta(0, 50, false),
        StateDeltaDisposition::Apply {
            use_baseline: true,
            gap_detected: false
        }
    );
}

#[test]
fn client_sync_recovery_is_throttled() {
    let mut sync: ClientSyncState<u8> = ClientSyncState::new();
    let report = sync.on_welcome(20, 555, Some(555));
    assert_eq!(report.authoritative_tick, 20);
    assert_eq!(sync.last_server_tick, 20);

    let plan = sync.plan_recovery_request(25, None, 5).expect("first request is allowed");
    assert_eq!(plan.current_server_tick, 25);
    assert_eq!(plan.last_known_tick, Some(20));
    sync.record_recovery_request(plan, Some(1));
    assert!(sync.plan_recovery_request(27, None, 5).is_none());
    assert!(sync.plan_recovery_request(30, None, 5).is_some());

    sync.accept_state_delta(31, true, Some(30));
    assert_eq!(sync.last_server_tick, 31);
    assert!(sync.plan_recovery_request(31, None, 5).is_some());
    assert!(!sync.accept_event_batch(19));
    assert!(sync.accept_event_batch(21));
}

#[test]
fn topology_checks_encode_the_resolved_world_as_json() {
    let mut path = TopologyFeedWorldPathReport {
        resolved_world_id: Some("deadman-shadow".to_string()),
        resolved_world_matches: true,
        quest_binding_matches: true,
        applied_world_state_matches: true,
        evaluation_matches: false,
        world_tournament_orchestration_matches: true,
        tournament_control_plane_matches: true,
        tournament_orchestration_matches: true,
    };
    let checks = collect_topology_feed_checks("deadman-shadow", "authority_row", &path);
    assert_eq!(checks.len(), 8);
    assert_eq!(checks[0].metric, "authority_row.deadman-shadow.resolved_world_matches");
    assert_eq!(checks[0].observed, "\"deadman-shadow\"");
    assert_eq!(checks[3].observed, "false");
    assert!(checks[7].passed);

    path.resolved_world_id = None;
    let checks = collect_topology_feed_checks("deadman-shadow", "authority_row", &path);
    assert_eq!(checks[0].observed, "null");
    assert!(!checks[7].passed);

    path.resolved_world_id = Some("a\"b\\c\nd\u{1}\u{e9}".to_string());
    let checks = collect_topology_feed_checks("deadman-shadow", "authority_row", &path);
    assert_eq!(checks[0].observed, "\"a\\\"b\\\\c\\nd\\u0001\u{e9}\"");
}

use pod_net::remote_agent::{
    advance_remote_agent_tick, check_action_submission, gate_remote_actions, rejection_counter,
    RejectionCounter, RemoteActionGate, RemoteAgentFallbackReason, RemoteAgentLimits,
};
use pod_net::stdb_adapter::StdbClientError;

fn limits() -> RemoteAgentLimits {
    RemoteAgentLimits {
        max_actions_per_tick: 2,
        heartbeat_timeout_ticks: 60,
        stale_after_ticks: 10,
    }
}

#[test]
fn remote_agent_gate_checks_budget_then_observation() {
    assert_eq!(
        gate_remote_actions(3, 100, Some(100), limits()),
        RemoteActionGate::Rejected {
            reason: RemoteAgentFallbackReason::ActionBudgetExceeded,
            message: "Remote agent queued 3 actions but contract allows 2 per tick".to_string(),
            stale_ticks: None,
        }
    );
    assert_eq!(
        gate_remote_actions(1, 100, None, limits()),
        RemoteActionGate::Rejected {
            reason: RemoteAgentFallbackReason::ObservationMissing,
            message: "Remote agent has no authoritative observation yet".to_string(),
            stale_ticks: None,
        }
    );
    assert_eq!(
        gate_remote_actions(1, 100, Some(30), limits()),
        RemoteActionGate::Rejected {
            reason: RemoteAgentFallbackReason::HeartbeatTimedOut,
            message: "Remote agent observation timed out after 70 ticks (limit 60)".to_string(),
            stale_ticks: Some(70),
        }
    );
    assert_eq!(
        gate_remote_actions(1, 100, Some(80), limits()),
        RemoteActionGate::Rejected {
            reason: RemoteAgentFallbackReason::ObservationStale,
            message: "Remote agent observation is 20 ticks old (stale after 10)".to_string(),
            stale_ticks: Some(20),
        }
    );
    assert_eq!(
        gate_remote_actions(2, 100, Some(95), limits()),
        RemoteActionGate::Allowed { stale_ticks: 5 }
    );
    assert_eq!(
        rejection_counter(RemoteAgentFallbackReason::ObservationMissing),
        RejectionCounter::StaleAction
    );
    assert_eq!(
        rejection_counter(RemoteAgentFallbackReason::HeartbeatTimedOut),
        RejectionCounter::Timeout
    );
}

#[test]
fn action_submission_requires_connected_player() {
    assert!(matches!(
        check_action_submission(false, false, true),
        Err(StdbClientError::NotConnected)
    ));
    match check_action_submission(true, true, true) {
        Err(StdbClientError::InvalidState(message)) => assert_eq!(message, "Spectator mode is read-only"),
        other => panic!("unexpected {:?}", other),
    }
    match check_action_submission(true, false, false) {
        Err(StdbClientError::InvalidState(message)) => {
            assert_eq!(message, "No controlled entity is connected")
        }
        other => panic!("unexpected {:?}", other),
    }
    assert!(check_action_submission(true, false, true).is_ok());
    assert_eq!(advance_remote_agent_tick(Some(50), Some(40), 0, 45), (Some(50), 5));
    assert_eq!(advance_remote_agent_tick(None, None, 7, 45), (Some(45), 7));
}

#[test]
fn test_agent_id_from_entity_deterministic() {
    let a = pod_net::stdb_adapter::agent_id_from_entity(42);
    let b = pod_net::stdb_adapter::agent_id_from_entity(42);
    assert_eq!(a, b);

    let c = pod_net::stdb_adapter::agent_id_from_entity(43);
    assert_ne!(a, c);
    assert_eq!(a, 42);
}

#[test]
fn snapshot_metadata_names() {
    assert_eq!(team_to_id(Team::Unaffiliated), None);
    assert_eq!(team_to_id(Team::Team(3)), Some(3));
    assert_eq!(combat_style_name(CombatStyle::Summoning), "summoning");
    assert_eq!(skill_kind_name(SkillKind::Woodcutting), "woodcutting");
    assert_eq!(skill_kind_name(SkillKind::Bonding), "bonding");
    assert_eq!(encounter_kind_name(EncounterKind::OpenWorld), "open_world");
    assert_eq!(pod_net::delta::change_count(2, 3), 5);
}

#[test]
fn sdk_context_lines_describe_open_dialog_shop_and_bank() {
    let dialog = Some(RustSdkDialogState {
        speaker: "Trader".to_string(),
        prompt: "Need supplies?".to_string(),
        options: vec!["Buy".to_string(), "Leave".to_string()],
    });
    let shop = Some(RustSdkShopState {
        shop_name: "Frontier Tools".to_string(),
        offer_count: 12,
        can_buy: true,
        can_sell: false,
    });
    let bank = Some(RustSdkBankState {
        bank_name: "Anchor Vault".to_string(),
        tab_count: 3,
        item_count: 40,
        can_deposit: false,
        can_withdraw: true,
    });
    let lines = context_message_texts(&dialog, &shop, &bank);
    assert_eq!(
        lines,
        vec![
            "dialog:Trader prompt=\"Need supplies?\" options=[Buy, Leave]".to_string(),
            "shop:Frontier Tools offers=12 can_buy=true can_sell=false".to_string(),
            "bank:Anchor Vault tabs=3 items=40 deposit=false withdraw=true".to_string(),
        ]
    );

    let silent = Some(RustSdkDialogState {
        speaker: "Guard".to_string(),
        prompt: "...".to_string(),
        options: Vec::new(),
    });
    assert_eq!(
        context_message_texts(&silent, &None, &None),
        vec!["dialog:Guard prompt=\"...\" options=[no options]".to_string()]
    );
    assert!(context_message_texts(&None, &None, &None).is_empty());

    let mut actions = vec!["Move".to_string(), "Shop:Buy".to_string()];
    augment_available_actions(&mut actions, dialog.as_ref(), shop.as_ref(), bank.as_ref());
    assert_eq!(
        actions,
        vec![
            "Move".to_string(),
            "Shop:Buy".to_string(),
            "Dialog:Continue".to_string(),
            "Dialog:SelectOption".to_string(),
            "Bank:Withdraw".to_string(),
        ]
    );
    assert_eq!(join_with(&vec!["a".to_string()], ", "), "a");
    assert_eq!(join_with(&Vec::new(), ", "), "");
}

#[test]
fn gap_recovery_drops_snapshots_and_requests_a_full_snapshot() {
    let mut sync = ClientSyncState::<u32>::new();
    sync.on_welcome(10, 1, None);
    sync.prediction.record_sent(11, vec![1, 2]);
    let mut authoritative = Some("auth-10");
    let mut local = Some("local-11");
    let mut history = SnapshotInterpolationBuffer::new(8);
    history.push(10, "auth-10");

    assert_eq!(sync.classify_state_delta(14, false), StateDeltaDisposition::GapRecovery);
    let (request, report) =
        sync.recover_from_gap(14, 77, Some((10, 555)), true, &mut authoritative, &mut local, &mut history);

    assert_eq!(
        request,
        Some(RecoveryRequest { last_known_tick: Some(10), last_known_digest: Some(555) })
    );
    assert!(authoritative.is_none());
    assert!(local.is_none());
    assert_eq!(history.snapshot_count(), 0);
    assert!(report.used_hard_resync);
    assert_eq!(report.authoritative_tick, 14);
    assert_eq!(report.authoritative_digest, 77);
    assert_eq!(report.pending_action_batches, 1);
    assert_eq!(report.replayed_action_count, 2);
    assert_eq!(report.predicted_digest, None);
    assert_eq!(sync.last_server_tick, 10);

    // The request is throttled until the retry interval has passed.
    let (again, again_report) =
        sync.recover_from_gap(15, 78, None, true, &mut authoritative, &mut local, &mut history);
    assert_eq!(again, None);
    assert!(again_report.used_hard_resync);
    let (later, _) = sync.recover_from_gap(19, 79, None, true, &mut authoritative, &mut local, &mut history);
    assert_eq!(later, Some(RecoveryRequest { last_known_tick: Some(10), last_known_digest: None }));
}

#[test]
fn gap_recovery_without_connection_sends_nothing() {
    let mut sync = ClientSyncState::<u32>::new();
    sync.on_welcome(3, 1, None);
    let mut authoritative = Some("auth-3");
    let mut local: Option<&str> = None;
    let mut history = SnapshotInterpolationBuffer::new(4);
    let (request, report) =
        sync.recover_from_gap(9, 5, Some((3, 8)), false, &mut authoritative, &mut local, &mut history);
    assert_eq!(request, None);
    assert!(authoritative.is_none());
    assert!(report.used_hard_resync);
    // Nothing was recorded, so a connected retry right away may ask.
    let (retry, _) = sync.recover_from_gap(9, 5, None, true, &mut authoritative, &mut local, &mut history);
    assert_eq!(retry, Some(RecoveryRequest { last_known_tick: Some(3), last_known_digest: None }));
}
