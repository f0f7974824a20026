use pod_net::authority::{parse_bind_target, AuthorityEnv, AuthorityRuntimeConfig, BindTargetError};
use pod_net::entity::{require_update_baseline, SkillKind, SnapshotUpdateError};
use pod_net::history::SnapshotInterpolationBuffer;
use pod_net::protocol::ClientConfig;
use pod_net::recovery::RecoveryRequestState;
use pod_net::stdb_adapter::{
    build_rust_sdk_action_plan, GameAction, RustSdkActionIntent, SpeakVolume, RustSdkActionAdapterError, RustSdkActionExecutionMode,
    StdbClientError,
};
use pod_net::subscriptions::{normalize_queries, SpacetimeSubscriptionManager, SubscriptionProfile};

#[test]
fn parse_bind_target_splits_host_and_port() {
    let (host, port) = parse_bind_target("127.0.0.1:7000").expect("bind target should parse");
    assert_eq!(host, "127.0.0.1");
    assert_eq!(port, 7000);
}

#[test]
fn test_client_creation() {
    let config = ClientConfig {
        server_addr: "localhost".to_string(),
        server_port: 5000,
        player_name: "TestPlayer".to_string(),
        timeout_ms: 5000,
    };

    assert_eq!(config.player_name, "TestPlayer");
    assert_eq!(config.server_addr, "localhost");
}

#[test]
fn test_error_display() {
    assert_eq!(StdbClientError::NotConnected.message(), "Not connected to SpacetimeDB");
    assert_eq!(
        StdbClientError::Connection("timeout".into()).message(),
        "SpacetimeDB connection error: timeout"
    );
    assert_eq!(
        StdbClientError::Document("bad toon".into()).message(),
        "SpacetimeDB document error: bad toon"
    );
}

#[test]
fn test_recovery_request_state_throttles_retries() {
    let mut recovery = RecoveryRequestState::default();
    assert!(recovery.can_request(10, 5));

    recovery.record_request(10, Some(99));
    assert!(!recovery.can_request(12, 5));
    assert!(recovery.can_request(15, 5));
    assert_eq!(recovery.next_retry_tick(5), Some(15));

    recovery.clear();
    assert_eq!(recovery, RecoveryRequestState::default());
}

#[test]
fn test_subscriptions_dedup_custom() {
    let mut manager = SpacetimeSubscriptionManager::new();
    let input = vec![
        "SELECT * FROM world_state".to_string(),
        "SELECT * FROM world_state".to_string(),
        "SELECT * FROM entity".to_string(),
        "SELECT * FROM entity".to_string(),
    ];
    manager.set_custom(input);
    assert!(manager.pending());

    let queries = match manager.profile() {
        SubscriptionProfile::Custom(queries) => queries.clone(),
        other => panic!("expected a custom profile, got {:?}", other),
    };
    assert_eq!(queries, normalize_queries(queries.clone()));
}

#[test]
fn test_interpolation_buffer_rewind_returns_latest_snapshot_before_tick() {
    let mut buffer: SnapshotInterpolationBuffer<()> = SnapshotInterpolationBuffer::default();
    buffer.push(10, ());
    buffer.push(15, ());
    buffer.push(20, ());

    assert_eq!(buffer.rewind_to(16).unwrap().tick, 15);
    assert_eq!(buffer.rewind_to(8).unwrap().tick, 10);
}

#[test]
fn test_apply_authoritative_update_requires_baseline_for_delta() {
    let error = require_update_baseline(false, 5, false).unwrap_err();
    assert_eq!(error, SnapshotUpdateError::MissingBaseline { tick: 5 });
}

type TestAction = GameAction<(f32, f32), f32, (), ()>;

#[test]
fn test_build_rust_sdk_action_plan_routes_execution_modes() {
    let move_plan = build_rust_sdk_action_plan(&TestAction::Move {
        direction: (1.0, 0.0),
    })
    .expect("move should translate");
    assert_eq!(
        move_plan.execution_mode,
        RustSdkActionExecutionMode::Immediate
    );
    assert!(matches!(
        move_plan.intent,
        RustSdkActionIntent::MoveDirection { direction }
            if direction == (1.0, 0.0)
    ));

    let gather_plan = build_rust_sdk_action_plan(&TestAction::GatherResource {
        target: 77,
        skill: SkillKind::Mining,
    })
    .expect("gather should translate");
    assert_eq!(
        gather_plan.execution_mode,
        RustSdkActionExecutionMode::CompletionAware
    );
    assert!(matches!(
        gather_plan.intent,
        RustSdkActionIntent::GatherEntity {
            entity_id: 77,
            skill: SkillKind::Mining
        }
    ));

    let speak_plan = build_rust_sdk_action_plan(&TestAction::Speak {
        message: "hold west".into(),
        volume: SpeakVolume::Normal,
    })
    .expect("speak should translate");
    assert_eq!(
        speak_plan.execution_mode,
        RustSdkActionExecutionMode::Immediate
    );
    assert!(matches!(
        speak_plan.intent,
        RustSdkActionIntent::Speak { ref message, .. } if message == "hold west"
    ));
}

#[test]
fn test_build_rust_sdk_action_plan_rejects_spawn() {
    let err = build_rust_sdk_action_plan(&TestAction::Spawn {
        prefab: "ore-vein".into(),
        position: (10.0, 20.0),
    })
    .expect_err("spawn should stay outside the SDK adapter");

    assert!(matches!(
        err,
        RustSdkActionAdapterError::UnsupportedAction {
            action: "Spawn",
            ..
        }
    ));
}

#[test]
fn build_rust_sdk_action_plan_maps_targets_to_entity_ids() {
    let plan = build_rust_sdk_action_plan(&TestAction::CommandCompanion {
        slot: 2,
        command: (),
        target: Some(44),
    })
    .expect("command should translate");
    assert_eq!(plan.execution_mode, RustSdkActionExecutionMode::Immediate);
    assert!(matches!(
        plan.intent,
        RustSdkActionIntent::CommandCompanion { slot: 2, target_entity_id: Some(44), .. }
    ));

    let loot = build_rust_sdk_action_plan(&TestAction::Loot { target: 9 }).expect("loot should translate");
    assert_eq!(loot.execution_mode, RustSdkActionExecutionMode::CompletionAware);
    assert!(matches!(loot.intent, RustSdkActionIntent::LootEntity { entity_id: 9 }));

    let interact = build_rust_sdk_action_plan(&TestAction::Interact).expect("interact should translate");
    assert_eq!(interact.execution_mode, RustSdkActionExecutionMode::CompletionAware);
    assert!(matches!(interact.intent, RustSdkActionIntent::InteractNearest));
}

fn empty_env() -> AuthorityEnv {
    AuthorityEnv {
        bind_address: None,
        tick_rate: None,
        max_clients: None,
        runtime_mode: None,
        enable_websocket: None,
        websocket_port: None,
        snapshot_interval: None,
        client_inactivity_timeout_ticks: None,
        queue_pressure_warn_depth: None,
    }
}

#[test]
fn authority_runtime_config_defaults_websocket_to_bind_port_plus_one_in_network_mode() {
    let mut env = empty_env();
    env.bind_address = Some("127.0.0.1:8123".to_string());
    env.runtime_mode = Some("network".to_string());

    let config = AuthorityRuntimeConfig::from_env_values(env);
    assert!(config.enable_websocket);
    assert_eq!(config.websocket_port, 8124);
}

#[test]
fn authority_runtime_config_builds_network_transport_policy_contract() {
    let mut env = empty_env();
    env.bind_address = Some("127.0.0.1:8123".to_string());
    env.snapshot_interval = Some("24".to_string());
    env.client_inactivity_timeout_ticks = Some("900".to_string());
    env.queue_pressure_warn_depth = Some("255".to_string());

    let config = AuthorityRuntimeConfig::from_env_values(env);
    let net_config = config
        .network_server_config()
        .expect("network transport policy should compose");

    assert_eq!(net_config.bind_addr, "127.0.0.1");
    assert_eq!(net_config.bind_port, 8123);
    assert_eq!(net_config.snapshot_interval, 24);
    assert_eq!(net_config.client_inactivity_timeout_ticks, 900);
    assert_eq!(net_config.queue_pressure_warn_depth, 255);
}

#[test]
fn bind_target_errors_name_the_bad_input() {
    let missing = parse_bind_target("localhost").unwrap_err();
    assert!(matches!(missing, BindTargetError::MissingPort { ref bind } if bind == "localhost"));
    assert_eq!(
        missing.message(),
        "Invalid bind address 'localhost', expected host:port"
    );

    let invalid = parse_bind_target("localhost:70000").unwrap_err();
    assert!(matches!(invalid, BindTargetError::InvalidPort { ref port } if port == "70000"));
    assert_eq!(invalid.message(), "number too large to fit in target type");
}

#[test]
fn bind_target_port_errors_read_as_integer_parse_errors() {
    for port in ["", "abc", "+", "-1", "70000", "99999x", "x99999", "6553a", "65536", "+70000", "1 2"] {
        let bind = format!("host:{port}");
        let error = parse_bind_target(&bind).unwrap_err();
        let expected = port.parse::<u16>().unwrap_err().to_string();
        assert_eq!(error.message(), expected, "port text {port:?}");
    }
    assert_eq!(parse_bind_target("host:").unwrap_err().message(), "cannot parse integer from empty string");
    assert_eq!(parse_bind_target("host:abc").unwrap_err().message(), "invalid digit found in string");
    assert_eq!(parse_bind_target("host:+7000").unwrap().1, 7000);
}

#[test]
fn bind_target_reads_the_field_after_the_first_colon() {
    let (host, port) = parse_bind_target("alpha:1:2").expect("the second field is the port");
    assert_eq!(host, "alpha");
    assert_eq!(port, 1);
    assert!(parse_bind_target("::1:9000").is_err());
}

#[test]
fn authority_defaults_without_environment() {
    let config = AuthorityRuntimeConfig::from_env_values(empty_env());
    assert_eq!(config.bind_address, "0.0.0.0:7777");
    assert_eq!(config.runtime_mode, "network");
    assert!(config.enable_websocket);
    assert_eq!(config.websocket_port, 7778);
    assert_eq!(config.max_clients, 32);
    assert_eq!(config.tick_rate, 60);
    assert_eq!(config.transport_policy.snapshot_interval, 10);
    assert_eq!(config.transport_policy.client_inactivity_timeout_ticks, 600);
    assert_eq!(config.transport_policy.queue_pressure_warn_depth, 192);
}

#[test]
fn authority_websocket_switch_and_local_mode() {
    let mut env = empty_env();
    env.runtime_mode = Some("local".to_string());
    assert!(!AuthorityRuntimeConfig::from_env_values(env).enable_websocket);

    let mut env = empty_env();
    env.runtime_mode = Some("local".to_string());
    env.enable_websocket = Some("YES".to_string());
    assert!(AuthorityRuntimeConfig::from_env_values(env).enable_websocket);

    let mut env = empty_env();
    env.enable_websocket = Some("off".to_string());
    env.websocket_port = Some("9001".to_string());
    let config = AuthorityRuntimeConfig::from_env_values(env);
    assert!(!config.enable_websocket);
    assert_eq!(config.websocket_port, 9001);
}

#[test]
fn debug_focus_switches_between_scoped_and_editor_profiles() {
    let mut manager = SpacetimeSubscriptionManager::new();

    assert!(manager.set_debug_focus(Some(44)));
    assert!(manager.pending());
    assert!(matches!(
        manager.profile(),
        SubscriptionProfile::EditorDebugEntities(ids) if ids == &vec![44]
    ));
    // Selecting the same entity again changes nothing.
    assert!(!manager.set_debug_focus(Some(44)));

    assert!(manager.set_debug_focus(None));
    assert!(matches!(manager.profile(), SubscriptionProfile::Editor));
    assert!(!manager.set_debug_focus(None));

    assert!(manager.set_debug_focus(Some(7)));
    assert!(matches!(
        manager.profile(),
        SubscriptionProfile::EditorDebugEntities(ids) if ids == &vec![7]
    ));
}
