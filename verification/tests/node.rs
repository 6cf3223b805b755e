use booking_broker::config::{resolve_config, CliArgs, Commands, FileConfig, Role};
use booking_broker::msg::{BookingData, Msg, NotifyData, Op};
use booking_broker::netstate::NetworkSnapshot;
use booking_broker::outbox::{Op as OutboxOp, OpStatus};
use booking_broker::p2p::{
    classify_request, evaluate_test_response, make_error_ack, make_op_ack, DialState,
    RequestAction, TestVerdict,
};

fn bare_args() -> CliArgs {
    CliArgs { command: None, identity_file: None, role: None, listen: None, dial: None }
}

fn file_config() -> FileConfig {
    FileConfig {
        role: Some(Role::Gateway),
        listen: Some("/ip4/127.0.0.1/tcp/4001".to_string()),
        dial: None,
        peers: vec!["/ip4/10.0.0.1/tcp/4001".to_string()],
        bootstrap_peers: vec!["/ip4/10.0.0.2/tcp/4001/p2p/QmPeer".to_string()],
        enable_mdns: Some(false),
        enable_kad: Some(true),
        enable_relay: None,
        discovery_timeout_secs: Some(120),
        central_api_url: Some("https://central.example".to_string()),
        db_path: None,
        max_retry_attempts: Some(5),
        initial_backoff_ms: Some(250),
    }
}

#[test]
fn resolve_config_defaults() {
    let config = resolve_config(&bare_args(), &None);
    assert_eq!(config.role, Role::Client);
    assert_eq!(config.listen, "/ip4/0.0.0.0/tcp/0");
    assert!(config.dial.is_none());
    assert!(config.peers.is_empty());
    assert!(config.enable_mdns);
    assert!(config.enable_kad);
    assert!(!config.enable_relay);
    assert_eq!(config.discovery_timeout_secs, 60);
    assert!(config.central_api_url.is_none());
    assert_eq!(config.db_path, "./data/broker.db");
    assert_eq!(config.max_retry_attempts, 10);
    assert_eq!(config.initial_backoff_ms, 1000);
}

#[test]
fn resolve_config_file_values_apply() {
    let config = resolve_config(&bare_args(), &Some(file_config()));
    assert_eq!(config.role, Role::Gateway);
    assert_eq!(config.listen, "/ip4/127.0.0.1/tcp/4001");
    assert_eq!(config.peers.len(), 1);
    assert!(!config.enable_mdns);
    assert_eq!(config.discovery_timeout_secs, 120);
    assert_eq!(config.central_api_url.as_deref(), Some("https://central.example"));
    assert_eq!(config.max_retry_attempts, 5);
    assert_eq!(config.initial_backoff_ms, 250);
}

#[test]
fn resolve_config_cli_overrides_file() {
    let args = CliArgs {
        command: Some(Commands::Run {
            role: Some(Role::Client),
            listen: None,
            dial: Some("/ip4/1.2.3.4/tcp/4001".to_string()),
        }),
        identity_file: None,
        role: None,
        listen: Some("/ip4/0.0.0.0/tcp/9999".to_string()),
        dial: None,
    };
    let config = resolve_config(&args, &Some(file_config()));
    // The subcommand's role wins; the missing listen falls back to the
    // top-level flag; the dial comes from the subcommand.
    assert_eq!(config.role, Role::Client);
    assert_eq!(config.listen, "/ip4/0.0.0.0/tcp/9999");
    assert_eq!(config.dial.as_deref(), Some("/ip4/1.2.3.4/tcp/4001"));
}

#[test]
fn resolve_config_test_submit_forces_client() {
    let args = CliArgs {
        command: Some(Commands::TestSubmit {
            listen: "/ip4/0.0.0.0/tcp/0".to_string(),
            dial: "/ip4/9.9.9.9/tcp/4001".to_string(),
            timeout_secs: 10,
        }),
        identity_file: None,
        role: Some(Role::Gateway),
        listen: None,
        dial: None,
    };
    let config = resolve_config(&args, &Some(file_config()));
    assert_eq!(config.role, Role::Client);
    assert_eq!(config.listen, "/ip4/0.0.0.0/tcp/0");
    assert_eq!(config.dial.as_deref(), Some("/ip4/9.9.9.9/tcp/4001"));
}

#[test]
fn role_names() {
    assert_eq!(Role::Client.as_str(), "client");
    assert_eq!(Role::Gateway.as_str(), "gateway");
}

fn snapshot() -> NetworkSnapshot {
    let mut config = resolve_config(&bare_args(), &None);
    config.bootstrap_peers = vec!["/ip4/10.0.0.2/tcp/4001/p2p/QmBoot".to_string()];
    NetworkSnapshot::new(&config, "QmLocal".to_string(), vec![Some("QmBoot".to_string())])
}

#[test]
fn snapshot_tracks_connections_and_bootstrap_flags() {
    let mut snap = snapshot();
    assert_eq!(snap.local_peer_id, "QmLocal");
    assert_eq!(snap.role, "client");
    assert_eq!(snap.bootstrap_peers.len(), 1);
    assert!(!snap.bootstrap_peers[0].connected);

    snap.set_connected("QmBoot".to_string(), true);
    assert_eq!(snap.peers.len(), 1);
    assert!(snap.peers[0].connected);
    assert!(snap.bootstrap_peers[0].connected);

    snap.set_connected("QmBoot".to_string(), false);
    assert_eq!(snap.peers.len(), 1);
    assert!(!snap.peers[0].connected);
    assert!(!snap.bootstrap_peers[0].connected);

    snap.set_connected("QmOther".to_string(), true);
    assert_eq!(snap.peers.len(), 2);
    assert!(!snap.bootstrap_peers[0].connected);
}

#[test]
fn snapshot_records_discovery_once_per_mechanism() {
    let mut snap = snapshot();
    snap.mark_discovered("QmPeer".to_string(), "mdns");
    snap.mark_discovered("QmPeer".to_string(), "mdns");
    snap.mark_discovered("QmPeer".to_string(), "kad");
    assert_eq!(snap.peers.len(), 1);
    assert_eq!(snap.peers[0].discovered_via, vec!["mdns".to_string(), "kad".to_string()]);
    assert!(!snap.peers[0].connected);
}

#[test]
fn snapshot_records_rtt() {
    let mut snap = snapshot();
    snap.set_rtt_ms("QmPeer".to_string(), 42);
    assert_eq!(snap.peers[0].last_rtt_ms, Some(42));
    snap.set_rtt_ms("QmPeer".to_string(), 17);
    assert_eq!(snap.peers.len(), 1);
    assert_eq!(snap.peers[0].last_rtt_ms, Some(17));
}

#[test]
fn op_status_codes_round_trip() {
    let all = [OpStatus::Pending, OpStatus::Sent, OpStatus::Acked, OpStatus::Failed];
    for status in all {
        assert_eq!(OpStatus::from_i64(status.to_i64()), status);
    }
    assert_eq!(OpStatus::Pending.to_i64(), 0);
    assert_eq!(OpStatus::Sent.to_i64(), 1);
    assert_eq!(OpStatus::Acked.to_i64(), 2);
    assert_eq!(OpStatus::Failed.to_i64(), 3);
    // Unknown codes read as Failed.
    assert_eq!(OpStatus::from_i64(99), OpStatus::Failed);
}

#[test]
fn fake_upsert_note_shape() {
    let op: OutboxOp = OutboxOp::new_fake_upsert_note("QmActor");
    assert_eq!(op.op_id.len(), 36);
    assert_eq!(op.actor_id, "QmActor");
    assert_eq!(op.kind, "UpsertNote");
    assert_eq!(op.entity, "note");
    assert_eq!(op.status, OpStatus::Pending);
    assert!(op.payload_json.starts_with("{\"note_id\":\""));
    assert!(op.payload_json.contains("\"title\":\"Hola\""));
    assert!(op.payload_json.contains("\"body\":\"Nota fake para demo\""));
    assert!(op
        .payload_json
        .contains(&format!("\"updated_at_ms\":{}}}", op.created_at_ms)));
}

fn sample_booking_msg() -> Msg {
    Msg::SubmitBooking {
        correlation_id: "c9".to_string(),
        booking: BookingData {
            date: "2026-01-15".to_string(),
            start_time: "10:00".to_string(),
            end_time: "11:00".to_string(),
            name: "Test".to_string(),
        },
        notify: NotifyData { email: "t@x.io".to_string(), locale: None, timezone: None },
    }
}

#[test]
fn requests_are_classified_by_role() {
    match classify_request(&Role::Gateway, true, sample_booking_msg()) {
        RequestAction::HandleBooking { correlation_id, booking, .. } => {
            assert_eq!(correlation_id, "c9");
            assert_eq!(booking.name, "Test");
        }
        _ => panic!("expected the booking to go to the broker"),
    }
    match classify_request(&Role::Client, true, sample_booking_msg()) {
        RequestAction::RefuseBooking { correlation_id } => assert_eq!(correlation_id, "c9"),
        _ => panic!("a client must refuse bookings"),
    }
    match classify_request(&Role::Gateway, false, sample_booking_msg()) {
        RequestAction::RefuseBooking { .. } => {}
        _ => panic!("a gateway without a broker must refuse bookings"),
    }

    let op = Op {
        op_id: "op-1".to_string(),
        actor_id: "QmActor".to_string(),
        kind: "UpsertNote".to_string(),
        entity: "note:123".to_string(),
        payload_json: "{}".to_string(),
        created_at_ms: 1234567890,
    };
    match classify_request(&Role::Gateway, true, Msg::OpSubmit { op }) {
        RequestAction::AckOp { op_id } => assert_eq!(op_id, "op-1"),
        _ => panic!("operation submissions are acknowledged"),
    }
    match classify_request(&Role::Client, true, Msg::Heartbeat { role: "client".to_string() }) {
        RequestAction::Ignore => {}
        _ => panic!("heartbeats are ignored"),
    }
}

#[test]
fn acknowledgement_constructors() {
    match make_op_ack("op-1".to_string()) {
        Msg::OpAck { op_id, ok, msg } => {
            assert_eq!(op_id, "op-1");
            assert!(ok);
            assert_eq!(msg, "Processed");
        }
        _ => panic!("expected an operation acknowledgement"),
    }
    match make_error_ack("c9".to_string()) {
        Msg::BookingAck { correlation_id, status } => {
            assert_eq!(correlation_id, "c9");
            assert_eq!(status, "error");
        }
        _ => panic!("expected a booking acknowledgement"),
    }
}

#[test]
fn test_responses_are_judged_against_expected_op() {
    let good = Msg::OpAck { op_id: "op-1".to_string(), ok: true, msg: "Processed".to_string() };
    let wrong_id = Msg::OpAck { op_id: "op-2".to_string(), ok: true, msg: String::new() };
    let not_ok = Msg::OpAck { op_id: "op-1".to_string(), ok: false, msg: String::new() };
    let unrelated = Msg::Heartbeat { role: "client".to_string() };
    assert_eq!(evaluate_test_response("op-1", &good), TestVerdict::Pass);
    assert_eq!(evaluate_test_response("op-1", &wrong_id), TestVerdict::Fail);
    assert_eq!(evaluate_test_response("op-1", &not_ok), TestVerdict::Fail);
    assert_eq!(evaluate_test_response("op-1", &unrelated), TestVerdict::KeepWaiting);
}

#[test]
fn dial_throttle_enforces_cooldown() {
    let mut dials = DialState::new();
    assert!(!dials.bootstrap_attempted);
    assert!(dials.can_dial("QmPeer", 1000));
    assert!(!dials.can_dial("QmPeer", 1000 + 29999));
    assert!(dials.can_dial("QmOther", 1000));
    assert!(dials.can_dial("QmPeer", 1000 + 30000));
    // The permitted dial was recorded: the cooldown restarts from it.
    assert!(!dials.can_dial("QmPeer", 1000 + 30000 + 100));
    dials.mark_bootstrap_attempted();
    assert!(dials.bootstrap_attempted);
}
