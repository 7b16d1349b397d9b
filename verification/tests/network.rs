use cantina_core::ids::InstallationId;
use cantina_core::network::{ClientAction, LoginState, Network, RECONNECT_DELAY_MICROS};
use cantina_core::protocol::{ServerRequest, ServerResponse, UserProfile};

fn id(value: u128) -> InstallationId {
    InstallationId { value }
}

fn profile(account: i64, name: &str) -> UserProfile {
    UserProfile {
        id: account,
        username: name.to_owned(),
        x_offset: 0,
        horizontal_input: 0,
        last_update_timestamp: None,
    }
}

#[test]
fn starts_logged_out() {
    let network = Network::new(None);
    assert!(matches!(network.login_state(), LoginState::LoggedOut));
    assert_eq!(network.ping(), 0);
}

#[test]
fn error_response_shows_the_message() {
    let mut network = Network::new(None);
    let (action, _echo) = network.handle_response(
        ServerResponse::Error { message: Some("nope".to_owned()) },
        0,
    );
    assert!(matches!(action, ClientAction::Idle));
    match network.login_state() {
        LoginState::Error { message } => assert_eq!(message.as_deref(), Some("nope")),
        _ => panic!("expected the error state"),
    }
}

#[test]
fn adopted_id_is_stored_and_persisted() {
    let mut network = Network::new(None);
    let (action, _echo) = network.handle_response(
        ServerResponse::AdoptInstallationId { installation_id: id(77) },
        0,
    );
    match action {
        ClientAction::PersistInstallationId { installation_id } => {
            assert_eq!(installation_id, id(77))
        },
        _ => panic!("expected a persist action"),
    }
    assert!(matches!(network.login_state(), LoginState::Connected));
    assert_eq!(network.installation_id, Some(id(77)));
}

#[test]
fn authenticated_response_carries_the_profile() {
    let mut network = Network::new(None);
    network.handle_response(
        ServerResponse::Authenticated { profile: profile(10, "ferris") },
        0,
    );
    match network.login_state() {
        LoginState::Authenticated { profile } => assert_eq!(profile.username, "ferris"),
        _ => panic!("expected the authenticated state"),
    }
}

#[test]
fn auth_url_is_handed_to_the_host() {
    let mut network = Network::new(None);
    let (action, _echo) = network.handle_response(
        ServerResponse::AuthenticateAtUrl { url: "https://example.test/login".to_owned() },
        0,
    );
    match action {
        ClientAction::OpenUrl { url } => assert_eq!(url, "https://example.test/login"),
        _ => panic!("expected an open-url action"),
    }
}

#[test]
fn ping_updates_estimates_and_queues_a_pong() {
    let mut network = Network::new(None);
    let (_action, echo) = network.handle_response(
        ServerResponse::Ping {
            timestamp: 1_000,
            average_server_timestamp_delta: 250,
            average_roundtrip: 42,
        },
        5_000,
    );
    assert_eq!(network.ping(), 42);
    let (drained, disconnected) = network.drain_outgoing();
    assert!(!disconnected);
    assert_eq!(drained.len(), 1);
    match &drained[0] {
        ServerRequest::Pong { original_timestamp, timestamp } => {
            assert_eq!(*original_timestamp, 1_000);
            assert_eq!(*timestamp, 5_000);
        },
        _ => panic!("expected a pong"),
    }
    // The returned echo is the reply that was queued.
    match echo {
        Some(ServerRequest::Pong { original_timestamp, timestamp }) => {
            assert_eq!(original_timestamp, 1_000);
            assert_eq!(timestamp, 5_000);
        },
        _ => panic!("expected the pong echoed back"),
    }
}

#[test]
fn delta_correction_cancels_clock_skew() {
    // The client clock runs 600ms ahead of the server's. A zero-latency
    // exchange: the server pings at its time 1s, the client answers at
    // once reading 1.6s on its own clock, the server receives at 1s.
    let mut clock = cantina_core::clock::ClockStats::new();
    clock.record_pong(1_000_000, 1_600_000, 1_000_000);
    let ping = clock.ping_message(1_000_000);

    // The client folds that estimate in, then receives a snapshot the
    // server stamped at its time 2s. In client time that instant is
    // 2.6s, and the correction lands exactly there.
    let mut network = Network::new(None);
    network.handle_response(ping, 1_600_000);
    network.handle_response(
        ServerResponse::WorldUpdate { timestamp: 2_000_000, profiles: vec![] },
        2_600_000,
    );
    let (timestamp, _profiles) = network.last_world_update().expect("a snapshot is waiting");
    assert_eq!(timestamp, 2_600_000);
}

#[test]
fn snapshots_are_clock_corrected_and_consumed_once() {
    let mut network = Network::new(None);
    network.handle_response(
        ServerResponse::Ping {
            timestamp: 0,
            average_server_timestamp_delta: 300,
            average_roundtrip: 0,
        },
        0,
    );
    network.handle_response(
        ServerResponse::WorldUpdate { timestamp: 10_000, profiles: vec![profile(1, "a")] },
        0,
    );
    let (timestamp, profiles) = network.last_world_update().expect("a snapshot is waiting");
    assert_eq!(timestamp, 9_700);
    assert_eq!(profiles.len(), 1);
    assert!(network.last_world_update().is_none());
}

#[test]
fn newer_snapshot_replaces_an_unconsumed_one() {
    let mut network = Network::new(None);
    network.handle_response(
        ServerResponse::WorldUpdate { timestamp: 1, profiles: vec![profile(1, "a")] },
        0,
    );
    network.handle_response(
        ServerResponse::WorldUpdate {
            timestamp: 2,
            profiles: vec![profile(1, "a"), profile(2, "b")],
        },
        0,
    );
    let (timestamp, profiles) = network.last_world_update().expect("a snapshot is waiting");
    assert_eq!(timestamp, 2);
    assert_eq!(profiles.len(), 2);
}

#[test]
fn extreme_clock_delta_saturates_instead_of_wrapping() {
    let mut network = Network::new(None);
    network.handle_response(
        ServerResponse::Ping {
            timestamp: 0,
            average_server_timestamp_delta: -1,
            average_roundtrip: 0,
        },
        0,
    );
    network.handle_response(
        ServerResponse::WorldUpdate { timestamp: i64::MAX, profiles: vec![] },
        0,
    );
    let (timestamp, _profiles) = network.last_world_update().expect("a snapshot is waiting");
    assert_eq!(timestamp, i64::MAX);
}

#[test]
fn reconnect_replays_the_stored_id() {
    // The transport drops mid-session: the supervisor waits its fixed
    // delay, reconnects, and authenticates with the same identity.
    let mut network = Network::new(Some(id(5)));
    network.handle_response(
        ServerResponse::Authenticated { profile: profile(10, "ferris") },
        0,
    );

    let delay = network.on_connect_failed();
    assert_eq!(delay, RECONNECT_DELAY_MICROS);
    assert!(matches!(network.login_state(), LoginState::Error { message: None }));

    let replay = network.on_connected();
    match replay {
        ServerRequest::Authenticate { version, installation_id } => {
            assert_eq!(version, "0.0.1");
            assert_eq!(installation_id, Some(id(5)));
        },
        _ => panic!("expected the handshake"),
    }

    network.handle_response(
        ServerResponse::Authenticated { profile: profile(10, "ferris") },
        0,
    );
    assert!(matches!(network.login_state(), LoginState::Authenticated { .. }));
    assert_eq!(network.installation_id, Some(id(5)));
}
