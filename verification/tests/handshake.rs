use cantina_core::codec::{decode_request, decode_response, encode_request, encode_response};
use cantina_core::ids::InstallationId;
use cantina_core::network::{ClientAction, LoginState, Network};
use cantina_core::protocol::{Installation, ServerRequest, ServerResponse, UserProfile};
use cantina_core::registry::ConnectedClients;
use cantina_core::session::ConnectedClient;

use crossbeam::channel::{unbounded, Receiver};

fn id(value: u128) -> InstallationId {
    InstallationId { value }
}

fn profile(account: i64, name: &str) -> UserProfile {
    UserProfile {
        id: account,
        username: name.to_owned(),
        x_offset: 0,
        horizontal_input: 0,
        last_update_timestamp: None,
    }
}

/// Pushes one response across the simulated wire into the client.
fn deliver(client: &mut Network, rx: &Receiver<ServerResponse>, now: i64) -> Vec<ClientAction> {
    let mut actions = Vec::new();
    while let Ok(response) = rx.try_recv() {
        let frame = encode_response(&response);
        let decoded = decode_response(&frame).expect("the wire format is closed");
        let (action, _echo) = client.handle_response(decoded, now);
        actions.push(action);
    }
    actions
}

#[test]
fn first_connect_adopts_an_id_and_reconnect_replays_it() {
    let mut registry = ConnectedClients::default();

    // First connection: the client has no stored id.
    let mut client = Network::new(None);
    let frame = encode_request(&client.on_connected());
    let hello = decode_request(&frame).expect("the wire format is closed");

    let mut session = ConnectedClient::default();
    let (responder, response_rx) = unbounded();
    let chosen = match hello {
        ServerRequest::Authenticate { version, installation_id } => {
            let (chosen, echo) = session.begin_authenticate(
                &version,
                installation_id,
                id(123),
                &responder,
            );
            // Nothing was brought, so the fresh id goes out.
            assert!(matches!(
                echo,
                Some(ServerResponse::AdoptInstallationId { installation_id }) if installation_id == id(123)
            ));
            chosen.expect("the version matches")
        },
        _ => panic!("expected the handshake"),
    };
    assert_eq!(chosen, id(123));
    session.finish_authenticate(
        &mut registry,
        Installation { id: chosen, account_id: None },
        None,
        responder.clone(),
    );

    let actions = deliver(&mut client, &response_rx, 0);
    assert!(matches!(
        actions.as_slice(),
        [ClientAction::PersistInstallationId { installation_id }] if *installation_id == id(123)
    ));
    assert!(matches!(client.login_state(), LoginState::Connected));
    let stored = client.installation_id.expect("the id was adopted");

    // The connection drops; the registry entry is torn down with it.
    session.release(&mut registry);
    assert!(!registry.is_connected(id(123)));

    // Next connection, same process: the stored id is replayed and the
    // server hands out nothing fresh.
    let mut client2 = Network::new(Some(stored));
    let frame2 = encode_request(&client2.on_connected());
    let hello2 = decode_request(&frame2).expect("the wire format is closed");

    let mut session2 = ConnectedClient::default();
    let (responder2, response_rx2) = unbounded();
    let chosen2 = match hello2 {
        ServerRequest::Authenticate { version, installation_id } => {
            assert_eq!(installation_id, Some(id(123)));
            let (chosen, echo) = session2.begin_authenticate(
                &version,
                installation_id,
                id(999),
                &responder2,
            );
            // The brought id wins: nothing fresh is handed out.
            assert!(echo.is_none());
            chosen.expect("the version matches")
        },
        _ => panic!("expected the handshake"),
    };
    assert_eq!(chosen2, id(123));

    // The account was linked in the meantime, so this time the store
    // knows who the installation is.
    session2.finish_authenticate(
        &mut registry,
        Installation { id: chosen2, account_id: Some(10) },
        Some(profile(10, "ferris")),
        responder2.clone(),
    );

    let actions2 = deliver(&mut client2, &response_rx2, 0);
    assert_eq!(actions2.len(), 1);
    assert!(matches!(actions2[0], ClientAction::Idle));
    assert!(matches!(client2.login_state(), LoginState::Authenticated { .. }));
    assert_eq!(client2.installation_id, Some(id(123)));
}

#[test]
fn version_mismatch_is_refused_with_an_error() {
    let mut session = ConnectedClient::default();
    let (responder, response_rx) = unbounded();
    let (refused, echo) = session.begin_authenticate(
        &"9.9.9".to_owned(),
        None,
        id(1),
        &responder,
    );
    assert!(refused.is_none());
    assert!(matches!(
        echo,
        Some(ServerResponse::Error { message: Some(ref m) }) if m == "unsupported protocol version"
    ));
    match response_rx.try_recv() {
        Ok(ServerResponse::Error { message }) => {
            assert_eq!(message.as_deref(), Some("unsupported protocol version"))
        },
        _ => panic!("expected a refusal"),
    }

    let mut client = Network::new(None);
    deliver(&mut client, &response_rx, 0);
    assert!(matches!(client.login_state(), LoginState::LoggedOut));
}

#[test]
fn release_runs_safely_twice() {
    let mut registry = ConnectedClients::default();
    let mut session = ConnectedClient::default();
    let (responder, _response_rx) = unbounded();
    let (chosen, _echo) = session.begin_authenticate(
        &"0.0.1".to_owned(),
        Some(id(4)),
        id(5),
        &responder,
    );
    let chosen = chosen.expect("the version matches");
    session.finish_authenticate(
        &mut registry,
        Installation { id: chosen, account_id: None },
        None,
        responder.clone(),
    );
    assert!(registry.is_connected(id(4)));
    session.release(&mut registry);
    session.release(&mut registry);
    assert!(!registry.is_connected(id(4)));
}
