use cantina_core::ids::InstallationId;
use cantina_core::protocol::{ServerResponse, UserProfile};
use cantina_core::registry::ConnectedClients;
use cantina_core::session::handle_login_notification;

use crossbeam::channel::{unbounded, Receiver};

fn id(value: u128) -> InstallationId {
    InstallationId { value }
}

fn profile(account: i64, name: &str) -> UserProfile {
    UserProfile {
        id: account,
        username: name.to_owned(),
        x_offset: 0,
        horizontal_input: 0,
        last_update_timestamp: None,
    }
}

#[test]
fn connect_registers_channel() {
    let mut registry = ConnectedClients::default();
    let (tx, _rx) = unbounded();
    assert!(!registry.is_connected(id(1)));
    registry.connect(id(1), tx);
    assert!(registry.is_connected(id(1)));
}

#[test]
fn connect_overwrites_channel() {
    let mut registry = ConnectedClients::default();
    let (tx1, rx1) = unbounded();
    let (tx2, rx2) = unbounded();
    registry.connect(id(1), tx1);
    registry.connect(id(1), tx2);
    let attempted = registry.send_to_installation_id(
        id(1),
        ServerResponse::Error { message: None },
    );
    assert!(attempted);
    assert!(rx1.try_recv().is_err());
    assert!(rx2.try_recv().is_ok());
}

#[test]
fn send_to_unregistered_is_noop() {
    let registry = ConnectedClients::default();
    let attempted = registry.send_to_installation_id(
        id(42),
        ServerResponse::Error { message: None },
    );
    assert!(!attempted);
}

#[test]
fn disconnect_unknown_is_noop() {
    let mut registry = ConnectedClients::default();
    registry.disconnect(id(7));
    assert!(!registry.is_connected(id(7)));
}

#[test]
fn associate_requires_connection() {
    let mut registry = ConnectedClients::default();
    assert!(!registry.associate_account(id(1), 10));
    let (tx, _rx) = unbounded();
    registry.connect(id(1), tx);
    assert!(registry.associate_account(id(1), 10));
}

#[test]
fn associate_is_idempotent() {
    let mut registry = ConnectedClients::default();
    let (tx, _rx) = unbounded();
    registry.connect(id(1), tx);
    assert!(registry.associate_account(id(1), 10));
    assert!(registry.associate_account(id(1), 10));
    let n = registry.send_to_account(10, &ServerResponse::Error { message: None });
    assert_eq!(n, 1);
}

#[test]
fn associate_moves_installation_between_accounts() {
    let mut registry = ConnectedClients::default();
    let (tx, _rx) = unbounded();
    registry.connect(id(1), tx);
    assert!(registry.associate_account(id(1), 10));
    assert!(registry.associate_account(id(1), 20));
    let none = registry.send_to_account(10, &ServerResponse::Error { message: None });
    let one = registry.send_to_account(20, &ServerResponse::Error { message: None });
    assert_eq!(none, 0);
    assert_eq!(one, 1);
}

#[test]
fn disconnect_removes_installation_from_account_set() {
    let mut registry = ConnectedClients::default();
    let (tx1, _rx1) = unbounded();
    let (tx2, _rx2) = unbounded();
    registry.connect(id(1), tx1);
    registry.connect(id(2), tx2);
    assert!(registry.associate_account(id(1), 10));
    assert!(registry.associate_account(id(2), 10));
    assert_eq!(registry.send_to_account(10, &ServerResponse::Error { message: None }), 2);

    registry.disconnect(id(1));
    assert!(!registry.is_connected(id(1)));
    assert!(registry.is_connected(id(2)));
    assert_eq!(registry.send_to_account(10, &ServerResponse::Error { message: None }), 1);
}

#[test]
fn removing_last_installation_removes_account_entry() {
    let mut registry = ConnectedClients::default();
    let (tx, _rx) = unbounded();
    registry.connect(id(1), tx);
    assert!(registry.associate_account(id(1), 10));
    registry.disconnect(id(1));
    assert_eq!(registry.send_to_account(10, &ServerResponse::Error { message: None }), 0);
    assert_eq!(registry.installations_by_account.len(), 0);
    assert_eq!(registry.account_by_installation.len(), 0);
}

#[test]
fn account_fanout_reaches_every_installation() {
    let mut registry = ConnectedClients::default();
    let (tx1, rx1) = unbounded();
    let (tx2, rx2) = unbounded();
    let (tx3, rx3) = unbounded();
    registry.connect(id(1), tx1);
    registry.connect(id(2), tx2);
    registry.connect(id(3), tx3);
    assert!(registry.associate_account(id(1), 10));
    assert!(registry.associate_account(id(2), 10));
    assert!(registry.associate_account(id(3), 99));
    let n = registry.send_to_account(10, &ServerResponse::Error { message: None });
    assert_eq!(n, 2);
    assert!(rx1.try_recv().is_ok());
    assert!(rx2.try_recv().is_ok());
    assert!(rx3.try_recv().is_err());
}

#[test]
fn broadcast_reaches_every_connection() {
    let mut registry = ConnectedClients::default();
    let (tx1, rx1) = unbounded();
    let (tx2, rx2) = unbounded();
    registry.connect(id(1), tx1);
    registry.connect(id(2), tx2);
    let n = registry.broadcast(&ServerResponse::Error { message: None });
    assert_eq!(n, 2);
    assert!(rx1.try_recv().is_ok());
    assert!(rx2.try_recv().is_ok());
}

fn received_authenticated(rx: &Receiver<ServerResponse>) -> Option<i64> {
    match rx.try_recv() {
        Ok(ServerResponse::Authenticated { profile }) => Some(profile.id),
        _ => None,
    }
}

#[test]
fn login_notification_reaches_only_the_triggering_installation() {
    let mut registry = ConnectedClients::default();
    let (tx1, rx1) = unbounded();
    let (tx2, rx2) = unbounded();
    registry.connect(id(1), tx1);
    registry.connect(id(2), tx2);
    assert!(registry.associate_account(id(2), 10));

    let delivered = handle_login_notification(&mut registry, id(1), profile(10, "ferris"));
    assert!(delivered);
    assert_eq!(received_authenticated(&rx1), Some(10));
    assert!(rx2.try_recv().is_err());
}

#[test]
fn login_notification_after_disconnect_is_noop() {
    let mut registry = ConnectedClients::default();
    let (tx, _rx) = unbounded();
    registry.connect(id(1), tx);
    registry.disconnect(id(1));
    let delivered = handle_login_notification(&mut registry, id(1), profile(10, "ferris"));
    assert!(!delivered);
    assert_eq!(registry.account_by_installation.len(), 0);
}
