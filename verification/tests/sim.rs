use cantina_core::ids::InstallationId;
use cantina_core::motion::{MAX_POSITION, WALK_SPEED};
use cantina_core::protocol::{ServerResponse, UserProfile};
use cantina_core::registry::ConnectedClients;
use cantina_core::session::handle_update;
use cantina_core::sim::tick;

use crossbeam::channel::unbounded;

fn profile(account: i64, x: i64, input: i64, last: Option<i64>) -> UserProfile {
    UserProfile {
        id: account,
        username: "walker".to_owned(),
        x_offset: x,
        horizontal_input: input,
        last_update_timestamp: last,
    }
}

#[test]
fn tick_advances_walkers_and_broadcasts() {
    let mut registry = ConnectedClients::default();
    let (tx, rx) = unbounded();
    registry.connect(InstallationId { value: 1 }, tx);

    let mut profiles = vec![
        profile(10, 100, 1, Some(1_000_000)),
        profile(11, 500, 0, Some(1_000_000)),
    ];
    let (message, reached) = tick(&mut profiles, &registry, 2_000_000);
    assert_eq!(reached, 1);
    assert_eq!(profiles[0].x_offset, 100 + WALK_SPEED);
    assert_eq!(profiles[0].last_update_timestamp, Some(2_000_000));
    assert_eq!(profiles[1].x_offset, 500);

    match message {
        ServerResponse::WorldUpdate { timestamp, profiles: sent } => {
            assert_eq!(timestamp, 2_000_000);
            assert_eq!(sent.len(), 2);
            assert_eq!(sent[0].x_offset, 100 + WALK_SPEED);
        },
        _ => panic!("expected a world update"),
    }
    assert!(matches!(rx.try_recv(), Ok(ServerResponse::WorldUpdate { .. })));
}

#[test]
fn first_tick_moves_nothing() {
    let registry = ConnectedClients::default();
    let mut profiles = vec![profile(10, 100, 1, None)];
    let (_message, reached) = tick(&mut profiles, &registry, 5_000_000);
    assert_eq!(reached, 0);
    assert_eq!(profiles[0].x_offset, 100);
    assert_eq!(profiles[0].last_update_timestamp, Some(5_000_000));
}

#[test]
fn update_report_is_clamped_into_the_model() {
    let mut p = profile(10, 0, 0, None);
    handle_update(
        &mut p,
        Some(cantina_core::protocol::Inputs { horizontal_movement: 50, interact: false }),
        i64::MIN,
        123,
    );
    assert_eq!(p.x_offset, -MAX_POSITION);
    assert_eq!(p.horizontal_input, 1);
    assert_eq!(p.last_update_timestamp, Some(123));

    handle_update(&mut p, None, 40, -5);
    assert_eq!(p.x_offset, 40);
    assert_eq!(p.horizontal_input, 1);
    assert_eq!(p.last_update_timestamp, Some(123));
}
