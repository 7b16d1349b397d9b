use cantina_core::protocol::{ServerRequest, UserProfile};
use cantina_core::world::{ClientWorld, UPDATE_INTERVAL_MICROS};

fn profile(account: i64, x: i64, input: i64) -> UserProfile {
    UserProfile {
        id: account,
        username: "remote".to_owned(),
        x_offset: x,
        horizontal_input: input,
        last_update_timestamp: None,
    }
}

#[test]
fn position_reports_are_rate_limited() {
    let mut world = ClientWorld::new();
    let first = world.update_step(1, 16_000, 1_000_000, None);
    assert!(first.is_some());
    let too_soon = world.update_step(1, 16_000, 1_000_000 + 50_000, None);
    assert!(too_soon.is_none());
    let due = world.update_step(1, 16_000, 1_000_000 + UPDATE_INTERVAL_MICROS, None);
    assert!(due.is_some());
}

#[test]
fn report_carries_inputs_position_and_timestamp() {
    let mut world = ClientWorld::new();
    match world.update_step(1, 1_000_000, 5_000_000, None) {
        Some(ServerRequest::Update { new_inputs, x_offset, timestamp }) => {
            let inputs = new_inputs.expect("inputs are reported");
            assert_eq!(inputs.horizontal_movement, 1);
            assert!(!inputs.interact);
            assert_eq!(x_offset, 32);
            assert_eq!(timestamp, 5_000_000);
        },
        _ => panic!("expected an update report"),
    }
}

#[test]
fn own_position_never_walks_past_the_left_edge() {
    let mut world = ClientWorld::new();
    world.update_step(-1, 1_000_000, 1_000_000, None);
    assert_eq!(world.x_offset, 0);
}

#[test]
fn snapshot_profiles_are_upserted_and_aged() {
    let mut world = ClientWorld::new();
    // A snapshot stamped one second ago: its walker has kept moving.
    let snap = vec![profile(7, 100, 1), profile(8, 50, 0)];
    world.update_step(0, 0, 6_000_000, Some((5_000_000, snap)));
    assert_eq!(world.players.len(), 2);
    assert_eq!(world.players[0].id, 7);
    assert_eq!(world.players[0].x_offset, 132);
    assert_eq!(world.players[1].id, 8);
    assert_eq!(world.players[1].x_offset, 50);

    // A fresher snapshot for one of them replaces its entry in place.
    let snap2 = vec![profile(7, 200, 0)];
    world.update_step(0, 0, 6_100_000, Some((6_100_000, snap2)));
    assert_eq!(world.players.len(), 2);
    assert_eq!(world.players[0].id, 7);
    assert_eq!(world.players[0].x_offset, 200);
    assert_eq!(world.players[1].x_offset, 50);
}

#[test]
fn missing_snapshot_dead_reckons_every_player() {
    let mut world = ClientWorld::new();
    let snap = vec![profile(7, 100, 1), profile(8, 50, -1)];
    world.update_step(0, 0, 1_000_000, Some((1_000_000, snap)));
    world.update_step(0, 500_000, 1_500_000, None);
    assert_eq!(world.players[0].x_offset, 100 + 16);
    assert_eq!(world.players[1].x_offset, 50 - 16);
}

#[test]
fn zero_elapsed_frame_changes_no_position() {
    let mut world = ClientWorld::new();
    let snap = vec![profile(7, 100, 1)];
    world.update_step(0, 0, 1_000_000, Some((1_000_000, snap)));
    for _ in 0..5 {
        world.update_step(0, 0, 1_000_000, None);
    }
    assert_eq!(world.players[0].x_offset, 100);
    assert_eq!(world.x_offset, 0);
}

#[test]
fn wire_profiles_are_clamped_before_use() {
    let mut world = ClientWorld::new();
    let rogue = UserProfile {
        id: 9,
        username: "rogue".to_owned(),
        x_offset: i64::MAX,
        horizontal_input: 1_000,
        last_update_timestamp: None,
    };
    world.update_step(0, 0, 1_000, Some((1_000, vec![rogue])));
    assert_eq!(world.players[0].x_offset, cantina_core::motion::MAX_POSITION);
    assert_eq!(world.players[0].horizontal_input, 1);
}
