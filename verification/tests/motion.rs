use cantina_core::motion::{walk_position, MAX_POSITION, WALK_SPEED};
use cantina_core::protocol::UserProfile;

#[test]
fn one_second_walk_covers_walk_speed_units() {
    assert_eq!(walk_position(0, 1, 1_000_000), WALK_SPEED);
    assert_eq!(walk_position(0, -1, 1_000_000), -WALK_SPEED);
    assert_eq!(walk_position(100, 0, 1_000_000), 100);
}

#[test]
fn sub_second_walk_truncates() {
    // Half a second at 32 units per second.
    assert_eq!(walk_position(0, 1, 500_000), 16);
    // Less than one unit of progress rounds down to nothing.
    assert_eq!(walk_position(0, 1, 31_249), 0);
}

#[test]
fn zero_elapsed_moves_nothing_however_often() {
    let mut x = 12_345i64;
    for _ in 0..10 {
        x = walk_position(x, 1, 0);
    }
    assert_eq!(x, 12_345);
    for _ in 0..10 {
        x = walk_position(x, -1, 0);
    }
    assert_eq!(x, 12_345);
}

#[test]
fn position_clamps_at_the_world_edge() {
    assert_eq!(walk_position(MAX_POSITION, 1, 1_000_000), MAX_POSITION);
    assert_eq!(walk_position(-MAX_POSITION, -1, 1_000_000), -MAX_POSITION);
}

#[test]
fn extrapolation_uses_last_known_input() {
    let mut profile = UserProfile {
        id: 1,
        username: "walker".to_owned(),
        x_offset: 64,
        horizontal_input: -1,
        last_update_timestamp: None,
    };
    cantina_core::motion::extrapolate_profile(&mut profile, 2_000_000);
    assert_eq!(profile.x_offset, 64 - 2 * WALK_SPEED);
    cantina_core::motion::extrapolate_profile(&mut profile, 0);
    assert_eq!(profile.x_offset, 64 - 2 * WALK_SPEED);
}
