use cantina_core::clock::{ClockStats, CLOCK_WINDOW, MAX_TIMESTAMP};
use cantina_core::protocol::ServerResponse;
use cantina_core::session::handle_pong;

#[test]
fn no_samples_average_to_zero() {
    let clock = ClockStats::new();
    assert_eq!(clock.average_roundtrip(), 0);
    assert_eq!(clock.average_delta(), 0);
}

#[test]
fn steady_samples_converge_to_the_sample() {
    let mut clock = ClockStats::new();
    for k in 0..40i64 {
        let sent = k * 1_000_000;
        // The client clock runs 500 ahead of the exchange midpoint each
        // time, so the server-minus-client delta settles at -500.
        clock.record_pong(sent, sent + 1_000 + 500, sent + 2_000);
    }
    assert_eq!(clock.average_roundtrip(), 2_000);
    assert_eq!(clock.average_delta(), -500);
}

#[test]
fn mixed_samples_average_exactly() {
    let mut clock = ClockStats::new();
    clock.record_pong(0, 50, 100);
    clock.record_pong(1_000, 1_100, 1_300);
    // Round trips 100 and 300; deltas 0 and +50 (the client read 1_100
    // when the server's midpoint was 1_150).
    assert_eq!(clock.average_roundtrip(), 200);
    assert_eq!(clock.average_delta(), 25);
}

#[test]
fn window_drops_the_oldest_sample() {
    let mut clock = ClockStats::new();
    // One sample with round trip 1_000_000, then a full window of 2_000s.
    clock.record_pong(0, 0, 1_000_000);
    for k in 0..CLOCK_WINDOW as i64 {
        let sent = 2_000_000 + k * 10_000;
        clock.record_pong(sent, sent, sent + 2_000);
    }
    assert_eq!(clock.average_roundtrip(), 2_000);
}

#[test]
fn average_never_exceeds_the_largest_sample() {
    let mut clock = ClockStats::new();
    clock.record_pong(0, 0, 10);
    clock.record_pong(100, 100, 400);
    clock.record_pong(1_000, 1_000, 1_020);
    let avg = clock.average_roundtrip();
    assert!(avg <= 300);
    assert!(avg >= 10);
}

#[test]
fn pong_with_implausible_timestamps_is_dropped() {
    let mut clock = ClockStats::new();
    assert!(!handle_pong(&mut clock, 500, 0, 100));
    assert!(!handle_pong(&mut clock, -1, 0, 100));
    assert!(!handle_pong(&mut clock, 0, MAX_TIMESTAMP + 1, 100));
    assert_eq!(clock.average_roundtrip(), 0);
    assert!(handle_pong(&mut clock, 0, 50, 100));
    assert_eq!(clock.average_roundtrip(), 100);
}

#[test]
fn ping_message_carries_the_averages() {
    let mut clock = ClockStats::new();
    clock.record_pong(0, 50, 100);
    match clock.ping_message(7_777) {
        ServerResponse::Ping { timestamp, average_server_timestamp_delta, average_roundtrip } => {
            assert_eq!(timestamp, 7_777);
            assert_eq!(average_roundtrip, 100);
            assert_eq!(average_server_timestamp_delta, 0);
        },
        _ => panic!("expected a ping"),
    }
}
