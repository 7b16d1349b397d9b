use cantina_core::codec::{decode_request, decode_response, encode_request, encode_response};
use cantina_core::ids::InstallationId;
use cantina_core::protocol::{Inputs, ServerRequest, ServerResponse, UserProfile};

fn id(value: u128) -> InstallationId {
    InstallationId { value }
}

fn profile(account: i64, name: &str) -> UserProfile {
    UserProfile {
        id: account,
        username: name.to_owned(),
        x_offset: -7,
        horizontal_input: 1,
        last_update_timestamp: Some(99),
    }
}

#[test]
fn pong_has_the_documented_bytes() {
    let frame = encode_request(&ServerRequest::Pong { original_timestamp: 1, timestamp: 2 });
    let mut expected = vec![3u8];
    expected.extend_from_slice(&1u64.to_le_bytes());
    expected.extend_from_slice(&2u64.to_le_bytes());
    assert_eq!(frame, expected);
}

#[test]
fn authentication_url_is_a_single_tag_byte() {
    let frame = encode_request(&ServerRequest::AuthenticationUrl);
    assert_eq!(frame, vec![1u8]);
    assert!(matches!(
        decode_request(&frame),
        Some(ServerRequest::AuthenticationUrl)
    ));
}

#[test]
fn every_request_round_trips() {
    let requests = vec![
        ServerRequest::Authenticate { version: "0.0.1".to_owned(), installation_id: None },
        ServerRequest::Authenticate {
            version: "0.0.1".to_owned(),
            installation_id: Some(id(0xDEAD_BEEF)),
        },
        ServerRequest::AuthenticationUrl,
        ServerRequest::Update {
            new_inputs: Some(Inputs { horizontal_movement: -1, interact: true }),
            x_offset: -5,
            timestamp: 123_456,
        },
        ServerRequest::Update { new_inputs: None, x_offset: 0, timestamp: 0 },
        ServerRequest::Pong { original_timestamp: i64::MIN, timestamp: i64::MAX },
    ];
    for request in requests {
        let frame = encode_request(&request);
        let back = decode_request(&frame).expect("own frames decode");
        assert_eq!(format!("{:?}", back), format!("{:?}", request));
    }
}

#[test]
fn every_response_round_trips() {
    let responses = vec![
        ServerResponse::AdoptInstallationId { installation_id: id(u128::MAX) },
        ServerResponse::AuthenticateAtUrl { url: "https://example.test/login".to_owned() },
        ServerResponse::Authenticated { profile: profile(10, "ferris") },
        ServerResponse::Error { message: None },
        ServerResponse::Error { message: Some("boom".to_owned()) },
        ServerResponse::WorldUpdate { timestamp: 7, profiles: vec![] },
        ServerResponse::WorldUpdate {
            timestamp: 7,
            profiles: vec![profile(1, "a"), profile(2, "b")],
        },
        ServerResponse::Ping {
            timestamp: 1,
            average_server_timestamp_delta: -2,
            average_roundtrip: 3,
        },
    ];
    for response in responses {
        let frame = encode_response(&response);
        let back = decode_response(&frame).expect("own frames decode");
        assert_eq!(format!("{:?}", back), format!("{:?}", response));
    }
}

#[test]
fn unicode_usernames_survive_the_wire() {
    let fancy = profile(1, "überspieler \u{1F680}");
    let frame = encode_response(&ServerResponse::Authenticated { profile: fancy });
    match decode_response(&frame) {
        Some(ServerResponse::Authenticated { profile }) => {
            assert_eq!(profile.username, "überspieler \u{1F680}")
        },
        _ => panic!("expected the profile back"),
    }
}

#[test]
fn unknown_tags_are_rejected() {
    assert!(decode_request(&vec![9u8]).is_none());
    assert!(decode_response(&vec![200u8]).is_none());
}

#[test]
fn empty_and_short_frames_are_rejected() {
    assert!(decode_request(&Vec::new()).is_none());
    assert!(decode_response(&Vec::new()).is_none());
    // A pong cut off mid-field.
    assert!(decode_request(&vec![3u8, 1, 2, 3]).is_none());
}

#[test]
fn trailing_bytes_are_rejected() {
    let mut frame = encode_request(&ServerRequest::AuthenticationUrl);
    frame.push(0);
    assert!(decode_request(&frame).is_none());
}

#[test]
fn ill_formed_utf8_is_rejected() {
    // An authenticate frame whose version field claims one byte, 0xFF,
    // which is not UTF-8.
    let mut frame = vec![0u8];
    frame.extend_from_slice(&1u64.to_le_bytes());
    frame.push(0xFF);
    frame.push(0);
    assert!(decode_request(&frame).is_none());
}

#[test]
fn option_field_with_a_bad_tag_is_rejected() {
    let mut frame = vec![0u8];
    frame.extend_from_slice(&0u64.to_le_bytes());
    frame.push(7);
    assert!(decode_request(&frame).is_none());
}
