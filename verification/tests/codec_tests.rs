use callat::codec::{decode_message, encode_message};
use callat::state::Location;
use callat::RemoteRequest;

fn sample_location(uuid: u128) -> Location {
    Location {
        uuid,
        start_date: -12_345,
        end_date: 1_700_000_000,
        owner: "p1.os".to_string(),
        description: "café au 1er étage \u{1F30D}".to_string(),
        latitude: 48_856_600,
        longitude: -2_352_200,
    }
}

#[test]
fn plain_messages_round_trip() {
    for m in [RemoteRequest::Ping, RemoteRequest::FriendRequest, RemoteRequest::FriendResponse] {
        let bytes = encode_message(&m);
        assert_eq!(bytes.len(), 1);
        assert_eq!(decode_message(&bytes), Some(m));
    }
}

#[test]
fn sync_batches_round_trip_in_order() {
    let batch = RemoteRequest::Sync {
        locations: vec![sample_location(1), sample_location(u128::MAX), sample_location(0)],
    };
    let bytes = encode_message(&batch);
    let back = decode_message(&bytes).expect("an encoded message must decode");
    assert_eq!(back, batch);
}

#[test]
fn empty_sync_round_trips() {
    let batch = RemoteRequest::Sync { locations: vec![] };
    let bytes = encode_message(&batch);
    assert_eq!(decode_message(&bytes), Some(batch));
}

#[test]
fn unicode_strings_survive_the_wire() {
    let batch = RemoteRequest::Sync { locations: vec![sample_location(7)] };
    let bytes = encode_message(&batch);
    match decode_message(&bytes) {
        Some(RemoteRequest::Sync { locations }) => {
            assert_eq!(locations[0].description, "café au 1er étage \u{1F30D}");
            assert_eq!(locations[0].owner, "p1.os");
        }
        other => panic!("expected a sync, got {:?}", other),
    }
}

#[test]
fn garbage_does_not_decode() {
    assert_eq!(decode_message(&[]), None);
    assert_eq!(decode_message(&[42]), None); // unknown tag
    assert_eq!(decode_message(&[0, 0]), None); // trailing byte after a ping
    assert_eq!(decode_message(&[3, 1]), None); // truncated count
    assert_eq!(decode_message(&[3, 1, 0, 0, 0, 0, 0, 0, 0]), None); // missing record
}

#[test]
fn trailing_bytes_are_rejected() {
    let mut bytes = encode_message(&RemoteRequest::Sync { locations: vec![sample_location(7)] });
    bytes.push(0);
    assert_eq!(decode_message(&bytes), None);
}

#[test]
fn invalid_utf8_in_a_string_is_rejected() {
    let good = encode_message(&RemoteRequest::Sync { locations: vec![sample_location(7)] });
    // corrupt the last byte of the description, which ends the message
    let mut bad = good.clone();
    let last = bad.len() - 1;
    bad[last] = 0xFF;
    assert_eq!(decode_message(&bad), None);
}

#[test]
fn tags_are_distinct_on_the_wire() {
    let ping = encode_message(&RemoteRequest::Ping);
    let request = encode_message(&RemoteRequest::FriendRequest);
    let response = encode_message(&RemoteRequest::FriendResponse);
    assert_ne!(ping, request);
    assert_ne!(ping, response);
    assert_ne!(request, response);
}
