use callat::geocity::City;
use callat::state::{
    parse_friend_type, friend_type_name, round_to_day, round_to_week, FriendType, Location, State,
};
use callat::{LocationError, LocationResponse, RemoteRequest, StateError};

fn paris() -> City {
    City {
        name: "Paris".to_string(),
        country: "France".to_string(),
        latitude: 48_856_600,
        longitude: 2_352_200,
    }
}

fn berlin() -> City {
    City {
        name: "Berlin".to_string(),
        country: "Germany".to_string(),
        latitude: 52_520_000,
        longitude: 13_405_000,
    }
}

fn fresh_state() -> State {
    State::new("p1.os".to_string(), vec![paris(), berlin()])
}

fn loc(uuid: u128, owner: &str, lat_micro: i64, lon_micro: i64) -> Location {
    Location {
        uuid,
        start_date: 1_700_000_000,
        end_date: 1_700_086_400,
        owner: owner.to_string(),
        description: "a stay".to_string(),
        latitude: lat_micro,
        longitude: lon_micro,
    }
}

#[test]
fn request_from_stranger_stays_pending_incoming() {
    let mut s = fresh_state();
    let reply = s.handle_friend_request(&"alice.os".to_string(), 10);
    assert!(reply.is_none());
    assert_eq!(s.list_friends().len(), 0);
    let incoming = s.list_pending(false);
    assert_eq!(incoming.len(), 1);
    assert_eq!(incoming[0].node_id, "alice.os");
    // an unconfirmed request defaults to the least-trusting tier
    assert_eq!(incoming[0].friend_type, FriendType::Acquaintance);
    assert_eq!(s.list_pending(true).len(), 0);
}

#[test]
fn mutual_requests_auto_resolve() {
    let mut s = fresh_state();
    let sent = s.send_friend_request("alice.os".to_string(), FriendType::Best, 10);
    assert!(sent.is_some());
    let sent = sent.unwrap();
    assert_eq!(sent.target, "alice.os");
    assert_eq!(sent.body, RemoteRequest::FriendRequest);

    let reply = s.handle_friend_request(&"alice.os".to_string(), 20);
    let reply = reply.expect("mutual request must be answered");
    assert_eq!(reply.target, "alice.os");
    assert_eq!(reply.body, RemoteRequest::FriendResponse);

    let friends = s.list_friends();
    assert_eq!(friends.len(), 1);
    assert_eq!(friends[0].node_id, "alice.os");
    // the tier declared at request time is kept
    assert_eq!(friends[0].friend_type, FriendType::Best);
    assert_eq!(s.list_pending(true).len(), 0);
    assert_eq!(s.list_pending(false).len(), 0);
}

#[test]
fn duplicate_outgoing_request_is_a_no_op() {
    let mut s = fresh_state();
    assert!(s.send_friend_request("alice.os".to_string(), FriendType::Best, 10).is_some());
    assert!(s.send_friend_request("alice.os".to_string(), FriendType::Acquaintance, 11).is_none());
    assert_eq!(s.list_pending(true).len(), 1);
    assert_eq!(s.list_pending(true)[0].friend_type, FriendType::Best);
}

#[test]
fn accept_on_outgoing_request_is_invalid_transition() {
    let mut s = fresh_state();
    s.send_friend_request("alice.os".to_string(), FriendType::Best, 10);
    let r = s.accept_friend_request("alice.os".to_string(), FriendType::CloseFriend, 20);
    assert_eq!(r, Err(StateError::InvalidTransition));
    // the state is unchanged
    assert_eq!(s.list_friends().len(), 0);
    assert_eq!(s.list_pending(true).len(), 1);
    assert_eq!(s.list_pending(true)[0].node_id, "alice.os");
}

#[test]
fn accept_on_incoming_request_makes_a_friend() {
    let mut s = fresh_state();
    s.handle_friend_request(&"alice.os".to_string(), 10);
    let r = s.accept_friend_request("alice.os".to_string(), FriendType::CloseFriend, 20);
    let msg = r.expect("accept of an incoming request must succeed");
    assert_eq!(msg.target, "alice.os");
    assert_eq!(msg.body, RemoteRequest::FriendResponse);
    let friends = s.list_friends();
    assert_eq!(friends.len(), 1);
    assert_eq!(friends[0].friend_type, FriendType::CloseFriend);
    assert_eq!(friends[0].last_pinged, 20);
    assert_eq!(s.list_pending(false).len(), 0);
}

#[test]
fn accept_without_pending_request_is_not_found() {
    let mut s = fresh_state();
    let r = s.accept_friend_request("alice.os".to_string(), FriendType::Best, 10);
    assert_eq!(r, Err(StateError::NotFound));
}

#[test]
fn reject_without_pending_request_is_not_found() {
    let mut s = fresh_state();
    assert_eq!(s.reject_friend_request(&"alice.os".to_string()), Err(StateError::NotFound));
}

#[test]
fn reject_removes_the_pending_request() {
    let mut s = fresh_state();
    s.handle_friend_request(&"alice.os".to_string(), 10);
    assert_eq!(s.reject_friend_request(&"alice.os".to_string()), Ok(()));
    assert_eq!(s.list_pending(false).len(), 0);
}

#[test]
fn cancel_is_a_no_op_without_pending_request() {
    let mut s = fresh_state();
    s.cancel_friend_request(&"alice.os".to_string());
    s.send_friend_request("alice.os".to_string(), FriendType::Best, 10);
    s.cancel_friend_request(&"alice.os".to_string());
    assert_eq!(s.list_pending(true).len(), 0);
}

#[test]
fn friend_response_completes_outgoing_request() {
    let mut s = fresh_state();
    s.send_friend_request("alice.os".to_string(), FriendType::CloseFriend, 10);
    s.handle_friend_response(&"alice.os".to_string(), 30);
    let friends = s.list_friends();
    assert_eq!(friends.len(), 1);
    assert_eq!(friends[0].node_id, "alice.os");
    assert_eq!(friends[0].friend_type, FriendType::CloseFriend);
    assert_eq!(friends[0].last_pinged, 30);
    assert_eq!(s.list_pending(true).len(), 0);
}

#[test]
fn friend_response_without_outgoing_request_is_ignored() {
    let mut s = fresh_state();
    s.handle_friend_request(&"alice.os".to_string(), 10); // incoming only
    s.handle_friend_response(&"alice.os".to_string(), 30);
    assert_eq!(s.list_friends().len(), 0);
    assert_eq!(s.list_pending(false).len(), 1);
}

#[test]
fn remove_friend_purges_lists_and_map() {
    let mut s = fresh_state();
    s.handle_friend_request(&"alice.os".to_string(), 10);
    s.accept_friend_request("alice.os".to_string(), FriendType::Best, 20).unwrap();
    s.add_to_custom_list("climbers".to_string(), "alice.os".to_string());
    s.add_to_custom_list("climbers".to_string(), "bob.os".to_string());
    s.add_to_custom_list("neighbors".to_string(), "alice.os".to_string());

    s.remove_friend(&"alice.os".to_string());

    assert_eq!(s.list_friends().len(), 0);
    assert_eq!(s.get_friend(&"alice.os".to_string()), None);
    assert_eq!(s.get_custom_list(&"climbers".to_string()), Some(vec!["bob.os".to_string()]));
    assert_eq!(s.get_custom_list(&"neighbors".to_string()), Some(vec![]));
    // a subsequent targeted ping treats the peer as a stranger
    assert!(s.ping_friend(&"alice.os".to_string(), 40).is_none());
    // the untargeted ping still goes out but updates nothing
    let msg = s.ping_node("alice.os".to_string(), 40);
    assert_eq!(msg.body, RemoteRequest::Ping);
    assert_eq!(s.list_friends().len(), 0);
}

#[test]
fn ping_friend_updates_last_pinged() {
    let mut s = fresh_state();
    s.handle_friend_request(&"alice.os".to_string(), 10);
    s.accept_friend_request("alice.os".to_string(), FriendType::Best, 20).unwrap();
    let msg = s.ping_friend(&"alice.os".to_string(), 99).unwrap();
    assert_eq!(msg.target, "alice.os");
    assert_eq!(msg.body, RemoteRequest::Ping);
    assert_eq!(s.get_friend(&"alice.os".to_string()).unwrap().last_pinged, 99);
}

#[test]
fn add_location_broadcasts_fuzzed_copies() {
    let mut s = fresh_state();
    // p2 sees city-level data, p3 sees exact data
    s.handle_friend_request(&"p2.os".to_string(), 10);
    s.accept_friend_request("p2.os".to_string(), FriendType::CloseFriend, 20).unwrap();
    s.handle_friend_request(&"p3.os".to_string(), 10);
    s.accept_friend_request("p3.os".to_string(), FriendType::Best, 20).unwrap();

    // near Paris but not exactly on it
    let l = loc(42, "p1.os", 48_850_000, 2_360_000);
    let msgs = s.add_location(l.clone()).expect("insert of a new id must succeed");
    assert_eq!(msgs.len(), 2);

    assert_eq!(msgs[0].target, "p2.os");
    match &msgs[0].body {
        RemoteRequest::Sync { locations } => {
            assert_eq!(locations.len(), 1);
            // the sync carries the catalog's exact Paris coordinates
            assert_eq!(locations[0].latitude, 48_856_600);
            assert_eq!(locations[0].longitude, 2_352_200);
            assert_eq!(locations[0].uuid, 42);
        }
        other => panic!("expected a sync, got {:?}", other),
    }

    assert_eq!(msgs[1].target, "p3.os");
    match &msgs[1].body {
        RemoteRequest::Sync { locations } => {
            assert_eq!(locations.len(), 1);
            assert_eq!(locations[0], l);
        }
        other => panic!("expected a sync, got {:?}", other),
    }
}

#[test]
fn add_location_with_exact_catalog_coordinates() {
    let mut s = fresh_state();
    s.handle_friend_request(&"p2.os".to_string(), 10);
    s.accept_friend_request("p2.os".to_string(), FriendType::CloseFriend, 20).unwrap();
    let l = loc(42, "p1.os", 48_856_600, 2_352_200); // exactly Paris
    let msgs = s.add_location(l).unwrap();
    match &msgs[0].body {
        RemoteRequest::Sync { locations } => {
            assert_eq!(locations[0].latitude, 48_856_600);
            assert_eq!(locations[0].longitude, 2_352_200);
        }
        other => panic!("expected a sync, got {:?}", other),
    }
}

#[test]
fn add_location_with_duplicate_id_is_a_storage_failure() {
    let mut s = fresh_state();
    s.add_location(loc(42, "p1.os", 0, 0)).unwrap();
    let r = s.add_location(loc(42, "p1.os", 1, 1));
    assert_eq!(r, Err(StateError::StorageFailure));
    assert_eq!(s.get_all_locations().len(), 1);
}

#[test]
fn create_or_update_upserts_and_broadcasts() {
    let mut s = fresh_state();
    s.handle_friend_request(&"p2.os".to_string(), 10);
    s.accept_friend_request("p2.os".to_string(), FriendType::Best, 20).unwrap();

    // first write inserts and fans out
    let msgs = s.create_or_update_location(loc(42, "p1.os", 1, 2));
    assert_eq!(msgs.len(), 1);
    assert_eq!(msgs[0].target, "p2.os");
    assert_eq!(s.get_all_locations().len(), 1);

    // second write with the same id overwrites and fans out again
    let mut moved = loc(42, "p1.os", 3, 4);
    moved.description = "moved".to_string();
    let msgs = s.create_or_update_location(moved.clone());
    assert_eq!(msgs.len(), 1);
    match &msgs[0].body {
        RemoteRequest::Sync { locations } => assert_eq!(locations[0], moved),
        other => panic!("expected a sync, got {:?}", other),
    }
    assert_eq!(s.get_all_locations().len(), 1);
    assert_eq!(s.get_location(42), Some(moved));
}

#[test]
fn update_location_requires_a_known_id() {
    let mut s = fresh_state();
    assert_eq!(s.update_location(loc(42, "p1.os", 0, 0)), Err(StateError::NotFound));
    s.add_location(loc(42, "p1.os", 0, 0)).unwrap();
    let mut changed = loc(42, "p1.os", 5, 6);
    changed.description = "changed".to_string();
    assert_eq!(s.update_location(changed.clone()), Ok(()));
    assert_eq!(s.get_location(42), Some(changed));
}

#[test]
fn range_and_owner_queries_filter_records() {
    let mut s = fresh_state();
    let mut a = loc(1, "p1.os", 0, 0);
    a.start_date = 100;
    a.end_date = 200;
    let mut b = loc(2, "p2.os", 0, 0);
    b.start_date = 300;
    b.end_date = 400;
    s.add_location(a.clone()).unwrap();
    s.add_location(b.clone()).unwrap();

    let hits = s.get_locations_in_range(150, 250);
    assert_eq!(hits, vec![a.clone()]);
    let hits = s.get_locations_in_range(0, 1000);
    assert_eq!(hits.len(), 2);
    let hits = s.get_locations_in_range(201, 299);
    assert_eq!(hits.len(), 0);

    assert_eq!(s.get_locations_by_owner(&"p2.os".to_string()), vec![b]);
    assert_eq!(s.get_locations_by_owner(&"nobody.os".to_string()).len(), 0);
}

#[test]
fn handle_ping_discloses_nothing_to_strangers() {
    let mut s = fresh_state();
    s.add_location(loc(1, "p1.os", 48_850_000, 2_360_000)).unwrap();
    assert!(s.handle_ping(&"stranger.os".to_string()).is_none());
}

#[test]
fn handle_ping_answers_friends_with_fuzzed_sync() {
    let mut s = fresh_state();
    s.handle_friend_request(&"p2.os".to_string(), 10);
    s.accept_friend_request("p2.os".to_string(), FriendType::CloseFriend, 20).unwrap();
    s.add_location(loc(1, "p1.os", 48_850_000, 2_360_000)).unwrap();
    // a record owned by someone else is never offered
    s.handle_sync(&vec![loc(2, "p2.os", 1, 1)]);

    let reply = s.handle_ping(&"p2.os".to_string()).unwrap();
    assert_eq!(reply.target, "p2.os");
    match reply.body {
        RemoteRequest::Sync { locations } => {
            assert_eq!(locations.len(), 1);
            assert_eq!(locations[0].uuid, 1);
            assert_eq!(locations[0].latitude, 48_856_600);
            assert_eq!(locations[0].longitude, 2_352_200);
        }
        other => panic!("expected a sync, got {:?}", other),
    }
}

#[test]
fn handle_sync_upserts_by_id() {
    let mut s = fresh_state();
    let first = loc(9, "p2.os", 1, 1);
    let mut second = loc(9, "p2.os", 2, 2);
    second.description = "moved".to_string();
    assert_eq!(s.handle_sync(&vec![first]), LocationResponse::Accepted);
    assert_eq!(s.handle_sync(&vec![second.clone()]), LocationResponse::Accepted);
    assert_eq!(s.get_all_locations().len(), 1);
    assert_eq!(s.get_location(9), Some(second));
}

#[test]
fn handle_sync_is_idempotent() {
    let mut s = fresh_state();
    let record = loc(9, "p2.os", 1, 1);
    let batch = vec![record.clone()];
    assert_eq!(s.handle_sync(&batch), LocationResponse::Accepted);
    let after_once = s.get_all_locations();
    assert_eq!(s.handle_sync(&batch), LocationResponse::Accepted);
    assert_eq!(s.get_all_locations(), after_once);
    assert_eq!(s.get_location(9), Some(record));
}

#[test]
fn handle_sync_rejects_out_of_range_coordinates() {
    let mut s = fresh_state();
    let bad = loc(9, "p2.os", 95_000_000, 0); // latitude beyond 90 degrees
    assert_eq!(
        s.handle_sync(&vec![bad]),
        LocationResponse::Rejected(LocationError::BadSync)
    );
    assert_eq!(s.get_all_locations().len(), 0);
}

#[test]
fn remote_messages_drive_the_state_machine() {
    let mut p1 = fresh_state();
    let mut p2 = State::new("p2.os".to_string(), vec![paris(), berlin()]);

    // p1 asks p2 for friendship
    let req = p1.send_friend_request("p2.os".to_string(), FriendType::CloseFriend, 10).unwrap();
    let bytes = callat::codec::encode_message(&req.body);
    let (_replies, resp) = p2.handle_remote_message(&"p1.os".to_string(), &bytes, 11);
    assert_eq!(resp, LocationResponse::Accepted);
    assert_eq!(p2.list_pending(false).len(), 1);

    // p2 accepts; the response completes p1's outgoing request
    let answer = p2.accept_friend_request("p1.os".to_string(), FriendType::Best, 12).unwrap();
    let bytes = callat::codec::encode_message(&answer.body);
    let (replies, resp) = p1.handle_remote_message(&"p2.os".to_string(), &bytes, 13);
    assert_eq!(resp, LocationResponse::Accepted);
    assert_eq!(replies.len(), 0);
    assert_eq!(p1.list_friends().len(), 1);
    assert_eq!(p1.list_friends()[0].friend_type, FriendType::CloseFriend);

    // a location created at p1 reaches p2 fuzzed to city level
    let msgs = p1.add_location(loc(42, "p1.os", 48_850_000, 2_360_000)).unwrap();
    assert_eq!(msgs.len(), 1);
    assert_eq!(msgs[0].target, "p2.os");
    let bytes = callat::codec::encode_message(&msgs[0].body);
    let (_replies, resp) = p2.handle_remote_message(&"p1.os".to_string(), &bytes, 14);
    assert_eq!(resp, LocationResponse::Accepted);
    let got = p2.get_location(42).unwrap();
    assert_eq!(got.latitude, 48_856_600);
    assert_eq!(got.longitude, 2_352_200);
}

#[test]
fn undecodable_bytes_are_a_bad_sync() {
    let mut s = fresh_state();
    let (replies, resp) = s.handle_remote_message(&"p2.os".to_string(), &[9, 9, 9], 10);
    assert_eq!(replies.len(), 0);
    assert_eq!(resp, LocationResponse::Rejected(LocationError::BadSync));
}

#[test]
fn tier_names_parse_and_print() {
    assert_eq!(parse_friend_type(&"Best".to_string()), Ok(FriendType::Best));
    assert_eq!(parse_friend_type(&"CloseFriend".to_string()), Ok(FriendType::CloseFriend));
    assert_eq!(parse_friend_type(&"Acquaintance".to_string()), Ok(FriendType::Acquaintance));
    assert_eq!(parse_friend_type(&"Bestie".to_string()), Err(StateError::InvalidArgument));
    for ft in [FriendType::Best, FriendType::CloseFriend, FriendType::Acquaintance] {
        assert_eq!(parse_friend_type(&friend_type_name(&ft)), Ok(ft));
    }
}

#[test]
fn timestamps_round_down_to_day_and_week() {
    // 1970-01-01 00:00 is a Thursday; days round to midnight
    assert_eq!(round_to_day(0), 0);
    assert_eq!(round_to_day(1_000_000), 950_400);
    assert_eq!(round_to_day(-1), -86_400);
    // weeks round to the preceding Monday
    assert_eq!(round_to_week(0), -259_200);
    assert_eq!(round_to_week(1_000_000), 950_400);
    // 2023-11-14 22:13:20 UTC rounds to Monday 2023-11-13 00:00
    assert_eq!(round_to_day(1_700_000_000), 1_699_920_000);
    assert_eq!(round_to_week(1_700_000_000), 1_699_833_600);
}
