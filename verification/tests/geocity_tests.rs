use callat::geocity::{City, GranularityProtocol};
use callat::state::{FriendType, Location};

fn city(name: &str, country: &str, lat_micro: i64, lon_micro: i64) -> City {
    City { name: name.to_string(), country: country.to_string(), latitude: lat_micro, longitude: lon_micro }
}

fn paris() -> City {
    city("Paris", "France", 48_856_600, 2_352_200)
}

fn berlin() -> City {
    city("Berlin", "Germany", 52_520_000, 13_405_000)
}

fn tokyo() -> City {
    city("Tokyo", "Japan", 35_676_200, 139_650_300)
}

fn loc(lat_micro: i64, lon_micro: i64) -> Location {
    Location {
        uuid: 7,
        start_date: 100,
        end_date: 200,
        owner: "me.os".to_string(),
        description: "somewhere".to_string(),
        latitude: lat_micro,
        longitude: lon_micro,
    }
}

#[test]
fn fuzz_exact_keeps_coordinates() {
    let gp = GranularityProtocol::new(vec![paris(), berlin(), tokyo()]);
    let l = loc(48_850_000, 2_360_000);
    let fuzzed = gp.fuzz_location(&l, &FriendType::Best);
    assert_eq!(fuzzed, l);
}

#[test]
fn fuzz_city_level_snaps_to_nearest_city() {
    let gp = GranularityProtocol::new(vec![berlin(), paris(), tokyo()]);
    // near Paris but not exactly on it
    let l = loc(48_850_000, 2_360_000);
    let fuzzed = gp.fuzz_location(&l, &FriendType::CloseFriend);
    assert_eq!(fuzzed.latitude, 48_856_600);
    assert_eq!(fuzzed.longitude, 2_352_200);
    // every other field is kept
    assert_eq!(fuzzed.uuid, l.uuid);
    assert_eq!(fuzzed.start_date, l.start_date);
    assert_eq!(fuzzed.end_date, l.end_date);
    assert_eq!(fuzzed.owner, l.owner);
    assert_eq!(fuzzed.description, l.description);
}

#[test]
fn fuzz_country_level_uses_city_fallback() {
    // country-level fuzzing currently rounds to the nearest city as well
    let gp = GranularityProtocol::new(vec![paris(), berlin(), tokyo()]);
    let l = loc(48_850_000, 2_360_000);
    let close = gp.fuzz_location(&l, &FriendType::CloseFriend);
    let coarse = gp.fuzz_location(&l, &FriendType::Acquaintance);
    assert_eq!(close.latitude, coarse.latitude);
    assert_eq!(close.longitude, coarse.longitude);
}

#[test]
fn fuzz_on_empty_catalog_is_identity() {
    let gp = GranularityProtocol::new(Vec::new());
    let l = loc(48_850_000, 2_360_000);
    assert_eq!(gp.fuzz_location(&l, &FriendType::Best), l);
    assert_eq!(gp.fuzz_location(&l, &FriendType::CloseFriend), l);
    assert_eq!(gp.fuzz_location(&l, &FriendType::Acquaintance), l);
}

#[test]
fn closest_city_none_only_on_empty_catalog() {
    let empty = GranularityProtocol::new(Vec::new());
    assert!(empty.closest_city(0, 0).is_none());
    let gp = GranularityProtocol::new(vec![paris()]);
    assert!(gp.closest_city(0, 0).is_some());
}

#[test]
fn closest_city_ignores_bulk_load_order() {
    let q_lon = 10_000_000;
    let q_lat = 50_000_000;
    let order_a = GranularityProtocol::new(vec![paris(), berlin(), tokyo()]);
    let order_b = GranularityProtocol::new(vec![tokyo(), berlin(), paris()]);
    let a = order_a.closest_city(q_lon, q_lat).unwrap();
    let b = order_b.closest_city(q_lon, q_lat).unwrap();
    assert_eq!(a, b);
    assert_eq!(a.name, "Berlin");
}

#[test]
fn fuzz_batch_keeps_order() {
    let gp = GranularityProtocol::new(vec![paris(), berlin()]);
    let near_paris = loc(48_850_000, 2_360_000);
    let mut near_berlin = loc(52_500_000, 13_400_000);
    near_berlin.uuid = 8;
    let fuzzed = gp.fuzz_locations(vec![near_paris, near_berlin], &FriendType::CloseFriend);
    assert_eq!(fuzzed.len(), 2);
    assert_eq!(fuzzed[0].uuid, 7);
    assert_eq!(fuzzed[0].longitude, 2_352_200);
    assert_eq!(fuzzed[1].uuid, 8);
    assert_eq!(fuzzed[1].longitude, 13_405_000);
}
