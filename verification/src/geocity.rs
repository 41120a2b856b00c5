use vstd::prelude::*;

verus! {

use crate::state::{FriendType, Location};

/// Longitudes are microdegrees in [-180 degrees, 180 degrees].
pub open spec fn valid_lon(x: i64) -> bool {
    -180_000_000 <= x <= 180_000_000
}

/// Latitudes are microdegrees in [-90 degrees, 90 degrees].
pub open spec fn valid_lat(x: i64) -> bool {
    -90_000_000 <= x <= 90_000_000
}

/// A location record carries coordinates inside the valid ranges.
pub open spec fn valid_coords(loc: Location) -> bool {
    valid_lon(loc.longitude) && valid_lat(loc.latitude)
}

/// Squared Euclidean distance between two points, treating longitude and
/// latitude as plane coordinates (no geodesic correction).
pub open spec fn dist2(ax: int, ay: int, bx: int, by: int) -> int {
    (ax - bx) * (ax - bx) + (ay - by) * (ay - by)
}

/// A fixed, known place used as a rounding target when fuzzing coordinates.
#[derive(PartialEq, Debug)]
pub struct City {
    pub name: String,
    pub country: String,
    /// Latitude in microdegrees.
    pub latitude: i64,
    /// Longitude in microdegrees.
    pub longitude: i64,
}

impl Clone for City {
    fn clone(&self) -> (r: Self)
        ensures
            r == *self,
    {
        City {
            name: self.name.clone(),
            country: self.country.clone(),
            latitude: self.latitude,
            longitude: self.longitude,
        }
    }
}

/// `c` is a reference point of `cities` at minimal squared Euclidean
/// distance from the query point `(lon, lat)`.
pub open spec fn is_nearest_city(cities: Seq<City>, lon: i64, lat: i64, c: City) -> bool {
    &&& cities.contains(c)
    &&& forall|i: int|
        0 <= i < cities.len() ==> dist2(c.longitude as int, c.latitude as int, lon as int, lat as int)
            <= dist2(
            (#[trigger] cities[i]).longitude as int,
            cities[i].latitude as int,
            lon as int,
            lat as int,
        )
}

/// A nearest-neighbor index over city coordinates. It holds an R-tree from
/// the rstar crate, which the verifier does not look into; the set of points
/// it holds is named by `tree_points`.
#[verifier::external_body]
pub struct CityTree {
    tree: rstar::RTree<[i64; 2]>,
}

/// The set of `(longitude, latitude)` points a `CityTree` holds.
pub uninterp spec fn tree_points(t: CityTree) -> Set<(i64, i64)>;

/// Relies on rstar::RTree::bulk_load: the returned tree holds exactly the
/// given points.
#[verifier::external_body]
fn tree_bulk_load(points: Vec<(i64, i64)>) -> (t: CityTree)
    ensures
        forall|p: (i64, i64)| tree_points(t).contains(p) <==> points@.contains(p),
{
    CityTree { tree: rstar::RTree::bulk_load(points.into_iter().map(|p| [p.0, p.1]).collect()) }
}

/// Relies on rstar::RTree::nearest_neighbor: returns a held point at minimal
/// squared Euclidean distance from the query, and None exactly when the tree
/// is empty. The coordinate bounds keep the distance arithmetic inside `i64`.
#[verifier::external_body]
fn tree_nearest(t: &CityTree, lon: i64, lat: i64) -> (r: Option<(i64, i64)>)
    requires
        valid_lon(lon),
        valid_lat(lat),
        forall|p: (i64, i64)| #[trigger]
            tree_points(*t).contains(p) ==> valid_lon(p.0) && valid_lat(p.1),
    ensures
        r is Some <==> exists|p: (i64, i64)| tree_points(*t).contains(p),
        r is Some ==> tree_points(*t).contains(r->0) && forall|p: (i64, i64)| #[trigger]
            tree_points(*t).contains(p) ==> dist2(
            (r->0).0 as int,
            (r->0).1 as int,
            lon as int,
            lat as int,
        ) <= dist2(p.0 as int, p.1 as int, lon as int, lat as int),
{
    t.tree.nearest_neighbor([lon, lat]).map(|p| (p[0], p[1]))
}

/// The granularity service: a read-only catalog of reference points and a
/// nearest-neighbor index over their coordinates, used to derive fuzzed
/// coordinates for a friend's granularity tier.
pub struct GranularityProtocol {
    pub cities: Vec<City>,
    pub city_tree: CityTree,
}

impl GranularityProtocol {
    /// The index is in step with the catalog: it holds exactly the catalog's
    /// coordinates, and all of them are in range.
    pub open spec fn wf(self) -> bool {
        &&& forall|i: int|
            0 <= i < self.cities@.len() ==> valid_lon(
                (#[trigger] self.cities@[i]).longitude,
            ) && valid_lat(self.cities@[i].latitude)
        &&& forall|i: int|
            0 <= i < self.cities@.len() ==> tree_points(self.city_tree).contains(
                ((#[trigger] self.cities@[i]).longitude, self.cities@[i].latitude),
            )
        &&& forall|p: (i64, i64)| #[trigger]
            tree_points(self.city_tree).contains(p) ==> exists|i: int|
                0 <= i < self.cities@.len() && (#[trigger] self.cities@[i]).longitude == p.0
                    && self.cities@[i].latitude == p.1
    }

    /// Bulk-constructs the nearest-neighbor index over the catalog.
    /// Malformed coordinates must be filtered out by the caller.
    pub fn new(cities: Vec<City>) -> (r: Self)
        requires
            forall|i: int|
                0 <= i < cities@.len() ==> valid_lon((#[trigger] cities@[i]).longitude)
                    && valid_lat(cities@[i].latitude),
        ensures
            r.wf(),
            r.cities == cities,
    {
        let mut points: Vec<(i64, i64)> = Vec::new();
        let n = cities.len();
        let mut i: usize = 0;
        while i < n
            invariant
                n == cities@.len(),
                i <= n,
                points@.len() == i,
                forall|k: int|
                    0 <= k < i ==> #[trigger] points@[k] == (
                        cities@[k].longitude,
                        cities@[k].latitude,
                    ),
            decreases n - i,
        {
            points.push((cities[i].longitude, cities[i].latitude));
            i += 1;
        }
        let tree = tree_bulk_load(points);
        let gp = GranularityProtocol { cities, city_tree: tree };
        proof {
            assert forall|k: int| 0 <= k < gp.cities@.len() implies tree_points(
                gp.city_tree,
            ).contains(((#[trigger] gp.cities@[k]).longitude, gp.cities@[k].latitude)) by {
                assert(points@[k] == (gp.cities@[k].longitude, gp.cities@[k].latitude));
                assert(points@.contains((gp.cities@[k].longitude, gp.cities@[k].latitude)));
            }
            assert forall|p: (i64, i64)| #[trigger] tree_points(gp.city_tree).contains(
                p,
            ) implies exists|k: int|
                0 <= k < gp.cities@.len() && (#[trigger] gp.cities@[k]).longitude == p.0
                    && gp.cities@[k].latitude == p.1 by {
                assert(points@.contains(p));
                let k = choose|k: int| 0 <= k < points@.len() && points@[k] == p;
                assert(gp.cities@[k].longitude == p.0 && gp.cities@[k].latitude == p.1);
            }
        }
        gp
    }

    /// Returns a catalog entry at minimal squared Euclidean distance from the
    /// query point, and None exactly when the catalog is empty.
    #[verifier::loop_isolation(false)]
    pub fn closest_city(&self, longitude: i64, latitude: i64) -> (r: Option<City>)
        requires
            self.wf(),
            valid_lon(longitude),
            valid_lat(latitude),
        ensures
            r is Some <==> self.cities@.len() > 0,
            r is Some ==> is_nearest_city(self.cities@, longitude, latitude, r->0),
    {
        match tree_nearest(&self.city_tree, longitude, latitude) {
            None => {
                proof {
                    if self.cities@.len() > 0 {
                        assert(tree_points(self.city_tree).contains(
                            (self.cities@[0].longitude, self.cities@[0].latitude),
                        ));
                    }
                }
                None
            },
            Some(pt) => {
                let n = self.cities.len();
                let mut i: usize = 0;
                while i < n
                    invariant
                        i <= n,
                        exists|j: int|
                            i <= j < n && (#[trigger] self.cities@[j]).longitude == pt.0
                                && self.cities@[j].latitude == pt.1,
                    decreases n - i,
                {
                    if self.cities[i].longitude == pt.0 && self.cities[i].latitude == pt.1 {
                        let c = self.cities[i].clone();
                        proof {
                            assert(self.cities@.contains(c));
                            assert forall|k: int| 0 <= k < self.cities@.len() implies dist2(
                                c.longitude as int,
                                c.latitude as int,
                                longitude as int,
                                latitude as int,
                            ) <= dist2(
                                (#[trigger] self.cities@[k]).longitude as int,
                                self.cities@[k].latitude as int,
                                longitude as int,
                                latitude as int,
                            ) by {
                                assert(tree_points(self.city_tree).contains(
                                    (self.cities@[k].longitude, self.cities@[k].latitude),
                                ));
                            }
                        }
                        return Some(c);
                    }
                    i += 1;
                }
                proof {
                    assert(false);
                }
                None
            },
        }
    }

    /// Returns a copy of `location` with its coordinates replaced according
    /// to the friend's tier: `Best` keeps them unchanged; `CloseFriend` and
    /// `Acquaintance` replace them with the nearest catalog entry's
    /// coordinates, or keep them unchanged when the catalog is empty.
    /// (`Acquaintance` currently uses the same nearest-city policy as
    /// `CloseFriend`: there is no country centroid catalog.)
    pub fn fuzz_location(&self, location: &Location, friend_type: &FriendType) -> (r: Location)
        requires
            self.wf(),
            valid_coords(*location),
        ensures
            fuzzed_ok(self.cities@, *location, *friend_type, r),
            *friend_type == FriendType::Best ==> r == *location,
            self.cities@.len() == 0 ==> r == *location,
            valid_coords(r),
    {
        match friend_type {
            FriendType::Best => location.clone(),
            _ => {
                match self.closest_city(location.longitude, location.latitude) {
                    Some(city) => {
                        proof {
                            let j = choose|j: int|
                                0 <= j < self.cities@.len() && self.cities@[j] == city;
                            assert(valid_lon(city.longitude) && valid_lat(city.latitude));
                        }
                        Location {
                            uuid: location.uuid,
                            start_date: location.start_date,
                            end_date: location.end_date,
                            owner: location.owner.clone(),
                            description: location.description.clone(),
                            latitude: city.latitude,
                            longitude: city.longitude,
                        }
                    },
                    None => location.clone(),
                }
            },
        }
    }

    /// Applies `fuzz_location` element-wise; order preserved.
    #[verifier::loop_isolation(false)]
    pub fn fuzz_locations(&self, locations: Vec<Location>, friend_type: &FriendType) -> (r: Vec<
        Location,
    >)
        requires
            self.wf(),
            forall|i: int| 0 <= i < locations@.len() ==> valid_coords(#[trigger] locations@[i]),
        ensures
            r@.len() == locations@.len(),
            forall|i: int|
                0 <= i < locations@.len() ==> fuzzed_ok(
                    self.cities@,
                    locations@[i],
                    *friend_type,
                    #[trigger] r@[i],
                ),
            forall|i: int| 0 <= i < r@.len() ==> valid_coords(#[trigger] r@[i]),
    {
        let mut out: Vec<Location> = Vec::new();
        let n = locations.len();
        let mut i: usize = 0;
        while i < n
            invariant
                i <= n,
                out@.len() == i,
                forall|k: int|
                    0 <= k < i ==> fuzzed_ok(
                        self.cities@,
                        locations@[k],
                        *friend_type,
                        #[trigger] out@[k],
                    ),
                forall|k: int| 0 <= k < i ==> valid_coords(#[trigger] out@[k]),
            decreases n - i,
        {
            out.push(self.fuzz_location(&locations[i], friend_type));
            i += 1;
        }
        out
    }
}

/// For a non-empty catalog, the coordinates a `CloseFriend`-tier fuzz
/// returns are the coordinates of a nearest catalog entry. So whenever every
/// nearest entry shares one coordinate pair — no tie between distinct points
/// — they equal the coordinates of any `closest_city` answer `c`. (With a
/// tie between distinct points, either point may be returned.)
pub proof fn lemma_city_fuzz_matches_nearest(cities: Seq<City>, loc: Location, r: Location, c: City)
    requires
        cities.len() > 0,
        fuzzed_ok(cities, loc, FriendType::CloseFriend, r),
        is_nearest_city(cities, loc.longitude, loc.latitude, c),
        forall|c2: City|
            is_nearest_city(cities, loc.longitude, loc.latitude, c2) ==> c2.longitude
                == c.longitude && c2.latitude == c.latitude,
    ensures
        r.longitude == c.longitude,
        r.latitude == c.latitude,
{
    let c3 = choose|c3: City|
        #![all_triggers]
        is_nearest_city(cities, loc.longitude, loc.latitude, c3) && c3.longitude == r.longitude
            && c3.latitude == r.latitude;
    assert(is_nearest_city(cities, loc.longitude, loc.latitude, c3));
}

/// Bulk-load order does not affect the nearest-neighbor answer: for two
/// catalogs holding the same entries, any nearest entry of one lies at the
/// same squared distance as any nearest entry of the other.
pub proof fn lemma_nearest_reorder(
    cs1: Seq<City>,
    cs2: Seq<City>,
    lon: i64,
    lat: i64,
    c1: City,
    c2: City,
)
    requires
        cs1.to_multiset() == cs2.to_multiset(),
        is_nearest_city(cs1, lon, lat, c1),
        is_nearest_city(cs2, lon, lat, c2),
    ensures
        dist2(c1.longitude as int, c1.latitude as int, lon as int, lat as int) == dist2(
            c2.longitude as int,
            c2.latitude as int,
            lon as int,
            lat as int,
        ),
        is_nearest_city(cs2, lon, lat, c1),
        is_nearest_city(cs1, lon, lat, c2),
{
    cs1.to_multiset_ensures();
    cs2.to_multiset_ensures();
    assert(cs1.to_multiset().count(c1) > 0);
    assert(cs2.to_multiset().count(c2) > 0);
    assert(cs2.contains(c1));
    assert(cs1.contains(c2));
    let i1 = choose|i: int| 0 <= i < cs1.len() && cs1[i] == c2;
    let i2 = choose|i: int| 0 <= i < cs2.len() && cs2[i] == c1;
    assert(dist2(c1.longitude as int, c1.latitude as int, lon as int, lat as int) <= dist2(
        cs1[i1].longitude as int,
        cs1[i1].latitude as int,
        lon as int,
        lat as int,
    ));
    assert(dist2(c2.longitude as int, c2.latitude as int, lon as int, lat as int) <= dist2(
        cs2[i2].longitude as int,
        cs2[i2].latitude as int,
        lon as int,
        lat as int,
    ));
    assert forall|j: int| 0 <= j < cs2.len() implies dist2(
        c1.longitude as int,
        c1.latitude as int,
        lon as int,
        lat as int,
    ) <= dist2(
        (#[trigger] cs2[j]).longitude as int,
        cs2[j].latitude as int,
        lon as int,
        lat as int,
    ) by {
        assert(cs2.contains(cs2[j]));
        assert(cs2.to_multiset().count(cs2[j]) > 0);
        assert(cs1.contains(cs2[j]));
        let k = choose|k: int| 0 <= k < cs1.len() && cs1[k] == cs2[j];
        assert(dist2(c1.longitude as int, c1.latitude as int, lon as int, lat as int) <= dist2(
            cs1[k].longitude as int,
            cs1[k].latitude as int,
            lon as int,
            lat as int,
        ));
    }
    assert forall|j: int| 0 <= j < cs1.len() implies dist2(
        c2.longitude as int,
        c2.latitude as int,
        lon as int,
        lat as int,
    ) <= dist2(
        (#[trigger] cs1[j]).longitude as int,
        cs1[j].latitude as int,
        lon as int,
        lat as int,
    ) by {
        assert(cs1.contains(cs1[j]));
        assert(cs1.to_multiset().count(cs1[j]) > 0);
        assert(cs2.contains(cs1[j]));
        let k = choose|k: int| 0 <= k < cs2.len() && cs2[k] == cs1[j];
        assert(dist2(c2.longitude as int, c2.latitude as int, lon as int, lat as int) <= dist2(
            cs2[k].longitude as int,
            cs2[k].latitude as int,
            lon as int,
            lat as int,
        ));
    }
}

/// The determinate half of reorder symmetry: when every nearest entry of one
/// catalog shares one coordinate pair, a nearest entry of a reordered
/// catalog has exactly those coordinates.
pub proof fn lemma_nearest_reorder_unique(
    cs1: Seq<City>,
    cs2: Seq<City>,
    lon: i64,
    lat: i64,
    c1: City,
    c2: City,
)
    requires
        cs1.to_multiset() == cs2.to_multiset(),
        is_nearest_city(cs1, lon, lat, c1),
        is_nearest_city(cs2, lon, lat, c2),
        forall|c: City|
            is_nearest_city(cs1, lon, lat, c) ==> c.longitude == c1.longitude && c.latitude
                == c1.latitude,
    ensures
        c2.longitude == c1.longitude,
        c2.latitude == c1.latitude,
{
    lemma_nearest_reorder(cs1, cs2, lon, lat, c1, c2);
    assert(is_nearest_city(cs1, lon, lat, c2));
}

/// The fuzzed record `r` keeps every field of `loc` except possibly the
/// coordinates, which follow the tier: unchanged for `Best`; for the other
/// tiers, the coordinates of a nearest catalog entry, or unchanged when the
/// catalog is empty.
pub open spec fn fuzzed_ok(cities: Seq<City>, loc: Location, ft: FriendType, r: Location) -> bool {
    &&& r.uuid == loc.uuid
    &&& r.start_date == loc.start_date
    &&& r.end_date == loc.end_date
    &&& r.owner == loc.owner
    &&& r.description == loc.description
    &&& match ft {
        FriendType::Best => r.longitude == loc.longitude && r.latitude == loc.latitude,
        _ => {
            if cities.len() == 0 {
                r.longitude == loc.longitude && r.latitude == loc.latitude
            } else {
                exists|c: City|
                    #![all_triggers]
                    is_nearest_city(cities, loc.longitude, loc.latitude, c) && c.longitude
                        == r.longitude && c.latitude == r.latitude
            }
        },
    }
}

} // verus!
