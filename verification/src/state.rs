use vstd::prelude::*;

verus! {

use crate::geocity::{valid_coords, City, GranularityProtocol};
use crate::{OutboundMessage, RemoteRequest, StateError};

/// How precisely data is shared with a friend, from most to least precise.
/// `Best` shares exact coordinates and times, `CloseFriend` rounds the
/// coordinates to the nearest city and times to the day, `Acquaintance`
/// rounds times to the week and coordinates to country level (for which the
/// current policy is the same nearest-city rounding, as no country centroid
/// catalog exists).
#[derive(Clone, Copy, PartialEq, Eq, Structural, Debug)]
pub enum FriendType {
    Best,
    CloseFriend,
    Acquaintance,
}

/// A personal location record: a place (in microdegrees of latitude and
/// longitude) together with the time range spent there. Identified by `uuid`
/// and owned by exactly one peer.
#[derive(PartialEq, Debug)]
pub struct Location {
    pub uuid: u128,
    pub start_date: i64,
    pub end_date: i64,
    pub owner: String,
    pub description: String,
    /// Latitude in microdegrees (degrees times one million).
    pub latitude: i64,
    /// Longitude in microdegrees (degrees times one million).
    pub longitude: i64,
}

/// The mathematical value of a `Location`: strings become character
/// sequences.
pub struct LocationModel {
    pub uuid: u128,
    pub start_date: i64,
    pub end_date: i64,
    pub owner: Seq<char>,
    pub description: Seq<char>,
    pub latitude: i64,
    pub longitude: i64,
}

impl View for Location {
    type V = LocationModel;

    open spec fn view(&self) -> LocationModel {
        LocationModel {
            uuid: self.uuid,
            start_date: self.start_date,
            end_date: self.end_date,
            owner: self.owner@,
            description: self.description@,
            latitude: self.latitude,
            longitude: self.longitude,
        }
    }
}

impl Clone for Location {
    fn clone(&self) -> (r: Self)
        ensures
            r == *self,
    {
        Location {
            uuid: self.uuid,
            start_date: self.start_date,
            end_date: self.end_date,
            owner: self.owner.clone(),
            description: self.description.clone(),
            latitude: self.latitude,
            longitude: self.longitude,
        }
    }
}

/// An accepted relationship with a peer, unique by `node_id`.
#[derive(PartialEq, Debug)]
pub struct Friend {
    pub node_id: String,
    pub friend_type: FriendType,
    /// Unix timestamp of the last ping sent to this friend.
    pub last_pinged: i64,
}

impl Clone for Friend {
    fn clone(&self) -> (r: Self)
        ensures
            r == *self,
    {
        Friend {
            node_id: self.node_id.clone(),
            friend_type: self.friend_type,
            last_pinged: self.last_pinged,
        }
    }
}

/// Some record of `locs` carries the id `uuid`.
pub open spec fn has_uuid(locs: Seq<Location>, uuid: u128) -> bool {
    exists|i: int| 0 <= i < locs.len() && (#[trigger] locs[i]).uuid == uuid
}

/// The record overlaps the queried time range.
pub open spec fn in_range(l: Location, start: i64, end: i64) -> bool {
    l.start_date <= end && l.end_date >= start
}

/// The record belongs to the given peer.
pub open spec fn owned_by(l: Location, owner: Seq<char>) -> bool {
    l.owner@ == owner
}

/// The location store: a keyed collection of location records, with one
/// record per id and all coordinates in range. Durable storage is the
/// caller's concern; the store itself is held in memory.
pub struct DB {
    pub locations: Vec<Location>,
}

impl DB {
    /// Ids are unique and every stored record has coordinates in range.
    pub open spec fn wf(self) -> bool {
        &&& forall|i: int, j: int|
            0 <= i < j < self.locations@.len() ==> (#[trigger] self.locations@[i]).uuid != (
            #[trigger] self.locations@[j]).uuid
        &&& forall|i: int|
            0 <= i < self.locations@.len() ==> valid_coords(#[trigger] self.locations@[i])
    }

    /// An empty store.
    pub fn new() -> (r: Self)
        ensures
            r.wf(),
            r.locations@.len() == 0,
    {
        DB { locations: Vec::new() }
    }

    /// The index of the record with the given id, if any.
    fn find_location(&self, uuid: u128) -> (r: Option<usize>)
        ensures
            r is Some ==> (r->0 as int) < self.locations@.len() && self.locations@[
                r->0 as int
            ].uuid == uuid,
            r is None ==> !has_uuid(self.locations@, uuid),
    {
        let n = self.locations.len();
        let mut i: usize = 0;
        while i < n
            invariant
                n == self.locations@.len(),
                i <= n,
                forall|k: int| 0 <= k < i ==> (#[trigger] self.locations@[k]).uuid != uuid,
            decreases n - i,
        {
            if self.locations[i].uuid == uuid {
                return Some(i);
            }
            i += 1;
        }
        None
    }

    /// Adds a new record; refuses an id that is already present.
    pub fn insert_location(&mut self, location: &Location) -> (r: Result<(), StateError>)
        requires
            old(self).wf(),
            valid_coords(*location),
        ensures
            final(self).wf(),
            has_uuid(old(self).locations@, location.uuid) ==> r == Result::<(), StateError>::Err(
                StateError::StorageFailure,
            ) && *final(self) == *old(self),
            !has_uuid(old(self).locations@, location.uuid) ==> r == Result::<(), StateError>::Ok(())
                && final(self).locations@ == old(self).locations@.push(*location),
    {
        match self.find_location(location.uuid) {
            Some(_) => Err(StateError::StorageFailure),
            None => {
                self.locations.push(location.clone());
                Ok(())
            },
        }
    }

    /// Overwrites the record with the same id; fails if the id is unknown.
    pub fn update_location(&mut self, location: &Location) -> (r: Result<(), StateError>)
        requires
            old(self).wf(),
            valid_coords(*location),
        ensures
            final(self).wf(),
            !has_uuid(old(self).locations@, location.uuid) ==> r == Result::<(), StateError>::Err(
                StateError::NotFound,
            ) && *final(self) == *old(self),
            has_uuid(old(self).locations@, location.uuid) ==> r == Result::<(), StateError>::Ok(())
                && exists|i: int|
                0 <= i < old(self).locations@.len() && (#[trigger] old(self).locations@[i]).uuid
                    == location.uuid && final(self).locations@ == old(self).locations@.update(
                    i,
                    *location,
                ),
    {
        match self.find_location(location.uuid) {
            Some(i) => {
                self.locations.set(i, location.clone());
                Ok(())
            },
            None => Err(StateError::NotFound),
        }
    }

    /// Inserts the record if its id is new, else overwrites the old record:
    /// the idempotent write used for records received from peers.
    pub fn upsert_location(&mut self, location: &Location)
        requires
            old(self).wf(),
            valid_coords(*location),
        ensures
            final(self).wf(),
            !has_uuid(old(self).locations@, location.uuid) ==> final(self).locations@ == old(self).locations@.push(*location),
            has_uuid(old(self).locations@, location.uuid) ==> exists|i: int|
                0 <= i < old(self).locations@.len() && (#[trigger] old(self).locations@[i]).uuid
                    == location.uuid && final(self).locations@ == old(self).locations@.update(
                    i,
                    *location,
                ),
            has_uuid(final(self).locations@, location.uuid),
    {
        match self.find_location(location.uuid) {
            Some(i) => {
                self.locations.set(i, location.clone());
                proof {
                    assert(final(self).locations@[i as int].uuid == location.uuid);
                }
            },
            None => {
                self.locations.push(location.clone());
                proof {
                    let n = old(self).locations@.len() as int;
                    assert(final(self).locations@[n].uuid == location.uuid);
                }
            },
        }
    }

    /// A copy of the record with the given id, if any.
    pub fn get_location(&self, uuid: u128) -> (r: Option<Location>)
        ensures
            r is Some <==> has_uuid(self.locations@, uuid),
            r is Some ==> (r->0).uuid == uuid && self.locations@.contains(r->0),
    {
        match self.find_location(uuid) {
            Some(i) => {
                let l = self.locations[i].clone();
                proof {
                    assert(self.locations@[i as int].uuid == uuid);
                }
                Some(l)
            },
            None => None,
        }
    }

    /// Copies of all stored records, in storage order.
    pub fn get_all_locations(&self) -> (r: Vec<Location>)
        ensures
            r@ == self.locations@,
    {
        let n = self.locations.len();
        let mut out: Vec<Location> = Vec::new();
        let mut i: usize = 0;
        while i < n
            invariant
                n == self.locations@.len(),
                i <= n,
                out@ == self.locations@.take(i as int),
            decreases n - i,
        {
            out.push(self.locations[i].clone());
            proof {
                assert(out@ =~= self.locations@.take(i + 1 as int));
            }
            i += 1;
        }
        proof {
            assert(self.locations@.take(n as int) =~= self.locations@);
        }
        out
    }

    /// Copies of the records whose stay overlaps `[start, end]`, in storage
    /// order.
    pub fn get_locations_in_range(&self, start: i64, end: i64) -> (r: Vec<Location>)
        ensures
            r@ == self.locations@.filter(|l: Location| in_range(l, start, end)),
            forall|i: int| 0 <= i < r@.len() ==> self.locations@.contains(#[trigger] r@[i]),
    {
        let n = self.locations.len();
        let mut out: Vec<Location> = Vec::new();
        let mut i: usize = 0;
        while i < n
            invariant
                n == self.locations@.len(),
                i <= n,
                out@ == self.locations@.take(i as int).filter(
                    |l: Location| in_range(l, start, end),
                ),
                forall|k: int| 0 <= k < out@.len() ==> self.locations@.contains(#[trigger] out@[k]),
            decreases n - i,
        {
            proof {
                lemma_filter_take_step(self.locations@, i as int, |l: Location| in_range(l, start, end));
            }
            let l = &self.locations[i];
            if l.start_date <= end && l.end_date >= start {
                out.push(l.clone());
            }
            i += 1;
        }
        proof {
            assert(self.locations@.take(n as int) =~= self.locations@);
        }
        out
    }

    /// Copies of the records owned by the given peer, in storage order.
    pub fn get_locations_by_owner(&self, owner: &String) -> (r: Vec<Location>)
        ensures
            r@ == self.locations@.filter(|l: Location| owned_by(l, owner@)),
            forall|i: int| 0 <= i < r@.len() ==> self.locations@.contains(#[trigger] r@[i]),
    {
        let n = self.locations.len();
        let mut out: Vec<Location> = Vec::new();
        let mut i: usize = 0;
        while i < n
            invariant
                n == self.locations@.len(),
                i <= n,
                out@ == self.locations@.take(i as int).filter(|l: Location| owned_by(l, owner@)),
                forall|k: int| 0 <= k < out@.len() ==> self.locations@.contains(#[trigger] out@[k]),
            decreases n - i,
        {
            proof {
                lemma_filter_take_step(self.locations@, i as int, |l: Location| owned_by(l, owner@));
            }
            let l = &self.locations[i];
            if l.owner == *owner {
                out.push(l.clone());
            }
            i += 1;
        }
        proof {
            assert(self.locations@.take(n as int) =~= self.locations@);
        }
        out
    }
}

/// The accepted friends, unique by peer id.
pub type Friends = Vec<Friend>;

/// Unresolved friend requests: the proposed relationship, and whether this
/// side initiated it (`true` for a request we sent).
pub type PendingFriendRequests = Vec<(Friend, bool)>;

/// Named lists of peer ids, unique by list name.
pub type CustomLists = Vec<(String, Vec<String>)>;

/// The state of one peer: its own node id, its location store, its
/// relationships, and the granularity service. Handlers mutate it through
/// exclusive references and return the wire messages to send as values.
pub struct State {
    pub our_node: String,
    pub db: DB,
    pub friends: Friends,
    pub pending_friend_requests: PendingFriendRequests,
    pub custom_lists: CustomLists,
    pub geo_protocol: GranularityProtocol,
}

impl State {
    /// `id` is an accepted friend.
    pub open spec fn is_friend(self, id: Seq<char>) -> bool {
        exists|i: int|
            0 <= i < self.friends@.len() && (#[trigger] self.friends@[i]).node_id@ == id
    }

    /// The friend entry for `id` (meaningful only when `is_friend(id)`).
    pub open spec fn friend_at(self, id: Seq<char>) -> Friend {
        self.friends@[choose|i: int|
            0 <= i < self.friends@.len() && (#[trigger] self.friends@[i]).node_id@ == id]
    }

    /// A pending request for `id` exists, in either direction.
    pub open spec fn has_pending(self, id: Seq<char>) -> bool {
        exists|i: int|
            0 <= i < self.pending_friend_requests@.len() && (
            #[trigger] self.pending_friend_requests@[i]).0.node_id@ == id
    }

    /// A pending request for `id` exists with the given direction
    /// (`is_local` is `true` for a request this side sent).
    pub open spec fn has_pending_dir(self, id: Seq<char>, is_local: bool) -> bool {
        exists|i: int|
            0 <= i < self.pending_friend_requests@.len() && (
            #[trigger] self.pending_friend_requests@[i]).0.node_id@ == id
                && self.pending_friend_requests@[i].1 == is_local
    }

    /// Every relationship invariant at once: the store and the granularity
    /// service are well formed; friends are unique by peer id; at most one
    /// pending request exists per peer; no peer is both a friend and
    /// pending; custom list names are unique.
    pub open spec fn wf(self) -> bool {
        &&& self.db.wf()
        &&& self.geo_protocol.wf()
        &&& forall|i: int, j: int|
            0 <= i < j < self.friends@.len() ==> (#[trigger] self.friends@[i]).node_id@ != (
            #[trigger] self.friends@[j]).node_id@
        &&& forall|i: int, j: int|
            0 <= i < j < self.pending_friend_requests@.len() ==> (
            #[trigger] self.pending_friend_requests@[i]).0.node_id@ != (
            #[trigger] self.pending_friend_requests@[j]).0.node_id@
        &&& forall|i: int|
            0 <= i < self.pending_friend_requests@.len() ==> !self.is_friend(
                (#[trigger] self.pending_friend_requests@[i]).0.node_id@,
            )
        &&& forall|i: int, j: int|
            0 <= i < j < self.custom_lists@.len() ==> (#[trigger] self.custom_lists@[i]).0@ != (
            #[trigger] self.custom_lists@[j]).0@
    }

    /// A fresh state for this node over the given reference-point catalog.
    /// Malformed catalog coordinates must be filtered out by the caller.
    pub fn new(our_node: String, cities: Vec<City>) -> (r: Self)
        requires
            forall|i: int|
                0 <= i < cities@.len() ==> crate::geocity::valid_lon(
                    (#[trigger] cities@[i]).longitude,
                ) && crate::geocity::valid_lat(cities@[i].latitude),
        ensures
            r.wf(),
            r.our_node == our_node,
            r.db.locations@.len() == 0,
            r.friends@.len() == 0,
            r.pending_friend_requests@.len() == 0,
            r.custom_lists@.len() == 0,
            r.geo_protocol.cities == cities,
    {
        State {
            our_node,
            db: DB::new(),
            friends: Vec::new(),
            pending_friend_requests: Vec::new(),
            custom_lists: Vec::new(),
            geo_protocol: GranularityProtocol::new(cities),
        }
    }

    /// The index of the friend entry for `node_id`, if any.
    fn find_friend(&self, node_id: &String) -> (r: Option<usize>)
        ensures
            r is Some ==> (r->0 as int) < self.friends@.len() && self.friends@[
                r->0 as int
            ].node_id@ == node_id@,
            r is None ==> !self.is_friend(node_id@),
    {
        let n = self.friends.len();
        let mut i: usize = 0;
        while i < n
            invariant
                n == self.friends@.len(),
                i <= n,
                forall|k: int| 0 <= k < i ==> (#[trigger] self.friends@[k]).node_id@ != node_id@,
            decreases n - i,
        {
            if self.friends[i].node_id == *node_id {
                return Some(i);
            }
            i += 1;
        }
        None
    }

    /// The index of the pending entry for `node_id`, if any.
    fn find_pending(&self, node_id: &String) -> (r: Option<usize>)
        ensures
            r is Some ==> (r->0 as int) < self.pending_friend_requests@.len()
                && self.pending_friend_requests@[r->0 as int].0.node_id@ == node_id@,
            r is None ==> !self.has_pending(node_id@),
    {
        let n = self.pending_friend_requests.len();
        let mut i: usize = 0;
        while i < n
            invariant
                n == self.pending_friend_requests@.len(),
                i <= n,
                forall|k: int|
                    0 <= k < i ==> (#[trigger] self.pending_friend_requests@[k]).0.node_id@
                        != node_id@,
            decreases n - i,
        {
            if self.pending_friend_requests[i].0.node_id == *node_id {
                return Some(i);
            }
            i += 1;
        }
        None
    }

    /// Records `node_id` as an accepted friend at the given tier (inserting
    /// or overwriting its entry) and returns the friend-response message to
    /// send to it.
    pub fn add_friend(&mut self, node_id: String, friend_type: FriendType, now: i64) -> (msg:
        OutboundMessage)
        requires
            old(self).wf(),
            !old(self).has_pending(node_id@),
        ensures
            final(self).wf(),
            msg.target == node_id,
            msg.body == RemoteRequest::FriendResponse,
            final(self).is_friend(node_id@),
            old(self).is_friend(node_id@) ==> exists|i: int|
                0 <= i < old(self).friends@.len() && (#[trigger] old(self).friends@[i]).node_id@
                    == node_id@ && final(self).friends@ == old(self).friends@.update(
                    i,
                    (Friend { node_id, friend_type, last_pinged: now }),
                ),
            !old(self).is_friend(node_id@) ==> final(self).friends@ == old(self).friends@.push(
                (Friend { node_id, friend_type, last_pinged: now }),
            ),
            final(self).db == old(self).db,
            final(self).pending_friend_requests == old(self).pending_friend_requests,
            final(self).custom_lists == old(self).custom_lists,
            final(self).geo_protocol == old(self).geo_protocol,
            final(self).our_node == old(self).our_node,
    {
        let entry = Friend { node_id: node_id.clone(), friend_type, last_pinged: now };
        match self.find_friend(&node_id) {
            Some(i) => {
                self.friends.set(i, entry);
                proof {
                    assert(self.friends@[i as int].node_id@ == node_id@);
                }
            },
            None => {
                self.friends.push(entry);
                proof {
                    assert(self.friends@[self.friends@.len() - 1].node_id@ == node_id@);
                }
            },
        }
        OutboundMessage { target: node_id, body: RemoteRequest::FriendResponse }
    }

    /// Starts an outgoing friend request to `node_id` at the given tier and
    /// returns the friend-request message to send. When any relationship
    /// with `node_id` already exists (friend or pending request in either
    /// direction) this is a no-op that sends nothing: duplicate requests
    /// are deduplicated rather than queued twice.
    pub fn send_friend_request(&mut self, node_id: String, friend_type: FriendType, now: i64) -> (
        msg: Option<OutboundMessage>)
        requires
            old(self).wf(),
        ensures
            final(self).wf(),
            (!old(self).is_friend(node_id@) && !old(self).has_pending(node_id@)) ==> msg is Some
                && (msg->0).target == node_id && (msg->0).body == RemoteRequest::FriendRequest
                && final(self).pending_friend_requests@ == old(self).pending_friend_requests@.push(
                ((Friend { node_id, friend_type, last_pinged: now }), true),
            ) && final(self).friends == old(self).friends && final(self).db == old(self).db
                && final(self).custom_lists == old(self).custom_lists && final(self).geo_protocol
                == old(self).geo_protocol && final(self).our_node == old(self).our_node,
            (old(self).is_friend(node_id@) || old(self).has_pending(node_id@)) ==> msg is None
                && *final(self) == *old(self),
    {
        if self.find_friend(&node_id).is_some() || self.find_pending(&node_id).is_some() {
            return None;
        }
        let entry = Friend { node_id: node_id.clone(), friend_type, last_pinged: now };
        self.pending_friend_requests.push((entry, true));
        Some(OutboundMessage { target: node_id, body: RemoteRequest::FriendRequest })
    }

    /// Records an incoming friend request from `node_id` at the
    /// least-trusting default tier, pending explicit confirmation.
    pub fn add_pending_friend_request(&mut self, node_id: String, now: i64)
        requires
            old(self).wf(),
            !old(self).is_friend(node_id@),
            !old(self).has_pending(node_id@),
        ensures
            final(self).wf(),
            final(self).pending_friend_requests@ == old(self).pending_friend_requests@.push(
                (
                    (Friend {
                        node_id,
                        friend_type: FriendType::Acquaintance,
                        last_pinged: now,
                    }),
                    false,
                ),
            ),
            final(self).friends == old(self).friends,
            final(self).db == old(self).db,
            final(self).custom_lists == old(self).custom_lists,
            final(self).geo_protocol == old(self).geo_protocol,
            final(self).our_node == old(self).our_node,
    {
        let entry = Friend {
            node_id,
            friend_type: FriendType::Acquaintance,
            last_pinged: now,
        };
        self.pending_friend_requests.push((entry, false));
    }

    /// Accepts the pending request from `node_id` at the tier the user
    /// chose: removes the pending entry, records the friend, and returns the
    /// friend-response message to send. Fails with `NotFound` when no
    /// pending request exists for `node_id`, and with `InvalidTransition`
    /// when the pending request was sent by this side (a local request
    /// cannot be locally accepted); the state is unchanged on failure.
    pub fn accept_friend_request(&mut self, node_id: String, friend_type: FriendType, now: i64) -> (
        r: Result<OutboundMessage, StateError>)
        requires
            old(self).wf(),
        ensures
            final(self).wf(),
            !old(self).has_pending(node_id@) ==> r == Result::<
                OutboundMessage,
                StateError,
            >::Err(StateError::NotFound) && *final(self) == *old(self),
            old(self).has_pending_dir(node_id@, true) ==> r == Result::<
                OutboundMessage,
                StateError,
            >::Err(StateError::InvalidTransition) && *final(self) == *old(self),
            old(self).has_pending_dir(node_id@, false) ==> r is Ok && (r->Ok_0).target == node_id
                && (r->Ok_0).body == RemoteRequest::FriendResponse && exists|i: int|
                0 <= i < old(self).pending_friend_requests@.len() && (#[trigger] old(self).pending_friend_requests@[i]).0.node_id@ == node_id@ && !old(self).pending_friend_requests@[i].1 && final(self).pending_friend_requests@ == old(self).pending_friend_requests@.remove(i) && final(self).friends@ == old(self).friends@.push((Friend { node_id, friend_type, last_pinged: now })) && final(self).db == old(self).db && final(self).custom_lists == old(self).custom_lists && final(self).geo_protocol == old(self).geo_protocol && final(self).our_node == old(self).our_node,
    {
        match self.find_pending(&node_id) {
            None => Err(StateError::NotFound),
            Some(i) => {
                if self.pending_friend_requests[i].1 {
                    proof {
                        assert(old(self).has_pending_dir(node_id@, true));
                        assert(!old(self).has_pending_dir(node_id@, false));
                    }
                    Err(StateError::InvalidTransition)
                } else {
                    proof {
                        assert(old(self).has_pending_dir(node_id@, false));
                        assert(!old(self).has_pending_dir(node_id@, true));
                        old(self).pending_friend_requests@.remove_ensures(i as int);
                    }
                    let _entry = self.pending_friend_requests.remove(i);
                    proof {
                        assert forall|k: int|
                            0 <= k < self.pending_friend_requests@.len() implies (
                        #[trigger] self.pending_friend_requests@[k]).0.node_id@ != node_id@ by {
                            if k < i as int {
                                assert(self.pending_friend_requests@[k] == old(self).pending_friend_requests@[k]);
                            } else {
                                assert(self.pending_friend_requests@[k] == old(self).pending_friend_requests@[k + 1]);
                            }
                        }
                    }
                    let msg = self.add_friend(node_id, friend_type, now);
                    Ok(msg)
                }
            },
        }
    }

    /// Removes the pending request for `node_id`, whichever side initiated
    /// it. Fails with `NotFound` when none exists, since that usually
    /// indicates a stale view of the state; the state is then unchanged.
    pub fn reject_friend_request(&mut self, node_id: &String) -> (r: Result<(), StateError>)
        requires
            old(self).wf(),
        ensures
            final(self).wf(),
            !old(self).has_pending(node_id@) ==> r == Result::<(), StateError>::Err(
                StateError::NotFound,
            ) && *final(self) == *old(self),
            old(self).has_pending(node_id@) ==> r == Result::<(), StateError>::Ok(()) && exists|
                i: int,
            |
                0 <= i < old(self).pending_friend_requests@.len() && (#[trigger] old(self).pending_friend_requests@[i]).0.node_id@ == node_id@ && final(self).pending_friend_requests@ == old(self).pending_friend_requests@.remove(i) && final(self).friends == old(self).friends && final(self).db == old(self).db && final(self).custom_lists == old(self).custom_lists && final(self).geo_protocol == old(self).geo_protocol && final(self).our_node == old(self).our_node,
            !final(self).has_pending(node_id@),
    {
        match self.find_pending(node_id) {
            None => Err(StateError::NotFound),
            Some(i) => {
                proof {
                    old(self).pending_friend_requests@.remove_ensures(i as int);
                }
                let _entry = self.pending_friend_requests.remove(i);
                proof {
                    assert forall|k: int| 0 <= k < self.pending_friend_requests@.len() implies (
                    #[trigger] self.pending_friend_requests@[k]).0.node_id@ != node_id@ by {
                        if k < i as int {
                            assert(self.pending_friend_requests@[k] == old(self).pending_friend_requests@[k]);
                        } else {
                            assert(self.pending_friend_requests@[k] == old(self).pending_friend_requests@[k + 1]);
                        }
                    }
                }
                Ok(())
            },
        }
    }

    /// Withdraws our own (or any) pending request for `node_id`; a no-op
    /// when none exists, since a cancellation may race with the other side's
    /// answer.
    pub fn cancel_friend_request(&mut self, node_id: &String)
        requires
            old(self).wf(),
        ensures
            final(self).wf(),
            !old(self).has_pending(node_id@) ==> *final(self) == *old(self),
            old(self).has_pending(node_id@) ==> exists|i: int|
                0 <= i < old(self).pending_friend_requests@.len() && (#[trigger] old(self).pending_friend_requests@[i]).0.node_id@ == node_id@ && final(self).pending_friend_requests@ == old(self).pending_friend_requests@.remove(i) && final(self).friends == old(self).friends && final(self).db == old(self).db && final(self).custom_lists == old(self).custom_lists && final(self).geo_protocol == old(self).geo_protocol && final(self).our_node == old(self).our_node,
            !final(self).has_pending(node_id@),
    {
        let _ignored = self.reject_friend_request(node_id);
    }

    /// Handles an inbound friend request from `node_id`. When we had
    /// already sent `node_id` a request of our own, the two requests are
    /// mutual and resolve at once: `node_id` becomes a friend at the tier we
    /// declared when sending, and the returned friend-response message must
    /// be sent back. Otherwise the request is recorded as pending incoming
    /// at the least-trusting default tier (or ignored when a pending
    /// incoming request or an accepted friendship already exists).
    pub fn handle_friend_request(&mut self, node_id: &String, now: i64) -> (msg: Option<
        OutboundMessage,
    >)
        requires
            old(self).wf(),
        ensures
            final(self).wf(),
            old(self).has_pending_dir(node_id@, true) ==> msg is Some && (msg->0).target@
                == node_id@ && (msg->0).body == RemoteRequest::FriendResponse && exists|i: int|
                0 <= i < old(self).pending_friend_requests@.len() && (#[trigger] old(self).pending_friend_requests@[i]).0.node_id@ == node_id@ && old(self).pending_friend_requests@[i].1 && final(self).pending_friend_requests@ == old(self).pending_friend_requests@.remove(i) && final(self).friends@ == old(self).friends@.push(
                    (Friend {
                        node_id: old(self).pending_friend_requests@[i].0.node_id,
                        friend_type: old(self).pending_friend_requests@[i].0.friend_type,
                        last_pinged: now,
                    }),
                ) && final(self).db == old(self).db && final(self).custom_lists == old(self).custom_lists && final(self).geo_protocol == old(self).geo_protocol && final(self).our_node == old(self).our_node,
            old(self).has_pending_dir(node_id@, false) ==> msg is None && *final(self) == *old(self),
            (!old(self).has_pending(node_id@) && old(self).is_friend(node_id@)) ==> msg is None
                && *final(self) == *old(self),
            (!old(self).has_pending(node_id@) && !old(self).is_friend(node_id@)) ==> msg is None
                && final(self).pending_friend_requests@ == old(self).pending_friend_requests@.push(
                (
                    (Friend {
                        node_id: *node_id,
                        friend_type: FriendType::Acquaintance,
                        last_pinged: now,
                    }),
                    false,
                ),
            ) && final(self).friends == old(self).friends && final(self).db == old(self).db
                && final(self).custom_lists == old(self).custom_lists && final(self).geo_protocol
                == old(self).geo_protocol && final(self).our_node == old(self).our_node,
    {
        match self.find_pending(node_id) {
            Some(i) => {
                if self.pending_friend_requests[i].1 {
                    proof {
                        assert(old(self).has_pending_dir(node_id@, true));
                        old(self).pending_friend_requests@.remove_ensures(i as int);
                    }
                    let (entry, _is_local) = self.pending_friend_requests.remove(i);
                    proof {
                        assert forall|k: int|
                            0 <= k < self.pending_friend_requests@.len() implies (
                        #[trigger] self.pending_friend_requests@[k]).0.node_id@ != node_id@ by {
                            if k < i as int {
                                assert(self.pending_friend_requests@[k] == old(self).pending_friend_requests@[k]);
                            } else {
                                assert(self.pending_friend_requests@[k] == old(self).pending_friend_requests@[k + 1]);
                            }
                        }
                    }
                    let m = self.add_friend(entry.node_id, entry.friend_type, now);
                    Some(m)
                } else {
                    proof {
                        assert(old(self).has_pending_dir(node_id@, false));
                    }
                    None
                }
            },
            None => {
                if self.find_friend(node_id).is_some() {
                    None
                } else {
                    self.add_pending_friend_request(node_id.clone(), now);
                    None
                }
            },
        }
    }

    /// Handles an inbound friend response from `node_id`, confirming a
    /// request we sent: removes our pending outgoing entry and records the
    /// friend at the tier declared at request time. A no-op when no pending
    /// outgoing entry exists, since a response may arrive after a local
    /// cancellation.
    pub fn handle_friend_response(&mut self, node_id: &String, now: i64)
        requires
            old(self).wf(),
        ensures
            final(self).wf(),
            old(self).has_pending_dir(node_id@, true) ==> exists|i: int|
                0 <= i < old(self).pending_friend_requests@.len() && (#[trigger] old(self).pending_friend_requests@[i]).0.node_id@ == node_id@ && old(self).pending_friend_requests@[i].1 && final(self).pending_friend_requests@ == old(self).pending_friend_requests@.remove(i) && final(self).friends@ == old(self).friends@.push(
                    (Friend {
                        node_id: old(self).pending_friend_requests@[i].0.node_id,
                        friend_type: old(self).pending_friend_requests@[i].0.friend_type,
                        last_pinged: now,
                    }),
                ) && final(self).db == old(self).db && final(self).custom_lists == old(self).custom_lists && final(self).geo_protocol == old(self).geo_protocol && final(self).our_node == old(self).our_node,
            !old(self).has_pending_dir(node_id@, true) ==> *final(self) == *old(self),
    {
        match self.find_pending(node_id) {
            Some(i) => {
                if self.pending_friend_requests[i].1 {
                    proof {
                        assert(old(self).has_pending_dir(node_id@, true));
                        old(self).pending_friend_requests@.remove_ensures(i as int);
                    }
                    let (entry, _is_local) = self.pending_friend_requests.remove(i);
                    proof {
                        assert forall|k: int|
                            0 <= k < self.pending_friend_requests@.len() implies (
                        #[trigger] self.pending_friend_requests@[k]).0.node_id@ != node_id@ by {
                            if k < i as int {
                                assert(self.pending_friend_requests@[k] == old(self).pending_friend_requests@[k]);
                            } else {
                                assert(self.pending_friend_requests@[k] == old(self).pending_friend_requests@[k + 1]);
                            }
                        }
                    }
                    let friend = Friend {
                        node_id: entry.node_id,
                        friend_type: entry.friend_type,
                        last_pinged: now,
                    };
                    self.friends.push(friend);
                    proof {
                        assert(self.friends@[self.friends@.len() - 1].node_id@ == node_id@);
                    }
                } else {
                    proof {
                        assert(!old(self).has_pending_dir(node_id@, true));
                    }
                }
            },
            None => {},
        }
    }

    /// Deletes the friend entry for `node_id` and purges `node_id` from
    /// every custom list. A stranger's id is only purged from the lists.
    #[verifier::loop_isolation(false)]
    pub fn remove_friend(&mut self, node_id: &String)
        requires
            old(self).wf(),
        ensures
            final(self).wf(),
            !final(self).is_friend(node_id@),
            old(self).is_friend(node_id@) ==> exists|i: int|
                0 <= i < old(self).friends@.len() && (#[trigger] old(self).friends@[i]).node_id@
                    == node_id@ && final(self).friends@ == old(self).friends@.remove(i),
            !old(self).is_friend(node_id@) ==> final(self).friends == old(self).friends,
            final(self).custom_lists@.len() == old(self).custom_lists@.len(),
            forall|i: int|
                0 <= i < old(self).custom_lists@.len() ==> (
                #[trigger] final(self).custom_lists@[i]).0 == old(self).custom_lists@[i].0 && final(self).custom_lists@[i].1@ == old(self).custom_lists@[i].1@.filter(
                    |m: String| m@ != node_id@,
                ),
            forall|i: int, j: int|
                0 <= i < final(self).custom_lists@.len() && 0 <= j
                    < final(self).custom_lists@[i].1@.len() ==> (
                #[trigger] final(self).custom_lists@[i].1@[j])@ != node_id@,
            final(self).db == old(self).db,
            final(self).pending_friend_requests == old(self).pending_friend_requests,
            final(self).geo_protocol == old(self).geo_protocol,
            final(self).our_node == old(self).our_node,
    {
        match self.find_friend(node_id) {
            Some(i) => {
                proof {
                    old(self).friends@.remove_ensures(i as int);
                }
                let _entry = self.friends.remove(i);
                proof {
                    assert forall|k: int| 0 <= k < self.friends@.len() implies (
                    #[trigger] self.friends@[k]).node_id@ != node_id@ by {
                        if k < i as int {
                            assert(self.friends@[k] == old(self).friends@[k]);
                        } else {
                            assert(self.friends@[k] == old(self).friends@[k + 1]);
                        }
                    }
                    assert forall|k: int|
                        0 <= k < self.pending_friend_requests@.len() implies !self.is_friend(
                        (#[trigger] self.pending_friend_requests@[k]).0.node_id@,
                    ) by {
                        let id = self.pending_friend_requests@[k].0.node_id@;
                        if self.is_friend(id) {
                            let m = choose|m: int|
                                0 <= m < self.friends@.len() && (
                                #[trigger] self.friends@[m]).node_id@ == id;
                            if m < i as int {
                                assert(old(self).friends@[m].node_id@ == id);
                            } else {
                                assert(old(self).friends@[m + 1].node_id@ == id);
                            }
                            assert(old(self).is_friend(id));
                        }
                    }
                }
            },
            None => {},
        }
        let n = self.custom_lists.len();
        let mut new_lists: CustomLists = Vec::new();
        let mut i: usize = 0;
        while i < n
            invariant
                i <= n,
                new_lists@.len() == i,
                forall|k: int|
                    0 <= k < i ==> (#[trigger] new_lists@[k]).0 == self.custom_lists@[k].0
                        && new_lists@[k].1@ == self.custom_lists@[k].1@.filter(
                        |m: String| m@ != node_id@,
                    ),
            decreases n - i,
        {
            let name = self.custom_lists[i].0.clone();
            let m = self.custom_lists[i].1.len();
            let mut kept: Vec<String> = Vec::new();
            let mut j: usize = 0;
            while j < m
                invariant
                    j <= m,
                    i < n,
                    kept@ == self.custom_lists@[i as int].1@.take(j as int).filter(
                        |mm: String| mm@ != node_id@,
                    ),
                decreases m - j,
            {
                proof {
                    lemma_filter_take_step(
                        self.custom_lists@[i as int].1@,
                        j as int,
                        |mm: String| mm@ != node_id@,
                    );
                }
                if !(self.custom_lists[i].1[j] == *node_id) {
                    kept.push(self.custom_lists[i].1[j].clone());
                }
                j += 1;
            }
            proof {
                assert(self.custom_lists@[i as int].1@.take(m as int)
                    =~= self.custom_lists@[i as int].1@);
            }
            new_lists.push((name, kept));
            i += 1;
        }
        self.custom_lists = new_lists;
        proof {
            assert forall|a: int, b: int|
                0 <= a < self.custom_lists@.len() && 0 <= b
                    < self.custom_lists@[a].1@.len() implies (
            #[trigger] self.custom_lists@[a].1@[b])@ != node_id@ by {
                let members = old(self).custom_lists@[a].1@;
                let pred = |mm: String| mm@ != node_id@;
                members.lemma_filter_pred(pred, b);
            }
        }
    }

    /// Refreshes `last_pinged` when `node_id` is a friend, and returns the
    /// ping message to send to `node_id` either way: pinging a stranger is a
    /// plain request for its situational sync, allowed by the protocol, and
    /// changes no state.
    pub fn ping_node(&mut self, node_id: String, now: i64) -> (msg: OutboundMessage)
        requires
            old(self).wf(),
        ensures
            final(self).wf(),
            msg.target == node_id,
            msg.body == RemoteRequest::Ping,
            old(self).is_friend(node_id@) ==> exists|i: int|
                0 <= i < old(self).friends@.len() && (#[trigger] old(self).friends@[i]).node_id@
                    == node_id@ && final(self).friends@ == old(self).friends@.update(
                    i,
                    (Friend {
                        node_id: old(self).friends@[i].node_id,
                        friend_type: old(self).friends@[i].friend_type,
                        last_pinged: now,
                    }),
                ),
            !old(self).is_friend(node_id@) ==> final(self).friends == old(self).friends,
            final(self).db == old(self).db,
            final(self).pending_friend_requests == old(self).pending_friend_requests,
            final(self).custom_lists == old(self).custom_lists,
            final(self).geo_protocol == old(self).geo_protocol,
            final(self).our_node == old(self).our_node,
    {
        match self.find_friend(&node_id) {
            Some(i) => {
                let mut f = self.friends[i].clone();
                f.last_pinged = now;
                self.friends.set(i, f);
                proof {
                    lemma_same_ids_same_friends(old(self).friends@, self.friends@);
                    assert forall|k: int|
                        0 <= k < self.pending_friend_requests@.len() implies !self.is_friend(
                        (#[trigger] self.pending_friend_requests@[k]).0.node_id@,
                    ) by {
                        assert(!old(self).is_friend(self.pending_friend_requests@[k].0.node_id@));
                    }
                }
            },
            None => {},
        }
        OutboundMessage { target: node_id, body: RemoteRequest::Ping }
    }

    /// Refreshes `last_pinged` and returns the ping message to send when
    /// `node_id` is a friend; a stranger gets nothing from this entry point.
    pub fn ping_friend(&mut self, node_id: &String, now: i64) -> (msg: Option<OutboundMessage>)
        requires
            old(self).wf(),
        ensures
            final(self).wf(),
            old(self).is_friend(node_id@) ==> msg is Some && (msg->0).target@ == node_id@ && (
            msg->0).body == RemoteRequest::Ping && exists|i: int|
                0 <= i < old(self).friends@.len() && (#[trigger] old(self).friends@[i]).node_id@
                    == node_id@ && final(self).friends@ == old(self).friends@.update(
                    i,
                    (Friend {
                        node_id: old(self).friends@[i].node_id,
                        friend_type: old(self).friends@[i].friend_type,
                        last_pinged: now,
                    }),
                ) && final(self).db == old(self).db && final(self).pending_friend_requests == old(self).pending_friend_requests && final(self).custom_lists == old(self).custom_lists
                && final(self).geo_protocol == old(self).geo_protocol && final(self).our_node
                == old(self).our_node,
            !old(self).is_friend(node_id@) ==> msg is None && *final(self) == *old(self),
    {
        match self.find_friend(node_id) {
            Some(i) => {
                let mut f = self.friends[i].clone();
                f.last_pinged = now;
                self.friends.set(i, f);
                proof {
                    lemma_same_ids_same_friends(old(self).friends@, self.friends@);
                    assert forall|k: int|
                        0 <= k < self.pending_friend_requests@.len() implies !self.is_friend(
                        (#[trigger] self.pending_friend_requests@[k]).0.node_id@,
                    ) by {
                        assert(!old(self).is_friend(self.pending_friend_requests@[k].0.node_id@));
                    }
                }
                Some(OutboundMessage { target: node_id.clone(), body: RemoteRequest::Ping })
            },
            None => None,
        }
    }

    /// A copy of the friend entry for `node_id`, if any.
    pub fn get_friend(&self, node_id: &String) -> (r: Option<Friend>)
        requires
            self.wf(),
        ensures
            r is Some <==> self.is_friend(node_id@),
            r is Some ==> (r->0).node_id@ == node_id@ && self.friends@.contains(r->0) && r->0
                == self.friend_at(node_id@),
    {
        match self.find_friend(node_id) {
            Some(i) => {
                let f = self.friends[i].clone();
                proof {
                    assert(self.friends@[i as int].node_id@ == node_id@);
                    let c = choose|c: int|
                        0 <= c < self.friends@.len() && (#[trigger] self.friends@[c]).node_id@
                            == node_id@;
                    assert(c == i as int);
                }
                Some(f)
            },
            None => None,
        }
    }
}

impl State {
    /// A custom list with the given name exists.
    pub open spec fn has_list(self, name: Seq<char>) -> bool {
        exists|i: int|
            0 <= i < self.custom_lists@.len() && (#[trigger] self.custom_lists@[i]).0@ == name
    }

    /// The index of the custom list with the given name, if any.
    fn find_custom_list(&self, list_name: &String) -> (r: Option<usize>)
        ensures
            r is Some ==> (r->0 as int) < self.custom_lists@.len() && self.custom_lists@[
                r->0 as int
            ].0@ == list_name@,
            r is None ==> !self.has_list(list_name@),
    {
        let n = self.custom_lists.len();
        let mut i: usize = 0;
        while i < n
            invariant
                n == self.custom_lists@.len(),
                i <= n,
                forall|k: int| 0 <= k < i ==> (#[trigger] self.custom_lists@[k]).0@ != list_name@,
            decreases n - i,
        {
            if self.custom_lists[i].0 == *list_name {
                return Some(i);
            }
            i += 1;
        }
        None
    }

    /// Appends `node_id` to the named custom list, creating the list when it
    /// does not exist yet.
    pub fn add_to_custom_list(&mut self, list_name: String, node_id: String)
        requires
            old(self).wf(),
        ensures
            final(self).wf(),
            old(self).has_list(list_name@) ==> exists|i: int|
                0 <= i < old(self).custom_lists@.len() && (#[trigger] old(self).custom_lists@[i]).0@
                    == list_name@ && final(self).custom_lists@.len() == old(self).custom_lists@.len() && (forall|k: int|
                0 <= k < old(self).custom_lists@.len() && k != i
                    ==> #[trigger] final(self).custom_lists@[k] == old(self).custom_lists@[k])
                && final(self).custom_lists@[i].0 == old(self).custom_lists@[i].0 && final(self).custom_lists@[i].1@ == old(self).custom_lists@[i].1@.push(node_id),
            !old(self).has_list(list_name@) ==> final(self).custom_lists@.len() == old(self).custom_lists@.len() + 1 && final(self).custom_lists@.drop_last() == old(self).custom_lists@ && final(self).custom_lists@.last().0 == list_name && final(self).custom_lists@.last().1@ == seq![node_id],
            final(self).friends == old(self).friends,
            final(self).pending_friend_requests == old(self).pending_friend_requests,
            final(self).db == old(self).db,
            final(self).geo_protocol == old(self).geo_protocol,
            final(self).our_node == old(self).our_node,
    {
        match self.find_custom_list(&list_name) {
            Some(i) => {
                let name = self.custom_lists[i].0.clone();
                let mut members = clone_string_vec(&self.custom_lists[i].1);
                members.push(node_id);
                self.custom_lists.set(i, (name, members));
            },
            None => {
                let mut members: Vec<String> = Vec::new();
                members.push(node_id);
                self.custom_lists.push((list_name, members));
                proof {
                    assert(self.custom_lists@.drop_last() =~= old(self).custom_lists@);
                }
            },
        }
    }

    /// Removes `node_id` from the named custom list; a no-op when the list
    /// does not exist.
    #[verifier::loop_isolation(false)]
    pub fn remove_from_custom_list(&mut self, list_name: &String, node_id: &String)
        requires
            old(self).wf(),
        ensures
            final(self).wf(),
            old(self).has_list(list_name@) ==> exists|i: int|
                0 <= i < old(self).custom_lists@.len() && (#[trigger] old(self).custom_lists@[i]).0@
                    == list_name@ && final(self).custom_lists@.len() == old(self).custom_lists@.len() && (forall|k: int|
                0 <= k < old(self).custom_lists@.len() && k != i
                    ==> #[trigger] final(self).custom_lists@[k] == old(self).custom_lists@[k])
                && final(self).custom_lists@[i].0 == old(self).custom_lists@[i].0 && final(self).custom_lists@[i].1@ == old(self).custom_lists@[i].1@.filter(
                |m: String| m@ != node_id@,
            ) && final(self).friends == old(self).friends && final(self).pending_friend_requests
                == old(self).pending_friend_requests && final(self).db == old(self).db && final(self).geo_protocol == old(self).geo_protocol && final(self).our_node == old(self).our_node,
            !old(self).has_list(list_name@) ==> *final(self) == *old(self),
    {
        match self.find_custom_list(list_name) {
            Some(i) => {
                let name = self.custom_lists[i].0.clone();
                let m = self.custom_lists[i].1.len();
                let mut kept: Vec<String> = Vec::new();
                let mut j: usize = 0;
                while j < m
                    invariant
                        j <= m,
                        i < self.custom_lists@.len(),
                        kept@ == self.custom_lists@[i as int].1@.take(j as int).filter(
                            |mm: String| mm@ != node_id@,
                        ),
                    decreases m - j,
                {
                    proof {
                        lemma_filter_take_step(
                            self.custom_lists@[i as int].1@,
                            j as int,
                            |mm: String| mm@ != node_id@,
                        );
                    }
                    if !(self.custom_lists[i].1[j] == *node_id) {
                        kept.push(self.custom_lists[i].1[j].clone());
                    }
                    j += 1;
                }
                proof {
                    assert(self.custom_lists@[i as int].1@.take(m as int)
                        =~= self.custom_lists@[i as int].1@);
                }
                self.custom_lists.set(i, (name, kept));
            },
            None => {},
        }
    }

    /// A copy of the members of the named custom list, if it exists.
    pub fn get_custom_list(&self, list_name: &String) -> (r: Option<Vec<String>>)
        ensures
            r is Some <==> self.has_list(list_name@),
            r is Some ==> exists|i: int|
                0 <= i < self.custom_lists@.len() && (#[trigger] self.custom_lists@[i]).0@
                    == list_name@ && (r->0)@ == self.custom_lists@[i].1@,
    {
        match self.find_custom_list(list_name) {
            Some(i) => Some(clone_string_vec(&self.custom_lists[i].1)),
            None => None,
        }
    }
}

/// The store after writing one record: overwrite the record with the same
/// id when one exists, else append.
pub open spec fn spec_upsert(locs: Seq<Location>, l: Location) -> Seq<Location> {
    if has_uuid(locs, l.uuid) {
        locs.update(
            choose|i: int| 0 <= i < locs.len() && (#[trigger] locs[i]).uuid == l.uuid,
            l,
        )
    } else {
        locs.push(l)
    }
}

/// The store after writing a whole batch, first record first.
pub open spec fn spec_upsert_all(locs: Seq<Location>, batch: Seq<Location>) -> Seq<Location>
    decreases batch.len(),
{
    if batch.len() == 0 {
        locs
    } else {
        spec_upsert_all(spec_upsert(locs, batch[0]), batch.drop_first())
    }
}

/// Upserting is idempotent: writing the same record twice leaves the store
/// as one write left it.
pub proof fn lemma_upsert_idempotent(locs: Seq<Location>, l: Location)
    requires
        forall|i: int, j: int|
            0 <= i < j < locs.len() ==> (#[trigger] locs[i]).uuid != (#[trigger] locs[j]).uuid,
    ensures
        spec_upsert(spec_upsert(locs, l), l) == spec_upsert(locs, l),
{
    let once = spec_upsert(locs, l);
    if has_uuid(locs, l.uuid) {
        let i = choose|i: int| 0 <= i < locs.len() && (#[trigger] locs[i]).uuid == l.uuid;
        assert(once[i].uuid == l.uuid);
        assert(has_uuid(once, l.uuid));
        let j = choose|j: int| 0 <= j < once.len() && (#[trigger] once[j]).uuid == l.uuid;
        if j != i {
            assert(once[j] == locs[j]);
        }
        assert(spec_upsert(once, l) =~= once);
    } else {
        let n = locs.len() as int;
        assert(once[n].uuid == l.uuid);
        assert(has_uuid(once, l.uuid));
        let j = choose|j: int| 0 <= j < once.len() && (#[trigger] once[j]).uuid == l.uuid;
        if j != n {
            assert(once[j] == locs[j]);
            assert(has_uuid(locs, l.uuid));
        }
        assert(spec_upsert(once, l) =~= once);
    }
}

/// Writing a batch and then one more record is writing the extended batch.
proof fn lemma_upsert_all_push(locs: Seq<Location>, batch: Seq<Location>, l: Location)
    ensures
        spec_upsert_all(locs, batch.push(l)) == spec_upsert(spec_upsert_all(locs, batch), l),
    decreases batch.len(),
{
    reveal_with_fuel(spec_upsert_all, 3);
    if batch.len() == 0 {
        assert(batch.push(l)[0] == l);
        assert(batch.push(l).drop_first() =~= Seq::<Location>::empty());
    } else {
        assert(batch.push(l)[0] == batch[0]);
        assert(batch.push(l).drop_first() =~= batch.drop_first().push(l));
        lemma_upsert_all_push(spec_upsert(locs, batch[0]), batch.drop_first(), l);
    }
}

/// The push broadcast for one record: one sync message per accepted friend,
/// in friend order, each carrying the record fuzzed for that friend's tier.
pub open spec fn broadcast_ok(s: State, location: Location, msgs: Seq<OutboundMessage>) -> bool {
    &&& msgs.len() == s.friends@.len()
    &&& forall|i: int|
        0 <= i < s.friends@.len() ==> (#[trigger] msgs[i]).target == s.friends@[i].node_id
            && crate::is_sync(msgs[i].body) && crate::sync_locations(msgs[i].body).len() == 1
            && crate::geocity::fuzzed_ok(
            s.geo_protocol.cities@,
            location,
            s.friends@[i].friend_type,
            crate::sync_locations(msgs[i].body)[0],
        )
}

impl State {
    /// Builds the broadcast batch for one record: one sync message per
    /// accepted friend, each carrying the record fuzzed for that friend's
    /// tier.
    #[verifier::loop_isolation(false)]
    fn sync_broadcast(&self, location: &Location) -> (msgs: Vec<OutboundMessage>)
        requires
            self.geo_protocol.wf(),
            valid_coords(*location),
        ensures
            broadcast_ok(*self, *location, msgs@),
    {
        let mut msgs: Vec<OutboundMessage> = Vec::new();
        let n = self.friends.len();
        let mut i: usize = 0;
        while i < n
            invariant
                i <= n,
                msgs@.len() == i,
                forall|k: int|
                    0 <= k < i ==> (#[trigger] msgs@[k]).target == self.friends@[k].node_id
                        && crate::is_sync(msgs@[k].body) && crate::sync_locations(
                        msgs@[k].body,
                    ).len() == 1 && crate::geocity::fuzzed_ok(
                        self.geo_protocol.cities@,
                        *location,
                        self.friends@[k].friend_type,
                        crate::sync_locations(msgs@[k].body)[0],
                    ),
            decreases n - i,
        {
            let fuzzed = self.geo_protocol.fuzz_location(location, &self.friends[i].friend_type);
            let mut batch: Vec<Location> = Vec::new();
            batch.push(fuzzed);
            msgs.push(
                OutboundMessage {
                    target: self.friends[i].node_id.clone(),
                    body: RemoteRequest::Sync { locations: batch },
                },
            );
            i += 1;
        }
        msgs
    }

    /// Stores a new location record and returns one sync message per
    /// accepted friend, each carrying the record fuzzed for that friend's
    /// tier: the push broadcast run on every local create. Fails with
    /// `StorageFailure` and changes nothing when the id is already present.
    pub fn add_location(&mut self, location: Location) -> (r: Result<
        Vec<OutboundMessage>,
        StateError,
    >)
        requires
            old(self).wf(),
            valid_coords(location),
        ensures
            final(self).wf(),
            has_uuid(old(self).db.locations@, location.uuid) ==> r is Err && r->Err_0
                == StateError::StorageFailure && *final(self) == *old(self),
            !has_uuid(old(self).db.locations@, location.uuid) ==> r is Ok && final(self).db.locations@ == old(self).db.locations@.push(location) && final(self).friends == old(self).friends && final(self).pending_friend_requests == old(self).pending_friend_requests
                && final(self).custom_lists == old(self).custom_lists && final(self).geo_protocol
                == old(self).geo_protocol && final(self).our_node == old(self).our_node
                && broadcast_ok(*old(self), location, (r->Ok_0)@),
    {
        match self.db.insert_location(&location) {
            Err(e) => Err(e),
            Ok(()) => Ok(self.sync_broadcast(&location)),
        }
    }

    /// Persists the record — inserting a new id, or overwriting the record
    /// that carries it — and returns one sync message per accepted friend,
    /// each carrying the record fuzzed for that friend's tier: the push
    /// broadcast run on every local create or update.
    pub fn create_or_update_location(&mut self, location: Location) -> (msgs: Vec<
        OutboundMessage,
    >)
        requires
            old(self).wf(),
            valid_coords(location),
        ensures
            final(self).wf(),
            final(self).db.locations@ == spec_upsert(old(self).db.locations@, location),
            final(self).friends == old(self).friends,
            final(self).pending_friend_requests == old(self).pending_friend_requests,
            final(self).custom_lists == old(self).custom_lists,
            final(self).geo_protocol == old(self).geo_protocol,
            final(self).our_node == old(self).our_node,
            broadcast_ok(*old(self), location, msgs@),
    {
        let ghost pre = self.db.locations@;
        self.db.upsert_location(&location);
        proof {
            if has_uuid(pre, location.uuid) {
                let k = choose|k: int|
                    0 <= k < pre.len() && (#[trigger] pre[k]).uuid == location.uuid;
                let e = choose|e: int|
                    0 <= e < pre.len() && (#[trigger] pre[e]).uuid == location.uuid
                        && self.db.locations@ == pre.update(e, location);
                assert(self.db.locations@ == spec_upsert(pre, location));
            } else {
                assert(self.db.locations@ == spec_upsert(pre, location));
            }
        }
        self.sync_broadcast(&location)
    }

    /// Overwrites the stored record with the same id; fails with `NotFound`
    /// when the id is unknown. No broadcast: peers catch up on their next
    /// ping.
    pub fn update_location(&mut self, location: Location) -> (r: Result<(), StateError>)
        requires
            old(self).wf(),
            valid_coords(location),
        ensures
            final(self).wf(),
            !has_uuid(old(self).db.locations@, location.uuid) ==> r == Result::<(), StateError>::Err(
                StateError::NotFound,
            ) && *final(self) == *old(self),
            has_uuid(old(self).db.locations@, location.uuid) ==> r == Result::<(), StateError>::Ok(
                (),
            ) && exists|i: int|
                0 <= i < old(self).db.locations@.len() && (#[trigger] old(self).db.locations@[i]).uuid == location.uuid && final(self).db.locations@ == old(self).db.locations@.update(i, location),
            final(self).friends == old(self).friends,
            final(self).pending_friend_requests == old(self).pending_friend_requests,
            final(self).custom_lists == old(self).custom_lists,
            final(self).geo_protocol == old(self).geo_protocol,
            final(self).our_node == old(self).our_node,
    {
        self.db.update_location(&location)
    }

    /// A copy of the stored record with the given id, if any.
    pub fn get_location(&self, uuid: u128) -> (r: Option<Location>)
        ensures
            r is Some <==> has_uuid(self.db.locations@, uuid),
            r is Some ==> (r->0).uuid == uuid && self.db.locations@.contains(r->0),
    {
        self.db.get_location(uuid)
    }

    /// Copies of all stored records, in storage order.
    pub fn get_all_locations(&self) -> (r: Vec<Location>)
        ensures
            r@ == self.db.locations@,
    {
        self.db.get_all_locations()
    }

    /// Copies of the stored records whose stay overlaps `[start, end]`.
    pub fn get_locations_in_range(&self, start: i64, end: i64) -> (r: Vec<Location>)
        ensures
            r@ == self.db.locations@.filter(|l: Location| in_range(l, start, end)),
    {
        self.db.get_locations_in_range(start, end)
    }

    /// Copies of the stored records owned by the given peer.
    pub fn get_locations_by_owner(&self, owner: &String) -> (r: Vec<Location>)
        ensures
            r@ == self.db.locations@.filter(|l: Location| owned_by(l, owner@)),
    {
        self.db.get_locations_by_owner(owner)
    }

    /// Answers an inbound ping. A ping from an accepted friend earns a sync
    /// of every location this node owns, each fuzzed for the sender's tier;
    /// a stranger learns nothing.
    pub fn handle_ping(&self, sender: &String) -> (r: Option<OutboundMessage>)
        requires
            self.wf(),
        ensures
            r is Some <==> self.is_friend(sender@),
            r is Some ==> (r->0).target@ == sender@ && crate::is_sync((r->0).body)
                && crate::sync_locations((r->0).body).len() == owned_locations(*self).len()
                && forall|i: int|
                0 <= i < crate::sync_locations((r->0).body).len() ==> crate::geocity::fuzzed_ok(
                    self.geo_protocol.cities@,
                    owned_locations(*self)[i],
                    self.friend_at(sender@).friend_type,
                    #[trigger] crate::sync_locations((r->0).body)[i],
                ),
    {
        match self.get_friend(sender) {
            None => None,
            Some(f) => {
                let mine = self.db.get_locations_by_owner(&self.our_node);
                proof {
                    assert forall|i: int| 0 <= i < mine@.len() implies valid_coords(
                        #[trigger] mine@[i],
                    ) by {
                        assert(self.db.locations@.contains(mine@[i]));
                        let k = choose|k: int|
                            0 <= k < self.db.locations@.len() && self.db.locations@[k] == mine@[i];
                        assert(valid_coords(self.db.locations@[k]));
                    }
                }
                let fuzzed = self.geo_protocol.fuzz_locations(mine, &f.friend_type);
                Some(
                    OutboundMessage {
                        target: sender.clone(),
                        body: RemoteRequest::Sync { locations: fuzzed },
                    },
                )
            },
        }
    }

    /// Applies an inbound sync batch: upserts every record, first record
    /// first, trusting the sender's fuzzing. A batch holding any record with
    /// out-of-range coordinates is rejected whole as a bad sync, leaving the
    /// store unchanged.
    #[verifier::loop_isolation(false)]
    pub fn handle_sync(&mut self, locations: &Vec<Location>) -> (r: crate::LocationResponse)
        requires
            old(self).wf(),
        ensures
            final(self).wf(),
            (exists|i: int|
                0 <= i < locations@.len() && !valid_coords(#[trigger] locations@[i])) ==> r
                == crate::LocationResponse::Rejected(crate::LocationError::BadSync) && *final(self)
                == *old(self),
            (forall|i: int| 0 <= i < locations@.len() ==> valid_coords(#[trigger] locations@[i]))
                ==> r == crate::LocationResponse::Accepted && final(self).db.locations@
                == spec_upsert_all(old(self).db.locations@, locations@) && final(self).friends
                == old(self).friends && final(self).pending_friend_requests == old(self).pending_friend_requests && final(self).custom_lists == old(self).custom_lists
                && final(self).geo_protocol == old(self).geo_protocol && final(self).our_node
                == old(self).our_node,
    {
        let n = locations.len();
        let mut i: usize = 0;
        while i < n
            invariant
                i <= n,
                forall|k: int| 0 <= k < i ==> valid_coords(#[trigger] locations@[k]),
            decreases n - i,
        {
            let l = &locations[i];
            if !(l.longitude >= -180_000_000 && l.longitude <= 180_000_000 && l.latitude
                >= -90_000_000 && l.latitude <= 90_000_000) {
                return crate::LocationResponse::Rejected(crate::LocationError::BadSync);
            }
            i += 1;
        }
        let mut i: usize = 0;
        while i < n
            invariant
                i <= n,
                self.db.wf(),
                self.db.locations@ == spec_upsert_all(
                    old(self).db.locations@,
                    locations@.take(i as int),
                ),
                self.friends == old(self).friends,
                self.pending_friend_requests == old(self).pending_friend_requests,
                self.custom_lists == old(self).custom_lists,
                self.geo_protocol == old(self).geo_protocol,
                self.our_node == old(self).our_node,
            decreases n - i,
        {
            let ghost pre = self.db.locations@;
            self.db.upsert_location(&locations[i]);
            proof {
                let l = locations@[i as int];
                if has_uuid(pre, l.uuid) {
                    let k = choose|k: int| 0 <= k < pre.len() && (#[trigger] pre[k]).uuid == l.uuid;
                    let e = choose|e: int|
                        0 <= e < pre.len() && (#[trigger] pre[e]).uuid == l.uuid
                            && self.db.locations@ == pre.update(e, l);
                    assert(self.db.locations@ == spec_upsert(pre, l));
                } else {
                    assert(self.db.locations@ == spec_upsert(pre, l));
                }
                lemma_upsert_all_push(old(self).db.locations@, locations@.take(i as int), l);
                assert(locations@.take(i as int).push(l) =~= locations@.take(i + 1 as int));
            }
            i += 1;
        }
        proof {
            assert(locations@.take(n as int) =~= locations@);
        }
        crate::LocationResponse::Accepted
    }
}

/// What one inbound friend request from `node_id` does, exactly as
/// `State::handle_friend_request` promises it.
pub open spec fn friend_request_effect(
    pre: State,
    post: State,
    node_id: String,
    now: i64,
    msgs: Seq<OutboundMessage>,
) -> bool {
    &&& (pre.has_pending_dir(node_id@, true) ==> msgs.len() == 1 && msgs[0].target@ == node_id@
        && msgs[0].body == RemoteRequest::FriendResponse && exists|i: int|
        0 <= i < pre.pending_friend_requests@.len() && (
        #[trigger] pre.pending_friend_requests@[i]).0.node_id@ == node_id@
            && pre.pending_friend_requests@[i].1 && post.pending_friend_requests@
            == pre.pending_friend_requests@.remove(i) && post.friends@ == pre.friends@.push(
            (Friend {
                node_id: pre.pending_friend_requests@[i].0.node_id,
                friend_type: pre.pending_friend_requests@[i].0.friend_type,
                last_pinged: now,
            }),
        ) && post.db == pre.db && post.custom_lists == pre.custom_lists && post.geo_protocol
            == pre.geo_protocol && post.our_node == pre.our_node)
    &&& (pre.has_pending_dir(node_id@, false) ==> msgs.len() == 0 && post == pre)
    &&& ((!pre.has_pending(node_id@) && pre.is_friend(node_id@)) ==> msgs.len() == 0 && post
        == pre)
    &&& ((!pre.has_pending(node_id@) && !pre.is_friend(node_id@)) ==> msgs.len() == 0
        && post.pending_friend_requests@ == pre.pending_friend_requests@.push(
        ((Friend { node_id: node_id, friend_type: FriendType::Acquaintance, last_pinged: now }),
        false),
    ) && post.friends == pre.friends && post.db == pre.db && post.custom_lists == pre.custom_lists
        && post.geo_protocol == pre.geo_protocol && post.our_node == pre.our_node)
}

/// What one inbound friend response from `node_id` does, exactly as
/// `State::handle_friend_response` promises it.
pub open spec fn friend_response_effect(pre: State, post: State, node_id: String, now: i64) -> bool {
    &&& (pre.has_pending_dir(node_id@, true) ==> exists|i: int|
        0 <= i < pre.pending_friend_requests@.len() && (
        #[trigger] pre.pending_friend_requests@[i]).0.node_id@ == node_id@
            && pre.pending_friend_requests@[i].1 && post.pending_friend_requests@
            == pre.pending_friend_requests@.remove(i) && post.friends@ == pre.friends@.push(
            (Friend {
                node_id: pre.pending_friend_requests@[i].0.node_id,
                friend_type: pre.pending_friend_requests@[i].0.friend_type,
                last_pinged: now,
            }),
        ) && post.db == pre.db && post.custom_lists == pre.custom_lists && post.geo_protocol
            == pre.geo_protocol && post.our_node == pre.our_node)
    &&& (!pre.has_pending_dir(node_id@, true) ==> post == pre)
}

/// The records this node owns itself.
pub open spec fn owned_locations(s: State) -> Seq<Location> {
    s.db.locations@.filter(|l: Location| owned_by(l, s.our_node@))
}

/// The reply a ping from `sender` earns, exactly as `State::handle_ping`
/// promises it: a friend gets one sync of all owned records, each fuzzed for
/// the sender's tier; a stranger gets nothing.
pub open spec fn ping_reply_ok(s: State, sender: Seq<char>, msgs: Seq<OutboundMessage>) -> bool {
    &&& (!s.is_friend(sender) ==> msgs.len() == 0)
    &&& (s.is_friend(sender) ==> msgs.len() == 1 && msgs[0].target@ == sender && crate::is_sync(
        msgs[0].body,
    ) && crate::sync_locations(msgs[0].body).len() == owned_locations(s).len() && forall|i: int|
        0 <= i < crate::sync_locations(msgs[0].body).len() ==> crate::geocity::fuzzed_ok(
            s.geo_protocol.cities@,
            owned_locations(s)[i],
            s.friend_at(sender).friend_type,
            #[trigger] crate::sync_locations(msgs[0].body)[i],
        ))
}

/// What one inbound sync batch does, exactly as `State::handle_sync`
/// promises it: a batch with any out-of-range coordinates is rejected whole,
/// else every record is upserted in order.
pub open spec fn sync_effect(
    pre: State,
    post: State,
    locs: Seq<Location>,
    resp: crate::LocationResponse,
) -> bool {
    &&& ((exists|i: int| 0 <= i < locs.len() && !valid_coords(#[trigger] locs[i])) ==> resp
        == crate::LocationResponse::Rejected(crate::LocationError::BadSync) && post == pre)
    &&& ((forall|i: int| 0 <= i < locs.len() ==> valid_coords(#[trigger] locs[i])) ==> resp
        == crate::LocationResponse::Accepted && post.db.locations@ == spec_upsert_all(
        pre.db.locations@,
        locs,
    ) && post.friends == pre.friends && post.pending_friend_requests
        == pre.pending_friend_requests && post.custom_lists == pre.custom_lists
        && post.geo_protocol == pre.geo_protocol && post.our_node == pre.our_node)
}

impl State {
    /// The stateless dispatcher: decodes one inbound wire message from
    /// `sender` and reacts to it against the current relationship state. It
    /// returns the messages to send back and the response for the sender; a
    /// message that does not decode is rejected as a bad sync and changes
    /// nothing.
    pub fn handle_remote_message(&mut self, sender: &String, bytes: &[u8], now: i64) -> (r: (
        Vec<OutboundMessage>,
        crate::LocationResponse,
    ))
        requires
            old(self).wf(),
        ensures
            final(self).wf(),
            crate::codec::spec_decode_message(bytes@) is None ==> r.0@.len() == 0 && r.1
                == crate::LocationResponse::Rejected(crate::LocationError::BadSync) && *final(self)
                == *old(self),
            crate::codec::spec_decode_message(bytes@) == Some(crate::RemoteRequestModel::Ping)
                ==> r.1 == crate::LocationResponse::Accepted && *final(self) == *old(self)
                && ping_reply_ok(*old(self), sender@, r.0@),
            crate::codec::spec_decode_message(bytes@) == Some(
                crate::RemoteRequestModel::FriendRequest,
            ) ==> r.1 == crate::LocationResponse::Accepted && friend_request_effect(
                *old(self),
                *final(self),
                *sender,
                now,
                r.0@,
            ),
            crate::codec::spec_decode_message(bytes@) == Some(
                crate::RemoteRequestModel::FriendResponse,
            ) ==> r.1 == crate::LocationResponse::Accepted && r.0@.len() == 0
                && friend_response_effect(*old(self), *final(self), *sender, now),
            crate::codec::spec_decode_message(bytes@) matches Some(
                crate::RemoteRequestModel::Sync(ls),
            ) ==> r.0@.len() == 0 && exists|locs: Seq<Location>|
                #![all_triggers]
                crate::location_views(locs) == ls && sync_effect(
                    *old(self),
                    *final(self),
                    locs,
                    r.1,
                ),
    {
        match crate::codec::decode_message(bytes) {
            None => (Vec::new(), crate::LocationResponse::Rejected(crate::LocationError::BadSync)),
            Some(req) => match req {
                RemoteRequest::Ping => {
                    let mut out: Vec<OutboundMessage> = Vec::new();
                    match self.handle_ping(sender) {
                        Some(m) => {
                            out.push(m);
                        },
                        None => {},
                    }
                    (out, crate::LocationResponse::Accepted)
                },
                RemoteRequest::Sync { locations } => {
                    let resp = self.handle_sync(&locations);
                    proof {
                        assert(crate::codec::spec_decode_message(bytes@)
                            == Some(crate::RemoteRequestModel::Sync(
                            crate::location_views(locations@),
                        )));
                    }
                    (Vec::new(), resp)
                },
                RemoteRequest::FriendRequest => {
                    let mut out: Vec<OutboundMessage> = Vec::new();
                    match self.handle_friend_request(sender, now) {
                        Some(m) => {
                            out.push(m);
                        },
                        None => {},
                    }
                    (out, crate::LocationResponse::Accepted)
                },
                RemoteRequest::FriendResponse => {
                    self.handle_friend_response(sender, now);
                    (Vec::new(), crate::LocationResponse::Accepted)
                },
            },
        }
    }
}

/// The pending entries of one direction, as the proposed friend records, in
/// insertion order.
pub open spec fn pending_dir_list(pending: Seq<(Friend, bool)>, is_local: bool) -> Seq<Friend>
    decreases pending.len(),
{
    if pending.len() == 0 {
        Seq::empty()
    } else {
        let rest = pending_dir_list(pending.drop_last(), is_local);
        if pending.last().1 == is_local {
            rest.push(pending.last().0)
        } else {
            rest
        }
    }
}

impl State {
    /// Copies of all accepted friend entries, in insertion order.
    pub fn list_friends(&self) -> (r: Vec<Friend>)
        ensures
            r@ == self.friends@,
    {
        let n = self.friends.len();
        let mut out: Vec<Friend> = Vec::new();
        let mut i: usize = 0;
        while i < n
            invariant
                n == self.friends@.len(),
                i <= n,
                out@ == self.friends@.take(i as int),
            decreases n - i,
        {
            out.push(self.friends[i].clone());
            proof {
                assert(out@ =~= self.friends@.take(i + 1 as int));
            }
            i += 1;
        }
        proof {
            assert(self.friends@.take(n as int) =~= self.friends@);
        }
        out
    }

    /// The proposed friend records of the pending requests in one direction
    /// (`true` for requests this side sent), in insertion order.
    #[verifier::loop_isolation(false)]
    pub fn list_pending(&self, is_local: bool) -> (r: Vec<Friend>)
        ensures
            r@ == pending_dir_list(self.pending_friend_requests@, is_local),
    {
        let n = self.pending_friend_requests.len();
        let mut out: Vec<Friend> = Vec::new();
        let mut i: usize = 0;
        while i < n
            invariant
                i <= n,
                out@ == pending_dir_list(
                    self.pending_friend_requests@.take(i as int),
                    is_local,
                ),
            decreases n - i,
        {
            proof {
                let t1 = self.pending_friend_requests@.take(i + 1 as int);
                assert(t1.drop_last() =~= self.pending_friend_requests@.take(i as int));
                assert(t1.last() == self.pending_friend_requests@[i as int]);
            }
            if self.pending_friend_requests[i].1 == is_local {
                out.push(self.pending_friend_requests[i].0.clone());
            }
            i += 1;
        }
        proof {
            assert(self.pending_friend_requests@.take(n as int)
                =~= self.pending_friend_requests@);
        }
        out
    }
}

/// A friend request received from a stranger — no prior friendship, no prior
/// pending request in either direction — is recorded as exactly one pending
/// incoming entry: it sends nothing back, makes no friend, and leaves no
/// pending outgoing entry.
pub proof fn lemma_request_from_stranger(
    s0: State,
    s1: State,
    a: String,
    now: i64,
    msgs: Seq<OutboundMessage>,
)
    requires
        s0.wf(),
        !s0.is_friend(a@),
        !s0.has_pending(a@),
        friend_request_effect(s0, s1, a, now, msgs),
    ensures
        msgs.len() == 0,
        s1.has_pending_dir(a@, false),
        !s1.has_pending_dir(a@, true),
        !s1.is_friend(a@),
        forall|i: int, j: int|
            0 <= i < j < s1.pending_friend_requests@.len() ==> !((
            #[trigger] s1.pending_friend_requests@[i]).0.node_id@ == a@ && (
            #[trigger] s1.pending_friend_requests@[j]).0.node_id@ == a@),
{
    let n = s0.pending_friend_requests@.len() as int;
    assert(s1.pending_friend_requests@[n].0.node_id@ == a@);
    assert(!s1.pending_friend_requests@[n].1);
    assert forall|i: int|
        0 <= i < s1.pending_friend_requests@.len() && i != n implies (
    #[trigger] s1.pending_friend_requests@[i]).0.node_id@ != a@ by {
        assert(s1.pending_friend_requests@[i] == s0.pending_friend_requests@[i]);
    }
}

/// Mutual requests auto-resolve: after this side sends `a` a request at tier
/// `ft` and then receives a request from `a`, peer `a` is an accepted friend
/// at the declared tier `ft` and no pending entry for `a` is left in either
/// direction.
pub proof fn lemma_mutual_requests_resolve(
    s0: State,
    s1: State,
    s2: State,
    a: String,
    ft: FriendType,
    t1: i64,
    t2: i64,
    msgs: Seq<OutboundMessage>,
)
    requires
        s0.wf(),
        !s0.is_friend(a@),
        !s0.has_pending(a@),
        // the state after `send_friend_request(a, ft, t1)`, as it promises:
        s1.wf(),
        s1.pending_friend_requests@ == s0.pending_friend_requests@.push(
            ((Friend { node_id: a, friend_type: ft, last_pinged: t1 }), true),
        ),
        s1.friends == s0.friends,
        // the state after then handling a request from `a`:
        friend_request_effect(s1, s2, a, t2, msgs),
    ensures
        s2.is_friend(a@),
        !s2.has_pending(a@),
        s2.friend_at(a@).friend_type == ft,
        msgs.len() == 1 && msgs[0].target@ == a@ && msgs[0].body == RemoteRequest::FriendResponse,
{
    let n = s0.pending_friend_requests@.len() as int;
    assert(s1.pending_friend_requests@[n].0.node_id@ == a@);
    assert(s1.pending_friend_requests@[n].1);
    assert(s1.has_pending_dir(a@, true));
    let i = choose|i: int|
        0 <= i < s1.pending_friend_requests@.len() && (
        #[trigger] s1.pending_friend_requests@[i]).0.node_id@ == a@
            && s1.pending_friend_requests@[i].1 && s2.pending_friend_requests@
            == s1.pending_friend_requests@.remove(i) && s2.friends@ == s1.friends@.push(
            (Friend {
                node_id: s1.pending_friend_requests@[i].0.node_id,
                friend_type: s1.pending_friend_requests@[i].0.friend_type,
                last_pinged: t2,
            }),
        ) && s2.db == s1.db && s2.custom_lists == s1.custom_lists && s2.geo_protocol
            == s1.geo_protocol && s2.our_node == s1.our_node;
    // the entry for `a` is unique, so the removed entry is the pushed one
    assert forall|k: int|
        0 <= k < s1.pending_friend_requests@.len() && k != n implies (
    #[trigger] s1.pending_friend_requests@[k]).0.node_id@ != a@ by {
        assert(s1.pending_friend_requests@[k] == s0.pending_friend_requests@[k]);
    }
    assert(i == n);
    assert(s1.pending_friend_requests@[i].0 == (Friend {
        node_id: a,
        friend_type: ft,
        last_pinged: t1,
    }));
    let m = s1.friends@.len() as int;
    assert(s2.friends@[m].node_id@ == a@);
    assert(s2.friends@[m].friend_type == ft);
    assert(s2.is_friend(a@));
    // no pending entry for `a` is left
    s1.pending_friend_requests@.remove_ensures(n);
    assert forall|k: int|
        0 <= k < s2.pending_friend_requests@.len() implies (
    #[trigger] s2.pending_friend_requests@[k]).0.node_id@ != a@ by {
        assert(s2.pending_friend_requests@[k] == s0.pending_friend_requests@[k]);
    }
    // the only friend entry for `a` is the new one, so `friend_at` names it
    assert forall|k: int|
        0 <= k < s2.friends@.len() && k != m implies (#[trigger] s2.friends@[k]).node_id@
        != a@ by {
        assert(s2.friends@[k] == s0.friends@[k]);
    }
    let c = choose|c: int| 0 <= c < s2.friends@.len() && (#[trigger] s2.friends@[c]).node_id@ == a@;
    assert(c == m);
}

/// A copy of a vector of strings, element for element.
fn clone_string_vec(v: &Vec<String>) -> (r: Vec<String>)
    ensures
        r@ == v@,
{
    let n = v.len();
    let mut out: Vec<String> = Vec::new();
    let mut i: usize = 0;
    while i < n
        invariant
            n == v@.len(),
            i <= n,
            out@ == v@.take(i as int),
        decreases n - i,
    {
        out.push(v[i].clone());
        proof {
            assert(out@ =~= v@.take(i + 1 as int));
        }
        i += 1;
    }
    proof {
        assert(v@.take(n as int) =~= v@);
    }
    out
}

/// Reads a granularity tier from its user-facing name; any other name is an
/// invalid argument.
pub fn parse_friend_type(s: &String) -> (r: Result<FriendType, StateError>)
    ensures
        s@ == "Best"@ ==> r == Result::<FriendType, StateError>::Ok(FriendType::Best),
        s@ == "CloseFriend"@ ==> r == Result::<FriendType, StateError>::Ok(
            FriendType::CloseFriend,
        ),
        s@ == "Acquaintance"@ ==> r == Result::<FriendType, StateError>::Ok(
            FriendType::Acquaintance,
        ),
        (s@ != "Best"@ && s@ != "CloseFriend"@ && s@ != "Acquaintance"@) ==> r == Result::<
            FriendType,
            StateError,
        >::Err(StateError::InvalidArgument),
{
    proof {
        reveal_strlit("Best");
        reveal_strlit("CloseFriend");
        reveal_strlit("Acquaintance");
        assert("Best"@.len() == 4 && "CloseFriend"@.len() == 11 && "Acquaintance"@.len() == 12);
    }
    if *s == String::from_str("Best") {
        Ok(FriendType::Best)
    } else if *s == String::from_str("CloseFriend") {
        Ok(FriendType::CloseFriend)
    } else if *s == String::from_str("Acquaintance") {
        Ok(FriendType::Acquaintance)
    } else {
        Err(StateError::InvalidArgument)
    }
}

/// The user-facing name of a granularity tier; `parse_friend_type` reads it
/// back.
pub fn friend_type_name(ft: &FriendType) -> (r: String)
    ensures
        *ft == FriendType::Best ==> r@ == "Best"@,
        *ft == FriendType::CloseFriend ==> r@ == "CloseFriend"@,
        *ft == FriendType::Acquaintance ==> r@ == "Acquaintance"@,
{
    match ft {
        FriendType::Best => String::from_str("Best"),
        FriendType::CloseFriend => String::from_str("CloseFriend"),
        FriendType::Acquaintance => String::from_str("Acquaintance"),
    }
}

/// Rounds a timestamp down to midnight UTC of its day (86 400 seconds per
/// day, and the epoch is midnight-aligned). Used for the day granularity of
/// `FriendType::CloseFriend`. Timestamps at the very bottom of the
/// representable range are excluded so the result still fits.
pub fn round_to_day(timestamp: i64) -> (r: i64)
    requires
        timestamp >= i64::MIN + 604_800,
    ensures
        (r as int) % 86_400 == 0,
        r <= timestamp < r + 86_400,
{
    let shifted: u128 = ((timestamp as i128) + 9_223_372_036_855_065_600i128) as u128;
    let day: u128 = shifted - shifted % 86_400;
    let r = ((day as i128) - 9_223_372_036_855_065_600i128) as i64;
    proof {
        let a = shifted as int;
        vstd::arithmetic::div_mod::lemma_fundamental_div_mod(a, 86_400);
        vstd::arithmetic::div_mod::lemma_mod_bound(a, 86_400);
        assert(9_223_372_036_855_065_600 == 86_400int * 106_751_991_167_304);
        assert(r as int == 86_400int * (a / 86_400 - 106_751_991_167_304));
        vstd::arithmetic::div_mod::lemma_mod_multiples_basic(
            a / 86_400 - 106_751_991_167_304,
            86_400,
        );
    }
    r
}

/// Rounds a timestamp down to midnight UTC of the Monday of its week
/// (604 800 seconds per week; the Monday before the epoch fell 259 200
/// seconds before it). Used for the week granularity of
/// `FriendType::Acquaintance`. Timestamps at the very bottom of the
/// representable range are excluded so the result still fits.
pub fn round_to_week(timestamp: i64) -> (r: i64)
    requires
        timestamp >= i64::MIN + 604_800,
    ensures
        (r as int + 259_200) % 604_800 == 0,
        r <= timestamp < r + 604_800,
{
    let shifted: u128 = ((timestamp as i128) + 259_200i128 + 9_223_372_036_855_065_600i128)
        as u128;
    let week: u128 = shifted - shifted % 604_800;
    let r = ((week as i128) - 259_200i128 - 9_223_372_036_855_065_600i128) as i64;
    proof {
        let a = shifted as int;
        vstd::arithmetic::div_mod::lemma_fundamental_div_mod(a, 604_800);
        vstd::arithmetic::div_mod::lemma_mod_bound(a, 604_800);
        assert(9_223_372_036_855_065_600 == 604_800int * 15_250_284_452_472);
        assert(r as int + 259_200 == 604_800int * (a / 604_800 - 15_250_284_452_472));
        vstd::arithmetic::div_mod::lemma_mod_multiples_basic(
            a / 604_800 - 15_250_284_452_472,
            604_800,
        );
    }
    r
}

/// Two friend sequences of the same length whose entries carry the same ids
/// name the same friends.
proof fn lemma_same_ids_same_friends(a: Seq<Friend>, b: Seq<Friend>)
    requires
        a.len() == b.len(),
        forall|k: int| 0 <= k < a.len() ==> (#[trigger] a[k]).node_id@ == (#[trigger] b[k]).node_id@,
    ensures
        forall|i: int, j: int|
            0 <= i < j < a.len() && (#[trigger] a[i]).node_id@ != (#[trigger] a[j]).node_id@
                ==> b[i].node_id@ != b[j].node_id@,
{
}

/// Filtering one more element of a prefix appends that element exactly when
/// it satisfies the predicate.
proof fn lemma_filter_take_step<T>(s: Seq<T>, i: int, pred: spec_fn(T) -> bool)
    requires
        0 <= i < s.len(),
    ensures
        pred(s[i]) ==> s.take(i + 1).filter(pred) == s.take(i).filter(pred).push(s[i]),
        !pred(s[i]) ==> s.take(i + 1).filter(pred) == s.take(i).filter(pred),
{
    let t1 = s.take(i + 1);
    let t0 = s.take(i);
    assert(t1.drop_last() =~= t0);
    assert(t1.last() == s[i]);
    assert(t1.len() == i + 1);
    reveal_with_fuel(Seq::filter, 1);
    assert(t1.filter(pred) == if pred(t1.last()) {
        t1.drop_last().filter(pred).push(t1.last())
    } else {
        t1.drop_last().filter(pred)
    });
}

} // verus!
