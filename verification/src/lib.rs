//! A privacy-granularity location sharing library.
//!
//! A user publishes personal location records (place and time range) and
//! shares them with peers at a precision chosen per relationship: exact
//! coordinates, nearest-city coordinates, or a coarser fallback. The crate
//! provides the spatial fuzzing service, the friend-relationship state
//! machine, and the synchronization protocol driver that decides, for each
//! local mutation or inbound peer message, which state changes to make and
//! which wire messages to emit. Transport and durable storage stay outside:
//! the driver returns the messages to send as plain values.

use vstd::prelude::*;

pub mod codec;
pub mod geocity;
pub mod state;

verus! {

use crate::state::Location;
use crate::state::LocationModel;

/// Reply sent to a peer after handling one of its remote requests.
#[derive(Clone, Copy, PartialEq, Eq, Structural, Debug)]
pub enum LocationResponse {
    Accepted,
    Rejected(LocationError),
}

/// Errors reported back to a remote peer.
#[derive(Clone, Copy, PartialEq, Eq, Structural, Debug)]
pub enum LocationError {
    UnknownLocation,
    UnauthorizedMember,
    BadSync,
    InviteNotFound,
}

/// Errors surfaced to the local caller of the library's API.
#[derive(Clone, Copy, PartialEq, Eq, Structural, Debug)]
pub enum StateError {
    /// Unknown location id or unknown pending friend request.
    NotFound,
    /// A relationship operation that the state machine forbids, such as
    /// accepting a locally-originated friend request.
    InvalidTransition,
    /// A malformed argument, such as an unknown granularity tier name.
    InvalidArgument,
    /// The location store refused a write, such as inserting an id that is
    /// already present.
    StorageFailure,
    /// A send to one recipient failed during a broadcast; reported per
    /// recipient by the transport layer, never produced by this crate.
    TransportFailure,
}

/// A message exchanged between peers over an authenticated point-to-point
/// channel.
#[derive(PartialEq, Debug)]
pub enum RemoteRequest {
    /// Ask the receiver for a fresh sync of its own locations.
    Ping,
    /// A batch of already-fuzzed location records to upsert.
    Sync { locations: Vec<Location> },
    /// A friend request from the sender.
    FriendRequest,
    /// Confirmation that the sender accepted an earlier friend request.
    FriendResponse,
}

/// The mathematical value of a `RemoteRequest`.
pub enum RemoteRequestModel {
    Ping,
    Sync(Seq<LocationModel>),
    FriendRequest,
    FriendResponse,
}

/// The mathematical values of a sequence of location records.
pub open spec fn location_views(ls: Seq<Location>) -> Seq<LocationModel> {
    ls.map(|i: int, l: Location| l@)
}

impl View for RemoteRequest {
    type V = RemoteRequestModel;

    open spec fn view(&self) -> RemoteRequestModel {
        match self {
            RemoteRequest::Sync { locations } => RemoteRequestModel::Sync(
                location_views(locations@),
            ),
            RemoteRequest::Ping => RemoteRequestModel::Ping,
            RemoteRequest::FriendRequest => RemoteRequestModel::FriendRequest,
            RemoteRequest::FriendResponse => RemoteRequestModel::FriendResponse,
        }
    }
}

/// The request is a `Sync` batch.
pub open spec fn is_sync(r: RemoteRequest) -> bool {
    r is Sync
}

/// The records a `Sync` request carries (empty for the other requests).
pub open spec fn sync_locations(r: RemoteRequest) -> Seq<Location> {
    match r {
        RemoteRequest::Sync { locations } => locations@,
        _ => Seq::empty(),
    }
}

/// A message the driver asks the transport layer to send to `target`.
#[derive(PartialEq, Debug)]
pub struct OutboundMessage {
    pub target: String,
    pub body: RemoteRequest,
}

} // verus!
