//! The wire format for peer messages: a binary, length-prefixed encoding
//! with a proven decode-of-encode round trip.
//!
//! A message starts with one tag byte. A `Sync` batch continues with the
//! record count and the records, each laid out as the id, four signed
//! numbers (offset into `u64` and written little-endian), and the two
//! strings, each length-prefixed UTF-8.

use vstd::prelude::*;

verus! {

use vstd::bytes::{
    spec_u128_from_le_bytes,
    spec_u128_to_le_bytes,
    spec_u64_from_le_bytes,
    spec_u64_to_le_bytes,
    lemma_auto_spec_u128_to_from_le_bytes,
    lemma_auto_spec_u64_to_from_le_bytes,
    u128_from_le_bytes,
    u128_to_le_bytes,
    u64_from_le_bytes,
    u64_to_le_bytes,
};
use vstd::utf8::{decode_utf8, encode_utf8, valid_utf8, encode_utf8_valid_utf8,
    encode_utf8_decode_utf8};
use vstd::string::StrSliceExecFns;
use vstd::slice::{slice_subrange, slice_to_vec};
use crate::state::{Location, LocationModel};
use crate::{location_views, RemoteRequest, RemoteRequestModel};

/// A signed number shifted into the unsigned range, so that its bytes can be
/// written with the unsigned little-endian layout.
pub open spec fn spec_offset_i64(x: i64) -> u64 {
    (x + 0x8000_0000_0000_0000) as u64
}

/// The inverse shift.
pub open spec fn spec_unoffset_u64(n: u64) -> i64 {
    (n - 0x8000_0000_0000_0000) as i64
}

/// One signed number on the wire.
pub open spec fn spec_enc_i64(x: i64) -> Seq<u8> {
    spec_u64_to_le_bytes(spec_offset_i64(x))
}

/// One string on the wire: the byte length of its UTF-8 encoding, then the
/// encoding itself.
pub open spec fn spec_enc_str(s: Seq<char>) -> Seq<u8> {
    spec_u64_to_le_bytes(encode_utf8(s).len() as u64) + encode_utf8(s)
}

/// One location record on the wire.
pub open spec fn spec_enc_loc(l: LocationModel) -> Seq<u8> {
    spec_u128_to_le_bytes(l.uuid) + spec_enc_i64(l.start_date) + spec_enc_i64(l.end_date)
        + spec_enc_i64(l.latitude) + spec_enc_i64(l.longitude) + spec_enc_str(l.owner)
        + spec_enc_str(l.description)
}

/// A batch of records on the wire, first record first.
pub open spec fn spec_enc_locs(ls: Seq<LocationModel>) -> Seq<u8>
    decreases ls.len(),
{
    if ls.len() == 0 {
        Seq::empty()
    } else {
        spec_enc_loc(ls[0]) + spec_enc_locs(ls.drop_first())
    }
}

/// A whole message on the wire.
pub open spec fn spec_encode_message(m: RemoteRequestModel) -> Seq<u8> {
    match m {
        RemoteRequestModel::Ping => seq![0u8],
        RemoteRequestModel::FriendRequest => seq![1u8],
        RemoteRequestModel::FriendResponse => seq![2u8],
        RemoteRequestModel::Sync(ls) => seq![3u8] + spec_u64_to_le_bytes(ls.len() as u64)
            + spec_enc_locs(ls),
    }
}

/// Reads one unsigned number; what follows it is returned unread.
pub open spec fn spec_dec_u64(b: Seq<u8>) -> Option<(u64, Seq<u8>)> {
    if b.len() >= 8 {
        Some((spec_u64_from_le_bytes(b.take(8)), b.skip(8)))
    } else {
        None
    }
}

/// Reads one record id.
pub open spec fn spec_dec_u128(b: Seq<u8>) -> Option<(u128, Seq<u8>)> {
    if b.len() >= 16 {
        Some((spec_u128_from_le_bytes(b.take(16)), b.skip(16)))
    } else {
        None
    }
}

/// Reads one signed number.
pub open spec fn spec_dec_i64(b: Seq<u8>) -> Option<(i64, Seq<u8>)> {
    match spec_dec_u64(b) {
        Some((n, r)) => Some((spec_unoffset_u64(n), r)),
        None => None,
    }
}

/// Reads one length-prefixed string; fails on truncated input or bytes that
/// are not UTF-8.
pub open spec fn spec_dec_str(b: Seq<u8>) -> Option<(Seq<char>, Seq<u8>)> {
    match spec_dec_u64(b) {
        Some((n, r)) => if r.len() >= n && valid_utf8(r.take(n as int)) {
            Some((decode_utf8(r.take(n as int)), r.skip(n as int)))
        } else {
            None
        },
        None => None,
    }
}

/// Reads one location record.
pub open spec fn spec_dec_loc(b: Seq<u8>) -> Option<(LocationModel, Seq<u8>)> {
    match spec_dec_u128(b) {
        None => None,
        Some((uuid, b1)) => match spec_dec_i64(b1) {
            None => None,
            Some((start_date, b2)) => match spec_dec_i64(b2) {
                None => None,
                Some((end_date, b3)) => match spec_dec_i64(b3) {
                    None => None,
                    Some((latitude, b4)) => match spec_dec_i64(b4) {
                        None => None,
                        Some((longitude, b5)) => match spec_dec_str(b5) {
                            None => None,
                            Some((owner, b6)) => match spec_dec_str(b6) {
                                None => None,
                                Some((description, b7)) => Some(
                                    (
                                        LocationModel {
                                            uuid,
                                            start_date,
                                            end_date,
                                            owner,
                                            description,
                                            latitude,
                                            longitude,
                                        },
                                        b7,
                                    ),
                                ),
                            },
                        },
                    },
                },
            },
        },
    }
}

/// Reads exactly `n` location records.
pub open spec fn spec_dec_locs(b: Seq<u8>, n: nat) -> Option<(Seq<LocationModel>, Seq<u8>)>
    decreases n,
{
    if n == 0 {
        Some((Seq::empty(), b))
    } else {
        match spec_dec_loc(b) {
            None => None,
            Some((l, r)) => match spec_dec_locs(r, (n - 1) as nat) {
                None => None,
                Some((ls, r2)) => Some((seq![l] + ls, r2)),
            },
        }
    }
}

/// Reads a whole message; fails on an unknown tag, a short read, or
/// trailing bytes.
pub open spec fn spec_decode_message(b: Seq<u8>) -> Option<RemoteRequestModel> {
    if b.len() == 0 {
        None
    } else if b[0] == 0 {
        if b.len() == 1 {
            Some(RemoteRequestModel::Ping)
        } else {
            None
        }
    } else if b[0] == 1 {
        if b.len() == 1 {
            Some(RemoteRequestModel::FriendRequest)
        } else {
            None
        }
    } else if b[0] == 2 {
        if b.len() == 1 {
            Some(RemoteRequestModel::FriendResponse)
        } else {
            None
        }
    } else if b[0] == 3 {
        match spec_dec_u64(b.skip(1)) {
            None => None,
            Some((n, r)) => match spec_dec_locs(r, n as nat) {
                None => None,
                Some((ls, r2)) => if r2.len() == 0 {
                    Some(RemoteRequestModel::Sync(ls))
                } else {
                    None
                },
            },
        }
    } else {
        None
    }
}

/// The string is short enough for its byte length to fit the length prefix.
/// Every string held in an executable record satisfies this.
pub open spec fn str_len_ok(s: Seq<char>) -> bool {
    encode_utf8(s).len() < 0x1_0000_0000_0000_0000
}

/// Both strings of the record satisfy `str_len_ok`.
pub open spec fn loc_wf(l: LocationModel) -> bool {
    str_len_ok(l.owner) && str_len_ok(l.description)
}

/// The batch count fits the count prefix and every record is well formed.
/// Every executable message satisfies this.
pub open spec fn msg_wf(m: RemoteRequestModel) -> bool {
    match m {
        RemoteRequestModel::Sync(ls) => ls.len() < 0x1_0000_0000_0000_0000 && forall|i: int|
            0 <= i < ls.len() ==> loc_wf(#[trigger] ls[i]),
        _ => true,
    }
}

proof fn lemma_dec_u64(n: u64, rest: Seq<u8>)
    ensures
        spec_dec_u64(spec_u64_to_le_bytes(n) + rest) == Some((n, rest)),
{
    lemma_auto_spec_u64_to_from_le_bytes();
    let b = spec_u64_to_le_bytes(n) + rest;
    assert(b.take(8) =~= spec_u64_to_le_bytes(n));
    assert(b.skip(8) =~= rest);
}

proof fn lemma_dec_u128(n: u128, rest: Seq<u8>)
    ensures
        spec_dec_u128(spec_u128_to_le_bytes(n) + rest) == Some((n, rest)),
{
    lemma_auto_spec_u128_to_from_le_bytes();
    let b = spec_u128_to_le_bytes(n) + rest;
    assert(b.take(16) =~= spec_u128_to_le_bytes(n));
    assert(b.skip(16) =~= rest);
}

proof fn lemma_dec_i64(x: i64, rest: Seq<u8>)
    ensures
        spec_dec_i64(spec_enc_i64(x) + rest) == Some((x, rest)),
{
    lemma_dec_u64(spec_offset_i64(x), rest);
}

proof fn lemma_dec_str(s: Seq<char>, rest: Seq<u8>)
    requires
        str_len_ok(s),
    ensures
        spec_dec_str(spec_enc_str(s) + rest) == Some((s, rest)),
{
    let u = encode_utf8(s);
    let n = u.len() as u64;
    assert(spec_enc_str(s) + rest =~= spec_u64_to_le_bytes(n) + (u + rest));
    lemma_dec_u64(n, u + rest);
    assert((u + rest).take(n as int) =~= u);
    assert((u + rest).skip(n as int) =~= rest);
    encode_utf8_valid_utf8(s);
    encode_utf8_decode_utf8(s);
}

proof fn lemma_dec_loc(l: LocationModel, rest: Seq<u8>)
    requires
        loc_wf(l),
    ensures
        spec_dec_loc(spec_enc_loc(l) + rest) == Some((l, rest)),
{
    let b6 = spec_enc_str(l.description) + rest;
    let b5 = spec_enc_str(l.owner) + b6;
    let b4 = spec_enc_i64(l.longitude) + b5;
    let b3 = spec_enc_i64(l.latitude) + b4;
    let b2 = spec_enc_i64(l.end_date) + b3;
    let b1 = spec_enc_i64(l.start_date) + b2;
    assert(spec_enc_loc(l) + rest =~= spec_u128_to_le_bytes(l.uuid) + b1);
    lemma_dec_u128(l.uuid, b1);
    assert(b1 =~= spec_enc_i64(l.start_date) + b2);
    lemma_dec_i64(l.start_date, b2);
    lemma_dec_i64(l.end_date, b3);
    lemma_dec_i64(l.latitude, b4);
    lemma_dec_i64(l.longitude, b5);
    lemma_dec_str(l.owner, b6);
    lemma_dec_str(l.description, rest);
}

proof fn lemma_dec_locs(ls: Seq<LocationModel>, rest: Seq<u8>)
    requires
        forall|i: int| 0 <= i < ls.len() ==> loc_wf(#[trigger] ls[i]),
    ensures
        spec_dec_locs(spec_enc_locs(ls) + rest, ls.len()) == Some((ls, rest)),
    decreases ls.len(),
{
    if ls.len() == 0 {
        assert(spec_enc_locs(ls) + rest =~= rest);
        assert(spec_dec_locs(rest, 0) == Some((Seq::<LocationModel>::empty(), rest)));
        assert(Seq::<LocationModel>::empty() =~= ls);
    } else {
        let tail = ls.drop_first();
        assert(spec_enc_locs(ls) + rest =~= spec_enc_loc(ls[0]) + (spec_enc_locs(tail) + rest));
        lemma_dec_loc(ls[0], spec_enc_locs(tail) + rest);
        lemma_dec_locs(tail, rest);
        assert(seq![ls[0]] + tail =~= ls);
    }
}

/// Decoding an encoded message yields the message back: the wire format
/// loses nothing, keeps the batch order, and admits no trailing garbage.
pub proof fn lemma_message_round_trip(m: RemoteRequestModel)
    requires
        msg_wf(m),
    ensures
        spec_decode_message(spec_encode_message(m)) == Some(m),
{
    match m {
        RemoteRequestModel::Ping => {
            assert(spec_encode_message(m).len() == 1);
            assert(spec_encode_message(m)[0] == 0);
        },
        RemoteRequestModel::FriendRequest => {
            assert(spec_encode_message(m).len() == 1);
            assert(spec_encode_message(m)[0] == 1);
        },
        RemoteRequestModel::FriendResponse => {
            assert(spec_encode_message(m).len() == 1);
            assert(spec_encode_message(m)[0] == 2);
        },
        RemoteRequestModel::Sync(ls) => {
            let b = spec_encode_message(m);
            let n = ls.len() as u64;
            assert(b[0] == 3);
            assert(b.len() > 0);
            assert(b.skip(1) =~= spec_u64_to_le_bytes(n) + spec_enc_locs(ls));
            lemma_dec_u64(n, spec_enc_locs(ls));
            assert(spec_enc_locs(ls) + Seq::<u8>::empty() =~= spec_enc_locs(ls));
            lemma_dec_locs(ls, Seq::<u8>::empty());
            assert(n as nat == ls.len());
        },
    }
}

/// Appending one record to a batch appends its bytes to the wire form.
proof fn lemma_enc_locs_push(ls: Seq<LocationModel>, l: LocationModel)
    ensures
        spec_enc_locs(ls.push(l)) == spec_enc_locs(ls) + spec_enc_loc(l),
    decreases ls.len(),
{
    reveal_with_fuel(spec_enc_locs, 3);
    if ls.len() == 0 {
        assert(ls.push(l)[0] == l);
        assert(ls.push(l).drop_first() =~= Seq::<LocationModel>::empty());
        assert(spec_enc_locs(ls.push(l)) =~= spec_enc_locs(ls) + spec_enc_loc(l));
    } else {
        assert(ls.push(l)[0] == ls[0]);
        assert(ls.push(l).drop_first() =~= ls.drop_first().push(l));
        lemma_enc_locs_push(ls.drop_first(), l);
        assert(spec_enc_locs(ls.push(l)) =~= spec_enc_locs(ls) + spec_enc_loc(l));
    }
}

/// The signed number shifted into the unsigned range.
fn offset_i64(x: i64) -> (r: u64)
    ensures
        r == spec_offset_i64(x),
{
    ((x as i128) + 0x8000_0000_0000_0000i128) as u64
}

/// The inverse shift.
fn unoffset_u64(n: u64) -> (r: i64)
    ensures
        r == spec_unoffset_u64(n),
{
    ((n as i128) - 0x8000_0000_0000_0000i128) as i64
}

/// Relies on String::from_utf8: builds the string whose UTF-8 encoding is
/// the given bytes, and fails exactly on bytes that are not valid UTF-8.
#[verifier::external_body]
fn string_from_utf8(v: Vec<u8>) -> (r: Option<String>)
    ensures
        r is Some <==> valid_utf8(v@),
        r is Some ==> encode_utf8((r->0)@) == v@,
{
    match String::from_utf8(v) {
        Ok(s) => Some(s),
        Err(_) => None,
    }
}

/// Appends one length-prefixed string to the buffer.
fn append_string(v: &mut Vec<u8>, s: &String)
    ensures
        final(v)@ == old(v)@ + spec_enc_str(s@),
{
    let bytes = s.as_str().as_bytes_vec();
    let mut lenb = u64_to_le_bytes(bytes.len() as u64);
    v.append(&mut lenb);
    let mut tail = bytes;
    v.append(&mut tail);
    proof {
        assert(v@ =~= old(v)@ + spec_enc_str(s@));
    }
}

/// One record in wire form.
fn encode_location(l: &Location) -> (r: Vec<u8>)
    ensures
        r@ == spec_enc_loc(l@),
{
    let mut v = u128_to_le_bytes(l.uuid);
    let mut b1 = u64_to_le_bytes(offset_i64(l.start_date));
    v.append(&mut b1);
    let mut b2 = u64_to_le_bytes(offset_i64(l.end_date));
    v.append(&mut b2);
    let mut b3 = u64_to_le_bytes(offset_i64(l.latitude));
    v.append(&mut b3);
    let mut b4 = u64_to_le_bytes(offset_i64(l.longitude));
    v.append(&mut b4);
    append_string(&mut v, &l.owner);
    append_string(&mut v, &l.description);
    proof {
        assert(v@ =~= spec_enc_loc(l@));
    }
    v
}

/// A whole message in wire form.
#[verifier::loop_isolation(false)]
pub fn encode_message(m: &RemoteRequest) -> (r: Vec<u8>)
    ensures
        r@ == spec_encode_message(m@),
{
    match m {
        RemoteRequest::Ping => {
            let mut v: Vec<u8> = Vec::new();
            v.push(0u8);
            proof {
                assert(v@ =~= seq![0u8]);
            }
            v
        },
        RemoteRequest::FriendRequest => {
            let mut v: Vec<u8> = Vec::new();
            v.push(1u8);
            proof {
                assert(v@ =~= seq![1u8]);
            }
            v
        },
        RemoteRequest::FriendResponse => {
            let mut v: Vec<u8> = Vec::new();
            v.push(2u8);
            proof {
                assert(v@ =~= seq![2u8]);
            }
            v
        },
        RemoteRequest::Sync { locations } => {
            let ghost models = location_views(locations@);
            let mut v: Vec<u8> = Vec::new();
            v.push(3u8);
            let mut lenb = u64_to_le_bytes(locations.len() as u64);
            v.append(&mut lenb);
            proof {
                assert(v@ =~= seq![3u8] + spec_u64_to_le_bytes(models.len() as u64)
                    + spec_enc_locs(models.take(0)));
            }
            let n = locations.len();
            let mut i: usize = 0;
            while i < n
                invariant
                    i <= n,
                    v@ == seq![3u8] + spec_u64_to_le_bytes(models.len() as u64) + spec_enc_locs(
                        models.take(i as int),
                    ),
                decreases n - i,
            {
                let mut lb = encode_location(&locations[i]);
                v.append(&mut lb);
                proof {
                    lemma_enc_locs_push(models.take(i as int), models[i as int]);
                    assert(models.take(i as int).push(models[i as int]) =~= models.take(
                        i + 1 as int,
                    ));
                }
                i += 1;
            }
            proof {
                assert(models.take(n as int) =~= models);
            }
            v
        },
    }
}

/// Reads one unsigned number at `pos`.
fn dec_u64_at(b: &[u8], pos: usize) -> (r: Option<(u64, usize)>)
    requires
        pos <= b@.len(),
    ensures
        r is Some <==> spec_dec_u64(b@.skip(pos as int)) is Some,
        r is Some ==> spec_dec_u64(b@.skip(pos as int)) == Some(
            ((r->0).0, b@.skip((r->0).1 as int)),
        ) && pos <= (r->0).1 <= b@.len(),
{
    if b.len() - pos >= 8 {
        let s = slice_subrange(b, pos, pos + 8);
        let x = u64_from_le_bytes(s);
        proof {
            assert(b@.skip(pos as int).take(8) =~= b@.subrange(pos as int, pos as int + 8));
            assert(b@.skip(pos as int).skip(8) =~= b@.skip(pos as int + 8));
        }
        Some((x, pos + 8))
    } else {
        None
    }
}

/// Reads one record id at `pos`.
fn dec_u128_at(b: &[u8], pos: usize) -> (r: Option<(u128, usize)>)
    requires
        pos <= b@.len(),
    ensures
        r is Some <==> spec_dec_u128(b@.skip(pos as int)) is Some,
        r is Some ==> spec_dec_u128(b@.skip(pos as int)) == Some(
            ((r->0).0, b@.skip((r->0).1 as int)),
        ) && pos <= (r->0).1 <= b@.len(),
{
    if b.len() - pos >= 16 {
        let s = slice_subrange(b, pos, pos + 16);
        let x = u128_from_le_bytes(s);
        proof {
            assert(b@.skip(pos as int).take(16) =~= b@.subrange(pos as int, pos as int + 16));
            assert(b@.skip(pos as int).skip(16) =~= b@.skip(pos as int + 16));
        }
        Some((x, pos + 16))
    } else {
        None
    }
}

/// Reads one signed number at `pos`.
fn dec_i64_at(b: &[u8], pos: usize) -> (r: Option<(i64, usize)>)
    requires
        pos <= b@.len(),
    ensures
        r is Some <==> spec_dec_i64(b@.skip(pos as int)) is Some,
        r is Some ==> spec_dec_i64(b@.skip(pos as int)) == Some(
            ((r->0).0, b@.skip((r->0).1 as int)),
        ) && pos <= (r->0).1 <= b@.len(),
{
    match dec_u64_at(b, pos) {
        None => None,
        Some((n, p1)) => Some((unoffset_u64(n), p1)),
    }
}

/// Reads one length-prefixed string at `pos`.
fn dec_str_at(b: &[u8], pos: usize) -> (r: Option<(String, usize)>)
    requires
        pos <= b@.len(),
    ensures
        r is Some <==> spec_dec_str(b@.skip(pos as int)) is Some,
        r is Some ==> spec_dec_str(b@.skip(pos as int)) == Some(
            (((r->0).0)@, b@.skip((r->0).1 as int)),
        ) && pos <= (r->0).1 <= b@.len(),
{
    match dec_u64_at(b, pos) {
        None => None,
        Some((n, p1)) => {
            let avail = b.len() - p1;
            if n <= avail as u64 {
                let nn = n as usize;
                let s = slice_subrange(b, p1, p1 + nn);
                let v = slice_to_vec(s);
                proof {
                    assert(b@.skip(p1 as int).take(n as int) =~= b@.subrange(
                        p1 as int,
                        p1 as int + n as int,
                    ));
                    assert(b@.skip(p1 as int).skip(n as int) =~= b@.skip(p1 as int + n as int));
                }
                match string_from_utf8(v) {
                    Some(st) => {
                        proof {
                            encode_utf8_decode_utf8(st@);
                        }
                        Some((st, p1 + nn))
                    },
                    None => None,
                }
            } else {
                None
            }
        },
    }
}

/// Reads one location record at `pos`.
fn dec_loc_at(b: &[u8], pos: usize) -> (r: Option<(Location, usize)>)
    requires
        pos <= b@.len(),
    ensures
        r is Some <==> spec_dec_loc(b@.skip(pos as int)) is Some,
        r is Some ==> spec_dec_loc(b@.skip(pos as int)) == Some(
            (((r->0).0)@, b@.skip((r->0).1 as int)),
        ) && pos <= (r->0).1 <= b@.len(),
{
    match dec_u128_at(b, pos) {
        None => None,
        Some((uuid, p1)) => match dec_i64_at(b, p1) {
            None => None,
            Some((start_date, p2)) => match dec_i64_at(b, p2) {
                None => None,
                Some((end_date, p3)) => match dec_i64_at(b, p3) {
                    None => None,
                    Some((latitude, p4)) => match dec_i64_at(b, p4) {
                        None => None,
                        Some((longitude, p5)) => match dec_str_at(b, p5) {
                            None => None,
                            Some((owner, p6)) => match dec_str_at(b, p6) {
                                None => None,
                                Some((description, p7)) => Some(
                                    (
                                        Location {
                                            uuid,
                                            start_date,
                                            end_date,
                                            owner,
                                            description,
                                            latitude,
                                            longitude,
                                        },
                                        p7,
                                    ),
                                ),
                            },
                        },
                    },
                },
            },
        },
    }
}

/// Reads exactly `count` location records at `pos`.
fn dec_locs_at(b: &[u8], pos: usize, count: u64) -> (r: Option<(Vec<Location>, usize)>)
    requires
        pos <= b@.len(),
    ensures
        r is Some <==> spec_dec_locs(b@.skip(pos as int), count as nat) is Some,
        r is Some ==> spec_dec_locs(b@.skip(pos as int), count as nat) == Some(
            (location_views(((r->0).0)@), b@.skip((r->0).1 as int)),
        ) && pos <= (r->0).1 <= b@.len(),
    decreases count,
{
    if count == 0 {
        let out: Vec<Location> = Vec::new();
        proof {
            assert(location_views(out@) =~= Seq::<LocationModel>::empty());
        }
        Some((out, pos))
    } else {
        match dec_loc_at(b, pos) {
            None => None,
            Some((l, p1)) => match dec_locs_at(b, p1, count - 1) {
                None => None,
                Some((ls, p2)) => {
                    let ghost tail_views = location_views(ls@);
                    let mut out = ls;
                    out.insert(0, l);
                    proof {
                        assert(location_views(out@) =~= seq![l@] + tail_views);
                    }
                    Some((out, p2))
                },
            },
        }
    }
}

/// Reads a whole message; yields nothing on an unknown tag, a short read,
/// bad UTF-8, or trailing bytes.
pub fn decode_message(bytes: &[u8]) -> (r: Option<RemoteRequest>)
    ensures
        spec_decode_message(bytes@) is Some ==> r is Some && (r->0)@ == spec_decode_message(
            bytes@,
        )->0,
        spec_decode_message(bytes@) is None ==> r is None,
{
    let n = bytes.len();
    if n == 0 {
        return None;
    }
    let tag = *vstd::slice::slice_index_get(bytes, 0);
    if tag == 0 {
        if n == 1 {
            Some(RemoteRequest::Ping)
        } else {
            None
        }
    } else if tag == 1 {
        if n == 1 {
            Some(RemoteRequest::FriendRequest)
        } else {
            None
        }
    } else if tag == 2 {
        if n == 1 {
            Some(RemoteRequest::FriendResponse)
        } else {
            None
        }
    } else if tag == 3 {
        match dec_u64_at(bytes, 1) {
            None => None,
            Some((count, p1)) => match dec_locs_at(bytes, p1, count) {
                None => None,
                Some((ls, p2)) => {
                    if p2 == n {
                        proof {
                            assert(bytes@.skip(p2 as int).len() == 0);
                        }
                        Some(RemoteRequest::Sync { locations: ls })
                    } else {
                        proof {
                            assert(bytes@.skip(p2 as int).len() != 0);
                        }
                        None
                    }
                },
            },
        }
    } else {
        None
    }
}

} // verus!

