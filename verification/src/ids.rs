//! Derivation of overlay map ids, map keys and channel ids.
//!
//! Every id is a stable hash over the identifying bytes, with a short tag
//! separating the namespaces, so all nodes of the cluster compute the same
//! ids independently.

use crate::bytes::{push_byte, push_slice, push_u64_le, u64_le};
use crate::cluster::ClusterRoomHash;
use crate::hash::{fnv1a, fnv1a_hash};
use crate::types::{MessageChannelLabel, PeerId, TrackName};
use vstd::prelude::*;

verus! {

/// Tag of the peers directory map: the bytes of `"peers"`.
pub open spec fn peers_tag() -> Seq<u8> {
    seq![0x70u8, 0x65u8, 0x65u8, 0x72u8, 0x73u8]
}

/// Tag of the tracks directory map: the bytes of `"tracks"`.
pub open spec fn tracks_tag() -> Seq<u8> {
    seq![0x74u8, 0x72u8, 0x61u8, 0x63u8, 0x6bu8, 0x73u8]
}

/// Tag of single-peer maps: the bytes of `"peer"`.
pub open spec fn peer_tag() -> Seq<u8> {
    seq![0x70u8, 0x65u8, 0x65u8, 0x72u8]
}

/// Tag of track data channels: the bytes of `"track"`.
pub open spec fn track_tag() -> Seq<u8> {
    seq![0x74u8, 0x72u8, 0x61u8, 0x63u8, 0x6bu8]
}

/// Tag of message channels: the bytes of `"msg"`.
pub open spec fn msg_tag() -> Seq<u8> {
    seq![0x6du8, 0x73u8, 0x67u8]
}

/// Id of the room's peers directory map.
pub open spec fn peers_map_spec(room: u64) -> u64 {
    fnv1a_hash(u64_le(room) + peers_tag())
}

/// Id of the room's tracks directory map.
pub open spec fn tracks_map_spec(room: u64) -> u64 {
    fnv1a_hash(u64_le(room) + tracks_tag())
}

/// Id of the directory map that tracks one single peer.
pub open spec fn peer_map_spec(room: u64, peer: Seq<u8>) -> u64 {
    fnv1a_hash(u64_le(room) + peer_tag() + peer)
}

/// Key of a peer inside a directory map.
pub open spec fn peers_key_spec(peer: Seq<u8>) -> u64 {
    fnv1a_hash(peer)
}

/// Key of a `(peer, track)` pair inside the tracks directory map.
pub open spec fn tracks_key_spec(peer: Seq<u8>, name: Seq<u8>) -> u64 {
    fnv1a_hash(peer + seq![0x2fu8] + name)
}

/// Channel id a `(room, peer, track name)` triple publishes media on.
pub open spec fn track_channel_spec(room: u64, peer: Seq<u8>, name: Seq<u8>) -> u64 {
    fnv1a_hash(u64_le(room) + track_tag() + peer + seq![0x2fu8] + name)
}

/// Channel id of a labelled room message channel.
pub open spec fn msg_channel_spec(room: u64, label: Seq<u8>) -> u64 {
    fnv1a_hash(u64_le(room) + msg_tag() + label)
}

fn push_peers_tag(buf: &mut Vec<u8>)
    ensures
        final(buf)@ == old(buf)@ + peers_tag(),
{
    push_byte(buf, 0x70);
    push_byte(buf, 0x65);
    push_byte(buf, 0x65);
    push_byte(buf, 0x72);
    push_byte(buf, 0x73);
    proof {
        assert(buf@ =~= old(buf)@ + peers_tag());
    }
}

fn push_tracks_tag(buf: &mut Vec<u8>)
    ensures
        final(buf)@ == old(buf)@ + tracks_tag(),
{
    push_byte(buf, 0x74);
    push_byte(buf, 0x72);
    push_byte(buf, 0x61);
    push_byte(buf, 0x63);
    push_byte(buf, 0x6b);
    push_byte(buf, 0x73);
    proof {
        assert(buf@ =~= old(buf)@ + tracks_tag());
    }
}

fn push_track_tag(buf: &mut Vec<u8>)
    ensures
        final(buf)@ == old(buf)@ + track_tag(),
{
    push_byte(buf, 0x74);
    push_byte(buf, 0x72);
    push_byte(buf, 0x61);
    push_byte(buf, 0x63);
    push_byte(buf, 0x6b);
    proof {
        assert(buf@ =~= old(buf)@ + track_tag());
    }
}

fn push_msg_tag(buf: &mut Vec<u8>)
    ensures
        final(buf)@ == old(buf)@ + msg_tag(),
{
    push_byte(buf, 0x6d);
    push_byte(buf, 0x73);
    push_byte(buf, 0x67);
    proof {
        assert(buf@ =~= old(buf)@ + msg_tag());
    }
}

/// Computes the id of the room's peers directory map.
pub fn peers_map(room: ClusterRoomHash) -> (r: u64)
    ensures
        r == peers_map_spec(room.0),
{
    let mut buf: Vec<u8> = Vec::new();
    push_u64_le(&mut buf, room.0);
    push_peers_tag(&mut buf);
    fnv1a(buf.as_slice())
}

/// Computes the id of the room's tracks directory map.
pub fn tracks_map(room: ClusterRoomHash) -> (r: u64)
    ensures
        r == tracks_map_spec(room.0),
{
    let mut buf: Vec<u8> = Vec::new();
    push_u64_le(&mut buf, room.0);
    push_tracks_tag(&mut buf);
    fnv1a(buf.as_slice())
}

fn push_peer_tag(buf: &mut Vec<u8>)
    ensures
        final(buf)@ == old(buf)@ + peer_tag(),
{
    push_byte(buf, 0x70);
    push_byte(buf, 0x65);
    push_byte(buf, 0x65);
    push_byte(buf, 0x72);
    proof {
        assert(buf@ =~= old(buf)@ + peer_tag());
    }
}

/// Computes the id of the directory map that tracks one single peer.
pub fn peer_map(room: ClusterRoomHash, peer: &PeerId) -> (r: u64)
    ensures
        r == peer_map_spec(room.0, peer@),
{
    let mut buf: Vec<u8> = Vec::new();
    push_u64_le(&mut buf, room.0);
    push_peer_tag(&mut buf);
    push_slice(&mut buf, peer.0.as_slice());
    fnv1a(buf.as_slice())
}

/// Computes the directory key of a peer.
pub fn peers_key(peer: &PeerId) -> (r: u64)
    ensures
        r == peers_key_spec(peer@),
{
    fnv1a(peer.0.as_slice())
}

/// Computes the directory key of a `(peer, track)` pair.
pub fn tracks_key(peer: &PeerId, name: &TrackName) -> (r: u64)
    ensures
        r == tracks_key_spec(peer@, name@),
{
    let mut buf: Vec<u8> = Vec::new();
    push_slice(&mut buf, peer.0.as_slice());
    push_byte(&mut buf, 0x2f);
    push_slice(&mut buf, name.0.as_slice());
    fnv1a(buf.as_slice())
}

/// Computes the channel id a `(room, peer, track name)` triple publishes
/// media on.
pub fn gen_track_channel_id(room: ClusterRoomHash, peer: &PeerId, name: &TrackName) -> (r: u64)
    ensures
        r == track_channel_spec(room.0, peer@, name@),
{
    let mut buf: Vec<u8> = Vec::new();
    push_u64_le(&mut buf, room.0);
    push_track_tag(&mut buf);
    push_slice(&mut buf, peer.0.as_slice());
    push_byte(&mut buf, 0x2f);
    push_slice(&mut buf, name.0.as_slice());
    fnv1a(buf.as_slice())
}

/// Computes the channel id of a labelled room message channel.
pub fn gen_msg_channel_id(room: ClusterRoomHash, label: &MessageChannelLabel) -> (r: u64)
    ensures
        r == msg_channel_spec(room.0, label@),
{
    let mut buf: Vec<u8> = Vec::new();
    push_u64_le(&mut buf, room.0);
    push_msg_tag(&mut buf);
    push_slice(&mut buf, label.0.as_slice());
    fnv1a(buf.as_slice())
}

} // verus!
