//! Directory entries and message payloads exchanged through the overlay
//! DHT and the message channels, with their canonical encodings.

use crate::bytes::{
    chunk_bytes, lemma_chunk_round_trip, lemma_opt_chunk_round_trip, opt_chunk_bytes, push_chunk,
    push_opt_chunk, push_byte, spec_read_chunk, spec_read_opt_chunk, Reader,
};
use crate::types::{MediaKind, PeerId, PeerMeta, TrackMeta, TrackName};
use vstd::prelude::*;

verus! {

/// Directory entry of a joined peer: its id and its metadata.
#[derive(Clone, Debug, PartialEq, Eq)]
pub struct PeerInfo {
    pub peer: PeerId,
    pub meta: PeerMeta,
}

/// Mathematical model of a peer directory entry.
#[verifier::ext_equal]
pub ghost struct PeerInfoView {
    pub peer: Seq<u8>,
    pub metadata: Option<Seq<u8>>,
    pub extra_data: Option<Seq<u8>>,
}

impl View for PeerInfo {
    type V = PeerInfoView;

    open spec fn view(&self) -> PeerInfoView {
        PeerInfoView {
            peer: self.peer@,
            metadata: match self.meta.metadata {
                Some(m) => Some(m@),
                None => None,
            },
            extra_data: match self.meta.extra_data {
                Some(x) => Some(x@),
                None => None,
            },
        }
    }
}

/// An entry the wire format can carry: every part fits its length prefix.
pub open spec fn peer_info_valid(v: PeerInfoView) -> bool {
    &&& v.peer.len() <= 0xffff
    &&& (v.metadata is Some ==> v.metadata.unwrap().len() <= 0xffff)
    &&& (v.extra_data is Some ==> v.extra_data.unwrap().len() <= 0xffff)
}

/// Canonical encoding of a peer directory entry.
pub open spec fn spec_peer_info_serialize(v: PeerInfoView) -> Seq<u8> {
    chunk_bytes(v.peer) + opt_chunk_bytes(v.metadata) + opt_chunk_bytes(v.extra_data)
}

/// Decoding of a peer directory entry; `None` on malformed or oversized
/// input.
pub open spec fn spec_peer_info_deserialize(s: Seq<u8>) -> Option<PeerInfoView> {
    match spec_read_chunk(s, 0) {
        None => None,
        Some(p) => match spec_read_opt_chunk(s, p.1) {
            None => None,
            Some(m) => match spec_read_opt_chunk(s, m.1) {
                None => None,
                Some(x) => if x.1 == s.len() {
                    Some(PeerInfoView { peer: p.0, metadata: m.0, extra_data: x.0 })
                } else {
                    None
                },
            },
        },
    }
}

impl PeerInfo {
    pub fn new(peer: PeerId, meta: PeerMeta) -> (r: PeerInfo)
        ensures
            r.peer == peer,
            r.meta == meta,
    {
        PeerInfo { peer, meta }
    }

    /// Encodes the entry in its canonical wire form.
    pub fn serialize(&self) -> (r: Vec<u8>)
        requires
            peer_info_valid(self@),
        ensures
            r@ == spec_peer_info_serialize(self@),
    {
        let mut buf: Vec<u8> = Vec::new();
        push_chunk(&mut buf, self.peer.0.as_slice());
        push_opt_chunk(&mut buf, &self.meta.metadata);
        push_opt_chunk(&mut buf, &self.meta.extra_data);
        proof {
            assert(buf@ =~= spec_peer_info_serialize(self@));
        }
        buf
    }

    /// Decodes an entry from its canonical wire form.
    pub fn deserialize(bytes: &[u8]) -> (r: Option<PeerInfo>)
        ensures
            match r {
                Some(q) => spec_peer_info_deserialize(bytes@) == Some(q@),
                None => spec_peer_info_deserialize(bytes@) is None,
            },
    {
        let mut rd = Reader::new(bytes);
        let peer = match rd.read_chunk() {
            Some(p) => p,
            None => {
                return None;
            },
        };
        let metadata = match rd.read_opt_chunk() {
            Some(m) => m,
            None => {
                return None;
            },
        };
        let extra_data = match rd.read_opt_chunk() {
            Some(x) => x,
            None => {
                return None;
            },
        };
        if rd.remaining() != 0 {
            return None;
        }
        Some(PeerInfo { peer: PeerId(peer), meta: PeerMeta { metadata, extra_data } })
    }
}


/// Encodes a peer directory entry from its parts.
pub fn peer_entry_bytes(peer: &PeerId, meta: &PeerMeta) -> (r: Vec<u8>)
    requires
        peer@.len() <= 0xffff,
        meta.metadata is Some ==> meta.metadata.unwrap()@.len() <= 0xffff,
        meta.extra_data is Some ==> meta.extra_data.unwrap()@.len() <= 0xffff,
    ensures
        r@ == spec_peer_info_serialize(
            PeerInfoView {
                peer: peer@,
                metadata: match meta.metadata {
                    Some(m) => Some(m@),
                    None => None,
                },
                extra_data: match meta.extra_data {
                    Some(x) => Some(x@),
                    None => None,
                },
            },
        ),
{
    let mut buf: Vec<u8> = Vec::new();
    push_chunk(&mut buf, peer.0.as_slice());
    push_opt_chunk(&mut buf, &meta.metadata);
    push_opt_chunk(&mut buf, &meta.extra_data);
    proof {
        assert(buf@ =~= spec_peer_info_serialize(
            PeerInfoView {
                peer: peer@,
                metadata: match meta.metadata {
                    Some(m) => Some(m@),
                    None => None,
                },
                extra_data: match meta.extra_data {
                    Some(x) => Some(x@),
                    None => None,
                },
            },
        ));
    }
    buf
}

/// Encodes a track directory entry from its parts.
pub fn track_entry_bytes(peer: &PeerId, track: &TrackName, meta: &TrackMeta) -> (r: Vec<u8>)
    requires
        peer@.len() <= 0xffff,
        track@.len() <= 0xffff,
    ensures
        r@ == spec_track_info_serialize(
            TrackInfoView { peer: peer@, track: track@, kind: meta.kind },
        ),
{
    let mut buf: Vec<u8> = Vec::new();
    push_chunk(&mut buf, peer.0.as_slice());
    push_chunk(&mut buf, track.0.as_slice());
    push_byte(&mut buf, match meta.kind {
        MediaKind::Audio => 0,
        MediaKind::Video => 1,
    });
    proof {
        assert(buf@ =~= spec_track_info_serialize(
            TrackInfoView { peer: peer@, track: track@, kind: meta.kind },
        ));
    }
    buf
}

/// Round trip: decoding a canonically encoded peer entry gives the entry
/// back.
#[verifier::rlimit(100)]
pub proof fn lemma_peer_info_round_trip(v: PeerInfoView)
    requires
        peer_info_valid(v),
    ensures
        spec_peer_info_deserialize(spec_peer_info_serialize(v)) == Some(v),
{
    let s = spec_peer_info_serialize(v);
    let a = chunk_bytes(v.peer);
    let b = opt_chunk_bytes(v.metadata);
    let c = opt_chunk_bytes(v.extra_data);
    let p1 = a.len() as int;
    let p2 = p1 + b.len() as int;
    let p3 = p2 + c.len() as int;
    assert(spec_read_chunk(s, 0) == Some((v.peer, p1))) by {
        assert(s =~= Seq::<u8>::empty() + a + (b + c));
        lemma_chunk_round_trip(Seq::<u8>::empty(), v.peer, b + c);
    }
    assert(spec_read_opt_chunk(s, p1) == Some((v.metadata, p2))) by {
        assert(s =~= a + b + c);
        lemma_opt_chunk_round_trip(a, v.metadata, c);
    }
    assert(spec_read_opt_chunk(s, p2) == Some((v.extra_data, p3))) by {
        assert(s =~= (a + b) + c + Seq::<u8>::empty());
        lemma_opt_chunk_round_trip(a + b, v.extra_data, Seq::<u8>::empty());
    }
    assert(s.len() == p3);
    assert(PeerInfoView { peer: v.peer, metadata: v.metadata, extra_data: v.extra_data } =~= v);
}

/// Directory entry of a published track: the peer, the track name and the
/// track's metadata.
#[derive(Clone, Debug, PartialEq, Eq)]
pub struct TrackInfo {
    pub peer: PeerId,
    pub track: TrackName,
    pub meta: TrackMeta,
}

/// Mathematical model of a track directory entry.
#[verifier::ext_equal]
pub ghost struct TrackInfoView {
    pub peer: Seq<u8>,
    pub track: Seq<u8>,
    pub kind: MediaKind,
}

impl View for TrackInfo {
    type V = TrackInfoView;

    open spec fn view(&self) -> TrackInfoView {
        TrackInfoView { peer: self.peer@, track: self.track@, kind: self.meta.kind }
    }
}

/// An entry the wire format can carry.
pub open spec fn track_info_valid(v: TrackInfoView) -> bool {
    v.peer.len() <= 0xffff && v.track.len() <= 0xffff
}

/// Media kind as its wire byte.
pub open spec fn kind_byte(k: MediaKind) -> u8 {
    match k {
        MediaKind::Audio => 0,
        MediaKind::Video => 1,
    }
}

/// Canonical encoding of a track directory entry.
pub open spec fn spec_track_info_serialize(v: TrackInfoView) -> Seq<u8> {
    chunk_bytes(v.peer) + chunk_bytes(v.track) + seq![kind_byte(v.kind)]
}

/// Decoding of a track directory entry.
pub open spec fn spec_track_info_deserialize(s: Seq<u8>) -> Option<TrackInfoView> {
    match spec_read_chunk(s, 0) {
        None => None,
        Some(p) => match spec_read_chunk(s, p.1) {
            None => None,
            Some(t) => if t.1 + 1 == s.len() && (s[t.1] == 0 || s[t.1] == 1) {
                Some(
                    TrackInfoView {
                        peer: p.0,
                        track: t.0,
                        kind: if s[t.1] == 0 {
                            MediaKind::Audio
                        } else {
                            MediaKind::Video
                        },
                    },
                )
            } else {
                None
            },
        },
    }
}

impl TrackInfo {
    pub fn new(peer: PeerId, track: TrackName, meta: TrackMeta) -> (r: TrackInfo)
        ensures
            r.peer == peer,
            r.track == track,
            r.meta == meta,
    {
        TrackInfo { peer, track, meta }
    }

    /// Encodes the entry in its canonical wire form.
    pub fn serialize(&self) -> (r: Vec<u8>)
        requires
            track_info_valid(self@),
        ensures
            r@ == spec_track_info_serialize(self@),
    {
        let mut buf: Vec<u8> = Vec::new();
        push_chunk(&mut buf, self.peer.0.as_slice());
        push_chunk(&mut buf, self.track.0.as_slice());
        push_byte(&mut buf, match self.meta.kind {
            MediaKind::Audio => 0,
            MediaKind::Video => 1,
        });
        proof {
            assert(buf@ =~= spec_track_info_serialize(self@));
        }
        buf
    }

    /// Decodes an entry from its canonical wire form.
    pub fn deserialize(bytes: &[u8]) -> (r: Option<TrackInfo>)
        ensures
            match r {
                Some(q) => spec_track_info_deserialize(bytes@) == Some(q@),
                None => spec_track_info_deserialize(bytes@) is None,
            },
    {
        let mut rd = Reader::new(bytes);
        let peer = match rd.read_chunk() {
            Some(p) => p,
            None => {
                return None;
            },
        };
        let track = match rd.read_chunk() {
            Some(t) => t,
            None => {
                return None;
            },
        };
        let kind_b = match rd.read_u8() {
            Some(k) => k,
            None => {
                return None;
            },
        };
        if rd.remaining() != 0 || kind_b > 1 {
            return None;
        }
        let kind = if kind_b == 0 {
            MediaKind::Audio
        } else {
            MediaKind::Video
        };
        Some(
            TrackInfo {
                peer: PeerId(peer),
                track: TrackName(track),
                meta: TrackMeta { kind },
            },
        )
    }
}

/// Round trip: decoding a canonically encoded track entry gives the entry
/// back.
#[verifier::rlimit(100)]
pub proof fn lemma_track_info_round_trip(v: TrackInfoView)
    requires
        track_info_valid(v),
    ensures
        spec_track_info_deserialize(spec_track_info_serialize(v)) == Some(v),
{
    let s = spec_track_info_serialize(v);
    let a = chunk_bytes(v.peer);
    let b = chunk_bytes(v.track);
    let c = seq![kind_byte(v.kind)];
    let p1 = a.len() as int;
    let p2 = p1 + b.len() as int;
    assert(spec_read_chunk(s, 0) == Some((v.peer, p1))) by {
        assert(s =~= Seq::<u8>::empty() + a + (b + c));
        lemma_chunk_round_trip(Seq::<u8>::empty(), v.peer, b + c);
    }
    assert(spec_read_chunk(s, p1) == Some((v.track, p2))) by {
        assert(s =~= a + b + c);
        lemma_chunk_round_trip(a, v.track, c);
    }
    assert(s.len() == p2 + 1);
    assert(s[p2] == kind_byte(v.kind)) by {
        assert(s =~= a + b + c);
    }
    assert(TrackInfoView { peer: v.peer, track: v.track, kind: v.kind } =~= v);
    if v.kind is Audio {
        assert(s[p2] == 0);
    } else {
        assert(s[p2] == 1);
    }
}

/// Payload of a room message channel: the sending peer and its bytes.
pub open spec fn spec_msg_payload_serialize(peer: Seq<u8>, data: Seq<u8>) -> Seq<u8> {
    chunk_bytes(peer) + data
}

/// Decoding of a message payload: the sending peer and its bytes.
pub open spec fn spec_msg_payload_deserialize(s: Seq<u8>) -> Option<(Seq<u8>, Seq<u8>)> {
    match spec_read_chunk(s, 0) {
        None => None,
        Some(p) => Some((p.0, s.subrange(p.1, s.len() as int))),
    }
}

/// Encodes a message payload.
pub fn msg_payload_serialize(peer: &PeerId, data: &[u8]) -> (r: Vec<u8>)
    requires
        peer@.len() <= 0xffff,
    ensures
        r@ == spec_msg_payload_serialize(peer@, data@),
{
    let mut buf: Vec<u8> = Vec::new();
    push_chunk(&mut buf, peer.0.as_slice());
    crate::bytes::push_slice(&mut buf, data);
    proof {
        assert(buf@ =~= spec_msg_payload_serialize(peer@, data@));
    }
    buf
}

/// Decodes a message payload.
pub fn msg_payload_deserialize(bytes: &[u8]) -> (r: Option<(PeerId, Vec<u8>)>)
    ensures
        match r {
            Some(q) => spec_msg_payload_deserialize(bytes@) == Some((q.0@, q.1@)),
            None => spec_msg_payload_deserialize(bytes@) is None,
        },
{
    let mut rd = Reader::new(bytes);
    let peer = match rd.read_chunk() {
        Some(p) => p,
        None => {
            return None;
        },
    };
    let n = rd.remaining();
    let data = rd.read_exact(n).unwrap();
    Some((PeerId(peer), data))
}

/// Round trip: decoding a canonically encoded message payload gives the
/// payload back.
#[verifier::rlimit(100)]
pub proof fn lemma_msg_payload_round_trip(peer: Seq<u8>, data: Seq<u8>)
    requires
        peer.len() <= 0xffff,
    ensures
        spec_msg_payload_deserialize(spec_msg_payload_serialize(peer, data)) == Some(
            (peer, data),
        ),
{
    let s = spec_msg_payload_serialize(peer, data);
    let p1 = 2 + peer.len() as int;
    assert(spec_read_chunk(s, 0) == Some((peer, p1))) by {
        assert(s =~= Seq::<u8>::empty() + chunk_bytes(peer) + data);
        lemma_chunk_round_trip(Seq::<u8>::empty(), peer, data);
    }
    assert(s.subrange(p1, s.len() as int) =~= data);
}

} // verus!
