//! Media packet wire format.
//!
//! Packets cross node boundaries through the pub/sub fabric, so the encoding
//! must be identical on every node.  The format is a fixed 18-byte header
//! followed by a length-prefixed payload; every field has one canonical
//! position, which keeps the round trip provable:
//! `spec_deserialize(spec_serialize(p)) == Some(p)` for every valid packet.

use crate::bytes::{
    be16_val, be32_val, lemma_i8_round_trip, lemma_u16_be_round_trip, lemma_u32_be_round_trip,
    push_byte, push_slice, push_u16_be, push_u32_be, u16_be, u32_be, Reader,
};
use vstd::prelude::*;

verus! {

/// Spatial/temporal scalability layer of a video packet.
#[derive(Clone, Copy, Debug, PartialEq, Eq, Structural)]
pub struct LayerInfo {
    pub spatial: u8,
    pub temporal: u8,
}

/// Codec-specific metadata of a media packet.
#[derive(Clone, Copy, Debug, PartialEq, Eq)]
pub enum MediaMeta {
    Opus { audio_level: Option<i8> },
    H264 { key: bool },
    Vp8 { key: bool },
    Vp9 { key: bool },
}

/// One media packet as forwarded between endpoints.
#[derive(Clone, Debug, PartialEq, Eq)]
pub struct MediaPacket {
    pub ts: u32,
    pub seq: u16,
    pub marker: bool,
    pub nackable: bool,
    pub layers: Option<LayerInfo>,
    pub meta: MediaMeta,
    pub data: Vec<u8>,
}

/// Mathematical model of a media packet: the payload as a byte sequence.
#[verifier::ext_equal]
pub ghost struct MediaPacketView {
    pub ts: u32,
    pub seq: u16,
    pub marker: bool,
    pub nackable: bool,
    pub layers: Option<LayerInfo>,
    pub meta: MediaMeta,
    pub data: Seq<u8>,
}

impl View for MediaPacket {
    type V = MediaPacketView;

    open spec fn view(&self) -> MediaPacketView {
        MediaPacketView {
            ts: self.ts,
            seq: self.seq,
            marker: self.marker,
            nackable: self.nackable,
            layers: self.layers,
            meta: self.meta,
            data: self.data@,
        }
    }
}

/// 1 for true, 0 for false.
pub open spec fn bool_byte(b: bool) -> u8 {
    if b {
        1
    } else {
        0
    }
}

/// Layer tag byte, spatial, temporal; zeroes when absent.
pub open spec fn layers_tag(l: Option<LayerInfo>) -> u8 {
    if l is Some {
        1
    } else {
        0
    }
}

pub open spec fn layers_spatial(l: Option<LayerInfo>) -> u8 {
    match l {
        Some(li) => li.spatial,
        None => 0,
    }
}

pub open spec fn layers_temporal(l: Option<LayerInfo>) -> u8 {
    match l {
        Some(li) => li.temporal,
        None => 0,
    }
}

/// Codec tag byte.
pub open spec fn meta_kind_byte(m: MediaMeta) -> u8 {
    match m {
        MediaMeta::Opus { .. } => 0,
        MediaMeta::H264 { .. } => 1,
        MediaMeta::Vp8 { .. } => 2,
        MediaMeta::Vp9 { .. } => 3,
    }
}

/// First codec payload byte: audio-level presence for Opus, key-frame flag
/// for video codecs.
pub open spec fn meta_flag_byte(m: MediaMeta) -> u8 {
    match m {
        MediaMeta::Opus { audio_level } => bool_byte(audio_level is Some),
        MediaMeta::H264 { key } => bool_byte(key),
        MediaMeta::Vp8 { key } => bool_byte(key),
        MediaMeta::Vp9 { key } => bool_byte(key),
    }
}

/// Second codec payload byte: the audio level for Opus (two's complement),
/// zero otherwise.
pub open spec fn meta_value_byte(m: MediaMeta) -> u8 {
    match m {
        MediaMeta::Opus { audio_level } => match audio_level {
            Some(v) => v as u8,
            None => 0,
        },
        _ => 0,
    }
}

/// A packet the wire format can carry: the payload length fits the 32-bit
/// length prefix.
pub open spec fn packet_valid(v: MediaPacketView) -> bool {
    v.data.len() <= 0xffff_ffff
}

/// Canonical encoding of a media packet.
pub open spec fn spec_serialize(v: MediaPacketView) -> Seq<u8> {
    seq![
        u32_be(v.ts)[0],
        u32_be(v.ts)[1],
        u32_be(v.ts)[2],
        u32_be(v.ts)[3],
        u16_be(v.seq)[0],
        u16_be(v.seq)[1],
        bool_byte(v.marker),
        bool_byte(v.nackable),
        layers_tag(v.layers),
        layers_spatial(v.layers),
        layers_temporal(v.layers),
        meta_kind_byte(v.meta),
        meta_flag_byte(v.meta),
        meta_value_byte(v.meta),
        u32_be(v.data.len() as u32)[0],
        u32_be(v.data.len() as u32)[1],
        u32_be(v.data.len() as u32)[2],
        u32_be(v.data.len() as u32)[3],
    ] + v.data
}

/// Strict boolean byte: anything but 0 or 1 is a parse error.
pub open spec fn parse_bool(b: u8) -> Option<bool> {
    if b == 0 {
        Some(false)
    } else if b == 1 {
        Some(true)
    } else {
        None
    }
}

/// Decoding of a media packet; `None` on any malformed input.
pub open spec fn spec_deserialize(s: Seq<u8>) -> Option<MediaPacketView> {
    if s.len() < 18 {
        None
    } else {
        let marker = parse_bool(s[6]);
        let nackable = parse_bool(s[7]);
        let dlen = be32_val(s[14], s[15], s[16], s[17]);
        if marker is None || nackable is None {
            None
        } else if !(s[8] == 0 || s[8] == 1) {
            None
        } else if s[11] > 3 {
            None
        } else if s[11] == 0 && !(s[12] == 0 || s[12] == 1) {
            None
        } else if s[11] >= 1 && !(s[12] == 0 || s[12] == 1) {
            None
        } else if s.len() != 18 + dlen {
            None
        } else {
            let layers = if s[8] == 1 {
                Some(LayerInfo { spatial: s[9], temporal: s[10] })
            } else {
                None
            };
            let meta = if s[11] == 0 {
                MediaMeta::Opus {
                    audio_level: if s[12] == 1 {
                        Some(s[13] as i8)
                    } else {
                        None
                    },
                }
            } else if s[11] == 1 {
                MediaMeta::H264 { key: s[12] == 1 }
            } else if s[11] == 2 {
                MediaMeta::Vp8 { key: s[12] == 1 }
            } else {
                MediaMeta::Vp9 { key: s[12] == 1 }
            };
            Some(
                MediaPacketView {
                    ts: be32_val(s[0], s[1], s[2], s[3]),
                    seq: be16_val(s[4], s[5]),
                    marker: marker.unwrap(),
                    nackable: nackable.unwrap(),
                    layers,
                    meta,
                    data: s.subrange(18, s.len() as int),
                },
            )
        }
    }
}

impl MediaPacket {
    /// Encodes the packet in its canonical wire form.
    pub fn serialize(&self) -> (r: Vec<u8>)
        requires
            packet_valid(self@),
        ensures
            r@ == spec_serialize(self@),
    {
        let mut buf: Vec<u8> = Vec::new();
        push_u32_be(&mut buf, self.ts);
        push_u16_be(&mut buf, self.seq);
        push_byte(&mut buf, if self.marker {
            1
        } else {
            0
        });
        push_byte(&mut buf, if self.nackable {
            1
        } else {
            0
        });
        match &self.layers {
            Some(l) => {
                push_byte(&mut buf, 1);
                push_byte(&mut buf, l.spatial);
                push_byte(&mut buf, l.temporal);
            },
            None => {
                push_byte(&mut buf, 0);
                push_byte(&mut buf, 0);
                push_byte(&mut buf, 0);
            },
        }
        match &self.meta {
            MediaMeta::Opus { audio_level } => {
                push_byte(&mut buf, 0);
                match audio_level {
                    Some(v) => {
                        push_byte(&mut buf, 1);
                        push_byte(&mut buf, *v as u8);
                    },
                    None => {
                        push_byte(&mut buf, 0);
                        push_byte(&mut buf, 0);
                    },
                }
            },
            MediaMeta::H264 { key } => {
                push_byte(&mut buf, 1);
                push_byte(&mut buf, if *key {
                    1
                } else {
                    0
                });
                push_byte(&mut buf, 0);
            },
            MediaMeta::Vp8 { key } => {
                push_byte(&mut buf, 2);
                push_byte(&mut buf, if *key {
                    1
                } else {
                    0
                });
                push_byte(&mut buf, 0);
            },
            MediaMeta::Vp9 { key } => {
                push_byte(&mut buf, 3);
                push_byte(&mut buf, if *key {
                    1
                } else {
                    0
                });
                push_byte(&mut buf, 0);
            },
        }
        push_u32_be(&mut buf, self.data.len() as u32);
        push_slice(&mut buf, self.data.as_slice());
        proof {
            assert(buf@ =~= spec_serialize(self@));
        }
        buf
    }

    /// Decodes a packet from its canonical wire form.
    pub fn deserialize(bytes: &[u8]) -> (r: Option<MediaPacket>)
        ensures
            match r {
                Some(q) => spec_deserialize(bytes@) == Some(q@),
                None => spec_deserialize(bytes@) is None,
            },
    {
        let mut rd = Reader::new(bytes);
        if rd.remaining() < 18 {
            return None;
        }
        let ts = rd.read_u32_be().unwrap();
        let sq = rd.read_u16_be().unwrap();
        let marker_b = rd.read_u8().unwrap();
        let nackable_b = rd.read_u8().unwrap();
        let layers_tag_b = rd.read_u8().unwrap();
        let spatial_b = rd.read_u8().unwrap();
        let temporal_b = rd.read_u8().unwrap();
        let kind_b = rd.read_u8().unwrap();
        let flag_b = rd.read_u8().unwrap();
        let value_b = rd.read_u8().unwrap();
        let dlen = rd.read_u32_be().unwrap();
        if marker_b > 1 || nackable_b > 1 || layers_tag_b > 1 || kind_b > 3 || flag_b > 1 {
            return None;
        }
        if rd.remaining() as u64 != dlen as u64 {
            return None;
        }
        let n = rd.remaining();
        let data = rd.read_exact(n).unwrap();
        let layers = if layers_tag_b == 1 {
            Some(LayerInfo { spatial: spatial_b, temporal: temporal_b })
        } else {
            None
        };
        let meta = if kind_b == 0 {
            MediaMeta::Opus {
                audio_level: if flag_b == 1 {
                    Some(value_b as i8)
                } else {
                    None
                },
            }
        } else if kind_b == 1 {
            MediaMeta::H264 { key: flag_b == 1 }
        } else if kind_b == 2 {
            MediaMeta::Vp8 { key: flag_b == 1 }
        } else {
            MediaMeta::Vp9 { key: flag_b == 1 }
        };
        Some(
            MediaPacket {
                ts,
                seq: sq,
                marker: marker_b == 1,
                nackable: nackable_b == 1,
                layers,
                meta,
                data,
            },
        )
    }
}

/// Round trip: decoding a canonically encoded packet gives the packet back.
pub proof fn lemma_media_packet_round_trip(v: MediaPacketView)
    requires
        packet_valid(v),
    ensures
        spec_deserialize(spec_serialize(v)) == Some(v),
{
    let s = spec_serialize(v);
    lemma_u32_be_round_trip(v.ts);
    lemma_u16_be_round_trip(v.seq);
    lemma_u32_be_round_trip(v.data.len() as u32);
    assert(s.subrange(18, s.len() as int) =~= v.data);
    match v.meta {
        MediaMeta::Opus { audio_level: Some(a) } => lemma_i8_round_trip(a),
        _ => {},
    }
    assert(spec_deserialize(s).unwrap() =~= v);
}

} // verus!
