use media_core::media::{LayerInfo, MediaMeta, MediaPacket};
use media_core::protocol::{PeerInfo, TrackInfo};
use media_core::types::{MediaKind, PeerId, PeerMeta, TrackMeta, TrackName};

fn round_trip(p: &MediaPacket) {
    let bytes = p.serialize();
    let q = MediaPacket::deserialize(bytes.as_slice()).expect("must decode");
    assert_eq!(&q, p);
}

#[test]
fn media_packet_round_trip_opus() {
    round_trip(&MediaPacket {
        ts: 90000,
        seq: 12345,
        marker: true,
        nackable: false,
        layers: None,
        meta: MediaMeta::Opus { audio_level: Some(-42) },
        data: vec![1, 2, 3, 4, 5],
    });
    round_trip(&MediaPacket {
        ts: 0,
        seq: 0,
        marker: false,
        nackable: false,
        layers: None,
        meta: MediaMeta::Opus { audio_level: None },
        data: vec![],
    });
}

#[test]
fn media_packet_round_trip_video() {
    round_trip(&MediaPacket {
        ts: 0xffff_ffff,
        seq: 0xffff,
        marker: false,
        nackable: true,
        layers: Some(LayerInfo { spatial: 2, temporal: 1 }),
        meta: MediaMeta::H264 { key: true },
        data: vec![0; 1200],
    });
    round_trip(&MediaPacket {
        ts: 7,
        seq: 8,
        marker: true,
        nackable: true,
        layers: None,
        meta: MediaMeta::Vp8 { key: false },
        data: vec![9],
    });
    round_trip(&MediaPacket {
        ts: 7,
        seq: 8,
        marker: false,
        nackable: false,
        layers: Some(LayerInfo { spatial: 0, temporal: 0 }),
        meta: MediaMeta::Vp9 { key: true },
        data: vec![0xaa, 0xbb],
    });
}

#[test]
fn media_packet_rejects_malformed() {
    // too short for the header
    assert!(MediaPacket::deserialize(&[0u8; 17]).is_none());
    // bad codec tag
    let mut bytes = MediaPacket {
        ts: 1,
        seq: 2,
        marker: false,
        nackable: false,
        layers: None,
        meta: MediaMeta::Opus { audio_level: None },
        data: vec![],
    }
    .serialize();
    bytes[11] = 9;
    assert!(MediaPacket::deserialize(bytes.as_slice()).is_none());
    // truncated payload: length prefix says one more byte than present
    let mut bytes2 = MediaPacket {
        ts: 1,
        seq: 2,
        marker: false,
        nackable: false,
        layers: None,
        meta: MediaMeta::Opus { audio_level: None },
        data: vec![5],
    }
    .serialize();
    bytes2.pop();
    assert!(MediaPacket::deserialize(bytes2.as_slice()).is_none());
}

#[test]
fn peer_info_round_trip() {
    let cases = vec![
        PeerInfo::new(PeerId::from("peer1"), PeerMeta { metadata: None, extra_data: None }),
        PeerInfo::new(
            PeerId::from("p"),
            PeerMeta { metadata: Some(vec![1, 2, 3]), extra_data: None },
        ),
        PeerInfo::new(
            PeerId::from(""),
            PeerMeta { metadata: Some(vec![]), extra_data: Some(vec![0xff]) },
        ),
    ];
    for info in cases {
        let bytes = info.serialize();
        let back = PeerInfo::deserialize(bytes.as_slice()).expect("must decode");
        assert_eq!(back, info);
    }
    assert!(PeerInfo::deserialize(&[0u8]).is_none());
}

#[test]
fn track_info_round_trip() {
    let info = TrackInfo::new(
        PeerId::from("peer1"),
        TrackName::from("audio_main"),
        TrackMeta { kind: MediaKind::Audio },
    );
    let bytes = info.serialize();
    let back = TrackInfo::deserialize(bytes.as_slice()).expect("must decode");
    assert_eq!(back, info);

    let video = TrackInfo::new(
        PeerId::from("peer2"),
        TrackName::from("video_main"),
        TrackMeta { kind: MediaKind::Video },
    );
    let bytes2 = video.serialize();
    assert_eq!(TrackInfo::deserialize(bytes2.as_slice()), Some(video));
    assert!(TrackInfo::deserialize(&[]).is_none());
}

#[test]
fn msg_payload_round_trip() {
    let peer = PeerId::from("peer1");
    let bytes = media_core::protocol::msg_payload_serialize(&peer, &[9, 8, 7]);
    let (back_peer, back_data) =
        media_core::protocol::msg_payload_deserialize(bytes.as_slice()).expect("must decode");
    assert_eq!(back_peer, peer);
    assert_eq!(back_data, vec![9, 8, 7]);
}

#[test]
fn serialization_is_stable() {
    // one exact expected encoding, byte for byte
    let p = MediaPacket {
        ts: 0x01020304,
        seq: 0x0506,
        marker: true,
        nackable: false,
        layers: None,
        meta: MediaMeta::Opus { audio_level: None },
        data: vec![0xaa],
    };
    assert_eq!(
        p.serialize(),
        vec![1, 2, 3, 4, 5, 6, 1, 0, 0, 0, 0, 0, 0, 0, 0, 0, 0, 1, 0xaa]
    );
}
