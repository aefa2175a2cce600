use media_core::cluster::{
    ClusterAudioMixerControl, ClusterEndpointControl, ClusterEndpointEvent,
    ClusterLocalTrackControl, ClusterLocalTrackEvent, ClusterMessageChannelControl,
    ClusterRemoteTrackControl, ClusterRoomHash,
};
use media_core::content_type::content_type_is_sdp;
use media_core::ids::{gen_msg_channel_id, gen_track_channel_id};
use media_core::media::{MediaMeta, MediaPacket};
use media_core::protocol::msg_payload_serialize;
use media_core::protocol::TrackInfo;
use media_core::room::{ClusterRoom, RoomOutput};
use media_core::sdn::{
    ChannelControl, ChannelEvent, FeaturesControl, FeaturesEvent, PubsubControl, PubsubEvent,
    RoomFeature, RoomUserData,
};
use media_core::sdn::{DhtKvControl, DhtKvEvent, MapControl, MapEvent};
use media_core::types::{
    LocalTrackId, MediaKind, MessageChannelLabel, PeerId, PeerMeta, RemoteTrackId,
    RoomInfoPublish, RoomInfoSubscribe, TrackMeta, TrackName, TrackSource,
};

fn pubsub_out(room: &ClusterRoom, channel: u64, ctl: ChannelControl) -> RoomOutput {
    RoomOutput::Sdn(
        RoomUserData(room.room, RoomFeature::Pubsub),
        FeaturesControl::PubSub(PubsubControl(channel, ctl)),
    )
}

#[test]
fn local_track_subscription_lifecycle() {
    let hash = ClusterRoomHash::from(9);
    let mut room = ClusterRoom::new(hash);
    let endpoint: u64 = 4;
    let track = LocalTrackId::from(1);
    let peer: PeerId = "peer1".to_string().into();
    let name: TrackName = "audio_main".to_string().into();
    let channel = gen_track_channel_id(hash, &peer, &name);

    room.on_endpoint_control(
        endpoint,
        ClusterEndpointControl::LocalTrack(
            track,
            ClusterLocalTrackControl::Subscribe(peer, name),
        ),
    );
    assert_eq!(room.pop_output(()), Some(pubsub_out(&room, channel, ChannelControl::SubAuto)));
    assert_eq!(room.pop_output(()), None);

    // channel media fans out to the subscribed local track
    let pkt = MediaPacket {
        ts: 1,
        seq: 2,
        marker: false,
        nackable: false,
        layers: None,
        meta: MediaMeta::Opus { audio_level: None },
        data: vec![1, 2],
    };
    room.on_sdn_event(
        RoomUserData(hash, RoomFeature::Pubsub),
        FeaturesEvent::PubSub(PubsubEvent(channel, ChannelEvent::Data(11, pkt.serialize()))),
    );
    assert_eq!(
        room.pop_output(()),
        Some(RoomOutput::Endpoint(
            vec![endpoint],
            ClusterEndpointEvent::LocalTrack(track, ClusterLocalTrackEvent::Media(11, pkt))
        ))
    );
    assert_eq!(room.pop_output(()), None);

    room.on_endpoint_control(
        endpoint,
        ClusterEndpointControl::LocalTrack(track, ClusterLocalTrackControl::Unsubscribe),
    );
    assert_eq!(room.pop_output(()), Some(pubsub_out(&room, channel, ChannelControl::UnsubAuto)));
    assert_eq!(room.pop_output(()), None);
    assert!(room.is_empty());
}

#[test]
fn message_channel_publish_and_fanout() {
    let hash = ClusterRoomHash::from(5);
    let mut room = ClusterRoom::new(hash);
    let label = MessageChannelLabel::from("chat");
    let channel = gen_msg_channel_id(hash, &label);
    let speaker: u64 = 1;
    let listener: u64 = 2;

    room.on_endpoint_control(
        listener,
        ClusterEndpointControl::MessageChannel(
            label.clone(),
            ClusterMessageChannelControl::Subscribe,
        ),
    );
    assert_eq!(room.pop_output(()), Some(pubsub_out(&room, channel, ChannelControl::SubAuto)));

    room.on_endpoint_control(
        speaker,
        ClusterEndpointControl::MessageChannel(
            label.clone(),
            ClusterMessageChannelControl::StartPublish,
        ),
    );
    assert_eq!(room.pop_output(()), Some(pubsub_out(&room, channel, ChannelControl::PubStart)));

    let peer = PeerId::from("peer1");
    room.on_endpoint_control(
        speaker,
        ClusterEndpointControl::MessageChannel(
            label.clone(),
            ClusterMessageChannelControl::PublishData(peer.clone(), vec![1, 2, 3]),
        ),
    );
    let payload = msg_payload_serialize(&peer, &[1, 2, 3]);
    assert_eq!(
        room.pop_output(()),
        Some(pubsub_out(&room, channel, ChannelControl::PubData(payload.clone())))
    );

    // a delivery on the channel reaches the subscriber
    room.on_sdn_event(
        RoomUserData(hash, RoomFeature::Pubsub),
        FeaturesEvent::PubSub(PubsubEvent(channel, ChannelEvent::Data(1, payload))),
    );
    assert_eq!(
        room.pop_output(()),
        Some(RoomOutput::Endpoint(
            vec![listener],
            ClusterEndpointEvent::MessageChannelData(label.clone(), peer, vec![1, 2, 3])
        ))
    );

    room.on_endpoint_control(
        speaker,
        ClusterEndpointControl::MessageChannel(
            label.clone(),
            ClusterMessageChannelControl::StopPublish,
        ),
    );
    assert_eq!(room.pop_output(()), Some(pubsub_out(&room, channel, ChannelControl::PubStop)));
    room.on_endpoint_control(
        listener,
        ClusterEndpointControl::MessageChannel(label, ClusterMessageChannelControl::Unsubscribe),
    );
    assert_eq!(room.pop_output(()), Some(pubsub_out(&room, channel, ChannelControl::UnsubAuto)));
    assert_eq!(room.pop_output(()), None);
    assert!(room.is_empty());
}

#[test]
fn content_type_normalization() {
    assert!(content_type_is_sdp(b"application/sdp"));
    assert!(content_type_is_sdp(b"application/sdp; charset=UTF-8"));
    assert!(content_type_is_sdp(b"  application/sdp  "));
    assert!(content_type_is_sdp(b"\tapplication/sdp\t;x"));
    assert!(!content_type_is_sdp(b"application/json"));
    assert!(!content_type_is_sdp(b"application/sdpx"));
    assert!(!content_type_is_sdp(b""));
}

#[test]
fn remote_track_publishes_into_directory_and_channel() {
    let hash = ClusterRoomHash::from(3);
    let mut room = ClusterRoom::new(hash);
    let endpoint: u64 = 1;
    let peer = PeerId::from("peer1");
    let name = TrackName::from("audio_main");
    let channel = gen_track_channel_id(hash, &peer, &name);
    let tracks_map = media_core::ids::tracks_map(hash);
    let track_key = media_core::ids::tracks_key(&peer, &name);

    room.on_endpoint_control(
        endpoint,
        ClusterEndpointControl::Join(
            peer.clone(),
            PeerMeta { metadata: None, extra_data: None },
            RoomInfoPublish { peer: false, tracks: true },
            RoomInfoSubscribe { peers: false, tracks: false },
            None,
        ),
    );
    assert_eq!(room.pop_output(()), None);

    let meta = TrackMeta { kind: MediaKind::Audio };
    room.on_endpoint_control(
        endpoint,
        ClusterEndpointControl::RemoteTrack(
            RemoteTrackId::from(3),
            ClusterRemoteTrackControl::Started(name.clone(), meta),
        ),
    );
    assert_eq!(room.pop_output(()), Some(pubsub_out(&room, channel, ChannelControl::PubStart)));
    let entry = TrackInfo::new(peer.clone(), name.clone(), meta);
    assert_eq!(
        room.pop_output(()),
        Some(RoomOutput::Sdn(
            RoomUserData(hash, RoomFeature::MetaData),
            FeaturesControl::DhtKv(DhtKvControl::MapCmd(
                tracks_map,
                MapControl::SetKey(track_key, entry.serialize())
            ))
        ))
    );
    assert_eq!(room.pop_output(()), None);

    room.on_endpoint_control(
        endpoint,
        ClusterEndpointControl::RemoteTrack(
            RemoteTrackId::from(3),
            ClusterRemoteTrackControl::Ended(name, meta),
        ),
    );
    assert_eq!(room.pop_output(()), Some(pubsub_out(&room, channel, ChannelControl::PubStop)));
    assert_eq!(
        room.pop_output(()),
        Some(RoomOutput::Sdn(
            RoomUserData(hash, RoomFeature::MetaData),
            FeaturesControl::DhtKv(DhtKvControl::MapCmd(
                tracks_map,
                MapControl::DelKey(track_key)
            ))
        ))
    );
    assert_eq!(room.pop_output(()), None);
}

#[test]
fn track_directory_events_fan_out_to_subscribers() {
    let hash = ClusterRoomHash::from(4);
    let mut room = ClusterRoom::new(hash);
    let endpoint: u64 = 6;
    let tracks_map = media_core::ids::tracks_map(hash);

    room.on_endpoint_control(
        endpoint,
        ClusterEndpointControl::Join(
            PeerId::from("watcher"),
            PeerMeta { metadata: None, extra_data: None },
            RoomInfoPublish { peer: false, tracks: false },
            RoomInfoSubscribe { peers: false, tracks: true },
            None,
        ),
    );
    assert_eq!(
        room.pop_output(()),
        Some(RoomOutput::Sdn(
            RoomUserData(hash, RoomFeature::MetaData),
            FeaturesControl::DhtKv(DhtKvControl::MapCmd(tracks_map, MapControl::Sub))
        ))
    );
    assert_eq!(room.pop_output(()), None);

    let entry = TrackInfo::new(
        PeerId::from("peer1"),
        TrackName::from("video_main"),
        TrackMeta { kind: MediaKind::Video },
    );
    room.on_sdn_event(
        RoomUserData(hash, RoomFeature::MetaData),
        FeaturesEvent::DhtKv(DhtKvEvent::MapEvent(
            tracks_map,
            MapEvent::OnSet(9, 1, entry.serialize()),
        )),
    );
    assert_eq!(
        room.pop_output(()),
        Some(RoomOutput::Endpoint(
            vec![endpoint],
            ClusterEndpointEvent::TrackStarted(
                PeerId::from("peer1"),
                TrackName::from("video_main"),
                TrackMeta { kind: MediaKind::Video }
            )
        ))
    );
    room.on_sdn_event(
        RoomUserData(hash, RoomFeature::MetaData),
        FeaturesEvent::DhtKv(DhtKvEvent::MapEvent(tracks_map, MapEvent::OnDel(9, 1))),
    );
    assert_eq!(
        room.pop_output(()),
        Some(RoomOutput::Endpoint(
            vec![endpoint],
            ClusterEndpointEvent::TrackStopped(
                PeerId::from("peer1"),
                TrackName::from("video_main"),
                TrackMeta { kind: MediaKind::Video }
            )
        ))
    );
    assert_eq!(room.pop_output(()), None);
}

#[test]
fn mixer_attach_subscribes_the_sources() {
    let hash = ClusterRoomHash::from(6);
    let mut room = ClusterRoom::new(hash);
    let src1 = TrackSource { peer: PeerId::from("peer1"), track: TrackName::from("audio_main") };
    let src2 = TrackSource { peer: PeerId::from("peer2"), track: TrackName::from("audio_main") };
    let c1 = gen_track_channel_id(hash, &src1.peer, &src1.track);
    let c2 = gen_track_channel_id(hash, &src2.peer, &src2.track);

    room.on_endpoint_control(
        1,
        ClusterEndpointControl::AudioMixer(ClusterAudioMixerControl::Attach(vec![
            src1.clone(),
            src2.clone(),
        ])),
    );
    assert_eq!(room.pop_output(()), Some(pubsub_out(&room, c1, ChannelControl::SubAuto)));
    assert_eq!(room.pop_output(()), Some(pubsub_out(&room, c2, ChannelControl::SubAuto)));
    assert_eq!(room.pop_output(()), None);

    room.on_endpoint_control(
        1,
        ClusterEndpointControl::AudioMixer(ClusterAudioMixerControl::Detach(vec![src1, src2])),
    );
    assert_eq!(room.pop_output(()), Some(pubsub_out(&room, c1, ChannelControl::UnsubAuto)));
    assert_eq!(room.pop_output(()), Some(pubsub_out(&room, c2, ChannelControl::UnsubAuto)));
    assert_eq!(room.pop_output(()), None);
}

#[test]
fn local_track_feedback_is_aggregated_per_channel() {
    let hash = ClusterRoomHash::from(8);
    let mut room = ClusterRoom::new(hash);
    let peer = PeerId::from("peer1");
    let name = TrackName::from("video_main");
    let channel = gen_track_channel_id(hash, &peer, &name);

    room.on_endpoint_control(
        1,
        ClusterEndpointControl::LocalTrack(
            LocalTrackId::from(1),
            ClusterLocalTrackControl::Subscribe(peer.clone(), name.clone()),
        ),
    );
    assert_eq!(room.pop_output(()), Some(pubsub_out(&room, channel, ChannelControl::SubAuto)));
    room.on_endpoint_control(
        2,
        ClusterEndpointControl::LocalTrack(
            LocalTrackId::from(1),
            ClusterLocalTrackControl::Subscribe(peer, name),
        ),
    );
    // second subscriber of the same channel: no second SubAuto
    assert_eq!(room.pop_output(()), None);

    room.on_endpoint_control(
        1,
        ClusterEndpointControl::LocalTrack(
            LocalTrackId::from(1),
            ClusterLocalTrackControl::DesiredBitrate(500_000),
        ),
    );
    assert_eq!(
        room.pop_output(()),
        Some(pubsub_out(
            &room,
            channel,
            ChannelControl::FeedbackAuto(media_core::sdn::Feedback {
                kind: 0,
                value: 500_000,
                min: 100,
                max: 200
            })
        ))
    );
    room.on_endpoint_control(
        2,
        ClusterEndpointControl::LocalTrack(
            LocalTrackId::from(1),
            ClusterLocalTrackControl::DesiredBitrate(900_000),
        ),
    );
    // the aggregate is the maximum over the channel's tracks
    assert_eq!(
        room.pop_output(()),
        Some(pubsub_out(
            &room,
            channel,
            ChannelControl::FeedbackAuto(media_core::sdn::Feedback {
                kind: 0,
                value: 900_000,
                min: 100,
                max: 200
            })
        ))
    );
    room.on_endpoint_control(
        1,
        ClusterEndpointControl::LocalTrack(
            LocalTrackId::from(1),
            ClusterLocalTrackControl::RequestKeyFrame,
        ),
    );
    assert_eq!(
        room.pop_output(()),
        Some(pubsub_out(
            &room,
            channel,
            ChannelControl::FeedbackAuto(media_core::sdn::Feedback {
                kind: 1,
                value: 1,
                min: 100,
                max: 200
            })
        ))
    );
    assert_eq!(room.pop_output(()), None);
}
