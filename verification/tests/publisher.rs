use media_core::cluster::{ClusterEndpointEvent, ClusterRemoteTrackEvent, ClusterRoomHash};
use media_core::ids::gen_track_channel_id;
use media_core::media::{MediaMeta, MediaPacket};
use media_core::media_track::Output;
use media_core::publisher::RoomChannelPublisher;
use media_core::sdn::{ChannelControl, Feedback, PubsubControl};
use media_core::types::{PeerId, RemoteTrackId, TrackName};

pub fn fake_audio() -> MediaPacket {
    MediaPacket {
        ts: 0,
        seq: 0,
        marker: true,
        nackable: false,
        layers: None,
        meta: MediaMeta::Opus { audio_level: None },
        data: vec![1, 2, 3, 4],
    }
}

// Track start => should register with the overlay.
// Track stop => should unregister with the overlay.
// Track media => should send data over the overlay.
#[test]
fn channel_publish_data() {
    let room = ClusterRoomHash::from(1);
    let mut publisher = RoomChannelPublisher::new(room);

    let endpoint: u64 = 2;
    let track = RemoteTrackId::from(3);
    let peer: PeerId = "peer1".to_string().into();
    let name: TrackName = "audio_main".to_string().into();
    let channel_id = gen_track_channel_id(room, &peer, &name);
    publisher.on_track_publish(endpoint, track, peer, name);
    assert_eq!(
        publisher.pop_output(()),
        Some(Output::Pubsub(PubsubControl(channel_id, ChannelControl::PubStart)))
    );
    assert_eq!(publisher.pop_output(()), None);

    let media = fake_audio();
    publisher.on_track_data(endpoint, track, media.clone());
    assert_eq!(
        publisher.pop_output(()),
        Some(Output::Pubsub(PubsubControl(channel_id, ChannelControl::PubData(media.serialize()))))
    );
    assert_eq!(publisher.pop_output(()), None);

    publisher.on_track_unpublish(endpoint, track);
    assert_eq!(
        publisher.pop_output(()),
        Some(Output::Pubsub(PubsubControl(channel_id, ChannelControl::PubStop)))
    );
    assert_eq!(publisher.pop_output(()), None);
    assert!(publisher.is_empty());
}

// Bitrate feedback fans out as a limit, key-frame feedback as a request.
#[test]
fn channel_feedback() {
    let room = ClusterRoomHash::from(1);
    let mut publisher = RoomChannelPublisher::new(room);

    let endpoint: u64 = 2;
    let track = RemoteTrackId::from(3);
    let peer: PeerId = "peer1".to_string().into();
    let name: TrackName = "audio_main".to_string().into();
    let channel_id = gen_track_channel_id(room, &peer, &name);
    publisher.on_track_publish(endpoint, track, peer, name);
    assert_eq!(
        publisher.pop_output(()),
        Some(Output::Pubsub(PubsubControl(channel_id, ChannelControl::PubStart)))
    );
    assert_eq!(publisher.pop_output(()), None);

    publisher.on_track_feedback(channel_id, Feedback::simple(0, 1000, 100, 200));
    assert_eq!(
        publisher.pop_output(()),
        Some(Output::Endpoint(
            vec![endpoint],
            ClusterEndpointEvent::RemoteTrack(
                track,
                ClusterRemoteTrackEvent::LimitBitrate { min: 1000, max: 1000 }
            )
        ))
    );

    publisher.on_track_feedback(channel_id, Feedback::simple(1, 1, 100, 200));
    assert_eq!(
        publisher.pop_output(()),
        Some(Output::Endpoint(
            vec![endpoint],
            ClusterEndpointEvent::RemoteTrack(track, ClusterRemoteTrackEvent::RequestKeyFrame)
        ))
    );
    assert_eq!(publisher.pop_output(()), None);

    publisher.on_track_unpublish(endpoint, track);
    assert_eq!(
        publisher.pop_output(()),
        Some(Output::Pubsub(PubsubControl(channel_id, ChannelControl::PubStop)))
    );
    assert_eq!(publisher.pop_output(()), None);
    assert!(publisher.is_empty());
}

#[test]
fn two_sessions_same_room_peer_should_not_crash() {
    let room = ClusterRoomHash::from(1);
    let mut publisher = RoomChannelPublisher::new(room);

    let endpoint1: u64 = 1;
    let endpoint2: u64 = 2;
    let track = RemoteTrackId::from(3);
    let peer: PeerId = "peer1".to_string().into();
    let name: TrackName = "audio_main".to_string().into();
    let channel_id = gen_track_channel_id(room, &peer, &name);

    publisher.on_track_publish(endpoint1, track, peer.clone(), name.clone());
    publisher.on_track_publish(endpoint2, track, peer, name);

    assert!(publisher.pop_output(()).is_some()); // PubStart
    assert!(publisher.pop_output(()).is_none());

    publisher.on_track_unpublish(endpoint1, track);
    publisher.on_track_unpublish(endpoint2, track);

    assert_eq!(
        publisher.pop_output(()),
        Some(Output::Pubsub(PubsubControl(channel_id, ChannelControl::PubStop)))
    ); // PubStop
    assert_eq!(publisher.pop_output(()), None);
    assert!(publisher.is_empty());
}

// Feedback of an unknown kind produces no endpoint output at all.
#[test]
fn unknown_feedback_kind_is_dropped() {
    let room = ClusterRoomHash::from(1);
    let mut publisher = RoomChannelPublisher::new(room);

    let endpoint: u64 = 2;
    let track = RemoteTrackId::from(3);
    let peer: PeerId = "peer1".to_string().into();
    let name: TrackName = "audio_main".to_string().into();
    let channel_id = gen_track_channel_id(room, &peer, &name);
    publisher.on_track_publish(endpoint, track, peer, name);
    assert!(publisher.pop_output(()).is_some()); // PubStart
    publisher.on_track_feedback(channel_id, Feedback::simple(7, 1000, 100, 200));
    assert_eq!(publisher.pop_output(()), None);
    publisher.on_track_unpublish(endpoint, track);
}

// Media of an unregistered track is silently dropped.
#[test]
fn media_for_unknown_track_is_dropped() {
    let room = ClusterRoomHash::from(1);
    let mut publisher = RoomChannelPublisher::new(room);
    publisher.on_track_data(9, RemoteTrackId::from(9), fake_audio());
    assert_eq!(publisher.pop_output(()), None);
    assert!(publisher.is_empty());
}
