use media_core::cluster::{
    ClusterEndpointControl, ClusterEndpointEvent, ClusterRoomHash, MediaCluster, Output,
};
use media_core::ids;
use media_core::imap::rooms_map_len;
use media_core::protocol::PeerInfo;
use media_core::sdn::{
    DhtKvControl, DhtKvEvent, FeaturesControl, FeaturesEvent, MapControl, MapEvent, RoomFeature,
    RoomUserData,
};
use media_core::types::{
    AppContext, AppId, PeerId, PeerMeta, RoomId, RoomInfoPublish, RoomInfoSubscribe,
};

#[test]
fn multi_tenancy_room() {
    let app_root = AppContext::root_app();
    let app1 = AppContext { app: AppId::from("app1") };
    let app2 = AppContext { app: AppId::from("app2") };

    let room: RoomId = RoomId::from("same_room");

    let app_root_room = ClusterRoomHash::generate(&app_root, &room);
    let app1_room = ClusterRoomHash::generate(&app1, &room);
    let app2_room = ClusterRoomHash::generate(&app2, &room);

    assert_ne!(app_root_room, app1_room);
    assert_ne!(app_root_room, app2_room);
    assert_ne!(app1_room, app2_room);
}

#[test]
fn room_manager_should_work() {
    let mut cluster = MediaCluster::default();

    let endpoint: u64 = 1;
    let userdata = RoomUserData(ClusterRoomHash::from(1), RoomFeature::MetaData);
    let room_peers_map = ids::peers_map(userdata.0);
    let peer = PeerId::from("peer1");
    let peer_key = ids::peers_key(&peer);
    let peer_info = PeerInfo::new(peer.clone(), PeerMeta { metadata: None, extra_data: None });

    // A join with scope (peer true, track false) should Set and Sub.
    cluster.on_endpoint_control(
        (),
        endpoint,
        userdata.0,
        ClusterEndpointControl::Join(
            peer.clone(),
            peer_info.meta.clone(),
            RoomInfoPublish { peer: true, tracks: false },
            RoomInfoSubscribe { peers: true, tracks: false },
            None,
        ),
    );
    assert_eq!(
        cluster.pop_output(()),
        Some(Output::Sdn(
            userdata,
            FeaturesControl::DhtKv(DhtKvControl::MapCmd(
                room_peers_map,
                MapControl::SetKey(peer_key, peer_info.serialize())
            ))
        ))
    );
    assert_eq!(
        cluster.pop_output(()),
        Some(Output::Sdn(
            userdata,
            FeaturesControl::DhtKv(DhtKvControl::MapCmd(room_peers_map, MapControl::Sub))
        ))
    );
    assert_eq!(cluster.pop_output(()), None);
    assert_eq!(cluster.tasks(), 1);
    assert_eq!(rooms_map_len(&cluster.rooms_map), 1);

    // Correct forward to the room.
    cluster.on_sdn_event(
        (),
        userdata,
        FeaturesEvent::DhtKv(DhtKvEvent::MapEvent(
            room_peers_map,
            MapEvent::OnSet(peer_key, 1, peer_info.serialize()),
        )),
    );
    assert_eq!(
        cluster.pop_output(()),
        Some(Output::Endpoint(
            vec![endpoint],
            ClusterEndpointEvent::PeerJoined(peer.clone(), peer_info.meta.clone())
        ))
    );
    assert_eq!(cluster.pop_output(()), None);

    // Leaving should Del and Unsub, then destroy the room.
    cluster.on_endpoint_control((), endpoint, userdata.0, ClusterEndpointControl::Leave);
    assert_eq!(
        cluster.pop_output(()),
        Some(Output::Sdn(
            userdata,
            FeaturesControl::DhtKv(DhtKvControl::MapCmd(
                room_peers_map,
                MapControl::DelKey(peer_key)
            ))
        ))
    );
    assert_eq!(
        cluster.pop_output(()),
        Some(Output::Sdn(
            userdata,
            FeaturesControl::DhtKv(DhtKvControl::MapCmd(room_peers_map, MapControl::Unsub))
        ))
    );
    assert_eq!(cluster.pop_output(()), Some(Output::Continue));
    assert_eq!(cluster.pop_output(()), None);
    assert_eq!(cluster.tasks(), 0);
    assert_eq!(rooms_map_len(&cluster.rooms_map), 0);
}

#[test]
fn sdn_event_for_unknown_room_is_a_no_op() {
    let mut cluster = MediaCluster::default();
    let userdata = RoomUserData(ClusterRoomHash::from(77), RoomFeature::MetaData);
    let room_peers_map = ids::peers_map(userdata.0);
    cluster.on_sdn_event(
        (),
        userdata,
        FeaturesEvent::DhtKv(DhtKvEvent::MapEvent(room_peers_map, MapEvent::OnDel(5, 1))),
    );
    assert_eq!(cluster.pop_output(()), None);
    assert_eq!(cluster.tasks(), 0);
}

#[test]
fn engine_empty_only_after_shutdown() {
    let mut cluster = MediaCluster::default();
    assert!(!cluster.is_empty());
    cluster.shutdown(());
    assert!(cluster.is_empty());
    assert_eq!(cluster.empty_event(), Output::OnResourceEmpty);
}
