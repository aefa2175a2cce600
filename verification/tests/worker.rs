use media_core::types::AppId;
use media_core::worker::{
    parse_stun_ufrag, EndpointInputLite, EndpointOutputLite, ExtIn, ExtOut, GroupInput,
    GroupOutput, MediaWorkerWebrtc, UdpAddr, VariantKind, WorkerError,
};

fn stun_binding_request(username: &[u8]) -> Vec<u8> {
    let mut b: Vec<u8> = Vec::new();
    b.push(0x00); // binding request
    b.push(0x01);
    let padded = (username.len() + 3) / 4 * 4;
    let attr_len = 4 + padded;
    b.push(((attr_len >> 8) & 0xff) as u8);
    b.push((attr_len & 0xff) as u8);
    b.extend_from_slice(&[0x21, 0x12, 0xa4, 0x42]); // magic cookie
    b.extend_from_slice(&[7u8; 12]); // transaction id
    b.push(0x00); // USERNAME
    b.push(0x06);
    b.push(((username.len() >> 8) & 0xff) as u8);
    b.push((username.len() & 0xff) as u8);
    b.extend_from_slice(username);
    for _ in username.len()..padded {
        b.push(0);
    }
    b
}

fn addr(last: u8, port: u16) -> UdpAddr {
    UdpAddr { ip: vec![192, 0, 2, last], port }
}

#[test]
fn stun_ufrag_extraction() {
    let req = stun_binding_request(b"abcd:efgh");
    assert_eq!(parse_stun_ufrag(req.as_slice()), Some(b"abcd".to_vec()));
    // username without a colon is taken whole
    let req2 = stun_binding_request(b"justone");
    assert_eq!(parse_stun_ufrag(req2.as_slice()), Some(b"justone".to_vec()));
    // not a binding request
    let mut bad = stun_binding_request(b"abcd:efgh");
    bad[1] = 2;
    assert_eq!(parse_stun_ufrag(bad.as_slice()), None);
    // no magic cookie
    let mut bad2 = stun_binding_request(b"abcd:efgh");
    bad2[4] = 0;
    assert_eq!(parse_stun_ufrag(bad2.as_slice()), None);
    // too short
    assert_eq!(parse_stun_ufrag(&[0, 1, 0, 0]), None);
}

#[test]
fn worker_binds_its_sockets_first() {
    let mut worker =
        MediaWorkerWebrtc::new(vec![addr(1, 3478), addr(2, 3479)], vec![], true);
    assert_eq!(worker.pop_output(), Some(GroupOutput::UdpListen(addr(1, 3478))));
    assert_eq!(worker.pop_output(), Some(GroupOutput::UdpListen(addr(2, 3479))));
    assert_eq!(worker.pop_output(), None);
}

#[test]
fn worker_demux_by_ufrag_then_by_address() {
    let mut worker = MediaWorkerWebrtc::new(vec![], vec![], false);
    let (ice_lite, index) =
        worker.spawn(AppId::from("app1"), VariantKind::Whep, b"abcd".to_vec());
    assert!(!ice_lite);
    assert_eq!(index, 0);

    // first datagram carries the STUN binding request and is routed by ufrag
    let from = addr(9, 50000);
    let stun = stun_binding_request(b"abcd:efgh");
    worker.on_event(GroupInput::UdpPacket { from: from.clone(), data: stun.clone() });
    assert_eq!(
        worker.pop_output(),
        Some(GroupOutput::Endpoint(0, EndpointInputLite::Net(from.clone(), stun)))
    );

    // later datagrams from the same address need no STUN at all
    let payload = vec![1, 2, 3];
    worker.on_event(GroupInput::UdpPacket { from: from.clone(), data: payload.clone() });
    assert_eq!(
        worker.pop_output(),
        Some(GroupOutput::Endpoint(0, EndpointInputLite::Net(from, payload)))
    );

    // datagrams from strangers are dropped
    let stranger = addr(13, 1);
    worker.on_event(GroupInput::UdpPacket { from: stranger, data: vec![1, 2, 3] });
    assert_eq!(worker.pop_output(), None);
}

#[test]
fn worker_refuses_requests_for_dead_sessions() {
    let mut worker = MediaWorkerWebrtc::new(vec![], vec![], false);
    worker.on_event(GroupInput::Ext(
        5,
        ExtIn::RemoteIce(77, VariantKind::Whep, b"candidate".to_vec()),
    ));
    assert_eq!(
        worker.pop_output(),
        Some(GroupOutput::Ext(
            5,
            ExtOut::RemoteIce(77, VariantKind::Whep, Err(WorkerError::RpcEndpointNotFound))
        ))
    );
    worker.on_event(GroupInput::Ext(5, ExtIn::Disconnect(78, VariantKind::Whep)));
    assert_eq!(
        worker.pop_output(),
        Some(GroupOutput::Ext(
            5,
            ExtOut::Disconnect(78, VariantKind::Whep, Err(WorkerError::RpcEndpointNotFound))
        ))
    );
}

#[test]
fn worker_restart_ice_spawns_a_fresh_session() {
    let mut worker = MediaWorkerWebrtc::new(vec![], vec![], true);
    worker.on_event(GroupInput::Ext(
        3,
        ExtIn::RestartIce(
            80,
            AppId::from("app1"),
            VariantKind::Webrtc { record: false },
            b"offer-sdp".to_vec(),
        ),
    ));
    assert_eq!(
        worker.pop_output(),
        Some(GroupOutput::NeedSpawn(
            80,
            AppId::from("app1"),
            VariantKind::Webrtc { record: false },
            b"offer-sdp".to_vec()
        ))
    );
    // the owner made a fresh transport and reports it back
    worker.on_spawn_result(
        3,
        80,
        VariantKind::Webrtc { record: false },
        Some((AppId::from("app1"), b"wxyz".to_vec(), b"answer-sdp".to_vec())),
    );
    assert_eq!(
        worker.pop_output(),
        Some(GroupOutput::Ext(
            0,
            ExtOut::RestartIce(
                80,
                VariantKind::Webrtc { record: false },
                Ok((true, b"answer-sdp".to_vec()))
            )
        ))
    );
}

#[test]
fn worker_reaps_an_empty_endpoint() {
    let mut worker = MediaWorkerWebrtc::new(vec![], vec![], false);
    let (_, index) = worker.spawn(AppId::from("app1"), VariantKind::Whep, b"abcd".to_vec());
    // cache the remote address
    let from = addr(9, 50000);
    let stun = stun_binding_request(b"abcd:efgh");
    worker.on_event(GroupInput::UdpPacket { from: from.clone(), data: stun });
    assert!(worker.pop_output().is_some());

    let r = worker.process_output(index, EndpointOutputLite::OnResourceEmpty);
    assert_eq!(r, GroupOutput::Continue);
    // its registrations are gone: the cached address no longer routes
    worker.on_event(GroupInput::UdpPacket { from, data: vec![1] });
    assert_eq!(worker.pop_output(), None);

    assert!(!worker.is_empty());
    worker.shutdown();
    assert!(worker.is_empty());
    assert_eq!(worker.empty_event(), GroupOutput::OnResourceEmpty);
}

#[test]
fn worker_forwards_to_live_sessions() {
    let mut worker = MediaWorkerWebrtc::new(vec![], vec![], false);
    let (_, index) = worker.spawn(
        AppId::from("app1"),
        VariantKind::Whip { record: true },
        b"uf".to_vec(),
    );
    worker.on_event(GroupInput::Ext(index, ExtIn::Disconnect(5, VariantKind::Whip {
        record: true,
    })));
    assert_eq!(
        worker.pop_output(),
        Some(GroupOutput::Endpoint(
            index,
            EndpointInputLite::Ext(ExtIn::Disconnect(5, VariantKind::Whip { record: true }))
        ))
    );
}
