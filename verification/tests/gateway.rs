use media_core::gateway::{
    parse_cluster_conn, NetAddr, PeerRouteEvent, RouteErrorType, RouteSession, RouteStage,
};
use media_core::types::AppId;

// The selector has no node to offer: the route emits RouteBegin, then a
// PoolEmpty route error with no destination, and fails with an empty
// response.
#[test]
fn gateway_pool_empty() {
    let (mut session, begin) =
        RouteSession::begin(AppId::from("app1"), 42, b"203.0.113.7".to_vec(), 1_000);
    assert_eq!(begin.session_id, 42);
    assert_eq!(begin.ts_ms, 1_000);
    assert_eq!(begin.event, PeerRouteEvent::RouteBegin { remote_ip: b"203.0.113.7".to_vec() });

    let (dest, err) = session.on_selected(1_010, None, 4321);
    assert_eq!(dest, None);
    let err = err.expect("a route error must be emitted");
    assert_eq!(
        err.event,
        PeerRouteEvent::RouteError {
            after_ms: 10,
            dest_node: None,
            error: RouteErrorType::PoolEmpty
        }
    );
    assert_eq!(session.stage, RouteStage::Done);
}

#[test]
fn gateway_route_success() {
    let (mut session, _begin) =
        RouteSession::begin(AppId::from("app1"), 7, b"198.51.100.9".to_vec(), 5_000);
    let (dest, err) = session.on_selected(5_001, Some(99), 4321);
    assert_eq!(dest, Some(NetAddr { node: 99, port: 4321 }));
    assert!(err.is_none());
    let done = session.on_rpc_result(5_020, true);
    assert_eq!(done.event, PeerRouteEvent::RouteSuccess { after_ms: 20, dest_node: 99 });
    assert_eq!(session.stage, RouteStage::Done);
}

#[test]
fn gateway_route_timeout() {
    let (mut session, _begin) =
        RouteSession::begin(AppId::from("app1"), 7, b"198.51.100.9".to_vec(), 5_000);
    let (_dest, _err) = session.on_selected(5_001, Some(12), 4321);
    let done = session.on_rpc_result(5_500, false);
    assert_eq!(
        done.event,
        PeerRouteEvent::RouteError {
            after_ms: 500,
            dest_node: Some(12),
            error: RouteErrorType::Timeout
        }
    );
}

#[test]
fn cluster_conn_id_parsing() {
    assert_eq!(parse_cluster_conn(b"42-abc"), Some((42, b"abc".to_vec())));
    assert_eq!(parse_cluster_conn(b"0-"), Some((0, Vec::new())));
    assert_eq!(parse_cluster_conn(b"4294967295-x"), Some((4294967295, b"x".to_vec())));
    // no separator
    assert_eq!(parse_cluster_conn(b"42"), None);
    // empty node part
    assert_eq!(parse_cluster_conn(b"-abc"), None);
    // not a number
    assert_eq!(parse_cluster_conn(b"4a-abc"), None);
    // too many digits
    assert_eq!(parse_cluster_conn(b"99999999999-abc"), None);
    // value beyond 32 bits
    assert_eq!(parse_cluster_conn(b"4294967296-abc"), None);
}
