//! Gateway dispatch: per signalling request, pick an edge node, forward the
//! call, and account for the route.
//!
//! The asynchronous plumbing (the connector-telemetry channel, the RPC
//! client) lives outside; this module decides everything: which telemetry
//! event is emitted at which stage, where the call is forwarded, and how a
//! continuation request finds the node that owns its session.

use crate::types::AppId;
use vstd::prelude::*;

verus! {

/// Service a session asks the gateway for.
#[derive(Clone, Copy, Debug, PartialEq, Eq, Structural)]
pub enum ServiceKind {
    Webrtc,
    RtpEngine,
}

/// Why a route failed.
#[derive(Clone, Copy, Debug, PartialEq, Eq, Structural)]
pub enum RouteErrorType {
    PoolEmpty,
    Timeout,
}

/// Route telemetry event of one signalling request.
#[derive(Clone, Debug, PartialEq, Eq)]
pub enum PeerRouteEvent {
    RouteBegin { remote_ip: Vec<u8> },
    RouteSuccess { after_ms: u32, dest_node: u32 },
    RouteError { after_ms: u32, dest_node: Option<u32>, error: RouteErrorType },
}

/// One request to the connector-telemetry channel.
#[derive(Clone, Debug, PartialEq, Eq)]
pub struct ConnectorRequest {
    pub ts_ms: u64,
    pub app: AppId,
    pub session_id: u64,
    pub event: PeerRouteEvent,
}

/// A node address in the cluster's virtual network: the node id is the
/// IPv4 address.
#[derive(Clone, Copy, Debug, PartialEq, Eq, Structural)]
pub struct NetAddr {
    pub node: u32,
    pub port: u16,
}

/// Computes the virtual-network address of a node's RPC port.
pub fn node_vnet_addr(node: u32, port: u16) -> (r: NetAddr)
    ensures
        r == (NetAddr { node, port }),
{
    NetAddr { node, port }
}

/// Elapsed milliseconds, truncated to the 32-bit telemetry field.
pub open spec fn after_ms_spec(now_ms: u64, started_at_ms: u64) -> u32 {
    (((now_ms - started_at_ms) as u64) & 0xffff_ffff) as u32
}

/// Where a route currently stands.
#[derive(Clone, Copy, Debug, PartialEq, Eq, Structural)]
pub enum RouteStage {
    Selecting,
    Routing(u32),
    Done,
}

/// One signalling request's route: terminal in a single call, no retries
/// at this layer.
#[derive(Clone, Debug, PartialEq, Eq)]
pub struct RouteSession {
    pub app: AppId,
    pub session_id: u64,
    pub started_at_ms: u64,
    pub stage: RouteStage,
}

/// Gateway-side handler of signalling requests relayed from other nodes.
#[derive(Debug, Default)]
pub struct MediaRemoteRpcHandlerImpl {}

impl MediaRemoteRpcHandlerImpl {
    /// Telemetry for a route that begins: emitted before the node is
    /// chosen.
    pub fn feedback_route_begin(app: AppId, session_id: u64, now_ms: u64, remote_ip: Vec<u8>) -> (r:
        ConnectorRequest)
        ensures
            r.ts_ms == now_ms,
            r.app == app,
            r.session_id == session_id,
            r.event == (PeerRouteEvent::RouteBegin { remote_ip }),
    {
        ConnectorRequest {
            ts_ms: now_ms,
            app,
            session_id,
            event: PeerRouteEvent::RouteBegin { remote_ip },
        }
    }

    /// Telemetry for a route that reached its node.
    pub fn feedback_route_success(
        app: AppId,
        session_id: u64,
        now_ms: u64,
        after_ms: u32,
        dest_node: u32,
    ) -> (r: ConnectorRequest)
        ensures
            r.ts_ms == now_ms,
            r.app == app,
            r.session_id == session_id,
            r.event == (PeerRouteEvent::RouteSuccess { after_ms, dest_node }),
    {
        ConnectorRequest {
            ts_ms: now_ms,
            app,
            session_id,
            event: PeerRouteEvent::RouteSuccess { after_ms, dest_node },
        }
    }

    /// Telemetry for a route that failed.
    pub fn feedback_route_error(
        app: AppId,
        session_id: u64,
        now_ms: u64,
        after_ms: u32,
        dest_node: Option<u32>,
        error: RouteErrorType,
    ) -> (r: ConnectorRequest)
        ensures
            r.ts_ms == now_ms,
            r.app == app,
            r.session_id == session_id,
            r.event == (PeerRouteEvent::RouteError { after_ms, dest_node, error }),
    {
        ConnectorRequest {
            ts_ms: now_ms,
            app,
            session_id,
            event: PeerRouteEvent::RouteError { after_ms, dest_node, error },
        }
    }
}

impl RouteSession {
    /// Starts a route: remembers when it began and emits `RouteBegin`.
    pub fn begin(app: AppId, session_id: u64, remote_ip: Vec<u8>, now_ms: u64) -> (r: (
        RouteSession,
        ConnectorRequest,
    ))
        ensures
            r.0.app@ == app@,
            r.0.session_id == session_id,
            r.0.started_at_ms == now_ms,
            r.0.stage == RouteStage::Selecting,
            r.1.ts_ms == now_ms,
            r.1.app@ == app@,
            r.1.session_id == session_id,
            r.1.event == (PeerRouteEvent::RouteBegin { remote_ip }),
    {
        let app2 = AppId(vstd::slice::slice_to_vec(app.0.as_slice()));
        let ev = MediaRemoteRpcHandlerImpl::feedback_route_begin(app2, session_id, now_ms, remote_ip);
        (RouteSession { app, session_id, started_at_ms: now_ms, stage: RouteStage::Selecting }, ev)
    }

    /// Takes the selector's answer.  With a node the route proceeds and
    /// the forwarding address is returned; with none it fails right here
    /// with a `PoolEmpty` route error and no destination.
    pub fn on_selected(&mut self, now_ms: u64, selected: Option<u32>, rpc_port: u16) -> (r: (
        Option<NetAddr>,
        Option<ConnectorRequest>,
    ))
        requires
            old(self).stage == RouteStage::Selecting,
            now_ms >= old(self).started_at_ms,
        ensures
            final(self).app == old(self).app,
            final(self).session_id == old(self).session_id,
            final(self).started_at_ms == old(self).started_at_ms,
            match selected {
                Some(node) => {
                    &&& final(self).stage == RouteStage::Routing(node)
                    &&& r.0 == Some(NetAddr { node, port: rpc_port })
                    &&& r.1 is None
                },
                None => {
                    &&& final(self).stage == RouteStage::Done
                    &&& r.0 is None
                    &&& match r.1 {
                        Some(ev) => {
                            &&& ev.ts_ms == now_ms
                            &&& ev.app@ == old(self).app@
                            &&& ev.session_id == old(self).session_id
                            &&& ev.event == (PeerRouteEvent::RouteError {
                                after_ms: after_ms_spec(now_ms, old(self).started_at_ms),
                                dest_node: None,
                                error: RouteErrorType::PoolEmpty,
                            })
                        },
                        None => false,
                    }
                },
            },
    {
        match selected {
            Some(node) => {
                self.stage = RouteStage::Routing(node);
                (Some(node_vnet_addr(node, rpc_port)), None)
            },
            None => {
                self.stage = RouteStage::Done;
                let after = ((now_ms - self.started_at_ms) & 0xffff_ffff) as u32;
                let app2 = AppId(vstd::slice::slice_to_vec(self.app.0.as_slice()));
                let ev = MediaRemoteRpcHandlerImpl::feedback_route_error(
                    app2,
                    self.session_id,
                    now_ms,
                    after,
                    None,
                    RouteErrorType::PoolEmpty,
                );
                (None, Some(ev))
            },
        }
    }

    /// Takes the downstream call's outcome: success telemetry when the
    /// node answered, a `Timeout` route error naming the node when it did
    /// not.
    pub fn on_rpc_result(&mut self, now_ms: u64, answered: bool) -> (r: ConnectorRequest)
        requires
            old(self).stage is Routing,
            now_ms >= old(self).started_at_ms,
        ensures
            final(self).app == old(self).app,
            final(self).session_id == old(self).session_id,
            final(self).started_at_ms == old(self).started_at_ms,
            final(self).stage == RouteStage::Done,
            r.ts_ms == now_ms,
            r.app@ == old(self).app@,
            r.session_id == old(self).session_id,
            r.event == (if answered {
                PeerRouteEvent::RouteSuccess {
                    after_ms: after_ms_spec(now_ms, old(self).started_at_ms),
                    dest_node: old(self).stage->Routing_0,
                }
            } else {
                PeerRouteEvent::RouteError {
                    after_ms: after_ms_spec(now_ms, old(self).started_at_ms),
                    dest_node: Some(old(self).stage->Routing_0),
                    error: RouteErrorType::Timeout,
                }
            }),
    {
        let node = match self.stage {
            RouteStage::Routing(n) => n,
            _ => 0,
        };
        self.stage = RouteStage::Done;
        let after = ((now_ms - self.started_at_ms) & 0xffff_ffff) as u32;
        let app2 = AppId(vstd::slice::slice_to_vec(self.app.0.as_slice()));
        if answered {
            MediaRemoteRpcHandlerImpl::feedback_route_success(
                app2,
                self.session_id,
                now_ms,
                after,
                node,
            )
        } else {
            MediaRemoteRpcHandlerImpl::feedback_route_error(
                app2,
                self.session_id,
                now_ms,
                after,
                Some(node),
                RouteErrorType::Timeout,
            )
        }
    }
}

/// Decimal value of a digit string.
pub open spec fn dec_val(s: Seq<u8>) -> int
    decreases s.len(),
{
    if s.len() == 0 {
        0
    } else {
        dec_val(s.drop_last()) * 10 + (s.last() - 0x30)
    }
}

/// Whether every byte is an ASCII digit.
pub open spec fn all_digits(s: Seq<u8>) -> bool {
    forall|i: int| 0 <= i < s.len() ==> 0x30 <= #[trigger] s[i] <= 0x39
}

/// First index of `b` in `s`, or -1.
pub open spec fn find_byte(s: Seq<u8>, b: u8) -> int
    decreases s.len(),
{
    if s.len() == 0 {
        -1
    } else if s[0] == b {
        0
    } else {
        let r = find_byte(s.subrange(1, s.len() as int), b);
        if r == -1 {
            -1
        } else {
            r + 1
        }
    }
}

/// `find_byte` finds the first occurrence, and only fails when the byte is
/// absent.
pub proof fn lemma_find_byte(s: Seq<u8>, b: u8)
    ensures
        s.contains(b) ==> {
            &&& 0 <= find_byte(s, b) < s.len()
            &&& s[find_byte(s, b)] == b
            &&& forall|j: int| 0 <= j < find_byte(s, b) ==> s[j] != b
        },
        !s.contains(b) ==> find_byte(s, b) == -1,
    decreases s.len(),
{
    if s.len() == 0 {
    } else if s[0] == b {
    } else {
        let tail = s.subrange(1, s.len() as int);
        lemma_find_byte(tail, b);
        if s.contains(b) {
            let w = choose|w: int| 0 <= w < s.len() && s[w] == b;
            assert(w != 0);
            assert(tail[w - 1] == b);
            assert(tail.contains(b));
        }
        if tail.contains(b) {
            let f = find_byte(tail, b);
            assert(s[f + 1] == tail[f]);
            assert(s.contains(b)) by {
                assert(s[f + 1] == b);
            }
            assert(find_byte(s, b) == f + 1);
            assert forall|j: int| 0 <= j < f + 1 implies s[j] != b by {
                if j > 0 {
                    assert(tail[j - 1] != b);
                    assert(s[j] == tail[j - 1]);
                }
            }
        }
    }
}

/// A well-formed cluster connection id: a node id in decimal (at most ten
/// digits, value fitting 32 bits), a dash, then the opaque session tag.
pub open spec fn spec_parse_conn(s: Seq<u8>) -> Option<(u32, Seq<u8>)> {
    let i = find_byte(s, 0x2d);
    if i < 1 || i > 10 {
        None
    } else if !all_digits(s.subrange(0, i)) {
        None
    } else if dec_val(s.subrange(0, i)) > 0xffff_ffff {
        None
    } else {
        Some((dec_val(s.subrange(0, i)) as u32, s.subrange(i + 1, s.len() as int)))
    }
}

/// A digit string of `n` digits is below `10^n` (spelled out for the
/// lengths the connection id allows).
pub proof fn lemma_dec_val_small(s: Seq<u8>)
    requires
        all_digits(s),
        s.len() <= 10,
    ensures
        dec_val(s) < pow10(s.len()),
    decreases s.len(),
{
    if s.len() > 0 {
        assert(all_digits(s.drop_last())) by {
            assert(forall|i: int|
                0 <= i < s.len() - 1 ==> #[trigger] s.drop_last()[i] == s[i]);
        }
        lemma_dec_val_small(s.drop_last());
        assert(s.last() - 0x30 <= 9);
        assert(dec_val(s.drop_last()) * 10 <= (pow10((s.len() - 1) as nat) - 1) * 10)
            by (nonlinear_arith)
            requires
                dec_val(s.drop_last()) <= pow10((s.len() - 1) as nat) - 1,
        ;
    } else {
    }
}

/// Ten to the `n`.
pub open spec fn pow10(n: nat) -> int
    decreases n,
{
    if n == 0 {
        1
    } else {
        10 * pow10((n - 1) as nat)
    }
}

/// Parses a cluster connection id into the owning node and the opaque
/// session tag; `None` exactly on malformed input.
pub fn parse_cluster_conn(s: &[u8]) -> (r: Option<(u32, Vec<u8>)>)
    ensures
        match r {
            Some(p) => spec_parse_conn(s@) == Some((p.0, p.1@)),
            None => spec_parse_conn(s@) is None,
        },
{
    proof {
        lemma_find_byte(s@, 0x2d);
    }
    let n = s.len();
    let mut i: usize = 0;
    while i < n
        invariant
            i <= n,
            n == s@.len(),
            forall|j: int| 0 <= j < i ==> s@[j] != 0x2d,
        decreases n - i,
    {
        if s[i] == 0x2d {
            proof {
                lemma_find_byte(s@, 0x2d);
                assert(s@[i as int] == 0x2d);
                assert(s@.contains(0x2d));
                assert(i as int == find_byte(s@, 0x2d)) by {
                    if (i as int) < find_byte(s@, 0x2d) {
                        assert(s@[i as int] != 0x2d);
                    }
                    if find_byte(s@, 0x2d) < i as int {
                        assert(s@[find_byte(s@, 0x2d)] != 0x2d);
                    }
                }
            }
            if i < 1 || i > 10 {
                return None;
            }
            let mut acc: u64 = 0;
            let mut j: usize = 0;
            proof {
                assert(all_digits(s@.subrange(0, 0)));
            }
            while j < i
                invariant
                    j <= i,
                    1 <= i <= 10,
                    i < n,
                    n == s@.len(),
                    i as int == find_byte(s@, 0x2d),
                    all_digits(s@.subrange(0, j as int)),
                    acc as int == dec_val(s@.subrange(0, j as int)),
                    acc < 10_000_000_000,
                decreases i - j,
            {
                let b = s[j];
                if b < 0x30 || b > 0x39 {
                    proof {
                        assert(s@.subrange(0, i as int)[j as int] == s@[j as int]);
                        assert(!all_digits(s@.subrange(0, i as int)));
                    }
                    return None;
                }
                proof {
                    assert(s@.subrange(0, j + 1).drop_last() =~= s@.subrange(0, j as int));
                    assert(s@.subrange(0, j + 1).last() == s@[j as int]);
                    assert(all_digits(s@.subrange(0, j + 1))) by {
                        assert(forall|k: int|
                            0 <= k < j + 1 ==> #[trigger] s@.subrange(0, j + 1)[k] == s@[k]);
                    }
                    lemma_dec_val_small(s@.subrange(0, j + 1));
                    assert(pow10(10) == 10_000_000_000) by {
                        reveal_with_fuel(pow10, 11);
                    }
                    lemma_pow10_monotone(s@.subrange(0, j + 1).len(), 10);
                }
                acc = acc * 10 + ((b - 0x30) as u64);
                j = j + 1;
            }
            proof {
                assert(s@.subrange(0, i as int) =~= s@.subrange(0, i as int));
                assert(all_digits(s@.subrange(0, i as int)));
            }
            if acc > 0xffff_ffff {
                return None;
            }
            let tag = vstd::slice::slice_to_vec(
                vstd::slice::slice_subrange(s, i + 1, n),
            );
            return Some((acc as u32, tag));
        }
        i = i + 1;
    }
    proof {
        lemma_find_byte(s@, 0x2d);
        if s@.contains(0x2d) {
            assert(s@[find_byte(s@, 0x2d)] != 0x2d);
        }
    }
    None
}

/// `pow10` is positive and monotone.
pub proof fn lemma_pow10_monotone(m: nat, n: nat)
    requires
        m <= n,
    ensures
        0 < pow10(m),
        pow10(m) <= pow10(n),
    decreases n,
{
    if n == 0 {
    } else if m == n {
        lemma_pow10_monotone((n - 1) as nat, (n - 1) as nat);
    } else {
        lemma_pow10_monotone(m, (n - 1) as nat);
    }
}

} // verus!
