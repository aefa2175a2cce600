//! Per-session worker group: endpoint task slots multiplexed over shared
//! UDP sockets.
//!
//! The WebRTC transport itself (ICE, DTLS, SRTP, SDP) runs outside; this
//! module decides everything else: which endpoint task a datagram belongs
//! to (by cached peer address, or by the server-side ICE ufrag of the
//! leading STUN binding request), what configuration a spawned session
//! gets, how external requests for dead sessions are refused, and when the
//! worker as a whole is empty.

use crate::bytes::be16_val;
use crate::cluster::{ClusterEndpointControl, ClusterEndpointEvent, ClusterRoomHash};
use crate::gateway::{find_byte, lemma_find_byte};
use crate::types::AppId;
use std::collections::VecDeque;
use vstd::prelude::*;

verus! {

/// A UDP peer address.
#[derive(Clone, Debug, PartialEq, Eq)]
pub struct UdpAddr {
    pub ip: Vec<u8>,
    pub port: u16,
}

impl View for UdpAddr {
    type V = (Seq<u8>, u16);

    open spec fn view(&self) -> (Seq<u8>, u16) {
        (self.ip@, self.port)
    }
}

/// Byte-for-byte slice equality.
pub fn bytes_eq(a: &[u8], b: &[u8]) -> (r: bool)
    ensures
        r == (a@ == b@),
{
    if a.len() != b.len() {
        proof {
            assert(a@.len() != b@.len());
        }
        return false;
    }
    let n = a.len();
    let mut i: usize = 0;
    while i < n
        invariant
            i <= n,
            n == a@.len(),
            n == b@.len(),
            forall|j: int| 0 <= j < i ==> a@[j] == b@[j],
        decreases n - i,
    {
        if a[i] != b[i] {
            proof {
                assert(a@[i as int] != b@[i as int]);
            }
            return false;
        }
        i = i + 1;
    }
    proof {
        assert(a@ =~= b@);
    }
    true
}

/// Variant of a spawned session.
#[derive(Clone, Copy, Debug, PartialEq, Eq, Structural)]
pub enum VariantKind {
    Whip { record: bool },
    Whep,
    Webrtc { record: bool },
}

/// Configuration an endpoint task is created with.
#[derive(Clone, Debug, PartialEq, Eq)]
pub struct EndpointCfg {
    pub app: AppId,
    pub max_ingress_bitrate: u64,
    pub max_egress_bitrate: u64,
    pub record: bool,
}

/// The configuration each variant gets: a fixed bitrate budget, and
/// recording only where the variant asks for it.
pub open spec fn cfg_record(variant: VariantKind) -> bool {
    match variant {
        VariantKind::Whip { record } => record,
        VariantKind::Whep => false,
        VariantKind::Webrtc { record } => record,
    }
}

/// Builds the endpoint configuration of a variant.
pub fn build_endpoint_cfg(app: AppId, variant: VariantKind) -> (r: EndpointCfg)
    ensures
        r.app == app,
        r.max_ingress_bitrate == 2_500_000,
        r.max_egress_bitrate == 2_500_000,
        r.record == cfg_record(variant),
{
    EndpointCfg {
        app,
        max_ingress_bitrate: 2_500_000,
        max_egress_bitrate: 2_500_000,
        record: match variant {
            VariantKind::Whip { record } => record,
            VariantKind::Whep => false,
            VariantKind::Webrtc { record } => record,
        },
    }
}

/// Requests reaching the worker from the signalling layer.
#[derive(Clone, Debug, PartialEq, Eq)]
pub enum ExtIn {
    RemoteIce(u64, VariantKind, Vec<u8>),
    RestartIce(u64, AppId, VariantKind, Vec<u8>),
    Disconnect(u64, VariantKind),
}

/// Worker errors surfaced to the signalling layer.
#[derive(Clone, Copy, Debug, PartialEq, Eq, Structural)]
pub enum WorkerError {
    RpcEndpointNotFound,
}

/// Answers handed back to the signalling layer.
#[derive(Debug, PartialEq, Eq)]
pub enum ExtOut {
    RemoteIce(u64, VariantKind, Result<(), WorkerError>),
    RestartIce(u64, VariantKind, Result<(bool, Vec<u8>), WorkerError>),
    Disconnect(u64, VariantKind, Result<(), WorkerError>),
}

/// Input of the worker group.
#[derive(Clone, Debug, PartialEq, Eq)]
pub enum GroupInput {
    UdpListenResult { addr: UdpAddr, slot: usize, ok: bool },
    UdpPacket { from: UdpAddr, data: Vec<u8> },
    Cluster(usize, ClusterEndpointEvent),
    Ext(usize, ExtIn),
}

/// What an endpoint task reported; the worker translates these.
#[derive(Debug, PartialEq, Eq)]
pub enum EndpointOutputLite {
    Net(UdpAddr, Vec<u8>),
    Cluster(ClusterRoomHash, ClusterEndpointControl),
    PeerEvent(u64, u64, Vec<u8>),
    RecordEvent(u64, u64, Vec<u8>),
    Ext(ExtOut),
    OnResourceEmpty,
    Continue,
}

/// What an endpoint task is fed.
#[derive(Clone, Debug, PartialEq, Eq)]
pub enum EndpointInputLite {
    Net(UdpAddr, Vec<u8>),
    Cluster(ClusterEndpointEvent),
    Ext(ExtIn),
}

/// Output of the worker group.
#[derive(Debug, PartialEq, Eq)]
pub enum GroupOutput {
    UdpListen(UdpAddr),
    UdpSend(usize, UdpAddr, Vec<u8>),
    Endpoint(usize, EndpointInputLite),
    Cluster(usize, ClusterRoomHash, ClusterEndpointControl),
    PeerEvent(usize, u64, u64, Vec<u8>),
    RecordEvent(usize, u64, u64, Vec<u8>),
    Ext(usize, ExtOut),
    NeedSpawn(u64, AppId, VariantKind, Vec<u8>),
    OnResourceEmpty,
    Continue,
}

/// Four-byte alignment of a STUN attribute value.
pub open spec fn pad4(l: int) -> int {
    l + ((4 - l % 4) % 4)
}

/// Position and length of the first USERNAME attribute value at or after
/// `pos`.
pub open spec fn find_username(s: Seq<u8>, pos: int) -> Option<(int, int)>
    decreases s.len() - pos,
{
    if pos < 0 || pos + 4 > s.len() {
        None
    } else {
        let t = be16_val(s[pos], s[pos + 1]) as int;
        let l = be16_val(s[pos + 2], s[pos + 3]) as int;
        if pos + 4 + l > s.len() {
            None
        } else if t == 6 {
            Some((pos + 4, l))
        } else if pos + 4 + pad4(l) > s.len() {
            None
        } else {
            find_username(s, pos + 4 + pad4(l))
        }
    }
}

/// Server-side ICE ufrag of a leading STUN binding request: the part of
/// the USERNAME attribute before the colon.  `None` when the datagram is
/// no such request or carries no username.
pub open spec fn stun_ufrag(s: Seq<u8>) -> Option<Seq<u8>> {
    if s.len() >= 20 && s[0] == 0 && s[1] == 1 && s[4] == 0x21 && s[5] == 0x12 && s[6] == 0xa4
        && s[7] == 0x42 {
        match find_username(s, 20) {
            Some(pl) => {
                let v = s.subrange(pl.0, pl.0 + pl.1);
                let i = find_byte(v, 0x3a);
                if i >= 0 {
                    Some(v.subrange(0, i))
                } else {
                    Some(v)
                }
            },
            None => None,
        }
    } else {
        None
    }
}

/// Extracts the server-side ufrag of a leading STUN binding request.
pub fn parse_stun_ufrag(data: &[u8]) -> (r: Option<Vec<u8>>)
    ensures
        match r {
            Some(v) => stun_ufrag(data@) == Some(v@),
            None => stun_ufrag(data@) is None,
        },
{
    let n = data.len();
    if n < 20 || data[0] != 0 || data[1] != 1 || data[4] != 0x21 || data[5] != 0x12 || data[6]
        != 0xa4 || data[7] != 0x42 {
        return None;
    }
    let mut pos: usize = 20;
    loop
        invariant
            20 <= pos,
            n == data@.len(),
            find_username(data@, 20) == find_username(data@, pos as int),
        ensures
            find_username(data@, 20) is Some,
            match find_username(data@, 20) {
                Some(pl) => pos as int == pl.0 - 4 && pl.0 + pl.1 <= n && pl.1 == be16_val(
                    data@[pos as int + 2],
                    data@[pos as int + 3],
                ) as int && pos + 4 <= n,
                None => false,
            },
        decreases n - pos,
    {
        if pos >= n || n - pos < 4 {
            proof {
                assert(find_username(data@, pos as int) is None);
            }
            return None;
        }
        let t = ((data[pos] as u16) << 8) | (data[pos + 1] as u16);
        let l = ((data[pos + 2] as u16) << 8) | (data[pos + 3] as u16);
        if n - pos - 4 < l as usize {
            proof {
                assert(find_username(data@, pos as int) is None);
            }
            return None;
        }
        if t == 6 {
            proof {
                assert(find_username(data@, pos as int) == Some(
                    (pos + 4 as int, l as int),
                ));
            }
            break ;
        }
        let lpad = (l as usize) + ((4 - (l as usize) % 4) % 4);
        proof {
            assert(lpad as int == pad4(l as int));
        }
        if n - pos - 4 < lpad {
            proof {
                assert(find_username(data@, pos as int) is None);
            }
            return None;
        }
        proof {
            assert(find_username(data@, pos as int) == find_username(
                data@,
                pos as int + 4 + pad4(l as int),
            ));
        }
        pos = pos + 4 + lpad;
    }
    let ghost pl = find_username(data@, 20).unwrap();
    let l = (((data[pos + 2] as u16) << 8) | (data[pos + 3] as u16)) as usize;
    proof {
        assert(l as int == pl.1);
        assert(pos as int + 4 == pl.0);
        assert(pl.0 + pl.1 <= n);
    }
    let vstart = pos + 4;
    let value = vstd::slice::slice_to_vec(
        vstd::slice::slice_subrange(data, vstart, vstart + l),
    );
    proof {
        assert(value@ == data@.subrange(pl.0, pl.0 + pl.1));
        lemma_find_byte(value@, 0x3a);
    }
    let m = value.len();
    let mut i: usize = 0;
    while i < m
        invariant
            i <= m,
            m == value@.len(),
            n == data@.len(),
            0 <= pl.0 && pl.0 + pl.1 <= n,
            find_username(data@, 20) == Some(pl),
            data@.len() >= 20 && data@[0] == 0 && data@[1] == 1 && data@[4] == 0x21 && data@[5]
                == 0x12 && data@[6] == 0xa4 && data@[7] == 0x42,
            value@ == data@.subrange(pl.0, pl.0 + pl.1),
            forall|j: int| 0 <= j < i ==> value@[j] != 0x3a,
        decreases m - i,
    {
        if value[i] == 0x3a {
            proof {
                lemma_find_byte(value@, 0x3a);
                assert(value@[i as int] == 0x3a);
                assert(value@.contains(0x3a));
                assert(i as int == find_byte(value@, 0x3a)) by {
                    if (i as int) < find_byte(value@, 0x3a) {
                        assert(value@[i as int] != 0x3a);
                    }
                    if find_byte(value@, 0x3a) < i as int {
                        assert(value@[find_byte(value@, 0x3a)] != 0x3a);
                    }
                }
            }
            let prefix = vstd::slice::slice_to_vec(
                vstd::slice::slice_subrange(value.as_slice(), 0, i),
            );
            proof {
                assert(prefix@ == value@.subrange(0, i as int));
                assert(stun_ufrag(data@) == Some(value@.subrange(0, i as int)));
            }
            return Some(prefix);
        }
        i = i + 1;
    }
    proof {
        lemma_find_byte(value@, 0x3a);
        if value@.contains(0x3a) {
            assert(value@[find_byte(value@, 0x3a)] != 0x3a);
        }
    }
    Some(value)
}

/// Which task a datagram belongs to: the cached peer address, or the
/// server-side ufrag of its leading STUN binding request.
pub open spec fn demux(
    remotes: Seq<(Seq<u8>, u16, usize)>,
    ufrags: Seq<(Seq<u8>, usize)>,
    from: (Seq<u8>, u16),
    data: Seq<u8>,
) -> Option<usize> {
    match rv_lookup(remotes, from) {
        Some(i) => Some(i),
        None => match stun_ufrag(data) {
            Some(u) => uv_lookup(ufrags, u),
            None => None,
        },
    }
}

/// Lookup in the view of the remote-address cache.
pub open spec fn rv_lookup(s: Seq<(Seq<u8>, u16, usize)>, k: (Seq<u8>, u16)) -> Option<usize>
    decreases s.len(),
{
    if s.len() == 0 {
        None
    } else if s[0].0 == k.0 && s[0].1 == k.1 {
        Some(s[0].2)
    } else {
        rv_lookup(s.subrange(1, s.len() as int), k)
    }
}

/// Lookup in the view of the ufrag index.
pub open spec fn uv_lookup(s: Seq<(Seq<u8>, usize)>, k: Seq<u8>) -> Option<usize>
    decreases s.len(),
{
    if s.len() == 0 {
        None
    } else if s[0].0 == k {
        Some(s[0].1)
    } else {
        uv_lookup(s.subrange(1, s.len() as int), k)
    }
}

/// View of the remote-address cache.
pub open spec fn remotes_view(s: Seq<(UdpAddr, usize)>) -> Seq<(Seq<u8>, u16, usize)> {
    s.map_values(|p: (UdpAddr, usize)| (p.0.ip@, p.0.port, p.1))
}

/// View of the ufrag index.
pub open spec fn ufrags_view(s: Seq<(Vec<u8>, usize)>) -> Seq<(Seq<u8>, usize)> {
    s.map_values(|p: (Vec<u8>, usize)| (p.0@, p.1))
}

/// Worker of a group of WebRTC endpoint sessions sharing UDP sockets.
pub struct MediaWorkerWebrtc {
    pub ice_lite: bool,
    pub addrs: Vec<(UdpAddr, usize)>,
    pub addrs_alt: Vec<UdpAddr>,
    pub ufrags: Vec<(Vec<u8>, usize)>,
    pub remotes: Vec<(UdpAddr, usize)>,
    pub tasks: Vec<Option<EndpointCfg>>,
    pub queue: VecDeque<GroupOutput>,
    pub shutdown: bool,
}

impl MediaWorkerWebrtc {
    /// Whether a task slot is live.
    pub open spec fn task_live(&self, i: int) -> bool {
        0 <= i < self.tasks@.len() && self.tasks@[i] is Some
    }

    /// No task slot is live.
    pub open spec fn no_live_tasks(&self) -> bool {
        forall|i: int| 0 <= i < self.tasks@.len() ==> !(#[trigger] self.tasks@[i] is Some)
    }

    /// Everything but the outbound queue is unchanged.
    pub open spec fn same_but_queue(a: &MediaWorkerWebrtc, b: &MediaWorkerWebrtc) -> bool {
        &&& a.ice_lite == b.ice_lite
        &&& a.addrs == b.addrs
        &&& a.addrs_alt == b.addrs_alt
        &&& a.ufrags == b.ufrags
        &&& a.remotes == b.remotes
        &&& a.tasks == b.tasks
        &&& a.shutdown == b.shutdown
    }

    /// Creates the worker; it immediately asks for each socket to be
    /// bound, in the order the addresses were given.
    pub fn new(addrs: Vec<UdpAddr>, addrs_alt: Vec<UdpAddr>, ice_lite: bool) -> (r:
        MediaWorkerWebrtc)
        ensures
            r.ice_lite == ice_lite,
            r.addrs@.len() == 0,
            r.addrs_alt == addrs_alt,
            r.ufrags@.len() == 0,
            r.remotes@.len() == 0,
            r.tasks@.len() == 0,
            !r.shutdown,
            r.queue@ == addrs@.map_values(|a: UdpAddr| GroupOutput::UdpListen(a)),
    {
        let ghost all = addrs@;
        let mut queue: VecDeque<GroupOutput> = VecDeque::new();
        let mut rest = addrs;
        while rest.len() > 0
            invariant
                rest@.len() <= all.len(),
                rest@ == all.skip(all.len() - rest@.len()),
                queue@ == all.take(all.len() - rest@.len()).map_values(
                    |a: UdpAddr| GroupOutput::UdpListen(a),
                ),
            decreases rest@.len(),
        {
            let ghost done = all.len() - rest@.len();
            let a = rest.remove(0);
            queue.push_back(GroupOutput::UdpListen(a));
            proof {
                assert(a == all[done as int]) by {
                    assert(all.skip(done as int)[0] == all[done as int]);
                }
                assert(rest@ =~= all.skip(done + 1));
                assert(all.take(done + 1) =~= all.take(done as int).push(all[done as int]));
                assert(all.take(done + 1).map_values(|x: UdpAddr| GroupOutput::UdpListen(x))
                    =~= all.take(done as int).map_values(
                    |x: UdpAddr| GroupOutput::UdpListen(x),
                ).push(GroupOutput::UdpListen(all[done as int])));
            }
        }
        proof {
            assert(all.take(all.len() as int) =~= all);
        }
        MediaWorkerWebrtc {
            ice_lite,
            addrs: Vec::new(),
            addrs_alt,
            ufrags: Vec::new(),
            remotes: Vec::new(),
            tasks: Vec::new(),
            queue,
            shutdown: false,
        }
    }

    /// Registers a freshly spawned session: a new task slot with the
    /// variant's configuration, reachable under its server-side ufrag.
    /// Returns the ICE mode and the slot index.
    pub fn spawn(&mut self, app: AppId, variant: VariantKind, ufrag: Vec<u8>) -> (r: (bool, usize))
        ensures
            r.0 == old(self).ice_lite,
            r.1 == old(self).tasks@.len(),
            final(self).ice_lite == old(self).ice_lite,
            final(self).addrs == old(self).addrs,
            final(self).addrs_alt == old(self).addrs_alt,
            final(self).remotes == old(self).remotes,
            final(self).queue == old(self).queue,
            final(self).shutdown == old(self).shutdown,
            final(self).tasks@.len() == old(self).tasks@.len() + 1,
            forall|i: int|
                0 <= i < old(self).tasks@.len() ==> final(self).tasks@[i] == old(self).tasks@[i],
            final(self).tasks@[old(self).tasks@.len() as int] is Some,
            final(self).tasks@[old(self).tasks@.len() as int].unwrap().app == app,
            final(self).tasks@[old(self).tasks@.len() as int].unwrap().record == cfg_record(
                variant,
            ),
            final(self).tasks@[old(self).tasks@.len() as int].unwrap().max_ingress_bitrate
                == 2_500_000,
            final(self).tasks@[old(self).tasks@.len() as int].unwrap().max_egress_bitrate
                == 2_500_000,
            ufrags_view(final(self).ufrags@) == ufrags_view(old(self).ufrags@).push(
                (ufrag@, old(self).tasks@.len() as usize),
            ),
    {
        let index = self.tasks.len();
        let cfg = build_endpoint_cfg(app, variant);
        self.tasks.push(Some(cfg));
        self.ufrags.push((ufrag, index));
        proof {
            assert(ufrags_view(self.ufrags@) =~= ufrags_view(old(self).ufrags@).push(
                (self.ufrags@.last().0@, index),
            ));
        }
        (self.ice_lite, index)
    }

    /// Finds the task a datagram belongs to, caching the peer address on a
    /// successful ufrag lookup.
    pub fn map_remote(&mut self, from: &UdpAddr, data: &[u8]) -> (r: Option<usize>)
        ensures
            final(self).ice_lite == old(self).ice_lite,
            final(self).addrs == old(self).addrs,
            final(self).addrs_alt == old(self).addrs_alt,
            final(self).ufrags == old(self).ufrags,
            final(self).tasks == old(self).tasks,
            final(self).queue == old(self).queue,
            final(self).shutdown == old(self).shutdown,
            r == demux(
                remotes_view(old(self).remotes@),
                ufrags_view(old(self).ufrags@),
                from@,
                data@,
            ),
            match rv_lookup(remotes_view(old(self).remotes@), from@) {
                Some(_i) => final(self).remotes == old(self).remotes,
                None => match r {
                    Some(i) => remotes_view(final(self).remotes@) == remotes_view(
                        old(self).remotes@,
                    ).push((from@.0, from@.1, i)),
                    None => final(self).remotes == old(self).remotes,
                },
            },
    {
        let ghost rv = remotes_view(self.remotes@);
        proof {
            assert(rv.skip(0) =~= rv);
        }
        let n = self.remotes.len();
        let mut i: usize = 0;
        while i < n
            invariant
                *self == *old(self),
                i <= n,
                n == self.remotes@.len(),
                rv == remotes_view(self.remotes@),
                rv_lookup(rv, from@) == rv_lookup(rv.skip(i as int), from@),
            decreases n - i,
        {
            proof {
                assert(rv.skip(i as int)[0] == rv[i as int]);
                assert(rv.skip(i as int).subrange(1, rv.skip(i as int).len() as int) =~= rv.skip(
                    i + 1,
                ));
            }
            let hit = bytes_eq(self.remotes[i].0.ip.as_slice(), from.ip.as_slice())
                && self.remotes[i].0.port == from.port;
            if hit {
                proof {
                    assert(rv[i as int] == (self.remotes@[i as int].0.ip@, self.remotes@[
                        i as int
                    ].0.port, self.remotes@[i as int].1));
                    assert(rv_lookup(rv, from@) == Some(rv[i as int].2));
                }
                return Some(self.remotes[i].1);
            }
            i = i + 1;
        }
        proof {
            assert(rv.skip(n as int) =~= Seq::<(Seq<u8>, u16, usize)>::empty());
            assert(rv_lookup(rv, from@) is None);
        }
        let ufrag = match parse_stun_ufrag(data) {
            Some(u) => u,
            None => {
                return None;
            },
        };
        let ghost uv = ufrags_view(self.ufrags@);
        proof {
            assert(uv.skip(0) =~= uv);
        }
        let m = self.ufrags.len();
        let mut j: usize = 0;
        while j < m
            invariant
                *self == *old(self),
                j <= m,
                m == self.ufrags@.len(),
                uv == ufrags_view(self.ufrags@),
                stun_ufrag(data@) == Some(ufrag@),
                rv_lookup(remotes_view(self.remotes@), from@) is None,
                rv == remotes_view(self.remotes@),
                uv_lookup(uv, ufrag@) == uv_lookup(uv.skip(j as int), ufrag@),
            decreases m - j,
        {
            proof {
                assert(uv.skip(j as int)[0] == uv[j as int]);
                assert(uv.skip(j as int).subrange(1, uv.skip(j as int).len() as int) =~= uv.skip(
                    j + 1,
                ));
            }
            if bytes_eq(self.ufrags[j].0.as_slice(), ufrag.as_slice()) {
                let idx = self.ufrags[j].1;
                proof {
                    assert(uv[j as int] == (self.ufrags@[j as int].0@, self.ufrags@[j as int].1));
                    assert(uv_lookup(uv, ufrag@) == Some(idx));
                }
                let cached = UdpAddr {
                    ip: vstd::slice::slice_to_vec(from.ip.as_slice()),
                    port: from.port,
                };
                self.remotes.push((cached, idx));
                proof {
                    assert(remotes_view(self.remotes@) =~= rv.push((from@.0, from@.1, idx)));
                }
                return Some(idx);
            }
            j = j + 1;
        }
        proof {
            assert(uv.skip(m as int) =~= Seq::<(Seq<u8>, usize)>::empty());
            assert(uv_lookup(uv, ufrag@) is None);
        }
        None
    }

    /// Takes one group input: bookkeeping for socket binds, datagram
    /// demultiplexing, forwarding to live tasks, and refusal of external
    /// requests for dead sessions (a restart asks the owner to spawn a
    /// fresh transport first).
    pub fn on_event(&mut self, input: GroupInput)
        ensures
            final(self).ice_lite == old(self).ice_lite,
            final(self).addrs_alt == old(self).addrs_alt,
            final(self).ufrags == old(self).ufrags,
            final(self).tasks == old(self).tasks,
            final(self).shutdown == old(self).shutdown,
            match input {
                GroupInput::UdpListenResult { addr, slot, ok } => {
                    &&& final(self).queue == old(self).queue
                    &&& final(self).remotes == old(self).remotes
                    &&& (ok ==> final(self).addrs@ == old(self).addrs@.push((addr, slot)))
                    &&& (!ok ==> final(self).addrs == old(self).addrs)
                },
                GroupInput::UdpPacket { from, data } => {
                    &&& final(self).addrs == old(self).addrs
                    &&& match demux(
                        remotes_view(old(self).remotes@),
                        ufrags_view(old(self).ufrags@),
                        from@,
                        data@,
                    ) {
                        Some(i) => final(self).queue@ == old(self).queue@.push(
                            GroupOutput::Endpoint(i, EndpointInputLite::Net(from, data)),
                        ),
                        None => final(self).queue == old(self).queue,
                    }
                },
                GroupInput::Cluster(owner, event) => {
                    &&& final(self).addrs == old(self).addrs
                    &&& final(self).remotes == old(self).remotes
                    &&& if old(self).task_live(owner as int) {
                        final(self).queue@ == old(self).queue@.push(
                            GroupOutput::Endpoint(owner, EndpointInputLite::Cluster(event)),
                        )
                    } else {
                        final(self).queue == old(self).queue
                    }
                },
                GroupInput::Ext(owner, ext) => {
                    &&& final(self).addrs == old(self).addrs
                    &&& final(self).remotes == old(self).remotes
                    &&& if old(self).task_live(owner as int) {
                        final(self).queue@ == old(self).queue@.push(
                            GroupOutput::Endpoint(owner, EndpointInputLite::Ext(ext)),
                        )
                    } else {
                        final(self).queue@ == old(self).queue@.push(
                            match ext {
                                ExtIn::RemoteIce(req_id, variant, _c) => GroupOutput::Ext(
                                    owner,
                                    ExtOut::RemoteIce(
                                        req_id,
                                        variant,
                                        Err(WorkerError::RpcEndpointNotFound),
                                    ),
                                ),
                                ExtIn::RestartIce(req_id, app, variant, sdp) => GroupOutput::NeedSpawn(
                                    req_id,
                                    app,
                                    variant,
                                    sdp,
                                ),
                                ExtIn::Disconnect(req_id, variant) => GroupOutput::Ext(
                                    owner,
                                    ExtOut::Disconnect(
                                        req_id,
                                        variant,
                                        Err(WorkerError::RpcEndpointNotFound),
                                    ),
                                ),
                            },
                        )
                    }
                },
            },
    {
        match input {
            GroupInput::UdpListenResult { addr, slot, ok } => {
                if ok {
                    self.addrs.push((addr, slot));
                }
            },
            GroupInput::UdpPacket { from, data } => {
                match self.map_remote(&from, data.as_slice()) {
                    Some(i) => {
                        self.queue.push_back(
                            GroupOutput::Endpoint(i, EndpointInputLite::Net(from, data)),
                        );
                    },
                    None => {},
                }
            },
            GroupInput::Cluster(owner, event) => {
                let live = owner < self.tasks.len() && self.tasks[owner].is_some();
                if live {
                    self.queue.push_back(
                        GroupOutput::Endpoint(owner, EndpointInputLite::Cluster(event)),
                    );
                }
            },
            GroupInput::Ext(owner, ext) => {
                let live = owner < self.tasks.len() && self.tasks[owner].is_some();
                if live {
                    self.queue.push_back(
                        GroupOutput::Endpoint(owner, EndpointInputLite::Ext(ext)),
                    );
                } else {
                    match ext {
                        ExtIn::RemoteIce(req_id, variant, _c) => {
                            self.queue.push_back(
                                GroupOutput::Ext(
                                    owner,
                                    ExtOut::RemoteIce(
                                        req_id,
                                        variant,
                                        Err(WorkerError::RpcEndpointNotFound),
                                    ),
                                ),
                            );
                        },
                        ExtIn::RestartIce(req_id, app, variant, sdp) => {
                            self.queue.push_back(
                                GroupOutput::NeedSpawn(req_id, app, variant, sdp),
                            );
                        },
                        ExtIn::Disconnect(req_id, variant) => {
                            self.queue.push_back(
                                GroupOutput::Ext(
                                    owner,
                                    ExtOut::Disconnect(
                                        req_id,
                                        variant,
                                        Err(WorkerError::RpcEndpointNotFound),
                                    ),
                                ),
                            );
                        },
                    }
                }
            },
        }
    }

    /// Completes a restart-ice spawn: on a fresh transport the new task is
    /// registered and the answer returned; otherwise the request is
    /// refused.
    pub fn on_spawn_result(
        &mut self,
        owner: usize,
        req_id: u64,
        variant: VariantKind,
        result: Option<(AppId, Vec<u8>, Vec<u8>)>,
    )
        ensures
            final(self).ice_lite == old(self).ice_lite,
            final(self).addrs == old(self).addrs,
            final(self).addrs_alt == old(self).addrs_alt,
            final(self).remotes == old(self).remotes,
            final(self).shutdown == old(self).shutdown,
            match result {
                Some(parts) => {
                    &&& final(self).tasks@.len() == old(self).tasks@.len() + 1
                    &&& final(self).tasks@[old(self).tasks@.len() as int] is Some
                    &&& ufrags_view(final(self).ufrags@) == ufrags_view(old(self).ufrags@).push(
                        (parts.1@, old(self).tasks@.len() as usize),
                    )
                    &&& final(self).queue@ == old(self).queue@.push(
                        GroupOutput::Ext(
                            old(self).tasks@.len() as usize,
                            ExtOut::RestartIce(
                                req_id,
                                variant,
                                Ok((old(self).ice_lite, parts.2)),
                            ),
                        ),
                    )
                },
                None => {
                    &&& final(self).tasks == old(self).tasks
                    &&& final(self).ufrags == old(self).ufrags
                    &&& final(self).queue@ == old(self).queue@.push(
                        GroupOutput::Ext(
                            owner,
                            ExtOut::RestartIce(
                                req_id,
                                variant,
                                Err(WorkerError::RpcEndpointNotFound),
                            ),
                        ),
                    )
                },
            },
    {
        match result {
            Some(parts) => {
                let (app, ufrag, sdp) = parts;
                let r = self.spawn(app, variant, ufrag);
                self.queue.push_back(
                    GroupOutput::Ext(r.1, ExtOut::RestartIce(req_id, variant, Ok((r.0, sdp)))),
                );
            },
            None => {
                self.queue.push_back(
                    GroupOutput::Ext(
                        owner,
                        ExtOut::RestartIce(req_id, variant, Err(WorkerError::RpcEndpointNotFound)),
                    ),
                );
            },
        }
    }

    /// Translates one endpoint task output; a task reporting itself empty
    /// is removed together with its ufrag and address registrations.
    pub fn process_output(&mut self, index: usize, out: EndpointOutputLite) -> (r: GroupOutput)
        ensures
            final(self).ice_lite == old(self).ice_lite,
            final(self).addrs == old(self).addrs,
            final(self).addrs_alt == old(self).addrs_alt,
            final(self).queue == old(self).queue,
            final(self).shutdown == old(self).shutdown,
            match out {
                EndpointOutputLite::Net(to, data) => r == GroupOutput::UdpSend(index, to, data)
                    && final(self).tasks == old(self).tasks
                    && final(self).ufrags == old(self).ufrags
                    && final(self).remotes == old(self).remotes,
                EndpointOutputLite::Cluster(room, control) => r == GroupOutput::Cluster(
                    index,
                    room,
                    control,
                ) && final(self).tasks == old(self).tasks
                    && final(self).ufrags == old(self).ufrags
                    && final(self).remotes == old(self).remotes,
                EndpointOutputLite::PeerEvent(sid, ts, payload) => r == GroupOutput::PeerEvent(
                    index,
                    sid,
                    ts,
                    payload,
                ) && final(self).tasks == old(self).tasks
                    && final(self).ufrags == old(self).ufrags
                    && final(self).remotes == old(self).remotes,
                EndpointOutputLite::RecordEvent(sid, ts, payload) => r == GroupOutput::RecordEvent(
                    index,
                    sid,
                    ts,
                    payload,
                ) && final(self).tasks == old(self).tasks
                    && final(self).ufrags == old(self).ufrags
                    && final(self).remotes == old(self).remotes,
                EndpointOutputLite::Ext(ext) => r == GroupOutput::Ext(index, ext)
                    && final(self).tasks == old(self).tasks
                    && final(self).ufrags == old(self).ufrags
                    && final(self).remotes == old(self).remotes,
                EndpointOutputLite::OnResourceEmpty => {
                    &&& r == GroupOutput::Continue
                    &&& final(self).tasks@.len() == old(self).tasks@.len()
                    &&& (index < old(self).tasks@.len() ==> final(self).tasks@ == old(
                        self,
                    ).tasks@.update(index as int, Option::<EndpointCfg>::None))
                    &&& (index >= old(self).tasks@.len() ==> final(self).tasks == old(self).tasks)
                    &&& ufrags_view(final(self).ufrags@) == ufrags_view(old(self).ufrags@).filter(
                        |p: (Seq<u8>, usize)| p.1 != index,
                    )
                    &&& remotes_view(final(self).remotes@) == remotes_view(
                        old(self).remotes@,
                    ).filter(|p: (Seq<u8>, u16, usize)| p.2 != index)
                },
                EndpointOutputLite::Continue => r == GroupOutput::Continue
                    && final(self).tasks == old(self).tasks
                    && final(self).ufrags == old(self).ufrags
                    && final(self).remotes == old(self).remotes,
            },
    {
        match out {
            EndpointOutputLite::Net(to, data) => GroupOutput::UdpSend(index, to, data),
            EndpointOutputLite::Cluster(room, control) => GroupOutput::Cluster(
                index,
                room,
                control,
            ),
            EndpointOutputLite::PeerEvent(sid, ts, payload) => GroupOutput::PeerEvent(
                index,
                sid,
                ts,
                payload,
            ),
            EndpointOutputLite::RecordEvent(sid, ts, payload) => GroupOutput::RecordEvent(
                index,
                sid,
                ts,
                payload,
            ),
            EndpointOutputLite::Ext(ext) => GroupOutput::Ext(index, ext),
            EndpointOutputLite::OnResourceEmpty => {
                if index < self.tasks.len() {
                    let slot = vstd::std_specs::vec::vec_index_mut(&mut self.tasks, index);
                    *slot = None;
                    proof {
                        assert(self.tasks@ =~= old(self).tasks@.update(
                            index as int,
                            Option::<EndpointCfg>::None,
                        ));
                    }
                }
                self.drop_task_registrations(index);
                GroupOutput::Continue
            },
            EndpointOutputLite::Continue => GroupOutput::Continue,
        }
    }

    /// Drops every ufrag and cached address bound to a task.
    fn drop_task_registrations(&mut self, index: usize)
        ensures
            final(self).ice_lite == old(self).ice_lite,
            final(self).addrs == old(self).addrs,
            final(self).addrs_alt == old(self).addrs_alt,
            final(self).tasks == old(self).tasks,
            final(self).queue == old(self).queue,
            final(self).shutdown == old(self).shutdown,
            ufrags_view(final(self).ufrags@) == ufrags_view(old(self).ufrags@).filter(
                |p: (Seq<u8>, usize)| p.1 != index,
            ),
            remotes_view(final(self).remotes@) == remotes_view(old(self).remotes@).filter(
                |p: (Seq<u8>, u16, usize)| p.2 != index,
            ),
    {
        broadcast use vstd::seq_lib::group_filter_ensures;

        let ghost uv = ufrags_view(self.ufrags@);
        let mut kept_u: Vec<(Vec<u8>, usize)> = Vec::new();
        let n = self.ufrags.len();
        let mut i: usize = 0;
        while i < n
            invariant
                i <= n,
                n == self.ufrags@.len(),
                uv == ufrags_view(self.ufrags@),
                ufrags_view(kept_u@) == ufrags_view(self.ufrags@.take(i as int)).filter(
                    |p: (Seq<u8>, usize)| p.1 != index,
                ),
            decreases n - i,
        {
            proof {
                assert(ufrags_view(self.ufrags@.take(i + 1)) =~= ufrags_view(
                    self.ufrags@.take(i as int),
                ).push((self.ufrags@[i as int].0@, self.ufrags@[i as int].1)));
            }
            proof {
                ufrags_view(self.ufrags@.take(i as int)).lemma_filter_push(
                    (self.ufrags@[i as int].0@, self.ufrags@[i as int].1),
                    |p: (Seq<u8>, usize)| p.1 != index,
                );
            }
            let keep = self.ufrags[i].1 != index;
            if keep {
                let entry = (
                    vstd::slice::slice_to_vec(self.ufrags[i].0.as_slice()),
                    self.ufrags[i].1,
                );
                kept_u.push(entry);
                proof {
                    assert(ufrags_view(kept_u@) =~= ufrags_view(
                        self.ufrags@.take(i as int),
                    ).filter(|p: (Seq<u8>, usize)| p.1 != index).push(
                        (self.ufrags@[i as int].0@, self.ufrags@[i as int].1),
                    ));
                }
            } else {
            }
            i = i + 1;
        }
        proof {
            assert(self.ufrags@.take(n as int) =~= self.ufrags@);
        }
        self.ufrags = kept_u;
        let ghost rv = remotes_view(self.remotes@);
        let mut kept_r: Vec<(UdpAddr, usize)> = Vec::new();
        let m = self.remotes.len();
        let mut j: usize = 0;
        while j < m
            invariant
                j <= m,
                m == self.remotes@.len(),
                rv == remotes_view(self.remotes@),
                remotes_view(kept_r@) == remotes_view(self.remotes@.take(j as int)).filter(
                    |p: (Seq<u8>, u16, usize)| p.2 != index,
                ),
            decreases m - j,
        {
            proof {
                assert(remotes_view(self.remotes@.take(j + 1)) =~= remotes_view(
                    self.remotes@.take(j as int),
                ).push(
                    (
                        self.remotes@[j as int].0.ip@,
                        self.remotes@[j as int].0.port,
                        self.remotes@[j as int].1,
                    ),
                ));
            }
            proof {
                remotes_view(self.remotes@.take(j as int)).lemma_filter_push(
                    (
                        self.remotes@[j as int].0.ip@,
                        self.remotes@[j as int].0.port,
                        self.remotes@[j as int].1,
                    ),
                    |p: (Seq<u8>, u16, usize)| p.2 != index,
                );
            }
            let keep = self.remotes[j].1 != index;
            if keep {
                let entry = (
                    UdpAddr {
                        ip: vstd::slice::slice_to_vec(self.remotes[j].0.ip.as_slice()),
                        port: self.remotes[j].0.port,
                    },
                    self.remotes[j].1,
                );
                kept_r.push(entry);
                proof {
                    assert(remotes_view(kept_r@) =~= remotes_view(
                        self.remotes@.take(j as int),
                    ).filter(|p: (Seq<u8>, u16, usize)| p.2 != index).push(
                        (
                            self.remotes@[j as int].0.ip@,
                            self.remotes@[j as int].0.port,
                            self.remotes@[j as int].1,
                        ),
                    ));
                }
            } else {
            }
            j = j + 1;
        }
        proof {
            assert(self.remotes@.take(m as int) =~= self.remotes@);
        }
        self.remotes = kept_r;
    }

    /// Number of live endpoint tasks.
    pub fn tasks(&self) -> (r: usize)
        ensures
            r as int == self.tasks@.filter(|t: Option<EndpointCfg>| t is Some).len(),
    {
        broadcast use vstd::seq_lib::group_filter_ensures;

        let ghost all = self.tasks@;
        let n = self.tasks.len();
        let mut count: usize = 0;
        let mut i: usize = 0;
        while i < n
            invariant
                i <= n,
                n == self.tasks@.len(),
                all == self.tasks@,
                count as int == all.take(i as int).filter(
                    |t: Option<EndpointCfg>| t is Some,
                ).len(),
                count <= i,
            decreases n - i,
        {
            proof {
                all.take(i as int).lemma_filter_push(
                    all[i as int],
                    |t: Option<EndpointCfg>| t is Some,
                );
                assert(all.take(i + 1) =~= all.take(i as int).push(all[i as int]));
            }
            if self.tasks[i].is_some() {
                count = count + 1;
            }
            i = i + 1;
        }
        proof {
            assert(all.take(n as int) =~= all);
        }
        count
    }

    /// Timer tick; the worker itself keeps no timers.
    pub fn on_tick(&mut self)
        ensures
            *final(self) == *old(self),
    {
    }

    /// Requests shutdown; level triggered and idempotent.
    pub fn shutdown(&mut self)
        ensures
            final(self).shutdown,
            final(self).queue == old(self).queue,
            final(self).ice_lite == old(self).ice_lite,
            final(self).addrs == old(self).addrs,
            final(self).addrs_alt == old(self).addrs_alt,
            final(self).ufrags == old(self).ufrags,
            final(self).remotes == old(self).remotes,
            final(self).tasks == old(self).tasks,
    {
        self.shutdown = true;
    }

    /// The event the worker's owner reaps it with.
    pub fn empty_event(&self) -> (r: GroupOutput)
        ensures
            r == GroupOutput::OnResourceEmpty,
    {
        GroupOutput::OnResourceEmpty
    }

    /// The worker is empty once shutdown was requested, the queue is
    /// drained and every task is gone.
    pub fn is_empty(&self) -> (r: bool)
        ensures
            r == (self.shutdown && self.queue@.len() == 0 && self.no_live_tasks()),
    {
        if !(self.shutdown && self.queue.len() == 0) {
            return false;
        }
        let n = self.tasks.len();
        let mut i: usize = 0;
        while i < n
            invariant
                i <= n,
                n == self.tasks@.len(),
                self.shutdown,
                self.queue@.len() == 0,
                forall|j: int| 0 <= j < i ==> !(#[trigger] self.tasks@[j] is Some),
            decreases n - i,
        {
            if self.tasks[i].is_some() {
                proof {
                    assert(self.tasks@[i as int] is Some);
                }
                return false;
            }
            i = i + 1;
        }
        true
    }

    /// Hands out the oldest queued output.
    pub fn pop_output(&mut self) -> (r: Option<GroupOutput>)
        ensures
            final(self).ice_lite == old(self).ice_lite,
            final(self).addrs == old(self).addrs,
            final(self).addrs_alt == old(self).addrs_alt,
            final(self).ufrags == old(self).ufrags,
            final(self).remotes == old(self).remotes,
            final(self).tasks == old(self).tasks,
            final(self).shutdown == old(self).shutdown,
            match r {
                Some(o) => old(self).queue@.len() > 0 && o == old(self).queue@[0]
                    && final(self).queue@ == old(self).queue@.subrange(
                    1,
                    old(self).queue@.len() as int,
                ),
                None => old(self).queue@.len() == 0 && final(self).queue@ == old(self).queue@,
            },
    {
        self.queue.pop_front()
    }
}

} // verus!
