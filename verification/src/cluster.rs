//! The cluster engine: rooms keyed by a stable room hash.
//!
//! The engine owns a set of rooms, creates a room lazily on the first
//! endpoint control that names its hash, routes overlay events to the room
//! they belong to, and reaps a room once it reports itself empty.

use crate::hash::{room_hash, room_hash_of};
use crate::imap::{
    rooms_map_clear, rooms_map_get, rooms_map_insert, rooms_map_len, rooms_map_new, rooms_map_of,
    rooms_map_swap_remove, RoomsIndexMap,
};
use crate::room::{
    room_ctrl_ok, room_ctrl_outs, room_ctrl_state, room_sdn_outs, room_sdn_state, ClusterRoom,
    RoomOutput, RoomState,
};
use crate::media::MediaPacket;
use crate::sdn::{FeaturesControl, FeaturesEvent, RoomUserData};
use crate::types::{
    AppContext, AudioMixerConfig, LocalTrackId, MessageChannelLabel, PeerId, PeerMeta,
    RemoteTrackId, RoomId, RoomInfoPublish, RoomInfoSubscribe, TrackMeta, TrackName, TrackSource,
};
use vstd::prelude::*;

verus! {

/// Stable 64-bit identifier of a room, derived from the tenant application
/// id and the room name.
#[derive(Clone, Copy, Debug, PartialEq, Eq, Structural, Hash)]
pub struct ClusterRoomHash(pub u64);

impl ClusterRoomHash {
    /// Derives the room hash of `(app, room)`; every node computes the same
    /// value.
    pub fn generate(app: &AppContext, room: &RoomId) -> (r: Self)
        ensures
            r.0 == room_hash(app.app@, room@),
    {
        ClusterRoomHash(room_hash_of(app.app.0.as_slice(), room.0.as_slice()))
    }
}

impl From<u64> for ClusterRoomHash {
    fn from(v: u64) -> (r: ClusterRoomHash)
        ensures
            r.0 == v,
    {
        ClusterRoomHash(v)
    }
}

impl vstd::std_specs::convert::FromSpecImpl<u64> for ClusterRoomHash {
    open spec fn obeys_from_spec() -> bool {
        true
    }

    open spec fn from_spec(v: u64) -> ClusterRoomHash {
        ClusterRoomHash(v)
    }
}

/// Controls of a published (remote) track.
#[derive(Clone, Debug, PartialEq, Eq)]
pub enum ClusterRemoteTrackControl {
    Started(TrackName, TrackMeta),
    Media(MediaPacket),
    Ended(TrackName, TrackMeta),
}

/// Events handed back to a published (remote) track.
#[derive(Clone, Copy, Debug, PartialEq, Eq, Structural)]
pub enum ClusterRemoteTrackEvent {
    RequestKeyFrame,
    LimitBitrate { min: u64, max: u64 },
}

/// Controls of a consuming (local) track.
#[derive(Clone, Debug, PartialEq, Eq)]
pub enum ClusterLocalTrackControl {
    Subscribe(PeerId, TrackName),
    RequestKeyFrame,
    DesiredBitrate(u64),
    Unsubscribe,
}

/// Events handed back to a consuming (local) track.
#[derive(Clone, Debug, PartialEq, Eq)]
pub enum ClusterLocalTrackEvent {
    RelayChanged,
    SourceChanged,
    Media(u64, MediaPacket),
}

/// Audio-mixer controls of a joined peer.
#[derive(Clone, Debug, PartialEq, Eq)]
pub enum ClusterAudioMixerControl {
    Attach(Vec<TrackSource>),
    Detach(Vec<TrackSource>),
}

/// Audio-mixer slot events forwarded to an endpoint.
#[derive(Clone, Debug, PartialEq, Eq)]
pub enum ClusterAudioMixerEvent {
    SlotSet(u8, PeerId, TrackName),
    SlotUnset(u8),
}

/// Controls of a labelled room message channel.
#[derive(Clone, Debug, PartialEq, Eq)]
pub enum ClusterMessageChannelControl {
    StartPublish,
    StopPublish,
    Subscribe,
    Unsubscribe,
    PublishData(PeerId, Vec<u8>),
}

/// Everything an endpoint can ask of its room.
#[derive(Clone, Debug, PartialEq, Eq)]
pub enum ClusterEndpointControl {
    Join(PeerId, PeerMeta, RoomInfoPublish, RoomInfoSubscribe, Option<AudioMixerConfig>),
    Leave,
    SubscribePeer(PeerId),
    UnsubscribePeer(PeerId),
    AudioMixer(ClusterAudioMixerControl),
    RemoteTrack(RemoteTrackId, ClusterRemoteTrackControl),
    LocalTrack(LocalTrackId, ClusterLocalTrackControl),
    MessageChannel(MessageChannelLabel, ClusterMessageChannelControl),
}

/// Everything a room can tell an endpoint.
#[derive(Clone, Debug, PartialEq, Eq)]
pub enum ClusterEndpointEvent {
    PeerJoined(PeerId, PeerMeta),
    PeerLeaved(PeerId, PeerMeta),
    TrackStarted(PeerId, TrackName, TrackMeta),
    TrackStopped(PeerId, TrackName, TrackMeta),
    AudioMixer(ClusterAudioMixerEvent),
    RemoteTrack(RemoteTrackId, ClusterRemoteTrackEvent),
    LocalTrack(LocalTrackId, ClusterLocalTrackEvent),
    MessageChannelData(MessageChannelLabel, PeerId, Vec<u8>),
}


/// Events of a consuming (local) track, as mathematical values.
pub ghost enum LocalTrackEventView {
    RelayChanged,
    SourceChanged,
    Media(u64, crate::media::MediaPacketView),
}

/// Audio-mixer slot events, as mathematical values.
pub ghost enum MixerEventView {
    SlotSet(u8, Seq<u8>, Seq<u8>),
    SlotUnset(u8),
}

/// Endpoint events, as mathematical values: identifiers become byte
/// sequences, media packets their views.
pub ghost enum EndpointEventView {
    PeerJoined(Seq<u8>, Option<Seq<u8>>, Option<Seq<u8>>),
    PeerLeaved(Seq<u8>, Option<Seq<u8>>, Option<Seq<u8>>),
    TrackStarted(Seq<u8>, Seq<u8>, TrackMeta),
    TrackStopped(Seq<u8>, Seq<u8>, TrackMeta),
    AudioMixer(MixerEventView),
    RemoteTrack(u64, ClusterRemoteTrackEvent),
    LocalTrack(u64, LocalTrackEventView),
    MessageChannelData(Seq<u8>, Seq<u8>, Seq<u8>),
}

/// View of one endpoint event.
pub open spec fn endpoint_event_view(ev: ClusterEndpointEvent) -> EndpointEventView {
    match ev {
        ClusterEndpointEvent::PeerJoined(p, m) => EndpointEventView::PeerJoined(
            p@,
            match m.metadata {
                Some(b) => Some(b@),
                None => None,
            },
            match m.extra_data {
                Some(b) => Some(b@),
                None => None,
            },
        ),
        ClusterEndpointEvent::PeerLeaved(p, m) => EndpointEventView::PeerLeaved(
            p@,
            match m.metadata {
                Some(b) => Some(b@),
                None => None,
            },
            match m.extra_data {
                Some(b) => Some(b@),
                None => None,
            },
        ),
        ClusterEndpointEvent::TrackStarted(p, n, m) => EndpointEventView::TrackStarted(p@, n@, m),
        ClusterEndpointEvent::TrackStopped(p, n, m) => EndpointEventView::TrackStopped(p@, n@, m),
        ClusterEndpointEvent::AudioMixer(me) => EndpointEventView::AudioMixer(
            match me {
                ClusterAudioMixerEvent::SlotSet(i, p, n) => MixerEventView::SlotSet(i, p@, n@),
                ClusterAudioMixerEvent::SlotUnset(i) => MixerEventView::SlotUnset(i),
            },
        ),
        ClusterEndpointEvent::RemoteTrack(t, e) => EndpointEventView::RemoteTrack(t.0, e),
        ClusterEndpointEvent::LocalTrack(t, e) => EndpointEventView::LocalTrack(
            t.0,
            match e {
                ClusterLocalTrackEvent::RelayChanged => LocalTrackEventView::RelayChanged,
                ClusterLocalTrackEvent::SourceChanged => LocalTrackEventView::SourceChanged,
                ClusterLocalTrackEvent::Media(s, p) => LocalTrackEventView::Media(s, p@),
            },
        ),
        ClusterEndpointEvent::MessageChannelData(l, p, d) => EndpointEventView::MessageChannelData(
            l@,
            p@,
            d@,
        ),
    }
}

/// Input of the cluster engine.
#[derive(Clone, Debug, PartialEq, Eq)]
pub enum Input {
    Sdn(ClusterRoomHash, FeaturesEvent),
    Endpoint(u64, ClusterRoomHash, ClusterEndpointControl),
}

/// Output of the cluster engine.
#[derive(Clone, Debug, PartialEq, Eq)]
pub enum Output {
    Sdn(RoomUserData, FeaturesControl),
    Endpoint(Vec<u64>, ClusterEndpointEvent),
    OnResourceEmpty,
    Continue,
}


/// A room output, translated to an engine output.
pub open spec fn room_to_cluster_output(o: RoomOutput) -> Output {
    match o {
        RoomOutput::Sdn(ud, ctl) => Output::Sdn(ud, ctl),
        RoomOutput::Endpoint(ends, ev) => Output::Endpoint(ends, ev),
        RoomOutput::OnResourceEmpty(_h) => Output::Continue,
    }
}

/// The cluster engine: rooms in an arena, indexed by their hash.
pub struct MediaCluster {
    pub rooms_map: RoomsIndexMap,
    pub rooms: Vec<Option<ClusterRoom>>,
    pub shutdown: bool,
}

impl MediaCluster {
    /// The hash-to-slot index as a mathematical map.
    pub open spec fn index(&self) -> Map<u64, usize> {
        rooms_map_of(self.rooms_map)
    }

    /// State invariant: the index and the arena agree, every room is well
    /// formed and sits in the slot its hash points at.
    pub open spec fn wf(&self) -> bool {
        &&& self.index().dom().finite()
        &&& forall|h: u64|
            #[trigger] self.index().contains_key(h) ==> {
                &&& self.index()[h] < self.rooms@.len()
                &&& self.rooms@[self.index()[h] as int] is Some
                &&& self.rooms@[self.index()[h] as int].unwrap().room.0 == h
            }
        &&& forall|i: int|
            0 <= i < self.rooms@.len() && self.rooms@[i] is Some ==> {
                &&& (#[trigger] self.rooms@[i]).unwrap().wf()
                &&& self.index().contains_key(self.rooms@[i].unwrap().room.0)
                &&& self.index()[self.rooms@[i].unwrap().room.0] == i
            }
    }

    /// No room has an output pending and none is ready to be reaped.
    pub open spec fn drained(&self) -> bool {
        forall|i: int|
            0 <= i < self.rooms@.len() && self.rooms@[i] is Some ==> {
                &&& (#[trigger] self.rooms@[i]).unwrap().queue@.len() == 0
                &&& !(self.rooms@[i].unwrap().state().is_empty())
            }
    }

    /// The inputs a control step accepts for the room it addresses (a
    /// fresh room when the hash is unknown).
    pub open spec fn ctrl_ok(&self, room_hash: ClusterRoomHash, e: u64, c: ClusterEndpointControl) -> bool {
        if self.index().contains_key(room_hash.0) {
            room_ctrl_ok(
                self.rooms@[self.index()[room_hash.0] as int].unwrap().state(),
                e,
                c,
            )
        } else {
            room_ctrl_ok(RoomState::empty(), e, c)
        }
    }

    pub fn new() -> (r: MediaCluster)
        ensures
            r.wf(),
            r.index() == Map::<u64, usize>::empty(),
            r.rooms@.len() == 0,
            !r.shutdown,
    {
        let mut rooms_map = rooms_map_new();
        rooms_map_clear(&mut rooms_map);
        MediaCluster { rooms_map, rooms: Vec::new(), shutdown: false }
    }

    /// Timer tick; rooms keep no timers.
    pub fn on_tick(&mut self, _now: ())
        ensures
            *final(self) == *old(self),
    {
    }

    /// Routes one overlay event to the room it belongs to; an event for an
    /// unknown room is a no-op.
    pub fn on_sdn_event(&mut self, _now: (), userdata: RoomUserData, event: FeaturesEvent)
        requires
            old(self).wf(),
        ensures
            final(self).wf(),
            final(self).shutdown == old(self).shutdown,
            final(self).index() == old(self).index(),
            final(self).rooms@.len() == old(self).rooms@.len(),
            !old(self).index().contains_key(userdata.0.0) ==> *final(self) == *old(self),
            old(self).index().contains_key(userdata.0.0) ==> {
                let i = old(self).index()[userdata.0.0] as int;
                let room0 = old(self).rooms@[i].unwrap();
                &&& (forall|j: int|
                    0 <= j < old(self).rooms@.len() && j != i ==> final(self).rooms@[j] == old(
                        self,
                    ).rooms@[j])
                &&& final(self).rooms@[i] is Some
                &&& final(self).rooms@[i].unwrap().room == room0.room
                &&& final(self).rooms@[i].unwrap().state() == room_sdn_state(
                    userdata.0.0,
                    room0.state(),
                    event,
                )
                &&& final(self).rooms@[i].unwrap().qview() == room0.qview() + room_sdn_outs(
                    userdata.0.0,
                    room0.state(),
                    event,
                )
            },
    {
        match rooms_map_get(&self.rooms_map, userdata.0.0) {
            None => {},
            Some(i) => {
                let slot = vstd::std_specs::vec::vec_index_mut(&mut self.rooms, i);
                match slot {
                    Some(room) => {
                        room.on_sdn_event(userdata, event);
                    },
                    None => {},
                }
                proof {
                    assert(final(self).rooms@ =~= old(self).rooms@.update(
                        i as int,
                        final(self).rooms@[i as int],
                    ));
                }
            },
        }
    }

    /// Applies one endpoint control, creating the room on first use.
    pub fn on_endpoint_control(
        &mut self,
        _now: (),
        endpoint: u64,
        room_hash: ClusterRoomHash,
        control: ClusterEndpointControl,
    )
        requires
            old(self).wf(),
            old(self).ctrl_ok(room_hash, endpoint, control),
        ensures
            final(self).wf(),
            final(self).shutdown == old(self).shutdown,
            old(self).index().contains_key(room_hash.0) ==> {
                let i = old(self).index()[room_hash.0] as int;
                let room0 = old(self).rooms@[i].unwrap();
                &&& final(self).index() == old(self).index()
                &&& final(self).rooms@.len() == old(self).rooms@.len()
                &&& (forall|j: int|
                    0 <= j < old(self).rooms@.len() && j != i ==> final(self).rooms@[j] == old(
                        self,
                    ).rooms@[j])
                &&& final(self).rooms@[i] is Some
                &&& final(self).rooms@[i].unwrap().room == room0.room
                &&& final(self).rooms@[i].unwrap().state() == room_ctrl_state(
                    room_hash.0,
                    room0.state(),
                    endpoint,
                    control,
                )
                &&& final(self).rooms@[i].unwrap().qview() == room0.qview() + room_ctrl_outs(
                    room_hash.0,
                    room0.state(),
                    endpoint,
                    control,
                )
            },
            !old(self).index().contains_key(room_hash.0) ==> {
                &&& final(self).index() == old(self).index().insert(
                    room_hash.0,
                    old(self).rooms@.len() as usize,
                )
                &&& final(self).rooms@.len() == old(self).rooms@.len() + 1
                &&& (forall|j: int|
                    0 <= j < old(self).rooms@.len() ==> final(self).rooms@[j] == old(
                        self,
                    ).rooms@[j])
                &&& final(self).rooms@[old(self).rooms@.len() as int] is Some
                &&& final(self).rooms@[old(self).rooms@.len() as int].unwrap().room == room_hash
                &&& final(self).rooms@[old(self).rooms@.len() as int].unwrap().state()
                    == room_ctrl_state(room_hash.0, RoomState::empty(), endpoint, control)
                &&& final(self).rooms@[old(self).rooms@.len() as int].unwrap().qview()
                    == room_ctrl_outs(room_hash.0, RoomState::empty(), endpoint, control)
            },
    {
        match rooms_map_get(&self.rooms_map, room_hash.0) {
            Some(i) => {
                let slot = vstd::std_specs::vec::vec_index_mut(&mut self.rooms, i);
                match slot {
                    Some(room) => {
                        room.on_endpoint_control(endpoint, control);
                    },
                    None => {
                        proof {
                            assert(false);
                        }
                    },
                }
                proof {
                    assert(final(self).rooms@ =~= old(self).rooms@.update(
                        i as int,
                        final(self).rooms@[i as int],
                    ));
                }
            },
            None => {
                let index = self.rooms.len();
                let mut room = ClusterRoom::new(room_hash);
                room.on_endpoint_control(endpoint, control);
                self.rooms.push(Some(room));
                rooms_map_insert(&mut self.rooms_map, room_hash.0, index);
            },
        }
    }

    /// Requests shutdown; level triggered and idempotent.
    pub fn shutdown(&mut self, _now: ())
        ensures
            final(self).shutdown,
            final(self).rooms == old(self).rooms,
            final(self).rooms_map == old(self).rooms_map,
    {
        self.shutdown = true;
    }

    /// The engine is empty once shutdown was requested and every room is
    /// gone.
    pub fn is_empty(&self) -> (r: bool)
        requires
            self.wf(),
        ensures
            r == (self.shutdown && self.index().dom().len() == 0),
    {
        self.shutdown && rooms_map_len(&self.rooms_map) == 0
    }

    /// The event the engine's owner reaps it with.
    pub fn empty_event(&self) -> (r: Output)
        ensures
            r == Output::OnResourceEmpty,
    {
        Output::OnResourceEmpty
    }

    /// Number of live rooms.
    pub fn tasks(&self) -> (r: usize)
        requires
            self.wf(),
        ensures
            r as int == self.index().dom().len(),
    {
        rooms_map_len(&self.rooms_map)
    }

    /// Cooperatively polls the rooms: hands out the next queued room
    /// output, or reaps the first empty room (yielding `Continue`); `None`
    /// when nothing is pending anywhere.
    pub fn pop_output(&mut self, _now: ()) -> (r: Option<Output>)
        requires
            old(self).wf(),
        ensures
            final(self).wf(),
            final(self).shutdown == old(self).shutdown,
            r is None ==> {
                &&& old(self).drained()
                &&& final(self).index() == old(self).index()
                &&& final(self).rooms@.len() == old(self).rooms@.len()
                &&& forall|j: int|
                    0 <= j < old(self).rooms@.len() ==> Self::slot_obs_eq(
                        old(self).rooms@[j],
                        #[trigger] final(self).rooms@[j],
                    )
            },
            r is Some ==> exists|i: int|
                {
                    &&& 0 <= i < old(self).rooms@.len()
                    &&& old(self).rooms@[i] is Some
                    &&& (forall|j: int|
                        0 <= j < i && old(self).rooms@[j] is Some ==> (
                        #[trigger] old(self).rooms@[j]).unwrap().queue@.len() == 0
                            && !(old(self).rooms@[j].unwrap().state().is_empty()))
                    &&& (forall|j: int|
                        0 <= j < old(self).rooms@.len() && j != i ==> Self::slot_obs_eq(
                            old(self).rooms@[j],
                            #[trigger] final(self).rooms@[j],
                        ))
                    &&& final(self).rooms@.len() == old(self).rooms@.len()
                    &&& if (#[trigger] old(self).rooms@[i]).unwrap().queue@.len() > 0 {
                        let room0 = old(self).rooms@[i].unwrap();
                        &&& r == Some(room_to_cluster_output(room0.queue@[0]))
                        &&& final(self).index() == old(self).index()
                        &&& final(self).rooms@[i] is Some
                        &&& final(self).rooms@[i].unwrap().room == room0.room
                        &&& final(self).rooms@[i].unwrap().state() == room0.state()
                        &&& final(self).rooms@[i].unwrap().queue@ == room0.queue@.subrange(
                            1,
                            room0.queue@.len() as int,
                        )
                    } else {
                        let room0 = old(self).rooms@[i].unwrap();
                        &&& room0.state().is_empty()
                        &&& r == Some(Output::Continue)
                        &&& final(self).rooms@[i] is None
                        &&& final(self).index() == old(self).index().remove(room0.room.0)
                    }
                },
    {
        let n = self.rooms.len();
        let mut i: usize = 0;
        while i < n
            invariant
                old(self).wf(),
                self.wf(),
                self.shutdown == old(self).shutdown,
                self.index() == old(self).index(),
                i <= n,
                n == self.rooms@.len(),
                self.rooms@.len() == old(self).rooms@.len(),
                forall|j: int|
                    0 <= j < n ==> Self::slot_obs_eq(
                        old(self).rooms@[j],
                        #[trigger] self.rooms@[j],
                    ),
                forall|j: int|
                    0 <= j < i && old(self).rooms@[j] is Some ==> (
                    #[trigger] old(self).rooms@[j]).unwrap().queue@.len() == 0
                        && !(old(self).rooms@[j].unwrap().state().is_empty()),
            decreases n - i,
        {
            let ghost pre = *self;
            let mut popped: Option<RoomOutput> = None;
            let mut reap: Option<ClusterRoomHash> = None;
            let slot = vstd::std_specs::vec::vec_index_mut(&mut self.rooms, i);
            match slot {
                Some(room) => {
                    match room.pop_output(()) {
                        Some(o) => {
                            popped = Some(o);
                        },
                        None => {
                            if room.is_empty() {
                                reap = Some(room.room);
                            }
                        },
                    }
                },
                None => {},
            }
            proof {
                assert(self.rooms@ =~= pre.rooms@.update(i as int, self.rooms@[i as int]));
            }
            match popped {
                Some(o) => {
                    let ghost go = o;
                    let out = match o {
                        RoomOutput::Sdn(ud, ctl) => Output::Sdn(ud, ctl),
                        RoomOutput::Endpoint(ends, ev) => Output::Endpoint(ends, ev),
                        RoomOutput::OnResourceEmpty(_h) => Output::Continue,
                    };
                    proof {
                        assert(out == room_to_cluster_output(go));
                        assert(old(self).rooms@[i as int] is Some);
                        assert(old(self).rooms@[i as int].unwrap().queue@
                            == pre.rooms@[i as int].unwrap().queue@);
                    }
                    return Some(out);
                },
                None => {},
            }
            match reap {
                Some(h) => {
                    let slot2 = vstd::std_specs::vec::vec_index_mut(&mut self.rooms, i);
                    *slot2 = None;
                    rooms_map_swap_remove(&mut self.rooms_map, h.0);
                    proof {
                        assert(self.rooms@ =~= pre.rooms@.update(i as int, None));
                        assert forall|hh: u64| #[trigger] self.index().contains_key(hh) implies {
                            &&& self.index()[hh] < self.rooms@.len()
                            &&& self.rooms@[self.index()[hh] as int] is Some
                            &&& self.rooms@[self.index()[hh] as int].unwrap().room.0 == hh
                        } by {
                            assert(old(self).index().contains_key(hh));
                            assert(hh != h.0);
                            assert(old(self).index()[hh] != i) by {
                                if old(self).index()[hh] == i {
                                    assert(old(self).rooms@[i as int].unwrap().room.0 == hh);
                                }
                            }
                            assert(Self::slot_obs_eq(
                                old(self).rooms@[old(self).index()[hh] as int],
                                self.rooms@[old(self).index()[hh] as int],
                            ));
                        }
                    }
                    return Some(Output::Continue);
                },
                None => {},
            }
            i = i + 1;
        }
        None
    }

    /// Same room, same state, same pending outputs.
    pub open spec fn slot_obs_eq(a: Option<ClusterRoom>, b: Option<ClusterRoom>) -> bool {
        match a {
            None => b is None,
            Some(x) => {
                &&& b is Some
                &&& b.unwrap().room == x.room
                &&& b.unwrap().state() == x.state()
                &&& b.unwrap().queue@ == x.queue@
            },
        }
    }
}

impl Default for MediaCluster {
    /// A fresh engine: no rooms, not shut down.
    fn default() -> (r: MediaCluster)
        ensures
            r.wf(),
            r.index() == Map::<u64, usize>::empty(),
            r.rooms@.len() == 0,
            !r.shutdown,
    {
        MediaCluster::new()
    }
}

} // verus!
