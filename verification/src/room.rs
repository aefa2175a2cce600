//! One room of the cluster: the peer directory, the track publisher, the
//! local-track subscriptions, the message channels and the audio-mixer
//! forwarding.
//!
//! The room's behaviour is specified by two transition functions,
//! [`room_ctrl_state`]/[`room_ctrl_outs`] for endpoint controls and
//! [`room_sdn_state`]/[`room_sdn_outs`] for overlay events; every exec
//! method's contract says that it performs exactly one such step and
//! appends exactly the outputs of that step to its FIFO.

use crate::alist::{
    acontains, afind, afind_idx, aremove, aremove_key, lcontains, lemma_afind, lemma_lfind,
    lfind, lremove, lremove_val, pcontains, pfind, pfind_idx, premove,
};
use crate::cluster::{
    endpoint_event_view, ClusterAudioMixerControl, ClusterEndpointControl, ClusterEndpointEvent,
    ClusterLocalTrackControl, ClusterLocalTrackEvent, ClusterMessageChannelControl,
    ClusterRemoteTrackControl, ClusterRoomHash, EndpointEventView, LocalTrackEventView,
};
use crate::ids::{
    gen_msg_channel_id, gen_track_channel_id, msg_channel_spec, peer_map, peer_map_spec, peers_key,
    peers_key_spec, peers_map, peers_map_spec, track_channel_spec, tracks_key, tracks_key_spec,
    tracks_map, tracks_map_spec,
};
use crate::media::{packet_valid, spec_deserialize, spec_serialize, MediaPacket, MediaPacketView};
use crate::media_track::{track_output_view, Output, PubKindView, TrackOutputView};
use crate::protocol::{
    peer_entry_bytes, spec_msg_payload_deserialize, spec_msg_payload_serialize,
    spec_peer_info_deserialize, spec_peer_info_serialize, spec_track_info_deserialize,
    spec_track_info_serialize, track_entry_bytes, msg_payload_deserialize, msg_payload_serialize,
    PeerInfo, PeerInfoView, TrackInfo, TrackInfoView,
};
use crate::publisher::{pub_step, PubModel, PubOp, RoomChannelPublisher, feedback_outputs};
use crate::sdn::{
    ChannelControl, ChannelEvent, DhtKvControl, DhtKvEvent, Feedback, FeaturesControl,
    FeaturesEvent, MapControl, MapEvent, PubsubControl, PubsubEvent, RoomFeature, RoomUserData,
};
use crate::types::{
    AudioMixerConfig, LocalTrackId, MessageChannelLabel, PeerId, PeerMeta, RemoteTrackId,
    RoomInfoPublish,
    RoomInfoSubscribe, TrackMeta, TrackName, TrackSource,
};
use std::collections::VecDeque;
use vstd::prelude::*;

verus! {

/// Bounds of the feedback repeat interval, in milliseconds.
pub const FEEDBACK_INTERVAL_MIN_MS: u64 = 100;

pub const FEEDBACK_INTERVAL_MAX_MS: u64 = 200;

/// Feedback kind asking for a bitrate.
pub const FEEDBACK_KIND_BITRATE: u8 = 0;

/// Feedback kind asking for a key frame.
pub const FEEDBACK_KIND_KEYFRAME: u8 = 1;

/// Everything the room remembers about one joined endpoint.
#[derive(Clone, Debug, PartialEq, Eq)]
pub struct PeerSlot {
    pub peer: PeerId,
    pub meta: PeerMeta,
    pub publish: RoomInfoPublish,
    pub subscribe: RoomInfoSubscribe,
    pub mixer: Option<AudioMixerConfig>,
}

/// One local track's subscription: the channel it follows and the bitrate
/// it asked for.
#[derive(Clone, Copy, Debug, PartialEq, Eq)]
pub struct LocalSub {
    pub channel: u64,
    pub bitrate: Option<u64>,
}

/// One labelled message channel: who publishes on it and who listens.
#[derive(Clone, Debug, PartialEq, Eq)]
pub struct MsgChannel {
    pub label: MessageChannelLabel,
    pub publishers: Vec<u64>,
    pub subscribers: Vec<u64>,
}

/// Mathematical view of a message channel.
#[verifier::ext_equal]
pub ghost struct MsgChannelView {
    pub label: Seq<u8>,
    pub publishers: Seq<u64>,
    pub subscribers: Seq<u64>,
}

/// Input of a room.
#[derive(Clone, Debug, PartialEq, Eq)]
pub enum RoomInput {
    Sdn(RoomUserData, FeaturesEvent),
    Endpoint(u64, ClusterEndpointControl),
}

/// Output of a room.
#[derive(Clone, Debug, PartialEq, Eq)]
pub enum RoomOutput {
    Sdn(RoomUserData, FeaturesControl),
    Endpoint(Vec<u64>, ClusterEndpointEvent),
    OnResourceEmpty(ClusterRoomHash),
}

/// Pub/sub channel command, as a mathematical value.
pub ghost enum ChannelCmdView {
    Start,
    Stop,
    Data(Seq<u8>),
    Sub,
    Unsub,
    FeedbackAuto(Feedback),
}

/// Room output, as a mathematical value.
pub ghost enum RoomOutputView {
    DhtSet(u64, u64, Seq<u8>),
    DhtDel(u64, u64),
    DhtSub(u64),
    DhtUnsub(u64),
    Channel(u64, ChannelCmdView),
    Endpoint(Seq<u64>, EndpointEventView),
    RoomEmpty(u64),
}

/// View of one room output value.
pub open spec fn room_output_view(o: RoomOutput) -> RoomOutputView {
    match o {
        RoomOutput::Sdn(_ud, ctl) => match ctl {
            FeaturesControl::DhtKv(DhtKvControl::MapCmd(map, mc)) => match mc {
                MapControl::SetKey(k, v) => RoomOutputView::DhtSet(map, k, v@),
                MapControl::DelKey(k) => RoomOutputView::DhtDel(map, k),
                MapControl::Sub => RoomOutputView::DhtSub(map),
                MapControl::Unsub => RoomOutputView::DhtUnsub(map),
            },
            FeaturesControl::PubSub(PubsubControl(c, cc)) => match cc {
                ChannelControl::PubStart => RoomOutputView::Channel(c, ChannelCmdView::Start),
                ChannelControl::PubStop => RoomOutputView::Channel(c, ChannelCmdView::Stop),
                ChannelControl::PubData(d) => RoomOutputView::Channel(c, ChannelCmdView::Data(d@)),
                ChannelControl::SubAuto => RoomOutputView::Channel(c, ChannelCmdView::Sub),
                ChannelControl::UnsubAuto => RoomOutputView::Channel(c, ChannelCmdView::Unsub),
                ChannelControl::FeedbackAuto(fb) => RoomOutputView::Channel(
                    c,
                    ChannelCmdView::FeedbackAuto(fb),
                ),
            },
        },
        RoomOutput::Endpoint(ends, ev) => RoomOutputView::Endpoint(ends@, endpoint_event_view(ev)),
        RoomOutput::OnResourceEmpty(h) => RoomOutputView::RoomEmpty(h.0),
    }
}

/// A track-component output, lifted to a room output.
pub open spec fn lift_track_output(room: u64, v: TrackOutputView) -> RoomOutputView {
    match v {
        TrackOutputView::Pub(c, k) => RoomOutputView::Channel(
            c,
            match k {
                PubKindView::Start => ChannelCmdView::Start,
                PubKindView::Stop => ChannelCmdView::Stop,
                PubKindView::Data(d) => ChannelCmdView::Data(d),
            },
        ),
        TrackOutputView::Sub(c) => RoomOutputView::Channel(c, ChannelCmdView::Sub),
        TrackOutputView::Unsub(c) => RoomOutputView::Channel(c, ChannelCmdView::Unsub),
        TrackOutputView::Feedback(c, fb) => RoomOutputView::Channel(
            c,
            ChannelCmdView::FeedbackAuto(fb),
        ),
        TrackOutputView::Endpoint(ends, ev) => RoomOutputView::Endpoint(ends, ev),
        TrackOutputView::Empty => RoomOutputView::RoomEmpty(room),
    }
}

/// Mathematical state of a room.
#[verifier::ext_equal]
pub ghost struct RoomState {
    pub peers: Seq<(u64, PeerSlot)>,
    pub peer_subs: Seq<u64>,
    pub track_subs: Seq<u64>,
    pub cached_peers: Seq<(u64, PeerInfoView)>,
    pub cached_tracks: Seq<(u64, TrackInfoView)>,
    pub publisher: PubModel,
    pub local_tracks: Seq<((u64, u64), LocalSub)>,
    pub msg_channels: Seq<(u64, MsgChannelView)>,
}

impl RoomState {
    /// The state of a freshly created room.
    pub open spec fn empty() -> RoomState {
        RoomState {
            peers: Seq::empty(),
            peer_subs: Seq::empty(),
            track_subs: Seq::empty(),
            cached_peers: Seq::empty(),
            cached_tracks: Seq::empty(),
            publisher: PubModel::empty(),
            local_tracks: Seq::empty(),
            msg_channels: Seq::empty(),
        }
    }

    /// A room with nothing left in it.
    pub open spec fn is_empty(self) -> bool {
        &&& self.peers.len() == 0
        &&& self.peer_subs.len() == 0
        &&& self.track_subs.len() == 0
        &&& self.cached_peers.len() == 0
        &&& self.cached_tracks.len() == 0
        &&& self.publisher == PubModel::empty()
        &&& self.local_tracks.len() == 0
        &&& self.msg_channels.len() == 0
    }
}

/// View of a joined peer as its directory entry.
pub open spec fn slot_info_view(slot: PeerSlot) -> PeerInfoView {
    PeerInfoView {
        peer: slot.peer@,
        metadata: match slot.meta.metadata {
            Some(b) => Some(b@),
            None => None,
        },
        extra_data: match slot.meta.extra_data {
            Some(b) => Some(b@),
            None => None,
        },
    }
}

/// State after a `Join`.
pub open spec fn join_state(s: RoomState, e: u64, slot: PeerSlot) -> RoomState {
    RoomState {
        peers: s.peers.push((e, slot)),
        peer_subs: if slot.subscribe.peers {
            s.peer_subs.push(e)
        } else {
            s.peer_subs
        },
        track_subs: if slot.subscribe.tracks {
            s.track_subs.push(e)
        } else {
            s.track_subs
        },
        ..s
    }
}

/// Outputs of a `Join`: publish the peer entry, then subscribe the
/// directory maps (only when this endpoint is the first subscriber).
pub open spec fn join_outs(room: u64, s: RoomState, slot: PeerSlot) -> Seq<RoomOutputView> {
    (if slot.publish.peer {
        seq![
            RoomOutputView::DhtSet(
                peers_map_spec(room),
                peers_key_spec(slot.peer@),
                spec_peer_info_serialize(slot_info_view(slot)),
            ),
        ]
    } else {
        Seq::empty()
    }) + (if slot.subscribe.peers && s.peer_subs.len() == 0 {
        seq![RoomOutputView::DhtSub(peers_map_spec(room))]
    } else {
        Seq::empty()
    }) + (if slot.subscribe.tracks && s.track_subs.len() == 0 {
        seq![RoomOutputView::DhtSub(tracks_map_spec(room))]
    } else {
        Seq::empty()
    })
}

/// State after a `Leave`.
pub open spec fn leave_state(s: RoomState, e: u64) -> RoomState {
    if acontains(s.peers, e) {
        let slot = s.peers[afind(s.peers, e)].1;
        let peer_subs2 = if slot.subscribe.peers {
            lremove(s.peer_subs, e)
        } else {
            s.peer_subs
        };
        let track_subs2 = if slot.subscribe.tracks {
            lremove(s.track_subs, e)
        } else {
            s.track_subs
        };
        RoomState {
            peers: aremove(s.peers, e),
            peer_subs: peer_subs2,
            track_subs: track_subs2,
            cached_peers: if peer_subs2.len() == 0 {
                Seq::empty()
            } else {
                s.cached_peers
            },
            cached_tracks: if track_subs2.len() == 0 {
                Seq::empty()
            } else {
                s.cached_tracks
            },
            ..s
        }
    } else {
        s
    }
}

/// Outputs of a `Leave`: delete the peer entry, then unsubscribe the
/// directory maps (only when this endpoint was the last subscriber).
pub open spec fn leave_outs(room: u64, s: RoomState, e: u64) -> Seq<RoomOutputView> {
    if acontains(s.peers, e) {
        let slot = s.peers[afind(s.peers, e)].1;
        (if slot.publish.peer {
            seq![RoomOutputView::DhtDel(peers_map_spec(room), peers_key_spec(slot.peer@))]
        } else {
            Seq::empty()
        }) + (if slot.subscribe.peers && lremove(s.peer_subs, e).len() == 0 {
            seq![RoomOutputView::DhtUnsub(peers_map_spec(room))]
        } else {
            Seq::empty()
        }) + (if slot.subscribe.tracks && lremove(s.track_subs, e).len() == 0 {
            seq![RoomOutputView::DhtUnsub(tracks_map_spec(room))]
        } else {
            Seq::empty()
        })
    } else {
        Seq::empty()
    }
}

/// Outputs of an audio-mixer attach or detach: one channel subscription
/// per source.
pub open spec fn mixer_outs(room: u64, sources: Seq<TrackSource>, attach: bool) -> Seq<
    RoomOutputView,
> {
    sources.map_values(
        |src: TrackSource|
            RoomOutputView::Channel(
                track_channel_spec(room, src.peer@, src.track@),
                if attach {
                    ChannelCmdView::Sub
                } else {
                    ChannelCmdView::Unsub
                },
            ),
    )
}

/// Whether any local track follows the channel.
pub open spec fn channel_subscribed(s: Seq<((u64, u64), LocalSub)>, c: u64) -> bool {
    exists|i: int| 0 <= i < s.len() && s[i].1.channel == c
}

/// Highest bitrate requested by the local tracks that follow the channel.
pub open spec fn channel_max_bitrate(s: Seq<((u64, u64), LocalSub)>, c: u64) -> u64
    decreases s.len(),
{
    if s.len() == 0 {
        0
    } else {
        let rest = channel_max_bitrate(s.drop_last(), c);
        let last = if s.last().1.channel == c {
            match s.last().1.bitrate {
                Some(b) => b,
                None => 0,
            }
        } else {
            0
        };
        if last > rest {
            last
        } else {
            rest
        }
    }
}

/// Media fan-out: one event per local track following the channel, in
/// subscription order.
pub open spec fn media_fanout(
    s: Seq<((u64, u64), LocalSub)>,
    c: u64,
    seq_no: u64,
    pkt: MediaPacketView,
) -> Seq<RoomOutputView>
    decreases s.len(),
{
    if s.len() == 0 {
        Seq::empty()
    } else {
        media_fanout(s.drop_last(), c, seq_no, pkt) + (if s.last().1.channel == c {
            seq![
                RoomOutputView::Endpoint(
                    seq![s.last().0.0],
                    EndpointEventView::LocalTrack(
                        s.last().0.1,
                        LocalTrackEventView::Media(seq_no, pkt),
                    ),
                ),
            ]
        } else {
            Seq::empty()
        })
    }
}

/// Relay/source-change fan-out over the local tracks of a channel.
pub open spec fn status_fanout(
    s: Seq<((u64, u64), LocalSub)>,
    c: u64,
    relay: bool,
) -> Seq<RoomOutputView>
    decreases s.len(),
{
    if s.len() == 0 {
        Seq::empty()
    } else {
        status_fanout(s.drop_last(), c, relay) + (if s.last().1.channel == c {
            seq![
                RoomOutputView::Endpoint(
                    seq![s.last().0.0],
                    EndpointEventView::LocalTrack(
                        s.last().0.1,
                        if relay {
                            LocalTrackEventView::RelayChanged
                        } else {
                            LocalTrackEventView::SourceChanged
                        },
                    ),
                ),
            ]
        } else {
            Seq::empty()
        })
    }
}

/// The inputs a room step accepts: identifier sizes fit their length
/// prefixes, media fits its wire format, and a join is fresh.
pub open spec fn room_ctrl_ok(s: RoomState, e: u64, c: ClusterEndpointControl) -> bool {
    match c {
        ClusterEndpointControl::Join(peer, meta, _pb, _sb, _mx) => {
            &&& !acontains(s.peers, e)
            &&& peer@.len() <= 0xffff
            &&& (meta.metadata is Some ==> meta.metadata.unwrap()@.len() <= 0xffff)
            &&& (meta.extra_data is Some ==> meta.extra_data.unwrap()@.len() <= 0xffff)
        },
        ClusterEndpointControl::RemoteTrack(_t, ctl) => match ctl {
            ClusterRemoteTrackControl::Started(name, _m) => name@.len() <= 0xffff,
            ClusterRemoteTrackControl::Media(pkt) => packet_valid(pkt@),
            ClusterRemoteTrackControl::Ended(name, _m) => name@.len() <= 0xffff,
        },
        ClusterEndpointControl::MessageChannel(_l, ctl) => match ctl {
            ClusterMessageChannelControl::PublishData(peer, _d) => peer@.len() <= 0xffff,
            _ => true,
        },
        _ => true,
    }
}

/// State after one endpoint control.
pub open spec fn room_ctrl_state(
    room: u64,
    s: RoomState,
    e: u64,
    c: ClusterEndpointControl,
) -> RoomState {
    match c {
        ClusterEndpointControl::Join(peer, meta, publish, subscribe, mixer) => join_state(
            s,
            e,
            PeerSlot { peer, meta, publish, subscribe, mixer },
        ),
        ClusterEndpointControl::Leave => leave_state(s, e),
        ClusterEndpointControl::SubscribePeer(_p) => s,
        ClusterEndpointControl::UnsubscribePeer(_p) => s,
        ClusterEndpointControl::AudioMixer(_ctl) => s,
        ClusterEndpointControl::RemoteTrack(t, ctl) => match ctl {
            ClusterRemoteTrackControl::Started(name, _meta) => {
                if acontains(s.peers, e) && !s.publisher.tracks.contains_key((e, t.0)) {
                    let slot = s.peers[afind(s.peers, e)].1;
                    RoomState {
                        publisher: pub_step(
                            room,
                            s.publisher,
                            PubOp::Publish(e, t.0, slot.peer@, name@),
                        ).0,
                        ..s
                    }
                } else {
                    s
                }
            },
            ClusterRemoteTrackControl::Media(_pkt) => s,
            ClusterRemoteTrackControl::Ended(_name, _meta) => RoomState {
                publisher: pub_step(room, s.publisher, PubOp::Unpublish(e, t.0)).0,
                ..s
            },
        },
        ClusterEndpointControl::LocalTrack(t, ctl) => match ctl {
            ClusterLocalTrackControl::Subscribe(peer, name) => {
                if pcontains(s.local_tracks, (e, t.0)) {
                    s
                } else {
                    let ch = track_channel_spec(room, peer@, name@);
                    RoomState {
                        local_tracks: s.local_tracks.push(
                            ((e, t.0), LocalSub { channel: ch, bitrate: None }),
                        ),
                        ..s
                    }
                }
            },
            ClusterLocalTrackControl::Unsubscribe => RoomState {
                local_tracks: premove(s.local_tracks, (e, t.0)),
                ..s
            },
            ClusterLocalTrackControl::RequestKeyFrame => s,
            ClusterLocalTrackControl::DesiredBitrate(bps) => {
                if pcontains(s.local_tracks, (e, t.0)) {
                    let i = pfind(s.local_tracks, (e, t.0));
                    let entry = s.local_tracks[i].1;
                    RoomState {
                        local_tracks: s.local_tracks.update(
                            i,
                            ((e, t.0), LocalSub { channel: entry.channel, bitrate: Some(bps) }),
                        ),
                        ..s
                    }
                } else {
                    s
                }
            },
        },
        ClusterEndpointControl::MessageChannel(label, ctl) => {
            let ch = msg_channel_spec(room, label@);
            match ctl {
                ClusterMessageChannelControl::StartPublish => {
                    if acontains(s.msg_channels, ch) {
                        let i = afind(s.msg_channels, ch);
                        let mc = s.msg_channels[i].1;
                        if mc.publishers.contains(e) {
                            s
                        } else {
                            RoomState {
                                msg_channels: s.msg_channels.update(
                                    i,
                                    (
                                        ch,
                                        MsgChannelView {
                                            publishers: mc.publishers.push(e),
                                            ..mc
                                        },
                                    ),
                                ),
                                ..s
                            }
                        }
                    } else {
                        RoomState {
                            msg_channels: s.msg_channels.push(
                                (
                                    ch,
                                    MsgChannelView {
                                        label: label@,
                                        publishers: seq![e],
                                        subscribers: Seq::empty(),
                                    },
                                ),
                            ),
                            ..s
                        }
                    }
                },
                ClusterMessageChannelControl::StopPublish => {
                    if acontains(s.msg_channels, ch) {
                        let i = afind(s.msg_channels, ch);
                        let mc = s.msg_channels[i].1;
                        if mc.publishers.contains(e) {
                            let pubs2 = lremove(mc.publishers, e);
                            if pubs2.len() == 0 && mc.subscribers.len() == 0 {
                                RoomState { msg_channels: s.msg_channels.remove(i), ..s }
                            } else {
                                RoomState {
                                    msg_channels: s.msg_channels.update(
                                        i,
                                        (ch, MsgChannelView { publishers: pubs2, ..mc }),
                                    ),
                                    ..s
                                }
                            }
                        } else {
                            s
                        }
                    } else {
                        s
                    }
                },
                ClusterMessageChannelControl::Subscribe => {
                    if acontains(s.msg_channels, ch) {
                        let i = afind(s.msg_channels, ch);
                        let mc = s.msg_channels[i].1;
                        if mc.subscribers.contains(e) {
                            s
                        } else {
                            RoomState {
                                msg_channels: s.msg_channels.update(
                                    i,
                                    (
                                        ch,
                                        MsgChannelView {
                                            subscribers: mc.subscribers.push(e),
                                            ..mc
                                        },
                                    ),
                                ),
                                ..s
                            }
                        }
                    } else {
                        RoomState {
                            msg_channels: s.msg_channels.push(
                                (
                                    ch,
                                    MsgChannelView {
                                        label: label@,
                                        publishers: Seq::empty(),
                                        subscribers: seq![e],
                                    },
                                ),
                            ),
                            ..s
                        }
                    }
                },
                ClusterMessageChannelControl::Unsubscribe => {
                    if acontains(s.msg_channels, ch) {
                        let i = afind(s.msg_channels, ch);
                        let mc = s.msg_channels[i].1;
                        if mc.subscribers.contains(e) {
                            let subs2 = lremove(mc.subscribers, e);
                            if subs2.len() == 0 && mc.publishers.len() == 0 {
                                RoomState { msg_channels: s.msg_channels.remove(i), ..s }
                            } else {
                                RoomState {
                                    msg_channels: s.msg_channels.update(
                                        i,
                                        (ch, MsgChannelView { subscribers: subs2, ..mc }),
                                    ),
                                    ..s
                                }
                            }
                        } else {
                            s
                        }
                    } else {
                        s
                    }
                },
                ClusterMessageChannelControl::PublishData(_peer, _data) => s,
            }
        },
    }
}

/// Outputs of one endpoint control.
pub open spec fn room_ctrl_outs(
    room: u64,
    s: RoomState,
    e: u64,
    c: ClusterEndpointControl,
) -> Seq<RoomOutputView> {
    match c {
        ClusterEndpointControl::Join(peer, meta, publish, subscribe, mixer) => join_outs(
            room,
            s,
            PeerSlot { peer, meta, publish, subscribe, mixer },
        ),
        ClusterEndpointControl::Leave => leave_outs(room, s, e),
        ClusterEndpointControl::SubscribePeer(p) => seq![
            RoomOutputView::DhtSub(peer_map_spec(room, p@)),
        ],
        ClusterEndpointControl::UnsubscribePeer(p) => seq![
            RoomOutputView::DhtUnsub(peer_map_spec(room, p@)),
        ],
        ClusterEndpointControl::AudioMixer(ctl) => match ctl {
            ClusterAudioMixerControl::Attach(sources) => mixer_outs(room, sources@, true),
            ClusterAudioMixerControl::Detach(sources) => mixer_outs(room, sources@, false),
        },
        ClusterEndpointControl::RemoteTrack(t, ctl) => match ctl {
            ClusterRemoteTrackControl::Started(name, meta) => {
                if acontains(s.peers, e) && !s.publisher.tracks.contains_key((e, t.0)) {
                    let slot = s.peers[afind(s.peers, e)].1;
                    pub_step(room, s.publisher, PubOp::Publish(e, t.0, slot.peer@, name@)).1
                        .map_values(|v: TrackOutputView| lift_track_output(room, v)) + (
                    if slot.publish.tracks {
                        seq![
                            RoomOutputView::DhtSet(
                                tracks_map_spec(room),
                                tracks_key_spec(slot.peer@, name@),
                                spec_track_info_serialize(
                                    TrackInfoView { peer: slot.peer@, track: name@, kind: meta.kind },
                                ),
                            ),
                        ]
                    } else {
                        Seq::empty()
                    })
                } else {
                    Seq::empty()
                }
            },
            ClusterRemoteTrackControl::Media(pkt) => {
                if s.publisher.tracks.contains_key((e, t.0)) {
                    seq![
                        RoomOutputView::Channel(
                            s.publisher.tracks[(e, t.0)].2,
                            ChannelCmdView::Data(spec_serialize(pkt@)),
                        ),
                    ]
                } else {
                    Seq::empty()
                }
            },
            ClusterRemoteTrackControl::Ended(name, _meta) => {
                let had = s.publisher.tracks.contains_key((e, t.0));
                pub_step(room, s.publisher, PubOp::Unpublish(e, t.0)).1.map_values(
                    |v: TrackOutputView| lift_track_output(room, v),
                ) + (if had && acontains(s.peers, e) && s.peers[afind(s.peers, e)].1.publish.tracks {
                    seq![
                        RoomOutputView::DhtDel(
                            tracks_map_spec(room),
                            tracks_key_spec(s.peers[afind(s.peers, e)].1.peer@, name@),
                        ),
                    ]
                } else {
                    Seq::empty()
                })
            },
        },
        ClusterEndpointControl::LocalTrack(t, ctl) => match ctl {
            ClusterLocalTrackControl::Subscribe(peer, name) => {
                if pcontains(s.local_tracks, (e, t.0)) {
                    Seq::empty()
                } else {
                    let ch = track_channel_spec(room, peer@, name@);
                    if channel_subscribed(s.local_tracks, ch) {
                        Seq::empty()
                    } else {
                        seq![RoomOutputView::Channel(ch, ChannelCmdView::Sub)]
                    }
                }
            },
            ClusterLocalTrackControl::Unsubscribe => {
                if pcontains(s.local_tracks, (e, t.0)) {
                    let ch = s.local_tracks[pfind(s.local_tracks, (e, t.0))].1.channel;
                    if channel_subscribed(premove(s.local_tracks, (e, t.0)), ch) {
                        Seq::empty()
                    } else {
                        seq![RoomOutputView::Channel(ch, ChannelCmdView::Unsub)]
                    }
                } else {
                    Seq::empty()
                }
            },
            ClusterLocalTrackControl::RequestKeyFrame => {
                if pcontains(s.local_tracks, (e, t.0)) {
                    let ch = s.local_tracks[pfind(s.local_tracks, (e, t.0))].1.channel;
                    seq![
                        RoomOutputView::Channel(
                            ch,
                            ChannelCmdView::FeedbackAuto(
                                Feedback {
                                    kind: FEEDBACK_KIND_KEYFRAME,
                                    value: 1,
                                    min: FEEDBACK_INTERVAL_MIN_MS,
                                    max: FEEDBACK_INTERVAL_MAX_MS,
                                },
                            ),
                        ),
                    ]
                } else {
                    Seq::empty()
                }
            },
            ClusterLocalTrackControl::DesiredBitrate(bps) => {
                if pcontains(s.local_tracks, (e, t.0)) {
                    let i = pfind(s.local_tracks, (e, t.0));
                    let entry = s.local_tracks[i].1;
                    let lt2 = s.local_tracks.update(
                        i,
                        ((e, t.0), LocalSub { channel: entry.channel, bitrate: Some(bps) }),
                    );
                    seq![
                        RoomOutputView::Channel(
                            entry.channel,
                            ChannelCmdView::FeedbackAuto(
                                Feedback {
                                    kind: FEEDBACK_KIND_BITRATE,
                                    value: channel_max_bitrate(lt2, entry.channel),
                                    min: FEEDBACK_INTERVAL_MIN_MS,
                                    max: FEEDBACK_INTERVAL_MAX_MS,
                                },
                            ),
                        ),
                    ]
                } else {
                    Seq::empty()
                }
            },
        },
        ClusterEndpointControl::MessageChannel(label, ctl) => {
            let ch = msg_channel_spec(room, label@);
            match ctl {
                ClusterMessageChannelControl::StartPublish => {
                    if acontains(s.msg_channels, ch) {
                        let mc = s.msg_channels[afind(s.msg_channels, ch)].1;
                        if mc.publishers.len() == 0 && !mc.publishers.contains(e) {
                            seq![RoomOutputView::Channel(ch, ChannelCmdView::Start)]
                        } else {
                            Seq::empty()
                        }
                    } else {
                        seq![RoomOutputView::Channel(ch, ChannelCmdView::Start)]
                    }
                },
                ClusterMessageChannelControl::StopPublish => {
                    if acontains(s.msg_channels, ch) {
                        let mc = s.msg_channels[afind(s.msg_channels, ch)].1;
                        if mc.publishers.contains(e) && lremove(mc.publishers, e).len() == 0 {
                            seq![RoomOutputView::Channel(ch, ChannelCmdView::Stop)]
                        } else {
                            Seq::empty()
                        }
                    } else {
                        Seq::empty()
                    }
                },
                ClusterMessageChannelControl::Subscribe => {
                    if acontains(s.msg_channels, ch) {
                        let mc = s.msg_channels[afind(s.msg_channels, ch)].1;
                        if mc.subscribers.len() == 0 && !mc.subscribers.contains(e) {
                            seq![RoomOutputView::Channel(ch, ChannelCmdView::Sub)]
                        } else {
                            Seq::empty()
                        }
                    } else {
                        seq![RoomOutputView::Channel(ch, ChannelCmdView::Sub)]
                    }
                },
                ClusterMessageChannelControl::Unsubscribe => {
                    if acontains(s.msg_channels, ch) {
                        let mc = s.msg_channels[afind(s.msg_channels, ch)].1;
                        if mc.subscribers.contains(e) && lremove(mc.subscribers, e).len() == 0 {
                            seq![RoomOutputView::Channel(ch, ChannelCmdView::Unsub)]
                        } else {
                            Seq::empty()
                        }
                    } else {
                        Seq::empty()
                    }
                },
                ClusterMessageChannelControl::PublishData(peer, data) => {
                    if acontains(s.msg_channels, ch) && s.msg_channels[afind(
                        s.msg_channels,
                        ch,
                    )].1.publishers.contains(e) {
                        seq![
                            RoomOutputView::Channel(
                                ch,
                                ChannelCmdView::Data(spec_msg_payload_serialize(peer@, data@)),
                            ),
                        ]
                    } else {
                        Seq::empty()
                    }
                },
            }
        },
    }
}

/// State after one overlay event.
pub open spec fn room_sdn_state(room: u64, s: RoomState, event: FeaturesEvent) -> RoomState {
    match event {
        FeaturesEvent::DhtKv(DhtKvEvent::MapEvent(map, me)) => {
            if map == peers_map_spec(room) && s.peer_subs.len() > 0 {
                match me {
                    MapEvent::OnSet(key, _src, data) => match spec_peer_info_deserialize(data@) {
                        Some(pi) => RoomState {
                            cached_peers: aremove(s.cached_peers, key).push((key, pi)),
                            ..s
                        },
                        None => s,
                    },
                    MapEvent::OnDel(key, _src) => RoomState {
                        cached_peers: aremove(s.cached_peers, key),
                        ..s
                    },
                }
            } else if map == tracks_map_spec(room) && s.track_subs.len() > 0 {
                match me {
                    MapEvent::OnSet(key, _src, data) => match spec_track_info_deserialize(data@) {
                        Some(ti) => RoomState {
                            cached_tracks: aremove(s.cached_tracks, key).push((key, ti)),
                            ..s
                        },
                        None => s,
                    },
                    MapEvent::OnDel(key, _src) => RoomState {
                        cached_tracks: aremove(s.cached_tracks, key),
                        ..s
                    },
                }
            } else {
                s
            }
        },
        FeaturesEvent::PubSub(PubsubEvent(_c, _ev)) => s,
    }
}

/// Outputs of one overlay event.
pub open spec fn room_sdn_outs(room: u64, s: RoomState, event: FeaturesEvent) -> Seq<
    RoomOutputView,
> {
    match event {
        FeaturesEvent::DhtKv(DhtKvEvent::MapEvent(map, me)) => {
            if map == peers_map_spec(room) && s.peer_subs.len() > 0 {
                match me {
                    MapEvent::OnSet(_key, _src, data) => match spec_peer_info_deserialize(data@) {
                        Some(pi) => seq![
                            RoomOutputView::Endpoint(
                                s.peer_subs,
                                EndpointEventView::PeerJoined(pi.peer, pi.metadata, pi.extra_data),
                            ),
                        ],
                        None => Seq::empty(),
                    },
                    MapEvent::OnDel(key, _src) => {
                        if acontains(s.cached_peers, key) {
                            let pi = s.cached_peers[afind(s.cached_peers, key)].1;
                            seq![
                                RoomOutputView::Endpoint(
                                    s.peer_subs,
                                    EndpointEventView::PeerLeaved(
                                        pi.peer,
                                        pi.metadata,
                                        pi.extra_data,
                                    ),
                                ),
                            ]
                        } else {
                            Seq::empty()
                        }
                    },
                }
            } else if map == tracks_map_spec(room) && s.track_subs.len() > 0 {
                match me {
                    MapEvent::OnSet(_key, _src, data) => match spec_track_info_deserialize(data@) {
                        Some(ti) => seq![
                            RoomOutputView::Endpoint(
                                s.track_subs,
                                EndpointEventView::TrackStarted(
                                    ti.peer,
                                    ti.track,
                                    TrackMeta { kind: ti.kind },
                                ),
                            ),
                        ],
                        None => Seq::empty(),
                    },
                    MapEvent::OnDel(key, _src) => {
                        if acontains(s.cached_tracks, key) {
                            let ti = s.cached_tracks[afind(s.cached_tracks, key)].1;
                            seq![
                                RoomOutputView::Endpoint(
                                    s.track_subs,
                                    EndpointEventView::TrackStopped(
                                        ti.peer,
                                        ti.track,
                                        TrackMeta { kind: ti.kind },
                                    ),
                                ),
                            ]
                        } else {
                            Seq::empty()
                        }
                    },
                }
            } else {
                Seq::empty()
            }
        },
        FeaturesEvent::PubSub(PubsubEvent(c, ev)) => match ev {
            ChannelEvent::Data(seq_no, data) => {
                if acontains(s.msg_channels, c) {
                    let mc = s.msg_channels[afind(s.msg_channels, c)].1;
                    if mc.subscribers.len() > 0 {
                        match spec_msg_payload_deserialize(data@) {
                            Some(pd) => seq![
                                RoomOutputView::Endpoint(
                                    mc.subscribers,
                                    EndpointEventView::MessageChannelData(mc.label, pd.0, pd.1),
                                ),
                            ],
                            None => Seq::empty(),
                        }
                    } else {
                        Seq::empty()
                    }
                } else {
                    match spec_deserialize(data@) {
                        Some(pkt) => media_fanout(s.local_tracks, c, seq_no, pkt),
                        None => Seq::empty(),
                    }
                }
            },
            ChannelEvent::Feedback(fb) => feedback_outputs(s.publisher, c, fb).map_values(
                |v: TrackOutputView| lift_track_output(room, v),
            ),
            ChannelEvent::RouteChanged => status_fanout(s.local_tracks, c, true),
            ChannelEvent::SourceChanged => status_fanout(s.local_tracks, c, false),
        },
    }
}


/// View of a cached-peer list.
pub open spec fn cpview(s: Seq<(u64, PeerInfo)>) -> Seq<(u64, PeerInfoView)> {
    s.map_values(|p: (u64, PeerInfo)| (p.0, p.1@))
}

/// View of a cached-track list.
pub open spec fn ctview(s: Seq<(u64, TrackInfo)>) -> Seq<(u64, TrackInfoView)> {
    s.map_values(|p: (u64, TrackInfo)| (p.0, p.1@))
}

/// View of one message channel.
pub open spec fn mc_entry_view(m: MsgChannel) -> MsgChannelView {
    MsgChannelView { label: m.label@, publishers: m.publishers@, subscribers: m.subscribers@ }
}

/// View of a message-channel list.
pub open spec fn mcview(s: Seq<(u64, MsgChannel)>) -> Seq<(u64, MsgChannelView)> {
    s.map_values(|p: (u64, MsgChannel)| (p.0, mc_entry_view(p.1)))
}

/// Key lookup commutes with taking views of a cached-peer list.
pub proof fn lemma_cpview_find(s: Seq<(u64, PeerInfo)>, k: u64)
    ensures
        acontains(cpview(s), k) == acontains(s, k),
        afind(cpview(s), k) == afind(s, k),
    decreases s.len(),
{
    if s.len() == 0 {
    } else {
        let tail = s.subrange(1, s.len() as int);
        lemma_cpview_find(tail, k);
        assert(cpview(s).subrange(1, cpview(s).len() as int) =~= cpview(tail));
        assert(cpview(s)[0].0 == s[0].0);
        assert(acontains(cpview(s), k) == acontains(s, k)) by {
            if acontains(s, k) {
                let w = choose|w: int| 0 <= w < s.len() && s[w].0 == k;
                assert(cpview(s)[w].0 == k);
            }
            if acontains(cpview(s), k) {
                let w = choose|w: int| 0 <= w < cpview(s).len() && cpview(s)[w].0 == k;
                assert(s[w].0 == k);
            }
        }
    }
}

/// Removal commutes with taking views of a cached-peer list.
pub proof fn lemma_cpview_remove(s: Seq<(u64, PeerInfo)>, k: u64)
    ensures
        cpview(aremove(s, k)) == aremove(cpview(s), k),
{
    lemma_cpview_find(s, k);
    if acontains(s, k) {
        lemma_afind(s, k);
        let i = afind(s, k);
        assert(cpview(s.remove(i)) =~= cpview(s).remove(i));
    }
}

/// Key lookup commutes with taking views of a cached-track list.
pub proof fn lemma_ctview_find(s: Seq<(u64, TrackInfo)>, k: u64)
    ensures
        acontains(ctview(s), k) == acontains(s, k),
        afind(ctview(s), k) == afind(s, k),
    decreases s.len(),
{
    if s.len() == 0 {
    } else {
        let tail = s.subrange(1, s.len() as int);
        lemma_ctview_find(tail, k);
        assert(ctview(s).subrange(1, ctview(s).len() as int) =~= ctview(tail));
        assert(ctview(s)[0].0 == s[0].0);
        assert(acontains(ctview(s), k) == acontains(s, k)) by {
            if acontains(s, k) {
                let w = choose|w: int| 0 <= w < s.len() && s[w].0 == k;
                assert(ctview(s)[w].0 == k);
            }
            if acontains(ctview(s), k) {
                let w = choose|w: int| 0 <= w < ctview(s).len() && ctview(s)[w].0 == k;
                assert(s[w].0 == k);
            }
        }
    }
}

/// Removal commutes with taking views of a cached-track list.
pub proof fn lemma_ctview_remove(s: Seq<(u64, TrackInfo)>, k: u64)
    ensures
        ctview(aremove(s, k)) == aremove(ctview(s), k),
{
    lemma_ctview_find(s, k);
    if acontains(s, k) {
        lemma_afind(s, k);
        let i = afind(s, k);
        assert(ctview(s.remove(i)) =~= ctview(s).remove(i));
    }
}

/// Key lookup commutes with taking views of a message-channel list.
pub proof fn lemma_mcview_find(s: Seq<(u64, MsgChannel)>, k: u64)
    ensures
        acontains(mcview(s), k) == acontains(s, k),
        afind(mcview(s), k) == afind(s, k),
    decreases s.len(),
{
    if s.len() == 0 {
    } else {
        let tail = s.subrange(1, s.len() as int);
        lemma_mcview_find(tail, k);
        assert(mcview(s).subrange(1, mcview(s).len() as int) =~= mcview(tail));
        assert(mcview(s)[0].0 == s[0].0);
        assert(acontains(mcview(s), k) == acontains(s, k)) by {
            if acontains(s, k) {
                let w = choose|w: int| 0 <= w < s.len() && s[w].0 == k;
                assert(mcview(s)[w].0 == k);
            }
            if acontains(mcview(s), k) {
                let w = choose|w: int| 0 <= w < mcview(s).len() && mcview(s)[w].0 == k;
                assert(s[w].0 == k);
            }
        }
    }
}

/// Copies a byte vector.
fn dup_bytes(v: &Vec<u8>) -> (r: Vec<u8>)
    ensures
        r@ == v@,
{
    vstd::slice::slice_to_vec(v.as_slice())
}

/// Copies an optional byte vector.
fn dup_opt_bytes(v: &Option<Vec<u8>>) -> (r: Option<Vec<u8>>)
    ensures
        match *v {
            Some(ref b) => r is Some && r.unwrap()@ == b@,
            None => r is None,
        },
{
    match v {
        Some(b) => Some(dup_bytes(b)),
        None => None,
    }
}

/// Whether any local track follows the channel.
fn channel_has_sub(v: &Vec<((u64, u64), LocalSub)>, c: u64) -> (r: bool)
    ensures
        r == channel_subscribed(v@, c),
{
    let mut i: usize = 0;
    while i < v.len()
        invariant
            i <= v@.len(),
            forall|j: int| 0 <= j < i ==> v@[j].1.channel != c,
        decreases v@.len() - i,
    {
        if v[i].1.channel == c {
            proof {
                assert(v@[i as int].1.channel == c);
            }
            return true;
        }
        i = i + 1;
    }
    proof {
        if channel_subscribed(v@, c) {
            let w = choose|w: int| 0 <= w < v@.len() && v@[w].1.channel == c;
            assert(v@[w].1.channel != c);
        }
    }
    false
}

/// Computes the highest bitrate requested on the channel.
fn channel_max(v: &Vec<((u64, u64), LocalSub)>, c: u64) -> (r: u64)
    ensures
        r == channel_max_bitrate(v@, c),
{
    let mut acc: u64 = 0;
    let mut i: usize = 0;
    while i < v.len()
        invariant
            i <= v@.len(),
            acc == channel_max_bitrate(v@.take(i as int), c),
        decreases v@.len() - i,
    {
        proof {
            assert(v@.take(i + 1).drop_last() =~= v@.take(i as int));
            assert(v@.take(i + 1).last() == v@[i as int]);
        }
        let entry = v[i].1;
        if entry.channel == c {
            let b = match entry.bitrate {
                Some(b) => b,
                None => 0,
            };
            if b > acc {
                acc = b;
            }
        }
        i = i + 1;
    }
    proof {
        assert(v@.take(v@.len() as int) =~= v@);
    }
    acc
}

/// One room of the cluster.
pub struct ClusterRoom {
    pub room: ClusterRoomHash,
    pub peers: Vec<(u64, PeerSlot)>,
    pub peer_subs: Vec<u64>,
    pub track_subs: Vec<u64>,
    pub cached_peers: Vec<(u64, PeerInfo)>,
    pub cached_tracks: Vec<(u64, TrackInfo)>,
    pub publisher: RoomChannelPublisher,
    pub local_tracks: Vec<((u64, u64), LocalSub)>,
    pub msg_channels: Vec<(u64, MsgChannel)>,
    pub queue: VecDeque<RoomOutput>,
}

impl ClusterRoom {
    /// Mathematical state of the room.
    pub open spec fn state(&self) -> RoomState {
        RoomState {
            peers: self.peers@,
            peer_subs: self.peer_subs@,
            track_subs: self.track_subs@,
            cached_peers: cpview(self.cached_peers@),
            cached_tracks: ctview(self.cached_tracks@),
            publisher: self.publisher.model(),
            local_tracks: self.local_tracks@,
            msg_channels: mcview(self.msg_channels@),
        }
    }

    /// Views of the queued outputs, oldest first.
    pub open spec fn qview(&self) -> Seq<RoomOutputView> {
        self.queue@.map_values(|o: RoomOutput| room_output_view(o))
    }

    /// State invariant: the publisher is well formed, belongs to this room
    /// and is fully drained; stored identifiers fit the wire format; the
    /// caches are empty whenever nobody subscribes to them.
    pub open spec fn wf(&self) -> bool {
        &&& self.publisher.wf()
        &&& self.publisher.room == self.room
        &&& self.publisher.queue@.len() == 0
        &&& forall|i: int|
            0 <= i < self.peers@.len() ==> {
                &&& (#[trigger] self.peers@[i]).1.peer@.len() <= 0xffff
                &&& (self.peers@[i].1.meta.metadata is Some
                    ==> self.peers@[i].1.meta.metadata.unwrap()@.len() <= 0xffff)
                &&& (self.peers@[i].1.meta.extra_data is Some
                    ==> self.peers@[i].1.meta.extra_data.unwrap()@.len() <= 0xffff)
            }
        &&& (self.peer_subs@.len() == 0 ==> self.cached_peers@.len() == 0)
        &&& (self.track_subs@.len() == 0 ==> self.cached_tracks@.len() == 0)
    }

    pub fn new(room: ClusterRoomHash) -> (r: ClusterRoom)
        ensures
            r.wf(),
            r.room == room,
            r.state() == RoomState::empty(),
            r.qview() == Seq::<RoomOutputView>::empty(),
            r.queue@.len() == 0,
    {
        let r = ClusterRoom {
            room,
            peers: Vec::new(),
            peer_subs: Vec::new(),
            track_subs: Vec::new(),
            cached_peers: Vec::new(),
            cached_tracks: Vec::new(),
            publisher: RoomChannelPublisher::new(room),
            local_tracks: Vec::new(),
            msg_channels: Vec::new(),
            queue: VecDeque::new(),
        };
        proof {
            assert(cpview(r.cached_peers@) =~= Seq::<(u64, PeerInfoView)>::empty());
            assert(ctview(r.cached_tracks@) =~= Seq::<(u64, TrackInfoView)>::empty());
            assert(mcview(r.msg_channels@) =~= Seq::<(u64, MsgChannelView)>::empty());
            assert(r.state() =~= RoomState::empty());
            assert(r.qview() =~= Seq::<RoomOutputView>::empty());
        }
        r
    }

    /// Everything but the queue is unchanged.
    pub open spec fn same_but_queue(a: &ClusterRoom, b: &ClusterRoom) -> bool {
        &&& a.room == b.room
        &&& a.peers == b.peers
        &&& a.peer_subs == b.peer_subs
        &&& a.track_subs == b.track_subs
        &&& a.cached_peers == b.cached_peers
        &&& a.cached_tracks == b.cached_tracks
        &&& a.publisher == b.publisher
        &&& a.local_tracks == b.local_tracks
        &&& a.msg_channels == b.msg_channels
    }

    /// Appends one output to the FIFO.
    fn push_out(&mut self, o: RoomOutput)
        ensures
            Self::same_but_queue(old(self), final(self)),
            final(self).queue@ == old(self).queue@.push(o),
            final(self).qview() == old(self).qview().push(room_output_view(o)),
    {
        let ghost go = o;
        self.queue.push_back(o);
        proof {
            assert(self.qview() =~= old(self).qview().push(room_output_view(go)));
        }
    }

    /// Moves every queued publisher output into the room FIFO, lifted to
    /// room outputs.
    fn drain_publisher(&mut self)
        requires
            old(self).publisher.wf(),
        ensures
            final(self).room == old(self).room,
            final(self).peers == old(self).peers,
            final(self).peer_subs == old(self).peer_subs,
            final(self).track_subs == old(self).track_subs,
            final(self).cached_peers == old(self).cached_peers,
            final(self).cached_tracks == old(self).cached_tracks,
            final(self).local_tracks == old(self).local_tracks,
            final(self).msg_channels == old(self).msg_channels,
            final(self).publisher.wf(),
            final(self).publisher.model() == old(self).publisher.model(),
            final(self).publisher.room == old(self).publisher.room,
            final(self).publisher.queue@.len() == 0,
            final(self).qview() == old(self).qview() + old(self).publisher.qview().map_values(
                |v: TrackOutputView| lift_track_output(old(self).room.0, v),
            ),
    {
        let ghost pq = old(self).publisher.qview();
        let ghost room = old(self).room.0;
        loop
            invariant
                self.publisher.wf(),
                self.room == old(self).room,
                self.peers == old(self).peers,
                self.peer_subs == old(self).peer_subs,
                self.track_subs == old(self).track_subs,
                self.cached_peers == old(self).cached_peers,
                self.cached_tracks == old(self).cached_tracks,
                self.local_tracks == old(self).local_tracks,
                self.msg_channels == old(self).msg_channels,
                self.publisher.model() == old(self).publisher.model(),
                self.publisher.room == old(self).publisher.room,
                pq == old(self).publisher.qview(),
                room == old(self).room.0,
                self.publisher.queue@.len() <= pq.len(),
                self.publisher.qview() == pq.skip(
                    pq.len() - self.publisher.queue@.len() as int,
                ),
                self.qview() == old(self).qview() + pq.take(
                    pq.len() - self.publisher.queue@.len() as int,
                ).map_values(|v: TrackOutputView| lift_track_output(room, v)),
            ensures
                self.publisher.wf(),
                self.room == old(self).room,
                self.peers == old(self).peers,
                self.peer_subs == old(self).peer_subs,
                self.track_subs == old(self).track_subs,
                self.cached_peers == old(self).cached_peers,
                self.cached_tracks == old(self).cached_tracks,
                self.local_tracks == old(self).local_tracks,
                self.msg_channels == old(self).msg_channels,
                self.publisher.model() == old(self).publisher.model(),
                self.publisher.room == old(self).publisher.room,
                self.publisher.queue@.len() == 0,
                self.qview() == old(self).qview() + pq.map_values(
                    |v: TrackOutputView| lift_track_output(room, v),
                ),
            decreases self.publisher.queue@.len(),
        {
            let ghost done = pq.len() - self.publisher.queue@.len() as int;
            let ghost q_pre = self.publisher.queue@;
            match self.publisher.pop_output(()) {
                None => {
                    proof {
                        assert(pq.take(pq.len() as int) =~= pq);
                        assert(pq.skip(pq.len() as int) =~= Seq::<TrackOutputView>::empty());
                    }
                    break ;
                },
                Some(o) => {
                    let ghost go = o;
                    proof {
                        assert(track_output_view(go) == pq[done]) by {
                            assert(pq.skip(done)[0] == pq[done]);
                        }
                    }
                    let out = match o {
                        Output::Pubsub(ctl) => RoomOutput::Sdn(
                            RoomUserData(self.room, RoomFeature::Pubsub),
                            FeaturesControl::PubSub(ctl),
                        ),
                        Output::Endpoint(ends, ev) => RoomOutput::Endpoint(ends, ev),
                        Output::OnResourceEmpty => RoomOutput::OnResourceEmpty(self.room),
                    };
                    proof {
                        assert(room_output_view(out) == lift_track_output(
                            room,
                            track_output_view(go),
                        ));
                    }
                    self.push_out(out);
                    proof {
                        assert(self.publisher.queue@ =~= q_pre.subrange(1, q_pre.len() as int));
                        assert forall|j: int|
                            0 <= j < self.publisher.qview().len() implies self.publisher.qview()[j]
                            == pq.skip(done + 1)[j] by {
                            assert(self.publisher.queue@[j] == q_pre[j + 1]);
                            assert(self.publisher.qview()[j] == track_output_view(q_pre[j + 1]));
                            assert(q_pre.map_values(|o: Output| track_output_view(o))[j + 1]
                                == track_output_view(q_pre[j + 1]));
                            assert(pq.skip(done)[j + 1] == pq[done + 1 + j]);
                        }
                        assert(self.publisher.qview() =~= pq.skip(done + 1));
                        assert(pq.take(done + 1) =~= pq.take(done).push(pq[done]));
                        assert(pq.take(done + 1).map_values(
                            |v: TrackOutputView| lift_track_output(room, v),
                        ) =~= pq.take(done).map_values(
                            |v: TrackOutputView| lift_track_output(room, v),
                        ).push(lift_track_output(room, pq[done])));
                        assert(self.qview() =~= old(self).qview() + pq.take(done + 1).map_values(
                            |v: TrackOutputView| lift_track_output(room, v),
                        ));
                    }
                },
            }
        }
    }

    fn handle_join(
        &mut self,
        e: u64,
        peer: PeerId,
        meta: PeerMeta,
        publish: RoomInfoPublish,
        subscribe: RoomInfoSubscribe,
        mixer: Option<AudioMixerConfig>,
    )
        requires
            old(self).wf(),
            !acontains(old(self).peers@, e),
            peer@.len() <= 0xffff,
            meta.metadata is Some ==> meta.metadata.unwrap()@.len() <= 0xffff,
            meta.extra_data is Some ==> meta.extra_data.unwrap()@.len() <= 0xffff,
        ensures
            final(self).wf(),
            final(self).room == old(self).room,
            final(self).state() == join_state(
                old(self).state(),
                e,
                PeerSlot { peer, meta, publish, subscribe, mixer },
            ),
            final(self).qview() == old(self).qview() + join_outs(
                old(self).room.0,
                old(self).state(),
                PeerSlot { peer, meta, publish, subscribe, mixer },
            ),
    {
        let ghost slot = PeerSlot { peer, meta, publish, subscribe, mixer };
        if publish.peer {
            let map_id = peers_map(self.room);
            let key = peers_key(&peer);
            let data = peer_entry_bytes(&peer, &meta);
            self.push_out(
                RoomOutput::Sdn(
                    RoomUserData(self.room, RoomFeature::MetaData),
                    FeaturesControl::DhtKv(
                        DhtKvControl::MapCmd(map_id, MapControl::SetKey(key, data)),
                    ),
                ),
            );
        }
        if subscribe.peers {
            if self.peer_subs.len() == 0 {
                let map_id = peers_map(self.room);
                self.push_out(
                    RoomOutput::Sdn(
                        RoomUserData(self.room, RoomFeature::MetaData),
                        FeaturesControl::DhtKv(DhtKvControl::MapCmd(map_id, MapControl::Sub)),
                    ),
                );
            }
            self.peer_subs.push(e);
        }
        if subscribe.tracks {
            if self.track_subs.len() == 0 {
                let map_id = tracks_map(self.room);
                self.push_out(
                    RoomOutput::Sdn(
                        RoomUserData(self.room, RoomFeature::MetaData),
                        FeaturesControl::DhtKv(DhtKvControl::MapCmd(map_id, MapControl::Sub)),
                    ),
                );
            }
            self.track_subs.push(e);
        }
        self.peers.push((e, PeerSlot { peer, meta, publish, subscribe, mixer }));
        proof {
            assert(final(self).state() =~= join_state(old(self).state(), e, slot));
            assert(final(self).qview() =~= old(self).qview() + join_outs(
                old(self).room.0,
                old(self).state(),
                slot,
            ));
        }
    }

    fn handle_leave(&mut self, e: u64)
        requires
            old(self).wf(),
        ensures
            final(self).wf(),
            final(self).room == old(self).room,
            final(self).state() == leave_state(old(self).state(), e),
            final(self).qview() == old(self).qview() + leave_outs(
                old(self).room.0,
                old(self).state(),
                e,
            ),
    {
        proof {
            lemma_afind(self.peers@, e);
        }
        match aremove_key(&mut self.peers, e) {
            None => {
                proof {
                    assert(final(self).state() =~= leave_state(old(self).state(), e));
                    assert(final(self).qview() =~= old(self).qview() + leave_outs(
                        old(self).room.0,
                        old(self).state(),
                        e,
                    ));
                }
            },
            Some(slot) => {
                if slot.publish.peer {
                    let map_id = peers_map(self.room);
                    let key = peers_key(&slot.peer);
                    self.push_out(
                        RoomOutput::Sdn(
                            RoomUserData(self.room, RoomFeature::MetaData),
                            FeaturesControl::DhtKv(
                                DhtKvControl::MapCmd(map_id, MapControl::DelKey(key)),
                            ),
                        ),
                    );
                }
                if slot.subscribe.peers {
                    lremove_val(&mut self.peer_subs, e);
                    if self.peer_subs.len() == 0 {
                        let map_id = peers_map(self.room);
                        self.push_out(
                            RoomOutput::Sdn(
                                RoomUserData(self.room, RoomFeature::MetaData),
                                FeaturesControl::DhtKv(
                                    DhtKvControl::MapCmd(map_id, MapControl::Unsub),
                                ),
                            ),
                        );
                        self.cached_peers.clear();
                    }
                }
                if slot.subscribe.tracks {
                    lremove_val(&mut self.track_subs, e);
                    if self.track_subs.len() == 0 {
                        let map_id = tracks_map(self.room);
                        self.push_out(
                            RoomOutput::Sdn(
                                RoomUserData(self.room, RoomFeature::MetaData),
                                FeaturesControl::DhtKv(
                                    DhtKvControl::MapCmd(map_id, MapControl::Unsub),
                                ),
                            ),
                        );
                        self.cached_tracks.clear();
                    }
                }
                proof {
                    assert(cpview(Seq::<(u64, PeerInfo)>::empty()) =~= Seq::<
                        (u64, PeerInfoView),
                    >::empty());
                    assert(ctview(Seq::<(u64, TrackInfo)>::empty()) =~= Seq::<
                        (u64, TrackInfoView),
                    >::empty());
                    assert(final(self).state() =~= leave_state(old(self).state(), e));
                    assert(final(self).qview() =~= old(self).qview() + leave_outs(
                        old(self).room.0,
                        old(self).state(),
                        e,
                    ));
                }
            },
        }
    }

    fn handle_mixer(&mut self, sources: &Vec<TrackSource>, attach: bool)
        requires
            old(self).wf(),
        ensures
            final(self).wf(),
            final(self).room == old(self).room,
            final(self).state() == old(self).state(),
            final(self).qview() == old(self).qview() + mixer_outs(
                old(self).room.0,
                sources@,
                attach,
            ),
    {
        let ghost outs = mixer_outs(old(self).room.0, sources@, attach);
        let mut i: usize = 0;
        while i < sources.len()
            invariant
                i <= sources@.len(),
                self.wf(),
                self.room == old(self).room,
                self.state() == old(self).state(),
                Self::same_but_queue(old(self), self),
                outs == mixer_outs(old(self).room.0, sources@, attach),
                outs.len() == sources@.len(),
                self.qview() == old(self).qview() + outs.take(i as int),
            decreases sources@.len() - i,
        {
            let chan = gen_track_channel_id(self.room, &sources[i].peer, &sources[i].track);
            let cmd = if attach {
                ChannelControl::SubAuto
            } else {
                ChannelControl::UnsubAuto
            };
            self.push_out(
                RoomOutput::Sdn(
                    RoomUserData(self.room, RoomFeature::Pubsub),
                    FeaturesControl::PubSub(PubsubControl(chan, cmd)),
                ),
            );
            proof {
                assert(outs[i as int] == mixer_outs(old(self).room.0, sources@, attach)[i as int]);
                assert(outs.take(i + 1) =~= outs.take(i as int).push(outs[i as int]));
                assert(self.qview() =~= old(self).qview() + outs.take(i + 1));
            }
            i = i + 1;
        }
        proof {
            assert(outs.take(sources@.len() as int) =~= outs);
        }
    }

    fn handle_remote_track(&mut self, e: u64, t: RemoteTrackId, ctl: ClusterRemoteTrackControl)
        requires
            old(self).wf(),
            match ctl {
                ClusterRemoteTrackControl::Started(ref name, _m) => name@.len() <= 0xffff,
                ClusterRemoteTrackControl::Media(ref pkt) => packet_valid(pkt@),
                ClusterRemoteTrackControl::Ended(ref name, _m) => name@.len() <= 0xffff,
            },
        ensures
            final(self).wf(),
            final(self).room == old(self).room,
            final(self).state() == room_ctrl_state(
                old(self).room.0,
                old(self).state(),
                e,
                ClusterEndpointControl::RemoteTrack(t, ctl),
            ),
            final(self).qview() == old(self).qview() + room_ctrl_outs(
                old(self).room.0,
                old(self).state(),
                e,
                ClusterEndpointControl::RemoteTrack(t, ctl),
            ),
    {
        let ghost room = old(self).room.0;
        let ghost s0 = old(self).state();
        match ctl {
            ClusterRemoteTrackControl::Started(name, meta) => {
                proof {
                    lemma_afind(self.peers@, e);
                }
                match afind_idx(&self.peers, e) {
                    None => {
                        proof {
                            assert(final(self).qview() =~= old(self).qview() + Seq::<
                                RoomOutputView,
                            >::empty());
                        }
                    },
                    Some(i) => {
                        if self.publisher.has_track(e, t) {
                            proof {
                                assert(final(self).qview() =~= old(self).qview() + Seq::<
                                    RoomOutputView,
                                >::empty());
                            }
                        } else {
                            let publish_tracks = self.peers[i].1.publish.tracks;
                            let dht: Option<(u64, u64, Vec<u8>)> = if publish_tracks {
                                let m = tracks_map(self.room);
                                let k = tracks_key(&self.peers[i].1.peer, &name);
                                let d = track_entry_bytes(&self.peers[i].1.peer, &name, &meta);
                                Some((m, k, d))
                            } else {
                                None
                            };
                            let peer_copy = PeerId(dup_bytes(&self.peers[i].1.peer.0));
                            self.publisher.on_track_publish(e, t, peer_copy, name);
                            self.drain_publisher();
                            match dht {
                                Some(parts) => {
                                    let (m, k, d) = parts;
                                    self.push_out(
                                        RoomOutput::Sdn(
                                            RoomUserData(self.room, RoomFeature::MetaData),
                                            FeaturesControl::DhtKv(
                                                DhtKvControl::MapCmd(m, MapControl::SetKey(k, d)),
                                            ),
                                        ),
                                    );
                                },
                                None => {},
                            }
                            proof {
                                assert(final(self).state() =~= room_ctrl_state(
                                    room,
                                    s0,
                                    e,
                                    ClusterEndpointControl::RemoteTrack(
                                        t,
                                        ClusterRemoteTrackControl::Started(name, meta),
                                    ),
                                ));
                                assert(final(self).qview() =~= old(self).qview()
                                    + room_ctrl_outs(
                                    room,
                                    s0,
                                    e,
                                    ClusterEndpointControl::RemoteTrack(
                                        t,
                                        ClusterRemoteTrackControl::Started(name, meta),
                                    ),
                                ));
                            }
                        }
                    },
                }
            },
            ClusterRemoteTrackControl::Media(pkt) => {
                self.publisher.on_track_data(e, t, pkt);
                self.drain_publisher();
                proof {
                    if s0.publisher.tracks.contains_key((e, t.0)) {
                        assert(old(self).publisher.qview().push(
                            TrackOutputView::Pub(
                                s0.publisher.tracks[(e, t.0)].2,
                                PubKindView::Data(spec_serialize(pkt@)),
                            ),
                        ).map_values(|v: TrackOutputView| lift_track_output(room, v)) =~= seq![
                            lift_track_output(
                                room,
                                TrackOutputView::Pub(
                                    s0.publisher.tracks[(e, t.0)].2,
                                    PubKindView::Data(spec_serialize(pkt@)),
                                ),
                            ),
                        ]);
                    } else {
                        assert(old(self).publisher.qview().map_values(
                            |v: TrackOutputView| lift_track_output(room, v),
                        ) =~= Seq::<RoomOutputView>::empty());
                    }
                    assert(final(self).state() =~= s0);
                }
            },
            ClusterRemoteTrackControl::Ended(name, meta) => {
                let had = self.publisher.has_track(e, t);
                proof {
                    lemma_afind(self.peers@, e);
                }
                let dht: Option<(u64, u64)> = match afind_idx(&self.peers, e) {
                    Some(i) => {
                        if had && self.peers[i].1.publish.tracks {
                            let m = tracks_map(self.room);
                            let k = tracks_key(&self.peers[i].1.peer, &name);
                            Some((m, k))
                        } else {
                            None
                        }
                    },
                    None => None,
                };
                self.publisher.on_track_unpublish(e, t);
                self.drain_publisher();
                match dht {
                    Some(parts) => {
                        self.push_out(
                            RoomOutput::Sdn(
                                RoomUserData(self.room, RoomFeature::MetaData),
                                FeaturesControl::DhtKv(
                                    DhtKvControl::MapCmd(parts.0, MapControl::DelKey(parts.1)),
                                ),
                            ),
                        );
                    },
                    None => {},
                }
                proof {
                    assert(final(self).state() =~= room_ctrl_state(
                        room,
                        s0,
                        e,
                        ClusterEndpointControl::RemoteTrack(
                            t,
                            ClusterRemoteTrackControl::Ended(name, meta),
                        ),
                    ));
                    assert(final(self).qview() =~= old(self).qview() + room_ctrl_outs(
                        room,
                        s0,
                        e,
                        ClusterEndpointControl::RemoteTrack(
                            t,
                            ClusterRemoteTrackControl::Ended(name, meta),
                        ),
                    ));
                }
            },
        }
    }

    fn handle_local_track(&mut self, e: u64, t: LocalTrackId, ctl: ClusterLocalTrackControl)
        requires
            old(self).wf(),
        ensures
            final(self).wf(),
            final(self).room == old(self).room,
            final(self).state() == room_ctrl_state(
                old(self).room.0,
                old(self).state(),
                e,
                ClusterEndpointControl::LocalTrack(t, ctl),
            ),
            final(self).qview() == old(self).qview() + room_ctrl_outs(
                old(self).room.0,
                old(self).state(),
                e,
                ClusterEndpointControl::LocalTrack(t, ctl),
            ),
    {
        let ghost room = old(self).room.0;
        let ghost s0 = old(self).state();
        proof {
            crate::alist::lemma_pfind(self.local_tracks@, (e, t.0));
        }
        match ctl {
            ClusterLocalTrackControl::Subscribe(peer, name) => {
                match pfind_idx(&self.local_tracks, (e, t.0)) {
                    Some(_i) => {
                        proof {
                            assert(final(self).qview() =~= old(self).qview() + Seq::<
                                RoomOutputView,
                            >::empty());
                        }
                    },
                    None => {
                        let ch = gen_track_channel_id(self.room, &peer, &name);
                        if !channel_has_sub(&self.local_tracks, ch) {
                            self.push_out(
                                RoomOutput::Sdn(
                                    RoomUserData(self.room, RoomFeature::Pubsub),
                                    FeaturesControl::PubSub(
                                        PubsubControl(ch, ChannelControl::SubAuto),
                                    ),
                                ),
                            );
                        }
                        self.local_tracks.push(((e, t.0), LocalSub { channel: ch, bitrate: None }));
                        proof {
                            assert(final(self).state() =~= room_ctrl_state(
                                room,
                                s0,
                                e,
                                ClusterEndpointControl::LocalTrack(
                                    t,
                                    ClusterLocalTrackControl::Subscribe(peer, name),
                                ),
                            ));
                            assert(final(self).qview() =~= old(self).qview() + room_ctrl_outs(
                                room,
                                s0,
                                e,
                                ClusterEndpointControl::LocalTrack(
                                    t,
                                    ClusterLocalTrackControl::Subscribe(peer, name),
                                ),
                            ));
                        }
                    },
                }
            },
            ClusterLocalTrackControl::Unsubscribe => {
                match pfind_idx(&self.local_tracks, (e, t.0)) {
                    None => {
                        proof {
                            assert(final(self).state() =~= s0);
                            assert(final(self).qview() =~= old(self).qview() + Seq::<
                                RoomOutputView,
                            >::empty());
                        }
                    },
                    Some(i) => {
                        let entry = self.local_tracks.remove(i);
                        let ch = entry.1.channel;
                        if !channel_has_sub(&self.local_tracks, ch) {
                            self.push_out(
                                RoomOutput::Sdn(
                                    RoomUserData(self.room, RoomFeature::Pubsub),
                                    FeaturesControl::PubSub(
                                        PubsubControl(ch, ChannelControl::UnsubAuto),
                                    ),
                                ),
                            );
                        }
                        proof {
                            assert(final(self).state() =~= room_ctrl_state(
                                room,
                                s0,
                                e,
                                ClusterEndpointControl::LocalTrack(
                                    t,
                                    ClusterLocalTrackControl::Unsubscribe,
                                ),
                            ));
                            assert(final(self).qview() =~= old(self).qview() + room_ctrl_outs(
                                room,
                                s0,
                                e,
                                ClusterEndpointControl::LocalTrack(
                                    t,
                                    ClusterLocalTrackControl::Unsubscribe,
                                ),
                            ));
                        }
                    },
                }
            },
            ClusterLocalTrackControl::RequestKeyFrame => {
                match pfind_idx(&self.local_tracks, (e, t.0)) {
                    None => {
                        proof {
                            assert(final(self).qview() =~= old(self).qview() + Seq::<
                                RoomOutputView,
                            >::empty());
                        }
                    },
                    Some(i) => {
                        let ch = self.local_tracks[i].1.channel;
                        self.push_out(
                            RoomOutput::Sdn(
                                RoomUserData(self.room, RoomFeature::Pubsub),
                                FeaturesControl::PubSub(
                                    PubsubControl(
                                        ch,
                                        ChannelControl::FeedbackAuto(
                                            Feedback {
                                                kind: FEEDBACK_KIND_KEYFRAME,
                                                value: 1,
                                                min: FEEDBACK_INTERVAL_MIN_MS,
                                                max: FEEDBACK_INTERVAL_MAX_MS,
                                            },
                                        ),
                                    ),
                                ),
                            ),
                        );
                        proof {
                            assert(final(self).qview() =~= old(self).qview() + room_ctrl_outs(
                                room,
                                s0,
                                e,
                                ClusterEndpointControl::LocalTrack(
                                    t,
                                    ClusterLocalTrackControl::RequestKeyFrame,
                                ),
                            ));
                        }
                    },
                }
            },
            ClusterLocalTrackControl::DesiredBitrate(bps) => {
                match pfind_idx(&self.local_tracks, (e, t.0)) {
                    None => {
                        proof {
                            assert(final(self).qview() =~= old(self).qview() + Seq::<
                                RoomOutputView,
                            >::empty());
                        }
                    },
                    Some(i) => {
                        let entry = self.local_tracks.remove(i);
                        let ch = entry.1.channel;
                        self.local_tracks.insert(
                            i,
                            ((e, t.0), LocalSub { channel: ch, bitrate: Some(bps) }),
                        );
                        proof {
                            assert(self.local_tracks@ =~= s0.local_tracks.update(
                                i as int,
                                ((e, t.0), LocalSub { channel: ch, bitrate: Some(bps) }),
                            ));
                        }
                        let mx = channel_max(&self.local_tracks, ch);
                        self.push_out(
                            RoomOutput::Sdn(
                                RoomUserData(self.room, RoomFeature::Pubsub),
                                FeaturesControl::PubSub(
                                    PubsubControl(
                                        ch,
                                        ChannelControl::FeedbackAuto(
                                            Feedback {
                                                kind: FEEDBACK_KIND_BITRATE,
                                                value: mx,
                                                min: FEEDBACK_INTERVAL_MIN_MS,
                                                max: FEEDBACK_INTERVAL_MAX_MS,
                                            },
                                        ),
                                    ),
                                ),
                            ),
                        );
                        proof {
                            assert(final(self).state() =~= room_ctrl_state(
                                room,
                                s0,
                                e,
                                ClusterEndpointControl::LocalTrack(
                                    t,
                                    ClusterLocalTrackControl::DesiredBitrate(bps),
                                ),
                            ));
                            assert(final(self).qview() =~= old(self).qview() + room_ctrl_outs(
                                room,
                                s0,
                                e,
                                ClusterEndpointControl::LocalTrack(
                                    t,
                                    ClusterLocalTrackControl::DesiredBitrate(bps),
                                ),
                            ));
                        }
                    },
                }
            },
        }
    }

    fn handle_msg_channel(
        &mut self,
        e: u64,
        label: MessageChannelLabel,
        ctl: ClusterMessageChannelControl,
    )
        requires
            old(self).wf(),
            match ctl {
                ClusterMessageChannelControl::PublishData(ref peer, _) => peer@.len() <= 0xffff,
                _ => true,
            },
        ensures
            final(self).wf(),
            final(self).room == old(self).room,
            final(self).state() == room_ctrl_state(
                old(self).room.0,
                old(self).state(),
                e,
                ClusterEndpointControl::MessageChannel(label, ctl),
            ),
            final(self).qview() == old(self).qview() + room_ctrl_outs(
                old(self).room.0,
                old(self).state(),
                e,
                ClusterEndpointControl::MessageChannel(label, ctl),
            ),
    {
        let ghost room = old(self).room.0;
        let ghost s0 = old(self).state();
        let ch = gen_msg_channel_id(self.room, &label);
        proof {
            lemma_mcview_find(self.msg_channels@, ch);
            lemma_afind(self.msg_channels@, ch);
            lemma_afind(mcview(self.msg_channels@), ch);
        }
        match ctl {
            ClusterMessageChannelControl::StartPublish => {
                match afind_idx(&self.msg_channels, ch) {
                    Some(i) => {
                        if lcontains(&self.msg_channels[i].1.publishers, e) {
                            proof {
                                assert(final(self).qview() =~= old(self).qview() + Seq::<
                                    RoomOutputView,
                                >::empty());
                            }
                        } else {
                            if self.msg_channels[i].1.publishers.len() == 0 {
                                self.push_out(
                                    RoomOutput::Sdn(
                                        RoomUserData(self.room, RoomFeature::Pubsub),
                                        FeaturesControl::PubSub(
                                            PubsubControl(ch, ChannelControl::PubStart),
                                        ),
                                    ),
                                );
                            }
                            let mut entry = self.msg_channels.remove(i);
                            entry.1.publishers.push(e);
                            self.msg_channels.insert(i, entry);
                            proof {
                                assert(mcview(self.msg_channels@) =~= s0.msg_channels.update(
                                    i as int,
                                    (
                                        ch,
                                        MsgChannelView {
                                            publishers: s0.msg_channels[i as int].1.publishers.push(
                                                e,
                                            ),
                                            ..s0.msg_channels[i as int].1
                                        },
                                    ),
                                ));
                                assert(final(self).state() =~= room_ctrl_state(
                                    room,
                                    s0,
                                    e,
                                    ClusterEndpointControl::MessageChannel(
                                        label,
                                        ClusterMessageChannelControl::StartPublish,
                                    ),
                                ));
                                assert(final(self).qview() =~= old(self).qview() + room_ctrl_outs(
                                    room,
                                    s0,
                                    e,
                                    ClusterEndpointControl::MessageChannel(
                                        label,
                                        ClusterMessageChannelControl::StartPublish,
                                    ),
                                ));
                            }
                        }
                    },
                    None => {
                        self.push_out(
                            RoomOutput::Sdn(
                                RoomUserData(self.room, RoomFeature::Pubsub),
                                FeaturesControl::PubSub(
                                    PubsubControl(ch, ChannelControl::PubStart),
                                ),
                            ),
                        );
                        let mut pubs: Vec<u64> = Vec::new();
                        pubs.push(e);
                        self.msg_channels.push(
                            (ch, MsgChannel { label, publishers: pubs, subscribers: Vec::new() }),
                        );
                        proof {
                            assert(mcview(self.msg_channels@) =~= s0.msg_channels.push(
                                (
                                    ch,
                                    MsgChannelView {
                                        label: label@,
                                        publishers: seq![e],
                                        subscribers: Seq::empty(),
                                    },
                                ),
                            ));
                        }
                    },
                }
            },
            ClusterMessageChannelControl::StopPublish => {
                match afind_idx(&self.msg_channels, ch) {
                    None => {
                        proof {
                            assert(final(self).qview() =~= old(self).qview() + Seq::<
                                RoomOutputView,
                            >::empty());
                        }
                    },
                    Some(i) => {
                        if !lcontains(&self.msg_channels[i].1.publishers, e) {
                            proof {
                                assert(final(self).qview() =~= old(self).qview() + Seq::<
                                    RoomOutputView,
                                >::empty());
                            }
                        } else {
                            let mut entry = self.msg_channels.remove(i);
                            lremove_val(&mut entry.1.publishers, e);
                            let now_empty = entry.1.publishers.len() == 0;
                            if now_empty {
                                self.push_out(
                                    RoomOutput::Sdn(
                                        RoomUserData(self.room, RoomFeature::Pubsub),
                                        FeaturesControl::PubSub(
                                            PubsubControl(ch, ChannelControl::PubStop),
                                        ),
                                    ),
                                );
                            }
                            if now_empty && entry.1.subscribers.len() == 0 {
                                proof {
                                    assert(mcview(self.msg_channels@) =~= s0.msg_channels.remove(
                                        i as int,
                                    ));
                                }
                            } else {
                                self.msg_channels.insert(i, entry);
                                proof {
                                    assert(mcview(self.msg_channels@) =~= s0.msg_channels.update(
                                        i as int,
                                        (
                                            ch,
                                            MsgChannelView {
                                                publishers: lremove(
                                                    s0.msg_channels[i as int].1.publishers,
                                                    e,
                                                ),
                                                ..s0.msg_channels[i as int].1
                                            },
                                        ),
                                    ));
                                }
                            }
                            proof {
                                assert(final(self).state() =~= room_ctrl_state(
                                    room,
                                    s0,
                                    e,
                                    ClusterEndpointControl::MessageChannel(
                                        label,
                                        ClusterMessageChannelControl::StopPublish,
                                    ),
                                ));
                                assert(final(self).qview() =~= old(self).qview() + room_ctrl_outs(
                                    room,
                                    s0,
                                    e,
                                    ClusterEndpointControl::MessageChannel(
                                        label,
                                        ClusterMessageChannelControl::StopPublish,
                                    ),
                                ));
                            }
                        }
                    },
                }
            },
            ClusterMessageChannelControl::Subscribe => {
                match afind_idx(&self.msg_channels, ch) {
                    Some(i) => {
                        if lcontains(&self.msg_channels[i].1.subscribers, e) {
                            proof {
                                assert(final(self).qview() =~= old(self).qview() + Seq::<
                                    RoomOutputView,
                                >::empty());
                            }
                        } else {
                            if self.msg_channels[i].1.subscribers.len() == 0 {
                                self.push_out(
                                    RoomOutput::Sdn(
                                        RoomUserData(self.room, RoomFeature::Pubsub),
                                        FeaturesControl::PubSub(
                                            PubsubControl(ch, ChannelControl::SubAuto),
                                        ),
                                    ),
                                );
                            }
                            let mut entry = self.msg_channels.remove(i);
                            entry.1.subscribers.push(e);
                            self.msg_channels.insert(i, entry);
                            proof {
                                assert(mcview(self.msg_channels@) =~= s0.msg_channels.update(
                                    i as int,
                                    (
                                        ch,
                                        MsgChannelView {
                                            subscribers: s0.msg_channels[
                                                i as int
                                            ].1.subscribers.push(e),
                                            ..s0.msg_channels[i as int].1
                                        },
                                    ),
                                ));
                                assert(final(self).state() =~= room_ctrl_state(
                                    room,
                                    s0,
                                    e,
                                    ClusterEndpointControl::MessageChannel(
                                        label,
                                        ClusterMessageChannelControl::Subscribe,
                                    ),
                                ));
                                assert(final(self).qview() =~= old(self).qview() + room_ctrl_outs(
                                    room,
                                    s0,
                                    e,
                                    ClusterEndpointControl::MessageChannel(
                                        label,
                                        ClusterMessageChannelControl::Subscribe,
                                    ),
                                ));
                            }
                        }
                    },
                    None => {
                        self.push_out(
                            RoomOutput::Sdn(
                                RoomUserData(self.room, RoomFeature::Pubsub),
                                FeaturesControl::PubSub(PubsubControl(ch, ChannelControl::SubAuto)),
                            ),
                        );
                        let mut subs: Vec<u64> = Vec::new();
                        subs.push(e);
                        self.msg_channels.push(
                            (ch, MsgChannel { label, publishers: Vec::new(), subscribers: subs }),
                        );
                        proof {
                            assert(mcview(self.msg_channels@) =~= s0.msg_channels.push(
                                (
                                    ch,
                                    MsgChannelView {
                                        label: label@,
                                        publishers: Seq::empty(),
                                        subscribers: seq![e],
                                    },
                                ),
                            ));
                        }
                    },
                }
            },
            ClusterMessageChannelControl::Unsubscribe => {
                match afind_idx(&self.msg_channels, ch) {
                    None => {
                        proof {
                            assert(final(self).qview() =~= old(self).qview() + Seq::<
                                RoomOutputView,
                            >::empty());
                        }
                    },
                    Some(i) => {
                        if !lcontains(&self.msg_channels[i].1.subscribers, e) {
                            proof {
                                assert(final(self).qview() =~= old(self).qview() + Seq::<
                                    RoomOutputView,
                                >::empty());
                            }
                        } else {
                            let mut entry = self.msg_channels.remove(i);
                            lremove_val(&mut entry.1.subscribers, e);
                            let now_empty = entry.1.subscribers.len() == 0;
                            if now_empty {
                                self.push_out(
                                    RoomOutput::Sdn(
                                        RoomUserData(self.room, RoomFeature::Pubsub),
                                        FeaturesControl::PubSub(
                                            PubsubControl(ch, ChannelControl::UnsubAuto),
                                        ),
                                    ),
                                );
                            }
                            if now_empty && entry.1.publishers.len() == 0 {
                                proof {
                                    assert(mcview(self.msg_channels@) =~= s0.msg_channels.remove(
                                        i as int,
                                    ));
                                }
                            } else {
                                self.msg_channels.insert(i, entry);
                                proof {
                                    assert(mcview(self.msg_channels@) =~= s0.msg_channels.update(
                                        i as int,
                                        (
                                            ch,
                                            MsgChannelView {
                                                subscribers: lremove(
                                                    s0.msg_channels[i as int].1.subscribers,
                                                    e,
                                                ),
                                                ..s0.msg_channels[i as int].1
                                            },
                                        ),
                                    ));
                                }
                            }
                            proof {
                                assert(final(self).state() =~= room_ctrl_state(
                                    room,
                                    s0,
                                    e,
                                    ClusterEndpointControl::MessageChannel(
                                        label,
                                        ClusterMessageChannelControl::Unsubscribe,
                                    ),
                                ));
                                assert(final(self).qview() =~= old(self).qview() + room_ctrl_outs(
                                    room,
                                    s0,
                                    e,
                                    ClusterEndpointControl::MessageChannel(
                                        label,
                                        ClusterMessageChannelControl::Unsubscribe,
                                    ),
                                ));
                            }
                        }
                    },
                }
            },
            ClusterMessageChannelControl::PublishData(peer, data) => {
                match afind_idx(&self.msg_channels, ch) {
                    None => {
                        proof {
                            assert(final(self).qview() =~= old(self).qview() + Seq::<
                                RoomOutputView,
                            >::empty());
                        }
                    },
                    Some(i) => {
                        if lcontains(&self.msg_channels[i].1.publishers, e) {
                            let bytes = msg_payload_serialize(&peer, data.as_slice());
                            self.push_out(
                                RoomOutput::Sdn(
                                    RoomUserData(self.room, RoomFeature::Pubsub),
                                    FeaturesControl::PubSub(
                                        PubsubControl(ch, ChannelControl::PubData(bytes)),
                                    ),
                                ),
                            );
                            proof {
                                assert(final(self).qview() =~= old(self).qview() + room_ctrl_outs(
                                    room,
                                    s0,
                                    e,
                                    ClusterEndpointControl::MessageChannel(
                                        label,
                                        ClusterMessageChannelControl::PublishData(peer, data),
                                    ),
                                ));
                            }
                        } else {
                            proof {
                                assert(final(self).qview() =~= old(self).qview() + Seq::<
                                    RoomOutputView,
                                >::empty());
                            }
                        }
                    },
                }
            },
        }
    }

    fn handle_dht_event(&mut self, map: u64, me: MapEvent)
        requires
            old(self).wf(),
        ensures
            final(self).wf(),
            final(self).room == old(self).room,
            final(self).state() == room_sdn_state(
                old(self).room.0,
                old(self).state(),
                FeaturesEvent::DhtKv(DhtKvEvent::MapEvent(map, me)),
            ),
            final(self).qview() == old(self).qview() + room_sdn_outs(
                old(self).room.0,
                old(self).state(),
                FeaturesEvent::DhtKv(DhtKvEvent::MapEvent(map, me)),
            ),
    {
        let ghost room = old(self).room.0;
        let ghost s0 = old(self).state();
        let pm = peers_map(self.room);
        let tm = tracks_map(self.room);
        if map == pm && self.peer_subs.len() > 0 {
            match me {
                MapEvent::OnSet(key, _src, data) => {
                    match PeerInfo::deserialize(data.as_slice()) {
                        None => {
                            proof {
                                assert(final(self).qview() =~= old(self).qview() + Seq::<
                                    RoomOutputView,
                                >::empty());
                            }
                        },
                        Some(pi) => {
                            let ends = vstd::slice::slice_to_vec(self.peer_subs.as_slice());
                            let ev_peer = PeerId(dup_bytes(&pi.peer.0));
                            let ev_meta = PeerMeta {
                                metadata: dup_opt_bytes(&pi.meta.metadata),
                                extra_data: dup_opt_bytes(&pi.meta.extra_data),
                            };
                            proof {
                                lemma_cpview_find(self.cached_peers@, key);
                                lemma_cpview_remove(self.cached_peers@, key);
                            }
                            aremove_key(&mut self.cached_peers, key);
                            self.cached_peers.push((key, pi));
                            self.push_out(
                                RoomOutput::Endpoint(
                                    ends,
                                    ClusterEndpointEvent::PeerJoined(ev_peer, ev_meta),
                                ),
                            );
                            proof {
                                assert(cpview(self.cached_peers@) =~= aremove(
                                    s0.cached_peers,
                                    key,
                                ).push((key, spec_peer_info_deserialize(data@).unwrap())));
                                assert(final(self).state() =~= room_sdn_state(
                                    room,
                                    s0,
                                    FeaturesEvent::DhtKv(
                                        DhtKvEvent::MapEvent(map, MapEvent::OnSet(key, _src, data)),
                                    ),
                                ));
                                assert(final(self).qview() =~= old(self).qview() + room_sdn_outs(
                                    room,
                                    s0,
                                    FeaturesEvent::DhtKv(
                                        DhtKvEvent::MapEvent(map, MapEvent::OnSet(key, _src, data)),
                                    ),
                                ));
                            }
                        },
                    }
                },
                MapEvent::OnDel(key, _src) => {
                    proof {
                        lemma_cpview_find(self.cached_peers@, key);
                        lemma_cpview_remove(self.cached_peers@, key);
                        lemma_afind(self.cached_peers@, key);
                        lemma_afind(cpview(self.cached_peers@), key);
                    }
                    match aremove_key(&mut self.cached_peers, key) {
                        None => {
                            proof {
                                assert(final(self).qview() =~= old(self).qview() + Seq::<
                                    RoomOutputView,
                                >::empty());
                            }
                        },
                        Some(pi) => {
                            let ends = vstd::slice::slice_to_vec(self.peer_subs.as_slice());
                            let PeerInfo { peer, meta } = pi;
                            self.push_out(
                                RoomOutput::Endpoint(
                                    ends,
                                    ClusterEndpointEvent::PeerLeaved(peer, meta),
                                ),
                            );
                            proof {
                                assert(final(self).state() =~= room_sdn_state(
                                    room,
                                    s0,
                                    FeaturesEvent::DhtKv(
                                        DhtKvEvent::MapEvent(map, MapEvent::OnDel(key, _src)),
                                    ),
                                ));
                                assert(final(self).qview() =~= old(self).qview() + room_sdn_outs(
                                    room,
                                    s0,
                                    FeaturesEvent::DhtKv(
                                        DhtKvEvent::MapEvent(map, MapEvent::OnDel(key, _src)),
                                    ),
                                ));
                            }
                        },
                    }
                },
            }
        } else if map == tm && self.track_subs.len() > 0 {
            match me {
                MapEvent::OnSet(key, _src, data) => {
                    match TrackInfo::deserialize(data.as_slice()) {
                        None => {
                            proof {
                                assert(final(self).qview() =~= old(self).qview() + Seq::<
                                    RoomOutputView,
                                >::empty());
                            }
                        },
                        Some(ti) => {
                            let ends = vstd::slice::slice_to_vec(self.track_subs.as_slice());
                            let ev_peer = PeerId(dup_bytes(&ti.peer.0));
                            let ev_track = TrackName(dup_bytes(&ti.track.0));
                            let ev_meta = ti.meta;
                            proof {
                                lemma_ctview_find(self.cached_tracks@, key);
                                lemma_ctview_remove(self.cached_tracks@, key);
                            }
                            aremove_key(&mut self.cached_tracks, key);
                            self.cached_tracks.push((key, ti));
                            self.push_out(
                                RoomOutput::Endpoint(
                                    ends,
                                    ClusterEndpointEvent::TrackStarted(ev_peer, ev_track, ev_meta),
                                ),
                            );
                            proof {
                                assert(ctview(self.cached_tracks@) =~= aremove(
                                    s0.cached_tracks,
                                    key,
                                ).push((key, spec_track_info_deserialize(data@).unwrap())));
                                assert(final(self).state() =~= room_sdn_state(
                                    room,
                                    s0,
                                    FeaturesEvent::DhtKv(
                                        DhtKvEvent::MapEvent(map, MapEvent::OnSet(key, _src, data)),
                                    ),
                                ));
                                assert(final(self).qview() =~= old(self).qview() + room_sdn_outs(
                                    room,
                                    s0,
                                    FeaturesEvent::DhtKv(
                                        DhtKvEvent::MapEvent(map, MapEvent::OnSet(key, _src, data)),
                                    ),
                                ));
                            }
                        },
                    }
                },
                MapEvent::OnDel(key, _src) => {
                    proof {
                        lemma_ctview_find(self.cached_tracks@, key);
                        lemma_ctview_remove(self.cached_tracks@, key);
                        lemma_afind(self.cached_tracks@, key);
                        lemma_afind(ctview(self.cached_tracks@), key);
                    }
                    match aremove_key(&mut self.cached_tracks, key) {
                        None => {
                            proof {
                                assert(final(self).qview() =~= old(self).qview() + Seq::<
                                    RoomOutputView,
                                >::empty());
                            }
                        },
                        Some(ti) => {
                            let ends = vstd::slice::slice_to_vec(self.track_subs.as_slice());
                            let TrackInfo { peer, track, meta } = ti;
                            self.push_out(
                                RoomOutput::Endpoint(
                                    ends,
                                    ClusterEndpointEvent::TrackStopped(peer, track, meta),
                                ),
                            );
                            proof {
                                assert(final(self).state() =~= room_sdn_state(
                                    room,
                                    s0,
                                    FeaturesEvent::DhtKv(
                                        DhtKvEvent::MapEvent(map, MapEvent::OnDel(key, _src)),
                                    ),
                                ));
                                assert(final(self).qview() =~= old(self).qview() + room_sdn_outs(
                                    room,
                                    s0,
                                    FeaturesEvent::DhtKv(
                                        DhtKvEvent::MapEvent(map, MapEvent::OnDel(key, _src)),
                                    ),
                                ));
                            }
                        },
                    }
                },
            }
        } else {
            proof {
                assert(final(self).qview() =~= old(self).qview() + Seq::<
                    RoomOutputView,
                >::empty());
            }
        }
    }

    fn handle_pubsub_event(&mut self, c: u64, ev: ChannelEvent)
        requires
            old(self).wf(),
        ensures
            final(self).wf(),
            final(self).room == old(self).room,
            final(self).state() == room_sdn_state(
                old(self).room.0,
                old(self).state(),
                FeaturesEvent::PubSub(PubsubEvent(c, ev)),
            ),
            final(self).qview() == old(self).qview() + room_sdn_outs(
                old(self).room.0,
                old(self).state(),
                FeaturesEvent::PubSub(PubsubEvent(c, ev)),
            ),
    {
        let ghost room = old(self).room.0;
        let ghost s0 = old(self).state();
        proof {
            lemma_mcview_find(self.msg_channels@, c);
            lemma_afind(self.msg_channels@, c);
            lemma_afind(mcview(self.msg_channels@), c);
        }
        match ev {
            ChannelEvent::Data(seq_no, data) => {
                match afind_idx(&self.msg_channels, c) {
                    Some(i) => {
                        if self.msg_channels[i].1.subscribers.len() > 0 {
                            match msg_payload_deserialize(data.as_slice()) {
                                None => {
                                    proof {
                                        assert(final(self).qview() =~= old(self).qview() + Seq::<
                                            RoomOutputView,
                                        >::empty());
                                    }
                                },
                                Some(pd) => {
                                    let ends = vstd::slice::slice_to_vec(
                                        self.msg_channels[i].1.subscribers.as_slice(),
                                    );
                                    let lab = MessageChannelLabel(
                                        dup_bytes(&self.msg_channels[i].1.label.0),
                                    );
                                    let (peer, bytes) = pd;
                                    self.push_out(
                                        RoomOutput::Endpoint(
                                            ends,
                                            ClusterEndpointEvent::MessageChannelData(
                                                lab,
                                                peer,
                                                bytes,
                                            ),
                                        ),
                                    );
                                    proof {
                                        assert(final(self).qview() =~= old(self).qview()
                                            + room_sdn_outs(
                                            room,
                                            s0,
                                            FeaturesEvent::PubSub(
                                                PubsubEvent(c, ChannelEvent::Data(seq_no, data)),
                                            ),
                                        ));
                                    }
                                },
                            }
                        } else {
                            proof {
                                assert(final(self).qview() =~= old(self).qview() + Seq::<
                                    RoomOutputView,
                                >::empty());
                            }
                        }
                    },
                    None => {
                        match MediaPacket::deserialize(data.as_slice()) {
                            None => {
                                proof {
                                    assert(final(self).qview() =~= old(self).qview() + Seq::<
                                        RoomOutputView,
                                    >::empty());
                                }
                            },
                            Some(pkt) => {
                                let ghost fan = media_fanout(s0.local_tracks, c, seq_no, pkt@);
                                let n = self.local_tracks.len();
                                let mut i: usize = 0;
                                while i < n
                                    invariant
                                        i <= n,
                                        n == self.local_tracks@.len(),
                                        self.wf(),
                                        self.room == old(self).room,
                                        Self::same_but_queue(old(self), self),
                                        self.state() == s0,
                                        s0 == old(self).state(),
                                        pkt@ == spec_deserialize(data@).unwrap(),
                                        spec_deserialize(data@) is Some,
                                        fan == media_fanout(s0.local_tracks, c, seq_no, pkt@),
                                        self.qview() == old(self).qview() + media_fanout(
                                            s0.local_tracks.take(i as int),
                                            c,
                                            seq_no,
                                            pkt@,
                                        ),
                                    decreases n - i,
                                {
                                    proof {
                                        assert(s0.local_tracks.take(i + 1).drop_last()
                                            =~= s0.local_tracks.take(i as int));
                                        assert(s0.local_tracks.take(i + 1).last()
                                            == s0.local_tracks[i as int]);
                                    }
                                    let entry = self.local_tracks[i];
                                    if entry.1.channel == c {
                                        let copy = MediaPacket {
                                            ts: pkt.ts,
                                            seq: pkt.seq,
                                            marker: pkt.marker,
                                            nackable: pkt.nackable,
                                            layers: pkt.layers,
                                            meta: pkt.meta,
                                            data: dup_bytes(&pkt.data),
                                        };
                                        let mut ends: Vec<u64> = Vec::new();
                                        ends.push(entry.0.0);
                                        proof {
                                            assert(ends@ =~= seq![entry.0.0]);
                                        }
                                        self.push_out(
                                            RoomOutput::Endpoint(
                                                ends,
                                                ClusterEndpointEvent::LocalTrack(
                                                    LocalTrackId(entry.0.1),
                                                    ClusterLocalTrackEvent::Media(seq_no, copy),
                                                ),
                                            ),
                                        );
                                    }
                                    proof {
                                        assert(self.qview() =~= old(self).qview() + media_fanout(
                                            s0.local_tracks.take(i + 1),
                                            c,
                                            seq_no,
                                            pkt@,
                                        ));
                                    }
                                    i = i + 1;
                                }
                                proof {
                                    assert(s0.local_tracks.take(s0.local_tracks.len() as int)
                                        =~= s0.local_tracks);
                                }
                            },
                        }
                    },
                }
            },
            ChannelEvent::Feedback(fb) => {
                self.publisher.on_track_feedback(c, fb);
                self.drain_publisher();
                proof {
                    assert(final(self).state() =~= s0);
                }
            },
            ChannelEvent::RouteChanged => {
                self.status_fanout_exec(c, true);
            },
            ChannelEvent::SourceChanged => {
                self.status_fanout_exec(c, false);
            },
        }
    }

    /// Fans a relay- or source-change notice out to the local tracks of a
    /// channel.
    fn status_fanout_exec(&mut self, c: u64, relay: bool)
        requires
            old(self).wf(),
        ensures
            final(self).wf(),
            final(self).room == old(self).room,
            Self::same_but_queue(old(self), final(self)),
            final(self).state() == old(self).state(),
            final(self).qview() == old(self).qview() + status_fanout(
                old(self).state().local_tracks,
                c,
                relay,
            ),
    {
        let ghost s0 = old(self).state();
        let n = self.local_tracks.len();
        let mut i: usize = 0;
        while i < n
            invariant
                i <= n,
                n == self.local_tracks@.len(),
                self.wf(),
                self.room == old(self).room,
                Self::same_but_queue(old(self), self),
                self.state() == s0,
                s0 == old(self).state(),
                self.qview() == old(self).qview() + status_fanout(
                    s0.local_tracks.take(i as int),
                    c,
                    relay,
                ),
            decreases n - i,
        {
            proof {
                assert(s0.local_tracks.take(i + 1).drop_last() =~= s0.local_tracks.take(i as int));
                assert(s0.local_tracks.take(i + 1).last() == s0.local_tracks[i as int]);
            }
            let entry = self.local_tracks[i];
            if entry.1.channel == c {
                let mut ends: Vec<u64> = Vec::new();
                ends.push(entry.0.0);
                proof {
                    assert(ends@ =~= seq![entry.0.0]);
                }
                self.push_out(
                    RoomOutput::Endpoint(
                        ends,
                        ClusterEndpointEvent::LocalTrack(LocalTrackId(entry.0.1), if relay {
                            ClusterLocalTrackEvent::RelayChanged
                        } else {
                            ClusterLocalTrackEvent::SourceChanged
                        }),
                    ),
                );
            }
            proof {
                assert(self.qview() =~= old(self).qview() + status_fanout(
                    s0.local_tracks.take(i + 1),
                    c,
                    relay,
                ));
            }
            i = i + 1;
        }
        proof {
            assert(s0.local_tracks.take(s0.local_tracks.len() as int) =~= s0.local_tracks);
        }
    }

    /// Applies one endpoint control to the room.
    pub fn on_endpoint_control(&mut self, endpoint: u64, control: ClusterEndpointControl)
        requires
            old(self).wf(),
            room_ctrl_ok(old(self).state(), endpoint, control),
        ensures
            final(self).wf(),
            final(self).room == old(self).room,
            final(self).state() == room_ctrl_state(
                old(self).room.0,
                old(self).state(),
                endpoint,
                control,
            ),
            final(self).qview() == old(self).qview() + room_ctrl_outs(
                old(self).room.0,
                old(self).state(),
                endpoint,
                control,
            ),
    {
        match control {
            ClusterEndpointControl::Join(peer, meta, publish, subscribe, mixer) => {
                self.handle_join(endpoint, peer, meta, publish, subscribe, mixer);
            },
            ClusterEndpointControl::Leave => {
                self.handle_leave(endpoint);
            },
            ClusterEndpointControl::SubscribePeer(p) => {
                let map_id = peer_map(self.room, &p);
                self.push_out(
                    RoomOutput::Sdn(
                        RoomUserData(self.room, RoomFeature::MetaData),
                        FeaturesControl::DhtKv(DhtKvControl::MapCmd(map_id, MapControl::Sub)),
                    ),
                );
                proof {
                    assert(final(self).qview() =~= old(self).qview() + room_ctrl_outs(
                        old(self).room.0,
                        old(self).state(),
                        endpoint,
                        ClusterEndpointControl::SubscribePeer(p),
                    ));
                }
            },
            ClusterEndpointControl::UnsubscribePeer(p) => {
                let map_id = peer_map(self.room, &p);
                self.push_out(
                    RoomOutput::Sdn(
                        RoomUserData(self.room, RoomFeature::MetaData),
                        FeaturesControl::DhtKv(DhtKvControl::MapCmd(map_id, MapControl::Unsub)),
                    ),
                );
                proof {
                    assert(final(self).qview() =~= old(self).qview() + room_ctrl_outs(
                        old(self).room.0,
                        old(self).state(),
                        endpoint,
                        ClusterEndpointControl::UnsubscribePeer(p),
                    ));
                }
            },
            ClusterEndpointControl::AudioMixer(ctl) => match ctl {
                ClusterAudioMixerControl::Attach(sources) => {
                    self.handle_mixer(&sources, true);
                },
                ClusterAudioMixerControl::Detach(sources) => {
                    self.handle_mixer(&sources, false);
                },
            },
            ClusterEndpointControl::RemoteTrack(t, ctl) => {
                self.handle_remote_track(endpoint, t, ctl);
            },
            ClusterEndpointControl::LocalTrack(t, ctl) => {
                self.handle_local_track(endpoint, t, ctl);
            },
            ClusterEndpointControl::MessageChannel(label, ctl) => {
                self.handle_msg_channel(endpoint, label, ctl);
            },
        }
    }

    /// Routes one overlay event into the room.
    pub fn on_sdn_event(&mut self, _userdata: RoomUserData, event: FeaturesEvent)
        requires
            old(self).wf(),
        ensures
            final(self).wf(),
            final(self).room == old(self).room,
            final(self).state() == room_sdn_state(old(self).room.0, old(self).state(), event),
            final(self).qview() == old(self).qview() + room_sdn_outs(
                old(self).room.0,
                old(self).state(),
                event,
            ),
    {
        match event {
            FeaturesEvent::DhtKv(DhtKvEvent::MapEvent(map, me)) => {
                self.handle_dht_event(map, me);
            },
            FeaturesEvent::PubSub(PubsubEvent(c, ev)) => {
                self.handle_pubsub_event(c, ev);
            },
        }
    }

    /// Routes one room input to the matching handler.
    pub fn on_input(&mut self, input: RoomInput)
        requires
            old(self).wf(),
            match input {
                RoomInput::Endpoint(e, ref c) => room_ctrl_ok(old(self).state(), e, *c),
                RoomInput::Sdn(_ud, ref _ev) => true,
            },
        ensures
            final(self).wf(),
            final(self).room == old(self).room,
            match input {
                RoomInput::Endpoint(e, c) => final(self).state() == room_ctrl_state(
                    old(self).room.0,
                    old(self).state(),
                    e,
                    c,
                ) && final(self).qview() == old(self).qview() + room_ctrl_outs(
                    old(self).room.0,
                    old(self).state(),
                    e,
                    c,
                ),
                RoomInput::Sdn(_ud, ev) => final(self).state() == room_sdn_state(
                    old(self).room.0,
                    old(self).state(),
                    ev,
                ) && final(self).qview() == old(self).qview() + room_sdn_outs(
                    old(self).room.0,
                    old(self).state(),
                    ev,
                ),
            },
    {
        match input {
            RoomInput::Endpoint(e, c) => self.on_endpoint_control(e, c),
            RoomInput::Sdn(ud, ev) => self.on_sdn_event(ud, ev),
        }
    }

    /// Timer tick; the room keeps no timers.
    pub fn on_tick(&mut self)
        ensures
            *final(self) == *old(self),
    {
    }

    /// True when nothing is joined, subscribed, published or queued.
    pub fn is_empty(&self) -> (r: bool)
        requires
            self.wf(),
        ensures
            r == (self.state().is_empty() && self.queue@.len() == 0),
    {
        let r = self.peers.len() == 0 && self.peer_subs.len() == 0 && self.track_subs.len() == 0
            && self.cached_peers.len() == 0 && self.cached_tracks.len() == 0
            && self.publisher.is_empty() && self.local_tracks.len() == 0
            && self.msg_channels.len() == 0 && self.queue.len() == 0;
        proof {
            assert(cpview(self.cached_peers@).len() == self.cached_peers@.len());
            assert(ctview(self.cached_tracks@).len() == self.cached_tracks@.len());
            assert(mcview(self.msg_channels@).len() == self.msg_channels@.len());
        }
        r
    }

    /// The event the engine reaps this room with.
    pub fn empty_event(&self) -> (r: RoomOutput)
        ensures
            r == RoomOutput::OnResourceEmpty(self.room),
    {
        RoomOutput::OnResourceEmpty(self.room)
    }

    /// Hands out the oldest queued output.
    pub fn pop_output(&mut self, _now: ()) -> (r: Option<RoomOutput>)
        requires
            old(self).wf(),
        ensures
            final(self).wf(),
            final(self).room == old(self).room,
            final(self).state() == old(self).state(),
            match r {
                Some(o) => old(self).queue@.len() > 0 && o == old(self).queue@[0]
                    && final(self).queue@ == old(self).queue@.subrange(
                    1,
                    old(self).queue@.len() as int,
                ),
                None => old(self).queue@.len() == 0 && final(self).queue@ == old(self).queue@,
            },
    {
        self.queue.pop_front()
    }
}


/// Join/leave round trip: a `Leave` right after a fresh `Join` restores the
/// room state exactly, whatever else the room holds.
pub proof fn lemma_join_leave_round_trip(s: RoomState, e: u64, slot: PeerSlot)
    requires
        !acontains(s.peers, e),
        !s.peer_subs.contains(e),
        !s.track_subs.contains(e),
        s.peer_subs.len() == 0 ==> s.cached_peers.len() == 0,
        s.track_subs.len() == 0 ==> s.cached_tracks.len() == 0,
    ensures
        leave_state(join_state(s, e, slot), e) == s,
{
    let s1 = join_state(s, e, slot);
    assert(s1.peers[s.peers.len() as int].0 == e);
    assert(acontains(s1.peers, e));
    lemma_afind(s1.peers, e);
    assert(afind(s1.peers, e) == s.peers.len()) by {
        if afind(s1.peers, e) < s.peers.len() {
            assert(s1.peers[afind(s1.peers, e)] == s.peers[afind(s1.peers, e)]);
            assert(acontains(s.peers, e));
        }
    }
    assert(s1.peers[afind(s1.peers, e)].1 == slot);
    crate::alist::lemma_push_remove_restores(s.peers, e, slot);
    if slot.subscribe.peers {
        crate::alist::lemma_lpush_remove_restores(s.peer_subs, e);
    }
    if slot.subscribe.tracks {
        crate::alist::lemma_lpush_remove_restores(s.track_subs, e);
    }
    assert(leave_state(s1, e) =~= s);
}


/// Terminal emptiness: when the last peer leaves a room that holds nothing
/// else, the room is empty afterwards.  The engine then reaps it: its
/// `is_empty` answer turns true once the FIFO is drained, the engine emits
/// the room's terminal `OnResourceEmpty` as a `Continue` and removes it,
/// and nothing further can come from it.
pub proof fn lemma_last_leave_empties_room(s: RoomState, e: u64)
    requires
        s.peers.len() == 1,
        s.peers[0].0 == e,
        s.peers[0].1.subscribe.peers ==> s.peer_subs == seq![e],
        !s.peers[0].1.subscribe.peers ==> s.peer_subs.len() == 0,
        s.peers[0].1.subscribe.tracks ==> s.track_subs == seq![e],
        !s.peers[0].1.subscribe.tracks ==> s.track_subs.len() == 0,
        s.peer_subs.len() == 0 ==> s.cached_peers.len() == 0,
        s.track_subs.len() == 0 ==> s.cached_tracks.len() == 0,
        s.publisher == PubModel::empty(),
        s.local_tracks.len() == 0,
        s.msg_channels.len() == 0,
    ensures
        leave_state(s, e).is_empty(),
{
    assert(s.peers[0].0 == e);
    assert(acontains(s.peers, e));
    lemma_afind(s.peers, e);
    assert(afind(s.peers, e) == 0);
    assert(aremove(s.peers, e) =~= Seq::<(u64, PeerSlot)>::empty());
    let slot = s.peers[0].1;
    if slot.subscribe.peers {
        crate::alist::lemma_lfind(s.peer_subs, e);
        assert(s.peer_subs.contains(e)) by {
            assert(s.peer_subs[0] == e);
        }
        assert(lfind(s.peer_subs, e) == 0);
        assert(lremove(s.peer_subs, e) =~= Seq::<u64>::empty());
    }
    if slot.subscribe.tracks {
        crate::alist::lemma_lfind(s.track_subs, e);
        assert(s.track_subs.contains(e)) by {
            assert(s.track_subs[0] == e);
        }
        assert(lfind(s.track_subs, e) == 0);
        assert(lremove(s.track_subs, e) =~= Seq::<u64>::empty());
    }
}

} // verus!
