//! Channel publisher of a room: registers remote tracks as pub/sub
//! channels, forwards their media, and fans subscriber feedback back out to
//! the publishing endpoints.
//!
//! The publisher's behaviour is specified by a transition function
//! [`pub_step`] over a mathematical model of its two indexes; every exec
//! method's contract says that it performs exactly one such step.  The
//! channel lifecycle law ([`lemma_publisher_channel_lifecycle`]) is proved
//! by induction over traces of that transition function: along any sequence
//! of publish/unpublish operations, each channel has seen exactly one more
//! `PubStart` than `PubStop` while it has sources, and equally many once it
//! has none.

use crate::cluster::{ClusterEndpointEvent, ClusterRemoteTrackEvent, ClusterRoomHash, EndpointEventView};
use crate::ids::{gen_track_channel_id, track_channel_spec};
use crate::imap::{
    sources_empty_map, sources_map_clear, sources_map_get, sources_map_insert,
    sources_map_is_empty, sources_map_new, sources_map_of, sources_map_swap_remove,
    tracks_empty_map, tracks_map_clear, tracks_map_get, tracks_map_insert, tracks_map_is_empty,
    tracks_map_new, tracks_map_of, tracks_map_swap_remove, SourcesIndexMap, TracksIndexMap,
};
use crate::media::{packet_valid, spec_serialize, MediaPacket};
use crate::media_track::{track_output_view, Output, PubKindView, TrackOutputView};
use crate::sdn::{ChannelControl, Feedback, PubsubControl};
use crate::types::{PeerId, RemoteTrackId, TrackName};
use std::collections::VecDeque;
use vstd::prelude::*;

verus! {

/// A decoded feedback message: either a bitrate limit or a key-frame
/// request.
#[derive(Clone, Copy, Debug, PartialEq, Eq, Structural)]
pub enum FeedbackKind {
    Bitrate { min: u64, max: u64 },
    KeyFrameRequest,
}

/// Meaning of a raw feedback message; `None` for unknown kinds, which both
/// sides ignore.
pub open spec fn feedback_kind_spec(fb: Feedback) -> Option<FeedbackKind> {
    if fb.kind == 0 {
        Some(FeedbackKind::Bitrate { min: fb.value, max: fb.value })
    } else if fb.kind == 1 {
        Some(FeedbackKind::KeyFrameRequest)
    } else {
        None
    }
}

impl FeedbackKind {
    /// Decodes a raw feedback message; unknown kinds are rejected.
    pub fn try_from(value: Feedback) -> (r: Result<FeedbackKind, ()>)
        ensures
            r == match feedback_kind_spec(value) {
                Some(k) => Result::<FeedbackKind, ()>::Ok(k),
                None => Result::<FeedbackKind, ()>::Err(()),
            },
    {
        if value.kind == 0 {
            Ok(FeedbackKind::Bitrate { min: value.value, max: value.value })
        } else if value.kind == 1 {
            Ok(FeedbackKind::KeyFrameRequest)
        } else {
            Err(())
        }
    }
}

/// Mathematical state of a publisher: the track index and the per-channel
/// source lists (in insertion order).
#[verifier::ext_equal]
pub ghost struct PubModel {
    pub tracks: Map<(u64, u64), (Seq<u8>, Seq<u8>, u64)>,
    pub sources: Map<u64, Seq<(u64, u64)>>,
}

impl PubModel {
    /// The empty publisher state.
    pub open spec fn empty() -> PubModel {
        PubModel { tracks: Map::empty(), sources: Map::empty() }
    }
}

/// One publish or unpublish operation.
pub ghost enum PubOp {
    Publish(u64, u64, Seq<u8>, Seq<u8>),
    Unpublish(u64, u64),
}

/// Well-formedness of a publisher state for a given room: every track's
/// channel is derived from its peer and name, the two indexes point at each
/// other, and no source list is empty or holds duplicates.
pub open spec fn pub_model_wf(room: u64, m: PubModel) -> bool {
    &&& m.tracks.dom().finite()
    &&& m.sources.dom().finite()
    &&& forall|k: (u64, u64)|
        #[trigger] m.tracks.contains_key(k) ==> {
            &&& m.tracks[k].2 == track_channel_spec(room, m.tracks[k].0, m.tracks[k].1)
            &&& m.sources.contains_key(m.tracks[k].2)
            &&& m.sources[m.tracks[k].2].contains(k)
        }
    &&& forall|c: u64|
        #[trigger] m.sources.contains_key(c) ==> {
            &&& m.sources[c].len() > 0
            &&& (forall|i: int|
                0 <= i < m.sources[c].len() ==> #[trigger] m.tracks.contains_key(m.sources[c][i])
                    && m.tracks[m.sources[c][i]].2 == c)
            &&& m.sources[c].no_duplicates()
        }
}

/// Index of the first occurrence of `v` in `s`, or -1.
pub open spec fn seq_find(s: Seq<(u64, u64)>, v: (u64, u64)) -> int
    decreases s.len(),
{
    if s.len() == 0 {
        -1
    } else if s[0] == v {
        0
    } else {
        let r = seq_find(s.subrange(1, s.len() as int), v);
        if r == -1 {
            -1
        } else {
            r + 1
        }
    }
}

/// Removal of `v` from `s` by swapping in the last element, as
/// `Vec::swap_remove` of the first occurrence does.
pub open spec fn seq_swap_remove_val(s: Seq<(u64, u64)>, v: (u64, u64)) -> Seq<(u64, u64)> {
    s.update(seq_find(s, v), s.last()).drop_last()
}

/// `seq_find` finds the first occurrence, and only fails when the value is
/// absent.
pub proof fn lemma_seq_find(s: Seq<(u64, u64)>, v: (u64, u64))
    ensures
        s.contains(v) ==> {
            &&& 0 <= seq_find(s, v) < s.len()
            &&& s[seq_find(s, v)] == v
            &&& forall|j: int| 0 <= j < seq_find(s, v) ==> s[j] != v
        },
        !s.contains(v) ==> seq_find(s, v) == -1,
    decreases s.len(),
{
    if s.len() == 0 {
    } else if s[0] == v {
    } else {
        let tail = s.subrange(1, s.len() as int);
        lemma_seq_find(tail, v);
        assert forall|j: int| 0 <= j < tail.len() implies tail[j] == s[j + 1] by {}
        if s.contains(v) {
            let w = choose|w: int| 0 <= w < s.len() && s[w] == v;
            assert(w != 0);
            assert(tail[w - 1] == v);
            assert(tail.contains(v));
        }
        if tail.contains(v) {
            let f = seq_find(tail, v);
            assert(s[f + 1] == tail[f]);
            assert(s.contains(v)) by {
                assert(s[f + 1] == v);
            }
            assert(seq_find(s, v) == f + 1);
            assert forall|j: int| 0 <= j < f + 1 implies s[j] != v by {
                if j > 0 {
                    assert(tail[j - 1] != v);
                    assert(s[j] == tail[j - 1]);
                }
            }
        }
    }
}

/// Swap-removal of a present value from a duplicate-free list: one element
/// shorter, the value is gone, everything else stays, and it is still
/// duplicate free.
pub proof fn lemma_seq_swap_remove(s: Seq<(u64, u64)>, v: (u64, u64))
    requires
        s.no_duplicates(),
        s.contains(v),
    ensures
        seq_swap_remove_val(s, v).len() == s.len() - 1,
        forall|x: (u64, u64)|
            #[trigger] seq_swap_remove_val(s, v).contains(x) <==> (s.contains(x) && x != v),
        seq_swap_remove_val(s, v).no_duplicates(),
{
    lemma_seq_find(s, v);
    let i = seq_find(s, v);
    let r = seq_swap_remove_val(s, v);
    let n = s.len() as int;
    assert(r.len() == n - 1);
    assert forall|j: int| 0 <= j < n - 1 implies r[j] == (if j == i {
        s[n - 1]
    } else {
        s[j]
    }) by {}
    assert forall|x: (u64, u64)| #[trigger] r.contains(x) implies (s.contains(x) && x != v) by {
        let j = choose|j: int| 0 <= j < r.len() && r[j] == x;
        if j == i {
            assert(s[n - 1] == x);
            if x == v {
                assert(s[i] == v && s[n - 1] == v);
                assert(i < n - 1);
                assert(false);
            }
        } else {
            assert(s[j] == x);
            if x == v {
                assert(s[j] == s[i]);
                assert(false);
            }
        }
    }
    assert forall|x: (u64, u64)| s.contains(x) && x != v implies #[trigger] r.contains(x) by {
        let j = choose|j: int| 0 <= j < s.len() && s[j] == x;
        assert(j != i);
        if j < n - 1 {
            assert(r[j] == x);
        } else {
            assert(i < n - 1) by {
                assert(s[i] == v && s[j] == x && x != v);
            }
            assert(r[i] == x);
        }
    }
    assert forall|p: int, q: int| 0 <= p < q < r.len() implies r[p] != r[q] by {
        let sp: int = if p == i {
            n - 1
        } else {
            p
        };
        let sq: int = if q == i {
            n - 1
        } else {
            q
        };
        assert(r[p] == s[sp] && r[q] == s[sq]);
        assert(sp != sq);
    }
}

/// One transition of the publisher state: the new state and the pub/sub
/// commands it emits.  `PubStart` is emitted exactly when a channel gains
/// its first source, `PubStop` exactly when it loses its last one.
pub open spec fn pub_step(room: u64, m: PubModel, op: PubOp) -> (PubModel, Seq<TrackOutputView>) {
    match op {
        PubOp::Publish(e, t, peer, name) => {
            if m.tracks.contains_key((e, t)) {
                (m, Seq::empty())
            } else {
                let c = track_channel_spec(room, peer, name);
                let tracks2 = m.tracks.insert((e, t), (peer, name, c));
                if m.sources.contains_key(c) {
                    (
                        PubModel { tracks: tracks2, sources: m.sources.insert(c, m.sources[c].push((e, t))) },
                        Seq::empty(),
                    )
                } else {
                    (
                        PubModel { tracks: tracks2, sources: m.sources.insert(c, seq![(e, t)]) },
                        seq![TrackOutputView::Pub(c, PubKindView::Start)],
                    )
                }
            }
        },
        PubOp::Unpublish(e, t) => {
            if m.tracks.contains_key((e, t)) {
                let c = m.tracks[(e, t)].2;
                let tracks2 = m.tracks.remove((e, t));
                let s2 = seq_swap_remove_val(m.sources[c], (e, t));
                if s2.len() == 0 {
                    (
                        PubModel { tracks: tracks2, sources: m.sources.remove(c) },
                        seq![TrackOutputView::Pub(c, PubKindView::Stop)],
                    )
                } else {
                    (PubModel { tracks: tracks2, sources: m.sources.insert(c, s2) }, Seq::empty())
                }
            } else {
                (m, Seq::empty())
            }
        },
    }
}

/// State and emitted commands after running a whole operation sequence from
/// the empty publisher.
pub open spec fn pub_run(room: u64, ops: Seq<PubOp>) -> (PubModel, Seq<TrackOutputView>)
    decreases ops.len(),
{
    if ops.len() == 0 {
        (PubModel::empty(), Seq::empty())
    } else {
        let prev = pub_run(room, ops.drop_last());
        let last = pub_step(room, prev.0, ops.last());
        (last.0, prev.1 + last.1)
    }
}

/// Number of occurrences of `target` in `outs`.
pub open spec fn count_matching(outs: Seq<TrackOutputView>, target: TrackOutputView) -> int
    decreases outs.len(),
{
    if outs.len() == 0 {
        0
    } else {
        count_matching(outs.drop_last(), target) + if outs.last() == target {
            1int
        } else {
            0
        }
    }
}

/// Occurrence counting distributes over concatenation.
pub proof fn lemma_count_matching_add(a: Seq<TrackOutputView>, b: Seq<TrackOutputView>, target: TrackOutputView)
    ensures
        count_matching(a + b, target) == count_matching(a, target) + count_matching(b, target),
    decreases b.len(),
{
    if b.len() == 0 {
        assert(a + b =~= a);
    } else {
        lemma_count_matching_add(a, b.drop_last(), target);
        assert((a + b).drop_last() =~= a + b.drop_last());
        assert((a + b).last() == b.last());
    }
}

/// A channel is live when it has at least one source.
pub open spec fn channel_live(m: PubModel, c: u64) -> bool {
    m.sources.contains_key(c)
}

/// A transition preserves well-formedness.
#[verifier::rlimit(100)]
#[verifier::spinoff_prover]
pub proof fn lemma_pub_step_wf(room: u64, m: PubModel, op: PubOp)
    requires
        pub_model_wf(room, m),
    ensures
        pub_model_wf(room, pub_step(room, m, op).0),
{
    broadcast use vstd::seq_lib::lemma_seq_contains_after_push;

    let m2 = pub_step(room, m, op).0;
    match op {
        PubOp::Publish(e, t, peer, name) => {
            if !m.tracks.contains_key((e, t)) {
                let c = track_channel_spec(room, peer, name);
                let k0 = (e, t);
                assert(m2.tracks == m.tracks.insert(k0, (peer, name, c)));
                assert(m2.tracks.dom() =~= m.tracks.dom().insert(k0));
                assert(m2.sources.dom() =~= m.sources.dom().insert(c));
                if m.sources.contains_key(c) {
                    let s = m.sources[c];
                    assert(!s.contains(k0)) by {
                        if s.contains(k0) {
                            let i = choose|i: int| 0 <= i < s.len() && s[i] == k0;
                            assert(m.tracks.contains_key(s[i]));
                        }
                    }
                    assert(m2.sources == m.sources.insert(c, s.push(k0)));
                    assert forall|k: (u64, u64)| #[trigger] m2.tracks.contains_key(k) implies {
                        &&& m2.tracks[k].2 == track_channel_spec(room, m2.tracks[k].0, m2.tracks[k].1)
                        &&& m2.sources.contains_key(m2.tracks[k].2)
                        &&& m2.sources[m2.tracks[k].2].contains(k)
                    } by {
                        if k == k0 {
                            assert(m2.sources[c].contains(k0));
                        } else {
                            assert(m.tracks.contains_key(k));
                            let ck = m.tracks[k].2;
                            assert(m.sources[ck].contains(k));
                            if ck == c {
                                assert(m2.sources[c].contains(k));
                            } else {
                                assert(m2.sources[ck] == m.sources[ck]);
                            }
                        }
                    }
                    assert forall|cc: u64| #[trigger] m2.sources.contains_key(cc) implies {
                        &&& m2.sources[cc].len() > 0
                        &&& (forall|i: int|
                            0 <= i < m2.sources[cc].len() ==> #[trigger] m2.tracks.contains_key(
                                m2.sources[cc][i],
                            ) && m2.tracks[m2.sources[cc][i]].2 == cc)
                        &&& m2.sources[cc].no_duplicates()
                    } by {
                        if cc == c {
                            let s2 = s.push(k0);
                            assert(m2.sources[c] == s2);
                            assert forall|i: int| 0 <= i < s2.len() implies
                                #[trigger] m2.tracks.contains_key(s2[i]) && m2.tracks[s2[i]].2
                                == c by {
                                if i < s.len() {
                                    assert(s2[i] == s[i]);
                                    assert(s.contains(s[i]));
                                    assert(m.tracks.contains_key(s[i]) && m.tracks[s[i]].2 == c);
                                    assert(s[i] != k0);
                                } else {
                                    assert(s2[i] == k0);
                                }
                            }
                            assert(s2.no_duplicates()) by {
                                assert forall|p: int, q: int| 0 <= p < q < s2.len() implies s2[p]
                                    != s2[q] by {
                                    if q == s.len() {
                                        assert(s2[p] == s[p]);
                                        assert(s.contains(s[p]));
                                    }
                                }
                            }
                        } else {
                            assert(m.sources.contains_key(cc));
                            assert(m2.sources[cc] == m.sources[cc]);
                            assert forall|i: int| 0 <= i < m2.sources[cc].len() implies
                                #[trigger] m2.tracks.contains_key(m2.sources[cc][i])
                                && m2.tracks[m2.sources[cc][i]].2 == cc by {
                                assert(m.tracks.contains_key(m.sources[cc][i]));
                                assert(m.sources[cc][i] != k0) by {
                                    if m.sources[cc][i] == k0 {
                                        assert(m.tracks.contains_key(k0));
                                    }
                                }
                            }
                        }
                    }
                } else {
                    assert(m2.sources == m.sources.insert(c, seq![k0]));
                    assert(seq![k0][0] == k0);
                    assert(seq![k0].contains(k0));
                    assert forall|k: (u64, u64)| #[trigger] m2.tracks.contains_key(k) implies {
                        &&& m2.tracks[k].2 == track_channel_spec(room, m2.tracks[k].0, m2.tracks[k].1)
                        &&& m2.sources.contains_key(m2.tracks[k].2)
                        &&& m2.sources[m2.tracks[k].2].contains(k)
                    } by {
                        if k == k0 {
                            assert(m2.sources[c].contains(k0));
                        } else {
                            assert(m.tracks.contains_key(k));
                            let ck = m.tracks[k].2;
                            assert(m.sources.contains_key(ck));
                            assert(ck != c);
                            assert(m2.sources[ck] == m.sources[ck]);
                            assert(m.sources[ck].contains(k));
                        }
                    }
                    assert forall|cc: u64| #[trigger] m2.sources.contains_key(cc) implies {
                        &&& m2.sources[cc].len() > 0
                        &&& (forall|i: int|
                            0 <= i < m2.sources[cc].len() ==> #[trigger] m2.tracks.contains_key(
                                m2.sources[cc][i],
                            ) && m2.tracks[m2.sources[cc][i]].2 == cc)
                        &&& m2.sources[cc].no_duplicates()
                    } by {
                        if cc == c {
                            assert forall|i: int| 0 <= i < m2.sources[c].len() implies
                                #[trigger] m2.tracks.contains_key(m2.sources[c][i])
                                && m2.tracks[m2.sources[c][i]].2 == c by {
                                assert(m2.sources[c][i] == k0);
                            }
                        } else {
                            assert(m.sources.contains_key(cc));
                            assert(m2.sources[cc] == m.sources[cc]);
                            assert forall|i: int| 0 <= i < m2.sources[cc].len() implies
                                #[trigger] m2.tracks.contains_key(m2.sources[cc][i])
                                && m2.tracks[m2.sources[cc][i]].2 == cc by {
                                assert(m.tracks.contains_key(m.sources[cc][i]));
                                assert(m.sources[cc][i] != k0) by {
                                    if m.sources[cc][i] == k0 {
                                        assert(m.tracks.contains_key(k0));
                                    }
                                }
                            }
                        }
                    }
                }
            }
        },
        PubOp::Unpublish(e, t) => {
            if m.tracks.contains_key((e, t)) {
                let k0 = (e, t);
                let c = m.tracks[k0].2;
                let s = m.sources[c];
                lemma_seq_swap_remove(s, k0);
                let s2 = seq_swap_remove_val(s, k0);
                assert(m2.tracks == m.tracks.remove(k0));
                assert(m2.tracks.dom() =~= m.tracks.dom().remove(k0));
                if s2.len() == 0 {
                    assert(m2.sources == m.sources.remove(c));
                    assert(m2.sources.dom() =~= m.sources.dom().remove(c));
                    assert forall|k: (u64, u64)| #[trigger] m2.tracks.contains_key(k) implies {
                        &&& m2.tracks[k].2 == track_channel_spec(room, m2.tracks[k].0, m2.tracks[k].1)
                        &&& m2.sources.contains_key(m2.tracks[k].2)
                        &&& m2.sources[m2.tracks[k].2].contains(k)
                    } by {
                        assert(m.tracks.contains_key(k) && k != k0);
                        let ck = m.tracks[k].2;
                        assert(m.sources[ck].contains(k));
                        if ck == c {
                            assert(s2.contains(k));
                            assert(false);
                        } else {
                            assert(m2.sources[ck] == m.sources[ck]);
                        }
                    }
                    assert forall|cc: u64| #[trigger] m2.sources.contains_key(cc) implies {
                        &&& m2.sources[cc].len() > 0
                        &&& (forall|i: int|
                            0 <= i < m2.sources[cc].len() ==> #[trigger] m2.tracks.contains_key(
                                m2.sources[cc][i],
                            ) && m2.tracks[m2.sources[cc][i]].2 == cc)
                        &&& m2.sources[cc].no_duplicates()
                    } by {
                        assert(cc != c);
                        assert(m.sources.contains_key(cc));
                        assert(m2.sources[cc] == m.sources[cc]);
                        assert forall|i: int| 0 <= i < m2.sources[cc].len() implies
                            #[trigger] m2.tracks.contains_key(m2.sources[cc][i])
                            && m2.tracks[m2.sources[cc][i]].2 == cc by {
                            assert(m.tracks.contains_key(m.sources[cc][i]));
                            assert(m.sources[cc][i] != k0) by {
                                if m.sources[cc][i] == k0 {
                                    assert(m.tracks[k0].2 == cc);
                                }
                            }
                        }
                    }
                } else {
                    assert(m2.sources == m.sources.insert(c, s2));
                    assert(m2.sources.dom() =~= m.sources.dom().insert(c));
                    assert forall|k: (u64, u64)| #[trigger] m2.tracks.contains_key(k) implies {
                        &&& m2.tracks[k].2 == track_channel_spec(room, m2.tracks[k].0, m2.tracks[k].1)
                        &&& m2.sources.contains_key(m2.tracks[k].2)
                        &&& m2.sources[m2.tracks[k].2].contains(k)
                    } by {
                        assert(m.tracks.contains_key(k) && k != k0);
                        let ck = m.tracks[k].2;
                        assert(m.sources[ck].contains(k));
                        if ck == c {
                            assert(s2.contains(k));
                        } else {
                            assert(m2.sources[ck] == m.sources[ck]);
                        }
                    }
                    assert forall|cc: u64| #[trigger] m2.sources.contains_key(cc) implies {
                        &&& m2.sources[cc].len() > 0
                        &&& (forall|i: int|
                            0 <= i < m2.sources[cc].len() ==> #[trigger] m2.tracks.contains_key(
                                m2.sources[cc][i],
                            ) && m2.tracks[m2.sources[cc][i]].2 == cc)
                        &&& m2.sources[cc].no_duplicates()
                    } by {
                        if cc == c {
                            assert forall|i: int| 0 <= i < s2.len() implies
                                #[trigger] m2.tracks.contains_key(s2[i]) && m2.tracks[s2[i]].2
                                == c by {
                                assert(s2.contains(s2[i]));
                                assert(s.contains(s2[i]) && s2[i] != k0);
                                assert(m.tracks.contains_key(s2[i]));
                            }
                        } else {
                            assert(m.sources.contains_key(cc));
                            assert(m2.sources[cc] == m.sources[cc]);
                            assert forall|i: int| 0 <= i < m2.sources[cc].len() implies
                                #[trigger] m2.tracks.contains_key(m2.sources[cc][i])
                                && m2.tracks[m2.sources[cc][i]].2 == cc by {
                                assert(m.tracks.contains_key(m.sources[cc][i]));
                                assert(m.sources[cc][i] != k0) by {
                                    if m.sources[cc][i] == k0 {
                                        assert(m.tracks[k0].2 == cc);
                                    }
                                }
                            }
                        }
                    }
                }
            }
        },
    }
}

/// Channel lifecycle law: after any sequence of publish and unpublish
/// operations, each channel has emitted exactly one more `PubStart` than
/// `PubStop` if it still has sources, and exactly as many if it has none.
pub proof fn lemma_publisher_channel_lifecycle(room: u64, ops: Seq<PubOp>, c: u64)
    ensures
        pub_model_wf(room, pub_run(room, ops).0),
        count_matching(pub_run(room, ops).1, TrackOutputView::Pub(c, PubKindView::Start))
            - count_matching(pub_run(room, ops).1, TrackOutputView::Pub(c, PubKindView::Stop))
            == if channel_live(pub_run(room, ops).0, c) {
            1int
        } else {
            0
        },
    decreases ops.len(),
{
    let starts = TrackOutputView::Pub(c, PubKindView::Start);
    let stops = TrackOutputView::Pub(c, PubKindView::Stop);
    if ops.len() == 0 {
        assert(count_matching(Seq::empty(), starts) == 0);
        assert(count_matching(Seq::empty(), stops) == 0);
    } else {
        lemma_publisher_channel_lifecycle(room, ops.drop_last(), c);
        let prev = pub_run(room, ops.drop_last());
        let last = pub_step(room, prev.0, ops.last());
        lemma_pub_step_wf(room, prev.0, ops.last());
        lemma_count_matching_add(prev.1, last.1, starts);
        lemma_count_matching_add(prev.1, last.1, stops);
        assert(count_matching(Seq::empty(), starts) == 0);
        assert(count_matching(Seq::empty(), stops) == 0);
        match ops.last() {
            PubOp::Publish(e, t, peer, name) => {
                if !prev.0.tracks.contains_key((e, t)) {
                    let ch = track_channel_spec(room, peer, name);
                    if !prev.0.sources.contains_key(ch) {
                        assert(last.1 =~= seq![TrackOutputView::Pub(ch, PubKindView::Start)]);
                        assert(last.1.drop_last() =~= Seq::<TrackOutputView>::empty());
                        assert(count_matching(last.1, starts) == if ch == c {
                            1int
                        } else {
                            0
                        });
                        assert(count_matching(last.1, stops) == 0);
                    }
                }
            },
            PubOp::Unpublish(e, t) => {
                if prev.0.tracks.contains_key((e, t)) {
                    let ch = prev.0.tracks[(e, t)].2;
                    let s = prev.0.sources[ch];
                    lemma_seq_swap_remove(s, (e, t));
                    let s2 = seq_swap_remove_val(s, (e, t));
                    if s2.len() == 0 {
                        assert(last.1 =~= seq![TrackOutputView::Pub(ch, PubKindView::Stop)]);
                        assert(last.1.drop_last() =~= Seq::<TrackOutputView>::empty());
                        assert(count_matching(last.1, stops) == if ch == c {
                            1int
                        } else {
                            0
                        });
                        assert(count_matching(last.1, starts) == 0);
                    }
                }
            },
        }
    }
}

/// Events fanned out to the publishing endpoints of a channel for one
/// decoded feedback message.
pub open spec fn feedback_outputs(m: PubModel, channel: u64, fb: Feedback) -> Seq<TrackOutputView> {
    match feedback_kind_spec(fb) {
        None => Seq::empty(),
        Some(k) => if m.sources.contains_key(channel) {
            m.sources[channel].map_values(
                |src: (u64, u64)|
                    TrackOutputView::Endpoint(
                        seq![src.0],
                        EndpointEventView::RemoteTrack(
                            src.1,
                            match k {
                                FeedbackKind::Bitrate { min, max } => ClusterRemoteTrackEvent::LimitBitrate {
                                    min,
                                    max,
                                },
                                FeedbackKind::KeyFrameRequest => ClusterRemoteTrackEvent::RequestKeyFrame,
                            },
                        ),
                    ),
            )
        } else {
            Seq::empty()
        },
    }
}

/// Publisher of a room's remote tracks onto pub/sub channels.
pub struct RoomChannelPublisher {
    pub room: ClusterRoomHash,
    pub tracks: TracksIndexMap,
    pub tracks_source: SourcesIndexMap,
    pub queue: VecDeque<Output>,
}

impl RoomChannelPublisher {
    /// The room this publisher belongs to.
    pub open spec fn room_id(&self) -> ClusterRoomHash {
        self.room
    }

    /// Mathematical state of the two indexes.
    pub open spec fn model(&self) -> PubModel {
        PubModel {
            tracks: tracks_map_of(self.tracks),
            sources: sources_map_of(self.tracks_source),
        }
    }

    /// Views of the queued outputs, oldest first.
    pub open spec fn qview(&self) -> Seq<TrackOutputView> {
        self.queue@.map_values(|o: Output| track_output_view(o))
    }

    /// State invariant.
    pub open spec fn wf(&self) -> bool {
        pub_model_wf(self.room.0, self.model())
    }

    /// Nothing is registered and nothing is queued.
    pub open spec fn is_empty_spec(&self) -> bool {
        self.model() == PubModel::empty() && self.queue@.len() == 0
    }

    pub fn new(room: ClusterRoomHash) -> (r: RoomChannelPublisher)
        ensures
            r.wf(),
            r.room_id() == room,
            r.model() == PubModel::empty(),
            r.qview() == Seq::<TrackOutputView>::empty(),
            r.queue@.len() == 0,
    {
        let mut tracks = tracks_map_new();
        tracks_map_clear(&mut tracks);
        let mut tracks_source = sources_map_new();
        sources_map_clear(&mut tracks_source);
        let r = RoomChannelPublisher { room, tracks, tracks_source, queue: VecDeque::new() };
        proof {
            assert(r.qview() =~= Seq::<TrackOutputView>::empty());
        }
        r
    }

    /// Whether `(endpoint, track)` is a registered source.
    pub fn has_track(&self, endpoint: u64, track: RemoteTrackId) -> (r: bool)
        ensures
            r == self.model().tracks.contains_key((endpoint, track.0)),
    {
        tracks_map_get(&self.tracks, (endpoint, track.0)).is_some()
    }

    /// Registers `(endpoint, track)` as a source of the channel derived
    /// from `(room, peer, name)`; emits `PubStart` when the channel gains
    /// its first source.
    pub fn on_track_publish(
        &mut self,
        endpoint: u64,
        track: RemoteTrackId,
        peer: PeerId,
        name: TrackName,
    )
        requires
            old(self).wf(),
            !old(self).model().tracks.contains_key((endpoint, track.0)),
        ensures
            final(self).wf(),
            final(self).room_id() == old(self).room_id(),
            final(self).model() == pub_step(
                old(self).room_id().0,
                old(self).model(),
                PubOp::Publish(endpoint, track.0, peer@, name@),
            ).0,
            final(self).qview() == old(self).qview() + pub_step(
                old(self).room_id().0,
                old(self).model(),
                PubOp::Publish(endpoint, track.0, peer@, name@),
            ).1,
    {
        proof {
            lemma_pub_step_wf(
                self.room.0,
                self.model(),
                PubOp::Publish(endpoint, track.0, peer@, name@),
            );
        }
        let channel_id = gen_track_channel_id(self.room, &peer, &name);
        tracks_map_insert(&mut self.tracks, (endpoint, track.0), (peer.0, name.0, channel_id));
        match sources_map_get(&self.tracks_source, channel_id) {
            Some(mut srcs) => {
                srcs.push((endpoint, track.0));
                sources_map_insert(&mut self.tracks_source, channel_id, srcs);
                proof {
                    assert(final(self).qview() =~= old(self).qview());
                }
            },
            None => {
                self.queue.push_back(
                    Output::Pubsub(PubsubControl(channel_id, ChannelControl::PubStart)),
                );
                let mut srcs: Vec<(u64, u64)> = Vec::new();
                srcs.push((endpoint, track.0));
                sources_map_insert(&mut self.tracks_source, channel_id, srcs);
                proof {
                    assert(srcs@ =~= seq![(endpoint, track.0)]);
                    assert(final(self).qview() =~= old(self).qview() + seq![
                        TrackOutputView::Pub(channel_id, PubKindView::Start),
                    ]);
                }
            },
        }
    }

    /// Forwards one media packet of `(endpoint, track)` onto its channel;
    /// a packet of an unregistered track is silently dropped.
    pub fn on_track_data(&mut self, endpoint: u64, track: RemoteTrackId, media: MediaPacket)
        requires
            old(self).wf(),
            packet_valid(media@),
        ensures
            final(self).wf(),
            final(self).room_id() == old(self).room_id(),
            final(self).model() == old(self).model(),
            final(self).qview() == if old(self).model().tracks.contains_key(
                (endpoint, track.0),
            ) {
                old(self).qview().push(
                    TrackOutputView::Pub(
                        old(self).model().tracks[(endpoint, track.0)].2,
                        PubKindView::Data(spec_serialize(media@)),
                    ),
                )
            } else {
                old(self).qview()
            },
    {
        match tracks_map_get(&self.tracks, (endpoint, track.0)) {
            Some(entry) => {
                let data = media.serialize();
                self.queue.push_back(
                    Output::Pubsub(PubsubControl(entry.2, ChannelControl::PubData(data))),
                );
                proof {
                    assert(final(self).qview() =~= old(self).qview().push(
                        TrackOutputView::Pub(
                            old(self).model().tracks[(endpoint, track.0)].2,
                            PubKindView::Data(spec_serialize(media@)),
                        ),
                    ));
                }
            },
            None => {},
        }
    }

    /// Unregisters `(endpoint, track)`; emits `PubStop` when its channel
    /// loses its last source.  Unknown tracks are ignored.
    pub fn on_track_unpublish(&mut self, endpoint: u64, track: RemoteTrackId)
        requires
            old(self).wf(),
        ensures
            final(self).wf(),
            final(self).room_id() == old(self).room_id(),
            final(self).model() == pub_step(
                old(self).room_id().0,
                old(self).model(),
                PubOp::Unpublish(endpoint, track.0),
            ).0,
            final(self).qview() == old(self).qview() + pub_step(
                old(self).room_id().0,
                old(self).model(),
                PubOp::Unpublish(endpoint, track.0),
            ).1,
    {
        proof {
            lemma_pub_step_wf(
                self.room.0,
                self.model(),
                PubOp::Unpublish(endpoint, track.0),
            );
        }
        match tracks_map_swap_remove(&mut self.tracks, (endpoint, track.0)) {
            None => {
                proof {
                    assert(final(self).qview() =~= old(self).qview() + Seq::<
                        TrackOutputView,
                    >::empty());
                }
            },
            Some(entry) => {
                let channel_id = entry.2;
                proof {
                    lemma_seq_swap_remove(
                        sources_map_of(old(self).tracks_source)[channel_id],
                        (endpoint, track.0),
                    );
                }
                let mut srcs = sources_map_get(&self.tracks_source, channel_id).unwrap();
                let i = Self::find_source(&srcs, (endpoint, track.0));
                srcs.swap_remove(i);
                if srcs.len() == 0 {
                    sources_map_swap_remove(&mut self.tracks_source, channel_id);
                    self.queue.push_back(
                        Output::Pubsub(PubsubControl(channel_id, ChannelControl::PubStop)),
                    );
                    proof {
                        assert(final(self).qview() =~= old(self).qview() + seq![
                            TrackOutputView::Pub(channel_id, PubKindView::Stop),
                        ]);
                    }
                } else {
                    sources_map_insert(&mut self.tracks_source, channel_id, srcs);
                    proof {
                        assert(final(self).qview() =~= old(self).qview() + Seq::<
                            TrackOutputView,
                        >::empty());
                    }
                }
            },
        }
    }

    /// First index of `key` in `srcs`.
    fn find_source(srcs: &Vec<(u64, u64)>, key: (u64, u64)) -> (r: usize)
        requires
            srcs@.contains(key),
        ensures
            r < srcs@.len(),
            srcs@[r as int] == key,
            r as int == seq_find(srcs@, key),
    {
        proof {
            lemma_seq_find(srcs@, key);
        }
        let mut i: usize = 0;
        while i < srcs.len()
            invariant
                i <= srcs@.len(),
                srcs@.contains(key),
                forall|j: int| 0 <= j < i ==> srcs@[j] != key,
                0 <= seq_find(srcs@, key) < srcs@.len(),
                srcs@[seq_find(srcs@, key)] == key,
                forall|j: int| 0 <= j < seq_find(srcs@, key) ==> srcs@[j] != key,
            decreases srcs@.len() - i,
        {
            let e = srcs[i];
            if e.0 == key.0 && e.1 == key.1 {
                proof {
                    assert(srcs@[i as int] == key);
                    assert(i as int == seq_find(srcs@, key)) by {
                        if (i as int) < seq_find(srcs@, key) {
                            assert(srcs@[i as int] != key);
                        }
                        if seq_find(srcs@, key) < i as int {
                            assert(srcs@[seq_find(srcs@, key)] != key);
                        }
                    }
                }
                return i;
            }
            i = i + 1;
        }
        proof {
            assert(srcs@[seq_find(srcs@, key)] != key);
            assert(false);
        }
        0
    }

    /// Fans one feedback message out to every source of the channel, in
    /// registration order.  Feedback of unknown kind, or for a channel
    /// without sources, produces no output at all.
    pub fn on_track_feedback(&mut self, channel: u64, fb: Feedback)
        requires
            old(self).wf(),
        ensures
            final(self).wf(),
            final(self).room_id() == old(self).room_id(),
            final(self).model() == old(self).model(),
            final(self).qview() == old(self).qview() + feedback_outputs(
                old(self).model(),
                channel,
                fb,
            ),
    {
        let kind = match FeedbackKind::try_from(fb) {
            Ok(k) => k,
            Err(()) => {
                proof {
                    assert(final(self).qview() =~= old(self).qview() + Seq::<
                        TrackOutputView,
                    >::empty());
                }
                return ;
            },
        };
        let srcs = match sources_map_get(&self.tracks_source, channel) {
            Some(s) => s,
            None => {
                proof {
                    assert(final(self).qview() =~= old(self).qview() + Seq::<
                        TrackOutputView,
                    >::empty());
                }
                return ;
            },
        };
        let ghost evs = feedback_outputs(old(self).model(), channel, fb);
        let mut i: usize = 0;
        while i < srcs.len()
            invariant
                i <= srcs@.len(),
                srcs@ == sources_map_of(old(self).tracks_source)[channel],
                sources_map_of(old(self).tracks_source).contains_key(channel),
                feedback_kind_spec(fb) == Some(kind),
                evs == feedback_outputs(old(self).model(), channel, fb),
                evs.len() == srcs@.len(),
                self.room == old(self).room,
                self.tracks == old(self).tracks,
                self.tracks_source == old(self).tracks_source,
                self.qview() == old(self).qview() + evs.take(i as int),
            decreases srcs@.len() - i,
        {
            let src = srcs[i];
            let event = match kind {
                FeedbackKind::Bitrate { min, max } => ClusterRemoteTrackEvent::LimitBitrate {
                    min,
                    max,
                },
                FeedbackKind::KeyFrameRequest => ClusterRemoteTrackEvent::RequestKeyFrame,
            };
            let mut ends: Vec<u64> = Vec::new();
            ends.push(src.0);
            proof {
                assert(ends@ =~= seq![src.0]);
            }
            let out = Output::Endpoint(
                ends,
                ClusterEndpointEvent::RemoteTrack(RemoteTrackId(src.1), event),
            );
            let ghost gout = out;
            let ghost q_prev = self.queue@;
            proof {
                assert(track_output_view(gout) == evs[i as int]);
            }
            self.queue.push_back(out);
            proof {
                assert(self.queue@ == q_prev.push(gout));
                assert(self.queue@.map_values(|o: Output| track_output_view(o)) =~= q_prev
                    .map_values(|o: Output| track_output_view(o)).push(track_output_view(gout)));
                assert(evs.take(i + 1) =~= evs.take(i as int).push(evs[i as int]));
                assert(self.qview() =~= old(self).qview() + evs.take(i + 1));
            }
            i = i + 1;
        }
        proof {
            assert(evs.take(srcs@.len() as int) =~= evs);
        }
    }

    /// True when the publisher holds no track, no channel and no queued
    /// output.
    pub fn is_empty(&self) -> (r: bool)
        ensures
            r == self.is_empty_spec(),
    {
        let r = tracks_map_is_empty(&self.tracks) && sources_map_is_empty(&self.tracks_source)
            && self.queue.len() == 0;
        proof {
            if tracks_map_of(self.tracks) == tracks_empty_map() && sources_map_of(
                self.tracks_source,
            ) == sources_empty_map() {
                assert(self.model() =~= PubModel::empty());
            }
            if self.model() == PubModel::empty() {
                assert(tracks_map_of(self.tracks) == tracks_empty_map());
                assert(sources_map_of(self.tracks_source) == sources_empty_map());
            }
        }
        r
    }

    /// The event the room reaps this publisher with.
    pub fn empty_event(&self) -> (r: Output)
        ensures
            r == Output::OnResourceEmpty,
    {
        Output::OnResourceEmpty
    }

    /// Hands out the oldest queued output.
    pub fn pop_output(&mut self, _now: ()) -> (r: Option<Output>)
        requires
            old(self).wf(),
        ensures
            final(self).wf(),
            final(self).room_id() == old(self).room_id(),
            final(self).model() == old(self).model(),
            match r {
                Some(o) => old(self).queue@.len() > 0 && o == old(self).queue@[0]
                    && final(self).queue@ == old(self).queue@.subrange(
                    1,
                    old(self).queue@.len() as int,
                ),
                None => old(self).queue@.len() == 0 && final(self).queue@ == old(self).queue@,
            },
    {
        self.queue.pop_front()
    }
}

} // verus!
