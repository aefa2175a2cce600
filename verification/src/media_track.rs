//! Output type shared by the per-room media-track components, and its
//! mathematical view.

use crate::cluster::{endpoint_event_view, ClusterEndpointEvent, EndpointEventView};
use crate::sdn::{ChannelControl, PubsubControl};
use vstd::prelude::*;

verus! {

/// What a media-track component hands back to the room: a pub/sub command,
/// an event for some endpoints, or the component's empty notice.
#[derive(Clone, Debug, PartialEq, Eq)]
pub enum Output {
    Endpoint(Vec<u64>, ClusterEndpointEvent),
    Pubsub(PubsubControl),
    OnResourceEmpty,
}

/// Pub/sub command of a track component, as a mathematical value.
pub ghost enum PubKindView {
    Start,
    Stop,
    Data(Seq<u8>),
}

/// Mathematical view of a track component output.
pub ghost enum TrackOutputView {
    Pub(u64, PubKindView),
    Sub(u64),
    Unsub(u64),
    Feedback(u64, crate::sdn::Feedback),
    Endpoint(Seq<u64>, EndpointEventView),
    Empty,
}

/// View of one output value.
pub open spec fn track_output_view(o: Output) -> TrackOutputView {
    match o {
        Output::Pubsub(PubsubControl(c, ctl)) => match ctl {
            ChannelControl::PubStart => TrackOutputView::Pub(c, PubKindView::Start),
            ChannelControl::PubStop => TrackOutputView::Pub(c, PubKindView::Stop),
            ChannelControl::PubData(d) => TrackOutputView::Pub(c, PubKindView::Data(d@)),
            ChannelControl::SubAuto => TrackOutputView::Sub(c),
            ChannelControl::UnsubAuto => TrackOutputView::Unsub(c),
            ChannelControl::FeedbackAuto(fb) => TrackOutputView::Feedback(c, fb),
        },
        Output::Endpoint(ends, ev) => TrackOutputView::Endpoint(ends@, endpoint_event_view(ev)),
        Output::OnResourceEmpty => TrackOutputView::Empty,
    }
}

} // verus!
