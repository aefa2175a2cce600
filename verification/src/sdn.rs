//! Data model of the cluster overlay consumed by the room engine: the
//! distributed-hash-table key/value maps and the pub/sub channels.
//!
//! The engine only decides *which* overlay operations happen; performing
//! them belongs to the overlay itself, outside this crate.  These types
//! carry those decisions as plain values.

use crate::cluster::ClusterRoomHash;
use vstd::prelude::*;

verus! {

/// Which overlay feature an event belongs to, together with the room it is
/// routed to.
#[derive(Clone, Copy, Debug, PartialEq, Eq)]
pub struct RoomUserData(pub ClusterRoomHash, pub RoomFeature);

/// Overlay feature a room talks through.
#[derive(Clone, Copy, Debug, PartialEq, Eq, Structural)]
pub enum RoomFeature {
    MetaData,
    Pubsub,
}

/// Subscriber feedback carried upstream on a pub/sub channel.
///
/// `kind` 0 asks for a bitrate (`value` bits per second), `kind` 1 asks for
/// a key frame; `min` and `max` bound the repeat interval in milliseconds.
/// Unknown kinds are ignored by both sides.
#[derive(Clone, Copy, Debug, PartialEq, Eq, Structural)]
pub struct Feedback {
    pub kind: u8,
    pub value: u64,
    pub min: u64,
    pub max: u64,
}

impl Feedback {
    pub fn simple(kind: u8, value: u64, min: u64, max: u64) -> (r: Feedback)
        ensures
            r == (Feedback { kind, value, min, max }),
    {
        Feedback { kind, value, min, max }
    }
}

/// Operation on one key/value map of the overlay DHT.
#[derive(Clone, Debug, PartialEq, Eq)]
pub enum MapControl {
    SetKey(u64, Vec<u8>),
    DelKey(u64),
    Sub,
    Unsub,
}

/// Event from one key/value map of the overlay DHT: the key, the version
/// that changed, and (for a set) the value.
#[derive(Clone, Debug, PartialEq, Eq)]
pub enum MapEvent {
    OnSet(u64, u64, Vec<u8>),
    OnDel(u64, u64),
}

/// DHT control: a command on a map, addressed by the map id.
#[derive(Clone, Debug, PartialEq, Eq)]
pub enum DhtKvControl {
    MapCmd(u64, MapControl),
}

/// DHT event: an event of a map, addressed by the map id.
#[derive(Clone, Debug, PartialEq, Eq)]
pub enum DhtKvEvent {
    MapEvent(u64, MapEvent),
}

/// Operation on one pub/sub channel.
#[derive(Clone, Debug, PartialEq, Eq)]
pub enum ChannelControl {
    PubStart,
    PubStop,
    PubData(Vec<u8>),
    SubAuto,
    UnsubAuto,
    FeedbackAuto(Feedback),
}

/// A pub/sub command, addressed by the channel id.
#[derive(Clone, Debug, PartialEq, Eq)]
pub struct PubsubControl(pub u64, pub ChannelControl);

/// Event of one pub/sub channel.
#[derive(Clone, Debug, PartialEq, Eq)]
pub enum ChannelEvent {
    /// Payload delivered on the channel with its publisher-side sequence.
    Data(u64, Vec<u8>),
    /// Aggregated subscriber feedback travelling back to the publisher.
    Feedback(Feedback),
    /// The relay path to the source changed.
    RouteChanged,
    /// The source of the channel changed.
    SourceChanged,
}

/// A pub/sub event, addressed by the channel id.
#[derive(Clone, Debug, PartialEq, Eq)]
pub struct PubsubEvent(pub u64, pub ChannelEvent);

/// Control handed down to the overlay.
#[derive(Clone, Debug, PartialEq, Eq)]
pub enum FeaturesControl {
    DhtKv(DhtKvControl),
    PubSub(PubsubControl),
}

/// Event handed up from the overlay.
#[derive(Clone, Debug, PartialEq, Eq)]
pub enum FeaturesEvent {
    DhtKv(DhtKvEvent),
    PubSub(PubsubEvent),
}

} // verus!
