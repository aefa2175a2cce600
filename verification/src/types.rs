//! Identifiers and metadata shared by the room engine, the worker layer and
//! the gateway.
//!
//! Textual identifiers (application id, room name, peer id, track name) are
//! kept as their UTF-8 bytes: every rule of the engine reads them as plain
//! byte strings, and the stable hashes that derive channel ids are defined
//! over bytes.

use vstd::prelude::*;
use vstd::string::StringSliceAdditionalSpecFns;

verus! {

/// Tenant application id; partitions the room namespace.
#[derive(Clone, Debug, PartialEq, Eq)]
pub struct AppId(pub Vec<u8>);

impl View for AppId {
    type V = Seq<u8>;

    open spec fn view(&self) -> Seq<u8> {
        self.0@
    }
}

impl AppId {
    /// The root tenant: the empty application id.
    pub fn root_app() -> (r: AppId)
        ensures
            r@ == Seq::<u8>::empty(),
    {
        AppId(Vec::new())
    }

    pub fn from_text(s: &str) -> (r: AppId)
        ensures
            r@ == s.spec_bytes(),
    {
        AppId(s.as_bytes_vec())
    }
}

impl From<&str> for AppId {
    fn from(s: &str) -> (r: AppId) {
        AppId::from_text(s)
    }
}

impl vstd::std_specs::convert::FromSpecImpl<&str> for AppId {
    open spec fn obeys_from_spec() -> bool {
        false
    }

    open spec fn from_spec(s: &str) -> AppId {
        arbitrary()
    }
}

/// Originating tenant of a request or a session.
#[derive(Clone, Debug, PartialEq, Eq)]
pub struct AppContext {
    pub app: AppId,
}

impl AppContext {
    pub fn root_app() -> (r: AppContext)
        ensures
            r.app@ == Seq::<u8>::empty(),
    {
        AppContext { app: AppId::root_app() }
    }
}

/// Room name, unique only within one tenant.
#[derive(Clone, Debug, PartialEq, Eq)]
pub struct RoomId(pub Vec<u8>);

impl View for RoomId {
    type V = Seq<u8>;

    open spec fn view(&self) -> Seq<u8> {
        self.0@
    }
}

impl RoomId {
    pub fn from_text(s: &str) -> (r: RoomId)
        ensures
            r@ == s.spec_bytes(),
    {
        RoomId(s.as_bytes_vec())
    }
}

impl From<&str> for RoomId {
    fn from(s: &str) -> (r: RoomId) {
        RoomId::from_text(s)
    }
}
impl vstd::std_specs::convert::FromSpecImpl<&str> for RoomId {
    open spec fn obeys_from_spec() -> bool {
        false
    }

    open spec fn from_spec(s: &str) -> RoomId {
        arbitrary()
    }
}

/// Peer id within a room.
#[derive(Clone, Debug, PartialEq, Eq)]
pub struct PeerId(pub Vec<u8>);

impl View for PeerId {
    type V = Seq<u8>;

    open spec fn view(&self) -> Seq<u8> {
        self.0@
    }
}

impl PeerId {
    pub fn from_text(s: &str) -> (r: PeerId)
        ensures
            r@ == s.spec_bytes(),
    {
        PeerId(s.as_bytes_vec())
    }
}

impl From<&str> for PeerId {
    fn from(s: &str) -> (r: PeerId) {
        PeerId::from_text(s)
    }
}
impl vstd::std_specs::convert::FromSpecImpl<&str> for PeerId {
    open spec fn obeys_from_spec() -> bool {
        false
    }

    open spec fn from_spec(s: &str) -> PeerId {
        arbitrary()
    }
}

impl From<String> for PeerId {
    fn from(s: String) -> (r: PeerId) {
        PeerId::from_text(s.as_str())
    }
}
impl vstd::std_specs::convert::FromSpecImpl<String> for PeerId {
    open spec fn obeys_from_spec() -> bool {
        false
    }

    open spec fn from_spec(s: String) -> PeerId {
        arbitrary()
    }
}

/// Name of a published track, unique per peer.
#[derive(Clone, Debug, PartialEq, Eq)]
pub struct TrackName(pub Vec<u8>);

impl View for TrackName {
    type V = Seq<u8>;

    open spec fn view(&self) -> Seq<u8> {
        self.0@
    }
}

impl TrackName {
    pub fn from_text(s: &str) -> (r: TrackName)
        ensures
            r@ == s.spec_bytes(),
    {
        TrackName(s.as_bytes_vec())
    }
}

impl From<&str> for TrackName {
    fn from(s: &str) -> (r: TrackName) {
        TrackName::from_text(s)
    }
}
impl vstd::std_specs::convert::FromSpecImpl<&str> for TrackName {
    open spec fn obeys_from_spec() -> bool {
        false
    }

    open spec fn from_spec(s: &str) -> TrackName {
        arbitrary()
    }
}

impl From<String> for TrackName {
    fn from(s: String) -> (r: TrackName) {
        TrackName::from_text(s.as_str())
    }
}
impl vstd::std_specs::convert::FromSpecImpl<String> for TrackName {
    open spec fn obeys_from_spec() -> bool {
        false
    }

    open spec fn from_spec(s: String) -> TrackName {
        arbitrary()
    }
}

/// Numeric handle of a track published by an endpoint; unique per endpoint.
#[derive(Clone, Copy, Debug, PartialEq, Eq, Structural, Hash)]
pub struct RemoteTrackId(pub u64);

impl From<u64> for RemoteTrackId {
    fn from(v: u64) -> (r: RemoteTrackId)
        ensures
            r.0 == v,
    {
        RemoteTrackId(v)
    }
}
impl vstd::std_specs::convert::FromSpecImpl<u64> for RemoteTrackId {
    open spec fn obeys_from_spec() -> bool {
        true
    }

    open spec fn from_spec(v: u64) -> RemoteTrackId {
        RemoteTrackId(v)
    }
}

/// Numeric handle of a track consumed by an endpoint; unique per endpoint.
#[derive(Clone, Copy, Debug, PartialEq, Eq, Structural, Hash)]
pub struct LocalTrackId(pub u64);

impl From<u64> for LocalTrackId {
    fn from(v: u64) -> (r: LocalTrackId)
        ensures
            r.0 == v,
    {
        LocalTrackId(v)
    }
}
impl vstd::std_specs::convert::FromSpecImpl<u64> for LocalTrackId {
    open spec fn obeys_from_spec() -> bool {
        true
    }

    open spec fn from_spec(v: u64) -> LocalTrackId {
        LocalTrackId(v)
    }
}

/// Opaque metadata a peer carries while joined.
#[derive(Clone, Debug, PartialEq, Eq)]
pub struct PeerMeta {
    pub metadata: Option<Vec<u8>>,
    pub extra_data: Option<Vec<u8>>,
}

/// What a joining peer publishes into the room's directory maps.
#[derive(Clone, Copy, Debug, PartialEq, Eq, Structural)]
pub struct RoomInfoPublish {
    pub peer: bool,
    pub tracks: bool,
}

/// What a joining peer wants to hear about from the room's directory maps.
#[derive(Clone, Copy, Debug, PartialEq, Eq, Structural)]
pub struct RoomInfoSubscribe {
    pub peers: bool,
    pub tracks: bool,
}

/// Kind of media a track carries.
#[derive(Clone, Copy, Debug, PartialEq, Eq, Structural)]
pub enum MediaKind {
    Audio,
    Video,
}

/// Metadata of a published track.
#[derive(Clone, Copy, Debug, PartialEq, Eq, Structural)]
pub struct TrackMeta {
    pub kind: MediaKind,
}

/// One remote track used as an audio-mixer source.
#[derive(Clone, Debug, PartialEq, Eq)]
pub struct TrackSource {
    pub peer: PeerId,
    pub track: TrackName,
}

/// Audio-mixer mode a peer joins with: how many loudest-speaker slots the
/// endpoint renders.
#[derive(Clone, Copy, Debug, PartialEq, Eq, Structural)]
pub struct AudioMixerConfig {
    pub slots: u8,
}

/// Label of a room message channel.
#[derive(Clone, Debug, PartialEq, Eq)]
pub struct MessageChannelLabel(pub Vec<u8>);

impl View for MessageChannelLabel {
    type V = Seq<u8>;

    open spec fn view(&self) -> Seq<u8> {
        self.0@
    }
}

impl MessageChannelLabel {
    pub fn from_text(s: &str) -> (r: MessageChannelLabel)
        ensures
            r@ == s.spec_bytes(),
    {
        MessageChannelLabel(s.as_bytes_vec())
    }
}

impl From<&str> for MessageChannelLabel {
    fn from(s: &str) -> (r: MessageChannelLabel) {
        MessageChannelLabel::from_text(s)
    }
}
impl vstd::std_specs::convert::FromSpecImpl<&str> for MessageChannelLabel {
    open spec fn obeys_from_spec() -> bool {
        false
    }

    open spec fn from_spec(s: &str) -> MessageChannelLabel {
        arbitrary()
    }
}

} // verus!
