//! Cluster media routing core of a distributed WebRTC selective forwarding
//! unit.
//!
//! The crate groups media sessions into rooms, maps track publish/subscribe
//! onto a cluster-wide pub/sub channel space, dispatches signalling requests
//! to edge nodes, and demultiplexes a shared UDP socket onto per-session
//! endpoint tasks.  Everything here is event driven: each component takes
//! inputs through `on_*` methods and hands its effects back through a FIFO
//! drained by `pop_output`.

pub mod alist;
pub mod bytes;
pub mod cluster;
pub mod content_type;
pub mod gateway;
pub mod hash;
pub mod ids;
pub mod imap;
pub mod media;
pub mod media_track;
pub mod protocol;
pub mod publisher;
pub mod room;
pub mod sdn;
pub mod types;
pub mod worker;
