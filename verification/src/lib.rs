//! Core of a live audio/video ingestion server.
//!
//! A remote publisher sends one interleaved stream of tagged chunks per
//! session. The library tracks the set of live sessions, derives the
//! filesystem layout (two named pipes and an output directory) for each
//! session, builds the command line of the external transcoder, and routes
//! every inbound chunk to the track it is tagged with, preserving per-track
//! order. All I/O — directory and pipe creation, process spawning, the RPC
//! transport and the pipe writers — lives outside this crate; the logic that
//! decides what that I/O must do is verified here.

pub mod demux;
pub mod errors;
pub mod lifecycle;
pub mod paths;
pub mod registry;
pub mod session;
