//! Core of a LAN media/audio remote-control server.
//!
//! The library holds the state-distribution core: a session cache with
//! single-flight refresh, a change-detecting monitor step, a broadcast
//! fan-out model, and the JSON command/response protocol. The operating
//! system's audio and media providers, and the network transport, live
//! outside the library and hand it plain values.

pub mod audio;
pub mod cache;
pub mod hub;
pub mod json;
pub mod media;
pub mod message_handler;
pub mod models;
pub mod monitor;
pub mod server;
pub mod thumbnail;
pub mod wire;

use vstd::prelude::*;

verus! {

/// The staleness window of the media-session cache, in milliseconds.
pub const CACHE_MAX_AGE_MS: u64 = 500;

/// The interval the change monitor sleeps between iterations, in milliseconds.
pub const MONITOR_INTERVAL_MS: u64 = 500;

} // verus!
