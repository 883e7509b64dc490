//! GeserDesk: a software KVM. One keyboard and mouse drive several computers
//! over the local network.
//!
//! * [`version`]   -- protocol version and negotiation
//! * [`geometry`]  -- screen rectangles and edges
//! * [`input`]     -- key and mouse event payloads
//! * [`clipboard`] -- clipboard identifiers and chunked transfer
//! * [`time`]      -- spans of time carried in messages
//! * [`message`]   -- the [`ClientMsg`] / [`ServerMsg`] enums
//! * [`codec`]     -- length-prefixed framing
//! * [`layout`]    -- screen adjacency and the switch policy
//! * [`config`]    -- checking the server configuration
//! * [`server`]    -- the server's handshake decision and keep-alive bookkeeping
//! * [`client`]    -- the client's handshake checks and message routing
//! * [`inject`]    -- input sinks and injection planning
#![allow(unused_imports)]

use vstd::prelude::*;

pub mod client;
pub mod clipboard;
pub mod codec;
pub mod config;
pub mod geometry;
pub mod inject;
pub mod input;
pub mod layout;
pub mod message;
pub mod server;
pub mod time;
pub mod version;

pub use clipboard::{Chunk, ChunkAssembler, ChunkError, ClipboardId, CHUNK_SIZE};
pub use client::{ClientConfig, ConnectError, Connected};
pub use codec::{CodecError, MessageStream, DEFAULT_MAX_FRAME};
pub use config::{Config, ConfigError};
pub use geometry::{Edge, EdgeSet, Point, Rect, ScreenInfo};
pub use inject::{InputSink, NullSink, RecordingSink};
pub use input::{Button, KeyAction, KeyEvent, ModMask, MouseEvent};
pub use layout::{Decision, Layout, LinkError, SwitchPolicy, SwitchState};
pub use message::{ClientMsg, CloseReason, Options, ServerMsg};
pub use server::{HandshakeError, HandshakeOutcome, KEEPALIVE_MISSES};
pub use time::Duration;
pub use version::{protocol_version, Version, VersionError};
