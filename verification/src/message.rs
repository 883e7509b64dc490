//! The two top-level message enums.
//!
//! The **server** (a.k.a. primary) owns the physical keyboard/mouse;
//! **clients** (secondary) receive synthesized input.
use vstd::prelude::*;

use crate::clipboard::{Chunk, ClipboardId};
use crate::geometry::ScreenInfo;
use crate::input::{KeyEvent, ModMask, MouseEvent};
use crate::time::Duration;
use crate::version::Version;

verus! {

/// Messages sent by a client to the server.
#[derive(Debug, Clone, PartialEq, Eq)]
pub enum ClientMsg {
    /// First message on the wire. Advertises the client's protocol version and
    /// screen. The server replies with [`ServerMsg::Welcome`] or
    /// [`ServerMsg::Incompatible`].
    Hello { version: Version, screen: ScreenInfo },
    /// Sent when the client's resolution or monitor arrangement changes.
    ScreenChanged(ScreenInfo),
    /// The client's local clipboard was updated by some app; the server should
    /// consider the client the owner of `id` as of `seq`.
    ClipboardGrab { id: ClipboardId, seq: u64 },
    /// A chunk of clipboard contents the server asked for.
    ClipboardData { id: ClipboardId, seq: u64, chunk: Chunk },
    /// Offer to send a file (drag-and-drop from the client).
    FileOffer { name: String, size: u64 },
    /// A chunk of an in-progress file transfer.
    FileChunk(Chunk),
    /// Reply to [`ServerMsg::KeepAlive`].
    KeepAlive,
}

/// Messages sent by the server to a client.
#[derive(Debug, Clone, PartialEq, Eq)]
pub enum ServerMsg {
    /// Handshake accepted.
    Welcome {
        /// The negotiated protocol version (same major, lower minor).
        version: Version,
        /// How often the server will send [`ServerMsg::KeepAlive`].
        keepalive: Duration,
    },
    /// Handshake rejected: protocol majors differ.
    Incompatible { server_version: Version },
    /// Handshake rejected: no screen named as this client is in the config, or
    /// another client already holds that name.
    Rejected { reason: String },
    /// The cursor has entered this client's screen at `(x, y)` (absolute, in the
    /// client's own coordinate space). `seq` orders messages across screens;
    /// `toggle_mods` tells the client which lock keys should be active on entry.
    Enter { x: i32, y: i32, seq: u64, toggle_mods: ModMask },
    /// The cursor has left this client's screen. The client should release all
    /// held keys/buttons and send clipboard data for any selection it grabbed.
    Leave,
    Key(KeyEvent),
    Mouse(MouseEvent),
    /// The server (or another screen) grabbed a clipboard.
    ClipboardGrab { id: ClipboardId, seq: u64 },
    /// A chunk of clipboard contents for the client to apply locally.
    ClipboardData { id: ClipboardId, seq: u64, chunk: Chunk },
    FileOffer { name: String, size: u64 },
    FileChunk(Chunk),
    /// Push a new set of runtime options.
    SetOptions(Options),
    /// The server is closing the connection.
    Close(CloseReason),
    /// Liveness probe; the client must reply with [`ClientMsg::KeepAlive`].
    KeepAlive,
}

/// Why the server closed a connection.
#[derive(Debug, Clone, Copy, PartialEq, Eq, Structural)]
pub enum CloseReason {
    /// Orderly shutdown of the server.
    ServerShutdown,
    /// The client missed too many keep-alives.
    Timeout,
    /// A protocol violation was detected.
    ProtocolError,
    /// The screen was removed from the configuration.
    Reconfigured,
}

/// The human-readable text for a close reason.
pub open spec fn close_reason_text(r: CloseReason) -> Seq<char> {
    match r {
        CloseReason::ServerShutdown => "server shutdown"@,
        CloseReason::Timeout => "keep-alive timeout"@,
        CloseReason::ProtocolError => "protocol error"@,
        CloseReason::Reconfigured => "screen reconfigured"@,
    }
}

/// Every close reason has a text of its own, and none is empty, so a reader
/// of the text can tell the reasons apart.
pub proof fn lemma_close_reasons_have_own_texts(a: CloseReason, b: CloseReason)
    ensures
        close_reason_text(a) == close_reason_text(b) ==> a == b,
        close_reason_text(a).len() > 0,
{
    reveal_strlit("server shutdown");
    reveal_strlit("keep-alive timeout");
    reveal_strlit("protocol error");
    reveal_strlit("screen reconfigured");
}

impl CloseReason {
    /// The human-readable text for this reason.
    pub fn to_string(&self) -> (s: String)
        ensures
            s@ == close_reason_text(*self),
    {
        let text = match self {
            CloseReason::ServerShutdown => "server shutdown",
            CloseReason::Timeout => "keep-alive timeout",
            CloseReason::ProtocolError => "protocol error",
            CloseReason::Reconfigured => "screen reconfigured",
        };
        text.to_owned()
    }
}

/// Runtime options the server pushes to clients.
#[derive(Debug, Clone, Copy, PartialEq, Eq, Structural)]
pub struct Options {
    /// Whether clipboard contents are shared at all.
    pub clipboard_sharing: bool,
    /// Cap on a single shared clipboard payload, in bytes (0 = unlimited).
    pub clipboard_max_bytes: u64,
    /// Whether Scroll Lock pins the cursor to the active screen.
    pub scroll_lock_locks: bool,
    /// Sync the screensaver across machines.
    pub screensaver_sync: bool,
    /// Send relative mouse motion instead of absolute while on a client.
    pub relative_mouse_moves: bool,
}

/// The options in force when nothing says otherwise: clipboard shared with no
/// cap, Scroll Lock pins the cursor, no screensaver sync, relative moves.
pub open spec fn default_options() -> Options {
    Options {
        clipboard_sharing: true,
        clipboard_max_bytes: 0,
        scroll_lock_locks: true,
        screensaver_sync: false,
        relative_mouse_moves: true,
    }
}

impl Default for Options {
    fn default() -> (o: Options)
        ensures
            o == default_options(),
    {
        Options {
            clipboard_sharing: true,
            clipboard_max_bytes: 0,
            scroll_lock_locks: true,
            screensaver_sync: false,
            relative_mouse_moves: true,
        }
    }
}

} // verus!
