//! The client's side of a connection: the handshake checks and the routing
//! of server messages during a session.
//!
//! Plain TCP for now; on a trusted LAN only.
use vstd::prelude::*;

use crate::codec::CodecError;
use crate::geometry::{half_toward_zero, Point, Rect, ScreenInfo};
use crate::input::{KeyEvent, MouseEvent};
use crate::message::{ClientMsg, CloseReason, ServerMsg};
use crate::time::{Duration, NANOS_PER_SEC};
use crate::version::{protocol_version, spec_protocol_version, Version};

verus! {

/// What the client needs to know to connect.
#[derive(Debug, Clone)]
pub struct ClientConfig {
    /// `host:port` of the server.
    pub server: String,
    /// This machine's screen name; must match the server config.
    pub name: String,
    /// Full desktop bounds.
    pub bounds: Rect,
}

impl ClientConfig {
    /// The screen this client announces: its name, its bounds, and the
    /// cursor at the centre of the bounds.
    pub fn screen_info(&self) -> (s: ScreenInfo)
        requires
            i32::MIN <= self.bounds.x + half_toward_zero(self.bounds.w as int) <= i32::MAX,
            i32::MIN <= self.bounds.y + half_toward_zero(self.bounds.h as int) <= i32::MAX,
        ensures
            s.name@ == self.name@,
            s.bounds == self.bounds,
            s.cursor == (Point {
                x: (self.bounds.x + half_toward_zero(self.bounds.w as int)) as i32,
                y: (self.bounds.y + half_toward_zero(self.bounds.h as int)) as i32,
            }),
    {
        ScreenInfo { name: self.name.clone(), bounds: self.bounds, cursor: self.bounds.center() }
    }
}

/// A successful handshake: the negotiated version and the server's keep-alive
/// interval.
#[derive(Debug, Clone, Copy, PartialEq, Eq, Structural)]
pub struct Connected {
    pub version: Version,
    pub keepalive: Duration,
}

/// Handshake failures.
#[derive(Debug)]
pub enum ConnectError {
    Connect { server: String, source: std::io::Error },
    Codec(CodecError),
    Incompatible(Version),
    Rejected(String),
    Unexpected(&'static str),
}

/// The first message a client sends: this build's version and its screen.
pub fn client_hello(screen: &ScreenInfo) -> (m: ClientMsg)
    ensures
        m == (ClientMsg::Hello { version: spec_protocol_version(), screen: *screen }),
{
    ClientMsg::Hello { version: protocol_version(), screen: screen.clone() }
}

/// Check the server's first reply: `Welcome` connects; `Incompatible` and
/// `Rejected` are refusals; anything else breaks the handshake.
pub fn check_first_reply(reply: ServerMsg) -> (r: Result<Connected, ConnectError>)
    ensures
        match reply {
            ServerMsg::Welcome { version, keepalive } => r == Ok::<Connected, ConnectError>(
                Connected { version, keepalive },
            ),
            ServerMsg::Incompatible { server_version } => r == Err::<Connected, ConnectError>(
                ConnectError::Incompatible(server_version),
            ),
            ServerMsg::Rejected { reason } => r == Err::<Connected, ConnectError>(
                ConnectError::Rejected(reason),
            ),
            _ => r matches Err(ConnectError::Unexpected(what)) && what@ == "first reply"@,
        },
{
    match reply {
        ServerMsg::Welcome { version, keepalive } => Ok(Connected { version, keepalive }),
        ServerMsg::Incompatible { server_version } => Err(ConnectError::Incompatible(server_version)),
        ServerMsg::Rejected { reason } => Err(ConnectError::Rejected(reason)),
        _ => Err(ConnectError::Unexpected("first reply")),
    }
}

/// Check the server's second reply, which must be the options.
pub fn check_second_reply(reply: ServerMsg) -> (r: Result<(), ConnectError>)
    ensures
        reply is SetOptions <==> r is Ok,
        r matches Err(e) ==> e matches ConnectError::Unexpected(what) && what@
            == "expected SetOptions"@,
{
    match reply {
        ServerMsg::SetOptions(_) => Ok(()),
        _ => Err(ConnectError::Unexpected("expected SetOptions")),
    }
}

/// How long the client waits for any message before it deems the link dead:
/// three keep-alive intervals, at least five seconds.
pub fn silence_timeout(keepalive: Duration) -> (d: Duration)
    ensures
        d.total_nanos() == ({
            let tripled = if keepalive.total_nanos() * 3 <= crate::time::max_duration_nanos() {
                keepalive.total_nanos() * 3
            } else {
                crate::time::max_duration_nanos()
            };
            if tripled <= 5 * NANOS_PER_SEC {
                5 * NANOS_PER_SEC
            } else {
                tripled
            }
        }),
{
    keepalive.saturating_mul(3).max(Duration::from_secs(5))
}

/// What a client session does with one server message.
#[derive(Debug)]
pub enum SessionAction {
    /// Send this reply to the server.
    Reply(ClientMsg),
    /// Tell the input sink the cursor entered at this point.
    Enter(Point),
    /// Tell the input sink the cursor left.
    Leave,
    /// Hand a key event to the input sink.
    Key(KeyEvent),
    /// Hand a mouse event to the input sink.
    Mouse(MouseEvent),
    /// The server closed the connection; end the session.
    Stop(CloseReason),
    /// Nothing to do.
    Ignore,
}

/// What a client session does with a server message: keep-alives are
/// answered, input goes to the sink, `Close` ends the session, everything else
/// is ignored for now.
pub open spec fn routed(msg: ServerMsg) -> SessionAction {
    match msg {
        ServerMsg::KeepAlive => SessionAction::Reply(ClientMsg::KeepAlive),
        ServerMsg::Enter { x, y, .. } => SessionAction::Enter(Point { x, y }),
        ServerMsg::Leave => SessionAction::Leave,
        ServerMsg::Key(ev) => SessionAction::Key(ev),
        ServerMsg::Mouse(ev) => SessionAction::Mouse(ev),
        ServerMsg::Close(reason) => SessionAction::Stop(reason),
        _ => SessionAction::Ignore,
    }
}

/// Routing hands the input sink exactly what the server sent: a key or
/// mouse action carries the message's own event, unchanged; an enter carries
/// the message's coordinates; a stop carries the message's reason; and a
/// keep-alive, and only a keep-alive, is answered, with a keep-alive.
pub proof fn lemma_route_delivers_unchanged(msg: ServerMsg)
    ensures
        routed(msg) matches SessionAction::Key(e) ==> msg == ServerMsg::Key(e),
        routed(msg) matches SessionAction::Mouse(e) ==> msg == ServerMsg::Mouse(e),
        routed(msg) matches SessionAction::Enter(p) ==> (msg matches ServerMsg::Enter { x, y, .. }
            && p == Point { x, y }),
        routed(msg) matches SessionAction::Stop(r) ==> msg == ServerMsg::Close(r),
        routed(msg) is Leave <==> msg is Leave,
        routed(msg) is Reply <==> msg is KeepAlive,
        routed(msg) matches SessionAction::Reply(m) ==> m == ClientMsg::KeepAlive,
        msg matches ServerMsg::Key(e) ==> routed(msg) == SessionAction::Key(e),
        msg matches ServerMsg::Mouse(e) ==> routed(msg) == SessionAction::Mouse(e),
        msg matches ServerMsg::Close(r) ==> routed(msg) == SessionAction::Stop(r),
        msg matches ServerMsg::Enter { x, y, .. } ==> routed(msg) == SessionAction::Enter(
            Point { x, y },
        ),
{
}

/// Route a server message: keep-alives are answered, input goes to the sink,
/// `Close` ends the session, everything else is ignored for now.
pub fn route(msg: ServerMsg) -> (a: SessionAction)
    ensures
        a == routed(msg),
{
    match msg {
        ServerMsg::KeepAlive => SessionAction::Reply(ClientMsg::KeepAlive),
        ServerMsg::Enter { x, y, .. } => SessionAction::Enter(Point::new(x, y)),
        ServerMsg::Leave => SessionAction::Leave,
        ServerMsg::Key(ev) => SessionAction::Key(ev),
        ServerMsg::Mouse(ev) => SessionAction::Mouse(ev),
        ServerMsg::Close(reason) => SessionAction::Stop(reason),
        _ => SessionAction::Ignore,
    }
}

/// What a client session does with the result of waiting for a server
/// message.
#[derive(Debug)]
pub enum ReceiveStep {
    /// A message arrived; act on it.
    Act(SessionAction),
    /// Nothing arrived within the silence timeout: the link is deemed dead
    /// and the session ends without an error.
    Silent,
    /// The server closed the connection cleanly; the session ends without an
    /// error.
    Closed,
    /// The stream failed; the session ends with this error.
    Failed(CodecError),
}

/// Decide what to do with the result of waiting for a server message:
/// `None` when the silence timeout passed first, else what the receive gave.
/// A message is routed; silence and a clean close end the session quietly;
/// any other failure ends it with that error.
pub fn on_receive(received: Option<Result<ServerMsg, CodecError>>) -> (step: ReceiveStep)
    ensures
        match received {
            None => step is Silent,
            Some(Ok(msg)) => step == ReceiveStep::Act(routed(msg)),
            Some(Err(CodecError::Closed)) => step is Closed,
            Some(Err(e)) => step == ReceiveStep::Failed(e),
        },
{
    match received {
        None => ReceiveStep::Silent,
        Some(Ok(msg)) => ReceiveStep::Act(route(msg)),
        Some(Err(CodecError::Closed)) => ReceiveStep::Closed,
        Some(Err(e)) => ReceiveStep::Failed(e),
    }
}

} // verus!
