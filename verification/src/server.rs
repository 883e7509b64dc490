//! The server's side of a connection: the handshake decision and the
//! keep-alive bookkeeping of a session.
//!
//! The transport is plain TCP for now; it must only be used on a trusted LAN.
use vstd::prelude::*;
use vstd::string::StringExecFns;

use crate::codec::CodecError;
use crate::geometry::ScreenInfo;
use crate::layout::Layout;
use crate::message::{ClientMsg, CloseReason, Options, ServerMsg};
use crate::time::{Duration, NANOS_PER_SEC};
use crate::version::{negotiated, protocol_version, spec_protocol_version, Version};

verus! {

/// How many keep-alives may go unanswered before the server drops a client.
pub const KEEPALIVE_MISSES: u32 = 3;

/// How often the server probes each client, and how long each probe may go
/// unanswered: three seconds.
pub fn keepalive_interval() -> (d: Duration)
    ensures
        d.total_nanos() == 3 * NANOS_PER_SEC,
{
    Duration::from_secs(3)
}

/// The result of a handshake attempt.
#[derive(Debug, Clone, PartialEq, Eq)]
pub enum HandshakeOutcome {
    Accepted { screen: ScreenInfo, version: Version },
    Incompatible { remote: Version },
    UnknownScreen(String),
    NameTaken(String),
}

/// Errors that abort a handshake (as opposed to an orderly rejection, which is
/// reported as an `Ok(HandshakeOutcome::*)`).
#[derive(Debug)]
pub enum HandshakeError {
    Codec(CodecError),
    ExpectedHello,
}

/// What the server does with the first message of a connection.
#[derive(Debug)]
pub struct HandshakeReply {
    /// The messages to send back, in order.
    pub replies: Vec<ServerMsg>,
    /// A failure to send the replies is ignored: the connection is dropped
    /// anyway.
    pub best_effort: bool,
    /// How the handshake ended.
    pub outcome: Result<HandshakeOutcome, HandshakeError>,
}

/// How `{:?}` renders a string: quoted, with escapes.
pub uninterp spec fn debug_quoted(s: Seq<char>) -> Seq<char>;

/// `format!("{:?}", s)`: std's `Debug` rendering of a string. Only that the
/// result is a function of the string's characters is claimed; the quoting
/// and escaping rules are std's and are not restated.
#[verifier::external_body]
fn debug_quote(s: &str) -> (q: String)
    ensures
        q@ == debug_quoted(s@),
{
    format!("{:?}", s)
}

/// The reason given to a client whose screen is not configured.
pub open spec fn unknown_screen_reason(name: Seq<char>) -> Seq<char> {
    "no screen named "@ + debug_quoted(name) + " in the server config"@
}

/// The reason given to a client whose screen is already connected.
pub open spec fn name_taken_reason(name: Seq<char>) -> Seq<char> {
    "screen "@ + debug_quoted(name) + " is already connected"@
}

/// `prefix`, the debug rendering of `name`, then `suffix`.
fn quoted_between(prefix: &str, name: &str, suffix: &str) -> (s: String)
    ensures
        s@ == prefix@ + debug_quoted(name@) + suffix@,
{
    let mut s = prefix.to_owned();
    let q = debug_quote(name);
    s.append(q.as_str());
    s.append(suffix);
    s
}

/// The server's handshake step: given the client's first message, the
/// replies to send and the outcome. A client is accepted when it says `Hello`
/// with a version of the server's major, names a configured screen, and that
/// name is not taken; it is then sent `Welcome` and the options.
pub fn server_handshake_reply<F: Fn(&str) -> bool>(
    hello: ClientMsg,
    layout: &Layout,
    options: &Options,
    keepalive: Duration,
    name_taken: F,
) -> (r: HandshakeReply)
    requires
        forall|s: &str| name_taken.requires((s,)),
    ensures
        match hello {
            ClientMsg::Hello { version, screen } => {
                &&& !r.best_effort
                &&& match negotiated(spec_protocol_version(), version) {
                    None => {
                        &&& r.replies@ == seq![
                            ServerMsg::Incompatible { server_version: spec_protocol_version() },
                        ]
                        &&& r.outcome matches Ok(HandshakeOutcome::Incompatible { remote })
                        &&& remote == version
                    },
                    Some(v) => if !layout.screen_names().contains(screen.name@) {
                        &&& r.replies@.len() == 1
                        &&& r.replies@[0] matches ServerMsg::Rejected { reason }
                        &&& reason@ == unknown_screen_reason(screen.name@)
                        &&& r.outcome matches Ok(HandshakeOutcome::UnknownScreen(n))
                        &&& n == screen.name
                    } else {
                        ||| {
                            &&& exists|s: &str| s@ == screen.name@ && name_taken.ensures((s,), true)
                            &&& r.replies@.len() == 1
                            &&& r.replies@[0] matches ServerMsg::Rejected { reason }
                            &&& reason@ == name_taken_reason(screen.name@)
                            &&& r.outcome matches Ok(HandshakeOutcome::NameTaken(n))
                            &&& n == screen.name
                        }
                        ||| {
                            &&& exists|s: &str| s@ == screen.name@ && name_taken.ensures((s,), false)
                            &&& r.replies@ == seq![
                                ServerMsg::Welcome { version: v, keepalive },
                                ServerMsg::SetOptions(*options),
                            ]
                            &&& r.outcome matches Ok(HandshakeOutcome::Accepted { screen: s, version: w })
                            &&& s == screen
                            &&& w == v
                        }
                    },
                }
            },
            _ => {
                &&& r.best_effort
                &&& r.replies@ == seq![ServerMsg::Close(CloseReason::ProtocolError)]
                &&& r.outcome matches Err(HandshakeError::ExpectedHello)
            },
        },
{
    let (version, screen) = match hello {
        ClientMsg::Hello { version, screen } => (version, screen),
        _ => {
            let mut replies: Vec<ServerMsg> = Vec::new();
            replies.push(ServerMsg::Close(CloseReason::ProtocolError));
            assert(replies@ =~= seq![ServerMsg::Close(CloseReason::ProtocolError)]);
            return HandshakeReply {
                replies,
                best_effort: true,
                outcome: Err(HandshakeError::ExpectedHello),
            };
        },
    };
    let negotiated_version = match protocol_version().negotiate(version) {
        Ok(v) => v,
        Err(_) => {
            let mut replies: Vec<ServerMsg> = Vec::new();
            replies.push(ServerMsg::Incompatible { server_version: protocol_version() });
            assert(replies@ =~= seq![
                ServerMsg::Incompatible { server_version: spec_protocol_version() },
            ]);
            return HandshakeReply {
                replies,
                best_effort: false,
                outcome: Ok(HandshakeOutcome::Incompatible { remote: version }),
            };
        },
    };
    if !layout.has_screen(screen.name.as_str()) {
        let reason = quoted_between("no screen named ", screen.name.as_str(), " in the server config");
        let mut replies: Vec<ServerMsg> = Vec::new();
        replies.push(ServerMsg::Rejected { reason });
        return HandshakeReply {
            replies,
            best_effort: false,
            outcome: Ok(HandshakeOutcome::UnknownScreen(screen.name)),
        };
    }
    let taken = name_taken(screen.name.as_str());
    if taken {
        let reason = quoted_between("screen ", screen.name.as_str(), " is already connected");
        let mut replies: Vec<ServerMsg> = Vec::new();
        replies.push(ServerMsg::Rejected { reason });
        return HandshakeReply {
            replies,
            best_effort: false,
            outcome: Ok(HandshakeOutcome::NameTaken(screen.name)),
        };
    }
    let mut replies: Vec<ServerMsg> = Vec::new();
    replies.push(ServerMsg::Welcome { version: negotiated_version, keepalive });
    replies.push(ServerMsg::SetOptions(*options));
    assert(replies@ =~= seq![
        ServerMsg::Welcome { version: negotiated_version, keepalive },
        ServerMsg::SetOptions(*options),
    ]);
    HandshakeReply {
        replies,
        best_effort: false,
        outcome: Ok(HandshakeOutcome::Accepted { screen, version: negotiated_version }),
    }
}

/// What the session does when its keep-alive timer fires.
#[derive(Debug, Clone, Copy, PartialEq, Eq, Structural)]
pub enum TickAction {
    /// Send a keep-alive and keep going.
    Probe,
    /// Send `Close(Timeout)` and end the session with an error:
    /// `KEEPALIVE_MISSES` probes in a row each went a whole interval
    /// unanswered.
    Timeout,
}

/// What the session does with the result of a receive.
#[derive(Debug)]
pub enum ReceiveAction {
    /// Any message from the client proves it alive; keep going.
    Continue,
    /// The client closed the connection cleanly; end the session.
    Closed,
    /// The stream failed; end the session with this error.
    Failed(CodecError),
}

/// Keep-alive bookkeeping of one client session.
#[derive(Debug, Clone, Copy)]
pub struct ServerSession {
    missed: u32,
}

impl ServerSession {
    #[verifier::type_invariant]
    spec fn missed_within_limit(self) -> bool {
        self.missed <= KEEPALIVE_MISSES
    }

    /// Probes sent since the client was last heard from.
    pub closed spec fn outstanding(self) -> u32 {
        self.missed
    }

    pub fn new() -> (s: ServerSession)
        ensures
            s.outstanding() == 0,
    {
        ServerSession { missed: 0 }
    }

    /// The keep-alive timer fired. While fewer than `KEEPALIVE_MISSES` probes
    /// are outstanding, one more is sent; once that many have each had a whole
    /// interval to be answered and none was, the session times out.
    pub fn on_tick(&mut self) -> (a: TickAction)
        ensures
            final(self).outstanding() == after_tick(old(self).outstanding()),
            a == (if old(self).outstanding() >= KEEPALIVE_MISSES {
                TickAction::Timeout
            } else {
                TickAction::Probe
            }),
    {
        proof {
            use_type_invariant(&*self);
        }
        if self.missed >= KEEPALIVE_MISSES {
            TickAction::Timeout
        } else {
            self.missed = self.missed + 1;
            TickAction::Probe
        }
    }

    /// A receive finished: any message resets the count of outstanding
    /// probes; a clean close ends the session; a stream error fails it.
    pub fn on_receive(&mut self, received: Result<ClientMsg, CodecError>) -> (a: ReceiveAction)
        ensures
            match received {
                Ok(_) => final(self).outstanding() == 0 && a is Continue,
                Err(CodecError::Closed) => final(self).outstanding() == old(self).outstanding()
                    && a is Closed,
                Err(e) => final(self).outstanding() == old(self).outstanding() && a == ReceiveAction::Failed(e),
            },
    {
        match received {
            Ok(_) => {
                self.missed = 0;
                ReceiveAction::Continue
            },
            Err(CodecError::Closed) => ReceiveAction::Closed,
            Err(e) => ReceiveAction::Failed(e),
        }
    }
}

/// The probes outstanding after one more timer tick.
pub open spec fn after_tick(outstanding: u32) -> u32 {
    if outstanding < KEEPALIVE_MISSES {
        (outstanding + 1) as u32
    } else {
        KEEPALIVE_MISSES
    }
}

/// The probes outstanding after `n` timer ticks with nothing heard.
pub open spec fn after_ticks(outstanding: u32, n: nat) -> u32
    decreases n,
{
    if n == 0 {
        outstanding
    } else {
        after_tick(after_ticks(outstanding, (n - 1) as nat))
    }
}

/// A session that hears nothing from its client after hearing from it sends
/// a probe on each of the first `KEEPALIVE_MISSES` timer ticks, and times out
/// on the next one, a whole interval after the last probe: the tick after
/// `n` silent ticks times out exactly when `n >= KEEPALIVE_MISSES`.
pub proof fn lemma_timeout_after_misses(n: nat)
    ensures
        after_ticks(0, n) == (if n <= KEEPALIVE_MISSES {
            n
        } else {
            KEEPALIVE_MISSES as nat
        }),
        after_ticks(0, n) >= KEEPALIVE_MISSES <==> n >= KEEPALIVE_MISSES,
    decreases n,
{
    if n > 0 {
        lemma_timeout_after_misses((n - 1) as nat);
    }
}

} // verus!
