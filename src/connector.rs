//! The client connector: the decisions of the loop that holds a WebSocket to
//! the relay server open, replays what arrives, keeps the connection alive and
//! reconnects after a failure. The loop itself, which performs each action and
//! reports each event, runs outside this crate.
use vstd::prelude::*;

use base64::Engine;

use crate::codec::{decode_message, decode_outcome, msgpack_decoding, DecodeError};
use crate::envelope::RequestMessage;
use crate::text::concat3;

verus! {

/// Seconds between a failure and the next connection attempt.
pub const RETRY_DELAY_SECS: u64 = 5;

/// Seconds between two keep-alive pings of an idle connection.
pub const KEEPALIVE_INTERVAL_SECS: u64 = 20;

/// The payload of every keep-alive ping.
pub open spec fn keepalive_payload() -> Seq<u8> {
    seq![5u8, 4u8, 3u8, 2u8, 1u8]
}

/// The payload of every keep-alive ping.
pub fn keepalive_ping() -> (r: Vec<u8>)
    ensures
        r@ == keepalive_payload(),
{
    let r: Vec<u8> = vec![5u8, 4u8, 3u8, 2u8, 1u8];
    assert(r@ =~= keepalive_payload());
    r
}

/// The standard base64 alphabet (RFC 4648, table 1).
pub open spec fn base64_alphabet() -> Seq<char> {
    "ABCDEFGHIJKLMNOPQRSTUVWXYZabcdefghijklmnopqrstuvwxyz0123456789+/"@
}

/// The character for the six-bit value `v`.
pub open spec fn base64_digit(v: int) -> char {
    base64_alphabet()[v]
}

/// The padded standard base64 text of some bytes: each group of three bytes
/// gives four characters; a last group of one or two bytes gives two or three
/// characters followed by `=` padding up to four.
pub open spec fn base64_standard(bytes: Seq<u8>) -> Seq<char>
    decreases bytes.len(),
{
    if bytes.len() == 0 {
        Seq::empty()
    } else if bytes.len() == 1 {
        let a = bytes[0] as int;
        seq![base64_digit(a / 4), base64_digit((a % 4) * 16), '=', '=']
    } else if bytes.len() == 2 {
        let a = bytes[0] as int;
        let b = bytes[1] as int;
        seq![base64_digit(a / 4), base64_digit((a % 4) * 16 + b / 16), base64_digit((b % 16) * 4), '=']
    } else {
        let a = bytes[0] as int;
        let b = bytes[1] as int;
        let c = bytes[2] as int;
        seq![
            base64_digit(a / 4),
            base64_digit((a % 4) * 16 + b / 16),
            base64_digit((b % 16) * 4 + c / 64),
            base64_digit(c % 64),
        ] + base64_standard(bytes.subrange(3, bytes.len() as int))
    }
}

/// Relies on base64's `STANDARD.encode`: the padded standard base64 text of
/// the bytes. It panics only where the text's
/// length overflows `usize`.
#[verifier::external_body]
fn base64_encode(bytes: &[u8]) -> (r: String)
    requires
        bytes@.len() / 3 * 4 + 4 <= usize::MAX,
    ensures
        r@ == base64_standard(bytes@),
{
    base64::engine::general_purpose::STANDARD.encode(bytes)
}

/// The value of an `Authorization` header that carries already encoded Basic
/// credentials.
pub fn basic_authorization(encoded: &str) -> (r: String)
    ensures
        r@ == "Basic "@ + encoded@,
{
    let mut s = String::from_str("Basic ");
    s.append(encoded);
    s
}

/// The value of the `Authorization` header of an upgrade: Basic credentials
/// whose user name is the client's version and whose password is the shared
/// secret.
pub fn authorization_header(version: &str, secret: &str) -> (r: String)
    requires
        vstd::utf8::encode_utf8(version@ + ":"@ + secret@).len() <= usize::MAX / 2,
    ensures
        r@ == "Basic "@ + base64_standard(vstd::utf8::encode_utf8(version@ + ":"@ + secret@)),
{
    let credential = concat3(version, ":", secret);
    let bytes = credential.as_str().as_bytes();
    let encoded = base64_encode(bytes);
    basic_authorization(encoded.as_str())
}

/// Where the connector stands.
#[derive(Clone, Copy, Debug, PartialEq, Eq, Structural)]
pub enum ConnectorState {
    /// Not started.
    Idle,
    /// A connection attempt is under way.
    Connecting,
    /// The WebSocket is open.
    Connected,
    /// Waiting for the retry delay after a failure.
    Reconnecting,
    /// Finished: nothing more is attempted.
    Stopped,
}

/// What the loop around the connector observed.
#[derive(Clone, Debug)]
pub enum ConnectorEvent {
    /// The run begins.
    Start,
    /// The WebSocket upgrade succeeded.
    Opened,
    /// A binary frame arrived, with its payload.
    Binary(Vec<u8>),
    /// The server sent a close frame.
    Close,
    /// Some other frame arrived (text, ping, pong).
    OtherFrame,
    /// The keep-alive timer fired.
    KeepAliveTick,
    /// The retry delay has passed.
    RetryElapsed,
    /// Connecting, sending, receiving or the transport failed.
    Failed,
    /// The process was asked to shut down.
    Shutdown,
}

/// What the loop around the connector is to do next.
#[derive(Clone, Debug)]
pub enum ConnectorAction {
    /// Nothing.
    Nothing,
    /// Open the WebSocket, with the `Authorization` header of the upgrade.
    Connect,
    /// Replay the envelope against the local origin, without waiting for it.
    Forward(RequestMessage),
    /// Send a ping with this payload.
    SendPing(Vec<u8>),
    /// Wait this many seconds, or until shutdown, then report `RetryElapsed`.
    WaitRetry(u64),
    /// Close the WebSocket cleanly and end the run.
    CloseAndStop,
    /// End the run.
    Stop,
}

/// The state of one run of the connect command.
#[derive(Clone, Copy, Debug)]
pub struct Connector {
    pub state: ConnectorState,
    /// How many connection attempts were made (for information only).
    pub attempts: u64,
}

/// The state after event `e` in state `s`.
pub open spec fn next_state(s: ConnectorState, e: ConnectorEvent) -> ConnectorState {
    match e {
        ConnectorEvent::Shutdown => ConnectorState::Stopped,
        ConnectorEvent::Start => if s == ConnectorState::Idle {
            ConnectorState::Connecting
        } else {
            s
        },
        ConnectorEvent::Opened => if s == ConnectorState::Connecting {
            ConnectorState::Connected
        } else {
            s
        },
        ConnectorEvent::Failed => if s == ConnectorState::Connecting || s
            == ConnectorState::Connected {
            ConnectorState::Reconnecting
        } else {
            s
        },
        ConnectorEvent::RetryElapsed => if s == ConnectorState::Reconnecting {
            ConnectorState::Connecting
        } else {
            s
        },
        ConnectorEvent::Close => if s == ConnectorState::Connected {
            ConnectorState::Stopped
        } else {
            s
        },
        ConnectorEvent::Binary(b) => if s == ConnectorState::Connected && decode_outcome(
            msgpack_decoding(b@),
        ) is Some {
            ConnectorState::Reconnecting
        } else {
            s
        },
        ConnectorEvent::OtherFrame => s,
        ConnectorEvent::KeepAliveTick => s,
    }
}

/// Whether `a` is the action for event `e` in state `s`.
pub open spec fn action_fits(s: ConnectorState, e: ConnectorEvent, a: ConnectorAction) -> bool {
    match e {
        ConnectorEvent::Shutdown => if s == ConnectorState::Connected {
            a is CloseAndStop
        } else if s == ConnectorState::Stopped {
            a is Nothing
        } else {
            a is Stop
        },
        ConnectorEvent::Start => if s == ConnectorState::Idle {
            a is Connect
        } else {
            a is Nothing
        },
        ConnectorEvent::Opened => a is Nothing,
        ConnectorEvent::Failed => if s == ConnectorState::Connecting || s
            == ConnectorState::Connected {
            a == ConnectorAction::WaitRetry(RETRY_DELAY_SECS)
        } else {
            a is Nothing
        },
        ConnectorEvent::RetryElapsed => if s == ConnectorState::Reconnecting {
            a is Connect
        } else {
            a is Nothing
        },
        ConnectorEvent::Close => if s == ConnectorState::Connected {
            a is CloseAndStop
        } else {
            a is Nothing
        },
        ConnectorEvent::Binary(b) => if s == ConnectorState::Connected {
            match decode_outcome(msgpack_decoding(b@)) {
                None => a matches ConnectorAction::Forward(m) && Some(m.parts()) == msgpack_decoding(b@)
                    && m.wf(),
                Some(_) => a == ConnectorAction::WaitRetry(RETRY_DELAY_SECS),
            }
        } else {
            a is Nothing
        },
        ConnectorEvent::OtherFrame => a is Nothing,
        ConnectorEvent::KeepAliveTick => if s == ConnectorState::Connected {
            a matches ConnectorAction::SendPing(p) && p@ == keepalive_payload()
        } else {
            a is Nothing
        },
    }
}

/// The attempt count after event `e` in state `s`: one more for each attempt
/// begun, held at its largest value.
pub open spec fn attempts_after(s: ConnectorState, e: ConnectorEvent, attempts: u64) -> u64 {
    if next_state(s, e) == ConnectorState::Connecting && s != ConnectorState::Connecting
        && attempts < u64::MAX {
        (attempts + 1) as u64
    } else {
        attempts
    }
}

impl Connector {
    /// A connector that has not started.
    pub fn new() -> (r: Connector)
        ensures
            r.state == ConnectorState::Idle,
            r.attempts == 0,
    {
        Connector { state: ConnectorState::Idle, attempts: 0 }
    }

    fn begin_attempt(&mut self)
        ensures
            final(self).state == ConnectorState::Connecting,
            final(self).attempts == (if old(self).attempts < u64::MAX {
                (old(self).attempts + 1) as u64
            } else {
                old(self).attempts
            }),
    {
        self.state = ConnectorState::Connecting;
        if self.attempts < u64::MAX {
            self.attempts = self.attempts + 1;
        }
    }

    /// The decision for a decoded binary frame: forward the envelope, or, for
    /// bytes that are no envelope, drop the connection and retry.
    pub fn on_decoded(&mut self, decoded: Result<RequestMessage, DecodeError>) -> (r:
        ConnectorAction)
        ensures
            old(self).state != ConnectorState::Connected ==> r is Nothing && *final(self) == *old(
                self,
            ),
            old(self).state == ConnectorState::Connected ==> match decoded {
                Ok(m) => r == ConnectorAction::Forward(m) && *final(self) == *old(self),
                Err(_) => r == ConnectorAction::WaitRetry(RETRY_DELAY_SECS) && final(self).state
                    == ConnectorState::Reconnecting && final(self).attempts == old(self).attempts,
            },
    {
        if self.state != ConnectorState::Connected {
            return ConnectorAction::Nothing;
        }
        match decoded {
            Ok(m) => ConnectorAction::Forward(m),
            Err(_) => {
                self.state = ConnectorState::Reconnecting;
                ConnectorAction::WaitRetry(RETRY_DELAY_SECS)
            },
        }
    }

    /// Takes one event and says what to do next.
    pub fn step(&mut self, event: ConnectorEvent) -> (r: ConnectorAction)
        ensures
            final(self).state == next_state(old(self).state, event),
            final(self).attempts == attempts_after(old(self).state, event, old(self).attempts),
            action_fits(old(self).state, event, r),
    {
        match event {
            ConnectorEvent::Shutdown => {
                let was = self.state;
                self.state = ConnectorState::Stopped;
                match was {
                    ConnectorState::Connected => ConnectorAction::CloseAndStop,
                    ConnectorState::Stopped => ConnectorAction::Nothing,
                    _ => ConnectorAction::Stop,
                }
            },
            ConnectorEvent::Start => {
                if self.state == ConnectorState::Idle {
                    self.begin_attempt();
                    ConnectorAction::Connect
                } else {
                    ConnectorAction::Nothing
                }
            },
            ConnectorEvent::Opened => {
                if self.state == ConnectorState::Connecting {
                    self.state = ConnectorState::Connected;
                }
                ConnectorAction::Nothing
            },
            ConnectorEvent::Failed => {
                if self.state == ConnectorState::Connecting || self.state
                    == ConnectorState::Connected {
                    self.state = ConnectorState::Reconnecting;
                    ConnectorAction::WaitRetry(RETRY_DELAY_SECS)
                } else {
                    ConnectorAction::Nothing
                }
            },
            ConnectorEvent::RetryElapsed => {
                if self.state == ConnectorState::Reconnecting {
                    self.begin_attempt();
                    ConnectorAction::Connect
                } else {
                    ConnectorAction::Nothing
                }
            },
            ConnectorEvent::Close => {
                if self.state == ConnectorState::Connected {
                    self.state = ConnectorState::Stopped;
                    ConnectorAction::CloseAndStop
                } else {
                    ConnectorAction::Nothing
                }
            },
            ConnectorEvent::Binary(bytes) => {
                if self.state == ConnectorState::Connected {
                    let decoded = decode_message(bytes.as_slice());
                    self.on_decoded(decoded)
                } else {
                    ConnectorAction::Nothing
                }
            },
            ConnectorEvent::OtherFrame => ConnectorAction::Nothing,
            ConnectorEvent::KeepAliveTick => {
                if self.state == ConnectorState::Connected {
                    ConnectorAction::SendPing(keepalive_ping())
                } else {
                    ConnectorAction::Nothing
                }
            },
        }
    }
}

/// Reconnection: a failure while connecting or connected is followed by a
/// wait of the fixed retry delay, whatever the number of attempts; from that
/// wait only the delay's end begins an attempt, exactly one; shutdown ends the
/// wait at once; every other event leaves the connector waiting.
pub proof fn lemma_reconnect_policy(s: ConnectorState, e: ConnectorEvent, a: ConnectorAction, n: u64)
    ensures
        s == ConnectorState::Connecting || s == ConnectorState::Connected ==> {
            &&& next_state(s, ConnectorEvent::Failed) == ConnectorState::Reconnecting
            &&& attempts_after(s, ConnectorEvent::Failed, n) == n
            &&& (action_fits(s, ConnectorEvent::Failed, a) <==> a == ConnectorAction::WaitRetry(
                RETRY_DELAY_SECS,
            ))
        },
        next_state(ConnectorState::Reconnecting, ConnectorEvent::RetryElapsed)
            == ConnectorState::Connecting,
        action_fits(ConnectorState::Reconnecting, ConnectorEvent::RetryElapsed, a) <==> a is Connect,
        n < u64::MAX ==> attempts_after(ConnectorState::Reconnecting, ConnectorEvent::RetryElapsed, n)
            == n + 1,
        next_state(ConnectorState::Reconnecting, ConnectorEvent::Shutdown) == ConnectorState::Stopped,
        action_fits(ConnectorState::Reconnecting, ConnectorEvent::Shutdown, a) <==> a is Stop,
        !(e is RetryElapsed) && !(e is Shutdown) ==> {
            &&& next_state(ConnectorState::Reconnecting, e) == ConnectorState::Reconnecting
            &&& (action_fits(ConnectorState::Reconnecting, e, a) <==> a is Nothing)
        },
        RETRY_DELAY_SECS == 5,
{
}

/// Keep-alive: while connected, each tick of the keep-alive timer (every
/// twenty seconds) sends one ping whose payload is the bytes 5, 4, 3, 2, 1,
/// and no other event sends a ping.
pub proof fn lemma_keepalive(s: ConnectorState, e: ConnectorEvent, a: ConnectorAction)
    ensures
        next_state(ConnectorState::Connected, ConnectorEvent::KeepAliveTick)
            == ConnectorState::Connected,
        action_fits(ConnectorState::Connected, ConnectorEvent::KeepAliveTick, a) <==> (a matches ConnectorAction::SendPing(p) && p@ == seq![5u8, 4u8, 3u8, 2u8, 1u8]),
        action_fits(s, e, a) && a is SendPing ==> e is KeepAliveTick && s == ConnectorState::Connected,
        KEEPALIVE_INTERVAL_SECS == 20,
{
}

} // verus!
