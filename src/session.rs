//! The decisions of the server's per-session loop: what to do with each
//! frame from the client and with each envelope from the subscription. The
//! loop itself, which waits on both and performs the actions, runs outside
//! this crate.
use vstd::prelude::*;

use crate::codec::{encode_message, msgpack_encoding};
use crate::envelope::RequestMessage;
use crate::fanout::Delivery;

verus! {

/// How many envelopes a subscriber may fall behind before it is detached.
pub const SUBSCRIBER_BACKLOG: usize = 50;

/// What a session's loop observed.
#[derive(Clone, Debug)]
pub enum SessionEvent {
    /// The client sent a ping with this payload.
    Ping(Vec<u8>),
    /// The client sent a close frame.
    Close,
    /// The client sent a text, binary or unsolicited pong frame.
    OtherFrame,
    /// Reading from the client failed.
    ReadError,
    /// The client's stream ended.
    StreamEnded,
    /// The subscription delivered an envelope.
    Envelope(RequestMessage),
    /// The subscription fell too far behind and lost envelopes.
    Lagged,
    /// Writing to the client failed.
    WriteError,
}

/// What a session's loop is to do next.
#[derive(Clone, Debug)]
pub enum SessionAction {
    /// Answer with a pong carrying this payload.
    Pong(Vec<u8>),
    /// Send this payload as one binary frame.
    SendBinary(Vec<u8>),
    /// Nothing; wait for the next event.
    Continue,
    /// End the session: close it cleanly, logging a warning first if `warn`.
    Finish { warn: bool },
}

/// The event that a receive from the bus makes for a session, or `None`
/// where nothing was queued.
pub fn delivery_event(delivery: Delivery) -> (r: Option<SessionEvent>)
    ensures
        match delivery {
            Delivery::Envelope(m) => r == Some(SessionEvent::Envelope(m)),
            Delivery::Empty => r is None,
            Delivery::Lagged => r == Some(SessionEvent::Lagged),
            Delivery::Detached => r == Some(SessionEvent::StreamEnded),
        },
{
    match delivery {
        Delivery::Envelope(m) => Some(SessionEvent::Envelope(m)),
        Delivery::Empty => None,
        Delivery::Lagged => Some(SessionEvent::Lagged),
        Delivery::Detached => Some(SessionEvent::StreamEnded),
    }
}

/// Takes one event of a session and says what to do next.
pub fn session_step(event: SessionEvent) -> (r: SessionAction)
    ensures
        match event {
            SessionEvent::Ping(p) => r == SessionAction::Pong(p),
            SessionEvent::Close => r == SessionAction::Finish { warn: false },
            SessionEvent::OtherFrame => r is Continue,
            SessionEvent::ReadError => r == SessionAction::Finish { warn: true },
            SessionEvent::StreamEnded => r == SessionAction::Finish { warn: false },
            SessionEvent::Envelope(m) => r matches SessionAction::SendBinary(b) && b@
                == msgpack_encoding(m.parts()),
            SessionEvent::Lagged => r == SessionAction::Finish { warn: true },
            SessionEvent::WriteError => r == SessionAction::Finish { warn: true },
        },
{
    match event {
        SessionEvent::Ping(p) => SessionAction::Pong(p),
        SessionEvent::Close => SessionAction::Finish { warn: false },
        SessionEvent::OtherFrame => SessionAction::Continue,
        SessionEvent::ReadError => SessionAction::Finish { warn: true },
        SessionEvent::StreamEnded => SessionAction::Finish { warn: false },
        SessionEvent::Envelope(m) => SessionAction::SendBinary(encode_message(&m)),
        SessionEvent::Lagged => SessionAction::Finish { warn: true },
        SessionEvent::WriteError => SessionAction::Finish { warn: true },
    }
}

} // verus!
