//! The event stream of the web interface: what a WebSocket connection does.
//!
//! Every event of the hub goes out as one text message. A subscriber that is
//! too slow misses events, and holds nobody up.
use vstd::prelude::*;


verus! {

/// Seconds between two heartbeats.
pub const KEEPALIVE: u64 = 25;

/// What happens to a connection.
#[derive(Debug)]
pub enum WsInput {
    /// It is time for a heartbeat.
    Tick,
    /// The hub has an event, with this text; none where it has no text.
    Event(Option<String>),
    /// The hub had this many events that are lost.
    Lagged(u64),
    /// The hub has no events any more.
    HubGone,
    /// The browser sent a heartbeat.
    Ping(Vec<u8>),
    /// The browser closed the connection, or it broke.
    Closed,
    /// The browser sent something else.
    Other,
    /// A message could not be sent.
    SendFailed,
}

/// What to do with it.
#[derive(Debug, PartialEq, Eq)]
pub enum WsAct {
    /// Send a heartbeat.
    Ping,
    /// Answer a heartbeat.
    Pong(Vec<u8>),
    /// Send a text message.
    Text(String),
    /// Nothing.
    Wait,
    /// Leave.
    End,
}

/// What a connection does with an input: a heartbeat, an event and the answer
/// to a heartbeat are sent; what is lost or not understood is passed over; and
/// the connection ends with either side.
pub fn ws_step(e: WsInput) -> (r: WsAct)
    ensures
        match e {
            WsInput::Tick => r is Ping,
            WsInput::Event(Some(t)) => r matches WsAct::Text(s) && s@ == t@,
            WsInput::Ping(p) => r matches WsAct::Pong(q) && q@ == p@,
            WsInput::Event(None) | WsInput::Lagged(_) | WsInput::Other => r is Wait,
            WsInput::HubGone | WsInput::Closed | WsInput::SendFailed => r is End,
        },
{
    match e {
        WsInput::Tick => WsAct::Ping,
        WsInput::Event(Some(t)) => WsAct::Text(t),
        WsInput::Ping(p) => WsAct::Pong(p),
        WsInput::Event(None) | WsInput::Lagged(_) | WsInput::Other => WsAct::Wait,
        WsInput::HubGone | WsInput::Closed | WsInput::SendFailed => WsAct::End,
    }
}

} // verus!
