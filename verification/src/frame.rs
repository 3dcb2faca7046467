//! The frames of the wire protocol.
//!
//! On the wire every frame is a big-endian `u32` payload length followed by
//! the payload; see [`crate::codec`].
use vstd::prelude::*;

use crate::uuids::Uuid;

verus! {

/// The protocol version that both peers must speak.
pub const PROTOCOL_VERSION: u16 = 2;

/// The largest payload of a frame, in bytes, without the length header.
pub const MAX_FRAME_LEN: usize = 66560;

/// One row of a routing table, as text.
#[derive(Debug, Clone, PartialEq, Eq)]
pub struct RouteEntry {
    /// Destination network in CIDR form.
    pub dst: String,
    /// Gateway address.
    pub via: String,
}

/// The content of a routing-table row.
#[verifier::ext_equal]
pub struct RouteView {
    pub dst: Seq<char>,
    pub via: Seq<char>,
}

impl DeepView for RouteEntry {
    type V = RouteView;

    open spec fn deep_view(&self) -> RouteView {
        RouteView { dst: self.dst@, via: self.via@ }
    }
}

impl RouteEntry {
    /// A copy of this row.
    pub fn copy(&self) -> (r: RouteEntry)
        ensures
            r.deep_view() == self.deep_view(),
    {
        RouteEntry { dst: self.dst.clone(), via: self.via.clone() }
    }
}

/// A copy of a routing table.
pub fn copy_routes(v: &Vec<RouteEntry>) -> (r: Vec<RouteEntry>)
    ensures
        r.deep_view() == v.deep_view(),
{
    let mut out: Vec<RouteEntry> = Vec::new();
    let mut i: usize = 0;
    while i < v.len()
        invariant
            0 <= i <= v.len(),
            out.len() == i,
            forall|j: int| 0 <= j < i ==> (#[trigger] out[j]).deep_view() == v[j].deep_view(),
        decreases v.len() - i,
    {
        out.push(v[i].copy());
        i += 1;
    }
    assert(out.deep_view() =~= v.deep_view());
    out
}

/// A copy of some bytes.
pub fn copy_bytes(v: &Vec<u8>) -> (r: Vec<u8>)
    ensures
        r@ == v@,
{
    let mut out: Vec<u8> = Vec::new();
    let mut i: usize = 0;
    while i < v.len()
        invariant
            0 <= i <= v.len(),
            out@ == v@.take(i as int),
        decreases v.len() - i,
    {
        out.push(v[i]);
        assert(out@ =~= v@.take(i + 1));
        i += 1;
    }
    assert(v@.take(i as int) =~= v@);
    out
}

/// A single protocol frame.
#[derive(Debug, Clone, PartialEq, Eq)]
pub enum Frame {
    /// Client to server, first frame: protocol version and identity.
    Hello { version: u16, client_uuid: Uuid, caps: u32 },
    /// Server to client: the handshake is accepted.
    HelloAck { version: u16, server_id: Uuid, caps: u32 },
    /// Client to server: request to join a network.
    Join { net_uuid: Uuid },
    /// Server to client: joined, with the TAP suffix to use and, where one is
    /// assigned, the address in CIDR form.
    JoinOk { tap_suffix: String, ip: Option<String> },
    /// Server to client: refused, with a machine-readable reason.
    JoinDeny { reason: String },
    /// Both ways: one raw Ethernet frame.
    Eth(Vec<u8>),
    /// Both ways: free-form text.
    Text(String),
    /// Both ways: a file.
    File { name: String, data: Vec<u8> },
    /// Server to client: the network that the client now belongs to, if any.
    AssignNet { net_uuid: Option<Uuid> },
    /// Server to client: replace the TAP address; `None` clears it.
    SetIp { ip: Option<String> },
    /// Server to client: replace the routing table.
    SetRoutes(Vec<RouteEntry>),
    /// Both ways: heartbeat, to be answered with the same number.
    Ping(u64),
    /// Both ways: the answer to a heartbeat.
    Pong(u64),
}

/// The content of a [`Frame`].
#[verifier::ext_equal]
pub enum FrameView {
    Hello { version: u16, client_uuid: Uuid, caps: u32 },
    HelloAck { version: u16, server_id: Uuid, caps: u32 },
    Join { net_uuid: Uuid },
    JoinOk { tap_suffix: Seq<char>, ip: Option<Seq<char>> },
    JoinDeny { reason: Seq<char> },
    Eth(Seq<u8>),
    Text(Seq<char>),
    File { name: Seq<char>, data: Seq<u8> },
    AssignNet { net_uuid: Option<Uuid> },
    SetIp { ip: Option<Seq<char>> },
    SetRoutes(Seq<RouteView>),
    Ping(u64),
    Pong(u64),
}

impl DeepView for Frame {
    type V = FrameView;

    open spec fn deep_view(&self) -> FrameView {
        match self {
            Frame::Hello { version, client_uuid, caps } => FrameView::Hello {
                version: *version,
                client_uuid: *client_uuid,
                caps: *caps,
            },
            Frame::HelloAck { version, server_id, caps } => FrameView::HelloAck {
                version: *version,
                server_id: *server_id,
                caps: *caps,
            },
            Frame::Join { net_uuid } => FrameView::Join { net_uuid: *net_uuid },
            Frame::JoinOk { tap_suffix, ip } => FrameView::JoinOk {
                tap_suffix: tap_suffix@,
                ip: ip.deep_view(),
            },
            Frame::JoinDeny { reason } => FrameView::JoinDeny { reason: reason@ },
            Frame::Eth(b) => FrameView::Eth(b@),
            Frame::Text(s) => FrameView::Text(s@),
            Frame::File { name, data } => FrameView::File { name: name@, data: data@ },
            Frame::AssignNet { net_uuid } => FrameView::AssignNet { net_uuid: *net_uuid },
            Frame::SetIp { ip } => FrameView::SetIp { ip: ip.deep_view() },
            Frame::SetRoutes(v) => FrameView::SetRoutes(v.deep_view()),
            Frame::Ping(n) => FrameView::Ping(*n),
            Frame::Pong(n) => FrameView::Pong(*n),
        }
    }
}

/// Both peers speak version 2, and a frame takes 65 KiB at most.
pub proof fn law_protocol_limits()
    ensures
        PROTOCOL_VERSION == 2,
        MAX_FRAME_LEN == 65 * 1024,
{
}

} // verus!
