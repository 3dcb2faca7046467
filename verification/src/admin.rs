//! The admin protocol: one request and one response per connection, each as
//! one length-prefixed payload.
use vstd::prelude::*;
use vstd::string::*;

use crate::codec;
use crate::device::{DeviceEntry, DeviceView};
use crate::frame::RouteView;
use crate::text;
use crate::uuids::Uuid;

verus! {

/// The longest admin payload: 8 MiB.
pub const MAX_ADMIN_FRAME: usize = 8388608;

// ── Server ───────────────────────────────────────────────────────────────
/// What the server can be asked.
#[derive(Debug, Clone, PartialEq, Eq)]
pub enum ServerAdminReq {
    /// Create a network, with the address of its bridge, if any.
    MakeNet { name: String, bridge_ip: Option<String> },
    RenameNet { net_uuid: Uuid, name: String },
    DeleteNet { net_uuid: Uuid },
    /// Change a client. `None` leaves a field as it is; an empty address or
    /// an empty list clears it. A client without a network accepts a name and
    /// subnets only.
    DeviceSet {
        client_uuid: Uuid,
        name: Option<String>,
        admitted: Option<bool>,
        tap_ip: Option<String>,
        lan_subnets: Option<Vec<String>>,
    },
    /// Move a client to a network, or to none.
    AssignClient { client_uuid: Uuid, net_uuid: Option<Uuid> },
    /// Derive the routes of a network and push them to its members.
    DevicePush { net_uuid: Uuid },
    /// The members of a network, or of all, and the clients without one.
    DeviceList { net_uuid: Option<Uuid> },
    List,
    Send { msg: String },
    SendFile { name: String, data: Vec<u8> },
    Shutdown,
}

/// The content of a [`ServerAdminReq`].
#[verifier::ext_equal]
pub enum ServerReqView {
    MakeNet { name: Seq<char>, bridge_ip: Option<Seq<char>> },
    RenameNet { net_uuid: Uuid, name: Seq<char> },
    DeleteNet { net_uuid: Uuid },
    DeviceSet {
        client_uuid: Uuid,
        name: Option<Seq<char>>,
        admitted: Option<bool>,
        tap_ip: Option<Seq<char>>,
        lan_subnets: Option<Seq<Seq<char>>>,
    },
    AssignClient { client_uuid: Uuid, net_uuid: Option<Uuid> },
    DevicePush { net_uuid: Uuid },
    DeviceList { net_uuid: Option<Uuid> },
    List,
    Send { msg: Seq<char> },
    SendFile { name: Seq<char>, data: Seq<u8> },
    Shutdown,
}

impl DeepView for ServerAdminReq {
    type V = ServerReqView;

    open spec fn deep_view(&self) -> ServerReqView {
        match self {
            ServerAdminReq::MakeNet { name, bridge_ip } => ServerReqView::MakeNet {
                name: name@,
                bridge_ip: bridge_ip.deep_view(),
            },
            ServerAdminReq::RenameNet { net_uuid, name } => ServerReqView::RenameNet {
                net_uuid: *net_uuid,
                name: name@,
            },
            ServerAdminReq::DeleteNet { net_uuid } => ServerReqView::DeleteNet {
                net_uuid: *net_uuid,
            },
            ServerAdminReq::DeviceSet { client_uuid, name, admitted, tap_ip, lan_subnets } =>
                ServerReqView::DeviceSet {
                client_uuid: *client_uuid,
                name: name.deep_view(),
                admitted: *admitted,
                tap_ip: tap_ip.deep_view(),
                lan_subnets: lan_subnets.deep_view(),
            },
            ServerAdminReq::AssignClient { client_uuid, net_uuid } => ServerReqView::AssignClient {
                client_uuid: *client_uuid,
                net_uuid: *net_uuid,
            },
            ServerAdminReq::DevicePush { net_uuid } => ServerReqView::DevicePush {
                net_uuid: *net_uuid,
            },
            ServerAdminReq::DeviceList { net_uuid } => ServerReqView::DeviceList {
                net_uuid: *net_uuid,
            },
            ServerAdminReq::List => ServerReqView::List,
            ServerAdminReq::Send { msg } => ServerReqView::Send { msg: msg@ },
            ServerAdminReq::SendFile { name, data } => ServerReqView::SendFile {
                name: name@,
                data: data@,
            },
            ServerAdminReq::Shutdown => ServerReqView::Shutdown,
        }
    }
}

/// A network in a snapshot.
#[derive(Debug, Clone, PartialEq, Eq)]
pub struct NetEntry {
    pub name: String,
    pub uuid: Uuid,
    pub bridge_ip: String,
}

/// The content of a [`NetEntry`].
#[verifier::ext_equal]
pub struct NetEntryView {
    pub name: Seq<char>,
    pub uuid: Uuid,
    pub bridge_ip: Seq<char>,
}

impl DeepView for NetEntry {
    type V = NetEntryView;

    open spec fn deep_view(&self) -> NetEntryView {
        NetEntryView { name: self.name@, uuid: self.uuid, bridge_ip: self.bridge_ip@ }
    }
}

/// A session in a snapshot.
#[derive(Debug, Clone, PartialEq, Eq)]
pub struct SessionEntry {
    pub sid: u64,
    pub client_uuid: Uuid,
    pub net_uuid: Uuid,
    pub tap_name: String,
    pub tap_ip: Option<String>,
    /// Whether a connection forwards into the session.
    pub bound: bool,
}

/// The content of a [`SessionEntry`].
#[verifier::ext_equal]
pub struct SessionEntryView {
    pub sid: u64,
    pub client_uuid: Uuid,
    pub net_uuid: Uuid,
    pub tap_name: Seq<char>,
    pub tap_ip: Option<Seq<char>>,
    pub bound: bool,
}

impl DeepView for SessionEntry {
    type V = SessionEntryView;

    open spec fn deep_view(&self) -> SessionEntryView {
        SessionEntryView {
            sid: self.sid,
            client_uuid: self.client_uuid,
            net_uuid: self.net_uuid,
            tap_name: self.tap_name@,
            tap_ip: self.tap_ip.deep_view(),
            bound: self.bound,
        }
    }
}

/// A client that waits for admission, in a snapshot.
#[derive(Debug, Clone, Copy, PartialEq, Eq, Structural)]
pub struct PendingEntry {
    pub client_uuid: Uuid,
    pub net_uuid: Uuid,
}

impl DeepView for PendingEntry {
    type V = PendingEntry;

    open spec fn deep_view(&self) -> PendingEntry {
        *self
    }
}

/// A route in a response.
#[derive(Debug, Clone, PartialEq, Eq)]
pub struct RouteRow {
    pub dst: String,
    pub via: String,
}

impl DeepView for RouteRow {
    type V = RouteView;

    open spec fn deep_view(&self) -> RouteView {
        RouteView { dst: self.dst@, via: self.via@ }
    }
}

/// What the server knows, in short.
#[derive(Debug, Clone, PartialEq, Eq)]
pub struct SnapshotData {
    pub networks: Vec<NetEntry>,
    pub sessions: Vec<SessionEntry>,
    pub pending: Vec<PendingEntry>,
}

/// The content of a [`SnapshotData`].
#[verifier::ext_equal]
pub struct SnapshotDataView {
    pub networks: Seq<NetEntryView>,
    pub sessions: Seq<SessionEntryView>,
    pub pending: Seq<PendingEntry>,
}

impl DeepView for SnapshotData {
    type V = SnapshotDataView;

    open spec fn deep_view(&self) -> SnapshotDataView {
        SnapshotDataView {
            networks: self.networks.deep_view(),
            sessions: self.sessions.deep_view(),
            pending: self.pending@,
        }
    }
}

/// What the server answers.
#[derive(Debug, Clone, PartialEq, Eq)]
pub enum ServerAdminResp {
    /// It is done.
    Done,
    /// How many were reached.
    Count(u64),
    NetCreated { uuid: Uuid },
    /// The client as it is now.
    Device(DeviceEntry),
    Devices(Vec<DeviceEntry>),
    /// The routes that were pushed, and to how many clients.
    Pushed { count: u64, routes: Vec<RouteRow> },
    NotFound,
    /// An address or a subnet is malformed.
    InvalidIp,
    /// Another member of the network has the address.
    Conflict { msg: String },
    Snapshot(SnapshotData),
    Error(String),
}

/// The content of a [`ServerAdminResp`].
#[verifier::ext_equal]
pub enum ServerRespView {
    Done,
    Count(u64),
    NetCreated { uuid: Uuid },
    Device(DeviceView),
    Devices(Seq<DeviceView>),
    Pushed { count: u64, routes: Seq<RouteView> },
    NotFound,
    InvalidIp,
    Conflict { msg: Seq<char> },
    Snapshot(SnapshotDataView),
    Error(Seq<char>),
}

impl DeepView for ServerAdminResp {
    type V = ServerRespView;

    open spec fn deep_view(&self) -> ServerRespView {
        match self {
            ServerAdminResp::Done => ServerRespView::Done,
            ServerAdminResp::Count(n) => ServerRespView::Count(*n),
            ServerAdminResp::NetCreated { uuid } => ServerRespView::NetCreated { uuid: *uuid },
            ServerAdminResp::Device(d) => ServerRespView::Device(d.deep_view()),
            ServerAdminResp::Devices(v) => ServerRespView::Devices(v.deep_view()),
            ServerAdminResp::Pushed { count, routes } => ServerRespView::Pushed {
                count: *count,
                routes: routes.deep_view(),
            },
            ServerAdminResp::NotFound => ServerRespView::NotFound,
            ServerAdminResp::InvalidIp => ServerRespView::InvalidIp,
            ServerAdminResp::Conflict { msg } => ServerRespView::Conflict { msg: msg@ },
            ServerAdminResp::Snapshot(s) => ServerRespView::Snapshot(s.deep_view()),
            ServerAdminResp::Error(e) => ServerRespView::Error(e@),
        }
    }
}

// ── Client ───────────────────────────────────────────────────────────────
/// What the client can be asked.
#[derive(Debug, Clone, PartialEq, Eq)]
pub enum ClientAdminReq {
    Join { net_uuid: Uuid },
    Leave,
    Status,
    Send { msg: String },
    SendFile { name: String, data: Vec<u8> },
    Shutdown,
}

/// The content of a [`ClientAdminReq`].
#[verifier::ext_equal]
pub enum ClientReqView {
    Join { net_uuid: Uuid },
    Leave,
    Status,
    Send { msg: Seq<char> },
    SendFile { name: Seq<char>, data: Seq<u8> },
    Shutdown,
}

impl DeepView for ClientAdminReq {
    type V = ClientReqView;

    open spec fn deep_view(&self) -> ClientReqView {
        match self {
            ClientAdminReq::Join { net_uuid } => ClientReqView::Join { net_uuid: *net_uuid },
            ClientAdminReq::Leave => ClientReqView::Leave,
            ClientAdminReq::Status => ClientReqView::Status,
            ClientAdminReq::Send { msg } => ClientReqView::Send { msg: msg@ },
            ClientAdminReq::SendFile { name, data } => ClientReqView::SendFile {
                name: name@,
                data: data@,
            },
            ClientAdminReq::Shutdown => ClientReqView::Shutdown,
        }
    }
}

/// What the client answers.
#[derive(Debug, Clone, PartialEq, Eq)]
pub enum ClientAdminResp {
    /// It is done.
    Done,
    Status {
        client_uuid: Uuid,
        connected: bool,
        joined_network: Option<Uuid>,
        tap_name: Option<String>,
        tap_ip: Option<String>,
    },
    Error(String),
}

/// The content of a [`ClientAdminResp`].
#[verifier::ext_equal]
pub enum ClientRespView {
    Done,
    Status {
        client_uuid: Uuid,
        connected: bool,
        joined_network: Option<Uuid>,
        tap_name: Option<Seq<char>>,
        tap_ip: Option<Seq<char>>,
    },
    Error(Seq<char>),
}

impl DeepView for ClientAdminResp {
    type V = ClientRespView;

    open spec fn deep_view(&self) -> ClientRespView {
        match self {
            ClientAdminResp::Done => ClientRespView::Done,
            ClientAdminResp::Status { client_uuid, connected, joined_network, tap_name, tap_ip } =>
                ClientRespView::Status {
                client_uuid: *client_uuid,
                connected: *connected,
                joined_network: *joined_network,
                tap_name: tap_name.deep_view(),
                tap_ip: tap_ip.deep_view(),
            },
            ClientAdminResp::Error(e) => ClientRespView::Error(e@),
        }
    }
}

// ── Framing ──────────────────────────────────────────────────────────────
/// Why an admin payload could not be sent or read.
#[derive(Debug, Clone, PartialEq, Eq)]
pub enum AdminError {
    /// The transport failed.
    Io(String),
    /// The payload could not be written or read.
    Postcard(String),
    /// The length, and the longest that is accepted.
    FrameTooLarge(usize, usize),
}

/// The content of an [`AdminError`].
#[verifier::ext_equal]
pub enum AdminErrorView {
    Io(Seq<char>),
    Postcard(Seq<char>),
    FrameTooLarge(usize, usize),
}

impl DeepView for AdminError {
    type V = AdminErrorView;

    open spec fn deep_view(&self) -> AdminErrorView {
        match self {
            AdminError::Io(m) => AdminErrorView::Io(m@),
            AdminError::Postcard(m) => AdminErrorView::Postcard(m@),
            AdminError::FrameTooLarge(n, max) => AdminErrorView::FrameTooLarge(*n, *max),
        }
    }
}

impl AdminErrorView {
    /// The message.
    pub open spec fn chars(self) -> Seq<char> {
        match self {
            AdminErrorView::Io(m) => "io: "@ + m,
            AdminErrorView::Postcard(m) => "postcard: "@ + m,
            AdminErrorView::FrameTooLarge(n, max) => "frame too large: "@ + text::dec(n as nat)
                + " bytes (max "@ + text::dec(max as nat) + ")"@,
        }
    }
}

impl AdminError {
    /// The message.
    pub fn to_text(&self) -> (r: String)
        ensures
            r@ == self.deep_view().chars(),
    {
        match self {
            AdminError::Io(m) => text::join2("io: ", m.as_str()),
            AdminError::Postcard(m) => text::join2("postcard: ", m.as_str()),
            AdminError::FrameTooLarge(n, max) => {
                let a = text::dec_text(*n as u64);
                let b = text::dec_text(*max as u64);
                let s = text::join3("frame too large: ", a.as_str(), " bytes (max ");
                text::join3(s.as_str(), b.as_str(), ")")
            },
        }
    }
}

/// The header of a payload of `len` bytes, or why it is refused.
pub open spec fn header_of(len: usize) -> Result<Seq<u8>, AdminErrorView> {
    if len > MAX_ADMIN_FRAME {
        Err(AdminErrorView::FrameTooLarge(len, MAX_ADMIN_FRAME))
    } else {
        Ok(codec::be32(len as u32))
    }
}

/// The length that a header announces, or why it is refused.
pub open spec fn length_in(header: Seq<u8>) -> Result<usize, AdminErrorView> {
    let n = codec::be32_value(header);
    if n > MAX_ADMIN_FRAME {
        Err(AdminErrorView::FrameTooLarge(n as usize, MAX_ADMIN_FRAME))
    } else {
        Ok(n as usize)
    }
}

/// The header to write before a payload of `len` bytes.
pub fn admin_header(len: usize) -> (r: Result<Vec<u8>, AdminError>)
    ensures
        match r {
            Ok(v) => header_of(len) == Result::<Seq<u8>, AdminErrorView>::Ok(v@),
            Err(e) => header_of(len) == Result::<Seq<u8>, AdminErrorView>::Err(e.deep_view()),
        },
{
    if len > MAX_ADMIN_FRAME {
        return Err(AdminError::FrameTooLarge(len, MAX_ADMIN_FRAME));
    }
    let n: u32 = len as u32;
    let mut out: Vec<u8> = Vec::new();
    out.push((n / 0x100_0000) as u8);
    out.push((n / 0x1_0000 % 0x100) as u8);
    out.push((n / 0x100 % 0x100) as u8);
    out.push((n % 0x100) as u8);
    assert(out@ =~= codec::be32(n));
    Ok(out)
}

/// The length that a header announces.
pub fn admin_len(header: [u8; 4]) -> (r: Result<usize, AdminError>)
    ensures
        match r {
            Ok(n) => length_in(header@) == Result::<usize, AdminErrorView>::Ok(n),
            Err(e) => length_in(header@) == Result::<usize, AdminErrorView>::Err(e.deep_view()),
        },
{
    let n: u64 = header[0] as u64 * 0x100_0000 + header[1] as u64 * 0x1_0000 + header[2] as u64
        * 0x100 + header[3] as u64;
    if n > MAX_ADMIN_FRAME as u64 {
        Err(AdminError::FrameTooLarge(n as usize, MAX_ADMIN_FRAME))
    } else {
        Ok(n as usize)
    }
}

/// A header that was written is read as the length it was written for.
pub proof fn law_admin_header_is_read_back(len: usize)
    requires
        len <= MAX_ADMIN_FRAME,
    ensures
        header_of(len) matches Ok(h) && h.len() == 4 && length_in(h)
            == Result::<usize, AdminErrorView>::Ok(len),
{
    codec::lemma_be32(len as u32);
}

/// A payload is refused where it is longer than 8 MiB, by whoever writes it and
/// by whoever reads its header, and only then.
pub proof fn law_long_admin_payloads_are_refused(len: usize, header: Seq<u8>)
    requires
        header.len() == 4,
    ensures
        header_of(len) is Ok <==> len <= 8388608,
        header_of(len) matches Err(e) ==> e == AdminErrorView::FrameTooLarge(len, 8388608),
        ({
            let n = header[0] * 0x100_0000 + header[1] * 0x1_0000 + header[2] * 0x100 + header[3];
            &&& length_in(header) is Ok <==> n <= 8388608
            &&& length_in(header) matches Ok(k) ==> k == n
        }),
{
}

/// What is said of an admin payload that could not be sent or read.
pub proof fn law_messages(n: usize, max: usize, m: Seq<char>)
    ensures
        AdminErrorView::FrameTooLarge(n, max).chars() == "frame too large: "@ + text::dec(n as nat)
            + " bytes (max "@ + text::dec(max as nat) + ")"@,
        AdminErrorView::Postcard(m).chars() == "postcard: "@ + m,
        AdminErrorView::Io(m).chars() == "io: "@ + m,
{
}

} // verus!
