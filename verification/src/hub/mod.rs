//! The hub: the control plane of the server.
//!
//! The hub owns the server configuration, the live connections, the sessions
//! and the connections that wait for admission. It does no I/O of its own:
//! each handler takes one command, changes the state, and returns the actions
//! to carry out, in order. Where an action has an outcome that matters (a TAP
//! that was created, or could not be), the outcome comes back as an argument.
//! Ethernet frames do not pass through here.
pub mod changes;
pub mod clients;
pub mod conns;
pub mod devices;
pub mod effects;
mod find;
mod keep;
pub mod laws;
pub mod metrics;
pub mod model;
pub mod nets;
pub mod soundness;
mod tables;

use vstd::prelude::*;

use crate::addr;
use crate::addr::IpNet;
use crate::config::{NetRecord, NetView, ServerConfig};
use crate::device::{DeviceEntry, DeviceView};
use crate::events::{EventView, HubEvent};
use crate::frame::{Frame, FrameView, RouteEntry, RouteView};
use crate::ids::{ConnId, IdAllocator, SessionId};
use crate::text;
use crate::uuids::Uuid;

pub use model::{ApprovalView, HubView};

verus! {

// ── State ────────────────────────────────────────────────────────────────
/// A live connection.
#[derive(Debug)]
pub struct ConnEntry {
    pub id: ConnId,
    pub addr: String,
    /// Who is at the other end; known after the handshake.
    pub client_uuid: Option<Uuid>,
    /// The session that the connection is bound to.
    pub bound_session: Option<SessionId>,
}

/// The content of a [`ConnEntry`].
#[verifier::ext_equal]
pub struct ConnView {
    pub id: ConnId,
    pub addr: Seq<char>,
    pub client: Option<Uuid>,
    pub bound: Option<SessionId>,
}

impl DeepView for ConnEntry {
    type V = ConnView;

    open spec fn deep_view(&self) -> ConnView {
        ConnView {
            id: self.id,
            addr: self.addr@,
            client: self.client_uuid,
            bound: self.bound_session,
        }
    }
}

/// A session: the TAP of one client in one network.
#[derive(Debug, Clone, PartialEq, Eq)]
pub struct SessionInfo {
    pub sid: SessionId,
    pub client_uuid: Uuid,
    pub net_uuid: Uuid,
    pub tap_name: String,
    pub tap_ip: Option<String>,
    /// The connection that currently forwards into the session.
    pub bound_conn: Option<ConnId>,
}

/// The content of a [`SessionInfo`].
#[verifier::ext_equal]
pub struct SessionView {
    pub sid: SessionId,
    pub client: Uuid,
    pub net: Uuid,
    pub tap_name: Seq<char>,
    pub tap_ip: Option<Seq<char>>,
    pub bound_conn: Option<ConnId>,
}

impl DeepView for SessionInfo {
    type V = SessionView;

    open spec fn deep_view(&self) -> SessionView {
        SessionView {
            sid: self.sid,
            client: self.client_uuid,
            net: self.net_uuid,
            tap_name: self.tap_name@,
            tap_ip: self.tap_ip.deep_view(),
            bound_conn: self.bound_conn,
        }
    }
}

impl SessionInfo {
    /// A copy of this record.
    pub fn copy(&self) -> (r: SessionInfo)
        ensures
            r.deep_view() == self.deep_view(),
    {
        SessionInfo {
            sid: self.sid,
            client_uuid: self.client_uuid,
            net_uuid: self.net_uuid,
            tap_name: self.tap_name.clone(),
            tap_ip: text::copy_opt(&self.tap_ip),
            bound_conn: self.bound_conn,
        }
    }
}

/// A connection held open until its client is admitted.
#[derive(Debug, Clone, Copy, PartialEq, Eq, Structural)]
pub struct PendingInfo {
    pub client_uuid: Uuid,
    pub net_uuid: Uuid,
    pub conn: ConnId,
}

impl DeepView for PendingInfo {
    type V = PendingInfo;

    open spec fn deep_view(&self) -> PendingInfo {
        *self
    }
}

/// The byte counters of a session.
#[derive(Debug, Clone, Copy, PartialEq, Eq, Structural)]
pub struct Counters {
    pub sid: SessionId,
    pub bytes_in: u64,
    pub bytes_out: u64,
}

impl DeepView for Counters {
    type V = Counters;

    open spec fn deep_view(&self) -> Counters {
        *self
    }
}

/// The routing table that a network's members were told last.
#[derive(Debug)]
pub struct PushedRoutes {
    pub net: Uuid,
    pub routes: Vec<RouteEntry>,
}

/// The content of a [`PushedRoutes`].
#[verifier::ext_equal]
pub struct PushedView {
    pub net: Uuid,
    pub routes: Seq<RouteView>,
}

impl DeepView for PushedRoutes {
    type V = PushedView;

    open spec fn deep_view(&self) -> PushedView {
        PushedView { net: self.net, routes: self.routes.deep_view() }
    }
}

/// Whether a network's members should be told a new routing table.
#[derive(Debug, Clone, Copy, PartialEq, Eq, Structural)]
pub struct DirtyFlag {
    pub net: Uuid,
    pub dirty: bool,
}

impl DeepView for DirtyFlag {
    type V = DirtyFlag;

    open spec fn deep_view(&self) -> DirtyFlag {
        *self
    }
}

/// The state of the control plane.
pub struct Hub {
    pub cfg: ServerConfig,
    /// The networks whose bridge is up.
    pub bridges: Vec<Uuid>,
    pub conns: Vec<ConnEntry>,
    pub sessions: Vec<SessionInfo>,
    pub pending: Vec<PendingInfo>,
    pub ids: IdAllocator,
    /// The counters of the last metrics sample.
    pub metrics_prev: Vec<Counters>,
    pub last_pushed_routes: Vec<PushedRoutes>,
    pub routes_dirty: Vec<DirtyFlag>,
}

impl DeepView for Hub {
    type V = HubView;

    open spec fn deep_view(&self) -> HubView {
        HubView {
            cfg: self.cfg.deep_view(),
            bridges: self.bridges@,
            conns: self.conns.deep_view(),
            sessions: self.sessions.deep_view(),
            pending: self.pending@,
            next_id: self.ids@,
            metrics_prev: self.metrics_prev@,
            pushed: self.last_pushed_routes.deep_view(),
            dirty: self.routes_dirty@,
        }
    }
}

// ── Actions ──────────────────────────────────────────────────────────────
/// What the hub tells a session.
#[derive(Debug, Clone, Copy, PartialEq, Eq, Structural)]
pub enum SessionNote {
    /// Send frames out through this connection.
    Bind(ConnId),
    /// The connection is gone.
    Unbind,
    /// End.
    Kill,
}

/// One thing for the surroundings to do.
#[derive(Debug)]
pub enum HubAction {
    /// Send a frame on a connection.
    Send { conn: ConnId, frame: Frame },
    /// Tell a connection which session its Ethernet frames go to.
    Bind { conn: ConnId, session: Option<SessionId> },
    /// Close a connection that the hub has forgotten.
    DropConn { conn: ConnId },
    /// Tell a session something.
    ToSession { sid: SessionId, note: SessionNote },
    /// Run the session whose TAP was just prepared.
    StartSession { sid: SessionId, conn: ConnId, client_uuid: Uuid, net_uuid: Uuid },
    /// Destroy the TAP that was just prepared.
    DestroyTap { sid: SessionId },
    /// Take a TAP off a network's bridge.
    RemoveTap { net: Uuid, tap_name: String },
    /// Replace the kernel routes of a network's bridge.
    ApplyRoutes { net: Uuid, routes: Vec<addr::RouteEntry> },
    /// Replace the address of a network's bridge.
    SetBridgeIp { net: Uuid, ip: Option<IpNet> },
    /// Destroy a network's bridge.
    DestroyBridge { net: Uuid },
    /// Write the configuration to disk.
    Persist,
    /// Tell the subscribers.
    Emit(HubEvent),
}

/// The content of a [`HubAction`].
#[verifier::ext_equal]
pub enum ActionView {
    Send { conn: ConnId, frame: FrameView },
    Bind { conn: ConnId, session: Option<SessionId> },
    DropConn { conn: ConnId },
    ToSession { sid: SessionId, note: SessionNote },
    StartSession { sid: SessionId, conn: ConnId, client_uuid: Uuid, net_uuid: Uuid },
    DestroyTap { sid: SessionId },
    RemoveTap { net: Uuid, tap_name: Seq<char> },
    ApplyRoutes { net: Uuid, routes: Seq<addr::RouteEntry> },
    SetBridgeIp { net: Uuid, ip: Option<IpNet> },
    DestroyBridge { net: Uuid },
    Persist,
    Emit(EventView),
}

impl DeepView for HubAction {
    type V = ActionView;

    open spec fn deep_view(&self) -> ActionView {
        match self {
            HubAction::Send { conn, frame } => ActionView::Send {
                conn: *conn,
                frame: frame.deep_view(),
            },
            HubAction::Bind { conn, session } => ActionView::Bind { conn: *conn, session: *session },
            HubAction::DropConn { conn } => ActionView::DropConn { conn: *conn },
            HubAction::ToSession { sid, note } => ActionView::ToSession { sid: *sid, note: *note },
            HubAction::StartSession { sid, conn, client_uuid, net_uuid } => ActionView::StartSession {
                sid: *sid,
                conn: *conn,
                client_uuid: *client_uuid,
                net_uuid: *net_uuid,
            },
            HubAction::DestroyTap { sid } => ActionView::DestroyTap { sid: *sid },
            HubAction::RemoveTap { net, tap_name } => ActionView::RemoveTap {
                net: *net,
                tap_name: tap_name@,
            },
            HubAction::ApplyRoutes { net, routes } => ActionView::ApplyRoutes {
                net: *net,
                routes: routes@,
            },
            HubAction::SetBridgeIp { net, ip } => ActionView::SetBridgeIp { net: *net, ip: *ip },
            HubAction::DestroyBridge { net } => ActionView::DestroyBridge { net: *net },
            HubAction::Persist => ActionView::Persist,
            HubAction::Emit(e) => ActionView::Emit(e.deep_view()),
        }
    }
}

// ── Requests and replies ─────────────────────────────────────────────────
/// A TAP to prepare for a client that is about to get a session.
#[derive(Debug, Clone, PartialEq, Eq)]
pub struct Approval {
    pub sid: SessionId,
    pub conn: ConnId,
    pub client_uuid: Uuid,
    pub net_uuid: Uuid,
    /// The kernel name of the TAP. It carries no address.
    pub tap_name: String,
    /// Whether the network's bridge is up, so that the TAP can be attached.
    pub bridged: bool,
}

impl DeepView for Approval {
    type V = ApprovalView;

    open spec fn deep_view(&self) -> ApprovalView {
        ApprovalView {
            sid: self.sid,
            conn: self.conn,
            client: self.client_uuid,
            net: self.net_uuid,
            tap_name: self.tap_name@,
            bridged: self.bridged,
        }
    }
}

/// What came of preparing a TAP.
#[derive(Debug, Clone, PartialEq, Eq)]
pub enum TapOutcome {
    /// The TAP could not be created.
    CreateFailed(String),
    /// The TAP exists and could not be attached to the bridge.
    AttachFailed(String),
    /// The TAP exists, and is attached where there is a bridge.
    Ready,
}

/// The content of a [`TapOutcome`].
pub enum TapOutcomeView {
    CreateFailed(Seq<char>),
    AttachFailed(Seq<char>),
    Ready,
}

impl DeepView for TapOutcome {
    type V = TapOutcomeView;

    open spec fn deep_view(&self) -> TapOutcomeView {
        match self {
            TapOutcome::CreateFailed(e) => TapOutcomeView::CreateFailed(e@),
            TapOutcome::AttachFailed(e) => TapOutcomeView::AttachFailed(e@),
            TapOutcome::Ready => TapOutcomeView::Ready,
        }
    }
}

/// The snapshot behind `list`.
#[derive(Debug)]
pub struct HubSnapshot {
    pub networks: Vec<NetRecord>,
    pub sessions: Vec<SessionInfo>,
    pub pending: Vec<PendingInfo>,
    /// The networks whose members should be told a new routing table.
    pub routes_dirty: Vec<Uuid>,
}

/// The content of a [`HubSnapshot`].
#[verifier::ext_equal]
pub struct SnapshotView {
    pub networks: Seq<NetView>,
    pub sessions: Seq<SessionView>,
    pub pending: Seq<PendingInfo>,
    pub routes_dirty: Seq<Uuid>,
}

impl DeepView for HubSnapshot {
    type V = SnapshotView;

    open spec fn deep_view(&self) -> SnapshotView {
        SnapshotView {
            networks: self.networks.deep_view(),
            sessions: self.sessions.deep_view(),
            pending: self.pending@,
            routes_dirty: self.routes_dirty@,
        }
    }
}

/// Changes to one member. `None` leaves a field as it is; an empty address or
/// an empty list clears it.
#[derive(Debug, Clone, PartialEq, Eq)]
pub struct DeviceUpdate {
    pub name: Option<String>,
    pub admitted: Option<bool>,
    pub tap_ip: Option<String>,
    pub lan_subnets: Option<Vec<String>>,
}

/// The content of a [`DeviceUpdate`].
#[verifier::ext_equal]
pub struct UpdateView {
    pub name: Option<Seq<char>>,
    pub admitted: Option<bool>,
    pub tap_ip: Option<Seq<char>>,
    pub lan_subnets: Option<Seq<Seq<char>>>,
}

impl DeepView for DeviceUpdate {
    type V = UpdateView;

    open spec fn deep_view(&self) -> UpdateView {
        UpdateView {
            name: self.name.deep_view(),
            admitted: self.admitted,
            tap_ip: self.tap_ip.deep_view(),
            lan_subnets: self.lan_subnets.deep_view(),
        }
    }
}

impl Default for DeviceUpdate {
    fn default() -> (r: DeviceUpdate)
        ensures
            r.deep_view() == (UpdateView {
                name: None,
                admitted: None,
                tap_ip: None,
                lan_subnets: None,
            }),
    {
        DeviceUpdate { name: None, admitted: None, tap_ip: None, lan_subnets: None }
    }
}

/// What came of changing one member.
#[derive(Debug, Clone, PartialEq, Eq)]
pub enum DeviceSetResult {
    /// Done; the member as it is now.
    Updated(DeviceEntry),
    /// No such member.
    NotFound,
    /// An address or a subnet is malformed.
    InvalidIp,
    /// Another member of the network has the address.
    Conflict { msg: String },
}

/// The content of a [`DeviceSetResult`].
#[verifier::ext_equal]
pub enum DeviceSetView {
    Updated(DeviceView),
    NotFound,
    InvalidIp,
    Conflict { msg: Seq<char> },
}

impl DeepView for DeviceSetResult {
    type V = DeviceSetView;

    open spec fn deep_view(&self) -> DeviceSetView {
        match self {
            DeviceSetResult::Updated(d) => DeviceSetView::Updated(d.deep_view()),
            DeviceSetResult::NotFound => DeviceSetView::NotFound,
            DeviceSetResult::InvalidIp => DeviceSetView::InvalidIp,
            DeviceSetResult::Conflict { msg } => DeviceSetView::Conflict { msg: msg@ },
        }
    }
}

/// How far changing one member has come.
#[derive(Debug)]
pub enum DeviceSetStep {
    /// It is done.
    Done(DeviceSetResult),
    /// A waiting client was admitted: prepare its TAP, hand the outcome to
    /// [`Hub::do_approve`], then call [`Hub::finish_device_set`].
    Approve(Approval),
}

/// The content of a [`DeviceSetStep`].
#[verifier::ext_equal]
pub enum DeviceSetStepView {
    Done(DeviceSetView),
    Approve(ApprovalView),
}

impl DeepView for DeviceSetStep {
    type V = DeviceSetStepView;

    open spec fn deep_view(&self) -> DeviceSetStepView {
        match self {
            DeviceSetStep::Done(r) => DeviceSetStepView::Done(r.deep_view()),
            DeviceSetStep::Approve(a) => DeviceSetStepView::Approve(a.deep_view()),
        }
    }
}

/// What came of creating a network.
#[derive(Debug, Clone, PartialEq, Eq)]
pub enum MakeNetResult {
    Created(Uuid),
    /// The bridge address is malformed or has an unsupported prefix; no
    /// network was created.
    InvalidBridgeIp(String),
}

/// What came of changing a bridge address.
#[derive(Debug, Clone, PartialEq, Eq)]
pub enum SetNetBridgeIpResult {
    /// Done; the network as it is now.
    Updated(NetRecord),
    NotFound,
    /// The address is malformed or has an unsupported prefix.
    Invalid(String),
}

/// The content of a [`SetNetBridgeIpResult`].
#[verifier::ext_equal]
pub enum SetBridgeIpView {
    Updated(NetView),
    NotFound,
    Invalid(Seq<char>),
}

impl DeepView for SetNetBridgeIpResult {
    type V = SetBridgeIpView;

    open spec fn deep_view(&self) -> SetBridgeIpView {
        match self {
            SetNetBridgeIpResult::Updated(n) => SetBridgeIpView::Updated(n.deep_view()),
            SetNetBridgeIpResult::NotFound => SetBridgeIpView::NotFound,
            SetNetBridgeIpResult::Invalid(m) => SetBridgeIpView::Invalid(m@),
        }
    }
}

/// What came of moving a client.
#[derive(Debug, Clone, PartialEq, Eq)]
pub enum AssignClientResult {
    /// Done; the client as it is now.
    Assigned(DeviceEntry),
    /// The client is unknown.
    NotFound,
    /// The target network is unknown.
    UnknownNetwork,
}

/// The content of an [`AssignClientResult`].
#[verifier::ext_equal]
pub enum AssignView {
    Assigned(DeviceView),
    NotFound,
    UnknownNetwork,
}

impl DeepView for AssignClientResult {
    type V = AssignView;

    open spec fn deep_view(&self) -> AssignView {
        match self {
            AssignClientResult::Assigned(d) => AssignView::Assigned(d.deep_view()),
            AssignClientResult::NotFound => AssignView::NotFound,
            AssignClientResult::UnknownNetwork => AssignView::UnknownNetwork,
        }
    }
}

/// What came of pushing a routing table.
#[derive(Debug, Clone, PartialEq, Eq)]
pub struct DevicePushResult {
    pub routes: Vec<RouteEntry>,
    /// How many peers received the table.
    pub count: u64,
}

impl Hub {
    /// A hub with no connections, sessions or bridges yet.
    pub fn new(cfg: ServerConfig) -> (r: Hub)
        ensures
            r.deep_view() == model::fresh_hub(cfg.deep_view()),
    {
        let r = Hub {
            cfg: cfg,
            bridges: Vec::new(),
            conns: Vec::new(),
            sessions: Vec::new(),
            pending: Vec::new(),
            ids: IdAllocator::starting_at(1),
            metrics_prev: Vec::new(),
            last_pushed_routes: Vec::new(),
            routes_dirty: Vec::new(),
        };
        assert(r.deep_view() =~= model::fresh_hub(cfg.deep_view()));
        r
    }
}

} // verus!
