//! What the hub's handlers do, as functions on the content of its state.
//!
//! Each `*_step` function gives the state after a command and the actions to
//! carry out.
use vstd::prelude::*;

use crate::addr;
use crate::addr::IpNet;
use crate::config;
use crate::config::{ApprovedView, NetView, PendingView, ServerConfigView};
use crate::device;
use crate::device::DeviceView;
use crate::events::{EventView, MetricsSample};
use crate::frame::{FrameView, RouteView};
use crate::hub::{
    ActionView, AssignView, ConnView, Counters, DeviceSetStepView, DeviceSetView, DirtyFlag,
    PendingInfo, PushedView, SessionNote, SessionView, SetBridgeIpView, SnapshotView,
    TapOutcomeView, UpdateView,
};
use crate::ids;
use crate::ids::{ConnId, SessionId};
use crate::routes;
use crate::seqs;
use crate::text;
use crate::uuids;
use crate::uuids::Uuid;

verus! {

/// The content of the hub's state.
#[verifier::ext_equal]
pub struct HubView {
    pub cfg: ServerConfigView,
    pub bridges: Seq<Uuid>,
    pub conns: Seq<ConnView>,
    pub sessions: Seq<SessionView>,
    pub pending: Seq<PendingInfo>,
    pub next_id: u64,
    pub metrics_prev: Seq<Counters>,
    pub pushed: Seq<PushedView>,
    pub dirty: Seq<DirtyFlag>,
}

/// The content of a request for a TAP.
#[verifier::ext_equal]
pub struct ApprovalView {
    pub sid: SessionId,
    pub conn: ConnId,
    pub client: Uuid,
    pub net: Uuid,
    pub tap_name: Seq<char>,
    pub bridged: bool,
}

/// The state after a command, and what there is to do.
pub type Step = (HubView, Seq<ActionView>);

/// The state of a new hub.
pub open spec fn fresh_hub(cfg: ServerConfigView) -> HubView {
    HubView {
        cfg: cfg,
        bridges: Seq::empty(),
        conns: Seq::empty(),
        sessions: Seq::empty(),
        pending: Seq::empty(),
        next_id: 1,
        metrics_prev: Seq::empty(),
        pushed: Seq::empty(),
        dirty: Seq::empty(),
    }
}

// ── Selecting rows ───────────────────────────────────────────────────────
/// Selects the network `n`.
pub open spec fn net_is(n: Uuid) -> spec_fn(NetView) -> bool {
    |r: NetView| r.uuid == n
}

/// Selects every network but `n`.
pub open spec fn net_is_not(n: Uuid) -> spec_fn(NetView) -> bool {
    |r: NetView| r.uuid != n
}

/// Selects the row of client `c` in network `n`.
pub open spec fn of_pair(c: Uuid, n: Uuid) -> spec_fn(ApprovedView) -> bool {
    |a: ApprovedView| a.client_uuid == c && a.net_uuid == n
}

/// Selects the members of network `n`.
pub open spec fn in_net(n: Uuid) -> spec_fn(ApprovedView) -> bool {
    |a: ApprovedView| a.net_uuid == n
}

/// Selects the rows that are not members of network `n`.
pub open spec fn not_in_net(n: Uuid) -> spec_fn(ApprovedView) -> bool {
    |a: ApprovedView| a.net_uuid != n
}

/// Selects the rows of every client but `c`.
pub open spec fn not_of_client(c: Uuid) -> spec_fn(ApprovedView) -> bool {
    |a: ApprovedView| a.client_uuid != c
}

/// Selects the clients without a network, but not `c`.
pub open spec fn pending_not_of(c: Uuid) -> spec_fn(PendingView) -> bool {
    |p: PendingView| p.client_uuid != c
}

/// Selects the connection `id`.
pub open spec fn conn_is(id: ConnId) -> spec_fn(ConnView) -> bool {
    |c: ConnView| c.id == id
}

/// Selects the connections of client `c`.
pub open spec fn conn_of(c: Uuid) -> spec_fn(ConnView) -> bool {
    |k: ConnView| k.client == Some(c)
}

/// Selects the session of client `c` in network `n`.
pub open spec fn session_of(c: Uuid, n: Uuid) -> spec_fn(SessionView) -> bool {
    |x: SessionView| x.client == c && x.net == n
}

/// Selects the sessions in network `n`.
pub open spec fn session_in(n: Uuid) -> spec_fn(SessionView) -> bool {
    |x: SessionView| x.net == n
}

/// Selects the session `sid`.
pub open spec fn session_is(sid: SessionId) -> spec_fn(SessionView) -> bool {
    |x: SessionView| x.sid == sid
}

/// Selects the waiting connection of client `c` in network `n`.
pub open spec fn waits_for(c: Uuid, n: Uuid) -> spec_fn(PendingInfo) -> bool {
    |p: PendingInfo| p.client_uuid == c && p.net_uuid == n
}

/// Selects every waiting connection but that of client `c` in network `n`.
pub open spec fn waits_not_for(c: Uuid, n: Uuid) -> spec_fn(PendingInfo) -> bool {
    |p: PendingInfo| !(p.client_uuid == c && p.net_uuid == n)
}

/// Selects what connection `id` waits for.
pub open spec fn waits_on(id: ConnId) -> spec_fn(PendingInfo) -> bool {
    |p: PendingInfo| p.conn == id
}

/// Selects what other connections than `id` wait for.
pub open spec fn waits_not_on(id: ConnId) -> spec_fn(PendingInfo) -> bool {
    |p: PendingInfo| p.conn != id
}

/// Selects what waits in other networks than `n`.
pub open spec fn waits_not_in(n: Uuid) -> spec_fn(PendingInfo) -> bool {
    |p: PendingInfo| p.net_uuid != n
}

/// Selects the table that network `n` was told.
pub open spec fn pushed_to(n: Uuid) -> spec_fn(PushedView) -> bool {
    |p: PushedView| p.net == n
}

/// Selects the tables that other networks than `n` were told.
pub open spec fn not_pushed_to(n: Uuid) -> spec_fn(PushedView) -> bool {
    |p: PushedView| p.net != n
}

/// Selects the flag of network `n`.
pub open spec fn flag_of(n: Uuid) -> spec_fn(DirtyFlag) -> bool {
    |d: DirtyFlag| d.net == n
}

/// Selects the flags of other networks than `n`.
pub open spec fn not_flag_of(n: Uuid) -> spec_fn(DirtyFlag) -> bool {
    |d: DirtyFlag| d.net != n
}

/// Selects the bridge of network `n`.
pub open spec fn bridge_of(n: Uuid) -> spec_fn(Uuid) -> bool {
    |b: Uuid| b == n
}

/// Selects the bridges of other networks than `n`.
pub open spec fn not_bridge_of(n: Uuid) -> spec_fn(Uuid) -> bool {
    |b: Uuid| b != n
}

// ── Looking things up ────────────────────────────────────────────────────
impl HubView {
    /// Whether `n` is a network of the server.
    pub open spec fn knows_net(self, n: Uuid) -> bool {
        seqs::some_where(self.cfg.networks, net_is(n))
    }

    /// Whether the bridge of `n` is up.
    pub open spec fn has_bridge(self, n: Uuid) -> bool {
        seqs::some_where(self.bridges, bridge_of(n))
    }

    /// Whether the connection is live.
    pub open spec fn has_conn(self, id: ConnId) -> bool {
        seqs::some_where(self.conns, conn_is(id))
    }

    /// A live connection of a client.
    pub open spec fn conn_for(self, c: Uuid) -> Option<ConnId> {
        match seqs::first_where(self.conns, conn_of(c)) {
            Some(k) => Some(k.id),
            None => None,
        }
    }

    /// The network that a client is a member of.
    pub open spec fn assigned_net(self, c: Uuid) -> Option<Uuid> {
        match seqs::first_where(self.cfg.approved_clients, config::of_client(c)) {
            Some(a) => Some(a.net_uuid),
            None => None,
        }
    }

    /// Whether a client is known to have no network.
    pub open spec fn in_pool(self, c: Uuid) -> bool {
        seqs::some_where(self.cfg.pending_clients, config::pending_of(c))
    }

    /// Whether a client has a row of either kind.
    pub open spec fn knows_client(self, c: Uuid) -> bool {
        seqs::some_where(self.cfg.approved_clients, config::of_client(c)) || self.in_pool(c)
    }

    /// The session of a client in a network.
    pub open spec fn session(self, c: Uuid, n: Uuid) -> Option<SessionView> {
        seqs::first_where(self.sessions, session_of(c, n))
    }

    /// Whether a connection of the client waits for admission to the network.
    pub open spec fn waits(self, c: Uuid, n: Uuid) -> bool {
        seqs::some_where(self.pending, waits_for(c, n))
    }
}

/// `conns` with the binding of one connection replaced.
pub open spec fn with_bound(conns: Seq<ConnView>, id: ConnId, b: Option<SessionId>) -> Seq<
    ConnView,
> {
    match seqs::position(conns, conn_is(id)) {
        Some(i) => conns.update(i, ConnView { bound: b, ..conns[i] }),
        None => conns,
    }
}

/// `conns` without one connection.
pub open spec fn without_conn(conns: Seq<ConnView>, id: ConnId) -> Seq<ConnView> {
    match seqs::position(conns, conn_is(id)) {
        Some(i) => conns.remove(i),
        None => conns,
    }
}

/// `sessions` with the address of one session replaced.
pub open spec fn with_ip(
    sessions: Seq<SessionView>,
    c: Uuid,
    n: Uuid,
    ip: Option<Seq<char>>,
) -> Seq<SessionView> {
    match seqs::position(sessions, session_of(c, n)) {
        Some(i) => sessions.update(i, SessionView { tap_ip: ip, ..sessions[i] }),
        None => sessions,
    }
}

/// `sessions` with the session of one client in one network put in place.
pub open spec fn with_session(sessions: Seq<SessionView>, x: SessionView) -> Seq<SessionView> {
    match seqs::position(sessions, session_of(x.client, x.net)) {
        Some(i) => sessions.update(i, x),
        None => sessions.push(x),
    }
}

/// `pending` with the waiting connection of one client in one network put in
/// place.
pub open spec fn with_waiting(pending: Seq<PendingInfo>, x: PendingInfo) -> Seq<PendingInfo> {
    match seqs::position(pending, waits_for(x.client_uuid, x.net_uuid)) {
        Some(i) => pending.update(i, x),
        None => pending.push(x),
    }
}

/// `pushed` with the table of one network put in place.
pub open spec fn with_pushed(pushed: Seq<PushedView>, x: PushedView) -> Seq<PushedView> {
    match seqs::position(pushed, pushed_to(x.net)) {
        Some(i) => pushed.update(i, x),
        None => pushed.push(x),
    }
}

/// `dirty` with the flag of one network put in place.
pub open spec fn with_flag(dirty: Seq<DirtyFlag>, x: DirtyFlag) -> Seq<DirtyFlag> {
    match seqs::position(dirty, flag_of(x.net)) {
        Some(i) => dirty.update(i, x),
        None => dirty.push(x),
    }
}

// ── Routing tables ───────────────────────────────────────────────────────
/// The actions that install every network's derived table on its own bridge.
pub open spec fn sync_actions(s: HubView, nets: Seq<NetView>) -> Seq<ActionView>
    decreases nets.len(),
{
    if nets.len() == 0 {
        Seq::empty()
    } else {
        let a = sync_actions(s, nets.drop_last());
        let n = nets.last().uuid;
        if s.has_bridge(n) {
            a.push(
                ActionView::ApplyRoutes {
                    net: n,
                    routes: routes::parse_all(routes::derived(s.cfg.approved_clients, n)),
                },
            )
        } else {
            a
        }
    }
}

/// The actions that bring the kernel's routes in line with the configuration.
pub open spec fn sync_routes(s: HubView) -> Seq<ActionView> {
    sync_actions(s, s.cfg.networks)
}

/// The table that the members of `n` were told last.
pub open spec fn told(s: HubView, n: Uuid) -> Seq<RouteView> {
    match seqs::first_where(s.pushed, pushed_to(n)) {
        Some(p) => p.routes,
        None => Seq::empty(),
    }
}

/// Whether every member of `n`, and there is one, is admitted and has an
/// address.
pub open spec fn all_online(rows: Seq<ApprovedView>, n: Uuid) -> bool {
    &&& seqs::some_where(rows, in_net(n))
    &&& forall|i: int|
        0 <= i < rows.len() && (#[trigger] rows[i]).net_uuid == n ==> rows[i].admitted
            && rows[i].tap_ip.len() > 0
}

/// Whether the members of `n` should be told a new table: all of them are
/// online, and the derived table is not the one they were told.
pub open spec fn needs_push(s: HubView, n: Uuid) -> bool {
    all_online(s.cfg.approved_clients, n) && !routes::same_table(
        routes::derived(s.cfg.approved_clients, n),
        told(s, n),
    )
}

/// The flag of `n` as the subscribers know it.
pub open spec fn flagged(s: HubView, n: Uuid) -> bool {
    match seqs::first_where(s.dirty, flag_of(n)) {
        Some(d) => d.dirty,
        None => false,
    }
}

/// Brings the flag of a known network up to date; tells the subscribers when
/// it changes, and only then.
pub open spec fn recheck_step(s: HubView, n: Uuid) -> Step {
    if s.knows_net(n) {
        let new = needs_push(s, n);
        (
            HubView { dirty: with_flag(s.dirty, DirtyFlag { net: n, dirty: new }), ..s },
            if new != flagged(s, n) {
                seq![ActionView::Emit(EventView::RoutesDirty { network: n, dirty: new })]
            } else {
                Seq::empty()
            },
        )
    } else {
        (s, Seq::empty())
    }
}

/// The frame that tells a newly bound connection the routes of its network.
pub open spec fn route_frames(s: HubView, conn: ConnId, n: Uuid, ip: Option<Seq<char>>) -> Seq<
    ActionView,
> {
    let table = routes::for_peer(routes::derived(s.cfg.approved_clients, n), ip);
    if table.len() > 0 {
        seq![ActionView::Send { conn: conn, frame: FrameView::SetRoutes(table) }]
    } else {
        Seq::empty()
    }
}

// ── Start and end ────────────────────────────────────────────────────────
/// The tables and flags of a hub that has just started: every network counts
/// as told what is derived for it.
pub open spec fn seeded(s: HubView, nets: Seq<NetView>) -> HubView
    decreases nets.len(),
{
    if nets.len() == 0 {
        s
    } else {
        let t = seeded(s, nets.drop_last());
        let n = nets.last().uuid;
        HubView {
            pushed: with_pushed(
                t.pushed,
                PushedView { net: n, routes: routes::derived(s.cfg.approved_clients, n) },
            ),
            dirty: with_flag(t.dirty, DirtyFlag { net: n, dirty: false }),
            ..t
        }
    }
}

/// Starting up, once the bridges are there.
pub open spec fn start_step(s: HubView) -> Step {
    (seeded(s, s.cfg.networks), sync_routes(s))
}

/// The order to end every session.
pub open spec fn kill_all(sessions: Seq<SessionView>) -> Seq<ActionView> {
    sessions.map_values(
        |x: SessionView| ActionView::ToSession { sid: x.sid, note: SessionNote::Kill },
    )
}

/// The order to destroy every bridge.
pub open spec fn destroy_all(bridges: Seq<Uuid>) -> Seq<ActionView> {
    bridges.map_values(|b: Uuid| ActionView::DestroyBridge { net: b })
}

/// The state after a network's bridge came up.
pub open spec fn bridge_up(s: HubView, n: Uuid) -> HubView {
    if s.has_bridge(n) {
        s
    } else {
        HubView { bridges: s.bridges.push(n), ..s }
    }
}

// ── Connections ──────────────────────────────────────────────────────────
/// A connection was accepted.
pub open spec fn new_conn_step(s: HubView, addr: Seq<char>) -> HubView {
    let e = ConnView { id: ConnId(s.next_id), addr: addr, client: None, bound: None };
    HubView {
        conns: match seqs::position(s.conns, conn_is(e.id)) {
            Some(i) => s.conns.update(i, e),
            None => s.conns.push(e),
        },
        next_id: ids::id_after(s.next_id),
        ..s
    }
}

/// A client introduced itself. One that is not known yet gets a row without a
/// network. In any case the client is told which network it belongs to.
pub open spec fn hello_step(s: HubView, conn: ConnId, client: Uuid) -> Step {
    let conns = match seqs::position(s.conns, conn_is(conn)) {
        Some(i) => s.conns.update(i, ConnView { client: Some(client), ..s.conns[i] }),
        None => s.conns,
    };
    let assign = if s.has_conn(conn) {
        seq![
            ActionView::Send {
                conn: conn,
                frame: FrameView::AssignNet { net_uuid: s.assigned_net(client) },
            },
        ]
    } else {
        Seq::empty()
    };
    if !s.knows_client(client) {
        let p = PendingView {
            client_uuid: client,
            display_name: Seq::empty(),
            lan_subnets: Seq::empty(),
        };
        (
            HubView {
                cfg: ServerConfigView { pending_clients: s.cfg.pending_clients.push(p), ..s.cfg },
                conns: conns,
                ..s
            },
            seq![
                ActionView::Persist,
                ActionView::Emit(
                    EventView::DevicePending {
                        network: uuids::nil_uuid(),
                        device: device::unassigned(client, Seq::empty(), Seq::empty(), true),
                    },
                ),
            ] + assign,
        )
    } else {
        let told = match seqs::first_where(s.cfg.pending_clients, config::pending_of(client)) {
            Some(p) => seq![
                ActionView::Emit(
                    EventView::DeviceChanged {
                        network: uuids::nil_uuid(),
                        device: device::unassigned(client, p.display_name, p.lan_subnets, true),
                    },
                ),
            ],
            None => Seq::empty(),
        };
        (HubView { conns: conns, ..s }, told + assign)
    }
}

/// What subscribers are told of the clients that waited on a connection.
pub open spec fn offline_events(waiting: Seq<PendingInfo>) -> Seq<ActionView> {
    waiting.map_values(
        |p: PendingInfo|
            ActionView::Emit(
                EventView::DeviceOffline { network: p.net_uuid, client_uuid: p.client_uuid },
            ),
    )
}

/// A connection ended. Its session, if it had one, lives on unbound.
pub open spec fn disconnect_step(s: HubView, conn: ConnId) -> Step {
    match seqs::position(s.conns, conn_is(conn)) {
        None => (s, Seq::empty()),
        Some(i) => {
            let e = s.conns[i];
            let k = match e.bound {
                Some(sid) => seqs::position(s.sessions, session_is(sid)),
                None => None,
            };
            let sessions = match k {
                Some(k) => if s.sessions[k].bound_conn == Some(conn) {
                    s.sessions.update(k, SessionView { bound_conn: None, ..s.sessions[k] })
                } else {
                    s.sessions
                },
                None => s.sessions,
            };
            let unbind = match k {
                Some(k) => seq![
                    ActionView::ToSession { sid: s.sessions[k].sid, note: SessionNote::Unbind },
                ],
                None => Seq::empty(),
            };
            let gone = match e.client {
                Some(c) => if s.in_pool(c) {
                    seq![
                        ActionView::Emit(
                            EventView::DeviceOffline {
                                network: uuids::nil_uuid(),
                                client_uuid: c,
                            },
                        ),
                    ]
                } else {
                    Seq::empty()
                },
                None => Seq::empty(),
            };
            (
                HubView {
                    conns: s.conns.remove(i),
                    sessions: sessions,
                    pending: s.pending.filter(waits_not_on(conn)),
                    ..s
                },
                unbind + offline_events(s.pending.filter(waits_on(conn))) + gone,
            )
        },
    }
}

// ── Joining ──────────────────────────────────────────────────────────────
/// A refusal.
pub open spec fn deny(conn: ConnId, reason: Seq<char>) -> Seq<ActionView> {
    seq![ActionView::Send { conn: conn, frame: FrameView::JoinDeny { reason: reason } }]
}

/// The kernel name of a client's TAP.
pub open spec fn tap_name_chars(c: Uuid) -> Seq<char> {
    "tap"@ + uuids::short_chars(c)
}

/// A TAP name without its `tap` prefix.
pub open spec fn tap_suffix(name: Seq<char>) -> Seq<char> {
    if "tap"@.is_prefix_of(name) {
        name.skip("tap"@.len() as int)
    } else {
        name
    }
}

/// A returning client takes its session up again: no TAP is created. The
/// connection that was bound before is unbound.
pub open spec fn rebind_step(s: HubView, conn: ConnId, c: Uuid, n: Uuid) -> Step {
    let i = seqs::position(s.sessions, session_of(c, n))->0;
    let x = s.sessions[i];
    let sessions = s.sessions.update(i, SessionView { bound_conn: Some(conn), ..x });
    let unbound = match x.bound_conn {
        Some(o) => with_bound(s.conns, o, None),
        None => s.conns,
    };
    let t = HubView { sessions: sessions, conns: with_bound(unbound, conn, Some(x.sid)), ..s };
    let unbind = match x.bound_conn {
        Some(o) => if s.has_conn(o) {
            seq![ActionView::Bind { conn: o, session: None }]
        } else {
            Seq::empty()
        },
        None => Seq::empty(),
    };
    (
        t,
        unbind + seq![
            ActionView::ToSession { sid: x.sid, note: SessionNote::Bind(conn) },
            ActionView::Bind { conn: conn, session: Some(x.sid) },
            ActionView::Send {
                conn: conn,
                frame: FrameView::JoinOk { tap_suffix: tap_suffix(x.tap_name), ip: x.tap_ip },
            },
        ] + route_frames(t, conn, n, x.tap_ip) + seq![
            ActionView::Emit(
                EventView::DeviceOnline {
                    network: n,
                    client_uuid: c,
                    sid: x.sid.0,
                    tap_name: x.tap_name,
                },
            ),
        ],
    )
}

/// A member that is not admitted is held without an answer.
pub open spec fn hold_step(s: HubView, conn: ConnId, row: ApprovedView) -> Step {
    let (c, n) = (row.client_uuid, row.net_uuid);
    (
        HubView {
            pending: with_waiting(
                s.pending,
                PendingInfo { client_uuid: c, net_uuid: n, conn: conn },
            ),
            ..s
        },
        if s.waits(c, n) {
            Seq::empty()
        } else {
            seq![
                ActionView::Emit(
                    EventView::DeviceChanged {
                        network: n,
                        device: DeviceView {
                            client_uuid: c,
                            net_uuid: Some(n),
                            display_name: row.display_name,
                            admitted: false,
                            tap_ip: None,
                            lan_subnets: row.lan_subnets,
                            online: true,
                            sid: None,
                            tap_name: None,
                        },
                    },
                ),
            ]
        },
    )
}

/// The request for the TAP of a new session.
pub open spec fn approval(s: HubView, sid: SessionId, conn: ConnId, c: Uuid, n: Uuid) -> ApprovalView {
    ApprovalView {
        sid: sid,
        conn: conn,
        client: c,
        net: n,
        tap_name: tap_name_chars(c),
        bridged: s.has_bridge(n),
    }
}

/// A client asks to join a network. Who has not introduced itself, asks for
/// an unknown network, belongs to no network or to another one is refused.
/// One with a session takes it up again. Otherwise an admitted member gets a
/// session, for which a TAP is requested, and any other is held.
pub open spec fn join_step(s: HubView, conn: ConnId, net: Uuid) -> (Step, Option<ApprovalView>) {
    match seqs::first_where(s.conns, conn_is(conn)) {
        None => ((s, Seq::empty()), None),
        Some(e) => match e.client {
            None => ((s, deny(conn, "no_hello"@)), None),
            Some(c) => if !s.knows_net(net) {
                ((s, deny(conn, "unknown_network"@)), None)
            } else if s.in_pool(c) {
                ((s, deny(conn, "unassigned"@)), None)
            } else {
                match seqs::first_where(s.cfg.approved_clients, config::of_client(c)) {
                    None => ((s, deny(conn, "unassigned"@)), None),
                    Some(row) => if row.net_uuid != net {
                        (
                            (
                                s,
                                deny(
                                    conn,
                                    "wrong_network:assigned="@ + uuids::uuid_chars(row.net_uuid),
                                ),
                            ),
                            None,
                        )
                    } else if s.session(c, net) is Some {
                        (rebind_step(s, conn, c, net), None)
                    } else if row.admitted {
                        let sid = SessionId(s.next_id);
                        let t = HubView { next_id: ids::id_after(s.next_id), ..s };
                        ((t, Seq::empty()), Some(approval(t, sid, conn, c, net)))
                    } else {
                        (hold_step(s, conn, row), None)
                    },
                }
            },
        },
    }
}

/// The TAP of a new session is there: the session starts, bound to the
/// connection, and the client is told.
pub open spec fn admit_step(s: HubView, a: ApprovalView) -> Step {
    let p = seqs::position(s.cfg.approved_clients, of_pair(a.client, a.net));
    let ip = match p {
        Some(i) => device::opt_ip(s.cfg.approved_clients[i].tap_ip),
        None => None,
    };
    let x = SessionView {
        sid: a.sid,
        client: a.client,
        net: a.net,
        tap_name: a.tap_name,
        tap_ip: ip,
        bound_conn: Some(a.conn),
    };
    let rows = match p {
        Some(i) => s.cfg.approved_clients.update(
            i,
            ApprovedView { admitted: true, ..s.cfg.approved_clients[i] },
        ),
        None => s.cfg.approved_clients.push(
            ApprovedView {
                client_uuid: a.client,
                net_uuid: a.net,
                tap_ip: Seq::empty(),
                display_name: Seq::empty(),
                lan_subnets: Seq::empty(),
                admitted: true,
            },
        ),
    };
    let save = match p {
        Some(i) => if s.cfg.approved_clients[i].admitted {
            Seq::empty()
        } else {
            seq![ActionView::Persist]
        },
        None => seq![ActionView::Persist],
    };
    let t = HubView {
        cfg: ServerConfigView { approved_clients: rows, ..s.cfg },
        conns: with_bound(s.conns, a.conn, Some(a.sid)),
        sessions: with_session(s.sessions, x),
        ..s
    };
    let bind = if s.has_conn(a.conn) {
        seq![ActionView::Bind { conn: a.conn, session: Some(a.sid) }]
    } else {
        Seq::empty()
    };
    let (u, flag) = recheck_step(t, a.net);
    (
        u,
        seq![
            ActionView::StartSession {
                sid: a.sid,
                conn: a.conn,
                client_uuid: a.client,
                net_uuid: a.net,
            },
        ] + bind + save + seq![
            ActionView::Send {
                conn: a.conn,
                frame: FrameView::JoinOk { tap_suffix: tap_suffix(a.tap_name), ip: ip },
            },
        ] + route_frames(t, a.conn, a.net, ip) + seq![
            ActionView::Emit(
                EventView::DeviceOnline {
                    network: a.net,
                    client_uuid: a.client,
                    sid: a.sid.0,
                    tap_name: a.tap_name,
                },
            ),
        ] + flag,
    )
}

/// What came of the request for a TAP. Where the connection is gone, nothing is
/// left of it. Without a TAP on a bridge there is no session, and the client is
/// told why.
pub open spec fn approve_step(s: HubView, a: ApprovalView, outcome: TapOutcomeView) -> Step {
    let destroy = if outcome is CreateFailed {
        Seq::empty()
    } else {
        seq![ActionView::DestroyTap { sid: a.sid }]
    };
    if !s.has_conn(a.conn) {
        (s, destroy)
    } else {
        match outcome {
            TapOutcomeView::CreateFailed(e) => (s, deny(a.conn, "server_error:"@ + e)),
            _ => if !s.has_bridge(a.net) {
                (s, destroy + deny(a.conn, "no_bridge"@))
            } else {
                match outcome {
                    TapOutcomeView::AttachFailed(e) => (
                        s,
                        destroy + deny(a.conn, "bridge_error:"@ + e),
                    ),
                    _ => admit_step(s, a),
                }
            },
        }
    }
}

/// A session ended.
pub open spec fn died_step(s: HubView, sid: SessionId) -> Step {
    match seqs::position(s.sessions, session_is(sid)) {
        None => (s, Seq::empty()),
        Some(k) => {
            let x = s.sessions[k];
            let c = match x.bound_conn {
                Some(id) => seqs::position(s.conns, conn_is(id)),
                None => None,
            };
            let conns = match c {
                Some(i) => if s.conns[i].bound == Some(sid) {
                    s.conns.update(i, ConnView { bound: None, ..s.conns[i] })
                } else {
                    s.conns
                },
                None => s.conns,
            };
            let unbind = match c {
                Some(i) => seq![ActionView::Bind { conn: s.conns[i].id, session: None }],
                None => Seq::empty(),
            };
            let tap = if s.has_bridge(x.net) {
                seq![ActionView::RemoveTap { net: x.net, tap_name: x.tap_name }]
            } else {
                Seq::empty()
            };
            (
                HubView { sessions: s.sessions.remove(k), conns: conns, ..s },
                unbind + tap + seq![
                    ActionView::Emit(
                        EventView::DeviceOffline { network: x.net, client_uuid: x.client },
                    ),
                ],
            )
        },
    }
}

/// One frame to every connection.
pub open spec fn broadcast(conns: Seq<ConnView>, frame: FrameView) -> Seq<ActionView> {
    conns.map_values(|c: ConnView| ActionView::Send { conn: c.id, frame: frame })
}

// ── Networks ─────────────────────────────────────────────────────────────
/// A bridge address: empty for none, else a network with a 16 or 24 bit
/// prefix. The error is a message.
pub open spec fn checked_ip(ip: Seq<char>) -> Result<Option<IpNet>, Seq<char>> {
    if ip.len() == 0 {
        Ok(None)
    } else {
        match addr::net_parsed(ip) {
            Some(n) => if n.prefix == 16 || n.prefix == 24 {
                Ok(Some(n))
            } else {
                Err(
                    "prefix /"@ + text::dec(n.prefix as nat)
                        + " not supported (use /16 or /24)"@,
                )
            },
            None => Err(addr::no_net_chars()),
        }
    }
}

/// The record of a new network, or why there can be none.
pub open spec fn planned_net(name: Seq<char>, ip: Option<Seq<char>>, fresh: Uuid) -> Result<
    NetView,
    Seq<char>,
> {
    match checked_ip(
        match ip {
            Some(s) => s,
            None => Seq::empty(),
        },
    ) {
        Err(m) => Err(m),
        Ok(n) => Ok(
            NetView {
                name: name,
                uuid: fresh,
                bridge_name: config::bridge_name_chars(fresh),
                bridge_ip: match n {
                    Some(n) => n.chars(),
                    None => Seq::empty(),
                },
            },
        ),
    }
}

/// A network was created; `up` says whether its bridge could be.
pub open spec fn add_net_step(s: HubView, rec: NetView, up: bool) -> Step {
    let b = if up {
        bridge_up(s, rec.uuid)
    } else {
        s
    };
    (
        HubView {
            cfg: ServerConfigView { networks: s.cfg.networks.push(rec), ..s.cfg },
            pushed: with_pushed(s.pushed, PushedView { net: rec.uuid, routes: Seq::empty() }),
            dirty: with_flag(s.dirty, DirtyFlag { net: rec.uuid, dirty: false }),
            ..b
        },
        seq![
            ActionView::Persist,
            ActionView::Emit(EventView::NetworkCreated { network: rec.uuid, name: rec.name }),
        ],
    )
}

/// A network gets a new name; false where it is unknown.
pub open spec fn rename_step(s: HubView, n: Uuid, name: Seq<char>) -> (Step, bool) {
    match seqs::position(s.cfg.networks, net_is(n)) {
        None => ((s, Seq::empty()), false),
        Some(i) => (
            (
                HubView {
                    cfg: ServerConfigView {
                        networks: s.cfg.networks.update(
                            i,
                            NetView { name: name, ..s.cfg.networks[i] },
                        ),
                        ..s.cfg
                    },
                    ..s
                },
                seq![
                    ActionView::Persist,
                    ActionView::Emit(EventView::NetworkChanged { network: n, name: name }),
                ],
            ),
            true,
        ),
    }
}

/// The address of a member after the prefix of its network changed; `None`
/// where the row is not touched.
pub open spec fn rewritten_ip(row: ApprovedView, n: Uuid, prefix: u8) -> Option<Seq<char>> {
    if row.net_uuid == n && row.tap_ip.len() > 0 {
        match addr::net_parsed(row.tap_ip) {
            Some(p) => Some(addr::ip_chars(p.addr) + "/"@ + text::dec(prefix as nat)),
            None => None,
        }
    } else {
        None
    }
}

/// The rows after the prefix of a network changed: the address stays, the
/// prefix is the new one.
pub open spec fn rewritten_rows(rows: Seq<ApprovedView>, n: Uuid, prefix: u8) -> Seq<
    ApprovedView,
> {
    rows.map_values(
        |r: ApprovedView|
            match rewritten_ip(r, n, prefix) {
                Some(ip) => ApprovedView { tap_ip: ip, ..r },
                None => r,
            },
    )
}

/// Tells the sessions of a network their new addresses. `rows` are the
/// members as they were before.
pub open spec fn notify_step(s: HubView, n: Uuid, prefix: u8, rows: Seq<ApprovedView>) -> Step
    decreases rows.len(),
{
    if rows.len() == 0 {
        (s, Seq::empty())
    } else {
        let (t, acts) = notify_step(s, n, prefix, rows.drop_last());
        match rewritten_ip(rows.last(), n, prefix) {
            None => (t, acts),
            Some(ip) => {
                let c = rows.last().client_uuid;
                match t.session(c, n) {
                    None => (t, acts),
                    Some(x) => (
                        HubView { sessions: with_ip(t.sessions, c, n, Some(ip)), ..t },
                        acts + set_ip_frame(t, x.bound_conn, Some(ip)),
                    ),
                }
            },
        }
    }
}

/// The frame that tells a session's client its new address.
pub open spec fn set_ip_frame(s: HubView, conn: Option<ConnId>, ip: Option<Seq<char>>) -> Seq<
    ActionView,
> {
    match conn {
        Some(id) => if s.has_conn(id) {
            seq![ActionView::Send { conn: id, frame: FrameView::SetIp { ip: ip } }]
        } else {
            Seq::empty()
        },
        None => Seq::empty(),
    }
}

/// The new prefix, where the old and the new address have different ones.
pub open spec fn new_prefix(before: Seq<char>, after: Option<IpNet>) -> Option<u8> {
    match (addr::net_parsed(before), after) {
        (Some(a), Some(b)) => if a.prefix != b.prefix {
            Some(b.prefix)
        } else {
            None
        },
        _ => None,
    }
}

/// The prefix that the members of `n` get with a new bridge address, where it
/// is another one.
pub open spec fn prefix_change(s: HubView, n: Uuid, ip: Seq<char>) -> Option<u8> {
    match (checked_ip(ip), seqs::first_where(s.cfg.networks, net_is(n))) {
        (Ok(net), Some(rec)) => new_prefix(rec.bridge_ip, net),
        _ => None,
    }
}

/// Whether every member of `n` with an IPv4 address kept the address, and got
/// the prefix.
pub open spec fn keeps_octets(
    before: Seq<ApprovedView>,
    after: Seq<ApprovedView>,
    n: Uuid,
    prefix: u8,
) -> bool {
    forall|i: int, a: u32, p: u8|
        #![trigger before[i], addr::dotted_cidr(a, p)]
        0 <= i < before.len() && p <= 32 && before[i].net_uuid == n && before[i].tap_ip
            == addr::dotted_cidr(a, p) ==> after[i] == (ApprovedView {
            tap_ip: addr::dotted_cidr(a, prefix),
            ..before[i]
        })
}

/// A network's bridge gets a new address. Where the prefix changes, the
/// members' addresses change with it.
pub open spec fn set_bridge_ip_step(s: HubView, n: Uuid, ip: Seq<char>) -> (Step, SetBridgeIpView) {
    match checked_ip(ip) {
        Err(m) => ((s, Seq::empty()), SetBridgeIpView::Invalid(m)),
        Ok(net) => match seqs::position(s.cfg.networks, net_is(n)) {
            None => ((s, Seq::empty()), SetBridgeIpView::NotFound),
            Some(i) => {
                let before = s.cfg.networks[i];
                let rec = NetView { bridge_ip: ip, ..before };
                let change = new_prefix(before.bridge_ip, net);
                let rows = match change {
                    Some(p) => rewritten_rows(s.cfg.approved_clients, n, p),
                    None => s.cfg.approved_clients,
                };
                let t = HubView {
                    cfg: ServerConfigView {
                        networks: s.cfg.networks.update(i, rec),
                        approved_clients: rows,
                        ..s.cfg
                    },
                    ..s
                };
                let set = if s.has_bridge(n) {
                    seq![ActionView::SetBridgeIp { net: n, ip: net }]
                } else {
                    Seq::empty()
                };
                let (u, frames) = match change {
                    Some(p) => notify_step(t, n, p, s.cfg.approved_clients),
                    None => (t, Seq::empty()),
                };
                let sync = match change {
                    Some(_) => sync_routes(u),
                    None => Seq::empty(),
                };
                (
                    (
                        u,
                        seq![ActionView::Persist] + set + frames + sync + seq![
                            ActionView::Emit(
                                EventView::NetworkChanged { network: n, name: rec.name },
                            ),
                        ],
                    ),
                    SetBridgeIpView::Updated(rec),
                )
            },
        },
    }
}

/// The order to end every session of a network.
pub open spec fn kill_net(sessions: Seq<SessionView>, n: Uuid) -> Seq<ActionView> {
    kill_all(sessions.filter(session_in(n)))
}

/// Moves the members of a deleted network among the clients without one. Name
/// and subnets go with them.
pub open spec fn detach_step(s: HubView, members: Seq<ApprovedView>) -> Step
    decreases members.len(),
{
    if members.len() == 0 {
        (s, Seq::empty())
    } else {
        let (t, acts) = detach_step(s, members.drop_last());
        let m = members.last();
        let c = m.client_uuid;
        let pool = if t.in_pool(c) {
            t.cfg.pending_clients
        } else {
            t.cfg.pending_clients.push(
                PendingView {
                    client_uuid: c,
                    display_name: m.display_name,
                    lan_subnets: m.lan_subnets,
                },
            )
        };
        let conn = t.conn_for(c);
        let conns = match conn {
            Some(id) => with_bound(t.conns, id, None),
            None => t.conns,
        };
        let idle = match conn {
            Some(id) => seq![
                ActionView::Send { conn: id, frame: FrameView::AssignNet { net_uuid: None } },
                ActionView::Bind { conn: id, session: None },
            ],
            None => Seq::empty(),
        };
        (
            HubView {
                cfg: ServerConfigView { pending_clients: pool, ..t.cfg },
                conns: conns,
                ..t
            },
            acts + idle + seq![
                ActionView::Emit(
                    EventView::DevicePending {
                        network: uuids::nil_uuid(),
                        device: device::unassigned(c, m.display_name, m.lan_subnets, conn is Some),
                    },
                ),
            ],
        )
    }
}

/// A network is deleted; false where it is unknown. Its sessions end, its
/// bridge goes, and its members stay known.
pub open spec fn delete_net_step(s: HubView, n: Uuid) -> (Step, bool) {
    if !s.knows_net(n) {
        ((s, Seq::empty()), false)
    } else {
        let rows = s.cfg.approved_clients;
        let t = HubView {
            cfg: ServerConfigView { approved_clients: rows.filter(not_in_net(n)), ..s.cfg },
            pending: s.pending.filter(waits_not_in(n)),
            ..s
        };
        let (u, moved) = detach_step(t, rows.filter(in_net(n)));
        let v = HubView {
            cfg: ServerConfigView { networks: s.cfg.networks.filter(net_is_not(n)), ..u.cfg },
            bridges: s.bridges.filter(not_bridge_of(n)),
            ..u
        };
        let bridge = if s.has_bridge(n) {
            seq![ActionView::DestroyBridge { net: n }]
        } else {
            Seq::empty()
        };
        (
            (
                HubView {
                    pushed: v.pushed.filter(not_pushed_to(n)),
                    dirty: v.dirty.filter(not_flag_of(n)),
                    ..v
                },
                kill_net(s.sessions, n) + moved + bridge + seq![ActionView::Persist] + sync_routes(
                    v,
                ) + seq![ActionView::Emit(EventView::NetworkDeleted { network: n })],
            ),
            true,
        )
    }
}

// ── Clients ──────────────────────────────────────────────────────────────
/// A member as the admin tools see it.
pub open spec fn member_entry(s: HubView, a: ApprovedView) -> DeviceView {
    let x = s.session(a.client_uuid, a.net_uuid);
    DeviceView {
        client_uuid: a.client_uuid,
        net_uuid: Some(a.net_uuid),
        display_name: a.display_name,
        admitted: a.admitted,
        tap_ip: device::opt_ip(a.tap_ip),
        lan_subnets: a.lan_subnets,
        online: x is Some || s.waits(a.client_uuid, a.net_uuid),
        sid: match x {
            Some(x) => Some(x.sid.0),
            None => None,
        },
        tap_name: match x {
            Some(x) => Some(x.tap_name),
            None => None,
        },
    }
}

/// Whether a client has a connection that is neither bound nor waiting.
pub open spec fn idle_conn(s: HubView, c: Uuid) -> spec_fn(ConnView) -> bool {
    |k: ConnView|
        k.client == Some(c) && k.bound is None && !seqs::some_where(
            s.pending,
            waiting_conn(c, k.id),
        )
}

/// Selects what a client waits for on one connection.
pub open spec fn waiting_conn(c: Uuid, id: ConnId) -> spec_fn(PendingInfo) -> bool {
    |p: PendingInfo| p.client_uuid == c && p.conn == id
}

/// A client as the admin tools see it, wherever its row is.
pub open spec fn client_entry(s: HubView, c: Uuid) -> DeviceView {
    match seqs::first_where(s.cfg.approved_clients, config::of_client(c)) {
        Some(a) => member_entry(s, a),
        None => match seqs::first_where(s.cfg.pending_clients, config::pending_of(c)) {
            Some(p) => device::unassigned(
                c,
                p.display_name,
                p.lan_subnets,
                s.conn_for(c) is Some,
            ),
            None => device::unassigned(c, Seq::empty(), Seq::empty(), s.conn_for(c) is Some),
        },
    }
}

/// Selects the members of a network, or of any.
pub open spec fn listed(net: Option<Uuid>) -> spec_fn(ApprovedView) -> bool {
    |a: ApprovedView| net is None || net == Some(a.net_uuid)
}

/// The device list: the members, and, where no network is asked for, the
/// clients without one.
pub open spec fn devices(s: HubView, net: Option<Uuid>) -> Seq<DeviceView> {
    let members = s.cfg.approved_clients.filter(listed(net)).map_values(
        |a: ApprovedView| member_entry(s, a),
    );
    if net is None {
        members + s.cfg.pending_clients.map_values(
            |p: PendingView|
                device::unassigned(
                    p.client_uuid,
                    p.display_name,
                    p.lan_subnets,
                    seqs::some_where(s.conns, idle_conn(s, p.client_uuid)),
                ),
        )
    } else {
        members
    }
}

/// Selects the flags that are up.
pub open spec fn raised() -> spec_fn(DirtyFlag) -> bool {
    |d: DirtyFlag| d.dirty
}

/// The networks whose members should be told a new table.
pub open spec fn dirty_nets(s: HubView) -> Seq<Uuid> {
    s.dirty.filter(raised()).map_values(|d: DirtyFlag| d.net)
}

/// The snapshot behind `list`.
pub open spec fn snapshot(s: HubView) -> SnapshotView {
    SnapshotView {
        networks: s.cfg.networks,
        sessions: s.sessions,
        pending: s.pending,
        routes_dirty: dirty_nets(s),
    }
}

/// The configuration with the rows of a client replaced by one: among the
/// members of a network, not admitted and without an address, or among the
/// clients without a network.
pub open spec fn moved_cfg(
    cfg: ServerConfigView,
    c: Uuid,
    name: Seq<char>,
    subnets: Seq<Seq<char>>,
    target: Option<Uuid>,
) -> ServerConfigView {
    let rows = cfg.approved_clients.filter(not_of_client(c));
    let pool = cfg.pending_clients.filter(pending_not_of(c));
    ServerConfigView {
        approved_clients: match target {
            Some(n) => rows.push(
                ApprovedView {
                    client_uuid: c,
                    net_uuid: n,
                    tap_ip: Seq::empty(),
                    display_name: name,
                    lan_subnets: subnets,
                    admitted: false,
                },
            ),
            None => rows,
        },
        pending_clients: match target {
            Some(_) => pool,
            None => pool.push(
                PendingView { client_uuid: c, display_name: name, lan_subnets: subnets },
            ),
        },
        ..cfg
    }
}

/// A client is moved to a network, or to none. What was configured of it goes
/// along; admission and address do not.
pub open spec fn assign_step(s: HubView, c: Uuid, target: Option<Uuid>) -> (Step, AssignView) {
    let unknown = match target {
        Some(n) => !s.knows_net(n),
        None => false,
    };
    if unknown {
        ((s, Seq::empty()), AssignView::UnknownNetwork)
    } else if !s.knows_client(c) && s.conn_for(c) is None {
        ((s, Seq::empty()), AssignView::NotFound)
    } else if s.assigned_net(c) == target {
        ((s, Seq::empty()), AssignView::Assigned(client_entry(s, c)))
    } else {
        let e = client_entry(s, c);
        let conn = s.conn_for(c);
        let pending = match s.assigned_net(c) {
            Some(o) => s.pending.filter(waits_not_for(c, o)),
            None => s.pending,
        };
        let kill = match s.assigned_net(c) {
            Some(o) => match s.session(c, o) {
                Some(x) => seq![ActionView::ToSession { sid: x.sid, note: SessionNote::Kill }],
                None => Seq::empty(),
            },
            None => Seq::empty(),
        };
        let t = HubView {
            cfg: moved_cfg(s.cfg, c, e.display_name, e.lan_subnets, target),
            conns: match conn {
                Some(id) => with_bound(s.conns, id, None),
                None => s.conns,
            },
            pending: pending,
            ..s
        };
        let tell = match conn {
            Some(id) => seq![
                ActionView::Send { conn: id, frame: FrameView::AssignNet { net_uuid: target } },
                ActionView::Bind { conn: id, session: None },
            ],
            None => Seq::empty(),
        };
        let (u, old_flag) = match s.assigned_net(c) {
            Some(o) => recheck_step(t, o),
            None => (t, Seq::empty()),
        };
        let (v, new_flag) = match target {
            Some(n) => recheck_step(u, n),
            None => (u, Seq::empty()),
        };
        let d = DeviceView {
            net_uuid: target,
            ..device::unassigned(c, e.display_name, e.lan_subnets, conn is Some)
        };
        (
            (
                v,
                kill + seq![ActionView::Persist] + tell + sync_routes(t) + old_flag + new_flag
                    + seq![
                    ActionView::Emit(
                        EventView::DeviceChanged {
                            network: match target {
                                Some(n) => n,
                                None => uuids::nil_uuid(),
                            },
                            device: d,
                        },
                    ),
                ],
            ),
            AssignView::Assigned(d),
        )
    }
}

/// Whether every subnet of a list is well formed.
pub open spec fn valid_subnets(subnets: Seq<Seq<char>>) -> bool {
    forall|i: int| 0 <= i < subnets.len() ==> addr::net_parsed(#[trigger] subnets[i]) is Some
}

/// Name and subnets of a client without a network change. `None` where there
/// is no such client, or a subnet is malformed.
pub open spec fn patch_step(
    s: HubView,
    c: Uuid,
    name: Option<Seq<char>>,
    subnets: Option<Seq<Seq<char>>>,
) -> (Step, Option<DeviceView>) {
    let valid = match subnets {
        Some(v) => valid_subnets(v),
        None => true,
    };
    match seqs::position(s.cfg.pending_clients, config::pending_of(c)) {
        None => ((s, Seq::empty()), None),
        Some(i) => if !valid {
            ((s, Seq::empty()), None)
        } else {
            let row = s.cfg.pending_clients[i];
            let new = PendingView {
                client_uuid: row.client_uuid,
                display_name: match name {
                    Some(n) => n,
                    None => row.display_name,
                },
                lan_subnets: match subnets {
                    Some(v) => v,
                    None => row.lan_subnets,
                },
            };
            let d = device::unassigned(
                c,
                new.display_name,
                new.lan_subnets,
                s.conn_for(c) is Some,
            );
            (
                (
                    HubView {
                        cfg: ServerConfigView {
                            pending_clients: s.cfg.pending_clients.update(i, new),
                            ..s.cfg
                        },
                        ..s
                    },
                    seq![
                        ActionView::Persist,
                        ActionView::Emit(
                            EventView::DeviceChanged { network: uuids::nil_uuid(), device: d },
                        ),
                    ],
                ),
                Some(d),
            )
        },
    }
}

// ── Members ──────────────────────────────────────────────────────────────
/// Selects the other members of `n` with the address `ip`.
pub open spec fn uses_ip(c: Uuid, n: Uuid, ip: Seq<char>) -> spec_fn(ApprovedView) -> bool {
    |a: ApprovedView| a.net_uuid == n && a.client_uuid != c && a.tap_ip == ip
}

/// Why a change to a member is refused, if it is.
pub open spec fn refused(s: HubView, c: Uuid, n: Uuid, u: UpdateView) -> Option<DeviceSetView> {
    let bad_ip = match u.tap_ip {
        Some(ip) => ip.len() > 0 && addr::net_parsed(ip) is None && addr::ip_parsed(ip) is None,
        None => false,
    };
    let holder = match u.tap_ip {
        Some(ip) => if ip.len() > 0 {
            seqs::first_where(s.cfg.approved_clients, uses_ip(c, n, ip))
        } else {
            None
        },
        None => None,
    };
    let bad_subnet = match u.lan_subnets {
        Some(v) => !valid_subnets(v),
        None => false,
    };
    if bad_ip {
        Some(DeviceSetView::InvalidIp)
    } else if holder is Some {
        Some(
            DeviceSetView::Conflict {
                msg: "tap_ip "@ + u.tap_ip->0 + " already used by "@ + uuids::short_chars(
                    holder->0.client_uuid,
                ),
            },
        )
    } else if bad_subnet {
        Some(DeviceSetView::InvalidIp)
    } else if !seqs::some_where(s.cfg.approved_clients, of_pair(c, n)) {
        Some(DeviceSetView::NotFound)
    } else {
        None
    }
}

/// A row with a change applied.
pub open spec fn updated_row(row: ApprovedView, u: UpdateView) -> ApprovedView {
    ApprovedView {
        client_uuid: row.client_uuid,
        net_uuid: row.net_uuid,
        tap_ip: match u.tap_ip {
            Some(ip) => ip,
            None => row.tap_ip,
        },
        display_name: match u.name {
            Some(n) => n,
            None => row.display_name,
        },
        lan_subnets: match u.lan_subnets {
            Some(v) => v,
            None => row.lan_subnets,
        },
        admitted: match u.admitted {
            Some(b) => b,
            None => row.admitted,
        },
    }
}

/// The session of a member is told its new address, and the kernel routes
/// follow.
pub open spec fn readdress_step(s: HubView, c: Uuid, n: Uuid, ip: Seq<char>) -> Step {
    let t = HubView { sessions: with_ip(s.sessions, c, n, device::opt_ip(ip)), ..s };
    let tell = match s.session(c, n) {
        Some(x) => set_ip_frame(s, x.bound_conn, device::opt_ip(ip)),
        None => Seq::empty(),
    };
    (t, tell + sync_routes(t))
}

/// A member loses its admission: its session ends and its connection is
/// dropped.
pub open spec fn kick_step(s: HubView, c: Uuid, n: Uuid) -> Step {
    let (conns, kill) = match s.session(c, n) {
        Some(x) => match x.bound_conn {
            Some(id) => (
                without_conn(s.conns, id),
                seq![
                    ActionView::ToSession { sid: x.sid, note: SessionNote::Kill },
                    ActionView::DropConn { conn: id },
                ],
            ),
            None => (
                s.conns,
                seq![ActionView::ToSession { sid: x.sid, note: SessionNote::Kill }],
            ),
        },
        None => (s.conns, Seq::empty()),
    };
    match seqs::position(s.pending, waits_for(c, n)) {
        Some(i) => (
            HubView {
                conns: without_conn(conns, s.pending[i].conn),
                pending: s.pending.remove(i),
                ..s
            },
            kill + seq![ActionView::DropConn { conn: s.pending[i].conn }],
        ),
        None => (HubView { conns: conns, ..s }, kill),
    }
}

/// The change to a member is complete: the subscribers are told.
pub open spec fn finish_set_step(s: HubView, c: Uuid, n: Uuid) -> (Step, DeviceSetView) {
    match seqs::first_where(s.cfg.approved_clients, of_pair(c, n)) {
        None => ((s, Seq::empty()), DeviceSetView::NotFound),
        Some(row) => {
            let d = member_entry(s, row);
            let (t, flag) = recheck_step(s, n);
            (
                (
                    t,
                    seq![ActionView::Emit(EventView::DeviceChanged { network: n, device: d })]
                        + flag,
                ),
                DeviceSetView::Updated(d),
            )
        },
    }
}

/// One member is changed. Admitting a client that waits requests a TAP for
/// it; withdrawing admission ends its session.
pub open spec fn device_set_step(s: HubView, c: Uuid, n: Uuid, u: UpdateView) -> (
    Step,
    DeviceSetStepView,
) {
    match refused(s, c, n, u) {
        Some(r) => ((s, Seq::empty()), DeviceSetStepView::Done(r)),
        None => {
            let i = seqs::position(s.cfg.approved_clients, of_pair(c, n))->0;
            let row = s.cfg.approved_clients[i];
            let new = updated_row(row, u);
            let t = HubView {
                cfg: ServerConfigView {
                    approved_clients: s.cfg.approved_clients.update(i, new),
                    ..s.cfg
                },
                ..s
            };
            let (v, readdress) = if row.tap_ip != new.tap_ip {
                readdress_step(t, c, n, new.tap_ip)
            } else {
                (t, Seq::empty())
            };
            let before = seq![ActionView::Persist] + readdress;
            if !row.admitted && new.admitted && v.waits(c, n) {
                let k = seqs::position(v.pending, waits_for(c, n))->0;
                let conn = v.pending[k].conn;
                let sid = SessionId(v.next_id);
                let w = HubView {
                    pending: v.pending.remove(k),
                    next_id: ids::id_after(v.next_id),
                    ..v
                };
                if w.has_conn(conn) {
                    (
                        (w, before),
                        DeviceSetStepView::Approve(approval(w, sid, conn, c, n)),
                    )
                } else {
                    let ((x, acts), r) = finish_set_step(w, c, n);
                    ((x, before + acts), DeviceSetStepView::Done(r))
                }
            } else {
                let (w, kick) = if row.admitted && !new.admitted {
                    kick_step(v, c, n)
                } else {
                    (v, Seq::empty())
                };
                let ((x, acts), r) = finish_set_step(w, c, n);
                ((x, before + kick + acts), DeviceSetStepView::Done(r))
            }
        },
    }
}

/// The frames that tell every bound member of a network its table. An empty
/// table is told too: it takes the place of what the member holds.
pub open spec fn push_frames(
    s: HubView,
    n: Uuid,
    table: Seq<RouteView>,
    sessions: Seq<SessionView>,
) -> Seq<ActionView>
    decreases sessions.len(),
{
    if sessions.len() == 0 {
        Seq::empty()
    } else {
        let a = push_frames(s, n, table, sessions.drop_last());
        let x = sessions.last();
        match x.bound_conn {
            Some(id) => if x.net == n && s.has_conn(id) {
                a.push(
                    ActionView::Send {
                        conn: id,
                        frame: FrameView::SetRoutes(routes::for_peer(table, x.tap_ip)),
                    },
                )
            } else {
                a
            },
            None => a,
        }
    }
}

/// A network's table is derived, installed and sent to its members.
pub open spec fn push_actions(s: HubView, n: Uuid) -> Seq<ActionView> {
    sync_routes(s) + push_frames(
        s,
        n,
        routes::derived(s.cfg.approved_clients, n),
        s.sessions,
    )
}

/// `count` members received the table: it now counts as told.
pub open spec fn finish_push_step(s: HubView, n: Uuid, table: Seq<RouteView>, count: u64) -> Step {
    let (t, flag) = recheck_step(
        HubView { pushed: with_pushed(s.pushed, PushedView { net: n, routes: table }), ..s },
        n,
    );
    (
        t,
        seq![
            ActionView::Emit(
                EventView::RoutesChanged { network: n, routes: table, count: count },
            ),
        ] + flag,
    )
}

// ── Metrics ──────────────────────────────────────────────────────────────
/// Selects the counters of one session.
pub open spec fn counts_of(sid: SessionId) -> spec_fn(Counters) -> bool {
    |k: Counters| k.sid == sid
}

/// `a - b`, or 0 where that is negative.
pub open spec fn less(a: u64, b: u64) -> u64 {
    if a >= b {
        (a - b) as u64
    } else {
        0
    }
}

/// The sample of a session: the rates are the differences to the previous
/// sample, and zero in the first.
pub open spec fn sample(x: SessionView, now: (u64, u64), prev: Seq<Counters>) -> MetricsSample {
    let (i, o) = match seqs::first_where(prev, counts_of(x.sid)) {
        Some(k) => (k.bytes_in, k.bytes_out),
        None => now,
    };
    MetricsSample {
        network: x.net,
        client_uuid: x.client,
        bps_in: less(now.0, i),
        bps_out: less(now.1, o),
        total_in: now.0,
        total_out: now.1,
    }
}

/// A second has passed. `now` are the counters of the sessions.
pub open spec fn tick_step(s: HubView, now: Seq<(u64, u64)>) -> Step {
    (
        HubView {
            metrics_prev: Seq::new(
                s.sessions.len(),
                |i: int|
                    Counters {
                        sid: s.sessions[i].sid,
                        bytes_in: now[i].0,
                        bytes_out: now[i].1,
                    },
            ),
            ..s
        },
        if s.sessions.len() == 0 {
            Seq::empty()
        } else {
            seq![
                ActionView::Emit(
                    EventView::MetricsTick {
                        samples: Seq::new(
                            s.sessions.len(),
                            |i: int| sample(s.sessions[i], now[i], s.metrics_prev),
                        ),
                    },
                ),
            ]
        },
    )
}

} // verus!
