//! What each command of the hub does: to its tables, to the clients, to the
//! sessions and to the kernel. What is not said to be done is not done.
use vstd::prelude::*;

use crate::config;
use crate::config::{ApprovedView, PendingView, ServerConfigView};
use crate::device::DeviceView;
use crate::events::EventView;
use crate::frame::FrameView;
use crate::hub::laws;
use crate::hub::model;
use crate::hub::model::HubView;
use crate::hub::soundness;
use crate::hub::{
    ActionView, ApprovalView, ConnView, DirtyFlag, PendingInfo, SessionNote, SessionView,
    TapOutcomeView,
};
use crate::ids::{ConnId, SessionId};
use crate::routes;
use crate::seqs;
use crate::uuids;
use crate::uuids::Uuid;

verus! {

broadcast use {
    vstd::seq_lib::lemma_seq_concat_contains_all_elements,
    vstd::seq_lib::lemma_seq_contains_after_push,
    vstd::seq_lib::lemma_seq_empty_contains_nothing,
};

// ── Looking things up ────────────────────────────────────────────────────
/// A network, a bridge, a connection and a client are known where the tables
/// hold them.
pub proof fn law_known_is_what_is_listed(s: HubView, n: Uuid, id: ConnId, c: Uuid)
    ensures
        s.knows_net(n) <==> exists|i: int|
            0 <= i < s.cfg.networks.len() && (#[trigger] s.cfg.networks[i]).uuid == n,
        s.has_bridge(n) <==> s.bridges.contains(n),
        s.has_conn(id) <==> exists|i: int|
            0 <= i < s.conns.len() && (#[trigger] s.conns[i]).id == id,
        s.in_pool(c) <==> exists|i: int|
            0 <= i < s.cfg.pending_clients.len() && (
            #[trigger] s.cfg.pending_clients[i]).client_uuid == c,
        s.knows_client(c) <==> s.in_pool(c) || s.assigned_net(c) is Some,
{
    seqs::lemma_position(s.cfg.networks, model::net_is(n));
    seqs::lemma_position(s.bridges, model::bridge_of(n));
    seqs::lemma_position(s.conns, model::conn_is(id));
    seqs::lemma_position(s.cfg.pending_clients, config::pending_of(c));
    seqs::lemma_position(s.cfg.approved_clients, config::of_client(c));
    assert forall|i: int|
        0 <= i < s.cfg.networks.len() && (
        #[trigger] s.cfg.networks[i]).uuid == n implies s.knows_net(n) by {
        assert(model::net_is(n)(s.cfg.networks[i]));
    }
    if s.bridges.contains(n) {
        let i = choose|i: int| 0 <= i < s.bridges.len() && s.bridges[i] == n;
        assert(model::bridge_of(n)(s.bridges[i]));
    }
    assert forall|i: int| 0 <= i < s.conns.len() && (#[trigger] s.conns[i]).id == id implies
        s.has_conn(id) by {
        assert(model::conn_is(id)(s.conns[i]));
    }
    assert forall|i: int|
        0 <= i < s.cfg.pending_clients.len() && (
        #[trigger] s.cfg.pending_clients[i]).client_uuid == c implies s.in_pool(c) by {
        assert(config::pending_of(c)(s.cfg.pending_clients[i]));
    }
}

/// The network of a client is the one of its row; a client without a row has
/// none.
pub proof fn law_assigned_network_is_that_of_the_row(s: HubView, c: Uuid, i: int)
    ensures
        s.assigned_net(c) is None <==> forall|j: int|
            0 <= j < s.cfg.approved_clients.len() ==> (
            #[trigger] s.cfg.approved_clients[j]).client_uuid != c,
        soundness::sound(s) && 0 <= i < s.cfg.approved_clients.len() ==> s.assigned_net(
            s.cfg.approved_clients[i].client_uuid,
        ) == Some(s.cfg.approved_clients[i].net_uuid),
{
    let rows = s.cfg.approved_clients;
    seqs::lemma_position(rows, config::of_client(c));
    assert forall|j: int| 0 <= j < rows.len() && s.assigned_net(c) is None implies (
    #[trigger] rows[j]).client_uuid != c by {
        assert(!config::of_client(c)(rows[j]));
    }
    if soundness::sound(s) && 0 <= i < rows.len() {
        let p = config::of_client(rows[i].client_uuid);
        assert forall|j: int| 0 <= j < i implies !p(#[trigger] rows[j]) by {
            assert(config::row_client()(rows[j]) != config::row_client()(rows[i]));
        }
        seqs::lemma_position_is(rows, p, i);
    }
}

/// The routes that are installed are, on each bridge that is up, those that are
/// derived for its network.
pub proof fn law_kernel_routes_follow_the_rows(s: HubView, x: ActionView)
    ensures
        model::sync_routes(s).contains(x) <==> (x matches ActionView::ApplyRoutes { net, routes }
            && s.has_bridge(net) && s.knows_net(net) && routes == routes::parse_all(
            routes::derived(s.cfg.approved_clients, net),
        )),
{
    let nets = s.cfg.networks;
    let all = model::sync_routes(s);
    if all.contains(x) {
        let k = choose|k: int| 0 <= k < all.len() && all[k] == x;
        laws::law_routes_stay_on_their_bridge(s, nets, k);
        let net = x->ApplyRoutes_net;
        let i = choose|i: int| 0 <= i < nets.len() && (#[trigger] nets[i]).uuid == net;
        seqs::lemma_some_where(nets, model::net_is(net), i);
    }
    if x is ApplyRoutes && s.has_bridge(x->ApplyRoutes_net) && s.knows_net(x->ApplyRoutes_net) {
        let net = x->ApplyRoutes_net;
        seqs::lemma_position(nets, model::net_is(net));
        let i = seqs::position(nets, model::net_is(net))->0;
        laws::law_every_bridge_gets_its_routes(s, nets, i);
    }
}

// ── Connections ──────────────────────────────────────────────────────────
/// Whoever introduces itself on a live connection is told, last of all, the
/// network of its row, admitted or not, and none where it has no row. Nothing
/// else is sent. Who was not known before is listed and saved.
pub proof fn law_hello_is_answered_with_the_assignment(
    s: HubView,
    conn: ConnId,
    c: Uuid,
    x: ActionView,
)
    ensures
        ({
            let (t, acts) = model::hello_step(s, conn, c);
            &&& s.has_conn(conn) ==> acts.len() > 0 && acts.last() == (ActionView::Send {
                conn: conn,
                frame: FrameView::AssignNet { net_uuid: s.assigned_net(c) },
            })
            &&& acts.contains(x) <==> match x {
                ActionView::Send { conn: id, frame } => id == conn && s.has_conn(conn) && frame == (
                FrameView::AssignNet { net_uuid: s.assigned_net(c) }),
                ActionView::Persist => !s.knows_client(c),
                ActionView::Emit(EventView::DevicePending { network, device }) => !s.knows_client(c)
                    && network == Uuid(0) && device == (DeviceView {
                    client_uuid: c,
                    net_uuid: None,
                    display_name: Seq::empty(),
                    admitted: false,
                    tap_ip: None,
                    lan_subnets: Seq::empty(),
                    online: true,
                    sid: None,
                    tap_name: None,
                }),
                ActionView::Emit(EventView::DeviceChanged { network, device }) => (
                seqs::first_where(s.cfg.pending_clients, config::pending_of(c)) matches Some(p)
                    && network == Uuid(0) && device == (DeviceView {
                    client_uuid: c,
                    net_uuid: None,
                    display_name: p.display_name,
                    admitted: false,
                    tap_ip: None,
                    lan_subnets: p.lan_subnets,
                    online: true,
                    sid: None,
                    tap_name: None,
                })),
                _ => false,
            }
        }),
{
    let (t, acts) = model::hello_step(s, conn, c);
    if x is Send {
        assert(acts.contains(x) <==> (s.has_conn(conn) && x == (ActionView::Send {
            conn: conn,
            frame: FrameView::AssignNet { net_uuid: s.assigned_net(c) },
        })));
    }
}

/// Whoever introduces itself is the client at the other end of its connection.
/// A client that nobody knew gets a row without a network, a name and subnets.
/// Everything else stays.
pub proof fn law_hello_names_the_client(s: HubView, conn: ConnId, c: Uuid)
    requires
        soundness::sound(s),
    ensures
        ({
            let t = model::hello_step(s, conn, c).0;
            &&& t == HubView { cfg: t.cfg, conns: t.conns, ..s }
            &&& t.conns.len() == s.conns.len()
            &&& forall|i: int|
                0 <= i < s.conns.len() ==> #[trigger] t.conns[i] == if s.conns[i].id == conn {
                    ConnView { client: Some(c), ..s.conns[i] }
                } else {
                    s.conns[i]
                }
            &&& t.cfg == if s.knows_client(c) {
                s.cfg
            } else {
                ServerConfigView {
                    pending_clients: s.cfg.pending_clients.push(
                        PendingView {
                            client_uuid: c,
                            display_name: Seq::empty(),
                            lan_subnets: Seq::empty(),
                        },
                    ),
                    ..s.cfg
                }
            }
        }),
{
    let t = model::hello_step(s, conn, c).0;
    let p = model::conn_is(conn);
    seqs::lemma_position(s.conns, p);
    assert forall|i: int| 0 <= i < s.conns.len() implies #[trigger] t.conns[i] == if s.conns[i].id
        == conn {
        ConnView { client: Some(c), ..s.conns[i] }
    } else {
        s.conns[i]
    } by {
        lemma_only_conn(s, conn, i);
    }
}

/// An identity stands for one connection.
pub proof fn lemma_only_conn(s: HubView, id: ConnId, i: int)
    requires
        soundness::sound(s),
        0 <= i < s.conns.len(),
    ensures
        s.conns[i].id == id <==> seqs::position(s.conns, model::conn_is(id)) == Some(i),
{
    let p = model::conn_is(id);
    seqs::lemma_position(s.conns, p);
    if s.conns[i].id == id {
        assert(p(s.conns[i]));
        let k = seqs::position(s.conns, p)->0;
        if k < i {
            assert(soundness::conn_key()(s.conns[k]) != soundness::conn_key()(s.conns[i]));
        }
    }
}

/// An identity stands for one session.
proof fn lemma_only_session(s: HubView, sid: SessionId, i: int)
    requires
        soundness::sound(s),
        0 <= i < s.sessions.len(),
    ensures
        s.sessions[i].sid == sid <==> seqs::position(s.sessions, model::session_is(sid)) == Some(i),
{
    let p = model::session_is(sid);
    seqs::lemma_position(s.sessions, p);
    if s.sessions[i].sid == sid {
        assert(p(s.sessions[i]));
        let k = seqs::position(s.sessions, p)->0;
        if k < i {
            assert(soundness::sid_key()(s.sessions[k]) != soundness::sid_key()(s.sessions[i]));
        }
    }
}

/// A client has one session in a network at most.
pub proof fn lemma_only_place(s: HubView, c: Uuid, n: Uuid, i: int)
    requires
        soundness::sound(s),
        0 <= i < s.sessions.len(),
    ensures
        s.sessions[i].client == c && s.sessions[i].net == n <==> seqs::position(
            s.sessions,
            model::session_of(c, n),
        ) == Some(i),
{
    let p = model::session_of(c, n);
    seqs::lemma_position(s.sessions, p);
    if s.sessions[i].client == c && s.sessions[i].net == n {
        assert(p(s.sessions[i]));
        let k = seqs::position(s.sessions, p)->0;
        if k < i {
            assert(soundness::pair_key()(s.sessions[k]) != soundness::pair_key()(s.sessions[i]));
        }
    }
}

/// The session of a client in a network is the one that the table holds for
/// both, and who waits is in the table of those who wait.
pub proof fn law_sessions_are_found(s: HubView, c: Uuid, n: Uuid, x: SessionView)
    requires
        soundness::sound(s),
    ensures
        s.session(c, n) == Some(x) <==> s.sessions.contains(x) && x.client == c && x.net == n,
        s.waits(c, n) <==> exists|i: int|
            0 <= i < s.pending.len() && (#[trigger] s.pending[i]).client_uuid == c
                && s.pending[i].net_uuid == n,
{
    seqs::lemma_position(s.sessions, model::session_of(c, n));
    if s.sessions.contains(x) && x.client == c && x.net == n {
        let i = choose|i: int| 0 <= i < s.sessions.len() && s.sessions[i] == x;
        lemma_only_place(s, c, n, i);
    }
    seqs::lemma_position(s.pending, model::waits_for(c, n));
    assert forall|i: int|
        0 <= i < s.pending.len() && (#[trigger] s.pending[i]).client_uuid == c
            && s.pending[i].net_uuid == n implies s.waits(c, n) by {
        assert(model::waits_for(c, n)(s.pending[i]));
    }
}

/// The connection of a client is one on which it introduced itself; where there
/// is none, no connection is the client's.
pub proof fn law_connections_are_found(s: HubView, c: Uuid)
    ensures
        match s.conn_for(c) {
            Some(id) => exists|i: int|
                0 <= i < s.conns.len() && (#[trigger] s.conns[i]).client == Some(c)
                    && s.conns[i].id == id && forall|j: int|
                    0 <= j < i ==> (#[trigger] s.conns[j]).client != Some(c),
            None => forall|i: int|
                0 <= i < s.conns.len() ==> (#[trigger] s.conns[i]).client != Some(c),
        },
{
    let p = model::conn_of(c);
    seqs::lemma_position(s.conns, p);
    match seqs::position(s.conns, p) {
        Some(i) => {
            assert(s.conns[i].client == Some(c));
            assert forall|j: int| 0 <= j < i implies (#[trigger] s.conns[j]).client != Some(c) by {
                assert(!p(s.conns[j]));
            }
        },
        None => {
            assert forall|j: int| 0 <= j < s.conns.len() implies (#[trigger] s.conns[j]).client
                != Some(c) by {
                assert(!p(s.conns[j]));
            }
        },
    }
}

/// A connection that was accepted gets the next identity. Who is at the other
/// end is not known yet, and no session is bound to it.
pub proof fn law_new_connection_is_nobodys(s: HubView, addr: Seq<char>)
    requires
        soundness::sound(s),
        s.next_id < u64::MAX,
    ensures
        model::new_conn_step(s, addr) == (HubView {
            conns: s.conns.push(
                ConnView { id: ConnId(s.next_id), addr: addr, client: None, bound: None },
            ),
            next_id: (s.next_id + 1) as u64,
            ..s
        }),
{
    let p = model::conn_is(ConnId(s.next_id));
    seqs::lemma_position(s.conns, p);
    if seqs::position(s.conns, p) is Some {
        assert(s.conns[seqs::position(s.conns, p)->0].id.0 < s.next_id);
    }
}

/// When a connection ends, the session that it is bound to is told. Of every
/// client that waited on it, and of one without a network, it is said that it
/// is offline. Nothing else is done.
pub proof fn law_lost_connection_is_told(s: HubView, conn: ConnId, x: ActionView)
    requires
        soundness::sound(s),
    ensures
        model::disconnect_step(s, conn).1.contains(x) <==> s.has_conn(conn) && match x {
            ActionView::ToSession { sid, note } => note == SessionNote::Unbind && (exists|i: int|
                0 <= i < s.conns.len() && (#[trigger] s.conns[i]).id == conn && s.conns[i].bound
                    == Some(sid)) && (exists|k: int|
                0 <= k < s.sessions.len() && (#[trigger] s.sessions[k]).sid == sid),
            ActionView::Emit(EventView::DeviceOffline { network, client_uuid }) => {
                ||| s.pending.contains(
                    PendingInfo { client_uuid: client_uuid, net_uuid: network, conn: conn },
                )
                ||| network == Uuid(0) && s.in_pool(client_uuid) && exists|i: int|
                    0 <= i < s.conns.len() && (#[trigger] s.conns[i]).id == conn
                        && s.conns[i].client == Some(client_uuid)
            },
            _ => false,
        },
{
    let p = model::conn_is(conn);
    let acts = model::disconnect_step(s, conn).1;
    seqs::lemma_position(s.conns, p);
    if s.has_conn(conn) {
        let i = seqs::position(s.conns, p)->0;
        assert forall|j: int| 0 <= j < s.conns.len() && (#[trigger] s.conns[j]).id == conn implies j
            == i by {
            lemma_only_conn(s, conn, j);
        }
        assert(s.conns[i].id == conn);
        match s.conns[i].bound {
            Some(sid) => {
                seqs::lemma_position(s.sessions, model::session_is(sid));
                assert forall|k: int|
                    0 <= k < s.sessions.len() && (
                    #[trigger] s.sessions[k]).sid == sid implies seqs::position(
                    s.sessions,
                    model::session_is(sid),
                ) is Some by {
                    assert(model::session_is(sid)(s.sessions[k]));
                }
            },
            None => {},
        }
        let waiting = s.pending.filter(model::waits_on(conn));
        let told = model::offline_events(waiting);
        seqs::lemma_filter_from(s.pending, model::waits_on(conn));
        if told.contains(x) {
            let k = choose|k: int| 0 <= k < told.len() && told[k] == x;
            let w = waiting[k];
            assert(s.pending.contains(w) && w.conn == conn);
            assert(w == (PendingInfo {
                client_uuid: w.client_uuid,
                net_uuid: w.net_uuid,
                conn: conn,
            }));
        }
        if let ActionView::Emit(EventView::DeviceOffline { network, client_uuid }) = x {
            let w = PendingInfo { client_uuid: client_uuid, net_uuid: network, conn: conn };
            if s.pending.contains(w) {
                seqs::lemma_filter_keeps(s.pending, model::waits_on(conn), w);
                let k = choose|k: int| 0 <= k < waiting.len() && waiting[k] == w;
                assert(told[k] == x);
                assert(told.contains(x));
            }
        }
    }
}

/// When a connection ends, it is forgotten, and so is what waited on it. The
/// session that was bound to it goes on without one. Everything else stays.
pub proof fn law_lost_connection_is_forgotten(
    s: HubView,
    conn: ConnId,
    e: ConnView,
    w: PendingInfo,
)
    requires
        soundness::sound(s),
        s.has_conn(conn),
    ensures
        ({
            let t = model::disconnect_step(s, conn).0;
            &&& t == HubView { conns: t.conns, sessions: t.sessions, pending: t.pending, ..s }
            &&& t.conns.contains(e) <==> s.conns.contains(e) && e.id != conn
            &&& t.pending.contains(w) <==> s.pending.contains(w) && w.conn != conn
            &&& t.sessions.len() == s.sessions.len()
            &&& forall|k: int|
                0 <= k < s.sessions.len() ==> #[trigger] t.sessions[k]
                    == if s.sessions[k].bound_conn == Some(conn) && (exists|i: int|
                    0 <= i < s.conns.len() && (#[trigger] s.conns[i]).id == conn && s.conns[i].bound
                        == Some(s.sessions[k].sid)) {
                    SessionView { bound_conn: None, ..s.sessions[k] }
                } else {
                    s.sessions[k]
                }
        }),
{
    let t = model::disconnect_step(s, conn).0;
    let p = model::conn_is(conn);
    seqs::lemma_position(s.conns, p);
    let i = seqs::position(s.conns, p)->0;
    assert(s.conns[i].id == conn);
    assert forall|j: int| 0 <= j < s.conns.len() && (
    #[trigger] s.conns[j]).id == conn implies j == i by {
        lemma_only_conn(s, conn, j);
    }
    seqs::lemma_distinct_remove(s.conns, soundness::conn_key(), i);
    seqs::lemma_removed(s.conns, i, e);
    if s.conns.contains(e) {
        let j = choose|j: int| 0 <= j < s.conns.len() && s.conns[j] == e;
        assert(s.conns[j].id == conn ==> j == i);
    }
    seqs::lemma_filter_from(s.pending, model::waits_not_on(conn));
    if s.pending.contains(w) && w.conn != conn {
        seqs::lemma_filter_keeps(s.pending, model::waits_not_on(conn), w);
    }
    if t.pending.contains(w) {
        let k = choose|k: int| 0 <= k < t.pending.len() && t.pending[k] == w;
        assert(model::waits_not_on(conn)(t.pending[k]));
    }
    if s.conns[i].bound is Some {
        seqs::lemma_position(s.sessions, model::session_is(s.conns[i].bound->0));
    }
    assert forall|k: int| 0 <= k < s.sessions.len() implies #[trigger] t.sessions[k]
        == if s.sessions[k].bound_conn == Some(conn) && (exists|i: int|
        0 <= i < s.conns.len() && (#[trigger] s.conns[i]).id == conn && s.conns[i].bound == Some(
            s.sessions[k].sid,
        )) {
        SessionView { bound_conn: None, ..s.sessions[k] }
    } else {
        s.sessions[k]
    } by {
        match s.conns[i].bound {
            Some(sid) => {
                lemma_only_session(s, sid, k);
            },
            None => {},
        }
    }
}

// ── Joining ──────────────────────────────────────────────────────────────
/// Whether the connection is live and the client introduced itself on it.
pub open spec fn speaks_for(s: HubView, conn: ConnId, c: Uuid) -> bool {
    seqs::first_where(s.conns, model::conn_is(conn)) matches Some(e) && e.client == Some(c)
}

/// A join is refused, with the first reason that applies: nobody introduced
/// itself, the network is unknown, the client has none, or it has another one.
/// Then nothing changes, and nothing is sent but the reason. Who is not
/// connected is not answered.
pub proof fn law_refusals(s: HubView, conn: ConnId, n: Uuid)
    ensures
        ({
            let (step, request) = model::join_step(s, conn, n);
            let e = seqs::first_where(s.conns, model::conn_is(conn));
            let no = |reason: Seq<char>|
                step == (
                    s,
                    seq![
                        ActionView::Send {
                            conn: conn,
                            frame: FrameView::JoinDeny { reason: reason },
                        },
                    ],
                ) && request is None;
            match e {
                None => step == (s, Seq::<ActionView>::empty()) && request is None,
                Some(e) => match e.client {
                    None => no("no_hello"@),
                    Some(c) => {
                        &&& !s.knows_net(n) ==> no("unknown_network"@)
                        &&& s.knows_net(n) && (s.in_pool(c) || s.assigned_net(c) is None) ==> no(
                            "unassigned"@,
                        )
                        &&& s.knows_net(n) && !s.in_pool(c) && (s.assigned_net(c) matches Some(o)
                            && o != n) ==> no(
                            "wrong_network:assigned="@ + uuids::uuid_chars(s.assigned_net(c)->0),
                        )
                    },
                },
            }
        }),
{
}

/// Whether a client may join a network: the network is known, and the client is
/// a member of it.
pub open spec fn may_join(s: HubView, c: Uuid, n: Uuid) -> bool {
    s.knows_net(n) && !s.in_pool(c) && s.assigned_net(c) == Some(n)
}

/// The TAP of a client is named after it, and the client is told the part of
/// the name that is its own.
pub proof fn law_tap_names(c: Uuid)
    ensures
        model::tap_name_chars(c) == "tap"@ + uuids::short_chars(c),
        model::tap_suffix(model::tap_name_chars(c)) == uuids::short_chars(c),
        model::tap_name_chars(c).len() <= 15,
{
    reveal_strlit("tap");
    assert(model::tap_name_chars(c).skip(3) =~= uuids::short_chars(c));
    assert("tap"@.is_prefix_of(model::tap_name_chars(c)));
}

/// An admitted member without a session has a TAP requested for it, under a new
/// identity. Nothing else happens until the TAP is there.
pub proof fn law_admitted_member_gets_a_tap(s: HubView, conn: ConnId, c: Uuid, n: Uuid)
    requires
        speaks_for(s, conn, c),
        may_join(s, c, n),
        s.session(c, n) is None,
        (seqs::first_where(s.cfg.approved_clients, config::of_client(c))->0).admitted,
    ensures
        ({
            let ((t, acts), request) = model::join_step(s, conn, n);
            &&& request == Some(
                ApprovalView {
                    sid: SessionId(s.next_id),
                    conn: conn,
                    client: c,
                    net: n,
                    tap_name: "tap"@ + uuids::short_chars(c),
                    bridged: s.has_bridge(n),
                },
            )
            &&& acts.len() == 0
            &&& t == HubView { next_id: t.next_id, ..s }
            &&& t.next_id != s.next_id
        }),
{
    seqs::lemma_position(s.cfg.approved_clients, config::of_client(c));
}

/// A member that is not admitted waits on the connection that it asked on, and
/// on no other. Where it did not wait before, it is said to be there. Nobody
/// is answered.
pub proof fn law_unadmitted_member_waits(
    s: HubView,
    conn: ConnId,
    c: Uuid,
    n: Uuid,
    x: ActionView,
    w: PendingInfo,
)
    requires
        soundness::sound(s),
        speaks_for(s, conn, c),
        may_join(s, c, n),
        s.session(c, n) is None,
        !(seqs::first_where(s.cfg.approved_clients, config::of_client(c))->0).admitted,
    ensures
        ({
            let ((t, acts), request) = model::join_step(s, conn, n);
            let row = seqs::first_where(s.cfg.approved_clients, config::of_client(c))->0;
            &&& request is None
            &&& t == HubView { pending: t.pending, ..s }
            &&& t.pending.contains(w) <==> w == (PendingInfo {
                client_uuid: c,
                net_uuid: n,
                conn: conn,
            }) || s.pending.contains(w) && !(w.client_uuid == c && w.net_uuid == n)
            &&& acts.contains(x) <==> !s.waits(c, n) && x == ActionView::Emit(
                EventView::DeviceChanged {
                    network: n,
                    device: DeviceView {
                        client_uuid: c,
                        net_uuid: Some(n),
                        display_name: row.display_name,
                        admitted: false,
                        tap_ip: None,
                        lan_subnets: row.lan_subnets,
                        online: true,
                        sid: None,
                        tap_name: None,
                    },
                },
            )
        }),
{
    let t = model::join_step(s, conn, n).0.0;
    let p = model::waits_for(c, n);
    let new = PendingInfo { client_uuid: c, net_uuid: n, conn: conn };
    seqs::lemma_position(s.cfg.approved_clients, config::of_client(c));
    seqs::lemma_position(s.pending, p);
    match seqs::position(s.pending, p) {
        Some(i) => {
            assert forall|j: int| 0 <= j < s.pending.len() && j != i implies !p(
                #[trigger] s.pending[j],
            ) by {
                if i < j {
                    assert(soundness::wait_key()(s.pending[i]) != soundness::wait_key()(
                        s.pending[j],
                    ));
                }
            }
            assert(t.pending == s.pending.update(i, new));
            assert(t.pending[i] == new);
            if t.pending.contains(w) && w != new {
                let k = choose|k: int| 0 <= k < t.pending.len() && t.pending[k] == w;
                assert(s.pending[k] == w);
                assert(!p(s.pending[k]));
            }
            if s.pending.contains(w) && !(w.client_uuid == c && w.net_uuid == n) {
                let k = choose|k: int| 0 <= k < s.pending.len() && s.pending[k] == w;
                assert(t.pending[k] == w);
            }
        },
        None => {
            assert(t.pending == s.pending.push(new));
            if s.pending.contains(w) {
                let k = choose|k: int| 0 <= k < s.pending.len() && s.pending[k] == w;
                assert(!p(s.pending[k]));
            }
        },
    }
}

/// A client that comes back is bound to its session again: the session and the
/// connection are told of each other, the connection that was bound before is
/// unbound, and the client is told its TAP, its address and its routes. Nothing
/// else is done, and no TAP is created.
pub proof fn law_returning_client_is_bound_again(
    s: HubView,
    conn: ConnId,
    c: Uuid,
    n: Uuid,
    x: SessionView,
    y: ActionView,
)
    requires
        speaks_for(s, conn, c),
        may_join(s, c, n),
        s.session(c, n) == Some(x),
    ensures
        ({
            let ((t, acts), request) = model::join_step(s, conn, n);
            let table = routes::for_peer(routes::derived(s.cfg.approved_clients, n), x.tap_ip);
            &&& request is None
            &&& acts.contains(y) <==> match y {
                ActionView::Bind { conn: id, session } => {
                    ||| id == conn && session == Some(x.sid)
                    ||| x.bound_conn == Some(id) && s.has_conn(id) && session is None
                },
                ActionView::ToSession { sid, note } => sid == x.sid && note == SessionNote::Bind(
                    conn,
                ),
                ActionView::Send { conn: id, frame } => id == conn && {
                    ||| frame == (FrameView::JoinOk {
                        tap_suffix: model::tap_suffix(x.tap_name),
                        ip: x.tap_ip,
                    })
                    ||| table.len() > 0 && frame == FrameView::SetRoutes(table)
                },
                ActionView::Emit(EventView::DeviceOnline { network, client_uuid, sid, tap_name }) =>
                network == n && client_uuid == c && sid == x.sid.0 && tap_name == x.tap_name,
                _ => false,
            }
            // The connection is bound after the old one was unbound.
            &&& exists|k: int|
                0 <= k < acts.len() && #[trigger] acts[k] == (ActionView::Bind {
                    conn: conn,
                    session: Some(x.sid),
                }) && forall|j: int| k < j < acts.len() ==> !(#[trigger] acts[j] is Bind)
        }),
{
    let acts = model::join_step(s, conn, n).0.1;
    seqs::lemma_position(s.cfg.approved_clients, config::of_client(c));
    seqs::lemma_position(s.sessions, model::session_of(c, n));
    let k: int = match x.bound_conn {
        Some(o) => if s.has_conn(o) {
            2
        } else {
            1
        },
        None => 1,
    };
    assert(acts[k] == (ActionView::Bind { conn: conn, session: Some(x.sid) }));
}

/// A client that comes back finds its session as it was, bound to the new
/// connection; that connection leads to the session, and the one before to
/// none. Everything else stays.
pub proof fn law_returning_client_changes_the_binding_only(
    s: HubView,
    conn: ConnId,
    c: Uuid,
    n: Uuid,
    x: SessionView,
)
    requires
        soundness::sound(s),
        speaks_for(s, conn, c),
        may_join(s, c, n),
        s.session(c, n) == Some(x),
    ensures
        ({
            let t = model::join_step(s, conn, n).0.0;
            &&& t == HubView { conns: t.conns, sessions: t.sessions, ..s }
            &&& t.sessions.len() == s.sessions.len()
            &&& forall|i: int|
                0 <= i < s.sessions.len() ==> #[trigger] t.sessions[i] == if s.sessions[i] == x {
                    SessionView { bound_conn: Some(conn), ..x }
                } else {
                    s.sessions[i]
                }
            &&& t.conns.len() == s.conns.len()
            &&& forall|i: int|
                0 <= i < s.conns.len() ==> #[trigger] t.conns[i] == (ConnView {
                    bound: if s.conns[i].id == conn {
                        Some(x.sid)
                    } else if x.bound_conn == Some(s.conns[i].id) {
                        None
                    } else {
                        s.conns[i].bound
                    },
                    ..s.conns[i]
                })
        }),
{
    let t = model::join_step(s, conn, n).0.0;
    seqs::lemma_position(s.cfg.approved_clients, config::of_client(c));
    seqs::lemma_position(s.sessions, model::session_of(c, n));
    let unbound = match x.bound_conn {
        Some(o) => model::with_bound(s.conns, o, None),
        None => s.conns,
    };
    if x.bound_conn is Some {
        lemma_bound(s, x.bound_conn->0, None);
    }
    assert(unbound.len() == s.conns.len());
    let u = HubView { conns: unbound, ..s };
    assert forall|i: int, j: int| 0 <= i < j < u.conns.len() implies soundness::conn_key()(
        #[trigger] u.conns[i],
    ) != soundness::conn_key()(#[trigger] u.conns[j]) by {
        assert(soundness::conn_key()(s.conns[i]) != soundness::conn_key()(s.conns[j]));
    }
    lemma_bound_in(unbound, conn, Some(x.sid));
    assert forall|i: int| 0 <= i < s.sessions.len() implies #[trigger] t.sessions[i]
        == if s.sessions[i] == x {
        SessionView { bound_conn: Some(conn), ..x }
    } else {
        s.sessions[i]
    } by {
        lemma_only_place(s, c, n, i);
    }
}

/// Binding one connection leaves the others.
pub proof fn lemma_bound_in(conns: Seq<ConnView>, id: ConnId, b: Option<SessionId>)
    requires
        seqs::distinct(conns, soundness::conn_key()),
    ensures
        model::with_bound(conns, id, b).len() == conns.len(),
        forall|i: int|
            0 <= i < conns.len() ==> #[trigger] model::with_bound(conns, id, b)[i] == (ConnView {
                bound: if conns[i].id == id {
                    b
                } else {
                    conns[i].bound
                },
                ..conns[i]
            }),
{
    let p = model::conn_is(id);
    seqs::lemma_position(conns, p);
    assert forall|i: int| 0 <= i < conns.len() implies #[trigger] model::with_bound(conns, id, b)[i]
        == (ConnView {
        bound: if conns[i].id == id {
            b
        } else {
            conns[i].bound
        },
        ..conns[i]
    }) by {
        if p(conns[i]) {
            let k = seqs::position(conns, p)->0;
            if k < i {
                assert(soundness::conn_key()(conns[k]) != soundness::conn_key()(conns[i]));
            }
        }
    }
}

proof fn lemma_bound(s: HubView, id: ConnId, b: Option<SessionId>)
    requires
        soundness::sound(s),
    ensures
        model::with_bound(s.conns, id, b).len() == s.conns.len(),
        forall|i: int|
            0 <= i < s.conns.len() ==> #[trigger] model::with_bound(s.conns, id, b)[i] == (ConnView {
                bound: if s.conns[i].id == id {
                    b
                } else {
                    s.conns[i].bound
                },
                ..s.conns[i]
            }),
{
    lemma_bound_in(s.conns, id, b);
}

// ── Sessions ─────────────────────────────────────────────────────────────
/// The row of a member in a network, where it has one.
pub open spec fn row_of(s: HubView, c: Uuid, n: Uuid) -> Option<ApprovedView> {
    seqs::first_where(s.cfg.approved_clients, model::of_pair(c, n))
}

/// The row of a member is the one that the table holds for both.
pub proof fn law_rows_are_found(s: HubView, c: Uuid, n: Uuid, a: ApprovedView)
    requires
        soundness::sound(s),
    ensures
        row_of(s, c, n) == Some(a) <==> s.cfg.approved_clients.contains(a) && a.client_uuid == c
            && a.net_uuid == n,
{
    let rows = s.cfg.approved_clients;
    let p = model::of_pair(c, n);
    seqs::lemma_position(rows, p);
    if rows.contains(a) && a.client_uuid == c && a.net_uuid == n {
        let i = choose|i: int| 0 <= i < rows.len() && rows[i] == a;
        assert(p(rows[i]));
        let k = seqs::position(rows, p)->0;
        if k < i {
            assert(config::row_client()(rows[k]) != config::row_client()(rows[i]));
        }
    }
}

/// The address that a row gives its client: none where it is empty.
pub open spec fn given_ip(row: Option<ApprovedView>) -> Option<Seq<char>> {
    match row {
        Some(a) => if a.tap_ip.len() > 0 {
            Some(a.tap_ip)
        } else {
            None
        },
        None => None,
    }
}

/// When the TAP of a new session is on the bridge, the session is started and
/// the connection bound to it; the client is told its TAP, its address and its
/// routes. The admission is saved where it is new. Nothing else is done.
pub proof fn law_session_is_started(t: HubView, a: ApprovalView, x: ActionView)
    requires
        t.has_conn(a.conn),
        t.has_bridge(a.net),
    ensures
        ({
            let (u, acts) = model::approve_step(t, a, TapOutcomeView::Ready);
            let row = row_of(t, a.client, a.net);
            let table = routes::for_peer(
                routes::derived(u.cfg.approved_clients, a.net),
                given_ip(row),
            );
            acts.contains(x) <==> match x {
                ActionView::StartSession { sid, conn, client_uuid, net_uuid } => sid == a.sid && conn
                    == a.conn && client_uuid == a.client && net_uuid == a.net,
                ActionView::Bind { conn, session } => conn == a.conn && session == Some(a.sid),
                ActionView::Persist => !(row matches Some(r) && r.admitted),
                ActionView::Send { conn, frame } => conn == a.conn && {
                    ||| frame == (FrameView::JoinOk {
                        tap_suffix: model::tap_suffix(a.tap_name),
                        ip: given_ip(row),
                    })
                    ||| table.len() > 0 && frame == FrameView::SetRoutes(table)
                },
                ActionView::Emit(EventView::DeviceOnline { network, client_uuid, sid, tap_name }) =>
                network == a.net && client_uuid == a.client && sid == a.sid.0 && tap_name
                    == a.tap_name,
                ActionView::Emit(EventView::RoutesDirty { network, dirty }) => network == a.net
                    && t.knows_net(a.net) && dirty == model::needs_push(u, a.net) && dirty
                    != model::flagged(t, a.net),
                _ => false,
            }
        }),
{
}

/// When a session starts, it is listed with its client, network, TAP and
/// address, bound to its connection; the connection leads to it; and the member
/// is admitted. The other sessions, connections and rows stay.
pub proof fn law_session_is_listed(t: HubView, a: ApprovalView)
    requires
        soundness::sound(t),
        soundness::ready(t, a),
        t.has_conn(a.conn),
        t.has_bridge(a.net),
    ensures
        ({
            let u = model::approve_step(t, a, TapOutcomeView::Ready).0;
            let rows = t.cfg.approved_clients;
            &&& u == HubView {
                cfg: ServerConfigView { approved_clients: u.cfg.approved_clients, ..t.cfg },
                conns: u.conns,
                sessions: u.sessions,
                dirty: u.dirty,
                ..t
            }
            &&& u.session(a.client, a.net) == Some(
                SessionView {
                    sid: a.sid,
                    client: a.client,
                    net: a.net,
                    tap_name: a.tap_name,
                    tap_ip: given_ip(row_of(t, a.client, a.net)),
                    bound_conn: Some(a.conn),
                },
            )
            &&& forall|y: SessionView|
                !(y.client == a.client && y.net == a.net) ==> (#[trigger] u.sessions.contains(y)
                    <==> t.sessions.contains(y))
            &&& u.conns.len() == t.conns.len()
            &&& forall|i: int|
                0 <= i < t.conns.len() ==> #[trigger] u.conns[i] == (ConnView {
                    bound: if t.conns[i].id == a.conn {
                        Some(a.sid)
                    } else {
                        t.conns[i].bound
                    },
                    ..t.conns[i]
                })
            &&& u.cfg.approved_clients.len() == rows.len()
            &&& forall|i: int|
                0 <= i < rows.len() ==> #[trigger] u.cfg.approved_clients[i] == (ApprovedView {
                    admitted: rows[i].admitted || (rows[i].client_uuid == a.client
                        && rows[i].net_uuid == a.net),
                    ..rows[i]
                })
        }),
{
    let u = model::approve_step(t, a, TapOutcomeView::Ready).0;
    let rows = t.cfg.approved_clients;
    let q = model::of_pair(a.client, a.net);
    soundness::lemma_member_pair(rows, a.client, a.net);
    seqs::lemma_position(rows, q);
    seqs::lemma_position(rows, config::of_client(a.client));
    assert forall|i: int| 0 <= i < rows.len() implies #[trigger] u.cfg.approved_clients[i] == (
    ApprovedView {
        admitted: rows[i].admitted || (rows[i].client_uuid == a.client && rows[i].net_uuid
            == a.net),
        ..rows[i]
    }) by {
        if q(rows[i]) {
            let k = seqs::position(rows, q)->0;
            if k < i {
                assert(config::row_client()(rows[k]) != config::row_client()(rows[i]));
            }
        }
    }
    lemma_bound(t, a.conn, Some(a.sid));
    let p = model::session_of(a.client, a.net);
    let x = SessionView {
        sid: a.sid,
        client: a.client,
        net: a.net,
        tap_name: a.tap_name,
        tap_ip: given_ip(row_of(t, a.client, a.net)),
        bound_conn: Some(a.conn),
    };
    laws::law_started_session_is_found(t, a);
    seqs::lemma_position(t.sessions, p);
    assert(u.sessions == model::with_session(t.sessions, x));
    match seqs::position(t.sessions, p) {
        Some(i) => {
            assert(u.sessions == t.sessions.update(i, x));
            seqs::lemma_position_update(t.sessions, p, i, x);
            assert forall|y: SessionView| !(y.client == a.client && y.net == a.net) implies (
            #[trigger] u.sessions.contains(y) <==> t.sessions.contains(y)) by {
                if u.sessions.contains(y) {
                    let k = choose|k: int| 0 <= k < u.sessions.len() && u.sessions[k] == y;
                    assert(t.sessions[k] == y);
                }
                if t.sessions.contains(y) {
                    let k = choose|k: int| 0 <= k < t.sessions.len() && t.sessions[k] == y;
                    assert(u.sessions[k] == y);
                }
            }
        },
        None => {
            seqs::lemma_position_push(t.sessions, p, x);
        },
    }
}

/// Where a session cannot start, the client is told why: the TAP could not be
/// created, the network has no bridge, or the TAP could not be attached. A TAP
/// that was created is destroyed. Nothing else is done.
pub proof fn law_failed_start_is_told(
    s: HubView,
    a: ApprovalView,
    outcome: TapOutcomeView,
    x: ActionView,
)
    requires
        s.has_conn(a.conn),
        !(outcome is Ready) || !s.has_bridge(a.net),
    ensures
        ({
            let (t, acts) = model::approve_step(s, a, outcome);
            &&& t == s
            &&& acts.contains(x) <==> match x {
                ActionView::DestroyTap { sid } => sid == a.sid && !(outcome is CreateFailed),
                ActionView::Send { conn, frame } => conn == a.conn && frame == (
                FrameView::JoinDeny {
                    reason: match outcome {
                        TapOutcomeView::CreateFailed(e) => "server_error:"@ + e,
                        TapOutcomeView::AttachFailed(e) => if s.has_bridge(a.net) {
                            "bridge_error:"@ + e
                        } else {
                            "no_bridge"@
                        },
                        TapOutcomeView::Ready => "no_bridge"@,
                    },
                }),
                _ => false,
            }
        }),
{
}

/// When a session ends, its connection is unbound, its TAP is taken off the
/// bridge, and its client is said to be offline. Nothing else is done, and
/// nothing at all for a session that is not listed.
pub proof fn law_ended_session_is_cleared_away(s: HubView, k: int, x: ActionView)
    requires
        soundness::sound(s),
        0 <= k < s.sessions.len(),
    ensures
        ({
            let y = s.sessions[k];
            model::died_step(s, y.sid).1.contains(x) <==> match x {
                ActionView::Bind { conn, session } => session is None && y.bound_conn == Some(conn)
                    && s.has_conn(conn),
                ActionView::RemoveTap { net, tap_name } => net == y.net && tap_name == y.tap_name
                    && s.has_bridge(net),
                ActionView::Emit(EventView::DeviceOffline { network, client_uuid }) => network
                    == y.net && client_uuid == y.client,
                _ => false,
            }
        }),
{
    let y = s.sessions[k];
    lemma_only_session(s, y.sid, k);
    if y.bound_conn is Some {
        seqs::lemma_position(s.conns, model::conn_is(y.bound_conn->0));
    }
}

/// When a session ends, it is forgotten, and its connection leads nowhere.
/// Everything else stays.
pub proof fn law_ended_session_is_forgotten(s: HubView, sid: SessionId, y: SessionView)
    requires
        soundness::sound(s),
    ensures
        ({
            let t = model::died_step(s, sid).0;
            &&& t == HubView { conns: t.conns, sessions: t.sessions, ..s }
            &&& t.sessions.contains(y) <==> s.sessions.contains(y) && y.sid != sid
            &&& t.conns.len() == s.conns.len()
            &&& forall|i: int|
                0 <= i < s.conns.len() ==> #[trigger] t.conns[i] == (ConnView {
                    bound: if s.conns[i].bound == Some(sid) && (exists|k: int|
                        0 <= k < s.sessions.len() && (#[trigger] s.sessions[k]).sid == sid
                            && s.sessions[k].bound_conn == Some(s.conns[i].id)) {
                        None
                    } else {
                        s.conns[i].bound
                    },
                    ..s.conns[i]
                })
            &&& !(exists|k: int|
                0 <= k < s.sessions.len() && (#[trigger] s.sessions[k]).sid == sid)
                ==> model::died_step(s, sid) == (s, Seq::<ActionView>::empty())
        }),
{
    let t = model::died_step(s, sid).0;
    let p = model::session_is(sid);
    seqs::lemma_position(s.sessions, p);
    match seqs::position(s.sessions, p) {
        None => {
            assert forall|k: int| 0 <= k < s.sessions.len() implies (
            #[trigger] s.sessions[k]).sid != sid by {
                assert(!p(s.sessions[k]));
            }
            if s.sessions.contains(y) {
                let k = choose|k: int| 0 <= k < s.sessions.len() && s.sessions[k] == y;
                assert(s.sessions[k].sid != sid);
            }
        },
        Some(k) => {
            assert(s.sessions[k].sid == sid);
            assert forall|j: int| 0 <= j < s.sessions.len() && (
            #[trigger] s.sessions[j]).sid == sid implies j == k by {
                lemma_only_session(s, sid, j);
            }
            seqs::lemma_removed(s.sessions, k, y);
            if s.sessions.contains(y) {
                let j = choose|j: int| 0 <= j < s.sessions.len() && s.sessions[j] == y;
                assert(s.sessions[j].sid == sid ==> j == k);
            }
            if s.sessions[k].bound_conn is Some {
                seqs::lemma_position(s.conns, model::conn_is(s.sessions[k].bound_conn->0));
            }
            assert forall|i: int| 0 <= i < s.conns.len() implies #[trigger] t.conns[i] == (ConnView {
                bound: if s.conns[i].bound == Some(sid) && (exists|k: int|
                    0 <= k < s.sessions.len() && (#[trigger] s.sessions[k]).sid == sid
                        && s.sessions[k].bound_conn == Some(s.conns[i].id)) {
                    None
                } else {
                    s.conns[i].bound
                },
                ..s.conns[i]
            }) by {
                match s.sessions[k].bound_conn {
                    Some(id) => {
                        lemma_only_conn(s, id, i);
                    },
                    None => {},
                }
            }
        },
    }
}

/// A message for everyone goes to every connection, and to nobody else.
pub proof fn law_broadcast_reaches_everyone(conns: Seq<ConnView>, frame: FrameView, x: ActionView)
    ensures
        model::broadcast(conns, frame).len() == conns.len(),
        model::broadcast(conns, frame).contains(x) <==> exists|i: int|
            0 <= i < conns.len() && x == (ActionView::Send {
                conn: (#[trigger] conns[i]).id,
                frame: frame,
            }),
{
    let all = model::broadcast(conns, frame);
    assert forall|i: int| 0 <= i < conns.len() implies all.contains(
        ActionView::Send { conn: (#[trigger] conns[i]).id, frame: frame },
    ) by {
        assert(all[i] == (ActionView::Send { conn: conns[i].id, frame: frame }));
    }
    if all.contains(x) {
        let i = choose|i: int| 0 <= i < all.len() && all[i] == x;
        assert(x == (ActionView::Send { conn: conns[i].id, frame: frame }));
    }
}

/// When the server ends, every session is told to end and every bridge is
/// destroyed.
pub proof fn law_end_leaves_nothing_behind(
    sessions: Seq<SessionView>,
    bridges: Seq<Uuid>,
    x: ActionView,
)
    ensures
        model::kill_all(sessions).contains(x) <==> exists|i: int|
            0 <= i < sessions.len() && x == (ActionView::ToSession {
                sid: (#[trigger] sessions[i]).sid,
                note: SessionNote::Kill,
            }),
        model::destroy_all(bridges).contains(x) <==> (x matches ActionView::DestroyBridge { net }
            && bridges.contains(net)),
{
    let a = model::kill_all(sessions);
    assert forall|i: int| 0 <= i < sessions.len() implies a.contains(
        ActionView::ToSession { sid: (#[trigger] sessions[i]).sid, note: SessionNote::Kill },
    ) by {
        assert(a[i] == (ActionView::ToSession { sid: sessions[i].sid, note: SessionNote::Kill }));
    }
    if a.contains(x) {
        let i = choose|i: int| 0 <= i < a.len() && a[i] == x;
        assert(x == (ActionView::ToSession { sid: sessions[i].sid, note: SessionNote::Kill }));
    }
    let b = model::destroy_all(bridges);
    if b.contains(x) {
        let i = choose|i: int| 0 <= i < b.len() && b[i] == x;
        assert(x == (ActionView::DestroyBridge { net: bridges[i] }));
    }
    if let ActionView::DestroyBridge { net } = x {
        if bridges.contains(net) {
            let i = choose|i: int| 0 <= i < bridges.len() && bridges[i] == net;
            assert(b[i] == x);
        }
    }
}

// ── Metrics ──────────────────────────────────────────────────────────────
/// Once a second one sample is told for every session, and none where there is
/// no session. The totals of a sample are the counters as they are now,
/// whatever they were before.
pub proof fn law_totals_are_the_counters(s: HubView, now: Seq<(u64, u64)>, i: int)
    requires
        now.len() == s.sessions.len(),
    ensures
        ({
            let (t, acts) = model::tick_step(s, now);
            &&& t == HubView { metrics_prev: t.metrics_prev, ..s }
            &&& s.sessions.len() == 0 ==> acts.len() == 0
            &&& s.sessions.len() > 0 ==> acts.len() == 1 && (
            acts[0] matches ActionView::Emit(EventView::MetricsTick { samples }) && samples.len()
                == s.sessions.len() && (0 <= i < samples.len() ==> samples[i].network
                == s.sessions[i].net && samples[i].client_uuid == s.sessions[i].client
                && samples[i].total_in == now[i].0 && samples[i].total_out == now[i].1))
        }),
{
}

/// The rates of a session in two ticks: what its counters grew by between
/// them, zero where they shrank, and zero in the first tick that it is in.
pub proof fn law_ticks_tell_the_growth(
    s: HubView,
    first: Seq<(u64, u64)>,
    second: Seq<(u64, u64)>,
    i: int,
)
    requires
        soundness::sound(s),
        0 <= i < s.sessions.len(),
        first.len() == s.sessions.len(),
        second.len() == s.sessions.len(),
    ensures
        ({
            let (t, one) = model::tick_step(s, first);
            let (u, two) = model::tick_step(t, second);
            &&& two[0] matches ActionView::Emit(EventView::MetricsTick { samples }) && {
                &&& samples[i].bps_in == if second[i].0 >= first[i].0 {
                    second[i].0 - first[i].0
                } else {
                    0
                }
                &&& samples[i].bps_out == if second[i].1 >= first[i].1 {
                    second[i].1 - first[i].1
                } else {
                    0
                }
            }
            &&& (forall|k: int|
                0 <= k < s.metrics_prev.len() ==> (#[trigger] s.metrics_prev[k]).sid
                    != s.sessions[i].sid) ==> (
            one[0] matches ActionView::Emit(EventView::MetricsTick { samples }) && samples[i].bps_in
                == 0 && samples[i].bps_out == 0)
        }),
{
    let (t, one) = model::tick_step(s, first);
    let p = model::counts_of(s.sessions[i].sid);
    assert forall|j: int| 0 <= j < i implies !p(#[trigger] t.metrics_prev[j]) by {
        assert(soundness::sid_key()(s.sessions[j]) != soundness::sid_key()(s.sessions[i]));
    }
    seqs::lemma_position_is(t.metrics_prev, p, i);
    seqs::lemma_position(s.metrics_prev, p);
}

// ── Order and number ─────────────────────────────────────────────────────
/// How many routes frames a newly bound client is sent: one, where there are
/// routes for it.
pub open spec fn route_frames_for(s: HubView, n: Uuid, ip: Option<Seq<char>>) -> nat {
    if routes::for_peer(routes::derived(s.cfg.approved_clients, n), ip).len() > 0 {
        1
    } else {
        0
    }
}

/// Nothing is done twice where a client introduces itself, comes back, starts
/// or ends a session, or a connection ends.
pub proof fn law_nothing_is_done_twice(
    s: HubView,
    conn: ConnId,
    c: Uuid,
    n: Uuid,
    a: ApprovalView,
    sid: SessionId,
)
    ensures
        model::hello_step(s, conn, c).1.len() == (if s.has_conn(conn) {
            1nat
        } else {
            0nat
        }) + (if !s.knows_client(c) {
            2nat
        } else if s.in_pool(c) {
            1nat
        } else {
            0nat
        }),
        speaks_for(s, conn, c) && may_join(s, c, n) && s.session(c, n) is Some ==> ({
            let x = s.session(c, n)->0;
            model::join_step(s, conn, n).0.1.len() == 4 + route_frames_for(s, n, x.tap_ip) + (
            if x.bound_conn matches Some(o) && s.has_conn(o) {
                1nat
            } else {
                0nat
            })
        }),
        model::died_step(s, sid).1.len() <= 3,
        s.has_conn(a.conn) && s.has_bridge(a.net) ==> ({
            let (t, acts) = model::approve_step(s, a, TapOutcomeView::Ready);
            acts.len() == 4 + route_frames_for(t, a.net, given_ip(row_of(s, a.client, a.net))) + (
            if row_of(s, a.client, a.net) matches Some(r) && r.admitted {
                0nat
            } else {
                1nat
            }) + (if s.knows_net(a.net) && model::needs_push(t, a.net) != model::flagged(s, a.net) {
                1nat
            } else {
                0nat
            })
        }),
{
    seqs::lemma_position(s.cfg.approved_clients, config::of_client(c));
    seqs::lemma_position(s.sessions, model::session_of(c, n));
}

/// A client learns that it is in before it learns its routes, and its session
/// is started before anything else.
pub proof fn law_client_joins_before_it_routes(s: HubView, conn: ConnId, n: Uuid, a: ApprovalView)
    ensures
        ({
            let acts = model::join_step(s, conn, n).0.1;
            forall|i: int, j: int|
                0 <= i < acts.len() && 0 <= j < acts.len() && (#[trigger] acts[i] matches
                ActionView::Send { conn, frame } && frame is JoinOk) && (
                #[trigger] acts[j] matches ActionView::Send { conn, frame } && frame is SetRoutes)
                    ==> i < j
        }),
        s.has_conn(a.conn) && s.has_bridge(a.net) ==> ({
            let acts = model::approve_step(s, a, TapOutcomeView::Ready).1;
            &&& acts[0] is StartSession
            &&& forall|i: int, j: int|
                0 <= i < acts.len() && 0 <= j < acts.len() && (#[trigger] acts[i] matches
                ActionView::Send { conn, frame } && frame is JoinOk) && (
                #[trigger] acts[j] matches ActionView::Send { conn, frame } && frame is SetRoutes)
                    ==> i < j
        }),
{
}

/// A connection that nobody knows ends without a trace.
pub proof fn law_unknown_connection_ends_quietly(s: HubView, conn: ConnId)
    requires
        !s.has_conn(conn),
    ensures
        model::disconnect_step(s, conn) == (s, Seq::<ActionView>::empty()),
{
}

/// After a session has started, its network's flag says whether a push is
/// needed; the flags of the other networks stay.
pub proof fn law_started_session_settles_the_flag(s: HubView, a: ApprovalView, m: Uuid)
    requires
        s.has_conn(a.conn),
        s.has_bridge(a.net),
    ensures
        ({
            let t = model::approve_step(s, a, TapOutcomeView::Ready).0;
            &&& s.knows_net(a.net) ==> model::flagged(t, a.net) == model::needs_push(t, a.net)
            &&& m != a.net ==> model::flagged(t, m) == model::flagged(s, m)
        }),
{
    let t = model::approve_step(s, a, TapOutcomeView::Ready).0;
    laws::lemma_with_flag(
        s.dirty,
        DirtyFlag { net: a.net, dirty: model::needs_push(t, a.net) },
        m,
    );
}

} // verus!
