//! What the hub promises across several commands.
use vstd::prelude::*;

use crate::addr;
use crate::config;
use crate::config::{ApprovedView, NetView, PendingView, ServerConfigView};
use crate::device;
use crate::events::EventView;
use crate::frame::{FrameView, RouteView};
use crate::hub::model;
use crate::hub::model::HubView;
use crate::hub::soundness;
use crate::hub::{
    ActionView, ApprovalView, AssignView, ConnView, DeviceSetStepView, DirtyFlag, PendingInfo,
    PushedView, SessionView, SetBridgeIpView, TapOutcomeView, UpdateView,
};
use crate::ids::{ConnId, SessionId};
use crate::routes;
use crate::seqs;
use crate::uuids;
use crate::uuids::Uuid;

verus! {

// ── Joining ──────────────────────────────────────────────────────────────
/// Why a join is refused, if it is.
pub open spec fn refusal(s: HubView, conn: ConnId, net: Uuid) -> Option<Seq<char>> {
    match seqs::first_where(s.conns, model::conn_is(conn)) {
        None => None,
        Some(e) => match e.client {
            None => Some("no_hello"@),
            Some(c) => if !s.knows_net(net) {
                Some("unknown_network"@)
            } else if s.in_pool(c) || s.assigned_net(c) is None {
                Some("unassigned"@)
            } else if s.assigned_net(c) != Some(net) {
                Some("wrong_network:assigned="@ + uuids::uuid_chars(s.assigned_net(c)->0))
            } else {
                None
            },
        },
    }
}

/// A join that is refused is answered with the reason, and changes nothing.
pub proof fn law_refused_join_is_answered(s: HubView, conn: ConnId, net: Uuid)
    requires
        refusal(s, conn, net) is Some,
    ensures
        model::join_step(s, conn, net) == (
            (s, model::deny(conn, refusal(s, conn, net)->0)),
            None::<ApprovalView>,
        ),
{
}

/// A member that is not admitted gets no answer: it waits, and nothing else
/// changes.
pub proof fn law_unadmitted_member_is_held(s: HubView, conn: ConnId, c: Uuid, net: Uuid)
    requires
        seqs::first_where(s.conns, model::conn_is(conn)) matches Some(e) && e.client == Some(c),
        refusal(s, conn, net) is None,
        s.session(c, net) is None,
        !(seqs::first_where(s.cfg.approved_clients, config::of_client(c))->0).admitted,
    ensures
        model::join_step(s, conn, net).1 is None,
        model::join_step(s, conn, net).0.0 == (HubView {
            pending: model::join_step(s, conn, net).0.0.pending,
            ..s
        }),
        model::join_step(s, conn, net).0.0.waits(c, net),
        forall|i: int|
            0 <= i < model::join_step(s, conn, net).0.1.len() ==> !((
            #[trigger] model::join_step(s, conn, net).0.1[i]) is Send),
{
    let x = PendingInfo { client_uuid: c, net_uuid: net, conn: conn };
    let p = model::waits_for(c, net);
    seqs::lemma_position(s.cfg.approved_clients, config::of_client(c));
    seqs::lemma_position(s.pending, p);
    let t = model::join_step(s, conn, net).0.0;
    match seqs::position(s.pending, p) {
        Some(i) => {
            assert(t.pending == s.pending.update(i, x));
            seqs::lemma_some_where(t.pending, p, i);
        },
        None => {
            assert(t.pending == s.pending.push(x));
            seqs::lemma_some_where(t.pending, p, s.pending.len() as int);
        },
    }
}

/// A client that nobody knew is refused, whatever network it asks for, until it
/// is given one.
pub proof fn law_new_client_is_refused_until_assigned(
    s: HubView,
    conn: ConnId,
    c: Uuid,
    net: Uuid,
)
    requires
        s.has_conn(conn),
        !s.knows_client(c),
    ensures
        ({
            let (t, acts) = model::hello_step(s, conn, c);
            &&& t.in_pool(c)
            &&& acts.last() == (ActionView::Send {
                conn: conn,
                frame: FrameView::AssignNet { net_uuid: None },
            })
            &&& model::join_step(t, conn, net) == (
                (
                    t,
                    model::deny(
                        conn,
                        if s.knows_net(net) {
                            "unassigned"@
                        } else {
                            "unknown_network"@
                        },
                    ),
                ),
                None::<ApprovalView>,
            )
        }),
{
    let (t, acts) = model::hello_step(s, conn, c);
    let p = model::conn_is(conn);
    seqs::lemma_position(s.conns, p);
    let i = seqs::position(s.conns, p)->0;
    let e = ConnView { client: Some(c), ..s.conns[i] };
    seqs::lemma_position_update(s.conns, p, i, e);
    let row = PendingView {
        client_uuid: c,
        display_name: Seq::empty(),
        lan_subnets: Seq::empty(),
    };
    seqs::lemma_position_push(s.cfg.pending_clients, config::pending_of(c), row);
    assert(refusal(t, conn, net) is Some);
    law_refused_join_is_answered(t, conn, net);
}

/// An admitted member whose TAP is on the bridge has a session: it is named
/// after the client, and bound to the connection that asked.
pub proof fn law_admitted_member_joins(s: HubView, conn: ConnId, c: Uuid, net: Uuid)
    requires
        soundness::sound(s),
        s.next_id < u64::MAX,
        seqs::first_where(s.conns, model::conn_is(conn)) matches Some(e) && e.client == Some(c),
        refusal(s, conn, net) is None,
        s.session(c, net) is None,
        (seqs::first_where(s.cfg.approved_clients, config::of_client(c))->0).admitted,
        s.has_bridge(net),
    ensures
        ({
            let ((t, acts), request) = model::join_step(s, conn, net);
            let (u, more) = model::approve_step(t, request->0, TapOutcomeView::Ready);
            &&& request is Some
            &&& soundness::sound(u)
            &&& u.session(c, net) matches Some(x) && x.sid == SessionId(s.next_id) && x.tap_name
                == model::tap_name_chars(c) && x.bound_conn == Some(conn)
            &&& more.contains(
                ActionView::Send {
                    conn: conn,
                    frame: FrameView::JoinOk {
                        tap_suffix: model::tap_suffix(model::tap_name_chars(c)),
                        ip: (u.session(c, net)->0).tap_ip,
                    },
                },
            )
        }),
{
    let ((t, acts), request) = model::join_step(s, conn, net);
    seqs::lemma_position(s.cfg.approved_clients, config::of_client(c));
    let a = request->0;
    soundness::law_join_keeps_sound(s, conn, net);
    soundness::law_approve_keeps_sound(t, a, TapOutcomeView::Ready);
    let (u, more) = model::approve_step(t, a, TapOutcomeView::Ready);
    law_started_session_is_found(t, a);
}

/// A session that starts is found in its place, and the client is told.
pub proof fn law_started_session_is_found(t: HubView, a: ApprovalView)
    requires
        t.has_conn(a.conn),
        t.has_bridge(a.net),
    ensures
        ({
            let (u, acts) = model::approve_step(t, a, TapOutcomeView::Ready);
            &&& u.session(a.client, a.net) matches Some(x) && x.sid == a.sid && x.tap_name
                == a.tap_name && x.bound_conn == Some(a.conn)
            &&& acts.contains(
                ActionView::Send {
                    conn: a.conn,
                    frame: FrameView::JoinOk {
                        tap_suffix: model::tap_suffix(a.tap_name),
                        ip: (u.session(a.client, a.net)->0).tap_ip,
                    },
                },
            )
        }),
{
    let (u, acts) = model::approve_step(t, a, TapOutcomeView::Ready);
    let p = model::session_of(a.client, a.net);
    let rows = t.cfg.approved_clients;
    let q = seqs::position(rows, model::of_pair(a.client, a.net));
    let ip = match q {
        Some(i) => crate::device::opt_ip(rows[i].tap_ip),
        None => None,
    };
    let x = SessionView {
        sid: a.sid,
        client: a.client,
        net: a.net,
        tap_name: a.tap_name,
        tap_ip: ip,
        bound_conn: Some(a.conn),
    };
    seqs::lemma_position(t.sessions, p);
    match seqs::position(t.sessions, p) {
        Some(i) => {
            assert forall|j: int| 0 <= j < i implies !p(#[trigger] u.sessions[j]) by {
                assert(!p(t.sessions[j]));
            }
            seqs::lemma_position_is(u.sessions, p, i);
        },
        None => {
            seqs::lemma_position_push(t.sessions, p, x);
        },
    }
    let told = ActionView::Send {
        conn: a.conn,
        frame: FrameView::JoinOk { tap_suffix: model::tap_suffix(a.tap_name), ip: ip },
    };
    let bind = seq![ActionView::Bind { conn: a.conn, session: Some(a.sid) }];
    let save = match q {
        Some(i) => if rows[i].admitted {
            Seq::empty()
        } else {
            seq![ActionView::Persist]
        },
        None => seq![ActionView::Persist],
    };
    assert(acts[1int + bind.len() + save.len()] == told);
}

/// Where the TAP cannot be created or attached, or the network has no bridge,
/// nothing changes, and the client is refused.
pub proof fn law_no_tap_no_session(s: HubView, a: ApprovalView, outcome: TapOutcomeView)
    requires
        s.has_conn(a.conn),
        !(outcome is Ready) || !s.has_bridge(a.net),
    ensures
        model::approve_step(s, a, outcome).0 == s,
        model::approve_step(s, a, outcome).1.len() > 0,
        model::approve_step(s, a, outcome).1.last() matches ActionView::Send {
            conn,
            frame,
        } && conn == a.conn && frame is JoinDeny,
{
}

/// A connection that is gone by the time its TAP is there gets no session:
/// nothing changes, nothing is sent, and a TAP that was created is destroyed.
pub proof fn law_gone_connection_gets_no_session(
    s: HubView,
    a: ApprovalView,
    outcome: TapOutcomeView,
)
    requires
        !s.has_conn(a.conn),
    ensures
        model::approve_step(s, a, outcome) == (
            s,
            if outcome is CreateFailed {
                Seq::<ActionView>::empty()
            } else {
                seq![ActionView::DestroyTap { sid: a.sid }]
            },
        ),
{
}

// ── Sessions outlive connections ─────────────────────────────────────────
/// The session of a client in a network is the same one, apart from the
/// connection that it is bound to.
pub open spec fn same_session(s: HubView, t: HubView, c: Uuid, n: Uuid) -> bool {
    match (s.session(c, n), t.session(c, n)) {
        (Some(x), Some(y)) => y == (SessionView { bound_conn: y.bound_conn, ..x }),
        (None, None) => true,
        _ => false,
    }
}

/// A connection that ends leaves every session in place.
pub proof fn law_disconnect_keeps_sessions(s: HubView, conn: ConnId, c: Uuid, n: Uuid)
    ensures
        same_session(s, model::disconnect_step(s, conn).0, c, n),
{
    let p = model::session_of(c, n);
    seqs::lemma_position(s.conns, model::conn_is(conn));
    match seqs::position(s.conns, model::conn_is(conn)) {
        None => {},
        Some(i) => match s.conns[i].bound {
            None => {},
            Some(sid) => {
                seqs::lemma_position(s.sessions, model::session_is(sid));
                match seqs::position(s.sessions, model::session_is(sid)) {
                    None => {},
                    Some(k) => {
                        let y = SessionView { bound_conn: None, ..s.sessions[k] };
                        seqs::lemma_position_update(s.sessions, p, k, y);
                        seqs::lemma_position(s.sessions, p);
                    },
                }
            },
        },
    }
}

/// A client that joins again takes up the session it has: the identity, the
/// TAP and the address stay, no TAP is requested, and the session is bound to
/// the new connection.
pub proof fn law_rejoin_takes_up_the_session(s: HubView, conn: ConnId, c: Uuid, n: Uuid)
    requires
        seqs::first_where(s.conns, model::conn_is(conn)) matches Some(e) && e.client == Some(c),
        refusal(s, conn, n) is None,
        s.session(c, n) is Some,
    ensures
        model::join_step(s, conn, n).1 is None,
        same_session(s, model::join_step(s, conn, n).0.0, c, n),
        (model::join_step(s, conn, n).0.0.session(c, n)->0).bound_conn == Some(conn),
        model::join_step(s, conn, n).0.0.sessions.len() == s.sessions.len(),
        model::join_step(s, conn, n).0.0.cfg == s.cfg,
{
    let p = model::session_of(c, n);
    seqs::lemma_position(s.cfg.approved_clients, config::of_client(c));
    seqs::lemma_position(s.sessions, p);
    let i = seqs::position(s.sessions, p)->0;
    let y = SessionView { bound_conn: Some(conn), ..s.sessions[i] };
    seqs::lemma_position_update(s.sessions, p, i, y);
}

/// A client that loses its connection, connects again, introduces itself and
/// joins finds its session as it left it.
pub proof fn law_session_survives_reconnect(
    s: HubView,
    conn: ConnId,
    addr: Seq<char>,
    c: Uuid,
    n: Uuid,
)
    requires
        soundness::sound(s),
        s.next_id < u64::MAX,
        s.knows_net(n),
        soundness::member(s.cfg.approved_clients, c, n),
        s.session(c, n) is Some,
    ensures
        ({
            let id = ConnId(s.next_id);
            let gone = model::disconnect_step(s, conn).0;
            let back = model::hello_step(model::new_conn_step(gone, addr), id, c).0;
            let (joined, request) = model::join_step(back, id, n);
            &&& request is None
            &&& same_session(s, joined.0, c, n)
            &&& (joined.0.session(c, n)->0).bound_conn == Some(id)
        }),
{
    let id = ConnId(s.next_id);
    let gone = model::disconnect_step(s, conn).0;
    let fresh = model::new_conn_step(gone, addr);
    let back = model::hello_step(fresh, id, c).0;
    law_disconnect_keeps_sessions(s, conn, c, n);
    soundness::law_disconnect_keeps_sound(s, conn);
    seqs::lemma_position(gone.conns, model::conn_is(id));
    assert(seqs::position(gone.conns, model::conn_is(id)) is None) by {
        if seqs::position(gone.conns, model::conn_is(id)) is Some {
            let i = seqs::position(gone.conns, model::conn_is(id))->0;
            assert(gone.conns[i].id.0 < gone.next_id);
        }
    }
    let e = ConnView { id: id, addr: addr, client: None, bound: None };
    seqs::lemma_position_push(gone.conns, model::conn_is(id), e);
    let k = gone.conns.len() as int;
    assert(fresh.conns == gone.conns.push(e));
    let f = ConnView { client: Some(c), ..e };
    seqs::lemma_position_update(fresh.conns, model::conn_is(id), k, f);
    let rows = s.cfg.approved_clients;
    seqs::lemma_position(rows, config::of_client(c));
    assert(back.cfg == s.cfg);
    assert(!s.in_pool(c)) by {
        seqs::lemma_position(s.cfg.pending_clients, config::pending_of(c));
        if s.in_pool(c) {
            let a = seqs::position(rows, config::of_client(c))->0;
            let b = seqs::position(s.cfg.pending_clients, config::pending_of(c))->0;
            assert(rows[a].client_uuid != s.cfg.pending_clients[b].client_uuid);
        }
    }
    assert(refusal(back, id, n) is None);
    law_rejoin_takes_up_the_session(back, id, c, n);
}

// ── Moving clients ───────────────────────────────────────────────────────
/// Moving a client to where it is changes nothing, and answers with the client
/// as it is.
pub proof fn law_assign_to_same_place_is_no_op(s: HubView, c: Uuid, target: Option<Uuid>)
    requires
        target matches Some(n) ==> s.knows_net(n),
        s.knows_client(c) || s.conn_for(c) is Some,
        s.assigned_net(c) == target,
    ensures
        model::assign_step(s, c, target) == (
            (s, Seq::<ActionView>::empty()),
            AssignView::Assigned(model::client_entry(s, c)),
        ),
{
}

/// What is configured of a client: its name and its subnets.
pub open spec fn settings(s: HubView, c: Uuid) -> (Seq<char>, Seq<Seq<char>>) {
    let e = model::client_entry(s, c);
    (e.display_name, e.lan_subnets)
}

/// A client that is moved to a network is a member of it, without admission
/// and address, and keeps its name and subnets.
pub proof fn law_move_resets_admission(s: HubView, c: Uuid, n: Uuid)
    requires
        s.knows_net(n),
        s.knows_client(c) || s.conn_for(c) is Some,
        s.assigned_net(c) != Some(n),
    ensures
        ({
            let t = model::assign_step(s, c, Some(n)).0.0;
            &&& seqs::first_where(t.cfg.approved_clients, config::of_client(c)) == Some(
                (ApprovedView {
                    client_uuid: c,
                    net_uuid: n,
                    tap_ip: Seq::empty(),
                    display_name: settings(s, c).0,
                    lan_subnets: settings(s, c).1,
                    admitted: false,
                }),
            )
            &&& !t.in_pool(c)
            &&& t.cfg.networks == s.cfg.networks
        }),
{
    let t = model::assign_step(s, c, Some(n)).0.0;
    let rows = s.cfg.approved_clients.filter(model::not_of_client(c));
    seqs::lemma_none_filter(
        s.cfg.approved_clients,
        model::not_of_client(c),
        config::of_client(c),
    );
    seqs::lemma_none_filter(
        s.cfg.pending_clients,
        model::pending_not_of(c),
        config::pending_of(c),
    );
    seqs::lemma_position_push(rows, config::of_client(c), t.cfg.approved_clients.last());
    assert(t.cfg.approved_clients =~= rows.push(t.cfg.approved_clients.last()));
}

/// A client that is taken out of its network has no network, and keeps its
/// name and subnets.
pub proof fn law_detach_keeps_settings(s: HubView, c: Uuid)
    requires
        s.assigned_net(c) is Some,
    ensures
        ({
            let t = model::assign_step(s, c, None).0.0;
            &&& t.assigned_net(c) is None
            &&& seqs::first_where(t.cfg.pending_clients, config::pending_of(c)) == Some(
                (PendingView {
                    client_uuid: c,
                    display_name: settings(s, c).0,
                    lan_subnets: settings(s, c).1,
                }),
            )
            &&& t.cfg.networks == s.cfg.networks
        }),
{
    let t = model::assign_step(s, c, None).0.0;
    let pool = s.cfg.pending_clients.filter(model::pending_not_of(c));
    seqs::lemma_none_filter(
        s.cfg.approved_clients,
        model::not_of_client(c),
        config::of_client(c),
    );
    seqs::lemma_none_filter(
        s.cfg.pending_clients,
        model::pending_not_of(c),
        config::pending_of(c),
    );
    seqs::lemma_position_push(pool, config::pending_of(c), t.cfg.pending_clients.last());
    assert(t.cfg.pending_clients =~= pool.push(t.cfg.pending_clients.last()));
}

/// Taking a client out of its network and putting it into one again gives its
/// name and subnets back.
pub proof fn law_detach_and_assign_round_trip(s: HubView, c: Uuid, n: Uuid)
    requires
        s.assigned_net(c) is Some,
        s.knows_net(n),
    ensures
        ({
            let t = model::assign_step(s, c, None).0.0;
            let u = model::assign_step(t, c, Some(n)).0.0;
            &&& u.assigned_net(c) == Some(n)
            &&& settings(u, c) == settings(s, c)
        }),
{
    let t = model::assign_step(s, c, None).0.0;
    law_detach_keeps_settings(s, c);
    law_move_resets_admission(t, c, n);
}

/// A client that is moved and connected is told where it belongs now.
pub proof fn law_move_is_announced(s: HubView, c: Uuid, target: Option<Uuid>)
    requires
        target matches Some(n) ==> s.knows_net(n),
        s.conn_for(c) is Some,
        s.assigned_net(c) != target,
    ensures
        model::assign_step(s, c, target).0.0.assigned_net(c) == target,
        model::assign_step(s, c, target).0.1.contains(
            ActionView::Send {
                conn: s.conn_for(c)->0,
                frame: FrameView::AssignNet { net_uuid: target },
            },
        ),
{
    let acts = model::assign_step(s, c, target).0.1;
    match target {
        Some(n) => {
            law_move_resets_admission(s, c, n);
        },
        None => {
            law_detach_keeps_settings(s, c);
        },
    }
    let told = ActionView::Send {
        conn: s.conn_for(c)->0,
        frame: FrameView::AssignNet { net_uuid: target },
    };
    let killed: int = match s.session(c, s.assigned_net(c)->0) {
        Some(_) => if s.assigned_net(c) is Some {
            1
        } else {
            0
        },
        None => 0,
    };
    assert(acts[killed + 1] == told);
}

/// Moving one client leaves the rows of every other client as they are.
pub proof fn law_assign_leaves_others(s: HubView, c: Uuid, target: Option<Uuid>, d: Uuid)
    requires
        c != d,
    ensures
        ({
            let t = model::assign_step(s, c, target).0.0;
            &&& seqs::first_where(t.cfg.approved_clients, config::of_client(d))
                == seqs::first_where(s.cfg.approved_clients, config::of_client(d))
            &&& seqs::first_where(t.cfg.pending_clients, config::pending_of(d))
                == seqs::first_where(s.cfg.pending_clients, config::pending_of(d))
        }),
{
    let t = model::assign_step(s, c, target).0.0;
    let rows = s.cfg.approved_clients.filter(model::not_of_client(c));
    let pool = s.cfg.pending_clients.filter(model::pending_not_of(c));
    seqs::lemma_first_filter(
        s.cfg.approved_clients,
        model::not_of_client(c),
        config::of_client(d),
    );
    seqs::lemma_first_filter(
        s.cfg.pending_clients,
        model::pending_not_of(c),
        config::pending_of(d),
    );
    if t.cfg != s.cfg {
        match target {
            Some(_) => {
                seqs::lemma_position_push(
                    rows,
                    config::of_client(d),
                    t.cfg.approved_clients.last(),
                );
                assert(t.cfg.approved_clients =~= rows.push(t.cfg.approved_clients.last()));
            },
            None => {
                seqs::lemma_position_push(
                    pool,
                    config::pending_of(d),
                    t.cfg.pending_clients.last(),
                );
                assert(t.cfg.pending_clients =~= pool.push(t.cfg.pending_clients.last()));
            },
        }
    }
}

// ── Deleting networks ────────────────────────────────────────────────────
/// Members that lose their network are in the pool afterwards, with their
/// settings, where they were not before.
proof fn lemma_detached(s: HubView, members: Seq<ApprovedView>, k: int)
    requires
        seqs::distinct(members, config::row_client()),
        0 <= k < members.len(),
        !s.in_pool(members[k].client_uuid),
    ensures
        seqs::first_where(
            model::detach_step(s, members).0.cfg.pending_clients,
            config::pending_of(members[k].client_uuid),
        ) == Some(
            (PendingView {
                client_uuid: members[k].client_uuid,
                display_name: members[k].display_name,
                lan_subnets: members[k].lan_subnets,
            }),
        ),
    decreases members.len(),
{
    let front = members.drop_last();
    let t = model::detach_step(s, front).0;
    let c = members[k].client_uuid;
    let p = config::pending_of(c);
    let m = members.last();
    let x = PendingView {
        client_uuid: m.client_uuid,
        display_name: m.display_name,
        lan_subnets: m.lan_subnets,
    };
    assert(seqs::distinct(front, config::row_client())) by {
        assert forall|i: int, j: int| 0 <= i < j < front.len() implies config::row_client()(
            #[trigger] front[i],
        ) != config::row_client()(#[trigger] front[j]) by {
            assert(config::row_client()(members[i]) != config::row_client()(members[j]));
        }
    }
    if k < front.len() {
        assert(front[k] == members[k]);
        lemma_detached(s, front, k);
        seqs::lemma_position_push(t.cfg.pending_clients, p, x);
    } else {
        assert forall|i: int| 0 <= i < front.len() implies (
        #[trigger] front[i]).client_uuid != c by {
            assert(config::row_client()(members[i]) != config::row_client()(members[k]));
        }
        lemma_not_detached(s, front, c);
        seqs::lemma_position_push(t.cfg.pending_clients, p, x);
    }
}

/// Who is not among the members that lose their network stays where it was.
proof fn lemma_not_detached(s: HubView, members: Seq<ApprovedView>, c: Uuid)
    requires
        forall|i: int| 0 <= i < members.len() ==> (#[trigger] members[i]).client_uuid != c,
    ensures
        seqs::first_where(
            model::detach_step(s, members).0.cfg.pending_clients,
            config::pending_of(c),
        ) == seqs::first_where(s.cfg.pending_clients, config::pending_of(c)),
        model::detach_step(s, members).0.in_pool(c) == s.in_pool(c),
    decreases members.len(),
{
    if members.len() > 0 {
        let front = members.drop_last();
        let m = members.last();
        assert(members[members.len() - 1].client_uuid != c);
        assert forall|i: int| 0 <= i < front.len() implies (
        #[trigger] front[i]).client_uuid != c by {
            assert(members[i].client_uuid != c);
        }
        lemma_not_detached(s, front, c);
        let t = model::detach_step(s, front).0;
        let x = PendingView {
            client_uuid: m.client_uuid,
            display_name: m.display_name,
            lan_subnets: m.lan_subnets,
        };
        seqs::lemma_position_push(t.cfg.pending_clients, config::pending_of(c), x);
    }
}

/// The members of a deleted network stay known, without a network, and keep
/// their names and subnets.
pub proof fn law_delete_keeps_members_settings(s: HubView, n: Uuid, c: Uuid)
    requires
        soundness::sound(s),
        s.knows_net(n),
        s.assigned_net(c) == Some(n),
    ensures
        ({
            let t = model::delete_net_step(s, n).0.0;
            &&& t.assigned_net(c) is None
            &&& seqs::first_where(t.cfg.pending_clients, config::pending_of(c)) == Some(
                (PendingView {
                    client_uuid: c,
                    display_name: settings(s, c).0,
                    lan_subnets: settings(s, c).1,
                }),
            )
        }),
{
    let rows = s.cfg.approved_clients;
    let p = config::of_client(c);
    let u = HubView {
        cfg: ServerConfigView { approved_clients: rows.filter(model::not_in_net(n)), ..s.cfg },
        pending: s.pending.filter(model::waits_not_in(n)),
        ..s
    };
    let members = rows.filter(model::in_net(n));
    crate::hub::nets::lemma_detach_keeps(u, members);
    seqs::lemma_position(rows, p);
    let i = seqs::position(rows, p)->0;
    let a = rows[i];
    // No other row is the client's, so none of those that stay is.
    let left = rows.filter(model::not_in_net(n));
    seqs::lemma_filter_from(rows, model::not_in_net(n));
    assert forall|j: int| 0 <= j < left.len() implies !p(#[trigger] left[j]) by {
        assert(rows.contains(left[j]) && model::not_in_net(n)(left[j]));
        let m = choose|m: int| 0 <= m < rows.len() && rows[m] == left[j];
        if p(left[j]) {
            assert(m != i);
            if m < i {
                assert(config::row_client()(rows[m]) != config::row_client()(rows[i]));
            } else {
                assert(config::row_client()(rows[i]) != config::row_client()(rows[m]));
            }
        }
    }
    seqs::lemma_position_none(left, p);
    // The row is among the members that leave.
    assert(rows.contains(a));
    seqs::lemma_filter_keeps(rows, model::in_net(n), a);
    seqs::lemma_distinct_filter(rows, config::row_client(), model::in_net(n));
    let k = choose|k: int| 0 <= k < members.len() && members[k] == a;
    assert(!s.in_pool(c)) by {
        seqs::lemma_position(s.cfg.pending_clients, config::pending_of(c));
        if s.in_pool(c) {
            let b = seqs::position(s.cfg.pending_clients, config::pending_of(c))->0;
            assert(rows[i].client_uuid != s.cfg.pending_clients[b].client_uuid);
        }
    }
    lemma_detached(u, members, k);
}

/// Which connection is a client's does not change while members lose their
/// network, and each of them that is connected is told.
proof fn lemma_detached_are_told(s: HubView, members: Seq<ApprovedView>, c: Uuid)
    ensures
        model::detach_step(s, members).0.conn_for(c) == s.conn_for(c),
        s.conn_for(c) is Some && (exists|k: int|
            0 <= k < members.len() && (#[trigger] members[k]).client_uuid == c)
            ==> model::detach_step(s, members).1.contains(
            ActionView::Send {
                conn: s.conn_for(c)->0,
                frame: FrameView::AssignNet { net_uuid: None },
            },
        ),
    decreases members.len(),
{
    if members.len() > 0 {
        let front = members.drop_last();
        let m = members.last();
        lemma_detached_are_told(s, front, c);
        lemma_detached_are_told(s, front, m.client_uuid);
        let (t, before) = model::detach_step(s, front);
        let (u, acts) = model::detach_step(s, members);
        match t.conn_for(m.client_uuid) {
            Some(id) => {
                seqs::lemma_position(t.conns, model::conn_is(id));
                match seqs::position(t.conns, model::conn_is(id)) {
                    Some(i) => {
                        let e = ConnView { bound: None, ..t.conns[i] };
                        seqs::lemma_position(t.conns, model::conn_of(c));
                        seqs::lemma_position_update(t.conns, model::conn_of(c), i, e);
                    },
                    None => {},
                }
                assert(acts[before.len() as int] == (ActionView::Send {
                    conn: id,
                    frame: FrameView::AssignNet { net_uuid: None },
                }));
            },
            None => {},
        }
        let told = ActionView::Send {
            conn: s.conn_for(c)->0,
            frame: FrameView::AssignNet { net_uuid: None },
        };
        if before.contains(told) {
            let j = choose|j: int| 0 <= j < before.len() && before[j] == told;
            assert(acts[j] == told);
        }
        if s.conn_for(c) is Some && (exists|k: int|
            0 <= k < members.len() && (#[trigger] members[k]).client_uuid == c) {
            let k = choose|k: int|
                0 <= k < members.len() && (#[trigger] members[k]).client_uuid == c;
            if k < front.len() {
                assert(front[k].client_uuid == c);
            }
        }
    }
}

/// The members of a deleted network that are connected are told that they have
/// none.
pub proof fn law_delete_is_announced(s: HubView, n: Uuid, c: Uuid)
    requires
        s.knows_net(n),
        s.assigned_net(c) == Some(n),
        s.conn_for(c) is Some,
    ensures
        model::delete_net_step(s, n).0.1.contains(
            ActionView::Send {
                conn: s.conn_for(c)->0,
                frame: FrameView::AssignNet { net_uuid: None },
            },
        ),
{
    let rows = s.cfg.approved_clients;
    let u = HubView {
        cfg: ServerConfigView { approved_clients: rows.filter(model::not_in_net(n)), ..s.cfg },
        pending: s.pending.filter(model::waits_not_in(n)),
        ..s
    };
    let members = rows.filter(model::in_net(n));
    seqs::lemma_position(rows, config::of_client(c));
    let a = rows[seqs::position(rows, config::of_client(c))->0];
    assert(rows.contains(a));
    seqs::lemma_filter_keeps(rows, model::in_net(n), a);
    let k = choose|k: int| 0 <= k < members.len() && members[k] == a;
    assert(members[k].client_uuid == c);
    lemma_detached_are_told(u, members, c);
    assert(u.conn_for(c) == s.conn_for(c));
    let told = ActionView::Send {
        conn: s.conn_for(c)->0,
        frame: FrameView::AssignNet { net_uuid: None },
    };
    let moved = model::detach_step(u, members).1;
    let j = choose|j: int| 0 <= j < moved.len() && moved[j] == told;
    assert(model::delete_net_step(s, n).0.1[model::kill_net(s.sessions, n).len() + j] == told);
}

/// Deleting one network leaves every other network, its members and its
/// bridge as they are.
pub proof fn law_delete_leaves_other_networks(s: HubView, n: Uuid, m: Uuid)
    requires
        m != n,
    ensures
        ({
            let t = model::delete_net_step(s, n).0.0;
            &&& seqs::first_where(t.cfg.networks, model::net_is(m)) == seqs::first_where(
                s.cfg.networks,
                model::net_is(m),
            )
            &&& t.has_bridge(m) == s.has_bridge(m)
            &&& t.cfg.approved_clients.filter(model::in_net(m)) == s.cfg.approved_clients.filter(
                model::in_net(m),
            )
            &&& model::told(t, m) == model::told(s, m)
            &&& model::flagged(t, m) == model::flagged(s, m)
        }),
{
    if s.knows_net(n) {
        let rows = s.cfg.approved_clients;
        let u = HubView {
            cfg: ServerConfigView {
                approved_clients: rows.filter(model::not_in_net(n)),
                ..s.cfg
            },
            pending: s.pending.filter(model::waits_not_in(n)),
            ..s
        };
        crate::hub::nets::lemma_detach_keeps(u, rows.filter(model::in_net(n)));
        seqs::lemma_first_filter(s.cfg.networks, model::net_is_not(n), model::net_is(m));
        seqs::lemma_first_filter(s.bridges, model::not_bridge_of(n), model::bridge_of(m));
        seqs::lemma_first_filter(s.pushed, model::not_pushed_to(n), model::pushed_to(m));
        seqs::lemma_first_filter(s.dirty, model::not_flag_of(n), model::flag_of(m));
        lemma_filter_filter(rows, model::not_in_net(n), model::in_net(m));
    }
}

/// Filtering what a weaker filter lets through.
proof fn lemma_filter_filter<T>(s: Seq<T>, q: spec_fn(T) -> bool, p: spec_fn(T) -> bool)
    requires
        forall|x: T| #[trigger] p(x) ==> q(x),
    ensures
        s.filter(q).filter(p) == s.filter(p),
    decreases s.len(),
{
    reveal(Seq::filter);
    if s.len() > 0 {
        let r = s.drop_last();
        lemma_filter_filter(r, q, p);
        if q(s.last()) {
            assert(r.filter(q).push(s.last()).drop_last() =~= r.filter(q));
        }
    }
}

/// A deleted network is gone: it is unknown, has no bridge and no members.
pub proof fn law_deleted_network_is_gone(s: HubView, n: Uuid)
    requires
        s.knows_net(n),
    ensures
        ({
            let t = model::delete_net_step(s, n).0.0;
            &&& !t.knows_net(n)
            &&& !t.has_bridge(n)
            &&& !seqs::some_where(t.cfg.approved_clients, model::in_net(n))
            &&& !model::flagged(t, n)
        }),
{
    let rows = s.cfg.approved_clients;
    let u = HubView {
        cfg: ServerConfigView { approved_clients: rows.filter(model::not_in_net(n)), ..s.cfg },
        pending: s.pending.filter(model::waits_not_in(n)),
        ..s
    };
    crate::hub::nets::lemma_detach_keeps(u, rows.filter(model::in_net(n)));
    seqs::lemma_none_filter(s.cfg.networks, model::net_is_not(n), model::net_is(n));
    seqs::lemma_none_filter(s.bridges, model::not_bridge_of(n), model::bridge_of(n));
    seqs::lemma_none_filter(rows, model::not_in_net(n), model::in_net(n));
    seqs::lemma_none_filter(s.dirty, model::not_flag_of(n), model::flag_of(n));
}

// ── Changing members ─────────────────────────────────────────────────────
/// A change that is refused changes nothing, and nothing is done.
pub proof fn law_refused_change_changes_nothing(s: HubView, c: Uuid, n: Uuid, u: UpdateView)
    requires
        model::refused(s, c, n, u) is Some,
    ensures
        model::device_set_step(s, c, n, u) == (
            (s, Seq::<ActionView>::empty()),
            DeviceSetStepView::Done(model::refused(s, c, n, u)->0),
        ),
{
}

/// Whether no two members of a network have the same address.
pub open spec fn addresses_distinct(rows: Seq<ApprovedView>, n: Uuid) -> bool {
    forall|i: int, j: int|
        0 <= i < j < rows.len() && (#[trigger] rows[i]).net_uuid == n && (
        #[trigger] rows[j]).net_uuid == n && rows[i].tap_ip.len() > 0 ==> rows[i].tap_ip
            != rows[j].tap_ip
}

/// Changing a member gives no two members of its network the same address.
pub proof fn law_change_keeps_addresses_distinct(s: HubView, c: Uuid, n: Uuid, u: UpdateView)
    requires
        soundness::sound(s),
        addresses_distinct(s.cfg.approved_clients, n),
    ensures
        addresses_distinct(model::device_set_step(s, c, n, u).0.0.cfg.approved_clients, n),
{
    let t = model::device_set_step(s, c, n, u).0.0;
    match model::refused(s, c, n, u) {
        Some(_) => {},
        None => {
            let rows = s.cfg.approved_clients;
            seqs::lemma_position(rows, model::of_pair(c, n));
            let k = seqs::position(rows, model::of_pair(c, n))->0;
            let new = model::updated_row(rows[k], u);
            assert(t.cfg.approved_clients =~= rows.update(k, new));
            let after = t.cfg.approved_clients;
            assert forall|i: int, j: int|
                0 <= i < j < after.len() && (#[trigger] after[i]).net_uuid == n && (
                #[trigger] after[j]).net_uuid == n && after[i].tap_ip.len()
                    > 0 implies after[i].tap_ip != after[j].tap_ip by {
                assert(config::row_client()(rows[i]) != config::row_client()(rows[j]));
                match u.tap_ip {
                    Some(ip) => {
                        if ip.len() > 0 {
                            let f = model::uses_ip(c, n, ip);
                            seqs::lemma_position(rows, f);
                            assert(!f(rows[i]));
                            assert(!f(rows[j]));
                        }
                    },
                    None => {},
                }
            }
        },
    }
}

/// A member that is bound and gets another address is told.
pub proof fn law_new_address_is_announced(s: HubView, c: Uuid, n: Uuid, u: UpdateView)
    requires
        model::refused(s, c, n, u) is None,
        u.tap_ip is Some,
        (seqs::first_where(s.cfg.approved_clients, model::of_pair(c, n))->0).tap_ip != u.tap_ip->0,
        s.session(c, n) matches Some(x) && x.bound_conn matches Some(id) && s.has_conn(id),
    ensures
        model::device_set_step(s, c, n, u).0.1.contains(
            ActionView::Send {
                conn: (s.session(c, n)->0).bound_conn->0,
                frame: FrameView::SetIp { ip: device::opt_ip(u.tap_ip->0) },
            },
        ),
{
    let acts = model::device_set_step(s, c, n, u).0.1;
    assert(acts[1] == (ActionView::Send {
        conn: (s.session(c, n)->0).bound_conn->0,
        frame: FrameView::SetIp { ip: device::opt_ip(u.tap_ip->0) },
    }));
}

/// A client that waits and is admitted has a session, once its TAP is on the
/// bridge, and waits no more.
pub proof fn law_admitting_a_waiting_client_starts_its_session(
    s: HubView,
    c: Uuid,
    n: Uuid,
    u: UpdateView,
)
    requires
        soundness::sound(s),
        s.next_id < u64::MAX,
        model::refused(s, c, n, u) is None,
        u.admitted == Some(true),
        s.has_bridge(n),
        seqs::first_where(s.pending, model::waits_for(c, n)) matches Some(p) && s.has_conn(p.conn),
    ensures
        ({
            let ((t, acts), r) = model::device_set_step(s, c, n, u);
            let (v, more) = model::approve_step(t, r->Approve_0, TapOutcomeView::Ready);
            &&& r is Approve
            &&& soundness::sound(v)
            &&& v.session(c, n) matches Some(x) && x.bound_conn == Some(
                (seqs::first_where(s.pending, model::waits_for(c, n))->0).conn,
            )
            &&& !v.waits(c, n)
        }),
{
    let ((t, acts), r) = model::device_set_step(s, c, n, u);
    seqs::lemma_position(s.pending, model::waits_for(c, n));
    let k = seqs::position(s.pending, model::waits_for(c, n))->0;
    assert(soundness::held(s, s.pending[k]));
    let rows = s.cfg.approved_clients;
    soundness::lemma_member_pair(rows, c, n);
    soundness::law_device_set_keeps_sound(s, c, n, u);
    let a = r->Approve_0;
    soundness::law_approve_keeps_sound(t, a, TapOutcomeView::Ready);
    law_started_session_is_found(t, a);
}

/// A member whose admission is withdrawn is disconnected: its session is told
/// to end, and the connection it was bound to is forgotten.
pub proof fn law_withdrawn_member_is_disconnected(s: HubView, c: Uuid, n: Uuid, u: UpdateView)
    requires
        soundness::sound(s),
        model::refused(s, c, n, u) is None,
        (seqs::first_where(s.cfg.approved_clients, model::of_pair(c, n))->0).admitted,
        u.admitted == Some(false),
        s.session(c, n) matches Some(x) && x.bound_conn is Some,
    ensures
        ({
            let ((t, acts), r) = model::device_set_step(s, c, n, u);
            let x = s.session(c, n)->0;
            &&& !t.has_conn(x.bound_conn->0)
            &&& acts.contains(
                ActionView::ToSession { sid: x.sid, note: crate::hub::SessionNote::Kill },
            )
            &&& acts.contains(ActionView::DropConn { conn: x.bound_conn->0 })
        }),
{
    let ((t, acts), r) = model::device_set_step(s, c, n, u);
    let rows = s.cfg.approved_clients;
    let x = s.session(c, n)->0;
    let id = x.bound_conn->0;
    seqs::lemma_position(rows, model::of_pair(c, n));
    seqs::lemma_position(s.sessions, model::session_of(c, n));
    let i = seqs::position(rows, model::of_pair(c, n))->0;
    let row = rows[i];
    let new = model::updated_row(row, u);
    let base = HubView {
        cfg: ServerConfigView { approved_clients: rows.update(i, new), ..s.cfg },
        ..s
    };
    let (v, readdress) = if row.tap_ip != new.tap_ip {
        model::readdress_step(base, c, n, new.tap_ip)
    } else {
        (base, Seq::empty())
    };
    let ip = crate::device::opt_ip(new.tap_ip);
    let m = seqs::position(s.sessions, model::session_of(c, n))->0;
    seqs::lemma_position_update(
        s.sessions,
        model::session_of(c, n),
        m,
        SessionView { tap_ip: ip, ..s.sessions[m] },
    );
    assert(v.session(c, n) matches Some(y) && y.sid == x.sid && y.bound_conn == x.bound_conn);
    let (w, kick) = model::kick_step(v, c, n);
    let ((z, more), _) = model::finish_set_step(w, c, n);
    let before = seq![ActionView::Persist] + readdress;
    assert(acts == before + kick + more);
    assert(acts[before.len() as int] == kick[0]);
    assert(acts[before.len() as int + 1] == kick[1]);
    // The connection is gone, and stays gone.
    seqs::lemma_position(s.conns, model::conn_is(id));
    let conns = model::without_conn(s.conns, id);
    assert forall|j: int| 0 <= j < conns.len() implies !model::conn_is(id)(
        #[trigger] conns[j],
    ) by {
        match seqs::position(s.conns, model::conn_is(id)) {
            Some(q) => {
                seqs::lemma_distinct_remove(s.conns, soundness::conn_key(), q);
                assert(soundness::conn_key()(s.conns.remove(q)[j]) != soundness::conn_key()(
                    s.conns[q],
                ));
            },
            None => {},
        }
    }
    match seqs::position(s.pending, model::waits_for(c, n)) {
        Some(q) => {
            let d = s.pending[q].conn;
            seqs::lemma_position(conns, model::conn_is(d));
            let rest = model::without_conn(conns, d);
            assert forall|j: int| 0 <= j < rest.len() implies !model::conn_is(id)(
                #[trigger] rest[j],
            ) by {
                match seqs::position(conns, model::conn_is(d)) {
                    Some(e) => {
                        let b = if j < e { j } else { j + 1 };
                        assert(rest[j] == conns[b]);
                    },
                    None => {
                        assert(rest[j] == conns[j]);
                    },
                }
            }
            seqs::lemma_position_none(rest, model::conn_is(id));
        },
        None => {
            seqs::lemma_position_none(conns, model::conn_is(id));
        },
    }
}

// ── Routing tables ───────────────────────────────────────────────────────
/// A flag that was put in place is found, and the others stay.
pub proof fn lemma_with_flag(dirty: Seq<DirtyFlag>, x: DirtyFlag, m: Uuid)
    ensures
        seqs::first_where(model::with_flag(dirty, x), model::flag_of(x.net)) == Some(x),
        m != x.net ==> seqs::first_where(model::with_flag(dirty, x), model::flag_of(m))
            == seqs::first_where(dirty, model::flag_of(m)),
{
    let p = model::flag_of(x.net);
    seqs::lemma_position(dirty, p);
    match seqs::position(dirty, p) {
        Some(i) => {
            seqs::lemma_position_update(dirty, p, i, x);
            if m != x.net {
                seqs::lemma_position_update(dirty, model::flag_of(m), i, x);
                seqs::lemma_position(dirty, model::flag_of(m));
            }
        },
        None => {
            seqs::lemma_position_push(dirty, p, x);
            seqs::lemma_position_push(dirty, model::flag_of(m), x);
        },
    }
}

/// A table that was put in place is found, and the others stay.
pub proof fn lemma_with_pushed(pushed: Seq<PushedView>, x: PushedView, m: Uuid)
    ensures
        seqs::first_where(model::with_pushed(pushed, x), model::pushed_to(x.net)) == Some(x),
        m != x.net ==> seqs::first_where(model::with_pushed(pushed, x), model::pushed_to(m))
            == seqs::first_where(pushed, model::pushed_to(m)),
{
    let p = model::pushed_to(x.net);
    seqs::lemma_position(pushed, p);
    match seqs::position(pushed, p) {
        Some(i) => {
            seqs::lemma_position_update(pushed, p, i, x);
            if m != x.net {
                seqs::lemma_position_update(pushed, model::pushed_to(m), i, x);
                seqs::lemma_position(pushed, model::pushed_to(m));
            }
        },
        None => {
            seqs::lemma_position_push(pushed, p, x);
            seqs::lemma_position_push(pushed, model::pushed_to(m), x);
        },
    }
}

/// After a network's flag was brought up to date it says whether the members
/// should be told a new table. Subscribers are told where the flag changes,
/// and only there; flags of other networks stay.
pub proof fn law_flag_follows_need(s: HubView, n: Uuid, m: Uuid)
    requires
        s.knows_net(n),
    ensures
        ({
            let (t, acts) = model::recheck_step(s, n);
            &&& model::flagged(t, n) == model::needs_push(t, n)
            &&& model::needs_push(t, n) == model::needs_push(s, n)
            &&& acts == if model::flagged(t, n) != model::flagged(s, n) {
                seq![
                    ActionView::Emit(
                        EventView::RoutesDirty { network: n, dirty: model::flagged(t, n) },
                    ),
                ]
            } else {
                Seq::empty()
            }
            &&& m != n ==> model::flagged(t, m) == model::flagged(s, m)
        }),
{
    lemma_with_flag(s.dirty, DirtyFlag { net: n, dirty: model::needs_push(s, n) }, m);
}

/// A second look at an unchanged network tells nobody anything.
pub proof fn law_recheck_is_idempotent(s: HubView, n: Uuid)
    ensures
        ({
            let t = model::recheck_step(s, n).0;
            &&& model::recheck_step(t, n).1 == Seq::<ActionView>::empty()
            &&& model::flagged(model::recheck_step(t, n).0, n) == model::flagged(t, n)
        }),
{
    if s.knows_net(n) {
        let t = model::recheck_step(s, n).0;
        law_flag_follows_need(s, n, n);
        law_flag_follows_need(t, n, n);
    }
}

/// A push of the derived table takes the network's flag down.
pub proof fn law_push_takes_the_flag_down(s: HubView, n: Uuid, count: u64)
    requires
        s.knows_net(n),
    ensures
        ({
            let table = routes::derived(s.cfg.approved_clients, n);
            let (t, acts) = model::finish_push_step(s, n, table, count);
            &&& model::told(t, n) == table
            &&& !model::needs_push(t, n)
            &&& !model::flagged(t, n)
        }),
{
    let table = routes::derived(s.cfg.approved_clients, n);
    let x = PushedView { net: n, routes: table };
    lemma_with_pushed(s.pushed, x, n);
    let u = HubView { pushed: model::with_pushed(s.pushed, x), ..s };
    law_flag_follows_need(u, n, n);
}

/// After a start no network's members need to be told anything.
pub proof fn law_start_is_clean(s: HubView, n: Uuid)
    requires
        s.knows_net(n),
    ensures
        ({
            let t = model::start_step(s).0;
            &&& model::told(t, n) == routes::derived(t.cfg.approved_clients, n)
            &&& !model::needs_push(t, n)
            &&& !model::flagged(t, n)
        }),
{
    seqs::lemma_position(s.cfg.networks, model::net_is(n));
    let i = seqs::position(s.cfg.networks, model::net_is(n))->0;
    lemma_seeded_clean(s, s.cfg.networks, i);
}

proof fn lemma_seeded_clean(s: HubView, nets: Seq<NetView>, i: int)
    requires
        0 <= i < nets.len(),
    ensures
        model::seeded(s, nets).cfg == s.cfg,
        model::told(model::seeded(s, nets), nets[i].uuid) == routes::derived(
            s.cfg.approved_clients,
            nets[i].uuid,
        ),
        !model::flagged(model::seeded(s, nets), nets[i].uuid),
    decreases nets.len(),
{
    let front = nets.drop_last();
    let t = model::seeded(s, front);
    let n = nets.last().uuid;
    let m = nets[i].uuid;
    lemma_with_pushed(
        t.pushed,
        PushedView { net: n, routes: routes::derived(s.cfg.approved_clients, n) },
        m,
    );
    lemma_with_flag(t.dirty, DirtyFlag { net: n, dirty: false }, m);
    lemma_seeded_cfg(s, front);
    if i < front.len() {
        assert(front[i] == nets[i]);
        lemma_seeded_clean(s, front, i);
    }
}

proof fn lemma_seeded_cfg(s: HubView, nets: Seq<NetView>)
    ensures
        model::seeded(s, nets).cfg == s.cfg,
    decreases nets.len(),
{
    if nets.len() > 0 {
        lemma_seeded_cfg(s, nets.drop_last());
    }
}

/// The routes that are derived for a network are installed on its own bridge,
/// and on no other.
pub proof fn law_routes_stay_on_their_bridge(s: HubView, nets: Seq<NetView>, k: int)
    requires
        0 <= k < model::sync_actions(s, nets).len(),
    ensures
        model::sync_actions(s, nets)[k] matches ActionView::ApplyRoutes { net, routes }
            && s.has_bridge(net) && routes == routes::parse_all(
            routes::derived(s.cfg.approved_clients, net),
        ) && exists|i: int| 0 <= i < nets.len() && (#[trigger] nets[i]).uuid == net,
    decreases nets.len(),
{
    let front = nets.drop_last();
    let a = model::sync_actions(s, front);
    if k < a.len() {
        law_routes_stay_on_their_bridge(s, front, k);
        let net = a[k]->ApplyRoutes_net;
        let i = choose|i: int| 0 <= i < front.len() && (#[trigger] front[i]).uuid == net;
        assert(nets[i].uuid == net);
    } else {
        assert(nets[nets.len() - 1] == nets.last());
    }
}

/// Every bridge that is up gets the routes of its network.
pub proof fn law_every_bridge_gets_its_routes(s: HubView, nets: Seq<NetView>, i: int)
    requires
        0 <= i < nets.len(),
        s.has_bridge(nets[i].uuid),
    ensures
        model::sync_actions(s, nets).contains(
            ActionView::ApplyRoutes {
                net: nets[i].uuid,
                routes: routes::parse_all(
                    routes::derived(s.cfg.approved_clients, nets[i].uuid),
                ),
            },
        ),
    decreases nets.len(),
{
    let front = nets.drop_last();
    let a = model::sync_actions(s, front);
    let all = model::sync_actions(s, nets);
    let x = ActionView::ApplyRoutes {
        net: nets[i].uuid,
        routes: routes::parse_all(routes::derived(s.cfg.approved_clients, nets[i].uuid)),
    };
    if i < front.len() {
        assert(front[i] == nets[i]);
        law_every_bridge_gets_its_routes(s, front, i);
        let k = choose|k: int| 0 <= k < a.len() && a[k] == x;
        assert(all[k] == x);
    } else {
        assert(all[a.len() as int] == x);
    }
}

/// Every frame of a push goes to a live connection that a session of the network
/// is bound to, and holds the table without the routes back to the member.
pub proof fn law_push_stays_in_the_network(
    s: HubView,
    n: Uuid,
    table: Seq<RouteView>,
    sessions: Seq<SessionView>,
    k: int,
)
    requires
        0 <= k < model::push_frames(s, n, table, sessions).len(),
    ensures
        model::push_frames(s, n, table, sessions)[k] matches ActionView::Send { conn, frame }
            && frame matches FrameView::SetRoutes(part) && s.has_conn(conn) && exists|i: int|
            0 <= i < sessions.len() && (#[trigger] sessions[i]).net == n && sessions[i].bound_conn
                == Some(conn) && part == routes::for_peer(table, sessions[i].tap_ip),
    decreases sessions.len(),
{
    let front = sessions.drop_last();
    let a = model::push_frames(s, n, table, front);
    if k < a.len() {
        law_push_stays_in_the_network(s, n, table, front, k);
        let conn = a[k]->Send_conn;
        let part = a[k]->Send_frame->SetRoutes_0;
        let i = choose|i: int|
            0 <= i < front.len() && (#[trigger] front[i]).net == n && front[i].bound_conn == Some(
                conn,
            ) && part == routes::for_peer(table, front[i].tap_ip);
        assert(sessions[i].net == n);
    } else {
        assert(sessions[sessions.len() - 1] == sessions.last());
    }
}

/// A push reaches every member of the network that is bound to a live
/// connection: it is sent the table without the routes back to itself.
pub proof fn law_push_reaches_every_bound_member(
    s: HubView,
    n: Uuid,
    table: Seq<RouteView>,
    sessions: Seq<SessionView>,
    i: int,
)
    requires
        0 <= i < sessions.len(),
        sessions[i].net == n,
        sessions[i].bound_conn matches Some(id) && s.has_conn(id),
    ensures
        model::push_frames(s, n, table, sessions).contains(
            ActionView::Send {
                conn: sessions[i].bound_conn->0,
                frame: FrameView::SetRoutes(routes::for_peer(table, sessions[i].tap_ip)),
            },
        ),
    decreases sessions.len(),
{
    let front = sessions.drop_last();
    let a = model::push_frames(s, n, table, front);
    let all = model::push_frames(s, n, table, sessions);
    let x = ActionView::Send {
        conn: sessions[i].bound_conn->0,
        frame: FrameView::SetRoutes(routes::for_peer(table, sessions[i].tap_ip)),
    };
    if i < front.len() {
        assert(front[i] == sessions[i]);
        law_push_reaches_every_bound_member(s, n, table, front, i);
        let k = choose|k: int| 0 <= k < a.len() && a[k] == x;
        assert(all[k] == x);
    } else {
        assert(all[a.len() as int] == x);
    }
}

/// A push sends each bound member one frame: there are as many frames as
/// sessions of the network that are bound to a live connection.
pub proof fn law_push_sends_one_frame_each(
    s: HubView,
    n: Uuid,
    table: Seq<RouteView>,
    sessions: Seq<SessionView>,
)
    ensures
        model::push_frames(s, n, table, sessions).len() == sessions.filter(
            reachable(s, n),
        ).len(),
    decreases sessions.len(),
{
    reveal(Seq::filter);
    if sessions.len() > 0 {
        law_push_sends_one_frame_each(s, n, table, sessions.drop_last());
    }
}

/// Selects the sessions of a network that are bound to a live connection.
pub open spec fn reachable(s: HubView, n: Uuid) -> spec_fn(SessionView) -> bool {
    |x: SessionView| x.net == n && (x.bound_conn matches Some(id) && s.has_conn(id))
}

// ── Networks ─────────────────────────────────────────────────────────────
/// A bridge address that was accepted is empty, or has a 16 or 24 bit prefix.
pub proof fn law_bridge_addresses_have_allowed_prefixes(s: HubView, n: Uuid, ip: Seq<char>)
    ensures
        model::set_bridge_ip_step(s, n, ip).1 matches SetBridgeIpView::Updated(rec) ==> {
            &&& rec.bridge_ip == ip
            &&& ip.len() == 0 || (addr::net_parsed(ip) matches Some(p) && (p.prefix == 16
                || p.prefix == 24))
        },
        !(model::set_bridge_ip_step(s, n, ip).1 is Updated) ==> model::set_bridge_ip_step(
            s,
            n,
            ip,
        ).0 == (s, Seq::<ActionView>::empty()),
{
}

/// A new network is known, has no members and is not flagged.
pub proof fn law_new_network_is_clean(s: HubView, rec: NetView, up: bool)
    ensures
        ({
            let t = model::add_net_step(s, rec, up).0;
            &&& t.knows_net(rec.uuid)
            &&& t.has_bridge(rec.uuid) == (up || s.has_bridge(rec.uuid))
            &&& model::told(t, rec.uuid) == Seq::<RouteView>::empty()
            &&& !model::flagged(t, rec.uuid)
        }),
{
    let t = model::add_net_step(s, rec, up).0;
    seqs::lemma_position_push(s.cfg.networks, model::net_is(rec.uuid), rec);
    seqs::lemma_position_push(s.bridges, model::bridge_of(rec.uuid), rec.uuid);
    lemma_with_pushed(s.pushed, PushedView { net: rec.uuid, routes: Seq::empty() }, rec.uuid);
    lemma_with_flag(s.dirty, DirtyFlag { net: rec.uuid, dirty: false }, rec.uuid);
}

// ── Metrics ──────────────────────────────────────────────────────────────
/// The rates of a session are what its counters grew by since the last
/// sample, and zero in its first sample.
pub proof fn law_rates_are_differences(
    s: HubView,
    first: Seq<(u64, u64)>,
    second: Seq<(u64, u64)>,
    i: int,
)
    requires
        soundness::sound(s),
        0 <= i < s.sessions.len(),
        first.len() == s.sessions.len(),
        second.len() == s.sessions.len(),
        first[i].0 <= second[i].0,
        first[i].1 <= second[i].1,
    ensures
        ({
            let t = model::tick_step(s, first).0;
            let m = model::sample(s.sessions[i], second[i], t.metrics_prev);
            &&& m.bps_in == second[i].0 - first[i].0
            &&& m.bps_out == second[i].1 - first[i].1
            &&& !seqs::some_where(s.metrics_prev, model::counts_of(s.sessions[i].sid)) ==> {
                let m = model::sample(s.sessions[i], first[i], s.metrics_prev);
                m.bps_in == 0 && m.bps_out == 0
            }
        }),
{
    let t = model::tick_step(s, first).0;
    let p = model::counts_of(s.sessions[i].sid);
    assert forall|j: int| 0 <= j < i implies !p(#[trigger] t.metrics_prev[j]) by {
        assert(soundness::sid_key()(s.sessions[j]) != soundness::sid_key()(s.sessions[i]));
    }
    seqs::lemma_position_is(t.metrics_prev, p, i);
}

// ── Saving ───────────────────────────────────────────────────────────────
/// Whether a step that changed the configuration has it written to disk.
pub open spec fn saved(s: HubView, step: model::Step) -> bool {
    step.0.cfg == s.cfg || step.1.contains(ActionView::Persist)
}

/// Whatever a connection or a session does, a changed configuration is written
/// to disk.
pub proof fn law_connections_save_changes(
    s: HubView,
    conn: ConnId,
    c: Uuid,
    n: Uuid,
    sid: SessionId,
    a: ApprovalView,
    outcome: TapOutcomeView,
)
    ensures
        saved(s, model::hello_step(s, conn, c)),
        saved(s, model::join_step(s, conn, n).0),
        saved(s, model::approve_step(s, a, outcome)),
        saved(s, model::disconnect_step(s, conn)),
        saved(s, model::died_step(s, sid)),
{
    let acts = model::hello_step(s, conn, c).1;
    if !s.knows_client(c) {
        assert(acts[0] == ActionView::Persist);
    }
    let rows = s.cfg.approved_clients;
    let p = seqs::position(rows, model::of_pair(a.client, a.net));
    seqs::lemma_position(rows, model::of_pair(a.client, a.net));
    let (t, more) = model::admit_step(s, a);
    match p {
        Some(i) if rows[i].admitted => {
            assert(rows.update(i, ApprovedView { admitted: true, ..rows[i] }) =~= rows);
            assert(t.cfg == s.cfg);
        },
        _ => {
            if s.has_conn(a.conn) {
                assert(more[2] == ActionView::Persist);
            } else {
                assert(more[1] == ActionView::Persist);
            }
        },
    }
}

/// Whatever an admin does, a changed configuration is written to disk.
pub proof fn law_admin_commands_save_changes(
    s: HubView,
    n: Uuid,
    c: Uuid,
    target: Option<Uuid>,
    u: UpdateView,
    rec: NetView,
    up: bool,
    name: Seq<char>,
    ip: Seq<char>,
)
    ensures
        saved(s, model::add_net_step(s, rec, up)),
        saved(s, model::rename_step(s, n, name).0),
        saved(s, model::set_bridge_ip_step(s, n, ip).0),
        saved(s, model::delete_net_step(s, n).0),
        saved(s, model::assign_step(s, c, target).0),
        saved(s, model::patch_step(s, c, u.name, u.lan_subnets).0),
        saved(s, model::device_set_step(s, c, n, u).0),
        saved(s, model::finish_set_step(s, c, n).0),
{
    assert(model::add_net_step(s, rec, up).1[0] == ActionView::Persist);
    let (t, acts) = model::rename_step(s, n, name).0;
    if t.cfg != s.cfg {
        assert(acts[0] == ActionView::Persist);
    }
    let (t, acts) = model::set_bridge_ip_step(s, n, ip).0;
    if t.cfg != s.cfg {
        assert(acts[0] == ActionView::Persist);
    }
    let (t, acts) = model::patch_step(s, c, u.name, u.lan_subnets).0;
    if t.cfg != s.cfg {
        assert(acts[0] == ActionView::Persist);
    }
    let (t, acts) = model::device_set_step(s, c, n, u).0;
    if t.cfg != s.cfg {
        assert(acts[0] == ActionView::Persist);
    }
    let (t, acts) = model::assign_step(s, c, target).0;
    if t.cfg != s.cfg {
        if acts[0] != ActionView::Persist {
            assert(acts[1] == ActionView::Persist);
        }
    }
    if s.knows_net(n) {
        let v = HubView {
            cfg: ServerConfigView {
                approved_clients: s.cfg.approved_clients.filter(model::not_in_net(n)),
                ..s.cfg
            },
            pending: s.pending.filter(model::waits_not_in(n)),
            ..s
        };
        let moved = model::detach_step(v, s.cfg.approved_clients.filter(model::in_net(n))).1;
        let k = model::kill_net(s.sessions, n).len() + moved.len() + if s.has_bridge(n) {
            1int
        } else {
            0
        };
        assert(model::delete_net_step(s, n).0.1[k] == ActionView::Persist);
    }
}

} // verus!
