//! What an admin's commands do to clients, and what is listed of them. What is
//! not said to be done is not done.
use vstd::prelude::*;

use crate::addr;
use crate::config;
use crate::config::{ApprovedView, PendingView, ServerConfigView};
use crate::device::DeviceView;
use crate::events::EventView;
use crate::frame::{FrameView, RouteView};
use crate::hub::effects;
use crate::hub::laws;
use crate::hub::model;
use crate::hub::model::HubView;
use crate::hub::soundness;
use crate::hub::{
    ActionView, ApprovalView, AssignView, ConnView, DeviceSetStepView, DeviceSetView, DirtyFlag,
    PendingInfo, SessionNote, SessionView, UpdateView,
};
use crate::ids::{ConnId, SessionId};
use crate::routes;
use crate::seqs;
use crate::uuids;
use crate::uuids::Uuid;

verus! {

broadcast use {
    vstd::seq_lib::lemma_seq_concat_contains_all_elements,
    vstd::seq_lib::lemma_seq_contains_after_push,
    vstd::seq_lib::lemma_seq_empty_contains_nothing,
};

// ── Moving clients ───────────────────────────────────────────────────────
/// The name and the subnets of a client: those of its row, else those it has
/// without a network, else none.
pub open spec fn known_as(s: HubView, c: Uuid) -> (Seq<char>, Seq<Seq<char>>) {
    match seqs::first_where(s.cfg.approved_clients, config::of_client(c)) {
        Some(a) => (a.display_name, a.lan_subnets),
        None => match seqs::first_where(s.cfg.pending_clients, config::pending_of(c)) {
            Some(p) => (p.display_name, p.lan_subnets),
            None => (Seq::empty(), Seq::empty()),
        },
    }
}

/// Whether a client can be moved, and is to go where it is not.
pub open spec fn moves(s: HubView, c: Uuid, target: Option<Uuid>) -> bool {
    &&& target matches Some(n) ==> s.knows_net(n)
    &&& s.knows_client(c) || s.conn_for(c) is Some
    &&& s.assigned_net(c) != target
}

/// A client as it is after a move.
pub open spec fn moved(s: HubView, c: Uuid, target: Option<Uuid>) -> DeviceView {
    DeviceView {
        client_uuid: c,
        net_uuid: target,
        display_name: known_as(s, c).0,
        admitted: false,
        tap_ip: None,
        lan_subnets: known_as(s, c).1,
        online: s.conn_for(c) is Some,
        sid: None,
        tap_name: None,
    }
}

/// When a client is moved, the session that it has in its old network is told
/// to end, wherever it goes, and no other session is. Where it is connected, it
/// is told where it belongs now, and its connection is unbound. The kernel's
/// routes follow; the move is saved and told, and so is a change of either
/// network's need for a push. Nothing else is done.
pub proof fn law_moving_a_client(s: HubView, c: Uuid, target: Option<Uuid>, x: ActionView)
    requires
        moves(s, c, target),
    ensures
        ({
            let ((t, acts), r) = model::assign_step(s, c, target);
            acts.contains(x) <==> match x {
                ActionView::ToSession { sid, note } => note == SessionNote::Kill && (
                s.assigned_net(c) matches Some(o) && (s.session(c, o) matches Some(y) && y.sid
                    == sid)),
                ActionView::Send { conn, frame } => s.conn_for(c) == Some(conn) && frame == (
                FrameView::AssignNet { net_uuid: target }),
                ActionView::Bind { conn, session } => s.conn_for(c) == Some(conn) && session is None,
                ActionView::Persist => true,
                ActionView::ApplyRoutes { net, routes } => s.has_bridge(net) && s.knows_net(net)
                    && routes == routes::parse_all(
                    routes::derived(t.cfg.approved_clients, net),
                ),
                ActionView::Emit(EventView::DeviceChanged { network, device }) => network == (
                match target {
                    Some(n) => n,
                    None => Uuid(0),
                }) && device == moved(s, c, target),
                ActionView::Emit(EventView::RoutesDirty { network, dirty }) => (
                s.assigned_net(c) == Some(network) || target == Some(network)) && s.knows_net(
                    network,
                ) && dirty == model::needs_push(t, network) && dirty != model::flagged(s, network),
                _ => false,
            }
        }),
{
    let ((t, acts), r) = model::assign_step(s, c, target);
    let e = model::client_entry(s, c);
    assert((e.display_name, e.lan_subnets) == known_as(s, c));
    let conn = s.conn_for(c);
    let u = HubView {
        cfg: model::moved_cfg(s.cfg, c, e.display_name, e.lan_subnets, target),
        conns: match conn {
            Some(id) => model::with_bound(s.conns, id, None),
            None => s.conns,
        },
        pending: match s.assigned_net(c) {
            Some(o) => s.pending.filter(model::waits_not_for(c, o)),
            None => s.pending,
        },
        ..s
    };
    effects::law_kernel_routes_follow_the_rows(u, x);
    assert(t.cfg == u.cfg && t.pushed == u.pushed);
    if s.assigned_net(c) is Some && target is Some {
        let o = s.assigned_net(c)->0;
        let n = target->0;
        if s.knows_net(o) {
            laws::law_flag_follows_need(u, o, n);
        }
    }
}

/// When a client is moved, it is answered with the client as it is then. It
/// waits no more for its old network; the others wait as before. Its connection
/// leads nowhere. Sessions, bridges and what was pushed stay.
pub proof fn law_moved_client_is_unbound(
    s: HubView,
    c: Uuid,
    target: Option<Uuid>,
    w: PendingInfo,
    i: int,
)
    requires
        soundness::sound(s),
        moves(s, c, target),
    ensures
        ({
            let ((t, acts), r) = model::assign_step(s, c, target);
            &&& r == AssignView::Assigned(moved(s, c, target))
            &&& t == HubView {
                cfg: t.cfg,
                conns: t.conns,
                pending: t.pending,
                dirty: t.dirty,
                ..s
            }
            &&& t.cfg == ServerConfigView {
                approved_clients: t.cfg.approved_clients,
                pending_clients: t.cfg.pending_clients,
                ..s.cfg
            }
            &&& t.pending.contains(w) <==> s.pending.contains(w) && !(w.client_uuid == c
                && s.assigned_net(c) == Some(w.net_uuid))
            &&& t.conns.len() == s.conns.len()
            &&& 0 <= i < s.conns.len() ==> t.conns[i] == (ConnView {
                bound: if s.conn_for(c) == Some(s.conns[i].id) {
                    None
                } else {
                    s.conns[i].bound
                },
                ..s.conns[i]
            })
        }),
{
    if s.assigned_net(c) is Some {
        seqs::lemma_kept(s.pending, model::waits_not_for(c, s.assigned_net(c)->0), w);
    }
    if s.conn_for(c) is Some {
        let id = s.conn_for(c)->0;
        seqs::lemma_position(s.conns, model::conn_is(id));
        if 0 <= i < s.conns.len() {
            effects::lemma_only_conn(s, id, i);
        }
    }
}

/// When a client is moved, it is a member of the network that it goes to, not
/// admitted and without an address, or it has none; its name and its subnets go
/// along. It has no other row. The rows of the others stay.
pub proof fn law_moved_client_has_one_row(
    s: HubView,
    c: Uuid,
    target: Option<Uuid>,
    a: ApprovedView,
    p: PendingView,
)
    requires
        moves(s, c, target),
    ensures
        ({
            let t = model::assign_step(s, c, target).0.0;
            &&& t.cfg.approved_clients.contains(a) <==> {
                ||| a.client_uuid != c && s.cfg.approved_clients.contains(a)
                ||| target matches Some(n) && a == (ApprovedView {
                    client_uuid: c,
                    net_uuid: n,
                    tap_ip: Seq::empty(),
                    display_name: known_as(s, c).0,
                    lan_subnets: known_as(s, c).1,
                    admitted: false,
                })
            }
            &&& t.cfg.pending_clients.contains(p) <==> {
                ||| p.client_uuid != c && s.cfg.pending_clients.contains(p)
                ||| target is None && p == (PendingView {
                    client_uuid: c,
                    display_name: known_as(s, c).0,
                    lan_subnets: known_as(s, c).1,
                })
            }
        }),
{
    seqs::lemma_kept(s.cfg.approved_clients, model::not_of_client(c), a);
    seqs::lemma_kept(s.cfg.pending_clients, model::pending_not_of(c), p);
}

/// A move is refused where the network is unknown, or the client is and is not
/// connected either. Then, and where the client is there already, nothing
/// changes and nothing is done.
pub proof fn law_move_is_refused(s: HubView, c: Uuid, target: Option<Uuid>)
    ensures
        ({
            let (step, r) = model::assign_step(s, c, target);
            let unknown = target matches Some(n) && !s.knows_net(n);
            &&& r is UnknownNetwork <==> unknown
            &&& r is NotFound <==> !unknown && !s.knows_client(c) && s.conn_for(c) is None
            &&& !moves(s, c, target) ==> step == (s, Seq::<ActionView>::empty())
        }),
{
}

// ── Changing clients without a network ───────────────────────────────────
/// The name and the subnets of a client without a network change where the
/// change gives one, and stay where it gives none; this is saved and told. It is
/// refused, and nothing changes, where there is no such client or a subnet is
/// malformed.
pub proof fn law_unassigned_client_is_changed(
    s: HubView,
    c: Uuid,
    name: Option<Seq<char>>,
    subnets: Option<Seq<Seq<char>>>,
    x: ActionView,
    d: Uuid,
)
    ensures
        ({
            let ((t, acts), r) = model::patch_step(s, c, name, subnets);
            let fine = subnets matches Some(v) ==> forall|i: int|
                0 <= i < v.len() ==> addr::net_parsed(#[trigger] v[i]) is Some;
            let before = seqs::first_where(s.cfg.pending_clients, config::pending_of(c));
            let after = seqs::first_where(t.cfg.pending_clients, config::pending_of(c));
            let told = DeviceView {
                client_uuid: c,
                net_uuid: None,
                display_name: (after->0).display_name,
                admitted: false,
                tap_ip: None,
                lan_subnets: (after->0).lan_subnets,
                online: s.conn_for(c) is Some,
                sid: None,
                tap_name: None,
            };
            &&& r is Some <==> s.in_pool(c) && fine
            &&& r is None ==> t == s && acts.len() == 0
            &&& r matches Some(e) ==> {
                &&& e == told
                &&& after matches Some(p) && p.client_uuid == c && p.display_name == (match name {
                    Some(v) => v,
                    None => (before->0).display_name,
                }) && p.lan_subnets == (match subnets {
                    Some(v) => v,
                    None => (before->0).lan_subnets,
                })
                &&& acts.contains(x) <==> x == ActionView::Persist || x == ActionView::Emit(
                    EventView::DeviceChanged { network: Uuid(0), device: told },
                )
            }
            &&& t == HubView {
                cfg: ServerConfigView { pending_clients: t.cfg.pending_clients, ..s.cfg },
                ..s
            }
            &&& t.cfg.pending_clients.len() == s.cfg.pending_clients.len()
            &&& d != c ==> seqs::first_where(t.cfg.pending_clients, config::pending_of(d))
                == seqs::first_where(s.cfg.pending_clients, config::pending_of(d))
        }),
{
    let pool = s.cfg.pending_clients;
    let t = model::patch_step(s, c, name, subnets).0.0;
    seqs::lemma_position(pool, config::pending_of(c));
    if model::patch_step(s, c, name, subnets).1 is Some {
        let i = seqs::position(pool, config::pending_of(c))->0;
        let new = t.cfg.pending_clients[i];
        assert(t.cfg.pending_clients == pool.update(i, new));
        seqs::lemma_position_update(pool, config::pending_of(c), i, new);
        seqs::lemma_position_update(pool, config::pending_of(d), i, new);
        seqs::lemma_position(pool, config::pending_of(d));
    }
}

// ── Changing members ─────────────────────────────────────────────────────
/// A change of a member is refused for the first reason that applies: the
/// address is neither a network nor a bare address; another member of the
/// network has it; a subnet is malformed; or there is no such member.
pub proof fn law_changes_are_checked(s: HubView, c: Uuid, n: Uuid, u: UpdateView)
    ensures
        ({
            let r = model::refused(s, c, n, u);
            let rows = s.cfg.approved_clients;
            let given = u.tap_ip is Some && (u.tap_ip->0).len() > 0;
            let bad = given && addr::net_parsed(u.tap_ip->0) is None && addr::ip_parsed(u.tap_ip->0)
                is None;
            let taken = given && exists|i: int|
                0 <= i < rows.len() && (#[trigger] rows[i]).net_uuid == n && rows[i].client_uuid
                    != c && rows[i].tap_ip == u.tap_ip->0;
            let malformed = u.lan_subnets is Some && exists|i: int|
                0 <= i < (u.lan_subnets->0).len() && addr::net_parsed(
                    #[trigger] (u.lan_subnets->0)[i],
                ) is None;
            let member = exists|i: int|
                0 <= i < rows.len() && (#[trigger] rows[i]).client_uuid == c && rows[i].net_uuid
                    == n;
            &&& r is None <==> !bad && !taken && !malformed && member
            &&& r == Some(DeviceSetView::InvalidIp) <==> bad || (!taken && malformed)
            &&& r == Some(DeviceSetView::NotFound) <==> !bad && !taken && !malformed && !member
            &&& r matches Some(DeviceSetView::Conflict { msg }) ==> exists|i: int|
                0 <= i < rows.len() && (#[trigger] rows[i]).net_uuid == n && rows[i].client_uuid
                    != c && rows[i].tap_ip == u.tap_ip->0 && msg == "tap_ip "@ + u.tap_ip->0
                    + " already used by "@ + uuids::short_chars(rows[i].client_uuid)
        }),
{
    let rows = s.cfg.approved_clients;
    let q = model::of_pair(c, n);
    seqs::lemma_position(rows, q);
    assert forall|i: int|
        0 <= i < rows.len() && (#[trigger] rows[i]).client_uuid == c && rows[i].net_uuid
            == n implies seqs::some_where(rows, q) by {
        assert(q(rows[i]));
    }
    if u.tap_ip is Some {
        let p = model::uses_ip(c, n, u.tap_ip->0);
        seqs::lemma_position(rows, p);
        assert forall|i: int|
            0 <= i < rows.len() && (#[trigger] rows[i]).net_uuid == n && rows[i].client_uuid != c
                && rows[i].tap_ip == u.tap_ip->0 implies seqs::some_where(rows, p) by {
            assert(p(rows[i]));
        }
        if seqs::position(rows, p) is Some {
            let k = seqs::position(rows, p)->0;
            assert(rows[k].net_uuid == n && rows[k].client_uuid != c && rows[k].tap_ip
                == u.tap_ip->0);
        }
    }
    if u.lan_subnets is Some {
        let v = u.lan_subnets->0;
        if !model::valid_subnets(v) {
            let i = choose|i: int|
                0 <= i < v.len() && addr::net_parsed(#[trigger] v[i]) is None;
            assert(addr::net_parsed(v[i]) is None);
        }
    }
}

/// A change of a member that is not refused gives its row what it says of the
/// address, the name, the subnets and the admission, and leaves of these what
/// it says nothing of. The other rows stay, and the rest of the configuration
/// does.
pub proof fn law_change_touches_what_it_gives(s: HubView, c: Uuid, n: Uuid, u: UpdateView, k: int)
    requires
        soundness::sound(s),
        model::refused(s, c, n, u) is None,
        0 <= k < s.cfg.approved_clients.len(),
    ensures
        ({
            let t = model::device_set_step(s, c, n, u).0.0;
            let before = s.cfg.approved_clients[k];
            let after = t.cfg.approved_clients[k];
            &&& t.cfg == ServerConfigView {
                approved_clients: t.cfg.approved_clients,
                ..s.cfg
            }
            &&& t.cfg.approved_clients.len() == s.cfg.approved_clients.len()
            &&& !(before.client_uuid == c && before.net_uuid == n) ==> after == before
            &&& before.client_uuid == c && before.net_uuid == n ==> {
                &&& after.client_uuid == c && after.net_uuid == n
                &&& after.tap_ip == if u.tap_ip is Some {
                    u.tap_ip->0
                } else {
                    before.tap_ip
                }
                &&& after.display_name == if u.name is Some {
                    u.name->0
                } else {
                    before.display_name
                }
                &&& after.lan_subnets == if u.lan_subnets is Some {
                    u.lan_subnets->0
                } else {
                    before.lan_subnets
                }
                &&& after.admitted == if u.admitted is Some {
                    u.admitted->0
                } else {
                    before.admitted
                }
            }
        }),
{
    let rows = s.cfg.approved_clients;
    let q = model::of_pair(c, n);
    seqs::lemma_position(rows, q);
    let i = seqs::position(rows, q)->0;
    if q(rows[k]) && i < k {
        assert(config::row_client()(rows[i]) != config::row_client()(rows[k]));
    }
}

/// What a change makes of the row of a member.
pub open spec fn row_after(s: HubView, c: Uuid, n: Uuid, u: UpdateView) -> ApprovedView {
    let row = effects::row_of(s, c, n)->0;
    ApprovedView {
        tap_ip: if u.tap_ip is Some {
            u.tap_ip->0
        } else {
            row.tap_ip
        },
        display_name: if u.name is Some {
            u.name->0
        } else {
            row.display_name
        },
        lan_subnets: if u.lan_subnets is Some {
            u.lan_subnets->0
        } else {
            row.lan_subnets
        },
        admitted: if u.admitted is Some {
            u.admitted->0
        } else {
            row.admitted
        },
        ..row
    }
}

/// Whether a change takes a member's admission away.
pub open spec fn withdraws(s: HubView, c: Uuid, n: Uuid, u: UpdateView) -> bool {
    (effects::row_of(s, c, n)->0).admitted && u.admitted == Some(false)
}

/// Whether a change admits a client that waits on a live connection.
pub open spec fn lets_in(s: HubView, c: Uuid, n: Uuid, u: UpdateView) -> bool {
    !(effects::row_of(s, c, n)->0).admitted && u.admitted == Some(true) && (seqs::first_where(
        s.pending,
        model::waits_for(c, n),
    ) matches Some(w) && s.has_conn(w.conn))
}

/// A change of a member is saved. Where its address is another one, it is told,
/// if it is connected, and the kernel's routes follow. Where its admission is
/// withdrawn, its session is told to end, and the connections that it has or
/// waits on are closed. Once it is done, it is told, and so is a change of the
/// need for a push. Nothing else is done.
pub proof fn law_changing_a_member(s: HubView, c: Uuid, n: Uuid, u: UpdateView, x: ActionView)
    requires
        soundness::sound(s),
        model::refused(s, c, n, u) is None,
    ensures
        ({
            let ((t, acts), r) = model::device_set_step(s, c, n, u);
            let new = row_after(s, c, n, u);
            let moved = (effects::row_of(s, c, n)->0).tap_ip != new.tap_ip;
            &&& r is Approve <==> lets_in(s, c, n, u)
            &&& r matches DeviceSetStepView::Done(d) ==> d is Updated
            &&& acts.contains(x) <==> match x {
                ActionView::Persist => true,
                ActionView::Send { conn, frame } => moved && frame == (FrameView::SetIp {
                    ip: if new.tap_ip.len() > 0 {
                        Some(new.tap_ip)
                    } else {
                        None
                    },
                }) && (s.session(c, n) matches Some(y) && y.bound_conn == Some(conn)) && s.has_conn(
                    conn,
                ),
                ActionView::ApplyRoutes { net, routes } => moved && s.has_bridge(net)
                    && s.knows_net(net) && routes == routes::parse_all(
                    routes::derived(t.cfg.approved_clients, net),
                ),
                ActionView::ToSession { sid, note } => withdraws(s, c, n, u) && note
                    == SessionNote::Kill && (s.session(c, n) matches Some(y) && y.sid == sid),
                ActionView::DropConn { conn } => withdraws(s, c, n, u) && {
                    ||| s.session(c, n) matches Some(y) && y.bound_conn == Some(conn)
                    ||| seqs::first_where(s.pending, model::waits_for(c, n)) matches Some(w)
                        && w.conn == conn
                },
                ActionView::Emit(EventView::DeviceChanged { network, device }) => network == n && r
                    == DeviceSetStepView::Done(DeviceSetView::Updated(device)),
                ActionView::Emit(EventView::RoutesDirty { network, dirty }) => r is Done && network
                    == n && s.knows_net(n) && dirty == model::needs_push(t, n) && dirty
                    != model::flagged(s, n),
                _ => false,
            }
        }),
{
    let ((t, acts), r) = model::device_set_step(s, c, n, u);
    let rows = s.cfg.approved_clients;
    let q = model::of_pair(c, n);
    seqs::lemma_position(rows, q);
    let i = seqs::position(rows, q)->0;
    let new = model::updated_row(rows[i], u);
    assert(new == row_after(s, c, n, u));
    let base = HubView {
        cfg: ServerConfigView { approved_clients: rows.update(i, new), ..s.cfg },
        ..s
    };
    seqs::lemma_position_update(rows, q, i, new);
    let moved = rows[i].tap_ip != new.tap_ip;
    let (v, readdress) = if moved {
        model::readdress_step(base, c, n, new.tap_ip)
    } else {
        (base, Seq::empty())
    };
    assert(v.cfg == base.cfg && v.conns == s.conns && v.pending == s.pending);
    effects::law_kernel_routes_follow_the_rows(v, x);
    let p = model::session_of(c, n);
    seqs::lemma_position(s.sessions, p);
    if s.session(c, n) is Some {
        let m = seqs::position(s.sessions, p)->0;
        let ip = crate::device::opt_ip(new.tap_ip);
        seqs::lemma_position_update(
            s.sessions,
            p,
            m,
            SessionView { tap_ip: ip, ..s.sessions[m] },
        );
    }
    assert(match s.session(c, n) {
        Some(y) => v.session(c, n) matches Some(z) && z.sid == y.sid && z.bound_conn
            == y.bound_conn,
        None => v.session(c, n) is None,
    });
    seqs::lemma_position(s.pending, model::waits_for(c, n));
}

/// Where a change admits a client that waits, a TAP is requested for it, on the
/// connection that it waits on and under a new identity, and it waits no more.
pub proof fn law_admission_requests_a_tap(s: HubView, c: Uuid, n: Uuid, u: UpdateView)
    requires
        soundness::sound(s),
        model::refused(s, c, n, u) is None,
        lets_in(s, c, n, u),
    ensures
        ({
            let (step, r) = model::device_set_step(s, c, n, u);
            let w = seqs::first_where(s.pending, model::waits_for(c, n))->0;
            &&& r == DeviceSetStepView::Approve(
                ApprovalView {
                    sid: SessionId(s.next_id),
                    conn: w.conn,
                    client: c,
                    net: n,
                    tap_name: "tap"@ + uuids::short_chars(c),
                    bridged: s.has_bridge(n),
                },
            )
            &&& step.0.next_id != s.next_id
            &&& !step.0.waits(c, n)
            &&& step.0.conns == s.conns
        }),
{
    let rows = s.cfg.approved_clients;
    seqs::lemma_position(rows, model::of_pair(c, n));
    seqs::lemma_position(s.pending, model::waits_for(c, n));
    let p = model::waits_for(c, n);
    let k = seqs::position(s.pending, p)->0;
    let left = s.pending.remove(k);
    seqs::lemma_distinct_remove(s.pending, soundness::wait_key(), k);
    assert forall|j: int| 0 <= j < left.len() implies !p(#[trigger] left[j]) by {
        assert(soundness::wait_key()(left[j]) != soundness::wait_key()(s.pending[k]));
    }
    seqs::lemma_position_none(left, p);
}

/// The sessions after a change of a member: the session of the member has the
/// new address, and the others stay.
pub proof fn law_change_reaches_the_session(s: HubView, c: Uuid, n: Uuid, u: UpdateView, k: int)
    requires
        soundness::sound(s),
        model::refused(s, c, n, u) is None,
        0 <= k < s.sessions.len(),
    ensures
        ({
            let t = model::device_set_step(s, c, n, u).0.0;
            let new = row_after(s, c, n, u);
            let moved = (effects::row_of(s, c, n)->0).tap_ip != new.tap_ip;
            &&& t.sessions.len() == s.sessions.len()
            &&& t.bridges == s.bridges && t.pushed == s.pushed && t.metrics_prev == s.metrics_prev
            &&& t.sessions[k] == if moved && s.sessions[k].client == c && s.sessions[k].net == n {
                SessionView {
                    tap_ip: if new.tap_ip.len() > 0 {
                        Some(new.tap_ip)
                    } else {
                        None
                    },
                    ..s.sessions[k]
                }
            } else {
                s.sessions[k]
            }
        }),
{
    let rows = s.cfg.approved_clients;
    seqs::lemma_position(rows, model::of_pair(c, n));
    seqs::lemma_position(s.sessions, model::session_of(c, n));
    effects::lemma_only_place(s, c, n, k);
    let i = seqs::position(rows, model::of_pair(c, n))->0;
    assert(model::updated_row(rows[i], u) == row_after(s, c, n, u));
}

/// A change that lets nobody in and takes no admission away leaves the
/// connections and the waiting clients as they are.
pub proof fn law_plain_change_disturbs_nobody(s: HubView, c: Uuid, n: Uuid, u: UpdateView)
    requires
        soundness::sound(s),
        model::refused(s, c, n, u) is None,
        !withdraws(s, c, n, u),
        !(u.admitted == Some(true) && s.waits(c, n)),
    ensures
        ({
            let t = model::device_set_step(s, c, n, u).0.0;
            t.conns == s.conns && t.pending == s.pending && t.next_id == s.next_id
        }),
{
    let rows = s.cfg.approved_clients;
    seqs::lemma_position(rows, model::of_pair(c, n));
}

/// Once a change is complete, it is answered with the member as it is, which is
/// told to the subscribers; the rest stays but for the flag.
pub proof fn law_finished_change_is_told(s: HubView, c: Uuid, n: Uuid, x: ActionView)
    ensures
        ({
            let ((t, acts), r) = model::finish_set_step(s, c, n);
            match effects::row_of(s, c, n) {
                None => t == s && acts.len() == 0 && r is NotFound,
                Some(a) => {
                    &&& r == DeviceSetView::Updated(model::member_entry(s, a))
                    &&& t == HubView { dirty: t.dirty, ..s }
                    &&& acts.contains(x) <==> match x {
                        ActionView::Emit(EventView::DeviceChanged { network, device }) => network
                            == n && device == model::member_entry(s, a),
                        ActionView::Emit(EventView::RoutesDirty { network, dirty }) => network == n
                            && s.knows_net(n) && dirty == model::needs_push(s, n) && dirty
                            != model::flagged(s, n),
                        _ => false,
                    }
                },
            }
        }),
{
}

// ── Listing clients ──────────────────────────────────────────────────────
/// A member is listed with what its row says, and is online where it has a
/// session or waits for admission. The session, where there is one, gives the
/// identity and the TAP.
pub proof fn law_members_are_listed_as_they_are(s: HubView, a: ApprovedView)
    ensures
        model::member_entry(s, a) == (DeviceView {
            client_uuid: a.client_uuid,
            net_uuid: Some(a.net_uuid),
            display_name: a.display_name,
            admitted: a.admitted,
            tap_ip: if a.tap_ip.len() > 0 {
                Some(a.tap_ip)
            } else {
                None
            },
            lan_subnets: a.lan_subnets,
            online: s.session(a.client_uuid, a.net_uuid) is Some || s.waits(
                a.client_uuid,
                a.net_uuid,
            ),
            sid: if s.session(a.client_uuid, a.net_uuid) is Some {
                Some((s.session(a.client_uuid, a.net_uuid)->0).sid.0)
            } else {
                None
            },
            tap_name: if s.session(a.client_uuid, a.net_uuid) is Some {
                Some((s.session(a.client_uuid, a.net_uuid)->0).tap_name)
            } else {
                None
            },
        }),
{
}

/// A client without a network, as it is listed: it is online where a connection
/// of its own is neither bound nor waiting.
pub open spec fn listed_free(s: HubView, p: PendingView) -> DeviceView {
    DeviceView {
        client_uuid: p.client_uuid,
        net_uuid: None,
        display_name: p.display_name,
        admitted: false,
        tap_ip: None,
        lan_subnets: p.lan_subnets,
        online: exists|i: int|
            0 <= i < s.conns.len() && (#[trigger] s.conns[i]).client == Some(p.client_uuid)
                && s.conns[i].bound is None && forall|j: int|
                0 <= j < s.pending.len() ==> !((#[trigger] s.pending[j]).client_uuid
                    == p.client_uuid && s.pending[j].conn == s.conns[i].id),
        sid: None,
        tap_name: None,
    }
}

/// The device list of a network holds its members, and no one else. The list of
/// all holds the members of every network and the clients without one.
pub proof fn law_device_lists_are_complete(s: HubView, net: Option<Uuid>, d: DeviceView)
    ensures
        model::devices(s, net).contains(d) <==> {
            ||| exists|i: int|
                0 <= i < s.cfg.approved_clients.len() && (net is None || net == Some(
                    (#[trigger] s.cfg.approved_clients[i]).net_uuid,
                )) && d == model::member_entry(s, s.cfg.approved_clients[i])
            ||| net is None && exists|i: int|
                0 <= i < s.cfg.pending_clients.len() && d == listed_free(
                    s,
                    #[trigger] s.cfg.pending_clients[i],
                )
        },
        net is None ==> model::devices(s, net).len() == s.cfg.approved_clients.len()
            + s.cfg.pending_clients.len(),
{
    let rows = s.cfg.approved_clients;
    let pool = s.cfg.pending_clients;
    let q = model::listed(net);
    let f = |a: ApprovedView| model::member_entry(s, a);
    let members = rows.filter(q).map_values(f);
    seqs::lemma_filter_from(rows, q);
    if members.contains(d) {
        let k = choose|k: int| 0 <= k < members.len() && members[k] == d;
        let a = rows.filter(q)[k];
        assert(rows.contains(a) && q(a));
        let i = choose|i: int| 0 <= i < rows.len() && rows[i] == a;
        assert(d == model::member_entry(s, rows[i]) && q(rows[i]));
    }
    assert forall|i: int|
        0 <= i < rows.len() && (net is None || net == Some((#[trigger] rows[i]).net_uuid)) && d
            == model::member_entry(s, rows[i]) implies members.contains(d) by {
        assert(rows.contains(rows[i]));
        seqs::lemma_filter_keeps(rows, q, rows[i]);
        let k = choose|k: int| 0 <= k < rows.filter(q).len() && rows.filter(q)[k] == rows[i];
        assert(members[k] == d);
    }
    if net is None {
        let all = model::devices(s, net);
        let free = all.skip(members.len() as int);
        assert(all =~= members + free);
        assert forall|i: int| 0 <= i < pool.len() implies #[trigger] free[i] == listed_free(
            s,
            pool[i],
        ) by {
            lemma_idle(s, pool[i].client_uuid);
        }
        if free.contains(d) {
            let k = choose|k: int| 0 <= k < free.len() && free[k] == d;
            assert(d == listed_free(s, pool[k]));
        }
        assert forall|i: int|
            0 <= i < pool.len() && d == listed_free(s, #[trigger] pool[i]) implies free.contains(
            d,
        ) by {
            assert(free[i] == d);
        }
        lemma_all_pass(rows, q);
    }
}

/// Where everything passes a filter, nothing is lost.
pub proof fn lemma_all_pass(s: Seq<ApprovedView>, q: spec_fn(ApprovedView) -> bool)
    requires
        forall|a: ApprovedView| #[trigger] q(a),
    ensures
        s.filter(q) == s,
    decreases s.len(),
{
    reveal(Seq::filter);
    if s.len() > 0 {
        lemma_all_pass(s.drop_last(), q);
        assert(s.drop_last().push(s.last()) =~= s);
    }
}

proof fn lemma_idle(s: HubView, c: Uuid)
    ensures
        seqs::some_where(s.conns, model::idle_conn(s, c)) <==> exists|i: int|
            0 <= i < s.conns.len() && (#[trigger] s.conns[i]).client == Some(c)
                && s.conns[i].bound is None && forall|j: int|
                0 <= j < s.pending.len() ==> !((#[trigger] s.pending[j]).client_uuid == c
                    && s.pending[j].conn == s.conns[i].id),
{
    let p = model::idle_conn(s, c);
    seqs::lemma_position(s.conns, p);
    if seqs::position(s.conns, p) is Some {
        let i = seqs::position(s.conns, p)->0;
        let w = model::waiting_conn(c, s.conns[i].id);
        seqs::lemma_position(s.pending, w);
        assert forall|j: int| 0 <= j < s.pending.len() implies !((
        #[trigger] s.pending[j]).client_uuid == c && s.pending[j].conn == s.conns[i].id) by {
            assert(!w(s.pending[j]));
        }
        assert(s.conns[i].client == Some(c));
    }
    assert forall|i: int|
        0 <= i < s.conns.len() && (#[trigger] s.conns[i]).client == Some(c)
            && s.conns[i].bound is None && (forall|j: int|
            0 <= j < s.pending.len() ==> !((#[trigger] s.pending[j]).client_uuid == c
                && s.pending[j].conn == s.conns[i].id)) implies seqs::some_where(s.conns, p) by {
        let w = model::waiting_conn(c, s.conns[i].id);
        seqs::lemma_position(s.pending, w);
        assert(p(s.conns[i]));
    }
}

/// One client, as it is answered with: a member as it is listed; a client
/// without a network with its name and its subnets, online where it is
/// connected.
pub proof fn law_client_is_described(s: HubView, c: Uuid)
    ensures
        ({
            let e = model::client_entry(s, c);
            let row = seqs::first_where(s.cfg.approved_clients, config::of_client(c));
            &&& row matches Some(a) ==> e == model::member_entry(s, a)
            &&& row is None ==> e == (DeviceView {
                client_uuid: c,
                net_uuid: None,
                display_name: known_as(s, c).0,
                admitted: false,
                tap_ip: None,
                lan_subnets: known_as(s, c).1,
                online: s.conn_for(c) is Some,
                sid: None,
                tap_name: None,
            })
        }),
{
}

/// The snapshot holds the networks, the sessions, who waits, and the networks
/// whose flag is up.
pub proof fn law_snapshot_shows_the_tables(s: HubView, n: Uuid)
    ensures
        model::snapshot(s).networks == s.cfg.networks,
        model::snapshot(s).sessions == s.sessions,
        model::snapshot(s).pending == s.pending,
        model::snapshot(s).routes_dirty.contains(n) <==> s.dirty.contains(
            DirtyFlag { net: n, dirty: true },
        ),
{
    let up = s.dirty.filter(model::raised());
    let nets = model::dirty_nets(s);
    seqs::lemma_kept(s.dirty, model::raised(), DirtyFlag { net: n, dirty: true });
    if nets.contains(n) {
        let k = choose|k: int| 0 <= k < nets.len() && nets[k] == n;
        seqs::lemma_filter_from(s.dirty, model::raised());
        assert(s.dirty.contains(up[k]) && model::raised()(up[k]));
        assert(up[k] == (DirtyFlag { net: n, dirty: true }));
    }
    if up.contains(DirtyFlag { net: n, dirty: true }) {
        let k = choose|k: int|
            0 <= k < up.len() && up[k] == (DirtyFlag { net: n, dirty: true });
        assert(nets[k] == n);
    }
}

// ── Routing tables ───────────────────────────────────────────────────────
/// A network needs a push where it has members, all of them are admitted and
/// have an address, and the routes that are derived are not, in whatever order,
/// those that were told last. Nothing was told where nothing is noted.
pub proof fn law_need_for_a_push(s: HubView, n: Uuid)
    ensures
        ({
            let rows = s.cfg.approved_clients;
            model::needs_push(s, n) <==> (exists|i: int|
                0 <= i < rows.len() && (#[trigger] rows[i]).net_uuid == n) && (forall|i: int|
                0 <= i < rows.len() && (#[trigger] rows[i]).net_uuid == n ==> rows[i].admitted
                    && rows[i].tap_ip.len() > 0) && routes::derived(rows, n).to_multiset()
                != model::told(s, n).to_multiset()
        }),
        match seqs::first_where(s.pushed, model::pushed_to(n)) {
            Some(p) => p.net == n && s.pushed.contains(p) && model::told(s, n) == p.routes,
            None => model::told(s, n).len() == 0 && forall|i: int|
                0 <= i < s.pushed.len() ==> (#[trigger] s.pushed[i]).net != n,
        },
        match seqs::first_where(s.dirty, model::flag_of(n)) {
            Some(d) => d.net == n && s.dirty.contains(d) && model::flagged(s, n) == d.dirty,
            None => !model::flagged(s, n) && forall|i: int|
                0 <= i < s.dirty.len() ==> (#[trigger] s.dirty[i]).net != n,
        },
{
    let rows = s.cfg.approved_clients;
    let q = model::in_net(n);
    seqs::lemma_position(rows, q);
    if seqs::some_where(rows, q) {
        assert(rows[seqs::position(rows, q)->0].net_uuid == n);
    }
    assert forall|i: int| 0 <= i < rows.len() && (
    #[trigger] rows[i]).net_uuid == n implies seqs::some_where(rows, q) by {
        assert(q(rows[i]));
    }
    seqs::lemma_position(s.pushed, model::pushed_to(n));
    seqs::lemma_position(s.dirty, model::flag_of(n));
    assert forall|i: int|
        0 <= i < s.pushed.len() && seqs::first_where(s.pushed, model::pushed_to(n)) is None
            implies (#[trigger] s.pushed[i]).net != n by {
        assert(!model::pushed_to(n)(s.pushed[i]));
    }
    assert forall|i: int|
        0 <= i < s.dirty.len() && seqs::first_where(s.dirty, model::flag_of(n)) is None
            implies (#[trigger] s.dirty[i]).net != n by {
        assert(!model::flag_of(n)(s.dirty[i]));
    }
}

/// A push installs the kernel's routes, and sends every member that is bound to
/// a live connection the derived routes without those back to itself. Nothing
/// else is done.
pub proof fn law_push_goes_to_the_members(s: HubView, n: Uuid, x: ActionView)
    ensures
        model::push_actions(s, n).contains(x) <==> match x {
            ActionView::ApplyRoutes { net, routes } => s.has_bridge(net) && s.knows_net(net)
                && routes == routes::parse_all(routes::derived(s.cfg.approved_clients, net)),
            ActionView::Send { conn, frame } => s.has_conn(conn) && exists|k: int|
                0 <= k < s.sessions.len() && (#[trigger] s.sessions[k]).net == n
                    && s.sessions[k].bound_conn == Some(conn) && frame == FrameView::SetRoutes(
                    routes::for_peer(
                        routes::derived(s.cfg.approved_clients, n),
                        s.sessions[k].tap_ip,
                    ),
                ),
            _ => false,
        },
{
    effects::law_kernel_routes_follow_the_rows(s, x);
    let table = routes::derived(s.cfg.approved_clients, n);
    let frames = model::push_frames(s, n, table, s.sessions);
    if frames.contains(x) {
        let k = choose|k: int| 0 <= k < frames.len() && frames[k] == x;
        laws::law_push_stays_in_the_network(s, n, table, s.sessions, k);
    }
    if let ActionView::Send { conn, frame } = x {
        assert forall|k: int|
            s.has_conn(conn) && 0 <= k < s.sessions.len() && (#[trigger] s.sessions[k]).net == n
                && s.sessions[k].bound_conn == Some(conn) && frame == FrameView::SetRoutes(
                routes::for_peer(table, s.sessions[k].tap_ip),
            ) implies frames.contains(x) by {
            laws::law_push_reaches_every_bound_member(s, n, table, s.sessions, k);
        }
    }
}

/// After a push the table counts as told to the network, and to no other. It is
/// told to the subscribers, with the number of clients that got it.
pub proof fn law_finished_push_is_told(
    s: HubView,
    n: Uuid,
    table: Seq<RouteView>,
    count: u64,
    x: ActionView,
    m: Uuid,
)
    ensures
        ({
            let (t, acts) = model::finish_push_step(s, n, table, count);
            &&& t == HubView { pushed: t.pushed, dirty: t.dirty, ..s }
            &&& model::told(t, n) == table
            &&& m != n ==> model::told(t, m) == model::told(s, m)
            &&& acts.contains(x) <==> match x {
                ActionView::Emit(EventView::RoutesChanged { network, routes, count: k }) => network
                    == n && routes == table && k == count,
                ActionView::Emit(EventView::RoutesDirty { network, dirty }) => network == n
                    && s.knows_net(n) && dirty == model::needs_push(t, n) && dirty
                    != model::flagged(s, n),
                _ => false,
            }
        }),
{
    laws::lemma_with_pushed(
        s.pushed,
        crate::hub::PushedView { net: n, routes: table },
        m,
    );
}

/// Where a member's admission is withdrawn, the connections that it has or
/// waits on are forgotten, and it waits no more. The other connections and the
/// other waiting clients stay.
pub proof fn law_withdrawn_member_is_forgotten(
    s: HubView,
    c: Uuid,
    n: Uuid,
    u: UpdateView,
    e: ConnView,
    w: PendingInfo,
)
    requires
        soundness::sound(s),
        model::refused(s, c, n, u) is None,
        withdraws(s, c, n, u),
    ensures
        ({
            let t = model::device_set_step(s, c, n, u).0.0;
            let held = seqs::first_where(s.pending, model::waits_for(c, n));
            &&& t.conns.contains(e) <==> s.conns.contains(e) && !(s.session(c, n) matches Some(y)
                && y.bound_conn == Some(e.id)) && !(held matches Some(h) && h.conn == e.id)
            &&& t.pending.contains(w) <==> s.pending.contains(w) && !(w.client_uuid == c
                && w.net_uuid == n)
            &&& t.next_id == s.next_id
        }),
{
    let t = model::device_set_step(s, c, n, u).0.0;
    let rows = s.cfg.approved_clients;
    let q = model::of_pair(c, n);
    seqs::lemma_position(rows, q);
    let i = seqs::position(rows, q)->0;
    let new = model::updated_row(rows[i], u);
    let base = HubView {
        cfg: ServerConfigView { approved_clients: rows.update(i, new), ..s.cfg },
        ..s
    };
    let v = if rows[i].tap_ip != new.tap_ip {
        model::readdress_step(base, c, n, new.tap_ip).0
    } else {
        base
    };
    let p = model::session_of(c, n);
    seqs::lemma_position(s.sessions, p);
    if s.session(c, n) is Some {
        let m = seqs::position(s.sessions, p)->0;
        let ip = crate::device::opt_ip(new.tap_ip);
        seqs::lemma_position_update(
            s.sessions,
            p,
            m,
            SessionView { tap_ip: ip, ..s.sessions[m] },
        );
    }
    assert(match s.session(c, n) {
        Some(y) => v.session(c, n) matches Some(z) && z.sid == y.sid && z.bound_conn
            == y.bound_conn,
        None => v.session(c, n) is None,
    });
    assert(v.conns == s.conns && v.pending == s.pending);
    let k = model::kick_step(v, c, n).0;
    assert(t.conns == k.conns && t.pending == k.pending);
    let bound = match s.session(c, n) {
        Some(y) => y.bound_conn,
        None => None,
    };
    let left = match bound {
        Some(id) => model::without_conn(s.conns, id),
        None => s.conns,
    };
    if bound is Some {
        lemma_without_conn(s.conns, bound->0, e);
    }
    let f = model::waits_for(c, n);
    seqs::lemma_position(s.pending, f);
    match seqs::position(s.pending, f) {
        Some(j) => {
            lemma_without_conn(left, s.pending[j].conn, e);
            assert forall|b: int| 0 <= b < s.pending.len() && b != j implies !f(
                #[trigger] s.pending[b],
            ) && s.pending[b] != s.pending[j] by {
                if b < j {
                    assert(soundness::wait_key()(s.pending[b]) != soundness::wait_key()(
                        s.pending[j],
                    ));
                } else {
                    assert(soundness::wait_key()(s.pending[j]) != soundness::wait_key()(
                        s.pending[b],
                    ));
                }
            }
            seqs::lemma_removed(s.pending, j, w);
            if s.pending.contains(w) {
                let b = choose|b: int| 0 <= b < s.pending.len() && s.pending[b] == w;
                assert(b != j ==> !f(s.pending[b]));
            }
        },
        None => {
            if s.pending.contains(w) {
                let b = choose|b: int| 0 <= b < s.pending.len() && s.pending[b] == w;
                assert(!f(s.pending[b]));
            }
        },
    }
}

/// Forgetting one connection leaves the others.
proof fn lemma_without_conn(conns: Seq<ConnView>, id: ConnId, e: ConnView)
    requires
        seqs::distinct(conns, soundness::conn_key()),
    ensures
        model::without_conn(conns, id).contains(e) <==> conns.contains(e) && e.id != id,
        seqs::distinct(model::without_conn(conns, id), soundness::conn_key()),
{
    let p = model::conn_is(id);
    seqs::lemma_position(conns, p);
    match seqs::position(conns, p) {
        Some(i) => {
            assert forall|j: int| 0 <= j < conns.len() && j != i implies (
            #[trigger] conns[j]).id != id && conns[j] != conns[i] by {
                if j < i {
                    assert(soundness::conn_key()(conns[j]) != soundness::conn_key()(conns[i]));
                } else {
                    assert(soundness::conn_key()(conns[i]) != soundness::conn_key()(conns[j]));
                }
            }
            seqs::lemma_distinct_remove(conns, soundness::conn_key(), i);
            seqs::lemma_removed(conns, i, e);
            if conns.contains(e) {
                let j = choose|j: int| 0 <= j < conns.len() && conns[j] == e;
                assert(j != i ==> conns[j].id != id);
            }
        },
        None => {
            if conns.contains(e) {
                let j = choose|j: int| 0 <= j < conns.len() && conns[j] == e;
                assert(!p(conns[j]));
            }
        },
    }
}

// ── Flags, order and number ──────────────────────────────────────────────
/// After a client was moved, the flags of the network that it left and of the
/// one that it went to say whether a push is needed; the others stay.
pub proof fn law_move_settles_the_flags(s: HubView, c: Uuid, target: Option<Uuid>, m: Uuid)
    requires
        moves(s, c, target),
    ensures
        ({
            let t = model::assign_step(s, c, target).0.0;
            &&& (s.assigned_net(c) == Some(m) || target == Some(m)) && s.knows_net(m)
                ==> model::flagged(t, m) == model::needs_push(t, m)
            &&& s.assigned_net(c) != Some(m) && target != Some(m) ==> model::flagged(t, m)
                == model::flagged(s, m)
        }),
{
    let t = model::assign_step(s, c, target).0.0;
    let e = model::client_entry(s, c);
    let u = HubView {
        cfg: model::moved_cfg(s.cfg, c, e.display_name, e.lan_subnets, target),
        conns: match s.conn_for(c) {
            Some(id) => model::with_bound(s.conns, id, None),
            None => s.conns,
        },
        pending: match s.assigned_net(c) {
            Some(o) => s.pending.filter(model::waits_not_for(c, o)),
            None => s.pending,
        },
        ..s
    };
    let v = match s.assigned_net(c) {
        Some(o) => model::recheck_step(u, o).0,
        None => u,
    };
    assert(v.cfg == u.cfg && v.pushed == u.pushed && t.cfg == u.cfg && t.pushed == u.pushed);
    if s.assigned_net(c) is Some && s.knows_net(s.assigned_net(c)->0) {
        laws::law_flag_follows_need(u, s.assigned_net(c)->0, m);
    }
    if target is Some {
        laws::law_flag_follows_need(v, target->0, m);
    }
}

/// After a change of a member, the flag of its network says whether a push is
/// needed, once it is done; the others stay.
pub proof fn law_change_settles_the_flag(s: HubView, c: Uuid, n: Uuid, u: UpdateView, m: Uuid)
    requires
        soundness::sound(s),
        model::refused(s, c, n, u) is None,
    ensures
        ({
            let (step, r) = model::device_set_step(s, c, n, u);
            let t = step.0;
            &&& r is Done && s.knows_net(n) ==> model::flagged(t, n) == model::needs_push(t, n)
            &&& m != n || r is Approve ==> model::flagged(t, m) == model::flagged(s, m)
        }),
{
    let (step, r) = model::device_set_step(s, c, n, u);
    let rows = s.cfg.approved_clients;
    let q = model::of_pair(c, n);
    seqs::lemma_position(rows, q);
    let i = seqs::position(rows, q)->0;
    seqs::lemma_position_update(rows, q, i, model::updated_row(rows[i], u));
    laws::lemma_with_flag(
        s.dirty,
        DirtyFlag { net: n, dirty: model::needs_push(step.0, n) },
        m,
    );
}

/// After a push, and after a change that was completed, the flag of the network
/// says whether a push is needed; the others stay.
pub proof fn law_finishing_settles_the_flag(
    s: HubView,
    c: Uuid,
    n: Uuid,
    table: Seq<RouteView>,
    count: u64,
    m: Uuid,
)
    requires
        s.knows_net(n),
    ensures
        ({
            let t = model::finish_push_step(s, n, table, count).0;
            &&& model::flagged(t, n) == model::needs_push(t, n)
            &&& m != n ==> model::flagged(t, m) == model::flagged(s, m)
        }),
        effects::row_of(s, c, n) is Some ==> ({
            let t = model::finish_set_step(s, c, n).0.0;
            &&& model::flagged(t, n) == model::needs_push(t, n)
            &&& m != n ==> model::flagged(t, m) == model::flagged(s, m)
        }),
{
    let t = model::finish_push_step(s, n, table, count).0;
    laws::lemma_with_flag(
        s.dirty,
        DirtyFlag { net: n, dirty: model::needs_push(t, n) },
        m,
    );
    laws::law_flag_follows_need(s, n, m);
}

/// The list of all clients holds the members in the order of their rows, and
/// after them the clients without a network in the order of theirs.
pub proof fn law_clients_are_listed_in_order(s: HubView, i: int)
    ensures
        0 <= i < s.cfg.approved_clients.len() ==> model::devices(s, None)[i]
            == model::member_entry(s, s.cfg.approved_clients[i]),
        0 <= i < s.cfg.pending_clients.len() ==> model::devices(
            s,
            None,
        )[s.cfg.approved_clients.len() + i] == listed_free(s, s.cfg.pending_clients[i]),
{
    lemma_all_pass(s.cfg.approved_clients, model::listed(None));
    if 0 <= i < s.cfg.pending_clients.len() {
        lemma_idle(s, s.cfg.pending_clients[i].client_uuid);
    }
}

/// Nothing is done twice where a client is moved or changed: beyond the
/// kernel's routes there are as many actions as there are things to do.
pub proof fn law_nothing_is_done_twice(
    s: HubView,
    c: Uuid,
    n: Uuid,
    target: Option<Uuid>,
    u: UpdateView,
    name: Option<Seq<char>>,
    subnets: Option<Seq<Seq<char>>>,
)
    ensures
        moves(s, c, target) ==> ({
            let ((t, acts), r) = model::assign_step(s, c, target);
            acts.len() <= model::sync_routes(t).len() + 2 + (if s.conn_for(c) is Some {
                2nat
            } else {
                0nat
            }) + (if s.assigned_net(c) matches Some(o) && s.session(c, o) is Some {
                1nat
            } else {
                0nat
            }) + (if s.assigned_net(c) is Some {
                1nat
            } else {
                0nat
            }) + (if target is Some {
                1nat
            } else {
                0nat
            })
        }),
        model::patch_step(s, c, name, subnets).1 is Some ==> model::patch_step(
            s,
            c,
            name,
            subnets,
        ).0.1.len() == 2,
        model::finish_set_step(s, c, n).0.1.len() <= 2,
        model::refused(s, c, n, u) is None && (effects::row_of(s, c, n)->0).tap_ip == row_after(
            s,
            c,
            n,
            u,
        ).tap_ip && !withdraws(s, c, n, u) ==> model::device_set_step(s, c, n, u).0.1.len() <= 3,
{
    if moves(s, c, target) {
        let t = model::assign_step(s, c, target).0.0;
        let e = model::client_entry(s, c);
        let v = HubView {
            cfg: model::moved_cfg(s.cfg, c, e.display_name, e.lan_subnets, target),
            conns: match s.conn_for(c) {
                Some(id) => model::with_bound(s.conns, id, None),
                None => s.conns,
            },
            pending: match s.assigned_net(c) {
                Some(o) => s.pending.filter(model::waits_not_for(c, o)),
                None => s.pending,
            },
            ..s
        };
        lemma_sync_same(v, t, s.cfg.networks);
        assert(t.cfg == v.cfg);
    }
    if model::refused(s, c, n, u) is None {
        seqs::lemma_position(s.cfg.approved_clients, model::of_pair(c, n));
    }
}

/// The kernel's routes depend on the rows, the networks and the bridges only.
proof fn lemma_sync_same(a: HubView, b: HubView, nets: Seq<crate::config::NetView>)
    requires
        a.cfg == b.cfg,
        a.bridges == b.bridges,
    ensures
        model::sync_actions(a, nets) == model::sync_actions(b, nets),
    decreases nets.len(),
{
    if nets.len() > 0 {
        lemma_sync_same(a, b, nets.drop_last());
    }
}

} // verus!
