//! What holds of the hub between any two commands, and that every command keeps
//! it.
use vstd::prelude::*;

use crate::config;
use crate::config::{ApprovedView, NetView, PendingView, ServerConfigView};
use crate::hub::model;
use crate::hub::model::HubView;
use crate::hub::{
    ApprovalView, ConnView, DeviceSetStepView, PendingInfo, SessionView, TapOutcomeView,
    UpdateView,
};
use crate::ids;
use crate::ids::{ConnId, SessionId};
use crate::seqs;
use crate::uuids::Uuid;

verus! {

// ── The invariant ────────────────────────────────────────────────────────
/// The identity of a connection.
pub open spec fn conn_key() -> spec_fn(ConnView) -> ConnId {
    |c: ConnView| c.id
}

/// The identity of a session.
pub open spec fn sid_key() -> spec_fn(SessionView) -> SessionId {
    |x: SessionView| x.sid
}

/// The place of a session.
pub open spec fn pair_key() -> spec_fn(SessionView) -> (Uuid, Uuid) {
    |x: SessionView| (x.client, x.net)
}

/// The place that a connection waits for.
pub open spec fn wait_key() -> spec_fn(PendingInfo) -> (Uuid, Uuid) {
    |p: PendingInfo| (p.client_uuid, p.net_uuid)
}

/// Whether the row of client `c` is in network `n`.
pub open spec fn member(rows: Seq<ApprovedView>, c: Uuid, n: Uuid) -> bool {
    match seqs::first_where(rows, config::of_client(c)) {
        Some(a) => a.net_uuid == n,
        None => false,
    }
}

/// Whether the client that waits is a member that is not admitted, and has no
/// session.
pub open spec fn held(s: HubView, p: PendingInfo) -> bool {
    &&& member(s.cfg.approved_clients, p.client_uuid, p.net_uuid)
    &&& !(seqs::first_where(
        s.cfg.approved_clients,
        config::of_client(p.client_uuid),
    )->0).admitted
    &&& s.session(p.client_uuid, p.net_uuid) is None
}

/// What holds of the hub between two commands: identities and places are
/// taken once; every client has one row at most; members belong to known
/// networks; identities in use were handed out before; and who waits is a
/// member that is not admitted and has no session.
pub open spec fn sound(s: HubView) -> bool {
    &&& seqs::distinct(s.conns, conn_key())
    &&& seqs::distinct(s.sessions, sid_key())
    &&& seqs::distinct(s.sessions, pair_key())
    &&& seqs::distinct(s.pending, wait_key())
    &&& config::one_row_each(s.cfg)
    &&& forall|i: int|
        0 <= i < s.cfg.approved_clients.len() ==> s.knows_net(
            (#[trigger] s.cfg.approved_clients[i]).net_uuid,
        )
    &&& forall|i: int| 0 <= i < s.conns.len() ==> (#[trigger] s.conns[i]).id.0 < s.next_id
    &&& forall|i: int| 0 <= i < s.sessions.len() ==> (#[trigger] s.sessions[i]).sid.0 < s.next_id
    &&& forall|i: int| 0 <= i < s.pending.len() ==> held(s, #[trigger] s.pending[i])
}

/// Whether a requested session can start: its identity is handed out and not
/// in use, the client is a member, and it does not wait.
pub open spec fn ready(s: HubView, a: ApprovalView) -> bool {
    &&& a.sid.0 < s.next_id
    &&& forall|i: int| 0 <= i < s.sessions.len() ==> (#[trigger] s.sessions[i]).sid != a.sid
    &&& member(s.cfg.approved_clients, a.client, a.net)
    &&& !s.waits(a.client, a.net)
}

/// Whether two connection tables differ in other things than the
/// connections.
pub open spec fn same_conns(a: Seq<ConnView>, b: Seq<ConnView>) -> bool {
    &&& a.len() == b.len()
    &&& forall|i: int| 0 <= i < a.len() ==> (#[trigger] a[i]).id == b[i].id
}

/// Whether two session tables differ in other things than the sessions.
pub open spec fn same_sessions(a: Seq<SessionView>, b: Seq<SessionView>) -> bool {
    &&& a.len() == b.len()
    &&& forall|i: int|
        0 <= i < a.len() ==> (#[trigger] a[i]).sid == b[i].sid && a[i].client == b[i].client
            && a[i].net == b[i].net
}

proof fn lemma_same_conns(a: Seq<ConnView>, b: Seq<ConnView>)
    requires
        same_conns(a, b),
        seqs::distinct(b, conn_key()),
    ensures
        seqs::distinct(a, conn_key()),
{
    assert forall|i: int, j: int| 0 <= i < j < a.len() implies conn_key()(#[trigger] a[i])
        != conn_key()(#[trigger] a[j]) by {
        assert(conn_key()(b[i]) != conn_key()(b[j]));
    }
}

proof fn lemma_same_sessions(a: Seq<SessionView>, b: Seq<SessionView>)
    requires
        same_sessions(a, b),
        seqs::distinct(b, sid_key()),
        seqs::distinct(b, pair_key()),
    ensures
        seqs::distinct(a, sid_key()),
        seqs::distinct(a, pair_key()),
        forall|c: Uuid, n: Uuid|
            seqs::position(a, #[trigger] model::session_of(c, n)) == seqs::position(
                b,
                model::session_of(c, n),
            ),
{
    assert forall|i: int, j: int| 0 <= i < j < a.len() implies sid_key()(#[trigger] a[i])
        != sid_key()(#[trigger] a[j]) by {
        assert(sid_key()(b[i]) != sid_key()(b[j]));
    }
    assert forall|i: int, j: int| 0 <= i < j < a.len() implies pair_key()(#[trigger] a[i])
        != pair_key()(#[trigger] a[j]) by {
        assert(pair_key()(b[i]) != pair_key()(b[j]));
    }
    assert forall|c: Uuid, n: Uuid|
        seqs::position(a, #[trigger] model::session_of(c, n)) == seqs::position(
            b,
            model::session_of(c, n),
        ) by {
        let p = model::session_of(c, n);
        seqs::lemma_position(b, p);
        match seqs::position(b, p) {
            Some(k) => {
                assert(p(a[k]));
                assert forall|j: int| 0 <= j < k implies !p(#[trigger] a[j]) by {
                    assert(!p(b[j]));
                }
                seqs::lemma_position_is(a, p, k);
            },
            None => {
                assert forall|j: int| 0 <= j < a.len() implies !p(#[trigger] a[j]) by {
                    assert(!p(b[j]));
                }
                seqs::lemma_position_none(a, p);
            },
        }
    }
}

/// Binding a connection changes nothing else.
proof fn lemma_with_bound(conns: Seq<ConnView>, id: ConnId, b: Option<SessionId>)
    ensures
        same_conns(model::with_bound(conns, id, b), conns),
{
    seqs::lemma_position(conns, model::conn_is(id));
}

/// A state whose connections, sessions and rows are the same, and where no
/// more waits than before, is as sound.
proof fn lemma_sound_same(s: HubView, t: HubView)
    requires
        sound(s),
        same_conns(t.conns, s.conns),
        same_sessions(t.sessions, s.sessions),
        t.pending == s.pending,
        t.cfg.approved_clients == s.cfg.approved_clients,
        t.cfg.pending_clients == s.cfg.pending_clients,
        t.cfg.networks == s.cfg.networks,
        t.next_id == s.next_id,
    ensures
        sound(t),
{
    lemma_same_conns(t.conns, s.conns);
    lemma_same_sessions(t.sessions, s.sessions);
    assert forall|i: int| 0 <= i < t.conns.len() implies (#[trigger] t.conns[i]).id.0
        < t.next_id by {
        assert(s.conns[i].id.0 < s.next_id);
    }
    assert forall|i: int| 0 <= i < t.sessions.len() implies (#[trigger] t.sessions[i]).sid.0
        < t.next_id by {
        assert(s.sessions[i].sid.0 < s.next_id);
    }
    assert forall|i: int| 0 <= i < t.pending.len() implies held(t, #[trigger] t.pending[i]) by {
        let p = s.pending[i];
        assert(held(s, p));
        assert(seqs::position(t.sessions, model::session_of(p.client_uuid, p.net_uuid))
            == seqs::position(s.sessions, model::session_of(p.client_uuid, p.net_uuid)));
    }
    assert forall|i: int| 0 <= i < t.cfg.approved_clients.len() implies t.knows_net(
        (#[trigger] t.cfg.approved_clients[i]).net_uuid,
    ) by {
        assert(s.knows_net(s.cfg.approved_clients[i].net_uuid));
    }
}

// ── Every command keeps it ───────────────────────────────────────────────
/// A hub is sound when it starts, where its configuration is.
pub proof fn law_new_hub_is_sound(cfg: ServerConfigView)
    requires
        config::one_row_each(cfg),
        forall|i: int|
            0 <= i < cfg.approved_clients.len() ==> seqs::some_where(
                cfg.networks,
                model::net_is((#[trigger] cfg.approved_clients[i]).net_uuid),
            ),
    ensures
        sound(model::fresh_hub(cfg)),
{
    let s = model::fresh_hub(cfg);
    assert forall|i: int| 0 <= i < s.cfg.approved_clients.len() implies s.knows_net(
        (#[trigger] s.cfg.approved_clients[i]).net_uuid,
    ) by {
        assert(seqs::some_where(
            cfg.networks,
            model::net_is(cfg.approved_clients[i].net_uuid),
        ));
    }
}

/// Starting up keeps the hub sound.
pub proof fn law_start_keeps_sound(s: HubView)
    requires
        sound(s),
    ensures
        sound(model::start_step(s).0),
{
    lemma_seeded(s, s.cfg.networks);
    lemma_sound_same(s, model::start_step(s).0);
}

proof fn lemma_seeded(s: HubView, nets: Seq<NetView>)
    ensures
        model::seeded(s, nets) == (HubView {
            pushed: model::seeded(s, nets).pushed,
            dirty: model::seeded(s, nets).dirty,
            ..s
        }),
    decreases nets.len(),
{
    if nets.len() > 0 {
        lemma_seeded(s, nets.drop_last());
    }
}

/// Accepting a connection keeps the hub sound, while identities last.
pub proof fn law_new_conn_keeps_sound(s: HubView, addr: Seq<char>)
    requires
        sound(s),
        s.next_id < u64::MAX,
    ensures
        sound(model::new_conn_step(s, addr)),
{
    let t = model::new_conn_step(s, addr);
    let e = ConnView { id: ConnId(s.next_id), addr: addr, client: None, bound: None };
    seqs::lemma_position(s.conns, model::conn_is(e.id));
    assert(seqs::position(s.conns, model::conn_is(e.id)) is None) by {
        if seqs::position(s.conns, model::conn_is(e.id)) is Some {
            let i = seqs::position(s.conns, model::conn_is(e.id))->0;
            assert(s.conns[i].id.0 < s.next_id);
        }
    }
    assert forall|i: int| 0 <= i < s.conns.len() implies conn_key()(#[trigger] s.conns[i])
        != conn_key()(e) by {
        assert(s.conns[i].id.0 < s.next_id);
    }
    seqs::lemma_distinct_push(s.conns, conn_key(), e);
    assert forall|i: int| 0 <= i < t.pending.len() implies held(t, #[trigger] t.pending[i]) by {
        assert(held(s, s.pending[i]));
    }
    assert forall|i: int| 0 <= i < t.cfg.approved_clients.len() implies t.knows_net(
        (#[trigger] t.cfg.approved_clients[i]).net_uuid,
    ) by {
        assert(s.knows_net(s.cfg.approved_clients[i].net_uuid));
    }
}

/// A client that introduces itself keeps the hub sound.
pub proof fn law_hello_keeps_sound(s: HubView, conn: ConnId, client: Uuid)
    requires
        sound(s),
    ensures
        sound(model::hello_step(s, conn, client).0),
{
    let t = model::hello_step(s, conn, client).0;
    seqs::lemma_position(s.conns, model::conn_is(conn));
    let u = HubView { conns: t.conns, ..s };
    assert(same_conns(u.conns, s.conns));
    lemma_sound_same(s, u);
    if !s.knows_client(client) {
        let p = PendingView {
            client_uuid: client,
            display_name: Seq::empty(),
            lan_subnets: Seq::empty(),
        };
        seqs::lemma_position(s.cfg.approved_clients, config::of_client(client));
        seqs::lemma_position(s.cfg.pending_clients, config::pending_of(client));
        assert forall|i: int| 0 <= i < s.cfg.pending_clients.len() implies config::pool_client()(
            #[trigger] s.cfg.pending_clients[i],
        ) != config::pool_client()(p) by {
            assert(!config::pending_of(client)(s.cfg.pending_clients[i]));
        }
        seqs::lemma_distinct_push(s.cfg.pending_clients, config::pool_client(), p);
        assert forall|i: int, j: int|
            0 <= i < t.cfg.approved_clients.len() && 0 <= j < t.cfg.pending_clients.len() implies (
        #[trigger] t.cfg.approved_clients[i]).client_uuid != (
        #[trigger] t.cfg.pending_clients[j]).client_uuid by {
            if j == s.cfg.pending_clients.len() {
                assert(!config::of_client(client)(s.cfg.approved_clients[i]));
            } else {
                assert(t.cfg.pending_clients[j] == s.cfg.pending_clients[j]);
            }
        }
        lemma_sound_rows(u, t);
    }
}

/// A state that differs in the clients without a network only.
proof fn lemma_sound_rows(s: HubView, t: HubView)
    requires
        sound(s),
        config::one_row_each(t.cfg),
        t.cfg.approved_clients == s.cfg.approved_clients,
        t.cfg.networks == s.cfg.networks,
        t.conns == s.conns,
        t.sessions == s.sessions,
        t.pending == s.pending,
        t.next_id == s.next_id,
    ensures
        sound(t),
{
    assert forall|i: int| 0 <= i < t.pending.len() implies held(t, #[trigger] t.pending[i]) by {
        assert(held(s, s.pending[i]));
    }
    assert forall|i: int| 0 <= i < t.cfg.approved_clients.len() implies t.knows_net(
        (#[trigger] t.cfg.approved_clients[i]).net_uuid,
    ) by {
        assert(s.knows_net(s.cfg.approved_clients[i].net_uuid));
    }
}

/// A connection that ends keeps the hub sound.
pub proof fn law_disconnect_keeps_sound(s: HubView, conn: ConnId)
    requires
        sound(s),
    ensures
        sound(model::disconnect_step(s, conn).0),
{
    let t = model::disconnect_step(s, conn).0;
    seqs::lemma_position(s.conns, model::conn_is(conn));
    match seqs::position(s.conns, model::conn_is(conn)) {
        None => {},
        Some(i) => {
            let e = s.conns[i];
            match e.bound {
                Some(sid) => {
                    seqs::lemma_position(s.sessions, model::session_is(sid));
                },
                None => {},
            }
            assert(same_sessions(t.sessions, s.sessions));
            lemma_same_sessions(t.sessions, s.sessions);
            seqs::lemma_distinct_remove(s.conns, conn_key(), i);
            let q = model::waits_not_on(conn);
            seqs::lemma_distinct_filter(s.pending, wait_key(), q);
            seqs::lemma_filter_from(s.pending, q);
            assert forall|k: int| 0 <= k < t.conns.len() implies (#[trigger] t.conns[k]).id.0
                < t.next_id by {
                assert(s.conns.contains(s.conns.remove(i)[k]));
            }
            assert forall|k: int| 0 <= k < t.sessions.len() implies (#[trigger] t.sessions[k]).sid.0
                < t.next_id by {
                assert(s.sessions[k].sid.0 < s.next_id);
            }
            assert forall|k: int| 0 <= k < t.pending.len() implies held(
                t,
                #[trigger] t.pending[k],
            ) by {
                let p = t.pending[k];
                assert(s.pending.contains(p));
                let m = choose|m: int| 0 <= m < s.pending.len() && s.pending[m] == p;
                assert(held(s, s.pending[m]));
                assert(seqs::position(
                    t.sessions,
                    model::session_of(p.client_uuid, p.net_uuid),
                ) == seqs::position(s.sessions, model::session_of(p.client_uuid, p.net_uuid)));
            }
            assert forall|k: int| 0 <= k < t.cfg.approved_clients.len() implies t.knows_net(
                (#[trigger] t.cfg.approved_clients[k]).net_uuid,
            ) by {
                assert(s.knows_net(s.cfg.approved_clients[k].net_uuid));
            }
        },
    }
}

/// A client that asks to join keeps the hub sound; where a session is
/// requested for it, the session can start.
pub proof fn law_join_keeps_sound(s: HubView, conn: ConnId, net: Uuid)
    requires
        sound(s),
        s.next_id < u64::MAX,
    ensures
        sound(model::join_step(s, conn, net).0.0),
        model::join_step(s, conn, net).1 matches Some(a) ==> ready(
            model::join_step(s, conn, net).0.0,
            a,
        ),
{
    let ((t, acts), request) = model::join_step(s, conn, net);
    match seqs::first_where(s.conns, model::conn_is(conn)) {
        None => {},
        Some(e) => match e.client {
            None => {},
            Some(c) => {
                let rows = s.cfg.approved_clients;
                seqs::lemma_position(rows, config::of_client(c));
                seqs::lemma_position(s.sessions, model::session_of(c, net));
                if s.knows_net(net) && !s.in_pool(c) && member(rows, c, net) {
                    let row = seqs::first_where(rows, config::of_client(c))->0;
                    assert(row.client_uuid == c);
                    if s.session(c, net) is Some {
                        let x = s.session(c, net)->0;
                        let unbound = match x.bound_conn {
                            Some(o) => {
                                lemma_with_bound(s.conns, o, None);
                                model::with_bound(s.conns, o, None)
                            },
                            None => s.conns,
                        };
                        lemma_with_bound(unbound, conn, Some(x.sid));
                        assert(same_conns(t.conns, s.conns));
                        assert(same_sessions(t.sessions, s.sessions));
                        lemma_sound_same(s, t);
                    } else if row.admitted {
                        lemma_next_id(s, t);
                        if s.waits(c, net) {
                            seqs::lemma_position(s.pending, model::waits_for(c, net));
                            let k = seqs::position(s.pending, model::waits_for(c, net))->0;
                            assert(held(s, s.pending[k]));
                        }
                        assert forall|i: int| 0 <= i < t.sessions.len() implies (
                        #[trigger] t.sessions[i]).sid != SessionId(s.next_id) by {
                            assert(s.sessions[i].sid.0 < s.next_id);
                        }
                    } else {
                        lemma_hold(s, conn, row);
                    }
                }
            },
        },
    }
}

/// Handing out an identity keeps the hub sound.
proof fn lemma_next_id(s: HubView, t: HubView)
    requires
        sound(s),
        s.next_id < u64::MAX,
        t == (HubView { next_id: ids::id_after(s.next_id), ..s }),
    ensures
        sound(t),
{
    assert forall|i: int| 0 <= i < t.conns.len() implies (#[trigger] t.conns[i]).id.0
        < t.next_id by {
        assert(s.conns[i].id.0 < s.next_id);
    }
    assert forall|i: int| 0 <= i < t.sessions.len() implies (#[trigger] t.sessions[i]).sid.0
        < t.next_id by {
        assert(s.sessions[i].sid.0 < s.next_id);
    }
    assert forall|i: int| 0 <= i < t.pending.len() implies held(t, #[trigger] t.pending[i]) by {
        assert(held(s, s.pending[i]));
    }
    assert forall|i: int| 0 <= i < t.cfg.approved_clients.len() implies t.knows_net(
        (#[trigger] t.cfg.approved_clients[i]).net_uuid,
    ) by {
        assert(s.knows_net(s.cfg.approved_clients[i].net_uuid));
    }
}

/// Holding a member keeps the hub sound.
proof fn lemma_hold(s: HubView, conn: ConnId, row: ApprovedView)
    requires
        sound(s),
        seqs::first_where(s.cfg.approved_clients, config::of_client(row.client_uuid)) == Some(row),
        !row.admitted,
        s.session(row.client_uuid, row.net_uuid) is None,
    ensures
        sound(model::hold_step(s, conn, row).0),
{
    let t = model::hold_step(s, conn, row).0;
    let (c, n) = (row.client_uuid, row.net_uuid);
    let x = PendingInfo { client_uuid: c, net_uuid: n, conn: conn };
    seqs::lemma_position(s.pending, model::waits_for(c, n));
    match seqs::position(s.pending, model::waits_for(c, n)) {
        Some(i) => {
            seqs::lemma_distinct_update(s.pending, wait_key(), i, x);
        },
        None => {
            assert forall|i: int| 0 <= i < s.pending.len() implies wait_key()(
                #[trigger] s.pending[i],
            ) != wait_key()(x) by {
                assert(!model::waits_for(c, n)(s.pending[i]));
            }
            seqs::lemma_distinct_push(s.pending, wait_key(), x);
        },
    }
    assert(held(t, x));
    assert forall|i: int| 0 <= i < t.pending.len() implies held(t, #[trigger] t.pending[i]) by {
        if t.pending[i] != x {
            assert(held(s, s.pending[i]));
        }
    }
    assert forall|i: int| 0 <= i < t.cfg.approved_clients.len() implies t.knows_net(
        (#[trigger] t.cfg.approved_clients[i]).net_uuid,
    ) by {
        assert(s.knows_net(s.cfg.approved_clients[i].net_uuid));
    }
}

/// Whatever comes of a requested TAP, the hub stays sound.
pub proof fn law_approve_keeps_sound(s: HubView, a: ApprovalView, outcome: TapOutcomeView)
    requires
        sound(s),
        ready(s, a),
    ensures
        sound(model::approve_step(s, a, outcome).0),
{
    if outcome is Ready && s.has_bridge(a.net) && s.has_conn(a.conn) {
        lemma_admitted(s, a);
    }
}

/// With one row per client, the row of a member is found by its network too.
pub proof fn lemma_member_pair(rows: Seq<ApprovedView>, c: Uuid, n: Uuid)
    requires
        seqs::distinct(rows, config::row_client()),
        member(rows, c, n),
    ensures
        seqs::position(rows, model::of_pair(c, n)) == seqs::position(rows, config::of_client(c)),
{
    seqs::lemma_position(rows, config::of_client(c));
    let i = seqs::position(rows, config::of_client(c))->0;
    assert forall|j: int| 0 <= j < i implies !model::of_pair(c, n)(#[trigger] rows[j]) by {
        assert(!config::of_client(c)(rows[j]));
    }
    seqs::lemma_position_is(rows, model::of_pair(c, n), i);
}

/// Replacing a row by one of the same client in the same network.
proof fn lemma_row_update(rows: Seq<ApprovedView>, i: int, x: ApprovedView)
    requires
        seqs::distinct(rows, config::row_client()),
        0 <= i < rows.len(),
        x.client_uuid == rows[i].client_uuid,
    ensures
        seqs::distinct(rows.update(i, x), config::row_client()),
        forall|c: Uuid|
            seqs::position(rows.update(i, x), #[trigger] config::of_client(c)) == seqs::position(
                rows,
                config::of_client(c),
            ),
        seqs::position(rows, config::of_client(x.client_uuid)) == Some(i),
{
    seqs::lemma_distinct_update(rows, config::row_client(), i, x);
    assert forall|c: Uuid|
        seqs::position(rows.update(i, x), #[trigger] config::of_client(c)) == seqs::position(
            rows,
            config::of_client(c),
        ) by {
        seqs::lemma_position_update(rows, config::of_client(c), i, x);
    }
    let c = x.client_uuid;
    assert forall|j: int| 0 <= j < i implies !config::of_client(c)(#[trigger] rows[j]) by {
        assert(config::row_client()(rows[j]) != config::row_client()(rows[i]));
    }
    seqs::lemma_position_is(rows, config::of_client(c), i);
}

/// Replacing the row of a client, where it does not wait, keeps the hub
/// sound.
proof fn lemma_sound_row_update(s: HubView, t: HubView, i: int, x: ApprovedView)
    requires
        sound(s),
        0 <= i < s.cfg.approved_clients.len(),
        x.client_uuid == s.cfg.approved_clients[i].client_uuid,
        x.net_uuid == s.cfg.approved_clients[i].net_uuid,
        x.admitted == s.cfg.approved_clients[i].admitted || !s.waits(x.client_uuid, x.net_uuid),
        t.cfg.approved_clients == s.cfg.approved_clients.update(i, x),
        t.cfg.pending_clients == s.cfg.pending_clients,
        t.cfg.networks == s.cfg.networks,
        t.conns == s.conns,
        t.sessions == s.sessions,
        t.pending == s.pending,
        t.next_id == s.next_id,
    ensures
        sound(t),
{
    let rows = s.cfg.approved_clients;
    lemma_row_update(rows, i, x);
    assert forall|k: int| 0 <= k < t.pending.len() implies held(t, #[trigger] t.pending[k]) by {
        let p = s.pending[k];
        assert(held(s, p));
        seqs::lemma_position(rows, config::of_client(p.client_uuid));
        assert(seqs::position(t.cfg.approved_clients, config::of_client(p.client_uuid))
            == seqs::position(rows, config::of_client(p.client_uuid)));
        if p.client_uuid == x.client_uuid {
            seqs::lemma_some_where(s.pending, model::waits_for(x.client_uuid, x.net_uuid), k);
        }
    }
    assert forall|k: int, j: int|
        0 <= k < t.cfg.approved_clients.len() && 0 <= j < t.cfg.pending_clients.len() implies (
    #[trigger] t.cfg.approved_clients[k]).client_uuid != (
    #[trigger] t.cfg.pending_clients[j]).client_uuid by {
        assert(rows[k].client_uuid != s.cfg.pending_clients[j].client_uuid);
    }
    assert forall|k: int| 0 <= k < t.cfg.approved_clients.len() implies t.knows_net(
        (#[trigger] t.cfg.approved_clients[k]).net_uuid,
    ) by {
        assert(s.knows_net(rows[k].net_uuid));
    }
}

/// A session that starts keeps the hub sound.
proof fn lemma_admitted(s: HubView, a: ApprovalView)
    requires
        sound(s),
        ready(s, a),
    ensures
        sound(model::admit_step(s, a).0),
{
    let rows = s.cfg.approved_clients;
    let t = model::admit_step(s, a).0;
    lemma_member_pair(rows, a.client, a.net);
    seqs::lemma_position(rows, config::of_client(a.client));
    let i = seqs::position(rows, config::of_client(a.client))->0;
    let row = ApprovedView { admitted: true, ..rows[i] };
    let u = HubView {
        cfg: ServerConfigView { approved_clients: rows.update(i, row), ..s.cfg },
        ..s
    };
    lemma_sound_row_update(s, u, i, row);
    let conns = model::with_bound(s.conns, a.conn, Some(a.sid));
    lemma_with_bound(s.conns, a.conn, Some(a.sid));
    let v = HubView { conns: conns, ..u };
    lemma_sound_same(u, v);
    assert(!v.waits(a.client, a.net));
    let ip = crate::device::opt_ip(rows[i].tap_ip);
    let x = SessionView {
        sid: a.sid,
        client: a.client,
        net: a.net,
        tap_name: a.tap_name,
        tap_ip: ip,
        bound_conn: Some(a.conn),
    };
    let w = HubView { sessions: model::with_session(v.sessions, x), ..v };
    lemma_put_session(v, w, x);
    assert(t == model::recheck_step(w, a.net).0);
    lemma_sound_same(w, t);
}

/// A session in its place keeps the hub sound.
proof fn lemma_put_session(v: HubView, w: HubView, x: SessionView)
    requires
        sound(v),
        x.sid.0 < v.next_id,
        forall|i: int| 0 <= i < v.sessions.len() ==> (#[trigger] v.sessions[i]).sid != x.sid,
        !v.waits(x.client, x.net),
        w == (HubView { sessions: model::with_session(v.sessions, x), ..v }),
    ensures
        sound(w),
{
    let p = model::session_of(x.client, x.net);
    seqs::lemma_position(v.sessions, p);
    assert forall|i: int| 0 <= i < v.sessions.len() implies sid_key()(#[trigger] v.sessions[i])
        != sid_key()(x) by {
        assert(v.sessions[i].sid != x.sid);
    }
    match seqs::position(v.sessions, p) {
        Some(k) => {
            seqs::lemma_distinct_update(v.sessions, pair_key(), k, x);
            assert forall|i: int, j: int| 0 <= i < j < w.sessions.len() implies sid_key()(
                #[trigger] w.sessions[i],
            ) != sid_key()(#[trigger] w.sessions[j]) by {
                assert(sid_key()(v.sessions[i]) != sid_key()(v.sessions[j]));
            }
        },
        None => {
            assert forall|i: int| 0 <= i < v.sessions.len() implies pair_key()(
                #[trigger] v.sessions[i],
            ) != pair_key()(x) by {
                assert(!p(v.sessions[i]));
            }
            seqs::lemma_distinct_push(v.sessions, pair_key(), x);
            seqs::lemma_distinct_push(v.sessions, sid_key(), x);
        },
    }
    assert forall|i: int| 0 <= i < w.pending.len() implies held(w, #[trigger] w.pending[i]) by {
        let q = v.pending[i];
        assert(held(v, q));
        if q.client_uuid == x.client && q.net_uuid == x.net {
            seqs::lemma_some_where(v.pending, model::waits_for(x.client, x.net), i);
        }
        let pq = model::session_of(q.client_uuid, q.net_uuid);
        match seqs::position(v.sessions, p) {
            Some(k) => {
                assert(p(v.sessions[k]));
                seqs::lemma_position_update(v.sessions, pq, k, x);
            },
            None => {
                seqs::lemma_position_push(v.sessions, pq, x);
            },
        }
    }
    assert forall|i: int| 0 <= i < w.cfg.approved_clients.len() implies w.knows_net(
        (#[trigger] w.cfg.approved_clients[i]).net_uuid,
    ) by {
        assert(v.knows_net(v.cfg.approved_clients[i].net_uuid));
    }
}

/// A session that ends keeps the hub sound.
pub proof fn law_session_died_keeps_sound(s: HubView, sid: SessionId)
    requires
        sound(s),
    ensures
        sound(model::died_step(s, sid).0),
{
    let t = model::died_step(s, sid).0;
    seqs::lemma_position(s.sessions, model::session_is(sid));
    match seqs::position(s.sessions, model::session_is(sid)) {
        None => {},
        Some(k) => {
            match s.sessions[k].bound_conn {
                Some(id) => {
                    seqs::lemma_position(s.conns, model::conn_is(id));
                },
                None => {},
            }
            assert(same_conns(t.conns, s.conns));
            lemma_same_conns(t.conns, s.conns);
            seqs::lemma_distinct_remove(s.sessions, sid_key(), k);
            seqs::lemma_distinct_remove(s.sessions, pair_key(), k);
            assert forall|i: int| 0 <= i < t.conns.len() implies (#[trigger] t.conns[i]).id.0
                < t.next_id by {
                assert(s.conns[i].id.0 < s.next_id);
            }
            assert forall|i: int| 0 <= i < t.sessions.len() implies (#[trigger] t.sessions[i]).sid.0
                < t.next_id by {
                assert(s.sessions.contains(s.sessions.remove(k)[i]));
            }
            assert forall|i: int| 0 <= i < t.pending.len() implies held(
                t,
                #[trigger] t.pending[i],
            ) by {
                let q = s.pending[i];
                assert(held(s, q));
                let p = model::session_of(q.client_uuid, q.net_uuid);
                seqs::lemma_position(s.sessions, p);
                assert forall|j: int| 0 <= j < t.sessions.len() implies !p(
                    #[trigger] t.sessions[j],
                ) by {
                    assert(s.sessions.contains(s.sessions.remove(k)[j]));
                    let m = choose|m: int|
                        0 <= m < s.sessions.len() && s.sessions[m] == t.sessions[j];
                    assert(!p(s.sessions[m]));
                }
                seqs::lemma_position_none(t.sessions, p);
            }
            assert forall|i: int| 0 <= i < t.cfg.approved_clients.len() implies t.knows_net(
                (#[trigger] t.cfg.approved_clients[i]).net_uuid,
            ) by {
                assert(s.knows_net(s.cfg.approved_clients[i].net_uuid));
            }
        },
    }
}

/// Whether two tables of members differ in names, addresses and subnets only.
pub open spec fn same_members(a: Seq<ApprovedView>, b: Seq<ApprovedView>) -> bool {
    &&& a.len() == b.len()
    &&& forall|i: int|
        0 <= i < a.len() ==> (#[trigger] a[i]).client_uuid == b[i].client_uuid && a[i].net_uuid
            == b[i].net_uuid && a[i].admitted == b[i].admitted
}

/// Names, addresses and subnets of members, and the networks' other fields,
/// do not matter to soundness.
proof fn lemma_sound_renamed(s: HubView, t: HubView)
    requires
        sound(s),
        same_members(t.cfg.approved_clients, s.cfg.approved_clients),
        t.cfg.pending_clients == s.cfg.pending_clients,
        forall|n: Uuid| s.knows_net(n) ==> #[trigger] t.knows_net(n),
        t.conns == s.conns,
        same_sessions(t.sessions, s.sessions),
        t.pending == s.pending,
        t.next_id == s.next_id,
    ensures
        sound(t),
{
    let (a, b) = (t.cfg.approved_clients, s.cfg.approved_clients);
    lemma_same_sessions(t.sessions, s.sessions);
    assert forall|i: int, j: int| 0 <= i < j < a.len() implies config::row_client()(
        #[trigger] a[i],
    ) != config::row_client()(#[trigger] a[j]) by {
        assert(config::row_client()(b[i]) != config::row_client()(b[j]));
    }
    assert forall|i: int, j: int|
        0 <= i < a.len() && 0 <= j < t.cfg.pending_clients.len() implies (
    #[trigger] a[i]).client_uuid != (#[trigger] t.cfg.pending_clients[j]).client_uuid by {
        assert(b[i].client_uuid != s.cfg.pending_clients[j].client_uuid);
    }
    assert forall|i: int| 0 <= i < a.len() implies t.knows_net((#[trigger] a[i]).net_uuid) by {
        assert(s.knows_net(b[i].net_uuid));
    }
    assert forall|i: int| 0 <= i < t.sessions.len() implies (#[trigger] t.sessions[i]).sid.0
        < t.next_id by {
        assert(s.sessions[i].sid.0 < s.next_id);
    }
    assert forall|i: int| 0 <= i < t.pending.len() implies held(t, #[trigger] t.pending[i]) by {
        let p = s.pending[i];
        assert(held(s, p));
        let q = config::of_client(p.client_uuid);
        seqs::lemma_position(b, q);
        let k = seqs::position(b, q)->0;
        assert(q(a[k]));
        assert forall|j: int| 0 <= j < k implies !q(#[trigger] a[j]) by {
            assert(!q(b[j]));
        }
        seqs::lemma_position_is(a, q, k);
        assert(seqs::position(t.sessions, model::session_of(p.client_uuid, p.net_uuid))
            == seqs::position(s.sessions, model::session_of(p.client_uuid, p.net_uuid)));
    }
}

/// A bridge that comes up keeps the hub sound.
pub proof fn law_bridge_up_keeps_sound(s: HubView, n: Uuid)
    requires
        sound(s),
    ensures
        sound(model::bridge_up(s, n)),
{
    lemma_sound_same(s, model::bridge_up(s, n));
}

/// A new network keeps the hub sound.
pub proof fn law_add_net_keeps_sound(s: HubView, rec: NetView, up: bool)
    requires
        sound(s),
    ensures
        sound(model::add_net_step(s, rec, up).0),
{
    let t = model::add_net_step(s, rec, up).0;
    assert forall|n: Uuid| s.knows_net(n) implies #[trigger] t.knows_net(n) by {
        seqs::lemma_position_push(s.cfg.networks, model::net_is(n), rec);
    }
    lemma_sound_renamed(s, t);
}

/// A network's new name keeps the hub sound.
pub proof fn law_rename_keeps_sound(s: HubView, net: Uuid, name: Seq<char>)
    requires
        sound(s),
    ensures
        sound(model::rename_step(s, net, name).0.0),
{
    let t = model::rename_step(s, net, name).0.0;
    seqs::lemma_position(s.cfg.networks, model::net_is(net));
    match seqs::position(s.cfg.networks, model::net_is(net)) {
        None => {},
        Some(i) => {
            let rec = NetView { name: name, ..s.cfg.networks[i] };
            assert forall|n: Uuid| s.knows_net(n) implies #[trigger] t.knows_net(n) by {
                seqs::lemma_position_update(s.cfg.networks, model::net_is(n), i, rec);
            }
            lemma_sound_renamed(s, t);
        },
    }
}

/// Telling the sessions their addresses changes nothing but the addresses.
proof fn lemma_notify(s: HubView, n: Uuid, prefix: u8, rows: Seq<ApprovedView>)
    ensures
        model::notify_step(s, n, prefix, rows).0 == (HubView {
            sessions: model::notify_step(s, n, prefix, rows).0.sessions,
            ..s
        }),
        same_sessions(model::notify_step(s, n, prefix, rows).0.sessions, s.sessions),
    decreases rows.len(),
{
    if rows.len() > 0 {
        lemma_notify(s, n, prefix, rows.drop_last());
        let t = model::notify_step(s, n, prefix, rows.drop_last()).0;
        seqs::lemma_position(t.sessions, model::session_of(rows.last().client_uuid, n));
    }
}

/// A bridge's new address keeps the hub sound.
pub proof fn law_set_bridge_ip_keeps_sound(s: HubView, net: Uuid, ip: Seq<char>)
    requires
        sound(s),
    ensures
        sound(model::set_bridge_ip_step(s, net, ip).0.0),
{
    let t = model::set_bridge_ip_step(s, net, ip).0.0;
    match model::checked_ip(ip) {
        Err(_) => {},
        Ok(after) => {
            seqs::lemma_position(s.cfg.networks, model::net_is(net));
            match seqs::position(s.cfg.networks, model::net_is(net)) {
                None => {},
                Some(i) => {
                    let rec = NetView { bridge_ip: ip, ..s.cfg.networks[i] };
                    let rows = match model::new_prefix(s.cfg.networks[i].bridge_ip, after) {
                        Some(p) => model::rewritten_rows(s.cfg.approved_clients, net, p),
                        None => s.cfg.approved_clients,
                    };
                    let u = HubView {
                        cfg: ServerConfigView {
                            networks: s.cfg.networks.update(i, rec),
                            approved_clients: rows,
                            ..s.cfg
                        },
                        ..s
                    };
                    assert forall|n: Uuid| s.knows_net(n) implies #[trigger] u.knows_net(n) by {
                        seqs::lemma_position_update(s.cfg.networks, model::net_is(n), i, rec);
                    }
                    lemma_sound_renamed(s, u);
                    match model::new_prefix(s.cfg.networks[i].bridge_ip, after) {
                        Some(p) => {
                            lemma_notify(u, net, p, s.cfg.approved_clients);
                            lemma_sound_same(u, t);
                        },
                        None => {},
                    }
                },
            }
        },
    }
}

/// Where some of what waits is dropped, the rest is sound.
proof fn lemma_sound_fewer_waiting(s: HubView, t: HubView)
    requires
        sound(s),
        seqs::distinct(t.pending, wait_key()),
        forall|i: int| 0 <= i < t.pending.len() ==> s.pending.contains(#[trigger] t.pending[i]),
        t.cfg == s.cfg,
        t.conns == s.conns,
        t.sessions == s.sessions,
        t.next_id == s.next_id,
    ensures
        sound(t),
{
    assert forall|i: int| 0 <= i < t.pending.len() implies held(t, #[trigger] t.pending[i]) by {
        let m = choose|m: int| 0 <= m < s.pending.len() && s.pending[m] == t.pending[i];
        assert(held(s, s.pending[m]));
    }
    assert forall|i: int| 0 <= i < t.cfg.approved_clients.len() implies t.knows_net(
        (#[trigger] t.cfg.approved_clients[i]).net_uuid,
    ) by {
        assert(s.knows_net(s.cfg.approved_clients[i].net_uuid));
    }
}

/// Where members leave that do not wait, the rest is sound.
proof fn lemma_sound_fewer_members(s: HubView, t: HubView, q: spec_fn(ApprovedView) -> bool)
    requires
        sound(s),
        t.cfg.approved_clients == s.cfg.approved_clients.filter(q),
        forall|i: int, x: ApprovedView|
            0 <= i < s.pending.len() && member(
                s.cfg.approved_clients,
                (#[trigger] s.pending[i]).client_uuid,
                s.pending[i].net_uuid,
            ) && #[trigger] config::of_client(s.pending[i].client_uuid)(x)
                && s.cfg.approved_clients.contains(x) ==> q(x),
        t.cfg.pending_clients == s.cfg.pending_clients,
        t.cfg.networks == s.cfg.networks,
        t.conns == s.conns,
        t.sessions == s.sessions,
        t.pending == s.pending,
        t.next_id == s.next_id,
    ensures
        sound(t),
{
    let rows = s.cfg.approved_clients;
    seqs::lemma_distinct_filter(rows, config::row_client(), q);
    seqs::lemma_filter_from(rows, q);
    assert forall|i: int, j: int|
        0 <= i < t.cfg.approved_clients.len() && 0 <= j < t.cfg.pending_clients.len() implies (
    #[trigger] t.cfg.approved_clients[i]).client_uuid != (
    #[trigger] t.cfg.pending_clients[j]).client_uuid by {
        assert(rows.contains(rows.filter(q)[i]));
        let m = choose|m: int| 0 <= m < rows.len() && rows[m] == rows.filter(q)[i];
        assert(rows[m].client_uuid != s.cfg.pending_clients[j].client_uuid);
    }
    assert forall|i: int| 0 <= i < t.cfg.approved_clients.len() implies t.knows_net(
        (#[trigger] t.cfg.approved_clients[i]).net_uuid,
    ) by {
        assert(rows.contains(rows.filter(q)[i]));
        let m = choose|m: int| 0 <= m < rows.len() && rows[m] == rows.filter(q)[i];
        assert(s.knows_net(rows[m].net_uuid));
    }
    assert forall|i: int| 0 <= i < t.pending.len() implies held(t, #[trigger] t.pending[i]) by {
        let p = s.pending[i];
        assert(held(s, p));
        let f = config::of_client(p.client_uuid);
        seqs::lemma_position(rows, f);
        let a = seqs::first_where(rows, f)->0;
        assert(rows.contains(a));
        assert(f(a));
        assert(q(a));
        seqs::lemma_filter_keeps(rows, q, a);
        let m = choose|m: int| 0 <= m < rows.filter(q).len() && rows.filter(q)[m] == a;
        assert forall|j: int| 0 <= j < m implies !f(#[trigger] rows.filter(q)[j]) by {
            assert(config::row_client()(rows.filter(q)[j]) != config::row_client()(
                rows.filter(q)[m],
            ));
        }
        seqs::lemma_position_is(rows.filter(q), f, m);
    }
}

/// Whether a client is among some members.
pub open spec fn among(members: Seq<ApprovedView>, c: Uuid) -> bool {
    exists|i: int| 0 <= i < members.len() && (#[trigger] members[i]).client_uuid == c
}

/// Members that lose their network are added to those without one, once each.
proof fn lemma_detach(s: HubView, members: Seq<ApprovedView>)
    requires
        seqs::distinct(s.cfg.pending_clients, config::pool_client()),
    ensures
        seqs::distinct(
            model::detach_step(s, members).0.cfg.pending_clients,
            config::pool_client(),
        ),
        same_conns(model::detach_step(s, members).0.conns, s.conns),
        s.cfg.pending_clients.is_prefix_of(
            model::detach_step(s, members).0.cfg.pending_clients,
        ),
        forall|i: int|
            s.cfg.pending_clients.len() <= i < model::detach_step(
                s,
                members,
            ).0.cfg.pending_clients.len() ==> among(
                members,
                (#[trigger] model::detach_step(s, members).0.cfg.pending_clients[i]).client_uuid,
            ),
    decreases members.len(),
{
    if members.len() > 0 {
        lemma_detach(s, members.drop_last());
        let t = model::detach_step(s, members.drop_last()).0;
        let u = model::detach_step(s, members).0;
        let m = members.last();
        let c = m.client_uuid;
        match t.conn_for(c) {
            Some(id) => {
                lemma_with_bound(t.conns, id, None);
            },
            None => {},
        }
        assert forall|i: int|
            s.cfg.pending_clients.len() <= i < t.cfg.pending_clients.len() implies among(
            members,
            (#[trigger] t.cfg.pending_clients[i]).client_uuid,
        ) by {
            let d = t.cfg.pending_clients[i].client_uuid;
            assert(among(members.drop_last(), d));
            let k = choose|k: int|
                0 <= k < members.drop_last().len() && (
                #[trigger] members.drop_last()[k]).client_uuid == d;
            assert(members[k].client_uuid == d);
        }
        if !t.in_pool(c) {
            let p = PendingView {
                client_uuid: c,
                display_name: m.display_name,
                lan_subnets: m.lan_subnets,
            };
            seqs::lemma_position(t.cfg.pending_clients, config::pending_of(c));
            assert forall|i: int|
                0 <= i < t.cfg.pending_clients.len() implies config::pool_client()(
                #[trigger] t.cfg.pending_clients[i],
            ) != config::pool_client()(p) by {
                assert(!config::pending_of(c)(t.cfg.pending_clients[i]));
            }
            seqs::lemma_distinct_push(t.cfg.pending_clients, config::pool_client(), p);
            assert(members[members.len() - 1].client_uuid == c);
            assert(among(members, c));
        }
        assert forall|i: int|
            s.cfg.pending_clients.len() <= i < u.cfg.pending_clients.len() implies among(
            members,
            (#[trigger] u.cfg.pending_clients[i]).client_uuid,
        ) by {
            if i < t.cfg.pending_clients.len() {
                assert(u.cfg.pending_clients[i] == t.cfg.pending_clients[i]);
            }
        }
    }
}

/// Deleting a network keeps the hub sound.
pub proof fn law_delete_net_keeps_sound(s: HubView, n: Uuid)
    requires
        sound(s),
    ensures
        sound(model::delete_net_step(s, n).0.0),
{
    if s.knows_net(n) {
        let rows = s.cfg.approved_clients;
        let q = model::waits_not_in(n);
        let s1 = HubView { pending: s.pending.filter(q), ..s };
        seqs::lemma_distinct_filter(s.pending, wait_key(), q);
        seqs::lemma_filter_from(s.pending, q);
        lemma_sound_fewer_waiting(s, s1);
        let t = HubView {
            cfg: ServerConfigView {
                approved_clients: rows.filter(model::not_in_net(n)),
                ..s.cfg
            },
            ..s1
        };
        assert forall|i: int, x: ApprovedView|
            0 <= i < s1.pending.len() && member(
                rows,
                (#[trigger] s1.pending[i]).client_uuid,
                s1.pending[i].net_uuid,
            ) && #[trigger] config::of_client(s1.pending[i].client_uuid)(x) && rows.contains(
                x,
            ) implies model::not_in_net(n)(x) by {
            let p = s1.pending[i];
            assert(q(s.pending.filter(q)[i]));
            seqs::lemma_position(rows, config::of_client(p.client_uuid));
            let k = seqs::position(rows, config::of_client(p.client_uuid))->0;
            let m = choose|m: int| 0 <= m < rows.len() && rows[m] == x;
            if m != k {
                assert(config::row_client()(rows[m]) != config::row_client()(rows[k]));
            }
        }
        lemma_sound_fewer_members(s1, t, model::not_in_net(n));
        let members = rows.filter(model::in_net(n));
        let u = model::detach_step(t, members).0;
        crate::hub::nets::lemma_detach_keeps(t, members);
        lemma_detach(t, members);
        seqs::lemma_filter_from(rows, model::in_net(n));
        seqs::lemma_filter_from(rows, model::not_in_net(n));
        let pool = u.cfg.pending_clients;
        let left = t.cfg.approved_clients;
        assert forall|i: int, j: int| 0 <= i < left.len() && 0 <= j < pool.len() implies (
        #[trigger] left[i]).client_uuid != (#[trigger] pool[j]).client_uuid by {
            if j < s.cfg.pending_clients.len() {
                assert(pool[j] == s.cfg.pending_clients[j]);
                assert(t.cfg.pending_clients[j] == pool[j]);
            } else {
                let c = pool[j].client_uuid;
                assert(among(members, c));
                let k = choose|k: int|
                    0 <= k < members.len() && (#[trigger] members[k]).client_uuid == c;
                assert(rows.contains(members[k]) && model::in_net(n)(members[k]));
                assert(rows.contains(left[i]) && model::not_in_net(n)(left[i]));
                let a = choose|a: int| 0 <= a < rows.len() && rows[a] == members[k];
                let b = choose|b: int| 0 <= b < rows.len() && rows[b] == left[i];
                assert(a != b);
                if a < b {
                    assert(config::row_client()(rows[a]) != config::row_client()(rows[b]));
                } else {
                    assert(config::row_client()(rows[b]) != config::row_client()(rows[a]));
                }
            }
        }
        let t2 = HubView { conns: u.conns, ..t };
        lemma_sound_same(t, t2);
        assert(config::one_row_each(u.cfg));
        lemma_sound_rows(t2, u);
        let v = model::delete_net_step(s, n).0.0;
        assert forall|i: int| 0 <= i < v.cfg.approved_clients.len() implies v.knows_net(
            (#[trigger] v.cfg.approved_clients[i]).net_uuid,
        ) by {
            let m = left[i].net_uuid;
            assert(model::not_in_net(n)(left[i]));
            assert(u.knows_net(u.cfg.approved_clients[i].net_uuid));
            seqs::lemma_first_filter(s.cfg.networks, model::net_is_not(n), model::net_is(m));
            seqs::lemma_position(s.cfg.networks, model::net_is(m));
        }
        assert forall|i: int| 0 <= i < v.pending.len() implies held(
            v,
            #[trigger] v.pending[i],
        ) by {
            assert(held(u, u.pending[i]));
        }
    }
}

/// Changing what is configured of a client without a network keeps the hub
/// sound.
pub proof fn law_patch_keeps_sound(
    s: HubView,
    c: Uuid,
    name: Option<Seq<char>>,
    subnets: Option<Seq<Seq<char>>>,
)
    requires
        sound(s),
    ensures
        sound(model::patch_step(s, c, name, subnets).0.0),
{
    let t = model::patch_step(s, c, name, subnets).0.0;
    let pool = s.cfg.pending_clients;
    seqs::lemma_position(pool, config::pending_of(c));
    match seqs::position(pool, config::pending_of(c)) {
        None => {},
        Some(i) => {
            if t != s {
                seqs::lemma_distinct_update(
                    pool,
                    config::pool_client(),
                    i,
                    t.cfg.pending_clients[i],
                );
                assert forall|k: int, j: int|
                    0 <= k < t.cfg.approved_clients.len() && 0 <= j
                        < t.cfg.pending_clients.len() implies (
                #[trigger] t.cfg.approved_clients[k]).client_uuid != (
                #[trigger] t.cfg.pending_clients[j]).client_uuid by {
                    assert(s.cfg.approved_clients[k].client_uuid != pool[j].client_uuid);
                }
                lemma_sound_rows(s, t);
            }
        },
    }
}

/// The rows of a moved client are replaced by one.
proof fn lemma_moved(
    cfg: ServerConfigView,
    c: Uuid,
    name: Seq<char>,
    subnets: Seq<Seq<char>>,
    target: Option<Uuid>,
)
    requires
        config::one_row_each(cfg),
    ensures
        config::one_row_each(model::moved_cfg(cfg, c, name, subnets, target)),
{
    let m = model::moved_cfg(cfg, c, name, subnets, target);
    let rows = cfg.approved_clients.filter(model::not_of_client(c));
    let pool = cfg.pending_clients.filter(model::pending_not_of(c));
    seqs::lemma_distinct_filter(
        cfg.approved_clients,
        config::row_client(),
        model::not_of_client(c),
    );
    seqs::lemma_distinct_filter(
        cfg.pending_clients,
        config::pool_client(),
        model::pending_not_of(c),
    );
    seqs::lemma_filter_from(cfg.approved_clients, model::not_of_client(c));
    seqs::lemma_filter_from(cfg.pending_clients, model::pending_not_of(c));
    assert forall|i: int, j: int| 0 <= i < rows.len() && 0 <= j < pool.len() implies (
    #[trigger] rows[i]).client_uuid != (#[trigger] pool[j]).client_uuid by {
        assert(cfg.approved_clients.contains(rows[i]));
        assert(cfg.pending_clients.contains(pool[j]));
        let a = choose|a: int|
            0 <= a < cfg.approved_clients.len() && cfg.approved_clients[a] == rows[i];
        let b = choose|b: int|
            0 <= b < cfg.pending_clients.len() && cfg.pending_clients[b] == pool[j];
        assert(cfg.approved_clients[a].client_uuid != cfg.pending_clients[b].client_uuid);
    }
    match target {
        Some(n) => {
            let x = m.approved_clients.last();
            assert forall|i: int| 0 <= i < rows.len() implies config::row_client()(
                #[trigger] rows[i],
            ) != config::row_client()(x) by {
                assert(model::not_of_client(c)(rows[i]));
            }
            seqs::lemma_distinct_push(rows, config::row_client(), x);
        },
        None => {
            let x = m.pending_clients.last();
            assert forall|i: int| 0 <= i < pool.len() implies config::pool_client()(
                #[trigger] pool[i],
            ) != config::pool_client()(x) by {
                assert(model::pending_not_of(c)(pool[i]));
            }
            seqs::lemma_distinct_push(pool, config::pool_client(), x);
        },
    }
    assert forall|i: int, j: int|
        0 <= i < m.approved_clients.len() && 0 <= j < m.pending_clients.len() implies (
    #[trigger] m.approved_clients[i]).client_uuid != (
    #[trigger] m.pending_clients[j]).client_uuid by {
        if i < rows.len() {
            assert(m.approved_clients[i] == rows[i]);
            assert(model::not_of_client(c)(rows[i]));
        }
        if j < pool.len() {
            assert(m.pending_clients[j] == pool[j]);
            assert(model::pending_not_of(c)(pool[j]));
        }
    }
}

/// Bringing a flag up to date keeps the hub sound.
proof fn lemma_recheck_sound(s: HubView, n: Uuid)
    requires
        sound(s),
    ensures
        sound(model::recheck_step(s, n).0),
{
    lemma_sound_same(s, model::recheck_step(s, n).0);
}

/// Moving a client keeps the hub sound.
pub proof fn law_assign_keeps_sound(s: HubView, c: Uuid, target: Option<Uuid>)
    requires
        sound(s),
    ensures
        sound(model::assign_step(s, c, target).0.0),
{
    let w = model::assign_step(s, c, target).0.0;
    let unknown = match target {
        Some(n) => !s.knows_net(n),
        None => false,
    };
    if unknown || (!s.knows_client(c) && s.conn_for(c) is None) || s.assigned_net(c) == target {
    } else {
        let e = model::client_entry(s, c);
        let rows = s.cfg.approved_clients;
        let pending = match s.assigned_net(c) {
            Some(o) => s.pending.filter(model::waits_not_for(c, o)),
            None => s.pending,
        };
        let cfg = model::moved_cfg(s.cfg, c, e.display_name, e.lan_subnets, target);
        let conns = match s.conn_for(c) {
            Some(id) => {
                lemma_with_bound(s.conns, id, None);
                model::with_bound(s.conns, id, None)
            },
            None => s.conns,
        };
        let t = HubView { cfg: cfg, conns: conns, pending: pending, ..s };
        lemma_moved(s.cfg, c, e.display_name, e.lan_subnets, target);
        lemma_same_conns(conns, s.conns);
        seqs::lemma_position(rows, config::of_client(c));
        match s.assigned_net(c) {
            Some(o) => {
                seqs::lemma_distinct_filter(s.pending, wait_key(), model::waits_not_for(c, o));
                seqs::lemma_filter_from(s.pending, model::waits_not_for(c, o));
            },
            None => {},
        }
        let kept = rows.filter(model::not_of_client(c));
        seqs::lemma_filter_from(rows, model::not_of_client(c));
        assert forall|i: int| 0 <= i < t.conns.len() implies (#[trigger] t.conns[i]).id.0
            < t.next_id by {
            assert(s.conns[i].id.0 < s.next_id);
        }
        assert forall|i: int| 0 <= i < t.cfg.approved_clients.len() implies t.knows_net(
            (#[trigger] t.cfg.approved_clients[i]).net_uuid,
        ) by {
            if i < kept.len() {
                assert(t.cfg.approved_clients[i] == kept[i]);
                assert(rows.contains(kept[i]));
                let m = choose|m: int| 0 <= m < rows.len() && rows[m] == kept[i];
                assert(s.knows_net(rows[m].net_uuid));
            }
        }
        assert forall|i: int| 0 <= i < t.pending.len() implies held(t, #[trigger] t.pending[i]) by {
            let p = t.pending[i];
            assert(s.pending.contains(p));
            let m = choose|m: int| 0 <= m < s.pending.len() && s.pending[m] == p;
            assert(held(s, s.pending[m]));
            let f = config::of_client(p.client_uuid);
            seqs::lemma_position(rows, f);
            if p.client_uuid == c {
                assert(s.assigned_net(c) == Some(p.net_uuid));
                assert(model::waits_not_for(c, p.net_uuid)(pending[i]));
            }
            seqs::lemma_first_filter(rows, model::not_of_client(c), f);
            match target {
                Some(_) => {
                    seqs::lemma_position_push(kept, f, cfg.approved_clients.last());
                    assert(cfg.approved_clients =~= kept.push(cfg.approved_clients.last()));
                },
                None => {},
            }
        }
        assert(sound(t));
        let u = match s.assigned_net(c) {
            Some(o) => {
                lemma_recheck_sound(t, o);
                model::recheck_step(t, o).0
            },
            None => t,
        };
        match target {
            Some(n) => {
                lemma_recheck_sound(u, n);
            },
            None => {},
        }
    }
}

/// Forgetting a connection keeps the hub sound.
proof fn lemma_without_conn(s: HubView, id: ConnId)
    requires
        sound(s),
    ensures
        sound(HubView { conns: model::without_conn(s.conns, id), ..s }),
{
    let t = HubView { conns: model::without_conn(s.conns, id), ..s };
    seqs::lemma_position(s.conns, model::conn_is(id));
    match seqs::position(s.conns, model::conn_is(id)) {
        Some(i) => {
            seqs::lemma_distinct_remove(s.conns, conn_key(), i);
            assert forall|k: int| 0 <= k < t.conns.len() implies (#[trigger] t.conns[k]).id.0
                < t.next_id by {
                assert(s.conns.contains(s.conns.remove(i)[k]));
            }
            assert forall|k: int| 0 <= k < t.pending.len() implies held(
                t,
                #[trigger] t.pending[k],
            ) by {
                assert(held(s, s.pending[k]));
            }
            assert forall|k: int| 0 <= k < t.cfg.approved_clients.len() implies t.knows_net(
                (#[trigger] t.cfg.approved_clients[k]).net_uuid,
            ) by {
                assert(s.knows_net(s.cfg.approved_clients[k].net_uuid));
            }
        },
        None => {},
    }
}

/// Dropping one that waits keeps the hub sound.
proof fn lemma_unwait(s: HubView, k: int)
    requires
        sound(s),
        0 <= k < s.pending.len(),
    ensures
        sound(HubView { pending: s.pending.remove(k), ..s }),
        !(HubView { pending: s.pending.remove(k), ..s }).waits(
            s.pending[k].client_uuid,
            s.pending[k].net_uuid,
        ),
{
    let t = HubView { pending: s.pending.remove(k), ..s };
    let (c, n) = (s.pending[k].client_uuid, s.pending[k].net_uuid);
    seqs::lemma_distinct_remove(s.pending, wait_key(), k);
    lemma_sound_fewer_waiting(s, t);
    assert forall|j: int| 0 <= j < t.pending.len() implies !model::waits_for(c, n)(
        #[trigger] t.pending[j],
    ) by {
        assert(wait_key()(s.pending.remove(k)[j]) != wait_key()(s.pending[k]));
    }
    seqs::lemma_position_none(t.pending, model::waits_for(c, n));
}

/// Replacing the address of a session changes nothing else.
proof fn lemma_with_ip(sessions: Seq<SessionView>, c: Uuid, n: Uuid, ip: Option<Seq<char>>)
    ensures
        same_sessions(model::with_ip(sessions, c, n, ip), sessions),
{
    seqs::lemma_position(sessions, model::session_of(c, n));
}

/// Completing the change to a member keeps the hub sound.
pub proof fn law_finish_set_keeps_sound(s: HubView, c: Uuid, n: Uuid)
    requires
        sound(s),
    ensures
        sound(model::finish_set_step(s, c, n).0.0),
{
    lemma_recheck_sound(s, n);
}

/// Withdrawing admission keeps the hub sound.
proof fn lemma_kick(s: HubView, c: Uuid, n: Uuid)
    requires
        sound(s),
    ensures
        sound(model::kick_step(s, c, n).0),
{
    let u = match s.session(c, n) {
        Some(x) => match x.bound_conn {
            Some(id) => {
                lemma_without_conn(s, id);
                HubView { conns: model::without_conn(s.conns, id), ..s }
            },
            None => s,
        },
        None => s,
    };
    seqs::lemma_position(s.pending, model::waits_for(c, n));
    match seqs::position(s.pending, model::waits_for(c, n)) {
        Some(i) => {
            lemma_unwait(u, i);
            lemma_without_conn(HubView { pending: u.pending.remove(i), ..u }, s.pending[i].conn);
        },
        None => {},
    }
}

/// Changing a member keeps the hub sound; where a session is requested for
/// it, the session can start.
pub proof fn law_device_set_keeps_sound(s: HubView, c: Uuid, n: Uuid, u: UpdateView)
    requires
        sound(s),
        s.next_id < u64::MAX,
    ensures
        sound(model::device_set_step(s, c, n, u).0.0),
        model::device_set_step(s, c, n, u).1 matches DeviceSetStepView::Approve(a) ==> ready(
            model::device_set_step(s, c, n, u).0.0,
            a,
        ),
{
    match model::refused(s, c, n, u) {
        Some(_) => {},
        None => {
            let rows = s.cfg.approved_clients;
            seqs::lemma_position(rows, model::of_pair(c, n));
            let i = seqs::position(rows, model::of_pair(c, n))->0;
            let row = rows[i];
            let new = model::updated_row(row, u);
            lemma_row_update(rows, i, new);
            let t = HubView {
                cfg: ServerConfigView { approved_clients: rows.update(i, new), ..s.cfg },
                ..s
            };
            let changed = row.tap_ip != new.tap_ip;
            let ip = crate::device::opt_ip(new.tap_ip);
            let sessions = if changed {
                model::with_ip(s.sessions, c, n, ip)
            } else {
                s.sessions
            };
            lemma_with_ip(s.sessions, c, n, ip);
            let v = HubView { sessions: sessions, ..t };
            seqs::lemma_position(s.pending, model::waits_for(c, n));
            if !row.admitted && new.admitted && v.waits(c, n) {
                let k = seqs::position(v.pending, model::waits_for(c, n))->0;
                let s1 = HubView { pending: s.pending.remove(k), ..s };
                lemma_unwait(s, k);
                let s2 = HubView { cfg: t.cfg, ..s1 };
                lemma_sound_row_update(s1, s2, i, new);
                let s3 = HubView { sessions: sessions, ..s2 };
                lemma_sound_same(s2, s3);
                let w = HubView { next_id: ids::id_after(v.next_id), ..s3 };
                lemma_next_id(s3, w);
                assert(!w.waits(c, n));
                assert(seqs::position(w.cfg.approved_clients, config::of_client(c)) == Some(i));
                assert forall|j: int| 0 <= j < w.sessions.len() implies (
                #[trigger] w.sessions[j]).sid != SessionId(s.next_id) by {
                    assert(s3.sessions[j].sid.0 < s3.next_id);
                }
                if !w.has_conn(s.pending[k].conn) {
                    law_finish_set_keeps_sound(w, c, n);
                }
            } else {
                if row.admitted && s.waits(c, n) {
                    let k = seqs::position(s.pending, model::waits_for(c, n))->0;
                    assert(held(s, s.pending[k]));
                }
                lemma_sound_row_update(s, t, i, new);
                lemma_sound_same(t, v);
                if row.admitted && !new.admitted {
                    lemma_kick(v, c, n);
                    law_finish_set_keeps_sound(model::kick_step(v, c, n).0, c, n);
                } else {
                    law_finish_set_keeps_sound(v, c, n);
                }
            }
        },
    }
}

/// Pushing a table keeps the hub sound.
pub proof fn law_push_keeps_sound(
    s: HubView,
    n: Uuid,
    table: Seq<crate::frame::RouteView>,
    count: u64,
)
    requires
        sound(s),
    ensures
        sound(model::finish_push_step(s, n, table, count).0),
{
    lemma_sound_same(s, model::finish_push_step(s, n, table, count).0);
}

/// Sampling keeps the hub sound.
pub proof fn law_tick_keeps_sound(s: HubView, now: Seq<(u64, u64)>)
    requires
        sound(s),
    ensures
        sound(model::tick_step(s, now).0),
{
    lemma_sound_same(s, model::tick_step(s, now).0);
}

} // verus!
