//! What an admin's commands do: to networks, to clients and to what they are
//! told. What is not said to be done is not done.
use vstd::prelude::*;

use crate::addr;
use crate::config;
use crate::config::{ApprovedView, NetView, ServerConfigView};
use crate::device::DeviceView;
use crate::events::EventView;
use crate::frame::FrameView;
use crate::hub::effects;
use crate::hub::laws;
use crate::hub::model;
use crate::hub::model::HubView;
use crate::hub::soundness;
use crate::hub::{
    ActionView, ConnView, DirtyFlag, PendingInfo, PushedView, SessionNote, SessionView,
    SetBridgeIpView,
};
use crate::routes;
use crate::seqs;
use crate::text;
use crate::uuids;
use crate::uuids::Uuid;

verus! {

broadcast use {
    vstd::seq_lib::lemma_seq_concat_contains_all_elements,
    vstd::seq_lib::lemma_seq_contains_after_push,
    vstd::seq_lib::lemma_seq_empty_contains_nothing,
};

// ── Networks ─────────────────────────────────────────────────────────────
/// A network can be created without an address, or with one that has a 16 or a
/// 24 bit prefix. It gets the name, the identity, and a bridge named after the
/// identity. Otherwise it is said what is wrong with the address.
pub proof fn law_new_networks_are_named(name: Seq<char>, ip: Option<Seq<char>>, fresh: Uuid)
    ensures
        ({
            let rec = |bridge_ip: Seq<char>|
                Ok::<NetView, Seq<char>>(
                    NetView {
                        name: name,
                        uuid: fresh,
                        bridge_name: "bf-"@ + uuids::short_chars(fresh),
                        bridge_ip: bridge_ip,
                    },
                );
            let r = model::planned_net(name, ip, fresh);
            &&& (ip is None || (ip->0).len() == 0) ==> r == rec(Seq::empty())
            &&& ip matches Some(t) ==> (t.len() > 0 ==> match addr::net_parsed(t) {
                None => r == Err::<NetView, Seq<char>>(addr::no_net_chars()),
                Some(p) => if p.prefix == 16 || p.prefix == 24 {
                    r == rec(addr::ip_chars(p.addr) + "/"@ + text::dec(p.prefix as nat))
                } else {
                    r == Err::<NetView, Seq<char>>(
                        "prefix /"@ + text::dec(p.prefix as nat)
                            + " not supported (use /16 or /24)"@,
                    )
                },
            })
        }),
{
}

/// A new network is listed last, is saved and told. Its bridge is up where it
/// could be created. Everything else stays.
pub proof fn law_new_network_is_listed(s: HubView, rec: NetView, up: bool, x: ActionView, m: Uuid)
    ensures
        ({
            let (t, acts) = model::add_net_step(s, rec, up);
            &&& t == HubView {
                cfg: ServerConfigView { networks: s.cfg.networks.push(rec), ..s.cfg },
                bridges: t.bridges,
                pushed: t.pushed,
                dirty: t.dirty,
                ..s
            }
            &&& t.has_bridge(m) <==> s.has_bridge(m) || (up && m == rec.uuid)
            &&& m != rec.uuid ==> model::told(t, m) == model::told(s, m) && model::flagged(t, m)
                == model::flagged(s, m)
            &&& acts.contains(x) <==> x == ActionView::Persist || x == ActionView::Emit(
                EventView::NetworkCreated { network: rec.uuid, name: rec.name },
            )
        }),
{
    let t = model::add_net_step(s, rec, up).0;
    seqs::lemma_position_push(s.bridges, model::bridge_of(m), rec.uuid);
    laws::lemma_with_pushed(s.pushed, PushedView { net: rec.uuid, routes: Seq::empty() }, m);
    laws::lemma_with_flag(s.dirty, DirtyFlag { net: rec.uuid, dirty: false }, m);
}

/// The record of a network.
pub open spec fn record(s: HubView, n: Uuid) -> Option<NetView> {
    seqs::first_where(s.cfg.networks, model::net_is(n))
}

/// The record of a network has its identity, and a network that is known has
/// one.
pub proof fn law_records_are_found(s: HubView, n: Uuid)
    ensures
        record(s, n) is Some <==> s.knows_net(n),
        record(s, n) matches Some(r) ==> r.uuid == n && s.cfg.networks.contains(r),
{
    seqs::lemma_position(s.cfg.networks, model::net_is(n));
}

/// A network that is renamed has the new name, and keeps the rest; this is
/// saved and told. The other networks stay, and so does everything where the
/// network is unknown.
pub proof fn law_rename_changes_the_name_only(
    s: HubView,
    n: Uuid,
    name: Seq<char>,
    m: Uuid,
    x: ActionView,
)
    ensures
        ({
            let ((t, acts), found) = model::rename_step(s, n, name);
            &&& found == s.knows_net(n)
            &&& !found ==> t == s && acts.len() == 0
            &&& t == HubView {
                cfg: ServerConfigView { networks: t.cfg.networks, ..s.cfg },
                ..s
            }
            &&& t.cfg.networks.len() == s.cfg.networks.len()
            &&& found ==> record(t, n) == Some(NetView { name: name, ..record(s, n)->0 })
            &&& m != n ==> record(t, m) == record(s, m)
            &&& found ==> (acts.contains(x) <==> x == ActionView::Persist || x == ActionView::Emit(
                EventView::NetworkChanged { network: n, name: name },
            ))
        }),
{
    let nets = s.cfg.networks;
    seqs::lemma_position(nets, model::net_is(n));
    match seqs::position(nets, model::net_is(n)) {
        Some(i) => {
            let new = NetView { name: name, ..nets[i] };
            seqs::lemma_position_update(nets, model::net_is(n), i, new);
            seqs::lemma_position_update(nets, model::net_is(m), i, new);
            seqs::lemma_position(nets, model::net_is(m));
        },
        None => {},
    }
}

// ── Addresses of bridges ─────────────────────────────────────────────────
/// The address of a member with another prefix; none where the row is not a
/// member's, or has no address that can be read.
pub open spec fn reprefixed(row: ApprovedView, n: Uuid, prefix: u8) -> Option<Seq<char>> {
    if row.net_uuid != n || row.tap_ip.len() == 0 {
        None
    } else {
        match addr::net_parsed(row.tap_ip) {
            Some(p) => Some(addr::ip_chars(p.addr) + "/"@ + text::dec(prefix as nat)),
            None => None,
        }
    }
}

/// The prefix that the members get with the address `ip` of their bridge: none
/// where either address is missing, or both have the same.
pub open spec fn prefix_given(s: HubView, n: Uuid, ip: Seq<char>) -> Option<u8> {
    match (addr::net_parsed((record(s, n)->0).bridge_ip), addr::net_parsed(ip)) {
        (Some(a), Some(b)) => if ip.len() > 0 && a.prefix != b.prefix {
            Some(b.prefix)
        } else {
            None
        },
        _ => None,
    }
}

/// The address of a bridge can be taken away, or be replaced by one with a 16 or
/// a 24 bit prefix. Otherwise nothing changes, and it is said what is wrong.
pub proof fn law_bridge_address_is_checked(s: HubView, n: Uuid, ip: Seq<char>)
    ensures
        ({
            let (step, r) = model::set_bridge_ip_step(s, n, ip);
            let p = addr::net_parsed(ip);
            let fine = ip.len() == 0 || (p matches Some(q) && (q.prefix == 16 || q.prefix == 24));
            &&& r is Updated <==> fine && s.knows_net(n)
            &&& r is NotFound <==> fine && !s.knows_net(n)
            &&& r matches SetBridgeIpView::Invalid(m) ==> m == match p {
                None => addr::no_net_chars(),
                Some(q) => "prefix /"@ + text::dec(q.prefix as nat)
                    + " not supported (use /16 or /24)"@,
            }
            &&& !(r is Updated) ==> step == (s, Seq::<ActionView>::empty())
        }),
{
}

/// What the members are told with a new prefix.
proof fn lemma_notified(s: HubView, n: Uuid, prefix: u8, rows: Seq<ApprovedView>, x: ActionView)
    requires
        soundness::sound(s),
    ensures
        ({
            let (t, acts) = model::notify_step(s, n, prefix, rows);
            &&& t == HubView { sessions: t.sessions, ..s }
            &&& soundness::same_sessions(t.sessions, s.sessions)
            &&& forall|k: int|
                0 <= k < s.sessions.len() ==> (
                #[trigger] t.sessions[k]).bound_conn == s.sessions[k].bound_conn
                    && t.sessions[k].tap_name == s.sessions[k].tap_name
            &&& acts.contains(x) <==> (exists|i: int|
                0 <= i < rows.len() && #[trigger] told_ip(s, n, prefix, rows[i], x))
        }),
    decreases rows.len(),
{
    if rows.len() > 0 {
        let front = rows.drop_last();
        let m = rows.last();
        lemma_notified(s, n, prefix, front, x);
        let (t, acts) = model::notify_step(s, n, prefix, front);
        let (u, all) = model::notify_step(s, n, prefix, rows);
        let p = model::session_of(m.client_uuid, n);
        lemma_same_places(t.sessions, s.sessions, m.client_uuid, n);
        seqs::lemma_position(t.sessions, p);
        assert(t.conns == s.conns);
        if acts.contains(x) {
            let i = choose|i: int|
                0 <= i < front.len() && #[trigger] told_ip(s, n, prefix, front[i], x);
            assert(told_ip(s, n, prefix, rows[i], x));
        }
        assert(rows[rows.len() - 1] == m);
        if exists|i: int| 0 <= i < rows.len() && #[trigger] told_ip(s, n, prefix, rows[i], x) {
            let i = choose|i: int|
                0 <= i < rows.len() && #[trigger] told_ip(s, n, prefix, rows[i], x);
            if i < front.len() {
                assert(told_ip(s, n, prefix, front[i], x));
            } else {
                assert(told_ip(s, n, prefix, m, x));
            }
        }
        if told_ip(s, n, prefix, m, x) {
            assert(told_ip(s, n, prefix, rows[rows.len() - 1], x));
        }
    }
}

/// Whether an action tells the member of a row its address with a new prefix.
pub open spec fn told_ip(
    s: HubView,
    n: Uuid,
    prefix: u8,
    row: ApprovedView,
    x: ActionView,
) -> bool {
    reprefixed(row, n, prefix) is Some && (s.session(row.client_uuid, n) matches Some(y) && (
    y.bound_conn matches Some(id) && s.has_conn(id) && x == (ActionView::Send {
        conn: id,
        frame: FrameView::SetIp { ip: reprefixed(row, n, prefix) },
    })))
}

proof fn lemma_same_places(a: Seq<SessionView>, b: Seq<SessionView>, c: Uuid, n: Uuid)
    requires
        soundness::same_sessions(a, b),
    ensures
        seqs::position(a, model::session_of(c, n)) == seqs::position(b, model::session_of(c, n)),
{
    let p = model::session_of(c, n);
    seqs::lemma_position(b, p);
    match seqs::position(b, p) {
        Some(k) => {
            assert(p(a[k]));
            assert forall|j: int| 0 <= j < k implies !p(#[trigger] a[j]) by {
                assert(!p(b[j]));
            }
            seqs::lemma_position_is(a, p, k);
        },
        None => {
            assert forall|j: int| 0 <= j < a.len() implies !p(#[trigger] a[j]) by {
                assert(!p(b[j]));
            }
            seqs::lemma_position_none(a, p);
        },
    }
}

/// A new bridge address is set on the bridge that is up, whatever the old one
/// was; it is saved and told. Where it brings another prefix, every member that
/// is connected is told its address with it, and the kernel's routes follow.
/// Nothing else is done.
pub proof fn law_bridge_address_is_set(s: HubView, n: Uuid, ip: Seq<char>, x: ActionView)
    requires
        soundness::sound(s),
        model::set_bridge_ip_step(s, n, ip).1 is Updated,
    ensures
        ({
            let ((t, acts), r) = model::set_bridge_ip_step(s, n, ip);
            let change = prefix_given(s, n, ip);
            acts.contains(x) <==> match x {
                ActionView::SetBridgeIp { net, ip: given } => net == n && s.has_bridge(n) && given
                    == if ip.len() == 0 {
                    None
                } else {
                    addr::net_parsed(ip)
                },
                ActionView::Persist => true,
                ActionView::Send { conn, frame } => change is Some && exists|i: int|
                    0 <= i < s.cfg.approved_clients.len() && #[trigger] told_ip(
                        s,
                        n,
                        change->0,
                        s.cfg.approved_clients[i],
                        x,
                    ),
                ActionView::ApplyRoutes { net, routes } => change is Some && s.has_bridge(net)
                    && s.knows_net(net) && routes == routes::parse_all(
                    routes::derived(t.cfg.approved_clients, net),
                ),
                ActionView::Emit(EventView::NetworkChanged { network, name }) => network == n
                    && name == (record(s, n)->0).name,
                _ => false,
            }
        }),
{
    let ((t, acts), r) = model::set_bridge_ip_step(s, n, ip);
    let nets = s.cfg.networks;
    seqs::lemma_position(nets, model::net_is(n));
    let i = seqs::position(nets, model::net_is(n))->0;
    let rec = NetView { bridge_ip: ip, ..nets[i] };
    let change = prefix_given(s, n, ip);
    match change {
        Some(p) => {
            let u = HubView {
                cfg: ServerConfigView {
                    networks: nets.update(i, rec),
                    approved_clients: model::rewritten_rows(s.cfg.approved_clients, n, p),
                    ..s.cfg
                },
                ..s
            };
            lemma_notified_from(s, u, n, p, x);
            effects::law_kernel_routes_follow_the_rows(t, x);
            if let ActionView::ApplyRoutes { net, routes } = x {
                seqs::lemma_position_update(nets, model::net_is(net), i, rec);
            }
        },
        None => {},
    }
}

/// The members are told the same where only their rows are others.
proof fn lemma_notified_from(s: HubView, u: HubView, n: Uuid, prefix: u8, x: ActionView)
    requires
        soundness::sound(s),
        u == (HubView { cfg: u.cfg, ..s }),
    ensures
        ({
            let rows = s.cfg.approved_clients;
            let (t, acts) = model::notify_step(u, n, prefix, rows);
            &&& t == HubView { sessions: t.sessions, ..u }
            &&& acts.contains(x) <==> (exists|i: int|
                0 <= i < rows.len() && #[trigger] told_ip(s, n, prefix, rows[i], x))
        }),
{
    let rows = s.cfg.approved_clients;
    lemma_notified(s, n, prefix, rows, x);
    lemma_notify_same(s, u, n, prefix, rows);
}

proof fn lemma_notify_same(
    s: HubView,
    u: HubView,
    n: Uuid,
    prefix: u8,
    rows: Seq<ApprovedView>,
)
    requires
        u == (HubView { cfg: u.cfg, ..s }),
    ensures
        model::notify_step(u, n, prefix, rows).1 == model::notify_step(s, n, prefix, rows).1,
        model::notify_step(u, n, prefix, rows).0 == (HubView {
            cfg: u.cfg,
            ..model::notify_step(s, n, prefix, rows).0
        }),
    decreases rows.len(),
{
    if rows.len() > 0 {
        lemma_notify_same(s, u, n, prefix, rows.drop_last());
    }
}

/// With a new bridge address the network keeps the rest of its record. Where
/// the prefix is another one, every member of the network keeps its address
/// and gets the prefix; the other rows stay, and all of them where it is the
/// same. Everything else in the configuration stays.
pub proof fn law_bridge_address_is_kept(s: HubView, n: Uuid, ip: Seq<char>, m: Uuid)
    requires
        model::set_bridge_ip_step(s, n, ip).1 is Updated,
    ensures
        ({
            let ((t, acts), r) = model::set_bridge_ip_step(s, n, ip);
            let rows = s.cfg.approved_clients;
            &&& r == SetBridgeIpView::Updated(NetView { bridge_ip: ip, ..record(s, n)->0 })
            &&& record(t, n) == Some(NetView { bridge_ip: ip, ..record(s, n)->0 })
            &&& m != n ==> record(t, m) == record(s, m)
            &&& t.cfg == ServerConfigView {
                networks: t.cfg.networks,
                approved_clients: t.cfg.approved_clients,
                ..s.cfg
            }
            &&& t.cfg.networks.len() == s.cfg.networks.len()
            &&& t.cfg.approved_clients.len() == rows.len()
            &&& forall|i: int|
                0 <= i < rows.len() ==> #[trigger] t.cfg.approved_clients[i] == match prefix_given(
                    s,
                    n,
                    ip,
                ) {
                    Some(p) => match reprefixed(rows[i], n, p) {
                        Some(new) => ApprovedView { tap_ip: new, ..rows[i] },
                        None => rows[i],
                    },
                    None => rows[i],
                }
            &&& prefix_given(s, n, ip) is None ==> t.sessions == s.sessions
        }),
{
    let ((t, acts), r) = model::set_bridge_ip_step(s, n, ip);
    let nets = s.cfg.networks;
    seqs::lemma_position(nets, model::net_is(n));
    let i = seqs::position(nets, model::net_is(n))->0;
    let rec = NetView { bridge_ip: ip, ..nets[i] };
    seqs::lemma_position_update(nets, model::net_is(n), i, rec);
    seqs::lemma_position_update(nets, model::net_is(m), i, rec);
    seqs::lemma_position(nets, model::net_is(m));
    match prefix_given(s, n, ip) {
        Some(p) => {
            let u = HubView {
                cfg: ServerConfigView {
                    networks: nets.update(i, rec),
                    approved_clients: model::rewritten_rows(s.cfg.approved_clients, n, p),
                    ..s.cfg
                },
                ..s
            };
            lemma_notify_keeps(u, n, p, s.cfg.approved_clients);
        },
        None => {},
    }
}

proof fn lemma_notify_keeps(s: HubView, n: Uuid, prefix: u8, rows: Seq<ApprovedView>)
    ensures
        model::notify_step(s, n, prefix, rows).0 == (HubView {
            sessions: model::notify_step(s, n, prefix, rows).0.sessions,
            ..s
        }),
    decreases rows.len(),
{
    if rows.len() > 0 {
        lemma_notify_keeps(s, n, prefix, rows.drop_last());
    }
}

/// What a session becomes where the member of a row gets another prefix.
pub open spec fn readdressed(y: SessionView, n: Uuid, prefix: u8, row: ApprovedView) -> SessionView {
    if y.client == row.client_uuid && y.net == n && reprefixed(row, n, prefix) is Some {
        SessionView { tap_ip: reprefixed(row, n, prefix), ..y }
    } else {
        y
    }
}

proof fn lemma_notified_sessions(
    s: HubView,
    n: Uuid,
    prefix: u8,
    rows: Seq<ApprovedView>,
    k: int,
    i: int,
)
    requires
        seqs::distinct(s.sessions, soundness::pair_key()),
        seqs::distinct(rows, config::row_client()),
        0 <= k < s.sessions.len(),
    ensures
        ({
            let t = model::notify_step(s, n, prefix, rows).0;
            &&& t.sessions.len() == s.sessions.len()
            &&& seqs::distinct(t.sessions, soundness::pair_key())
            &&& t.sessions[k] == (SessionView {
                tap_ip: t.sessions[k].tap_ip,
                ..s.sessions[k]
            })
            &&& 0 <= i < rows.len() && rows[i].client_uuid == s.sessions[k].client
                ==> t.sessions[k] == readdressed(s.sessions[k], n, prefix, rows[i])
            &&& (forall|j: int|
                0 <= j < rows.len() ==> (#[trigger] rows[j]).client_uuid
                    != s.sessions[k].client) ==> t.sessions[k] == s.sessions[k]
        }),
    decreases rows.len(),
{
    if rows.len() > 0 {
        let front = rows.drop_last();
        let m = rows.last();
        assert forall|a: int, b: int| 0 <= a < b < front.len() implies config::row_client()(
            #[trigger] front[a],
        ) != config::row_client()(#[trigger] front[b]) by {
            assert(config::row_client()(rows[a]) != config::row_client()(rows[b]));
        }
        lemma_notified_sessions(s, n, prefix, front, k, i);
        let t = model::notify_step(s, n, prefix, front).0;
        let p = model::session_of(m.client_uuid, n);
        seqs::lemma_position(t.sessions, p);
        assert(rows[rows.len() - 1] == m);
        if seqs::position(t.sessions, p) is Some {
            let q = seqs::position(t.sessions, p)->0;
            let y = SessionView {
                tap_ip: reprefixed(m, n, prefix),
                ..t.sessions[q]
            };
            seqs::lemma_distinct_update(t.sessions, soundness::pair_key(), q, y);
            if q != k && p(t.sessions[k]) {
                if q < k {
                    assert(soundness::pair_key()(t.sessions[q]) != soundness::pair_key()(
                        t.sessions[k],
                    ));
                } else {
                    assert(soundness::pair_key()(t.sessions[k]) != soundness::pair_key()(
                        t.sessions[q],
                    ));
                }
            }
        } else {
            assert(!p(t.sessions[k]));
        }
        assert forall|j: int| 0 <= j < front.len() implies front[j] == rows[j] by {}
        if m.client_uuid == s.sessions[k].client {
            assert forall|j: int| 0 <= j < front.len() implies (#[trigger] front[j]).client_uuid
                != s.sessions[k].client by {
                assert(config::row_client()(rows[j]) != config::row_client()(
                    rows[rows.len() - 1],
                ));
            }
        }
        if 0 <= i < front.len() && rows[i].client_uuid == s.sessions[k].client {
            assert(config::row_client()(rows[i]) != config::row_client()(rows[rows.len() - 1]));
        }
        if forall|j: int| 0 <= j < rows.len() ==> (#[trigger] rows[j]).client_uuid
            != s.sessions[k].client {
            assert forall|j: int| 0 <= j < front.len() implies (#[trigger] front[j]).client_uuid
                != s.sessions[k].client by {
                assert(rows[j].client_uuid != s.sessions[k].client);
            }
        }
    }
}

/// Where a new bridge address brings another prefix, the sessions of the
/// network have their members' new addresses. Nothing else of a session
/// changes, and no connection, waiting client, bridge or flag does.
pub proof fn law_new_prefix_reaches_the_sessions(
    s: HubView,
    n: Uuid,
    ip: Seq<char>,
    k: int,
    i: int,
)
    requires
        soundness::sound(s),
        model::set_bridge_ip_step(s, n, ip).1 is Updated,
        prefix_given(s, n, ip) is Some,
        0 <= k < s.sessions.len(),
    ensures
        ({
            let t = model::set_bridge_ip_step(s, n, ip).0.0;
            let rows = s.cfg.approved_clients;
            &&& t == HubView { cfg: t.cfg, sessions: t.sessions, ..s }
            &&& t.sessions.len() == s.sessions.len()
            &&& 0 <= i < rows.len() && rows[i].client_uuid == s.sessions[k].client
                ==> t.sessions[k] == readdressed(
                s.sessions[k],
                n,
                prefix_given(s, n, ip)->0,
                rows[i],
            )
            &&& (forall|j: int|
                0 <= j < rows.len() ==> (#[trigger] rows[j]).client_uuid
                    != s.sessions[k].client) ==> t.sessions[k] == s.sessions[k]
        }),
{
    let nets = s.cfg.networks;
    seqs::lemma_position(nets, model::net_is(n));
    let at = seqs::position(nets, model::net_is(n))->0;
    let rec = NetView { bridge_ip: ip, ..nets[at] };
    let p = prefix_given(s, n, ip)->0;
    let u = HubView {
        cfg: ServerConfigView {
            networks: nets.update(at, rec),
            approved_clients: model::rewritten_rows(s.cfg.approved_clients, n, p),
            ..s.cfg
        },
        ..s
    };
    lemma_notified_sessions(u, n, p, s.cfg.approved_clients, k, i);
    lemma_notify_keeps(u, n, p, s.cfg.approved_clients);
}

// ── Deleting a network ───────────────────────────────────────────────────
/// Whether an action is done for a member that loses its network: where it is
/// connected, it is told that it has none and its connection is unbound; and it
/// is listed without a network.
pub open spec fn set_free(s: HubView, m: ApprovedView, x: ActionView) -> bool {
    let conn = s.conn_for(m.client_uuid);
    ||| conn matches Some(id) && (x == (ActionView::Send {
        conn: id,
        frame: FrameView::AssignNet { net_uuid: None },
    }) || x == (ActionView::Bind { conn: id, session: None }))
    ||| x == ActionView::Emit(
        EventView::DevicePending {
            network: Uuid(0),
            device: DeviceView {
                client_uuid: m.client_uuid,
                net_uuid: None,
                display_name: m.display_name,
                admitted: false,
                tap_ip: None,
                lan_subnets: m.lan_subnets,
                online: conn is Some,
                sid: None,
                tap_name: None,
            },
        },
    )
}

proof fn lemma_set_free(s: HubView, members: Seq<ApprovedView>, x: ActionView, c: Uuid)
    ensures
        ({
            let (t, acts) = model::detach_step(s, members);
            &&& t.conn_for(c) == s.conn_for(c)
            &&& acts.contains(x) <==> exists|i: int|
                0 <= i < members.len() && #[trigger] set_free(s, members[i], x)
        }),
    decreases members.len(),
{
    if members.len() > 0 {
        let front = members.drop_last();
        let m = members.last();
        lemma_set_free(s, front, x, c);
        lemma_set_free(s, front, x, m.client_uuid);
        let (t, acts) = model::detach_step(s, front);
        let (u, all) = model::detach_step(s, members);
        if t.conn_for(m.client_uuid) is Some {
            let id = t.conn_for(m.client_uuid)->0;
            seqs::lemma_position(t.conns, model::conn_is(id));
            match seqs::position(t.conns, model::conn_is(id)) {
                Some(i) => {
                    let e = ConnView { bound: None, ..t.conns[i] };
                    seqs::lemma_position(t.conns, model::conn_of(c));
                    seqs::lemma_position_update(t.conns, model::conn_of(c), i, e);
                },
                None => {},
            }
        }
        assert(members[members.len() - 1] == m);
        assert(all.contains(x) <==> acts.contains(x) || set_free(s, m, x));
        if acts.contains(x) {
            let i = choose|i: int|
                0 <= i < front.len() && #[trigger] set_free(s, front[i], x);
            assert(set_free(s, members[i], x));
        }
        if exists|i: int| 0 <= i < members.len() && #[trigger] set_free(s, members[i], x) {
            let i = choose|i: int|
                0 <= i < members.len() && #[trigger] set_free(s, members[i], x);
            if i < front.len() {
                assert(set_free(s, front[i], x));
            }
        }
        if set_free(s, m, x) {
            assert(set_free(s, members[members.len() - 1], x));
        }
    }
}

/// When a network is deleted, its sessions are told to end, and no others; its
/// bridge is destroyed; its members are told; the other networks' routes are
/// installed anew; and it is saved and told. Nothing else is done.
pub proof fn law_deleting_a_network(s: HubView, n: Uuid, x: ActionView)
    requires
        s.knows_net(n),
    ensures
        ({
            let ((t, acts), found) = model::delete_net_step(s, n);
            &&& found
            &&& acts.contains(x) <==> match x {
                ActionView::ToSession { sid, note } => note == SessionNote::Kill && exists|k: int|
                    0 <= k < s.sessions.len() && (#[trigger] s.sessions[k]).net == n
                        && s.sessions[k].sid == sid,
                ActionView::DestroyBridge { net } => net == n && s.has_bridge(n),
                ActionView::Persist => true,
                ActionView::ApplyRoutes { net, routes } => net != n && s.has_bridge(net)
                    && s.knows_net(net) && routes == routes::parse_all(
                    routes::derived(t.cfg.approved_clients, net),
                ),
                ActionView::Emit(EventView::NetworkDeleted { network }) => network == n,
                _ => exists|i: int|
                    0 <= i < s.cfg.approved_clients.len() && #[trigger] set_free(
                        s,
                        s.cfg.approved_clients[i],
                        x,
                    ) && s.cfg.approved_clients[i].net_uuid == n,
            }
        }),
{
    let ((t, acts), found) = model::delete_net_step(s, n);
    let rows = s.cfg.approved_clients;
    let u = HubView {
        cfg: ServerConfigView { approved_clients: rows.filter(model::not_in_net(n)), ..s.cfg },
        pending: s.pending.filter(model::waits_not_in(n)),
        ..s
    };
    let members = rows.filter(model::in_net(n));
    let (w, moved) = model::detach_step(u, members);
    crate::hub::nets::lemma_detach_keeps(u, members);
    let v = HubView {
        cfg: ServerConfigView {
            networks: s.cfg.networks.filter(model::net_is_not(n)),
            ..w.cfg
        },
        bridges: s.bridges.filter(model::not_bridge_of(n)),
        ..w
    };
    lemma_set_free(u, members, x, n);
    assert(u.conns == s.conns);
    seqs::lemma_filter_from(rows, model::in_net(n));
    if exists|i: int| 0 <= i < members.len() && #[trigger] set_free(u, members[i], x) {
        let i = choose|i: int| 0 <= i < members.len() && #[trigger] set_free(u, members[i], x);
        assert(rows.contains(members[i]) && model::in_net(n)(members[i]));
        let j = choose|j: int| 0 <= j < rows.len() && rows[j] == members[i];
        assert(set_free(s, rows[j], x) && rows[j].net_uuid == n);
    }
    if exists|i: int|
        0 <= i < rows.len() && #[trigger] set_free(s, rows[i], x) && rows[i].net_uuid == n {
        let i = choose|i: int|
            0 <= i < rows.len() && #[trigger] set_free(s, rows[i], x) && rows[i].net_uuid == n;
        assert(rows.contains(rows[i]));
        seqs::lemma_filter_keeps(rows, model::in_net(n), rows[i]);
        let j = choose|j: int| 0 <= j < members.len() && members[j] == rows[i];
        assert(set_free(u, members[j], x));
    }
    let mine = s.sessions.filter(model::session_in(n));
    effects::law_end_leaves_nothing_behind(mine, s.bridges, x);
    seqs::lemma_filter_from(s.sessions, model::session_in(n));
    if let ActionView::ToSession { sid, note } = x {
        if model::kill_all(mine).contains(x) {
            let k = choose|k: int|
                0 <= k < mine.len() && x == (ActionView::ToSession {
                    sid: (#[trigger] mine[k]).sid,
                    note: SessionNote::Kill,
                });
            assert(s.sessions.contains(mine[k]) && model::session_in(n)(mine[k]));
            let j = choose|j: int| 0 <= j < s.sessions.len() && s.sessions[j] == mine[k];
            assert(s.sessions[j].net == n && s.sessions[j].sid == sid);
        }
        if note == SessionNote::Kill && exists|k: int|
            0 <= k < s.sessions.len() && (#[trigger] s.sessions[k]).net == n && s.sessions[k].sid
                == sid {
            let k = choose|k: int|
                0 <= k < s.sessions.len() && (#[trigger] s.sessions[k]).net == n
                    && s.sessions[k].sid == sid;
            assert(s.sessions.contains(s.sessions[k]));
            seqs::lemma_filter_keeps(s.sessions, model::session_in(n), s.sessions[k]);
            let j = choose|j: int| 0 <= j < mine.len() && mine[j] == s.sessions[k];
            assert(mine[j].sid == sid);
        }
    }
    effects::law_kernel_routes_follow_the_rows(v, x);
    if let ActionView::ApplyRoutes { net, routes } = x {
        if net == n {
            seqs::lemma_none_filter(s.cfg.networks, model::net_is_not(n), model::net_is(n));
        } else {
            seqs::lemma_first_filter(s.cfg.networks, model::net_is_not(n), model::net_is(net));
            seqs::lemma_first_filter(s.bridges, model::not_bridge_of(n), model::bridge_of(net));
        }
    }
}

/// When a network is deleted, who waited for it waits no more, and the
/// connections of its members lead nowhere. Who is a member elsewhere keeps its
/// row, and the sessions are listed until they have ended.
pub proof fn law_deleted_network_leaves_the_rest(
    s: HubView,
    n: Uuid,
    w: PendingInfo,
    a: ApprovedView,
    r: NetView,
)
    requires
        s.knows_net(n),
    ensures
        ({
            let t = model::delete_net_step(s, n).0.0;
            &&& t.pending.contains(w) <==> s.pending.contains(w) && w.net_uuid != n
            &&& t.cfg.approved_clients.contains(a) <==> s.cfg.approved_clients.contains(a)
                && a.net_uuid != n
            &&& t.cfg.networks.contains(r) <==> s.cfg.networks.contains(r) && r.uuid != n
            &&& t.sessions == s.sessions
            &&& t.next_id == s.next_id && t.metrics_prev == s.metrics_prev
            &&& t.cfg == ServerConfigView {
                networks: t.cfg.networks,
                approved_clients: t.cfg.approved_clients,
                pending_clients: t.cfg.pending_clients,
                ..s.cfg
            }
        }),
{
    let t = model::delete_net_step(s, n).0.0;
    let rows = s.cfg.approved_clients;
    let u = HubView {
        cfg: ServerConfigView { approved_clients: rows.filter(model::not_in_net(n)), ..s.cfg },
        pending: s.pending.filter(model::waits_not_in(n)),
        ..s
    };
    crate::hub::nets::lemma_detach_keeps(u, rows.filter(model::in_net(n)));
    seqs::lemma_kept(s.pending, model::waits_not_in(n), w);
    seqs::lemma_kept(rows, model::not_in_net(n), a);
    seqs::lemma_kept(s.cfg.networks, model::net_is_not(n), r);
    lemma_detach_cfg(u, rows.filter(model::in_net(n)));
}

proof fn lemma_detach_cfg(s: HubView, members: Seq<ApprovedView>)
    ensures
        ({
            let t = model::detach_step(s, members).0;
            t == HubView {
                cfg: ServerConfigView { pending_clients: t.cfg.pending_clients, ..s.cfg },
                conns: t.conns,
                ..s
            }
        }),
    decreases members.len(),
{
    if members.len() > 0 {
        lemma_detach_cfg(s, members.drop_last());
    }
}

/// When a network is deleted, the connection of each of its members is unbound,
/// and the other connections stay as they are.
pub proof fn law_deleted_network_unbinds_its_members(s: HubView, n: Uuid, i: int)
    requires
        soundness::sound(s),
        s.knows_net(n),
        0 <= i < s.conns.len(),
    ensures
        ({
            let t = model::delete_net_step(s, n).0.0;
            &&& t.conns.len() == s.conns.len()
            &&& t.conns[i] == (ConnView {
                bound: if exists|j: int|
                    0 <= j < s.cfg.approved_clients.len() && (
                    #[trigger] s.cfg.approved_clients[j]).net_uuid == n && s.conn_for(
                        s.cfg.approved_clients[j].client_uuid,
                    ) == Some(s.conns[i].id) {
                    None
                } else {
                    s.conns[i].bound
                },
                ..s.conns[i]
            })
        }),
{
    let rows = s.cfg.approved_clients;
    let u = HubView {
        cfg: ServerConfigView { approved_clients: rows.filter(model::not_in_net(n)), ..s.cfg },
        pending: s.pending.filter(model::waits_not_in(n)),
        ..s
    };
    let members = rows.filter(model::in_net(n));
    lemma_unbound(u, members, i);
    assert(u.conns == s.conns);
    seqs::lemma_filter_from(rows, model::in_net(n));
    if exists|k: int|
        0 <= k < members.len() && u.conn_for((#[trigger] members[k]).client_uuid) == Some(
            u.conns[i].id,
        ) {
        let k = choose|k: int|
            0 <= k < members.len() && u.conn_for((#[trigger] members[k]).client_uuid) == Some(
                u.conns[i].id,
            );
        assert(rows.contains(members[k]) && model::in_net(n)(members[k]));
        let j = choose|j: int| 0 <= j < rows.len() && rows[j] == members[k];
        assert(rows[j].net_uuid == n);
    }
    if exists|j: int|
        0 <= j < rows.len() && (#[trigger] rows[j]).net_uuid == n && s.conn_for(
            rows[j].client_uuid,
        ) == Some(s.conns[i].id) {
        let j = choose|j: int|
            0 <= j < rows.len() && (#[trigger] rows[j]).net_uuid == n && s.conn_for(
                rows[j].client_uuid,
            ) == Some(s.conns[i].id);
        assert(rows.contains(rows[j]));
        seqs::lemma_filter_keeps(rows, model::in_net(n), rows[j]);
        let k = choose|k: int| 0 <= k < members.len() && members[k] == rows[j];
        assert(u.conn_for(members[k].client_uuid) == Some(u.conns[i].id));
    }
}

proof fn lemma_unbound(s: HubView, members: Seq<ApprovedView>, i: int)
    requires
        seqs::distinct(s.conns, soundness::conn_key()),
        0 <= i < s.conns.len(),
    ensures
        ({
            let t = model::detach_step(s, members).0;
            &&& soundness::same_conns(t.conns, s.conns)
            &&& t.conns[i] == (ConnView {
                bound: if exists|k: int|
                    0 <= k < members.len() && s.conn_for(
                        (#[trigger] members[k]).client_uuid,
                    ) == Some(s.conns[i].id) {
                    None
                } else {
                    s.conns[i].bound
                },
                ..s.conns[i]
            })
        }),
    decreases members.len(),
{
    if members.len() > 0 {
        let front = members.drop_last();
        let m = members.last();
        lemma_unbound(s, front, i);
        lemma_set_free(s, front, ActionView::Persist, m.client_uuid);
        let t = model::detach_step(s, front).0;
        assert forall|a: int, b: int| 0 <= a < b < t.conns.len() implies soundness::conn_key()(
            #[trigger] t.conns[a],
        ) != soundness::conn_key()(#[trigger] t.conns[b]) by {
            assert(soundness::conn_key()(s.conns[a]) != soundness::conn_key()(s.conns[b]));
        }
        if t.conn_for(m.client_uuid) is Some {
            effects::lemma_bound_in(t.conns, t.conn_for(m.client_uuid)->0, None);
        }
        assert(members[members.len() - 1] == m);
        assert forall|j: int| 0 <= j < front.len() implies front[j] == members[j] by {}
        if exists|k: int|
            0 <= k < front.len() && s.conn_for((#[trigger] front[k]).client_uuid) == Some(
                s.conns[i].id,
            ) {
            let k = choose|k: int|
                0 <= k < front.len() && s.conn_for((#[trigger] front[k]).client_uuid) == Some(
                    s.conns[i].id,
                );
            assert(s.conn_for(members[k].client_uuid) == Some(s.conns[i].id));
        }
        if exists|k: int|
            0 <= k < members.len() && s.conn_for((#[trigger] members[k]).client_uuid) == Some(
                s.conns[i].id,
            ) {
            let k = choose|k: int|
                0 <= k < members.len() && s.conn_for((#[trigger] members[k]).client_uuid) == Some(
                    s.conns[i].id,
                );
            if k < front.len() {
                assert(s.conn_for(front[k].client_uuid) == Some(s.conns[i].id));
            }
        }
    }
}

// ── Starting ─────────────────────────────────────────────────────────────
/// A hub starts with its configuration, and with nobody connected. Its first
/// identity is 1.
pub proof fn law_new_hub_is_empty(cfg: ServerConfigView)
    ensures
        ({
            let s = model::fresh_hub(cfg);
            &&& s.cfg == cfg && s.next_id == 1
            &&& s.bridges.len() == 0 && s.conns.len() == 0 && s.sessions.len() == 0
            &&& s.pending.len() == 0 && s.metrics_prev.len() == 0
            &&& s.pushed.len() == 0 && s.dirty.len() == 0
        }),
{
}

/// A bridge that came up is up, and the others are as before; so is everything
/// else. When the hub starts, the kernel's routes are installed, and nothing
/// else is done; only what counts as told changes.
pub proof fn law_starting(s: HubView, n: Uuid, m: Uuid, x: ActionView)
    ensures
        ({
            let t = model::bridge_up(s, n);
            &&& t == HubView { bridges: t.bridges, ..s }
            &&& t.has_bridge(m) <==> s.has_bridge(m) || m == n
        }),
        ({
            let (t, acts) = model::start_step(s);
            &&& t == HubView { pushed: t.pushed, dirty: t.dirty, ..s }
            &&& acts.contains(x) <==> (x matches ActionView::ApplyRoutes { net, routes }
                && s.has_bridge(net) && s.knows_net(net) && routes == routes::parse_all(
                routes::derived(s.cfg.approved_clients, net),
            ))
        }),
{
    seqs::lemma_position_push(s.bridges, model::bridge_of(m), n);
    effects::law_kernel_routes_follow_the_rows(s, x);
    lemma_seeded(s, s.cfg.networks);
}

proof fn lemma_seeded(s: HubView, nets: Seq<NetView>)
    ensures
        model::seeded(s, nets) == (HubView {
            pushed: model::seeded(s, nets).pushed,
            dirty: model::seeded(s, nets).dirty,
            ..s
        }),
    decreases nets.len(),
{
    if nets.len() > 0 {
        lemma_seeded(s, nets.drop_last());
    }
}

/// Of a deleted network nothing counts as told any more.
pub proof fn law_deleted_network_was_told_nothing(s: HubView, n: Uuid)
    requires
        s.knows_net(n),
    ensures
        model::told(model::delete_net_step(s, n).0.0, n).len() == 0,
{
    let rows = s.cfg.approved_clients;
    let u = HubView {
        cfg: ServerConfigView { approved_clients: rows.filter(model::not_in_net(n)), ..s.cfg },
        pending: s.pending.filter(model::waits_not_in(n)),
        ..s
    };
    crate::hub::nets::lemma_detach_keeps(u, rows.filter(model::in_net(n)));
    seqs::lemma_none_filter(s.pushed, model::not_pushed_to(n), model::pushed_to(n));
}

/// A new network and a new name are each saved and told once; a new bridge
/// address is set, saved and told once.
pub proof fn law_nothing_is_done_twice(
    s: HubView,
    n: Uuid,
    rec: NetView,
    up: bool,
    name: Seq<char>,
    ip: Seq<char>,
)
    ensures
        model::add_net_step(s, rec, up).1.len() == 2,
        model::rename_step(s, n, name).0.1.len() <= 2,
        s.knows_net(n) && prefix_given(s, n, ip) is None ==> model::set_bridge_ip_step(
            s,
            n,
            ip,
        ).0.1.len() <= 3,
{
    seqs::lemma_position(s.cfg.networks, model::net_is(n));
}

} // verus!
