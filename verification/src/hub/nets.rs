//! Creating, changing and deleting networks.
use vstd::prelude::*;
use vstd::string::*;

use crate::addr;
use crate::addr::IpNet;
use crate::config;
use crate::config::{ApprovedClient, ApprovedView, NetRecord, NetView, PendingClient, ServerConfigView};
use crate::device;
use crate::events::HubEvent;
use crate::frame::{Frame, RouteEntry};
use crate::hub::find;
use crate::hub::keep;
use crate::hub::model;
use crate::hub::model::HubView;
use crate::hub::tables;
use crate::hub::{Hub, HubAction, SessionNote, SessionView, SetNetBridgeIpResult};
use crate::ids::ConnId;
use crate::seqs;
use crate::text;
use crate::uuids::Uuid;

verus! {

/// Reads a bridge address: empty for none, else a network with a 16 or 24 bit
/// prefix. The error is a message.
pub fn checked_bridge_ip(ip: &str) -> (r: Result<Option<IpNet>, String>)
    ensures
        match r {
            Ok(n) => model::checked_ip(ip@) == Result::<Option<IpNet>, Seq<char>>::Ok(n),
            Err(m) => model::checked_ip(ip@) == Result::<Option<IpNet>, Seq<char>>::Err(m@),
        },
{
    if ip.is_empty() {
        return Ok(None);
    }
    match IpNet::read(ip) {
        Ok(n) => if n.prefix == 16 || n.prefix == 24 {
            Ok(Some(n))
        } else {
            let p = text::dec_text(n.prefix as u64);
            Err(text::join3("prefix /", p.as_str(), " not supported (use /16 or /24)"))
        },
        Err(e) => Err(e),
    }
}

/// The record of a new network, whose identity was drawn before; or why there
/// can be none.
pub fn plan_net(name: &str, bridge_ip: Option<&str>, fresh: Uuid) -> (r: Result<NetRecord, String>)
    ensures
        match r {
            Ok(n) => model::planned_net(
                name@,
                match bridge_ip {
                    Some(s) => Some(s@),
                    None => None,
                },
                fresh,
            ) == Result::<NetView, Seq<char>>::Ok(n.deep_view()),
            Err(m) => model::planned_net(
                name@,
                match bridge_ip {
                    Some(s) => Some(s@),
                    None => None,
                },
                fresh,
            ) == Result::<NetView, Seq<char>>::Err(m@),
        },
{
    let asked: &str = match bridge_ip {
        Some(s) => s,
        None => "",
    };
    proof {
        reveal_strlit("");
        assert(""@ =~= Seq::<char>::empty());
    }
    match checked_bridge_ip(asked) {
        Err(m) => Err(m),
        Ok(n) => {
            let mut rec = NetRecord::new(name, fresh);
            match n {
                Some(n) => {
                    rec.bridge_ip = n.to_text();
                },
                None => {},
            }
            Ok(rec)
        },
    }
}

/// The address that a network's bridge is created with: none where there is
/// none, or it is malformed.
pub fn bridge_address(rec: &NetRecord) -> (r: Option<IpNet>)
    ensures
        r == (if rec.bridge_ip@.len() == 0 {
            None
        } else {
            addr::net_parsed(rec.bridge_ip@)
        }),
{
    if rec.bridge_ip.as_str().is_empty() {
        None
    } else {
        IpNet::parse(rec.bridge_ip.as_str())
    }
}

/// The address of a member after the prefix of its network changed.
fn rewritten_ip(row: &ApprovedClient, n: Uuid, prefix: u8) -> (r: Option<String>)
    ensures
        r.deep_view() == model::rewritten_ip(row.deep_view(), n, prefix),
        forall|a: u32, p: u8|
            row.net_uuid == n && p <= 32 && row.tap_ip@ == #[trigger] addr::dotted_cidr(a, p)
                ==> r.deep_view() == Some(addr::dotted_cidr(a, prefix)),
{
    proof {
        reveal_strlit("/");
    }
    if row.net_uuid == n && !row.tap_ip.as_str().is_empty() {
        match IpNet::parse(row.tap_ip.as_str()) {
            Some(p) => {
                let a = p.addr.to_text();
                let d = text::dec_text(prefix as u64);
                Some(text::join3(a.as_str(), "/", d.as_str()))
            },
            None => None,
        }
    } else {
        None
    }
}

/// The frame that tells a session's client its new address.
pub(crate) fn send_set_ip(
    h: &Hub,
    conn: Option<ConnId>,
    ip: &Option<String>,
    out: &mut Vec<HubAction>,
)
    ensures
        final(out).deep_view() == old(out).deep_view() + model::set_ip_frame(
            h.deep_view(),
            conn,
            ip.deep_view(),
        ),
{
    let ghost start = out.deep_view();
    match conn {
        Some(id) => {
            if h.has_conn(id) {
                tables::act(
                    out,
                    HubAction::Send { conn: id, frame: Frame::SetIp { ip: text::copy_opt(ip) } },
                );
            }
        },
        None => {},
    }
    assert(out.deep_view() =~= start + model::set_ip_frame(h.deep_view(), conn, ip.deep_view()));
}

impl Hub {
    /// The bridge of a network came up.
    pub fn bridge_ready(&mut self, n: Uuid)
        ensures
            final(self).deep_view() == model::bridge_up(old(self).deep_view(), n),
    {
        if !self.has_bridge(n) {
            self.bridges.push(n);
        }
    }

    /// A network was created; `up` says whether its bridge could be.
    pub fn add_net(&mut self, rec: NetRecord, up: bool) -> (r: Vec<HubAction>)
        ensures
            final(self).deep_view() == model::add_net_step(
                old(self).deep_view(),
                rec.deep_view(),
                up,
            ).0,
            r.deep_view() == model::add_net_step(old(self).deep_view(), rec.deep_view(), up).1,
    {
        let ghost s = self.deep_view();
        let ghost v = rec.deep_view();
        let mut out = tables::no_actions();
        let n = rec.uuid;
        let name = rec.name.clone();
        if up {
            self.bridge_ready(n);
        }
        self.cfg.networks.push(rec);
        assert(self.cfg.networks.deep_view() =~= s.cfg.networks.push(v));
        let none: Vec<RouteEntry> = Vec::new();
        assert(none.deep_view() =~= Seq::empty());
        self.put_pushed(n, none);
        self.put_flag(n, false);
        tables::act(&mut out, HubAction::Persist);
        tables::act(&mut out, HubAction::Emit(HubEvent::NetworkCreated { network: n, name: name }));
        assert(out.deep_view() =~= model::add_net_step(s, v, up).1);
        out
    }

    /// A network gets a new name; false where it is unknown.
    pub fn handle_rename_net(&mut self, net_uuid: Uuid, name: &String) -> (r: (
        Vec<HubAction>,
        bool,
    ))
        ensures
            final(self).deep_view() == model::rename_step(
                old(self).deep_view(),
                net_uuid,
                name@,
            ).0.0,
            r.0.deep_view() == model::rename_step(old(self).deep_view(), net_uuid, name@).0.1,
            r.1 == model::rename_step(old(self).deep_view(), net_uuid, name@).1,
    {
        let ghost s = self.deep_view();
        let mut out = tables::no_actions();
        match find::find_net(&self.cfg.networks, net_uuid) {
            None => (out, false),
            Some(i) => {
                self.cfg.networks[i].name = name.clone();
                assert(self.cfg.networks.deep_view() =~= s.cfg.networks.update(
                    i as int,
                    (NetView { name: name@, ..s.cfg.networks[i as int] }),
                ));
                tables::act(&mut out, HubAction::Persist);
                tables::act(
                    &mut out,
                    HubAction::Emit(
                        HubEvent::NetworkChanged { network: net_uuid, name: name.clone() },
                    ),
                );
                assert(out.deep_view() =~= model::rename_step(s, net_uuid, name@).0.1);
                (out, true)
            },
        }
    }

    /// Gives the members of a network the new prefix.
    fn rewrite_rows(&mut self, n: Uuid, prefix: u8)
        ensures
            final(self).deep_view() == (HubView {
                cfg: ServerConfigView {
                    approved_clients: model::rewritten_rows(
                        old(self).deep_view().cfg.approved_clients,
                        n,
                        prefix,
                    ),
                    ..old(self).deep_view().cfg
                },
                ..old(self).deep_view()
            }),
            model::keeps_octets(
                old(self).deep_view().cfg.approved_clients,
                final(self).deep_view().cfg.approved_clients,
                n,
                prefix,
            ),
    {
        let ghost s = self.deep_view();
        let ghost rows = s.cfg.approved_clients;
        let ghost want = model::rewritten_rows(rows, n, prefix);
        let mut i: usize = 0;
        while i < self.cfg.approved_clients.len()
            invariant
                0 <= i <= self.cfg.approved_clients.len(),
                self.cfg.approved_clients.len() == rows.len(),
                rows == s.cfg.approved_clients,
                want == model::rewritten_rows(rows, n, prefix),
                self.deep_view() == (HubView {
                    cfg: ServerConfigView {
                        approved_clients: self.deep_view().cfg.approved_clients,
                        ..s.cfg
                    },
                    ..s
                }),
                forall|j: int|
                    0 <= j < i ==> #[trigger] self.deep_view().cfg.approved_clients[j] == want[j],
                forall|j: int|
                    i <= j < rows.len() ==> #[trigger] self.deep_view().cfg.approved_clients[j]
                        == rows[j],
                model::keeps_octets(
                    rows.take(i as int),
                    self.deep_view().cfg.approved_clients,
                    n,
                    prefix,
                ),
            decreases self.cfg.approved_clients.len() - i,
        {
            let ghost before = self.deep_view();
            assert(before.cfg.approved_clients[i as int]
                == self.cfg.approved_clients[i as int].deep_view());
            match rewritten_ip(&self.cfg.approved_clients[i], n, prefix) {
                Some(ip) => {
                    self.cfg.approved_clients[i].tap_ip = ip;
                    assert(self.cfg.approved_clients.deep_view()
                        =~= before.cfg.approved_clients.update(
                        i as int,
                        (ApprovedView { tap_ip: ip@, ..rows[i as int] }),
                    ));
                },
                None => {},
            }
            assert forall|j: int, a: u32, p: u8|
                #![trigger rows.take(i + 1)[j], addr::dotted_cidr(a, p)]
                0 <= j < i + 1 && p <= 32 && rows.take(i + 1)[j].net_uuid == n && rows.take(
                    i + 1,
                )[j].tap_ip == addr::dotted_cidr(a, p) implies self.deep_view().cfg.approved_clients[j]
                == (ApprovedView {
                tap_ip: addr::dotted_cidr(a, prefix),
                ..rows.take(i + 1)[j]
            }) by {
                if j < i {
                    assert(rows.take(i as int)[j] == rows[j]);
                }
            }
            i += 1;
        }
        assert(rows.take(i as int) =~= rows);
        assert(self.deep_view().cfg.approved_clients =~= want);
    }

    /// Replaces the address of a session.
    pub(crate) fn set_session_ip(&mut self, c: Uuid, n: Uuid, ip: Option<String>)
        ensures
            final(self).deep_view() == (HubView {
                sessions: model::with_ip(
                    old(self).deep_view().sessions,
                    c,
                    n,
                    ip.deep_view(),
                ),
                ..old(self).deep_view()
            }),
    {
        let ghost before = self.deep_view().sessions;
        match find::find_session(&self.sessions, c, n) {
            Some(i) => {
                self.sessions[i].tap_ip = ip;
                assert(self.sessions.deep_view() =~= before.update(
                    i as int,
                    (SessionView { tap_ip: ip.deep_view(), ..before[i as int] }),
                ));
            },
            None => {},
        }
    }

    /// Tells the sessions of a network their new addresses. `rows` are the
    /// members as they were before.
    fn notify_sessions(
        &mut self,
        n: Uuid,
        prefix: u8,
        rows: &Vec<ApprovedClient>,
        out: &mut Vec<HubAction>,
    )
        ensures
            final(self).deep_view() == model::notify_step(
                old(self).deep_view(),
                n,
                prefix,
                rows.deep_view(),
            ).0,
            final(out).deep_view() == old(out).deep_view() + model::notify_step(
                old(self).deep_view(),
                n,
                prefix,
                rows.deep_view(),
            ).1,
    {
        let ghost s = self.deep_view();
        let ghost all = rows.deep_view();
        let ghost start = out.deep_view();
        let mut i: usize = 0;
        assert(all.take(0) =~= Seq::<ApprovedView>::empty());
        assert(start + model::notify_step(s, n, prefix, all.take(0)).1 =~= start);
        while i < rows.len()
            invariant
                0 <= i <= rows.len(),
                all == rows.deep_view(),
                self.deep_view() == model::notify_step(s, n, prefix, all.take(i as int)).0,
                out.deep_view() == start + model::notify_step(s, n, prefix, all.take(i as int)).1,
            decreases rows.len() - i,
        {
            let ghost t = self.deep_view();
            let ghost acts = model::notify_step(s, n, prefix, all.take(i as int)).1;
            proof {
                assert(all.take(i + 1).drop_last() =~= all.take(i as int));
                assert(all.take(i + 1).last() == rows[i as int].deep_view());
            }
            match rewritten_ip(&rows[i], n, prefix) {
                None => {},
                Some(ip) => {
                    let c = rows[i].client_uuid;
                    match find::find_session(&self.sessions, c, n) {
                        None => {},
                        Some(k) => {
                            assert(t.sessions[k as int] == self.sessions[k as int].deep_view());
                            let conn = self.sessions[k].bound_conn;
                            let told = Some(ip);
                            send_set_ip(self, conn, &told, out);
                            self.set_session_ip(c, n, told);
                            assert(out.deep_view() =~= start + (acts + model::set_ip_frame(
                                t,
                                conn,
                                told.deep_view(),
                            )));
                        },
                    }
                },
            }
            i += 1;
        }
        assert(all.take(i as int) =~= all);
    }

    /// A network's bridge gets a new address. Where the prefix changes, the
    /// members' addresses change with it.
    pub fn handle_set_net_bridge_ip(&mut self, net_uuid: Uuid, bridge_ip: &String) -> (r: (
        Vec<HubAction>,
        SetNetBridgeIpResult,
    ))
        ensures
            final(self).deep_view() == model::set_bridge_ip_step(
                old(self).deep_view(),
                net_uuid,
                bridge_ip@,
            ).0.0,
            r.0.deep_view() == model::set_bridge_ip_step(
                old(self).deep_view(),
                net_uuid,
                bridge_ip@,
            ).0.1,
            r.1.deep_view() == model::set_bridge_ip_step(
                old(self).deep_view(),
                net_uuid,
                bridge_ip@,
            ).1,
            model::prefix_change(old(self).deep_view(), net_uuid, bridge_ip@) matches Some(p)
                ==> model::keeps_octets(
                old(self).deep_view().cfg.approved_clients,
                final(self).deep_view().cfg.approved_clients,
                net_uuid,
                p,
            ),
    {
        let ghost s = self.deep_view();
        let mut out = tables::no_actions();
        let net: Option<IpNet> = match checked_bridge_ip(bridge_ip.as_str()) {
            Err(m) => {
                return (out, SetNetBridgeIpResult::Invalid(m));
            },
            Ok(n) => n,
        };
        let i: usize = match find::find_net(&self.cfg.networks, net_uuid) {
            None => {
                return (out, SetNetBridgeIpResult::NotFound);
            },
            Some(i) => i,
        };
        assert(s.cfg.networks[i as int] == self.cfg.networks[i as int].deep_view());
        let before = IpNet::parse(self.cfg.networks[i].bridge_ip.as_str());
        let change: Option<u8> = match (before, net) {
            (Some(a), Some(b)) => if a.prefix != b.prefix {
                Some(b.prefix)
            } else {
                None
            },
            _ => None,
        };
        assert(change == model::new_prefix(s.cfg.networks[i as int].bridge_ip, net));
        self.cfg.networks[i].bridge_ip = bridge_ip.clone();
        let rec = self.cfg.networks[i].copy();
        assert(self.cfg.networks.deep_view() =~= s.cfg.networks.update(
            i as int,
            (NetView { bridge_ip: bridge_ip@, ..s.cfg.networks[i as int] }),
        ));
        tables::act(&mut out, HubAction::Persist);
        if self.has_bridge(net_uuid) {
            tables::act(&mut out, HubAction::SetBridgeIp { net: net_uuid, ip: net });
        }
        match change {
            Some(p) => {
                let rows = config::copy_rows(&self.cfg.approved_clients);
                self.rewrite_rows(net_uuid, p);
                let ghost t = self.deep_view();
                self.notify_sessions(net_uuid, p, &rows, &mut out);
                proof {
                    lemma_notify_keeps(t, net_uuid, p, rows.deep_view());
                }
                self.sync_local_routes(&mut out);
            },
            None => {},
        }
        tables::act(
            &mut out,
            HubAction::Emit(
                HubEvent::NetworkChanged { network: net_uuid, name: rec.name.clone() },
            ),
        );
        assert(out.deep_view() =~= model::set_bridge_ip_step(s, net_uuid, bridge_ip@).0.1);
        (out, SetNetBridgeIpResult::Updated(rec))
    }

    /// Ends every session of a network.
    fn kill_sessions_of(&self, n: Uuid, out: &mut Vec<HubAction>)
        ensures
            final(out).deep_view() == old(out).deep_view() + model::kill_net(
                self.deep_view().sessions,
                n,
            ),
    {
        let ghost all = self.deep_view().sessions;
        let ghost start = out.deep_view();
        let ghost p = model::session_in(n);
        let mut i: usize = 0;
        proof {
            seqs::lemma_filter_start(all, p);
        }
        assert(start + model::kill_all(all.take(0).filter(p)) =~= start);
        while i < self.sessions.len()
            invariant
                0 <= i <= self.sessions.len(),
                all == self.deep_view().sessions,
                p == model::session_in(n),
                out.deep_view() == start + model::kill_all(all.take(i as int).filter(p)),
            decreases self.sessions.len() - i,
        {
            proof {
                seqs::lemma_filter_step(all, p, i as int);
                assert(all[i as int] == self.sessions[i as int].deep_view());
            }
            if self.sessions[i].net_uuid == n {
                tables::act(
                    out,
                    HubAction::ToSession { sid: self.sessions[i].sid, note: SessionNote::Kill },
                );
                assert(out.deep_view() =~= start + model::kill_all(
                    all.take(i + 1).filter(p),
                ));
            }
            i += 1;
        }
        assert(all.take(i as int) =~= all);
    }

    /// Moves the members of a deleted network among the clients without one.
    fn detach_members(&mut self, members: &Vec<ApprovedClient>, out: &mut Vec<HubAction>)
        ensures
            final(self).deep_view() == model::detach_step(
                old(self).deep_view(),
                members.deep_view(),
            ).0,
            final(out).deep_view() == old(out).deep_view() + model::detach_step(
                old(self).deep_view(),
                members.deep_view(),
            ).1,
    {
        let ghost s = self.deep_view();
        let ghost all = members.deep_view();
        let ghost start = out.deep_view();
        let mut i: usize = 0;
        assert(all.take(0) =~= Seq::<ApprovedView>::empty());
        assert(start + model::detach_step(s, all.take(0)).1 =~= start);
        while i < members.len()
            invariant
                0 <= i <= members.len(),
                all == members.deep_view(),
                self.deep_view() == model::detach_step(s, all.take(i as int)).0,
                out.deep_view() == start + model::detach_step(s, all.take(i as int)).1,
            decreases members.len() - i,
        {
            let ghost t = self.deep_view();
            let ghost acts = out.deep_view();
            proof {
                assert(all.take(i + 1).drop_last() =~= all.take(i as int));
                assert(all.take(i + 1).last() == members[i as int].deep_view());
            }
            let m = &members[i];
            let c = m.client_uuid;
            let conn = self.conn_for_client(c);
            if config::find_pending(&self.cfg.pending_clients, c).is_none() {
                let p = PendingClient {
                    client_uuid: c,
                    display_name: m.display_name.clone(),
                    lan_subnets: text::copy_texts(&m.lan_subnets),
                };
                self.cfg.pending_clients.push(p);
                assert(self.cfg.pending_clients.deep_view() =~= t.cfg.pending_clients.push(
                    p.deep_view(),
                ));
            }
            match conn {
                Some(id) => {
                    tables::act(
                        out,
                        HubAction::Send { conn: id, frame: Frame::AssignNet { net_uuid: None } },
                    );
                    tables::act(out, HubAction::Bind { conn: id, session: None });
                    self.set_bound(id, None);
                },
                None => {},
            }
            let d = device::unassigned_entry(
                c,
                &m.display_name,
                &m.lan_subnets,
                conn.is_some(),
            );
            tables::act(
                out,
                HubAction::Emit(HubEvent::DevicePending { network: Uuid::nil(), device: d }),
            );
            assert(out.deep_view() =~= start + model::detach_step(s, all.take(i + 1)).1);
            i += 1;
        }
        assert(all.take(i as int) =~= all);
    }

    /// A network is deleted; false where it is unknown. Its sessions end, its
    /// bridge goes, and its members stay known.
    pub fn handle_delete_net(&mut self, net_uuid: Uuid) -> (r: (Vec<HubAction>, bool))
        ensures
            final(self).deep_view() == model::delete_net_step(
                old(self).deep_view(),
                net_uuid,
            ).0.0,
            r.0.deep_view() == model::delete_net_step(old(self).deep_view(), net_uuid).0.1,
            r.1 == model::delete_net_step(old(self).deep_view(), net_uuid).1,
    {
        let ghost s = self.deep_view();
        let mut out = tables::no_actions();
        if !self.network_exists(net_uuid) {
            return (out, false);
        }
        self.kill_sessions_of(net_uuid, &mut out);
        self.pending = keep::waiting_not_in(&self.pending, net_uuid);
        let members = keep::rows_in_net(&self.cfg.approved_clients, net_uuid);
        self.cfg.approved_clients = keep::rows_not_in_net(&self.cfg.approved_clients, net_uuid);
        let ghost t = self.deep_view();
        self.detach_members(&members, &mut out);
        let ghost u = self.deep_view();
        proof {
            lemma_detach_keeps(t, members.deep_view());
        }
        self.cfg.networks = keep::nets_but(&self.cfg.networks, net_uuid);
        if self.has_bridge(net_uuid) {
            tables::act(&mut out, HubAction::DestroyBridge { net: net_uuid });
        }
        self.bridges = keep::bridges_but(&self.bridges, net_uuid);
        tables::act(&mut out, HubAction::Persist);
        self.sync_local_routes(&mut out);
        self.last_pushed_routes = keep::pushed_but(&self.last_pushed_routes, net_uuid);
        self.routes_dirty = keep::flags_but(&self.routes_dirty, net_uuid);
        tables::act(&mut out, HubAction::Emit(HubEvent::NetworkDeleted { network: net_uuid }));
        assert(out.deep_view() =~= model::delete_net_step(s, net_uuid).0.1);
        (out, true)
    }
}

/// Telling sessions their addresses leaves the configuration as it is.
proof fn lemma_notify_keeps(s: HubView, n: Uuid, prefix: u8, rows: Seq<ApprovedView>)
    ensures
        model::notify_step(s, n, prefix, rows).0.cfg == s.cfg,
    decreases rows.len(),
{
    if rows.len() > 0 {
        lemma_notify_keeps(s, n, prefix, rows.drop_last());
    }
}

/// Moving members leaves the networks and the bridges as they are.
pub proof fn lemma_detach_keeps(s: HubView, members: Seq<ApprovedView>)
    ensures
        model::detach_step(s, members).0 == (HubView {
            cfg: ServerConfigView {
                pending_clients: model::detach_step(s, members).0.cfg.pending_clients,
                ..s.cfg
            },
            conns: model::detach_step(s, members).0.conns,
            ..s
        }),
    decreases members.len(),
{
    if members.len() > 0 {
        lemma_detach_keeps(s, members.drop_last());
    }
}

} // verus!
