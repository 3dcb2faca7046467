//! The clients as the admin tools see and change them.
use vstd::prelude::*;
use vstd::string::*;

use crate::addr;
use crate::addr::{IpAddr, IpNet};
use crate::config;
use crate::config::{ApprovedClient, PendingClient, ServerConfigView};
use crate::device;
use crate::device::DeviceEntry;
use crate::events::{HubEvent, RouteRow};
use crate::frame;
use crate::frame::{Frame, RouteEntry};
use crate::hub::find;
use crate::hub::keep;
use crate::hub::model;
use crate::hub::model::HubView;
use crate::hub::nets;
use crate::hub::tables;
use crate::hub::{
    ActionView, AssignClientResult, DeviceSetResult, DeviceSetStep, DeviceUpdate, Hub, HubAction,
    HubSnapshot, PendingInfo, SessionInfo, SessionNote,
};
use crate::ids::ConnId;
use crate::routes;
use crate::seqs;
use crate::text;
use crate::uuids;
use crate::uuids::Uuid;

verus! {

/// Whether every subnet of a list is well formed.
pub fn valid_subnets(v: &Vec<String>) -> (r: bool)
    ensures
        r == model::valid_subnets(v.deep_view()),
{
    let ghost all = v.deep_view();
    let mut i: usize = 0;
    while i < v.len()
        invariant
            0 <= i <= v.len(),
            all == v.deep_view(),
            forall|j: int| 0 <= j < i ==> addr::net_parsed(#[trigger] all[j]) is Some,
        decreases v.len() - i,
    {
        assert(all[i as int] == v[i as int]@);
        if IpNet::parse(v[i].as_str()).is_none() {
            return false;
        }
        i += 1;
    }
    true
}

/// The other member of a network that has an address.
fn find_holder(v: &Vec<ApprovedClient>, c: Uuid, n: Uuid, ip: &String) -> (r: Option<usize>)
    ensures
        match r {
            Some(i) => i < v.len() && seqs::position(v.deep_view(), model::uses_ip(c, n, ip@))
                == Some(i as int),
            None => seqs::position(v.deep_view(), model::uses_ip(c, n, ip@)) is None,
        },
{
    let mut i: usize = 0;
    while i < v.len()
        invariant
            0 <= i <= v.len(),
            forall|j: int|
                0 <= j < i ==> !((#[trigger] v[j]).net_uuid == n && v[j].client_uuid != c
                    && v[j].tap_ip@ == ip@),
        decreases v.len() - i,
    {
        if v[i].net_uuid == n && v[i].client_uuid != c && text::same_text(
            v[i].tap_ip.as_str(),
            ip.as_str(),
        ) {
            proof {
                seqs::lemma_position_is(v.deep_view(), model::uses_ip(c, n, ip@), i as int);
            }
            return Some(i);
        }
        i += 1;
    }
    proof {
        seqs::lemma_position_none(v.deep_view(), model::uses_ip(c, n, ip@));
    }
    None
}

/// The rows of a table as events carry them.
fn route_rows(v: &Vec<RouteEntry>) -> (r: Vec<RouteRow>)
    ensures
        r.deep_view() == v.deep_view(),
{
    let mut out: Vec<RouteRow> = Vec::new();
    let mut i: usize = 0;
    while i < v.len()
        invariant
            0 <= i <= v.len(),
            out.len() == i,
            forall|j: int| 0 <= j < i ==> (#[trigger] out[j]).deep_view() == v[j].deep_view(),
        decreases v.len() - i,
    {
        out.push(RouteRow { dst: v[i].dst.clone(), via: v[i].via.clone() });
        i += 1;
    }
    assert(out.deep_view() =~= v.deep_view());
    out
}

impl Hub {
    /// A member as the admin tools see it.
    fn member_entry(&self, a: &ApprovedClient) -> (r: DeviceEntry)
        ensures
            r.deep_view() == model::member_entry(self.deep_view(), a.deep_view()),
    {
        let live = find::find_session(&self.sessions, a.client_uuid, a.net_uuid);
        let waits = find::find_waiting(&self.pending, a.client_uuid, a.net_uuid).is_some();
        let sid: Option<u64> = match live {
            Some(i) => {
                assert(self.deep_view().sessions[i as int] == self.sessions[i as int].deep_view());
                Some(self.sessions[i].sid.0)
            },
            None => None,
        };
        let tap_name: Option<String> = match live {
            Some(i) => Some(self.sessions[i].tap_name.clone()),
            None => None,
        };
        DeviceEntry {
            client_uuid: a.client_uuid,
            net_uuid: Some(a.net_uuid),
            display_name: a.display_name.clone(),
            admitted: a.admitted,
            tap_ip: device::ip_option(&a.tap_ip),
            lan_subnets: text::copy_texts(&a.lan_subnets),
            online: live.is_some() || waits,
            sid: sid,
            tap_name: tap_name,
        }
    }

    /// A client as the admin tools see it, wherever its row is.
    pub fn build_device_entry(&self, client_uuid: Uuid) -> (r: DeviceEntry)
        ensures
            r.deep_view() == model::client_entry(self.deep_view(), client_uuid),
    {
        let ghost s = self.deep_view();
        let online = self.conn_for_client(client_uuid).is_some();
        match config::find_approved(&self.cfg.approved_clients, client_uuid) {
            Some(i) => {
                assert(s.cfg.approved_clients[i as int]
                    == self.cfg.approved_clients[i as int].deep_view());
                self.member_entry(&self.cfg.approved_clients[i])
            },
            None => match config::find_pending(&self.cfg.pending_clients, client_uuid) {
                Some(i) => {
                    let p = &self.cfg.pending_clients[i];
                    assert(s.cfg.pending_clients[i as int] == p.deep_view());
                    device::unassigned_entry(client_uuid, &p.display_name, &p.lan_subnets, online)
                },
                None => {
                    let none: Vec<String> = Vec::new();
                    assert(none.deep_view() =~= Seq::<Seq<char>>::empty());
                    device::unassigned_entry(client_uuid, &String::new(), &none, online)
                },
            },
        }
    }

    /// A connection of a client that is neither bound nor waiting.
    pub fn unassigned_conn(&self, client_uuid: Uuid) -> (r: Option<ConnId>)
        ensures
            r == match seqs::first_where(
                self.deep_view().conns,
                model::idle_conn(self.deep_view(), client_uuid),
            ) {
                Some(k) => Some(k.id),
                None => None,
            },
    {
        let ghost s = self.deep_view();
        let ghost p = model::idle_conn(s, client_uuid);
        let mut i: usize = 0;
        while i < self.conns.len()
            invariant
                0 <= i <= self.conns.len(),
                s == self.deep_view(),
                p == model::idle_conn(s, client_uuid),
                forall|j: int| 0 <= j < i ==> !p(#[trigger] s.conns[j]),
            decreases self.conns.len() - i,
        {
            assert(s.conns[i as int] == self.conns[i as int].deep_view());
            let k = &self.conns[i];
            if uuids::same_opt_uuid(k.client_uuid, Some(client_uuid)) && k.bound_session.is_none()
                && find::find_waiting_conn(&self.pending, client_uuid, k.id).is_none() {
                proof {
                    seqs::lemma_position_is(s.conns, p, i as int);
                }
                return Some(k.id);
            }
            i += 1;
        }
        proof {
            seqs::lemma_position_none(s.conns, p);
        }
        None
    }

    /// The device list: the members, and, where no network is asked for, the
    /// clients without one.
    pub fn handle_device_list(&self, net_uuid: Option<Uuid>) -> (r: Vec<DeviceEntry>)
        ensures
            r.deep_view() == model::devices(self.deep_view(), net_uuid),
    {
        let ghost s = self.deep_view();
        let rows = keep::rows_listed(&self.cfg.approved_clients, net_uuid);
        let ghost want = model::devices(s, net_uuid);
        let mut out: Vec<DeviceEntry> = Vec::new();
        let mut i: usize = 0;
        while i < rows.len()
            invariant
                0 <= i <= rows.len(),
                s == self.deep_view(),
                rows.deep_view() == s.cfg.approved_clients.filter(model::listed(net_uuid)),
                want == model::devices(s, net_uuid),
                out.len() == i,
                forall|j: int| 0 <= j < i ==> (#[trigger] out[j]).deep_view() == want[j],
            decreases rows.len() - i,
        {
            assert(rows.deep_view()[i as int] == rows[i as int].deep_view());
            let d = self.member_entry(&rows[i]);
            assert(d.deep_view() == want[i as int]);
            out.push(d);
            i += 1;
        }
        if net_uuid.is_none() {
            let ghost n = rows.len() as int;
            let mut k: usize = 0;
            while k < self.cfg.pending_clients.len()
                invariant
                    0 <= k <= self.cfg.pending_clients.len(),
                    s == self.deep_view(),
                    n == s.cfg.approved_clients.filter(model::listed(net_uuid)).len(),
                    net_uuid is None,
                    want == model::devices(s, net_uuid),
                    out.len() == n + k,
                    forall|j: int| 0 <= j < n + k ==> (#[trigger] out[j]).deep_view() == want[j],
                decreases self.cfg.pending_clients.len() - k,
            {
                let p = &self.cfg.pending_clients[k];
                assert(s.cfg.pending_clients[k as int] == p.deep_view());
                let online = self.unassigned_conn(p.client_uuid).is_some();
                let d = device::unassigned_entry(
                    p.client_uuid,
                    &p.display_name,
                    &p.lan_subnets,
                    online,
                );
                assert(d.deep_view() == want[n + k]);
                out.push(d);
                k += 1;
            }
        }
        assert(out.deep_view() =~= want);
        out
    }

    /// The networks whose members should be told a new routing table.
    pub fn routes_dirty_set(&self) -> (r: Vec<Uuid>)
        ensures
            r@ == model::dirty_nets(self.deep_view()),
    {
        let ghost all = self.routes_dirty@;
        let ghost f = |d: crate::hub::DirtyFlag| d.net;
        let mut out: Vec<Uuid> = Vec::new();
        let mut i: usize = 0;
        proof {
            seqs::lemma_filter_start(all, model::raised());
        }
        assert(out@ =~= all.take(0).filter(model::raised()).map_values(f));
        while i < self.routes_dirty.len()
            invariant
                0 <= i <= self.routes_dirty.len(),
                all == self.routes_dirty@,
                f == (|d: crate::hub::DirtyFlag| d.net),
                out@ == all.take(i as int).filter(model::raised()).map_values(f),
            decreases self.routes_dirty.len() - i,
        {
            proof {
                seqs::lemma_filter_step(all, model::raised(), i as int);
            }
            if self.routes_dirty[i].dirty {
                out.push(self.routes_dirty[i].net);
                assert(out@ =~= all.take(i + 1).filter(model::raised()).map_values(f));
            }
            i += 1;
        }
        assert(all.take(i as int) =~= all);
        out
    }

    /// The snapshot behind `list`.
    pub fn handle_list(&self) -> (r: HubSnapshot)
        ensures
            r.deep_view() == model::snapshot(self.deep_view()),
    {
        let mut sessions: Vec<SessionInfo> = Vec::new();
        let mut i: usize = 0;
        while i < self.sessions.len()
            invariant
                0 <= i <= self.sessions.len(),
                sessions.len() == i,
                forall|j: int|
                    0 <= j < i ==> (#[trigger] sessions[j]).deep_view()
                        == self.sessions[j].deep_view(),
            decreases self.sessions.len() - i,
        {
            sessions.push(self.sessions[i].copy());
            i += 1;
        }
        assert(sessions.deep_view() =~= self.sessions.deep_view());
        let mut pending: Vec<PendingInfo> = Vec::new();
        let mut k: usize = 0;
        while k < self.pending.len()
            invariant
                0 <= k <= self.pending.len(),
                pending@ == self.pending@.take(k as int),
            decreases self.pending.len() - k,
        {
            pending.push(self.pending[k]);
            assert(pending@ =~= self.pending@.take(k + 1));
            k += 1;
        }
        assert(pending@ =~= self.pending@);
        HubSnapshot {
            networks: config::copy_nets(&self.cfg.networks),
            sessions: sessions,
            pending: pending,
            routes_dirty: self.routes_dirty_set(),
        }
    }

    /// Ends the session that a client has in the network it leaves, and lets
    /// nothing of it wait there.
    fn leave_net(&mut self, c: Uuid, old_net: Uuid, out: &mut Vec<HubAction>)
        ensures
            final(self).deep_view() == (HubView {
                pending: old(self).deep_view().pending.filter(model::waits_not_for(c, old_net)),
                ..old(self).deep_view()
            }),
            final(out).deep_view() == old(out).deep_view() + match old(self).deep_view().session(
                c,
                old_net,
            ) {
                Some(x) => seq![ActionView::ToSession { sid: x.sid, note: SessionNote::Kill }],
                None => Seq::empty(),
            },
    {
        let ghost s = self.deep_view();
        let ghost start = out.deep_view();
        match find::find_session(&self.sessions, c, old_net) {
            Some(k) => {
                assert(s.sessions[k as int] == self.sessions[k as int].deep_view());
                tables::act(
                    out,
                    HubAction::ToSession { sid: self.sessions[k].sid, note: SessionNote::Kill },
                );
            },
            None => {},
        }
        assert(out.deep_view() =~= start + match s.session(c, old_net) {
            Some(x) => seq![ActionView::ToSession { sid: x.sid, note: SessionNote::Kill }],
            None => Seq::empty(),
        });
        self.pending = keep::waiting_not_for(&self.pending, c, old_net);
    }

    /// Replaces the rows of a client by one among the members of a network, or
    /// among the clients without one.
    fn move_row(&mut self, c: Uuid, e: &DeviceEntry, target: Option<Uuid>)
        ensures
            final(self).deep_view() == (HubView {
                cfg: model::moved_cfg(
                    old(self).deep_view().cfg,
                    c,
                    e.deep_view().display_name,
                    e.deep_view().lan_subnets,
                    target,
                ),
                ..old(self).deep_view()
            }),
    {
        self.cfg.approved_clients = keep::rows_not_of(&self.cfg.approved_clients, c);
        self.cfg.pending_clients = keep::pool_not_of(&self.cfg.pending_clients, c);
        let ghost rows = self.cfg.approved_clients.deep_view();
        let ghost others = self.cfg.pending_clients.deep_view();
        match target {
            Some(n) => {
                let new = ApprovedClient {
                    client_uuid: c,
                    net_uuid: n,
                    tap_ip: String::new(),
                    display_name: e.display_name.clone(),
                    lan_subnets: text::copy_texts(&e.lan_subnets),
                    admitted: false,
                };
                self.cfg.approved_clients.push(new);
                assert(self.cfg.approved_clients.deep_view() =~= rows.push(new.deep_view()));
            },
            None => {
                let new = PendingClient {
                    client_uuid: c,
                    display_name: e.display_name.clone(),
                    lan_subnets: text::copy_texts(&e.lan_subnets),
                };
                self.cfg.pending_clients.push(new);
                assert(self.cfg.pending_clients.deep_view() =~= others.push(new.deep_view()));
            },
        }
    }

    /// A client is moved to a network, or to none. What was configured of it
    /// goes along; admission and address do not.
    #[verifier::rlimit(60)]
    pub fn handle_assign_client(&mut self, client_uuid: Uuid, new_net: Option<Uuid>) -> (r: (
        Vec<HubAction>,
        AssignClientResult,
    ))
        ensures
            final(self).deep_view() == model::assign_step(
                old(self).deep_view(),
                client_uuid,
                new_net,
            ).0.0,
            r.0.deep_view() == model::assign_step(
                old(self).deep_view(),
                client_uuid,
                new_net,
            ).0.1,
            r.1.deep_view() == model::assign_step(old(self).deep_view(), client_uuid, new_net).1,
    {
        let ghost s = self.deep_view();
        let ghost c = client_uuid;
        let mut out = tables::no_actions();
        match new_net {
            Some(n) => {
                if !self.network_exists(n) {
                    return (out, AssignClientResult::UnknownNetwork);
                }
            },
            None => {},
        }
        let row = config::find_approved(&self.cfg.approved_clients, client_uuid);
        let pool = config::find_pending(&self.cfg.pending_clients, client_uuid);
        let conn = self.conn_for_client(client_uuid);
        if row.is_none() && pool.is_none() && conn.is_none() {
            return (out, AssignClientResult::NotFound);
        }
        let current = self.assigned_net(client_uuid);
        let e = self.build_device_entry(client_uuid);
        if uuids::same_opt_uuid(current, new_net) {
            return (out, AssignClientResult::Assigned(e));
        }
        match current {
            Some(o) => {
                self.leave_net(client_uuid, o, &mut out);
            },
            None => {},
        }
        self.move_row(client_uuid, &e, new_net);
        tables::act(&mut out, HubAction::Persist);
        match conn {
            Some(id) => {
                tables::act(
                    &mut out,
                    HubAction::Send { conn: id, frame: Frame::AssignNet { net_uuid: new_net } },
                );
                tables::act(&mut out, HubAction::Bind { conn: id, session: None });
                self.set_bound(id, None);
            },
            None => {},
        }
        self.sync_local_routes(&mut out);
        match current {
            Some(o) => {
                self.recheck_routes_dirty(o, &mut out);
            },
            None => {},
        }
        match new_net {
            Some(n) => {
                self.recheck_routes_dirty(n, &mut out);
            },
            None => {},
        }
        let mut d = device::unassigned_entry(
            client_uuid,
            &e.display_name,
            &e.lan_subnets,
            conn.is_some(),
        );
        d.net_uuid = new_net;
        let network: Uuid = match new_net {
            Some(n) => n,
            None => Uuid::nil(),
        };
        tables::act(
            &mut out,
            HubAction::Emit(HubEvent::DeviceChanged { network: network, device: d.copy() }),
        );
        assert(out.deep_view() =~= model::assign_step(s, c, new_net).0.1);
        (out, AssignClientResult::Assigned(d))
    }

    /// Name and subnets of a client without a network change. `None` where
    /// there is no such client, or a subnet is malformed.
    pub fn handle_patch_pending_client(
        &mut self,
        client_uuid: Uuid,
        name: Option<String>,
        lan_subnets: Option<Vec<String>>,
    ) -> (r: (Vec<HubAction>, Option<DeviceEntry>))
        ensures
            final(self).deep_view() == model::patch_step(
                old(self).deep_view(),
                client_uuid,
                name.deep_view(),
                lan_subnets.deep_view(),
            ).0.0,
            r.0.deep_view() == model::patch_step(
                old(self).deep_view(),
                client_uuid,
                name.deep_view(),
                lan_subnets.deep_view(),
            ).0.1,
            r.1.deep_view() == model::patch_step(
                old(self).deep_view(),
                client_uuid,
                name.deep_view(),
                lan_subnets.deep_view(),
            ).1,
    {
        let ghost s = self.deep_view();
        let ghost (gn, gs) = (name.deep_view(), lan_subnets.deep_view());
        let mut out = tables::no_actions();
        match &lan_subnets {
            Some(v) => {
                if !valid_subnets(v) {
                    return (out, None);
                }
            },
            None => {},
        }
        let i: usize = match config::find_pending(&self.cfg.pending_clients, client_uuid) {
            Some(i) => i,
            None => {
                return (out, None);
            },
        };
        let p = &self.cfg.pending_clients[i];
        assert(s.cfg.pending_clients[i as int] == p.deep_view());
        let new = PendingClient {
            client_uuid: p.client_uuid,
            display_name: match name {
                Some(n) => n,
                None => p.display_name.clone(),
            },
            lan_subnets: match lan_subnets {
                Some(v) => v,
                None => text::copy_texts(&p.lan_subnets),
            },
        };
        let online = self.conn_for_client(client_uuid).is_some();
        let d = device::unassigned_entry(client_uuid, &new.display_name, &new.lan_subnets, online);
        self.cfg.pending_clients.set(i, new);
        assert(self.cfg.pending_clients.deep_view() =~= s.cfg.pending_clients.update(
            i as int,
            new.deep_view(),
        ));
        tables::act(&mut out, HubAction::Persist);
        tables::act(
            &mut out,
            HubAction::Emit(HubEvent::DeviceChanged { network: Uuid::nil(), device: d.copy() }),
        );
        assert(out.deep_view() =~= model::patch_step(s, client_uuid, gn, gs).0.1);
        (out, Some(d))
    }

    /// Why a change to a member is refused, if it is.
    fn refuse(&self, c: Uuid, n: Uuid, u: &DeviceUpdate) -> (r: Option<DeviceSetResult>)
        ensures
            r.deep_view() == model::refused(self.deep_view(), c, n, u.deep_view()),
    {
        let ghost s = self.deep_view();
        match &u.tap_ip {
            Some(ip) => {
                if !ip.as_str().is_empty() {
                    if IpNet::parse(ip.as_str()).is_none() && IpAddr::parse(
                        ip.as_str(),
                    ).is_none() {
                        return Some(DeviceSetResult::InvalidIp);
                    }
                    match find_holder(&self.cfg.approved_clients, c, n, ip) {
                        Some(i) => {
                            assert(s.cfg.approved_clients[i as int]
                                == self.cfg.approved_clients[i as int].deep_view());
                            let who = self.cfg.approved_clients[i].client_uuid.short();
                            let m = text::join3("tap_ip ", ip.as_str(), " already used by ");
                            let msg = text::join2(m.as_str(), who.as_str());
                            return Some(DeviceSetResult::Conflict { msg: msg });
                        },
                        None => {},
                    }
                }
            },
            None => {},
        }
        match &u.lan_subnets {
            Some(v) => {
                if !valid_subnets(v) {
                    return Some(DeviceSetResult::InvalidIp);
                }
            },
            None => {},
        }
        if find::find_pair(&self.cfg.approved_clients, c, n).is_none() {
            return Some(DeviceSetResult::NotFound);
        }
        None
    }

    /// Writes a change into a row.
    fn update_row(&mut self, i: usize, u: DeviceUpdate)
        requires
            i < old(self).cfg.approved_clients.len(),
        ensures
            final(self).deep_view() == (HubView {
                cfg: ServerConfigView {
                    approved_clients: old(self).deep_view().cfg.approved_clients.update(
                        i as int,
                        model::updated_row(
                            old(self).deep_view().cfg.approved_clients[i as int],
                            u.deep_view(),
                        ),
                    ),
                    ..old(self).deep_view().cfg
                },
                ..old(self).deep_view()
            }),
    {
        let ghost rows = self.deep_view().cfg.approved_clients;
        let a = &self.cfg.approved_clients[i];
        assert(rows[i as int] == a.deep_view());
        let ghost gu = u.deep_view();
        let new = ApprovedClient {
            client_uuid: a.client_uuid,
            net_uuid: a.net_uuid,
            tap_ip: match u.tap_ip {
                Some(ip) => ip,
                None => a.tap_ip.clone(),
            },
            display_name: match u.name {
                Some(n) => n,
                None => a.display_name.clone(),
            },
            lan_subnets: match u.lan_subnets {
                Some(v) => v,
                None => text::copy_texts(&a.lan_subnets),
            },
            admitted: match u.admitted {
                Some(b) => b,
                None => a.admitted,
            },
        };
        assert(new.deep_view() == model::updated_row(rows[i as int], gu));
        self.cfg.approved_clients.set(i, new);
        assert(self.cfg.approved_clients.deep_view() =~= rows.update(i as int, new.deep_view()));
    }

    /// The session of a member is told its new address, and the kernel routes
    /// follow.
    fn readdress(&mut self, c: Uuid, n: Uuid, ip: &String, out: &mut Vec<HubAction>)
        ensures
            final(self).deep_view() == model::readdress_step(
                old(self).deep_view(),
                c,
                n,
                ip@,
            ).0,
            final(out).deep_view() == old(out).deep_view() + model::readdress_step(
                old(self).deep_view(),
                c,
                n,
                ip@,
            ).1,
    {
        let ghost s = self.deep_view();
        let ghost start = out.deep_view();
        let told = device::ip_option(ip);
        match find::find_session(&self.sessions, c, n) {
            Some(k) => {
                assert(s.sessions[k as int] == self.sessions[k as int].deep_view());
                let conn = self.sessions[k].bound_conn;
                nets::send_set_ip(self, conn, &told, out);
            },
            None => {},
        }
        self.set_session_ip(c, n, told);
        self.sync_local_routes(out);
        assert(out.deep_view() =~= start + model::readdress_step(s, c, n, ip@).1);
    }

    /// Forgets a connection.
    fn forget_conn(&mut self, id: ConnId)
        ensures
            final(self).deep_view() == (HubView {
                conns: model::without_conn(old(self).deep_view().conns, id),
                ..old(self).deep_view()
            }),
    {
        let ghost before = self.deep_view().conns;
        match find::find_conn(&self.conns, id) {
            Some(i) => {
                self.conns.remove(i);
                assert(self.conns.deep_view() =~= before.remove(i as int));
            },
            None => {},
        }
    }

    /// A member loses its admission: its session ends and its connection is
    /// dropped.
    fn kick(&mut self, c: Uuid, n: Uuid, out: &mut Vec<HubAction>)
        ensures
            final(self).deep_view() == model::kick_step(old(self).deep_view(), c, n).0,
            final(out).deep_view() == old(out).deep_view() + model::kick_step(
                old(self).deep_view(),
                c,
                n,
            ).1,
    {
        let ghost s = self.deep_view();
        let ghost start = out.deep_view();
        match find::find_session(&self.sessions, c, n) {
            Some(k) => {
                assert(s.sessions[k as int] == self.sessions[k as int].deep_view());
                tables::act(
                    out,
                    HubAction::ToSession { sid: self.sessions[k].sid, note: SessionNote::Kill },
                );
                match self.sessions[k].bound_conn {
                    Some(id) => {
                        self.forget_conn(id);
                        tables::act(out, HubAction::DropConn { conn: id });
                    },
                    None => {},
                }
            },
            None => {},
        }
        match find::find_waiting(&self.pending, c, n) {
            Some(i) => {
                let id = self.pending[i].conn;
                self.pending.remove(i);
                self.forget_conn(id);
                tables::act(out, HubAction::DropConn { conn: id });
            },
            None => {},
        }
        assert(out.deep_view() =~= start + model::kick_step(s, c, n).1);
    }

    fn finish_set(&mut self, c: Uuid, n: Uuid, out: &mut Vec<HubAction>) -> (r: DeviceSetResult)
        ensures
            final(self).deep_view() == model::finish_set_step(old(self).deep_view(), c, n).0.0,
            final(out).deep_view() == old(out).deep_view() + model::finish_set_step(
                old(self).deep_view(),
                c,
                n,
            ).0.1,
            r.deep_view() == model::finish_set_step(old(self).deep_view(), c, n).1,
    {
        let ghost s = self.deep_view();
        let ghost start = out.deep_view();
        match find::find_pair(&self.cfg.approved_clients, c, n) {
            None => {
                assert(start + model::finish_set_step(s, c, n).0.1 =~= start);
                DeviceSetResult::NotFound
            },
            Some(i) => {
                assert(s.cfg.approved_clients[i as int]
                    == self.cfg.approved_clients[i as int].deep_view());
                let d = self.member_entry(&self.cfg.approved_clients[i]);
                tables::act(
                    out,
                    HubAction::Emit(HubEvent::DeviceChanged { network: n, device: d.copy() }),
                );
                self.recheck_routes_dirty(n, out);
                assert(out.deep_view() =~= start + model::finish_set_step(s, c, n).0.1);
                DeviceSetResult::Updated(d)
            },
        }
    }

    /// One member is changed. Admitting a client that waits requests a TAP
    /// for it; withdrawing admission ends its session.
    pub fn handle_device_set(
        &mut self,
        client_uuid: Uuid,
        net_uuid: Uuid,
        update: DeviceUpdate,
    ) -> (r: (Vec<HubAction>, DeviceSetStep))
        ensures
            final(self).deep_view() == model::device_set_step(
                old(self).deep_view(),
                client_uuid,
                net_uuid,
                update.deep_view(),
            ).0.0,
            r.0.deep_view() == model::device_set_step(
                old(self).deep_view(),
                client_uuid,
                net_uuid,
                update.deep_view(),
            ).0.1,
            r.1.deep_view() == model::device_set_step(
                old(self).deep_view(),
                client_uuid,
                net_uuid,
                update.deep_view(),
            ).1,
    {
        let ghost s = self.deep_view();
        let ghost u = update.deep_view();
        let mut out = tables::no_actions();
        match self.refuse(client_uuid, net_uuid, &update) {
            Some(r) => {
                return (out, DeviceSetStep::Done(r));
            },
            None => {},
        }
        let i: usize = match find::find_pair(&self.cfg.approved_clients, client_uuid, net_uuid) {
            Some(i) => i,
            None => {
                return (out, DeviceSetStep::Done(DeviceSetResult::NotFound));
            },
        };
        assert(s.cfg.approved_clients[i as int]
            == self.cfg.approved_clients[i as int].deep_view());
        let was_admitted = self.cfg.approved_clients[i].admitted;
        let old_ip = self.cfg.approved_clients[i].tap_ip.clone();
        self.update_row(i, update);
        let ghost new = model::updated_row(s.cfg.approved_clients[i as int], u);
        assert(self.deep_view().cfg.approved_clients[i as int] == new);
        assert(self.cfg.approved_clients.len() == self.deep_view().cfg.approved_clients.len());
        assert(self.cfg.approved_clients[i as int].deep_view() == new);
        let now_admitted = self.cfg.approved_clients[i].admitted;
        let new_ip = self.cfg.approved_clients[i].tap_ip.clone();
        tables::act(&mut out, HubAction::Persist);
        if !text::same_text(old_ip.as_str(), new_ip.as_str()) {
            self.readdress(client_uuid, net_uuid, &new_ip, &mut out);
        }
        let ghost v = self.deep_view();
        let ghost before = out.deep_view();
        if !was_admitted && now_admitted {
            match find::find_waiting(&self.pending, client_uuid, net_uuid) {
                Some(k) => {
                    let conn = self.pending[k].conn;
                    self.pending.remove(k);
                    let sid = self.ids.next_session();
                    if self.has_conn(conn) {
                        let a = self.request_tap(sid, conn, client_uuid, net_uuid);
                        assert(out.deep_view() =~= model::device_set_step(
                            s,
                            client_uuid,
                            net_uuid,
                            u,
                        ).0.1);
                        return (out, DeviceSetStep::Approve(a));
                    }
                },
                None => {},
            }
        } else if was_admitted && !now_admitted {
            self.kick(client_uuid, net_uuid, &mut out);
        }
        let r = self.finish_set(client_uuid, net_uuid, &mut out);
        assert(out.deep_view() =~= model::device_set_step(s, client_uuid, net_uuid, u).0.1);
        (out, DeviceSetStep::Done(r))
    }

    /// The change to a member is complete: the subscribers are told.
    pub fn finish_device_set(&mut self, client_uuid: Uuid, net_uuid: Uuid) -> (r: (
        Vec<HubAction>,
        DeviceSetResult,
    ))
        ensures
            final(self).deep_view() == model::finish_set_step(
                old(self).deep_view(),
                client_uuid,
                net_uuid,
            ).0.0,
            r.0.deep_view() == model::finish_set_step(
                old(self).deep_view(),
                client_uuid,
                net_uuid,
            ).0.1,
            r.1.deep_view() == model::finish_set_step(
                old(self).deep_view(),
                client_uuid,
                net_uuid,
            ).1,
    {
        let ghost s = self.deep_view();
        let mut out = tables::no_actions();
        let r = self.finish_set(client_uuid, net_uuid, &mut out);
        assert(out.deep_view() =~= model::finish_set_step(s, client_uuid, net_uuid).0.1);
        (out, r)
    }

    /// A network's table is derived, installed and sent to its members. Hand
    /// the table and the number of members that received it to
    /// [`Hub::finish_device_push`].
    pub fn handle_device_push(&self, net_uuid: Uuid) -> (r: (Vec<HubAction>, Vec<RouteEntry>))
        ensures
            r.0.deep_view() == model::push_actions(self.deep_view(), net_uuid),
            r.1.deep_view() == routes::derived(
                self.deep_view().cfg.approved_clients,
                net_uuid,
            ),
    {
        let ghost s = self.deep_view();
        let table = routes::derive_routes_for_network(&self.cfg, net_uuid);
        let ghost g = table.deep_view();
        let mut out = tables::no_actions();
        self.sync_local_routes(&mut out);
        let ghost start = out.deep_view();
        assert(start =~= model::sync_routes(s));
        let mut i: usize = 0;
        assert(s.sessions.take(0) =~= Seq::empty());
        assert(start + model::push_frames(s, net_uuid, g, s.sessions.take(0)) =~= start);
        while i < self.sessions.len()
            invariant
                0 <= i <= self.sessions.len(),
                s == self.deep_view(),
                g == table.deep_view(),
                out.deep_view() == start + model::push_frames(
                    s,
                    net_uuid,
                    g,
                    s.sessions.take(i as int),
                ),
            decreases self.sessions.len() - i,
        {
            let ghost before = out.deep_view();
            proof {
                assert(s.sessions[i as int] == self.sessions[i as int].deep_view());
                assert(s.sessions.take(i + 1).drop_last() =~= s.sessions.take(i as int));
                assert(s.sessions.take(i + 1).last() == s.sessions[i as int]);
            }
            let x = &self.sessions[i];
            if x.net_uuid == net_uuid {
                match x.bound_conn {
                    Some(id) => {
                        if self.has_conn(id) {
                            let peer: Option<&str> = match &x.tap_ip {
                                Some(t) => Some(t.as_str()),
                                None => None,
                            };
                            let filtered = routes::filter_for_peer(&table, peer);
                            tables::act(
                                &mut out,
                                HubAction::Send { conn: id, frame: Frame::SetRoutes(filtered) },
                            );
                        }
                    },
                    None => {},
                }
            }
            assert(out.deep_view() =~= start + model::push_frames(
                s,
                net_uuid,
                g,
                s.sessions.take(i + 1),
            ));
            i += 1;
        }
        assert(s.sessions.take(i as int) =~= s.sessions);
        (out, table)
    }

    /// `count` members received the table: it now counts as told.
    pub fn finish_device_push(&mut self, net_uuid: Uuid, table: &Vec<RouteEntry>, count: u64) -> (r:
        Vec<HubAction>)
        ensures
            final(self).deep_view() == model::finish_push_step(
                old(self).deep_view(),
                net_uuid,
                table.deep_view(),
                count,
            ).0,
            r.deep_view() == model::finish_push_step(
                old(self).deep_view(),
                net_uuid,
                table.deep_view(),
                count,
            ).1,
    {
        let ghost s = self.deep_view();
        let mut out = tables::no_actions();
        tables::act(
            &mut out,
            HubAction::Emit(
                HubEvent::RoutesChanged {
                    network: net_uuid,
                    routes: route_rows(table),
                    count: count,
                },
            ),
        );
        self.put_pushed(net_uuid, frame::copy_routes(table));
        self.recheck_routes_dirty(net_uuid, &mut out);
        assert(out.deep_view() =~= model::finish_push_step(
            s,
            net_uuid,
            table.deep_view(),
            count,
        ).1);
        out
    }
}

} // verus!
