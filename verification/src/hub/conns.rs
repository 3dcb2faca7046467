//! Connections, joining, and the life of sessions.
use vstd::prelude::*;
use vstd::string::*;

use crate::config;
use crate::config::{ApprovedClient, ApprovedView, PendingClient};
use crate::device;
use crate::device::DeviceEntry;
use crate::events::HubEvent;
use crate::frame::Frame;
use crate::hub::find;
use crate::hub::model;
use crate::hub::model::HubView;
use crate::hub::tables;
use crate::hub::{
    Approval, ConnEntry, ConnView, Hub, HubAction, PendingInfo, SessionInfo, SessionNote,
    SessionView, TapOutcome,
};
use crate::ids::{ConnId, SessionId};
use crate::seqs;
use crate::text;
use crate::uuids::Uuid;

verus! {

/// The kernel name of a client's TAP.
pub fn tap_name_from_uuid(client: Uuid) -> (r: String)
    ensures
        r@ == model::tap_name_chars(client),
{
    let s = client.short();
    text::join2("tap", s.as_str())
}

/// A TAP name without its `tap` prefix.
pub fn strip_tap_prefix(name: &str) -> (r: String)
    ensures
        r@ == model::tap_suffix(name@),
{
    if text::begins_with(name, "tap") {
        let n: usize = name.unicode_len();
        let k: usize = "tap".unicode_len();
        let r = name.substring_char(k, n);
        assert(r@ =~= name@.skip("tap"@.len() as int));
        r.to_owned()
    } else {
        name.to_owned()
    }
}

fn deny(conn: ConnId, reason: String, out: &mut Vec<HubAction>)
    ensures
        final(out).deep_view() == old(out).deep_view() + model::deny(conn, reason@),
{
    let ghost start = out.deep_view();
    tables::act(out, HubAction::Send { conn: conn, frame: Frame::JoinDeny { reason: reason } });
    assert(out.deep_view() =~= start + model::deny(conn, reason@));
}

impl Hub {
    /// A connection was accepted.
    pub fn handle_new_conn(&mut self, addr: String) -> (r: ConnId)
        ensures
            r == ConnId(old(self).deep_view().next_id),
            final(self).deep_view() == model::new_conn_step(old(self).deep_view(), addr@),
    {
        let ghost s = self.deep_view();
        let id = self.ids.next_conn();
        let e = ConnEntry { id: id, addr: addr, client_uuid: None, bound_session: None };
        match find::find_conn(&self.conns, id) {
            Some(i) => {
                self.conns.set(i, e);
                assert(self.conns.deep_view() =~= s.conns.update(i as int, e.deep_view()));
            },
            None => {
                self.conns.push(e);
                assert(self.conns.deep_view() =~= s.conns.push(e.deep_view()));
            },
        }
        id
    }

    /// Replaces the binding of a connection.
    pub(crate) fn set_bound(&mut self, id: ConnId, b: Option<SessionId>)
        ensures
            final(self).deep_view() == (HubView {
                conns: model::with_bound(old(self).deep_view().conns, id, b),
                ..old(self).deep_view()
            }),
    {
        let ghost s = self.deep_view();
        match find::find_conn(&self.conns, id) {
            Some(i) => {
                self.conns[i].bound_session = b;
                assert(self.conns.deep_view() =~= model::with_bound(s.conns, id, b));
            },
            None => {},
        }
    }

    /// A live connection of a client.
    pub(crate) fn conn_for_client(&self, c: Uuid) -> (r: Option<ConnId>)
        ensures
            r == self.deep_view().conn_for(c),
    {
        match find::find_conn_of(&self.conns, c) {
            Some(i) => {
                assert(self.deep_view().conns[i as int] == self.conns[i as int].deep_view());
                Some(self.conns[i].id)
            },
            None => None,
        }
    }

    /// The network that a client is a member of.
    pub(crate) fn assigned_net(&self, c: Uuid) -> (r: Option<Uuid>)
        ensures
            r == self.deep_view().assigned_net(c),
    {
        match config::find_approved(&self.cfg.approved_clients, c) {
            Some(i) => {
                assert(self.deep_view().cfg.approved_clients[i as int]
                    == self.cfg.approved_clients[i as int].deep_view());
                Some(self.cfg.approved_clients[i].net_uuid)
            },
            None => None,
        }
    }

    /// A client introduced itself. The version was looked at when the frame
    /// came in.
    pub fn handle_hello(&mut self, conn: ConnId, client_uuid: Uuid, version: u16) -> (r: Vec<
        HubAction,
    >)
        ensures
            final(self).deep_view() == model::hello_step(
                old(self).deep_view(),
                conn,
                client_uuid,
            ).0,
            r.deep_view() == model::hello_step(old(self).deep_view(), conn, client_uuid).1,
    {
        let ghost s = self.deep_view();
        let mut out = tables::no_actions();
        match find::find_conn(&self.conns, conn) {
            Some(i) => {
                self.conns[i].client_uuid = Some(client_uuid);
                assert(self.conns.deep_view() =~= s.conns.update(
                    i as int,
                    (ConnView { client: Some(client_uuid), ..s.conns[i as int] }),
                ));
            },
            None => {},
        }
        let ghost t = self.deep_view();
        let in_pool = config::find_pending(&self.cfg.pending_clients, client_uuid);
        let known = config::find_approved(&self.cfg.approved_clients, client_uuid).is_some()
            || in_pool.is_some();
        let assigned = self.assigned_net(client_uuid);
        if !known {
            let p = PendingClient {
                client_uuid: client_uuid,
                display_name: String::new(),
                lan_subnets: Vec::new(),
            };
            let d = device::unassigned_entry(client_uuid, &p.display_name, &p.lan_subnets, true);
            proof {
                assert(p.lan_subnets.deep_view() =~= Seq::<Seq<char>>::empty());
            }
            self.cfg.pending_clients.push(p);
            proof {
                assert(self.cfg.pending_clients.deep_view() =~= s.cfg.pending_clients.push(
                    p.deep_view(),
                ));
            }
            tables::act(&mut out, HubAction::Persist);
            tables::act(
                &mut out,
                HubAction::Emit(HubEvent::DevicePending { network: Uuid::nil(), device: d }),
            );
        } else {
            match in_pool {
                Some(i) => {
                    let p = &self.cfg.pending_clients[i];
                    assert(s.cfg.pending_clients[i as int] == p.deep_view());
                    let d = device::unassigned_entry(
                        client_uuid,
                        &p.display_name,
                        &p.lan_subnets,
                        true,
                    );
                    tables::act(
                        &mut out,
                        HubAction::Emit(HubEvent::DeviceChanged { network: Uuid::nil(), device: d }),
                    );
                },
                None => {},
            }
        }
        if self.has_conn(conn) {
            proof {
                self.lemma_same_conn_ids(s, conn);
            }
            tables::act(
                &mut out,
                HubAction::Send { conn: conn, frame: Frame::AssignNet { net_uuid: assigned } },
            );
        } else {
            proof {
                self.lemma_same_conn_ids(s, conn);
            }
        }
        assert(out.deep_view() =~= model::hello_step(s, conn, client_uuid).1);
        out
    }

    /// Naming the client of a connection does not change which connections
    /// there are.
    proof fn lemma_same_conn_ids(&self, s: HubView, conn: ConnId)
        requires
            self.deep_view().conns.len() == s.conns.len(),
            forall|i: int|
                0 <= i < s.conns.len() ==> (#[trigger] self.deep_view().conns[i]).id
                    == s.conns[i].id,
        ensures
            self.deep_view().has_conn(conn) == s.has_conn(conn),
    {
        let a = self.deep_view().conns;
        seqs::lemma_position(a, model::conn_is(conn));
        seqs::lemma_position(s.conns, model::conn_is(conn));
        if s.has_conn(conn) {
            let i = seqs::position(s.conns, model::conn_is(conn))->0;
            assert(a[i].id == s.conns[i].id);
        }
        if self.deep_view().has_conn(conn) {
            let i = seqs::position(a, model::conn_is(conn))->0;
            assert(a[i].id == s.conns[i].id);
        }
    }

    /// Splits off what a connection waits for.
    fn release_waiting(&mut self, conn: ConnId, out: &mut Vec<HubAction>)
        ensures
            final(self).deep_view() == (HubView {
                pending: old(self).deep_view().pending.filter(model::waits_not_on(conn)),
                ..old(self).deep_view()
            }),
            final(out).deep_view() == old(out).deep_view() + model::offline_events(
                old(self).deep_view().pending.filter(model::waits_on(conn)),
            ),
    {
        let ghost all = self.pending@;
        let ghost start = out.deep_view();
        let mut kept: Vec<PendingInfo> = Vec::new();
        let mut i: usize = 0;
        proof {
            seqs::lemma_filter_start(all, model::waits_on(conn));
            seqs::lemma_filter_start(all, model::waits_not_on(conn));
            assert(start + model::offline_events(all.take(0).filter(model::waits_on(conn)))
                =~= start);
        }
        while i < self.pending.len()
            invariant
                0 <= i <= self.pending.len(),
                all == self.pending@,
                self.deep_view() == old(self).deep_view(),
                kept@ == all.take(i as int).filter(model::waits_not_on(conn)),
                out.deep_view() == start + model::offline_events(
                    all.take(i as int).filter(model::waits_on(conn)),
                ),
            decreases self.pending.len() - i,
        {
            let p = self.pending[i];
            proof {
                seqs::lemma_filter_step(all, model::waits_on(conn), i as int);
                seqs::lemma_filter_step(all, model::waits_not_on(conn), i as int);
            }
            if p.conn == conn {
                tables::act(
                    out,
                    HubAction::Emit(
                        HubEvent::DeviceOffline { network: p.net_uuid, client_uuid: p.client_uuid },
                    ),
                );
                assert(out.deep_view() =~= start + model::offline_events(
                    all.take(i + 1).filter(model::waits_on(conn)),
                ));
            } else {
                kept.push(p);
            }
            i += 1;
        }
        assert(all.take(i as int) =~= all);
        self.pending = kept;
    }

    /// A connection ended.
    pub fn handle_disconnect(&mut self, conn: ConnId) -> (r: Vec<HubAction>)
        ensures
            final(self).deep_view() == model::disconnect_step(old(self).deep_view(), conn).0,
            r.deep_view() == model::disconnect_step(old(self).deep_view(), conn).1,
    {
        let ghost s = self.deep_view();
        let mut out = tables::no_actions();
        let i: usize = match find::find_conn(&self.conns, conn) {
            Some(i) => i,
            None => {
                return out;
            },
        };
        let e = self.conns.remove(i);
        proof {
            assert(s.conns[i as int] == e.deep_view());
            assert(self.conns.deep_view() =~= s.conns.remove(i as int));
        }
        match e.bound_session {
            Some(sid) => match find::find_session_id(&self.sessions, sid) {
                Some(k) => {
                    let hit = match self.sessions[k].bound_conn {
                        Some(c) => c == conn,
                        None => false,
                    };
                    assert(s.sessions[k as int] == self.sessions[k as int].deep_view());
                    let ghost before = self.sessions.deep_view();
                    if hit {
                        self.sessions[k].bound_conn = None;
                        assert(self.sessions.deep_view() =~= before.update(
                            k as int,
                            (SessionView { bound_conn: None, ..before[k as int] }),
                        ));
                    }
                    proof {
                        seqs::lemma_position(s.sessions, model::session_is(sid));
                    }
                    tables::act(
                        &mut out,
                        HubAction::ToSession { sid: sid, note: SessionNote::Unbind },
                    );
                },
                None => {},
            },
            None => {},
        }
        self.release_waiting(conn, &mut out);
        match e.client_uuid {
            Some(c) => {
                if config::find_pending(&self.cfg.pending_clients, c).is_some() {
                    tables::act(
                        &mut out,
                        HubAction::Emit(
                            HubEvent::DeviceOffline { network: Uuid::nil(), client_uuid: c },
                        ),
                    );
                }
            },
            None => {},
        }
        assert(out.deep_view() =~= model::disconnect_step(s, conn).1);
        out
    }

    /// A returning client takes its session up again.
    fn rebind(&mut self, conn: ConnId, c: Uuid, n: Uuid, i: usize, out: &mut Vec<HubAction>)
        requires
            seqs::position(old(self).deep_view().sessions, model::session_of(c, n)) == Some(
                i as int,
            ),
            i < old(self).sessions.len(),
            old(self).deep_view().has_conn(conn),
        ensures
            final(self).deep_view() == model::rebind_step(old(self).deep_view(), conn, c, n).0,
            final(out).deep_view() == old(out).deep_view() + model::rebind_step(
                old(self).deep_view(),
                conn,
                c,
                n,
            ).1,
    {
        let ghost s = self.deep_view();
        let ghost start = out.deep_view();
        assert(s.sessions[i as int] == self.sessions[i as int].deep_view());
        let sid = self.sessions[i].sid;
        let tap_name = self.sessions[i].tap_name.clone();
        let tap_ip = text::copy_opt(&self.sessions[i].tap_ip);
        let old_conn = self.sessions[i].bound_conn;
        self.sessions[i].bound_conn = Some(conn);
        assert(self.sessions.deep_view() =~= s.sessions.update(
            i as int,
            (SessionView { bound_conn: Some(conn), ..s.sessions[i as int] }),
        ));
        match old_conn {
            Some(o) => {
                if self.has_conn(o) {
                    tables::act(out, HubAction::Bind { conn: o, session: None });
                }
                self.set_bound(o, None);
            },
            None => {},
        }
        self.set_bound(conn, Some(sid));
        tables::act(out, HubAction::ToSession { sid: sid, note: SessionNote::Bind(conn) });
        tables::act(out, HubAction::Bind { conn: conn, session: Some(sid) });
        let suffix = strip_tap_prefix(tap_name.as_str());
        let ip = text::copy_opt(&tap_ip);
        tables::act(
            out,
            HubAction::Send { conn: conn, frame: Frame::JoinOk { tap_suffix: suffix, ip: ip } },
        );
        self.send_routes(conn, n, &tap_ip, out);
        tables::act(
            out,
            HubAction::Emit(
                HubEvent::DeviceOnline {
                    network: n,
                    client_uuid: c,
                    sid: sid.0,
                    tap_name: tap_name,
                },
            ),
        );
        assert(out.deep_view() =~= start + model::rebind_step(s, conn, c, n).1);
    }

    /// A member that is not admitted is held without an answer.
    fn hold(&mut self, conn: ConnId, row: usize, out: &mut Vec<HubAction>)
        requires
            row < old(self).cfg.approved_clients.len(),
        ensures
            final(self).deep_view() == model::hold_step(
                old(self).deep_view(),
                conn,
                old(self).deep_view().cfg.approved_clients[row as int],
            ).0,
            final(out).deep_view() == old(out).deep_view() + model::hold_step(
                old(self).deep_view(),
                conn,
                old(self).deep_view().cfg.approved_clients[row as int],
            ).1,
    {
        let ghost s = self.deep_view();
        let ghost start = out.deep_view();
        let a = &self.cfg.approved_clients[row];
        let c = a.client_uuid;
        let n = a.net_uuid;
        assert(s.cfg.approved_clients[row as int] == a.deep_view());
        let p = PendingInfo { client_uuid: c, net_uuid: n, conn: conn };
        match find::find_waiting(&self.pending, c, n) {
            Some(k) => {
                self.pending.set(k, p);
            },
            None => {
                let d = DeviceEntry {
                    client_uuid: c,
                    net_uuid: Some(n),
                    display_name: a.display_name.clone(),
                    admitted: false,
                    tap_ip: None,
                    lan_subnets: text::copy_texts(&a.lan_subnets),
                    online: true,
                    sid: None,
                    tap_name: None,
                };
                self.pending.push(p);
                tables::act(
                    out,
                    HubAction::Emit(HubEvent::DeviceChanged { network: n, device: d }),
                );
            },
        }
        assert(out.deep_view() =~= start + model::hold_step(
            s,
            conn,
            s.cfg.approved_clients[row as int],
        ).1);
    }

    /// The request for the TAP of a new session.
    pub(crate) fn request_tap(&self, sid: SessionId, conn: ConnId, c: Uuid, n: Uuid) -> (r:
        Approval)
        ensures
            r.deep_view() == model::approval(self.deep_view(), sid, conn, c, n),
    {
        Approval {
            sid: sid,
            conn: conn,
            client_uuid: c,
            net_uuid: n,
            tap_name: tap_name_from_uuid(c),
            bridged: self.has_bridge(n),
        }
    }

    /// A client asks to join a network. Where a TAP is requested, hand what
    /// came of it to [`Hub::do_approve`].
    pub fn handle_join(&mut self, conn: ConnId, net_uuid: Uuid) -> (r: (
        Vec<HubAction>,
        Option<Approval>,
    ))
        ensures
            final(self).deep_view() == model::join_step(old(self).deep_view(), conn, net_uuid).0.0,
            r.0.deep_view() == model::join_step(old(self).deep_view(), conn, net_uuid).0.1,
            r.1.deep_view() == model::join_step(old(self).deep_view(), conn, net_uuid).1,
    {
        let ghost s = self.deep_view();
        let mut out = tables::no_actions();
        let i: usize = match find::find_conn(&self.conns, conn) {
            Some(i) => i,
            None => {
                return (out, None);
            },
        };
        assert(s.conns[i as int] == self.conns[i as int].deep_view());
        let c: Uuid = match self.conns[i].client_uuid {
            Some(c) => c,
            None => {
                deny(conn, "no_hello".to_owned(), &mut out);
                assert(out.deep_view() =~= model::deny(conn, "no_hello"@));
                return (out, None);
            },
        };
        if !self.network_exists(net_uuid) {
            deny(conn, "unknown_network".to_owned(), &mut out);
            assert(out.deep_view() =~= model::deny(conn, "unknown_network"@));
            return (out, None);
        }
        if config::find_pending(&self.cfg.pending_clients, c).is_some() {
            deny(conn, "unassigned".to_owned(), &mut out);
            assert(out.deep_view() =~= model::deny(conn, "unassigned"@));
            return (out, None);
        }
        let row: usize = match config::find_approved(&self.cfg.approved_clients, c) {
            Some(k) => k,
            None => {
                deny(conn, "unassigned".to_owned(), &mut out);
                assert(out.deep_view() =~= model::deny(conn, "unassigned"@));
                return (out, None);
            },
        };
        proof {
            seqs::lemma_position(s.cfg.approved_clients, config::of_client(c));
        }
        let assigned = self.cfg.approved_clients[row].net_uuid;
        let admitted = self.cfg.approved_clients[row].admitted;
        assert(s.cfg.approved_clients[row as int]
            == self.cfg.approved_clients[row as int].deep_view());
        if assigned != net_uuid {
            let id = assigned.to_text();
            let reason = text::join2("wrong_network:assigned=", id.as_str());
            let ghost why = reason@;
            deny(conn, reason, &mut out);
            assert(out.deep_view() =~= model::deny(conn, why));
            return (out, None);
        }
        match find::find_session(&self.sessions, c, net_uuid) {
            Some(k) => {
                self.rebind(conn, c, net_uuid, k, &mut out);
                assert(out.deep_view() =~= model::rebind_step(s, conn, c, net_uuid).1);
                return (out, None);
            },
            None => {},
        }
        if admitted {
            let sid = self.ids.next_session();
            let a = self.request_tap(sid, conn, c, net_uuid);
            (out, Some(a))
        } else {
            self.hold(conn, row, &mut out);
            assert(out.deep_view() =~= model::hold_step(
                s,
                conn,
                s.cfg.approved_clients[row as int],
            ).1);
            (out, None)
        }
    }

    /// Puts a session in its place.
    fn put_session(&mut self, x: SessionInfo)
        ensures
            final(self).deep_view() == (HubView {
                sessions: model::with_session(old(self).deep_view().sessions, x.deep_view()),
                ..old(self).deep_view()
            }),
    {
        let ghost before = self.deep_view().sessions;
        match find::find_session(&self.sessions, x.client_uuid, x.net_uuid) {
            Some(i) => {
                self.sessions.set(i, x);
                assert(self.sessions.deep_view() =~= before.update(i as int, x.deep_view()));
            },
            None => {
                self.sessions.push(x);
                assert(self.sessions.deep_view() =~= before.push(x.deep_view()));
            },
        }
    }

    /// The TAP is there: the session starts.
    fn start_session(&mut self, a: &Approval, out: &mut Vec<HubAction>)
        ensures
            final(self).deep_view() == model::admit_step(old(self).deep_view(), a.deep_view()).0,
            final(out).deep_view() == old(out).deep_view() + model::admit_step(
                old(self).deep_view(),
                a.deep_view(),
            ).1,
    {
        let ghost s = self.deep_view();
        let ghost start = out.deep_view();
        let ghost rows = s.cfg.approved_clients;
        tables::act(
            out,
            HubAction::StartSession {
                sid: a.sid,
                conn: a.conn,
                client_uuid: a.client_uuid,
                net_uuid: a.net_uuid,
            },
        );
        if self.has_conn(a.conn) {
            tables::act(out, HubAction::Bind { conn: a.conn, session: Some(a.sid) });
        }
        self.set_bound(a.conn, Some(a.sid));
        let p = find::find_pair(&self.cfg.approved_clients, a.client_uuid, a.net_uuid);
        let ip: Option<String> = match p {
            Some(i) => {
                assert(rows[i as int] == self.cfg.approved_clients[i as int].deep_view());
                let ip = device::ip_option(&self.cfg.approved_clients[i].tap_ip);
                if !self.cfg.approved_clients[i].admitted {
                    self.cfg.approved_clients[i].admitted = true;
                    tables::act(out, HubAction::Persist);
                }
                assert(self.cfg.approved_clients.deep_view() =~= rows.update(
                    i as int,
                    (ApprovedView { admitted: true, ..rows[i as int] }),
                ));
                ip
            },
            None => {
                let row = ApprovedClient {
                    client_uuid: a.client_uuid,
                    net_uuid: a.net_uuid,
                    tap_ip: String::new(),
                    display_name: String::new(),
                    lan_subnets: Vec::new(),
                    admitted: true,
                };
                assert(row.lan_subnets.deep_view() =~= Seq::<Seq<char>>::empty());
                self.cfg.approved_clients.push(row);
                assert(self.cfg.approved_clients.deep_view() =~= rows.push(row.deep_view()));
                tables::act(out, HubAction::Persist);
                None
            },
        };
        let x = SessionInfo {
            sid: a.sid,
            client_uuid: a.client_uuid,
            net_uuid: a.net_uuid,
            tap_name: a.tap_name.clone(),
            tap_ip: text::copy_opt(&ip),
            bound_conn: Some(a.conn),
        };
        self.put_session(x);
        let suffix = strip_tap_prefix(a.tap_name.as_str());
        tables::act(
            out,
            HubAction::Send {
                conn: a.conn,
                frame: Frame::JoinOk { tap_suffix: suffix, ip: text::copy_opt(&ip) },
            },
        );
        self.send_routes(a.conn, a.net_uuid, &ip, out);
        tables::act(
            out,
            HubAction::Emit(
                HubEvent::DeviceOnline {
                    network: a.net_uuid,
                    client_uuid: a.client_uuid,
                    sid: a.sid.0,
                    tap_name: a.tap_name.clone(),
                },
            ),
        );
        self.recheck_routes_dirty(a.net_uuid, out);
        assert(out.deep_view() =~= start + model::admit_step(s, a.deep_view()).1);
    }

    /// What came of a request for a TAP: a session, or a refusal. Where the
    /// connection is gone, there is neither.
    pub fn do_approve(&mut self, a: &Approval, outcome: TapOutcome) -> (r: Vec<HubAction>)
        ensures
            final(self).deep_view() == model::approve_step(
                old(self).deep_view(),
                a.deep_view(),
                outcome.deep_view(),
            ).0,
            r.deep_view() == model::approve_step(
                old(self).deep_view(),
                a.deep_view(),
                outcome.deep_view(),
            ).1,
    {
        let ghost s = self.deep_view();
        let mut out = tables::no_actions();
        if !self.has_conn(a.conn) {
            match &outcome {
                TapOutcome::CreateFailed(_) => {},
                _ => {
                    tables::act(&mut out, HubAction::DestroyTap { sid: a.sid });
                },
            }
            assert(out.deep_view() =~= model::approve_step(
                s,
                a.deep_view(),
                outcome.deep_view(),
            ).1);
            return out;
        }
        match &outcome {
            TapOutcome::CreateFailed(e) => {
                let reason = text::join2("server_error:", e.as_str());
                deny(a.conn, reason, &mut out);
            },
            TapOutcome::AttachFailed(e) => {
                tables::act(&mut out, HubAction::DestroyTap { sid: a.sid });
                if self.has_bridge(a.net_uuid) {
                    let reason = text::join2("bridge_error:", e.as_str());
                    deny(a.conn, reason, &mut out);
                } else {
                    deny(a.conn, "no_bridge".to_owned(), &mut out);
                }
            },
            TapOutcome::Ready => {
                if self.has_bridge(a.net_uuid) {
                    self.start_session(a, &mut out);
                } else {
                    tables::act(&mut out, HubAction::DestroyTap { sid: a.sid });
                    deny(a.conn, "no_bridge".to_owned(), &mut out);
                }
            },
        }
        assert(out.deep_view() =~= model::approve_step(s, a.deep_view(), outcome.deep_view()).1);
        out
    }

    /// A session ended.
    pub fn handle_session_died(&mut self, sid: SessionId) -> (r: Vec<HubAction>)
        ensures
            final(self).deep_view() == model::died_step(old(self).deep_view(), sid).0,
            r.deep_view() == model::died_step(old(self).deep_view(), sid).1,
    {
        let ghost s = self.deep_view();
        let mut out = tables::no_actions();
        let k: usize = match find::find_session_id(&self.sessions, sid) {
            Some(k) => k,
            None => {
                return out;
            },
        };
        let x = self.sessions.remove(k);
        proof {
            assert(s.sessions[k as int] == x.deep_view());
            assert(self.sessions.deep_view() =~= s.sessions.remove(k as int));
        }
        match x.bound_conn {
            Some(id) => match find::find_conn(&self.conns, id) {
                Some(i) => {
                    assert(s.conns[i as int] == self.conns[i as int].deep_view());
                    proof {
                        seqs::lemma_position(s.conns, model::conn_is(id));
                    }
                    let hit = match self.conns[i].bound_session {
                        Some(b) => b == sid,
                        None => false,
                    };
                    if hit {
                        self.conns[i].bound_session = None;
                        assert(self.conns.deep_view() =~= s.conns.update(
                            i as int,
                            (ConnView { bound: None, ..s.conns[i as int] }),
                        ));
                    }
                    tables::act(&mut out, HubAction::Bind { conn: id, session: None });
                },
                None => {},
            },
            None => {},
        }
        if self.has_bridge(x.net_uuid) {
            tables::act(
                &mut out,
                HubAction::RemoveTap { net: x.net_uuid, tap_name: x.tap_name.clone() },
            );
        }
        tables::act(
            &mut out,
            HubAction::Emit(
                HubEvent::DeviceOffline { network: x.net_uuid, client_uuid: x.client_uuid },
            ),
        );
        assert(out.deep_view() =~= model::died_step(s, sid).1);
        out
    }

    /// Sends a text to every connection.
    pub fn handle_broadcast_text(&self, msg: &String) -> (r: Vec<HubAction>)
        ensures
            r.deep_view() == model::broadcast(
                self.deep_view().conns,
                crate::frame::FrameView::Text(msg@),
            ),
    {
        let ghost frame = crate::frame::FrameView::Text(msg@);
        let ghost conns = self.deep_view().conns;
        let mut out = tables::no_actions();
        let mut i: usize = 0;
        assert(out.deep_view() =~= model::broadcast(conns.take(0), frame));
        while i < self.conns.len()
            invariant
                0 <= i <= self.conns.len(),
                conns == self.deep_view().conns,
                frame == crate::frame::FrameView::Text(msg@),
                out.deep_view() == model::broadcast(conns.take(i as int), frame),
            decreases self.conns.len() - i,
        {
            assert(conns[i as int] == self.conns[i as int].deep_view());
            tables::act(
                &mut out,
                HubAction::Send { conn: self.conns[i].id, frame: Frame::Text(msg.clone()) },
            );
            assert(out.deep_view() =~= model::broadcast(conns.take(i + 1), frame));
            i += 1;
        }
        assert(conns.take(i as int) =~= conns);
        out
    }

    /// Sends a file to every connection.
    pub fn handle_broadcast_file(&self, name: &String, data: &Vec<u8>) -> (r: Vec<HubAction>)
        ensures
            r.deep_view() == model::broadcast(
                self.deep_view().conns,
                crate::frame::FrameView::File { name: name@, data: data@ },
            ),
    {
        let ghost frame = crate::frame::FrameView::File { name: name@, data: data@ };
        let ghost conns = self.deep_view().conns;
        let mut out = tables::no_actions();
        let mut i: usize = 0;
        assert(out.deep_view() =~= model::broadcast(conns.take(0), frame));
        while i < self.conns.len()
            invariant
                0 <= i <= self.conns.len(),
                conns == self.deep_view().conns,
                frame == (crate::frame::FrameView::File { name: name@, data: data@ }),
                out.deep_view() == model::broadcast(conns.take(i as int), frame),
            decreases self.conns.len() - i,
        {
            assert(conns[i as int] == self.conns[i as int].deep_view());
            let copy = crate::frame::copy_bytes(data);
            tables::act(
                &mut out,
                HubAction::Send {
                    conn: self.conns[i].id,
                    frame: Frame::File { name: name.clone(), data: copy },
                },
            );
            assert(out.deep_view() =~= model::broadcast(conns.take(i + 1), frame));
            i += 1;
        }
        assert(conns.take(i as int) =~= conns);
        out
    }

    /// The first half of shutting down: every session ends.
    pub fn shutdown_sessions(&self) -> (r: Vec<HubAction>)
        ensures
            r.deep_view() == model::kill_all(self.deep_view().sessions),
    {
        let ghost all = self.deep_view().sessions;
        let mut out = tables::no_actions();
        let mut i: usize = 0;
        assert(out.deep_view() =~= model::kill_all(all.take(0)));
        while i < self.sessions.len()
            invariant
                0 <= i <= self.sessions.len(),
                all == self.deep_view().sessions,
                out.deep_view() == model::kill_all(all.take(i as int)),
            decreases self.sessions.len() - i,
        {
            assert(all[i as int] == self.sessions[i as int].deep_view());
            tables::act(
                &mut out,
                HubAction::ToSession { sid: self.sessions[i].sid, note: SessionNote::Kill },
            );
            assert(out.deep_view() =~= model::kill_all(all.take(i + 1)));
            i += 1;
        }
        assert(all.take(i as int) =~= all);
        out
    }

    /// The second half of shutting down: every bridge goes.
    pub fn shutdown_bridges(&self) -> (r: Vec<HubAction>)
        ensures
            r.deep_view() == model::destroy_all(self.deep_view().bridges),
    {
        let ghost all = self.deep_view().bridges;
        let mut out = tables::no_actions();
        let mut i: usize = 0;
        assert(out.deep_view() =~= model::destroy_all(all.take(0)));
        while i < self.bridges.len()
            invariant
                0 <= i <= self.bridges.len(),
                all == self.deep_view().bridges,
                out.deep_view() == model::destroy_all(all.take(i as int)),
            decreases self.bridges.len() - i,
        {
            tables::act(&mut out, HubAction::DestroyBridge { net: self.bridges[i] });
            assert(out.deep_view() =~= model::destroy_all(all.take(i + 1)));
            i += 1;
        }
        assert(all.take(i as int) =~= all);
        out
    }
}

} // verus!
