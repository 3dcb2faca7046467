//! Routing tables of the networks: installing them, and knowing whether the
//! members should be told a new one.
use vstd::prelude::*;
use vstd::string::*;

use crate::config::NetView;
use crate::events::HubEvent;
use crate::frame;
use crate::frame::{Frame, RouteEntry};
use crate::hub::find;
use crate::hub::model;
use crate::hub::model::HubView;
use crate::hub::{ActionView, DirtyFlag, Hub, HubAction, PushedRoutes};
use crate::ids::ConnId;
use crate::routes;
use crate::uuids::Uuid;

verus! {

/// Appends an action.
pub(crate) fn act(out: &mut Vec<HubAction>, a: HubAction)
    ensures
        final(out).deep_view() == old(out).deep_view().push(a.deep_view()),
{
    out.push(a);
    assert(out.deep_view() =~= old(out).deep_view().push(a.deep_view()));
}

/// A list of actions to fill.
pub(crate) fn no_actions() -> (r: Vec<HubAction>)
    ensures
        r.deep_view() == Seq::<ActionView>::empty(),
{
    let r: Vec<HubAction> = Vec::new();
    assert(r.deep_view() =~= Seq::<ActionView>::empty());
    r
}

impl Hub {
    /// Whether the bridge of a network is up.
    pub(crate) fn has_bridge(&self, n: Uuid) -> (r: bool)
        ensures
            r == self.deep_view().has_bridge(n),
    {
        find::find_bridge(&self.bridges, n).is_some()
    }

    /// Whether a connection is live.
    pub(crate) fn has_conn(&self, id: ConnId) -> (r: bool)
        ensures
            r == self.deep_view().has_conn(id),
    {
        find::find_conn(&self.conns, id).is_some()
    }

    /// Whether a network is known.
    pub fn network_exists(&self, n: Uuid) -> (r: bool)
        ensures
            r == self.deep_view().knows_net(n),
    {
        find::find_net(&self.cfg.networks, n).is_some()
    }

    /// Installs every network's derived table on its own bridge.
    pub(crate) fn sync_local_routes(&self, out: &mut Vec<HubAction>)
        ensures
            final(out).deep_view() == old(out).deep_view() + model::sync_routes(self.deep_view()),
    {
        let ghost s = self.deep_view();
        let ghost nets = s.cfg.networks;
        let ghost start = out.deep_view();
        let mut i: usize = 0;
        assert(nets.take(0) =~= Seq::<NetView>::empty());
        assert(start + model::sync_actions(s, nets.take(0)) =~= start);
        while i < self.cfg.networks.len()
            invariant
                0 <= i <= self.cfg.networks.len(),
                s == self.deep_view(),
                nets == s.cfg.networks,
                out.deep_view() == start + model::sync_actions(s, nets.take(i as int)),
            decreases self.cfg.networks.len() - i,
        {
            let n = self.cfg.networks[i].uuid;
            let ghost before = out.deep_view();
            proof {
                assert(nets.take(i + 1).drop_last() =~= nets.take(i as int));
                assert(nets.take(i + 1).last() == self.cfg.networks[i as int].deep_view());
            }
            if self.has_bridge(n) {
                let raw = routes::derive_routes_for_network(&self.cfg, n);
                let parsed = routes::parse_routes(&raw);
                act(out, HubAction::ApplyRoutes { net: n, routes: parsed });
                assert(out.deep_view() =~= start + model::sync_actions(s, nets.take(i + 1)));
            }
            i += 1;
        }
        assert(nets.take(i as int) =~= nets);
    }

    /// The table that a network was told last.
    fn told_routes(&self, n: Uuid) -> (r: Vec<RouteEntry>)
        ensures
            r.deep_view() == model::told(self.deep_view(), n),
    {
        match find::find_pushed(&self.last_pushed_routes, n) {
            Some(i) => {
                assert(self.deep_view().pushed[i as int]
                    == self.last_pushed_routes[i as int].deep_view());
                frame::copy_routes(&self.last_pushed_routes[i].routes)
            },
            None => {
                let r: Vec<RouteEntry> = Vec::new();
                assert(r.deep_view() =~= Seq::empty());
                r
            },
        }
    }

    /// Whether every member of a network is admitted and has an address.
    fn all_online(&self, n: Uuid) -> (r: bool)
        ensures
            r == model::all_online(self.deep_view().cfg.approved_clients, n),
    {
        let ghost rows = self.deep_view().cfg.approved_clients;
        if find::find_member(&self.cfg.approved_clients, n).is_none() {
            return false;
        }
        let mut i: usize = 0;
        while i < self.cfg.approved_clients.len()
            invariant
                0 <= i <= self.cfg.approved_clients.len(),
                rows == self.deep_view().cfg.approved_clients,
                forall|j: int|
                    0 <= j < i && (#[trigger] rows[j]).net_uuid == n ==> rows[j].admitted
                        && rows[j].tap_ip.len() > 0,
            decreases self.cfg.approved_clients.len() - i,
        {
            let a = &self.cfg.approved_clients[i];
            assert(rows[i as int] == a.deep_view());
            if a.net_uuid == n && (!a.admitted || a.tap_ip.as_str().is_empty()) {
                return false;
            }
            i += 1;
        }
        true
    }

    /// Remembers a network's flag.
    pub(crate) fn put_flag(&mut self, n: Uuid, dirty: bool)
        ensures
            final(self).deep_view() == (HubView {
                dirty: model::with_flag(
                    old(self).deep_view().dirty,
                    DirtyFlag { net: n, dirty: dirty },
                ),
                ..old(self).deep_view()
            }),
    {
        match find::find_flag(&self.routes_dirty, n) {
            Some(i) => {
                self.routes_dirty.set(i, DirtyFlag { net: n, dirty: dirty });
            },
            None => {
                self.routes_dirty.push(DirtyFlag { net: n, dirty: dirty });
            },
        }
    }

    /// Remembers the table that a network was told.
    pub(crate) fn put_pushed(&mut self, n: Uuid, table: Vec<RouteEntry>)
        ensures
            final(self).deep_view() == (HubView {
                pushed: model::with_pushed(
                    old(self).deep_view().pushed,
                    crate::hub::PushedView { net: n, routes: table.deep_view() },
                ),
                ..old(self).deep_view()
            }),
    {
        let ghost before = self.deep_view().pushed;
        let e = PushedRoutes { net: n, routes: table };
        match find::find_pushed(&self.last_pushed_routes, n) {
            Some(i) => {
                self.last_pushed_routes.set(i, e);
                assert(self.last_pushed_routes.deep_view() =~= before.update(
                    i as int,
                    e.deep_view(),
                ));
            },
            None => {
                self.last_pushed_routes.push(e);
                assert(self.last_pushed_routes.deep_view() =~= before.push(e.deep_view()));
            },
        }
    }

    /// Brings a network's flag up to date, and tells the subscribers when it
    /// changes.
    pub(crate) fn recheck_routes_dirty(&mut self, n: Uuid, out: &mut Vec<HubAction>)
        ensures
            final(self).deep_view() == model::recheck_step(old(self).deep_view(), n).0,
            final(out).deep_view() == old(out).deep_view() + model::recheck_step(
                old(self).deep_view(),
                n,
            ).1,
    {
        let ghost s = self.deep_view();
        let ghost start = out.deep_view();
        if !self.network_exists(n) {
            assert(start + model::recheck_step(s, n).1 =~= start);
            return;
        }
        let derived = routes::derive_routes_for_network(&self.cfg, n);
        let told = self.told_routes(n);
        let new_dirty = self.all_online(n) && !routes::same_routes(&derived, &told);
        let old_dirty = match find::find_flag(&self.routes_dirty, n) {
            Some(i) => self.routes_dirty[i].dirty,
            None => false,
        };
        if new_dirty != old_dirty {
            act(out, HubAction::Emit(HubEvent::RoutesDirty { network: n, dirty: new_dirty }));
        }
        self.put_flag(n, new_dirty);
        assert(out.deep_view() =~= start + model::recheck_step(s, n).1);
    }

    /// Tells a newly bound connection the routes of its network, without those
    /// through the client's own address.
    pub(crate) fn send_routes(
        &self,
        conn: ConnId,
        n: Uuid,
        tap_ip: &Option<String>,
        out: &mut Vec<HubAction>,
    )
        ensures
            final(out).deep_view() == old(out).deep_view() + model::route_frames(
                self.deep_view(),
                conn,
                n,
                tap_ip.deep_view(),
            ),
    {
        let ghost start = out.deep_view();
        let table = routes::derive_routes_for_network(&self.cfg, n);
        let peer: Option<&str> = match tap_ip {
            Some(s) => Some(s.as_str()),
            None => None,
        };
        let filtered = routes::filter_for_peer(&table, peer);
        if filtered.len() > 0 {
            act(out, HubAction::Send { conn: conn, frame: Frame::SetRoutes(filtered) });
        }
        assert(out.deep_view() =~= start + model::route_frames(
            self.deep_view(),
            conn,
            n,
            tap_ip.deep_view(),
        ));
    }

    /// Starts up, once the bridges are there: installs the routes, and counts
    /// every network as told what is derived for it.
    pub fn handle_start(&mut self) -> (r: Vec<HubAction>)
        ensures
            final(self).deep_view() == model::start_step(old(self).deep_view()).0,
            r.deep_view() == model::start_step(old(self).deep_view()).1,
    {
        let ghost s = self.deep_view();
        let ghost nets = s.cfg.networks;
        let mut out = no_actions();
        self.sync_local_routes(&mut out);
        assert(out.deep_view() =~= model::sync_routes(s));
        let mut i: usize = 0;
        assert(nets.take(0) =~= Seq::<NetView>::empty());
        while i < self.cfg.networks.len()
            invariant
                0 <= i <= self.cfg.networks.len(),
                nets == s.cfg.networks,
                self.deep_view() == model::seeded(s, nets.take(i as int)),
                self.deep_view().cfg == s.cfg,
                nets.len() == self.cfg.networks.len(),
            decreases self.cfg.networks.len() - i,
        {
            let n = self.cfg.networks[i].uuid;
            proof {
                assert(nets[i as int] == self.cfg.networks[i as int].deep_view());
                assert(nets.take(i + 1).drop_last() =~= nets.take(i as int));
                assert(nets.take(i + 1).last() == nets[i as int]);
            }
            let derived = routes::derive_routes_for_network(&self.cfg, n);
            self.put_pushed(n, derived);
            self.put_flag(n, false);
            i += 1;
        }
        assert(nets.take(i as int) =~= nets);
        out
    }
}

} // verus!
