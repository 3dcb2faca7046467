//! What each admin request does.
//!
//! A request that needs something from the surroundings first (a bridge, a
//! TAP, the number of clients that a frame reached) says so, and is finished
//! with the outcome.
use vstd::prelude::*;
use vstd::string::*;

use crate::admin::{
    NetEntry, NetEntryView, PendingEntry, RouteRow, ServerAdminReq, ServerAdminResp,
    ServerReqView, ServerRespView, SessionEntry, SessionEntryView, SnapshotData, SnapshotDataView,
};
use crate::config;
use crate::config::{NetRecord, NetView};
use crate::device::{DeviceEntry, DeviceView};
use crate::frame::{FrameView, RouteEntry, RouteView};
use crate::hub::model;
use crate::hub::model::{HubView, Step};
use crate::hub::nets;
use crate::hub::soundness;
use crate::hub::{
    ActionView, Approval, ApprovalView, AssignClientResult, AssignView, DeviceSetResult,
    DeviceSetStep, DeviceSetStepView, DeviceSetView, DeviceUpdate, Hub, HubAction, HubSnapshot,
    PendingInfo, SessionView, SnapshotView, UpdateView,
};
use crate::seqs;
use crate::text;
use crate::uuids;
use crate::uuids::Uuid;

verus! {

/// How a request goes on.
#[derive(Debug)]
pub enum Next {
    /// It is answered.
    Reply(ServerAdminResp),
    /// Create the bridge of this network, then call [`finish_make_net`].
    CreateBridge(NetRecord),
    /// Prepare this TAP, hand the outcome to `do_approve`, then call
    /// [`finish_set`].
    PrepareTap { approval: Approval, client_uuid: Uuid, net_uuid: Uuid },
    /// Count the clients that got their routes, then call [`finish_push`].
    CountRoutes { net_uuid: Uuid, routes: Vec<RouteEntry> },
    /// Count the clients that got the frame: that is the answer.
    CountSends,
}

/// The content of a [`Next`].
#[verifier::ext_equal]
pub enum NextView {
    Reply(ServerRespView),
    CreateBridge(NetView),
    PrepareTap { approval: ApprovalView, client_uuid: Uuid, net_uuid: Uuid },
    CountRoutes { net_uuid: Uuid, routes: Seq<RouteView> },
    CountSends,
}

impl DeepView for Next {
    type V = NextView;

    open spec fn deep_view(&self) -> NextView {
        match self {
            Next::Reply(r) => NextView::Reply(r.deep_view()),
            Next::CreateBridge(n) => NextView::CreateBridge(n.deep_view()),
            Next::PrepareTap { approval, client_uuid, net_uuid } => NextView::PrepareTap {
                approval: approval.deep_view(),
                client_uuid: *client_uuid,
                net_uuid: *net_uuid,
            },
            Next::CountRoutes { net_uuid, routes } => NextView::CountRoutes {
                net_uuid: *net_uuid,
                routes: routes.deep_view(),
            },
            Next::CountSends => NextView::CountSends,
        }
    }
}

// ── What the answers are ─────────────────────────────────────────────────
/// The answer to a change of a member.
pub open spec fn set_reply(r: DeviceSetView) -> ServerRespView {
    match r {
        DeviceSetView::Updated(d) => ServerRespView::Device(d),
        DeviceSetView::NotFound => ServerRespView::NotFound,
        DeviceSetView::InvalidIp => ServerRespView::InvalidIp,
        DeviceSetView::Conflict { msg } => ServerRespView::Conflict { msg: msg },
    }
}

/// The answer to a move of a client.
pub open spec fn assign_reply(r: AssignView) -> ServerRespView {
    match r {
        AssignView::Assigned(d) => ServerRespView::Device(d),
        AssignView::NotFound => ServerRespView::NotFound,
        AssignView::UnknownNetwork => ServerRespView::Error("unknown network"@),
    }
}

/// Done, or not found.
pub open spec fn found_reply(found: bool) -> ServerRespView {
    if found {
        ServerRespView::Done
    } else {
        ServerRespView::NotFound
    }
}

/// What a snapshot says.
pub open spec fn snapshot_data(s: SnapshotView) -> SnapshotDataView {
    SnapshotDataView {
        networks: s.networks.map_values(
            |n: NetView| NetEntryView { name: n.name, uuid: n.uuid, bridge_ip: n.bridge_ip },
        ),
        sessions: s.sessions.map_values(
            |x: SessionView|
                SessionEntryView {
                    sid: x.sid.0,
                    client_uuid: x.client,
                    net_uuid: x.net,
                    tap_name: x.tap_name,
                    tap_ip: x.tap_ip,
                    bound: x.bound_conn is Some,
                },
        ),
        pending: s.pending.map_values(
            |p: PendingInfo| PendingEntry { client_uuid: p.client_uuid, net_uuid: p.net_uuid },
        ),
    }
}

/// Selects the entries of one client.
pub open spec fn entry_of(c: Uuid) -> spec_fn(DeviceView) -> bool {
    |d: DeviceView| d.client_uuid == c
}

/// The network of a client that is named without one: there must be exactly
/// one entry. `None` for a client without a network.
pub open spec fn resolved(devices: Seq<DeviceView>, c: Uuid) -> Result<
    Option<Uuid>,
    ServerRespView,
> {
    let found = devices.filter(entry_of(c));
    if found.len() == 0 {
        Err(ServerRespView::NotFound)
    } else if found.len() == 1 {
        Ok(found[0].net_uuid)
    } else {
        Err(
            ServerRespView::Error(
                "client "@ + uuids::uuid_chars(c) + " appears in "@ + text::dec(found.len())
                    + " networks; specify net_uuid"@,
            ),
        )
    }
}

/// A client without a network is changed: only its name and its subnets can
/// be.
pub open spec fn set_unassigned(s: HubView, c: Uuid, u: UpdateView) -> (Step, ServerRespView) {
    if u.admitted is Some || u.tap_ip is Some {
        (
            (s, Seq::empty()),
            ServerRespView::Error(
                "client "@ + uuids::uuid_chars(c)
                    + " is unassigned (no network); use `assign` first"@,
            ),
        )
    } else if u.lan_subnets matches Some(v) && !model::valid_subnets(v) {
        ((s, Seq::empty()), ServerRespView::InvalidIp)
    } else {
        let (t, d) = model::patch_step(s, c, u.name, u.lan_subnets);
        (
            t,
            match d {
                Some(d) => ServerRespView::Device(d),
                None => ServerRespView::NotFound,
            },
        )
    }
}

/// A client is changed, wherever it is.
pub open spec fn set_step(s: HubView, c: Uuid, u: UpdateView) -> (Step, NextView) {
    match resolved(model::devices(s, None), c) {
        Err(r) => ((s, Seq::empty()), NextView::Reply(r)),
        Ok(None) => {
            let (t, r) = set_unassigned(s, c, u);
            (t, NextView::Reply(r))
        },
        Ok(Some(n)) => {
            let (t, r) = model::device_set_step(s, c, n, u);
            (
                t,
                match r {
                    DeviceSetStepView::Done(r) => NextView::Reply(set_reply(r)),
                    DeviceSetStepView::Approve(a) => NextView::PrepareTap {
                        approval: a,
                        client_uuid: c,
                        net_uuid: n,
                    },
                },
            )
        },
    }
}

/// What a request does. `fresh` is the identity of a network that it may
/// create.
pub open spec fn request_step(s: HubView, req: ServerReqView, fresh: Uuid) -> (Step, NextView) {
    match req {
        ServerReqView::MakeNet { name, bridge_ip } => (
            (s, Seq::empty()),
            match model::planned_net(name, bridge_ip, fresh) {
                Ok(n) => NextView::CreateBridge(n),
                Err(m) => NextView::Reply(ServerRespView::Error(m)),
            },
        ),
        ServerReqView::RenameNet { net_uuid, name } => {
            let (t, found) = model::rename_step(s, net_uuid, name);
            (t, NextView::Reply(found_reply(found)))
        },
        ServerReqView::DeleteNet { net_uuid } => {
            let (t, found) = model::delete_net_step(s, net_uuid);
            (t, NextView::Reply(found_reply(found)))
        },
        ServerReqView::DeviceSet { client_uuid, name, admitted, tap_ip, lan_subnets } => set_step(
            s,
            client_uuid,
            UpdateView {
                name: name,
                admitted: admitted,
                tap_ip: tap_ip,
                lan_subnets: lan_subnets,
            },
        ),
        ServerReqView::AssignClient { client_uuid, net_uuid } => {
            let (t, r) = model::assign_step(s, client_uuid, net_uuid);
            (t, NextView::Reply(assign_reply(r)))
        },
        ServerReqView::DevicePush { net_uuid } => (
            (s, model::push_actions(s, net_uuid)),
            NextView::CountRoutes {
                net_uuid: net_uuid,
                routes: crate::routes::derived(s.cfg.approved_clients, net_uuid),
            },
        ),
        ServerReqView::DeviceList { net_uuid } => (
            (s, Seq::empty()),
            NextView::Reply(ServerRespView::Devices(model::devices(s, net_uuid))),
        ),
        ServerReqView::List => (
            (s, Seq::empty()),
            NextView::Reply(ServerRespView::Snapshot(snapshot_data(model::snapshot(s)))),
        ),
        ServerReqView::Send { msg } => (
            (s, model::broadcast(s.conns, FrameView::Text(msg))),
            NextView::CountSends,
        ),
        ServerReqView::SendFile { name, data } => (
            (s, model::broadcast(s.conns, FrameView::File { name: name, data: data })),
            NextView::CountSends,
        ),
        ServerReqView::Shutdown => ((s, Seq::empty()), NextView::Reply(ServerRespView::Done)),
    }
}

// ── Carrying them out ────────────────────────────────────────────────────
/// No action.
fn nothing() -> (r: Vec<HubAction>)
    ensures
        r.deep_view() == Seq::<ActionView>::empty(),
{
    let r: Vec<HubAction> = Vec::new();
    assert(r.deep_view() =~= Seq::<ActionView>::empty());
    r
}

/// The answer to a change of a member.
pub fn set_resp(r: DeviceSetResult) -> (resp: ServerAdminResp)
    ensures
        resp.deep_view() == set_reply(r.deep_view()),
{
    match r {
        DeviceSetResult::Updated(d) => ServerAdminResp::Device(d),
        DeviceSetResult::NotFound => ServerAdminResp::NotFound,
        DeviceSetResult::InvalidIp => ServerAdminResp::InvalidIp,
        DeviceSetResult::Conflict { msg } => ServerAdminResp::Conflict { msg: msg },
    }
}

/// The answer to a move of a client.
pub fn assign_resp(r: AssignClientResult) -> (resp: ServerAdminResp)
    ensures
        resp.deep_view() == assign_reply(r.deep_view()),
{
    match r {
        AssignClientResult::Assigned(d) => ServerAdminResp::Device(d),
        AssignClientResult::NotFound => ServerAdminResp::NotFound,
        AssignClientResult::UnknownNetwork => ServerAdminResp::Error("unknown network".to_owned()),
    }
}

fn found_resp(found: bool) -> (resp: ServerAdminResp)
    ensures
        resp.deep_view() == found_reply(found),
{
    if found {
        ServerAdminResp::Done
    } else {
        ServerAdminResp::NotFound
    }
}

/// The network of a client that is named without one.
pub fn resolve_single_net(devices: &Vec<DeviceEntry>, client_uuid: Uuid) -> (r: Result<
    Option<Uuid>,
    ServerAdminResp,
>)
    ensures
        match r {
            Ok(n) => resolved(devices.deep_view(), client_uuid) == Result::<
                Option<Uuid>,
                ServerRespView,
            >::Ok(n),
            Err(e) => resolved(devices.deep_view(), client_uuid) == Result::<
                Option<Uuid>,
                ServerRespView,
            >::Err(e.deep_view()),
        },
{
    let ghost all = devices.deep_view();
    let ghost p = entry_of(client_uuid);
    let mut count: usize = 0;
    let mut net: Option<Uuid> = None;
    let mut i: usize = 0;
    proof {
        seqs::lemma_filter_start(all, p);
    }
    while i < devices.len()
        invariant
            0 <= i <= devices.len(),
            all == devices.deep_view(),
            p == entry_of(client_uuid),
            count <= i,
            count == all.take(i as int).filter(p).len(),
            count > 0 ==> net == all.take(i as int).filter(p)[0].net_uuid,
        decreases devices.len() - i,
    {
        proof {
            seqs::lemma_filter_step(all, p, i as int);
            assert(all[i as int] == devices[i as int].deep_view());
        }
        if devices[i].client_uuid == client_uuid {
            if count == 0 {
                net = devices[i].net_uuid;
            }
            count += 1;
        }
        i += 1;
    }
    assert(all.take(i as int) =~= all);
    if count == 0 {
        Err(ServerAdminResp::NotFound)
    } else if count == 1 {
        Ok(net)
    } else {
        let id = client_uuid.to_text();
        let n = text::dec_text(count as u64);
        let a = text::join3("client ", id.as_str(), " appears in ");
        let m = text::join3(a.as_str(), n.as_str(), " networks; specify net_uuid");
        Err(ServerAdminResp::Error(m))
    }
}

/// The snapshot as it is sent.
pub fn snapshot_resp(s: &HubSnapshot) -> (r: SnapshotData)
    ensures
        r.deep_view() == snapshot_data(s.deep_view()),
{
    let mut networks: Vec<NetEntry> = Vec::new();
    let ghost want = snapshot_data(s.deep_view());
    let mut i: usize = 0;
    while i < s.networks.len()
        invariant
            0 <= i <= s.networks.len(),
            want == snapshot_data(s.deep_view()),
            networks.len() == i,
            forall|j: int|
                0 <= j < i ==> (#[trigger] networks[j]).deep_view() == want.networks[j],
        decreases s.networks.len() - i,
    {
        let n = &s.networks[i];
        assert(s.deep_view().networks[i as int] == n.deep_view());
        networks.push(
            NetEntry { name: n.name.clone(), uuid: n.uuid, bridge_ip: n.bridge_ip.clone() },
        );
        i += 1;
    }
    let mut sessions: Vec<SessionEntry> = Vec::new();
    let mut j: usize = 0;
    while j < s.sessions.len()
        invariant
            0 <= j <= s.sessions.len(),
            want == snapshot_data(s.deep_view()),
            sessions.len() == j,
            forall|k: int|
                0 <= k < j ==> (#[trigger] sessions[k]).deep_view() == want.sessions[k],
        decreases s.sessions.len() - j,
    {
        let x = &s.sessions[j];
        assert(s.deep_view().sessions[j as int] == x.deep_view());
        sessions.push(
            SessionEntry {
                sid: x.sid.0,
                client_uuid: x.client_uuid,
                net_uuid: x.net_uuid,
                tap_name: x.tap_name.clone(),
                tap_ip: text::copy_opt(&x.tap_ip),
                bound: x.bound_conn.is_some(),
            },
        );
        j += 1;
    }
    let mut pending: Vec<PendingEntry> = Vec::new();
    let mut k: usize = 0;
    while k < s.pending.len()
        invariant
            0 <= k <= s.pending.len(),
            want == snapshot_data(s.deep_view()),
            pending.len() == k,
            forall|m: int| 0 <= m < k ==> #[trigger] pending[m] == want.pending[m],
        decreases s.pending.len() - k,
    {
        pending.push(
            PendingEntry {
                client_uuid: s.pending[k].client_uuid,
                net_uuid: s.pending[k].net_uuid,
            },
        );
        k += 1;
    }
    let r = SnapshotData { networks: networks, sessions: sessions, pending: pending };
    assert(r.deep_view().networks =~= want.networks);
    assert(r.deep_view().sessions =~= want.sessions);
    assert(r.deep_view().pending =~= want.pending);
    r
}

/// Whether every subnet of a list is well formed.
fn subnets_valid(v: &Option<Vec<String>>) -> (r: bool)
    ensures
        r == match v.deep_view() {
            Some(v) => model::valid_subnets(v),
            None => true,
        },
{
    match v {
        Some(v) => crate::hub::devices::valid_subnets(v),
        None => true,
    }
}

fn set_unassigned_client(hub: &mut Hub, c: Uuid, u: DeviceUpdate) -> (r: (
    Vec<HubAction>,
    ServerAdminResp,
))
    ensures
        final(hub).deep_view() == set_unassigned(old(hub).deep_view(), c, u.deep_view()).0.0,
        r.0.deep_view() == set_unassigned(old(hub).deep_view(), c, u.deep_view()).0.1,
        r.1.deep_view() == set_unassigned(old(hub).deep_view(), c, u.deep_view()).1,
{
    if u.admitted.is_some() || u.tap_ip.is_some() {
        let id = c.to_text();
        let m = text::join3(
            "client ",
            id.as_str(),
            " is unassigned (no network); use `assign` first",
        );
        return (nothing(), ServerAdminResp::Error(m));
    }
    if !subnets_valid(&u.lan_subnets) {
        return (nothing(), ServerAdminResp::InvalidIp);
    }
    let (acts, d) = hub.handle_patch_pending_client(c, u.name, u.lan_subnets);
    match d {
        Some(d) => (acts, ServerAdminResp::Device(d)),
        None => (acts, ServerAdminResp::NotFound),
    }
}

fn set_client(hub: &mut Hub, c: Uuid, u: DeviceUpdate) -> (r: (Vec<HubAction>, Next))
    ensures
        final(hub).deep_view() == set_step(old(hub).deep_view(), c, u.deep_view()).0.0,
        r.0.deep_view() == set_step(old(hub).deep_view(), c, u.deep_view()).0.1,
        r.1.deep_view() == set_step(old(hub).deep_view(), c, u.deep_view()).1,
{
    let devices = hub.handle_device_list(None);
    match resolve_single_net(&devices, c) {
        Err(e) => (nothing(), Next::Reply(e)),
        Ok(None) => {
            let (acts, resp) = set_unassigned_client(hub, c, u);
            (acts, Next::Reply(resp))
        },
        Ok(Some(n)) => {
            let (acts, step) = hub.handle_device_set(c, n, u);
            match step {
                DeviceSetStep::Done(r) => (acts, Next::Reply(set_resp(r))),
                DeviceSetStep::Approve(a) => (
                    acts,
                    Next::PrepareTap { approval: a, client_uuid: c, net_uuid: n },
                ),
            }
        },
    }
}

/// Carries out a request. The identity of a network that it may create is drawn
/// at random.
pub fn dispatch(hub: &mut Hub, req: ServerAdminReq) -> (r: (Vec<HubAction>, Next))
    ensures
        exists|u: Uuid| #[trigger]
            uuids::is_random(u) && request_step(old(hub).deep_view(), req.deep_view(), u) == (
                (final(hub).deep_view(), r.0.deep_view()),
                r.1.deep_view(),
            ),
{
    let fresh = Uuid::fresh();
    let r = dispatch_with(hub, req, fresh);
    assert(uuids::is_random(fresh));
    r
}

/// Carries out a request. `fresh` is the identity of a network that it may
/// create.
pub fn dispatch_with(hub: &mut Hub, req: ServerAdminReq, fresh: Uuid) -> (r: (Vec<HubAction>, Next))
    ensures
        final(hub).deep_view() == request_step(
            old(hub).deep_view(),
            req.deep_view(),
            fresh,
        ).0.0,
        r.0.deep_view() == request_step(old(hub).deep_view(), req.deep_view(), fresh).0.1,
        r.1.deep_view() == request_step(old(hub).deep_view(), req.deep_view(), fresh).1,
{
    match req {
        ServerAdminReq::MakeNet { name, bridge_ip } => {
            let ip: Option<&str> = match &bridge_ip {
                Some(s) => Some(s.as_str()),
                None => None,
            };
            match nets::plan_net(name.as_str(), ip, fresh) {
                Ok(n) => (nothing(), Next::CreateBridge(n)),
                Err(m) => (nothing(), Next::Reply(ServerAdminResp::Error(m))),
            }
        },
        ServerAdminReq::RenameNet { net_uuid, name } => {
            let (acts, found) = hub.handle_rename_net(net_uuid, &name);
            (acts, Next::Reply(found_resp(found)))
        },
        ServerAdminReq::DeleteNet { net_uuid } => {
            let (acts, found) = hub.handle_delete_net(net_uuid);
            (acts, Next::Reply(found_resp(found)))
        },
        ServerAdminReq::DeviceSet { client_uuid, name, admitted, tap_ip, lan_subnets } => {
            let u = DeviceUpdate {
                name: name,
                admitted: admitted,
                tap_ip: tap_ip,
                lan_subnets: lan_subnets,
            };
            set_client(hub, client_uuid, u)
        },
        ServerAdminReq::AssignClient { client_uuid, net_uuid } => {
            let (acts, r) = hub.handle_assign_client(client_uuid, net_uuid);
            (acts, Next::Reply(assign_resp(r)))
        },
        ServerAdminReq::DevicePush { net_uuid } => {
            let (acts, table) = hub.handle_device_push(net_uuid);
            (acts, Next::CountRoutes { net_uuid: net_uuid, routes: table })
        },
        ServerAdminReq::DeviceList { net_uuid } => {
            let devices = hub.handle_device_list(net_uuid);
            (nothing(), Next::Reply(ServerAdminResp::Devices(devices)))
        },
        ServerAdminReq::List => {
            let snap = hub.handle_list();
            (nothing(), Next::Reply(ServerAdminResp::Snapshot(snapshot_resp(&snap))))
        },
        ServerAdminReq::Send { msg } => (hub.handle_broadcast_text(&msg), Next::CountSends),
        ServerAdminReq::SendFile { name, data } => (
            hub.handle_broadcast_file(&name, &data),
            Next::CountSends,
        ),
        ServerAdminReq::Shutdown => (nothing(), Next::Reply(ServerAdminResp::Done)),
    }
}

/// The bridge of a new network was created, or could not be.
pub fn finish_make_net(hub: &mut Hub, rec: NetRecord, up: bool) -> (r: (
    Vec<HubAction>,
    ServerAdminResp,
))
    ensures
        final(hub).deep_view() == model::add_net_step(
            old(hub).deep_view(),
            rec.deep_view(),
            up,
        ).0,
        r.0.deep_view() == model::add_net_step(old(hub).deep_view(), rec.deep_view(), up).1,
        r.1.deep_view() == (ServerRespView::NetCreated { uuid: rec.uuid }),
{
    let id = rec.uuid;
    let acts = hub.add_net(rec, up);
    (acts, ServerAdminResp::NetCreated { uuid: id })
}

/// The outcome of preparing the TAP was handed to `do_approve`.
pub fn finish_set(hub: &mut Hub, client_uuid: Uuid, net_uuid: Uuid) -> (r: (
    Vec<HubAction>,
    ServerAdminResp,
))
    ensures
        final(hub).deep_view() == model::finish_set_step(
            old(hub).deep_view(),
            client_uuid,
            net_uuid,
        ).0.0,
        r.0.deep_view() == model::finish_set_step(
            old(hub).deep_view(),
            client_uuid,
            net_uuid,
        ).0.1,
        r.1.deep_view() == set_reply(
            model::finish_set_step(old(hub).deep_view(), client_uuid, net_uuid).1,
        ),
{
    let (acts, r) = hub.finish_device_set(client_uuid, net_uuid);
    (acts, set_resp(r))
}

/// `count` clients got their routes.
pub fn finish_push(hub: &mut Hub, net_uuid: Uuid, table: &Vec<RouteEntry>, count: u64) -> (r: (
    Vec<HubAction>,
    ServerAdminResp,
))
    ensures
        final(hub).deep_view() == model::finish_push_step(
            old(hub).deep_view(),
            net_uuid,
            table.deep_view(),
            count,
        ).0,
        r.0.deep_view() == model::finish_push_step(
            old(hub).deep_view(),
            net_uuid,
            table.deep_view(),
            count,
        ).1,
        r.1.deep_view() == (ServerRespView::Pushed { count: count, routes: table.deep_view() }),
{
    let acts = hub.finish_device_push(net_uuid, table, count);
    let mut routes: Vec<RouteRow> = Vec::new();
    let mut i: usize = 0;
    while i < table.len()
        invariant
            0 <= i <= table.len(),
            routes.len() == i,
            forall|j: int|
                0 <= j < i ==> (#[trigger] routes[j]).deep_view() == table[j].deep_view(),
        decreases table.len() - i,
    {
        routes.push(RouteRow { dst: table[i].dst.clone(), via: table[i].via.clone() });
        i += 1;
    }
    assert(routes.deep_view() =~= table.deep_view());
    (acts, ServerAdminResp::Pushed { count: count, routes: routes })
}

// ── Laws ─────────────────────────────────────────────────────────────────
/// Where at most one element qualifies, at most one passes the filter.
proof fn lemma_filter_at_most_one(s: Seq<DeviceView>, p: spec_fn(DeviceView) -> bool)
    requires
        forall|i: int, j: int|
            0 <= i < j < s.len() ==> !(p(#[trigger] s[i]) && p(#[trigger] s[j])),
    ensures
        s.filter(p).len() <= 1,
    decreases s.len(),
{
    reveal(Seq::filter);
    if s.len() > 0 {
        let r = s.drop_last();
        assert forall|i: int, j: int| 0 <= i < j < r.len() implies !(p(#[trigger] r[i]) && p(
            #[trigger] r[j],
        )) by {
            assert(!(p(s[i]) && p(s[j])));
        }
        lemma_filter_at_most_one(r, p);
        if p(s.last()) {
            assert forall|i: int| 0 <= i < r.len() implies !p(#[trigger] r[i]) by {
                assert(!(p(s[i]) && p(s[s.len() - 1])));
            }
            seqs::lemma_filter_from(r, p);
            if r.filter(p).len() > 0 {
                let x = r.filter(p)[0];
                assert(r.contains(x) && p(x));
            }
        }
    }
}

/// A client that is named without a network is never ambiguous: the device
/// list holds it at most once.
pub proof fn law_client_is_listed_once(s: HubView, c: Uuid)
    requires
        soundness::sound(s),
    ensures
        model::devices(s, None).filter(entry_of(c)).len() <= 1,
        resolved(model::devices(s, None), c) is Err ==> resolved(model::devices(s, None), c)
            == Err::<Option<Uuid>, ServerRespView>(ServerRespView::NotFound),
{
    let all = model::devices(s, None);
    let rows = s.cfg.approved_clients;
    let pool = s.cfg.pending_clients;
    let p = entry_of(c);
    lemma_all_listed(rows);
    assert(rows.filter(model::listed(None)) == rows);
    assert forall|i: int, j: int| 0 <= i < j < all.len() implies !(p(#[trigger] all[i]) && p(
        #[trigger] all[j],
    )) by {
        if j < rows.len() {
            assert(config::row_client()(rows[i]) != config::row_client()(rows[j]));
        } else if i >= rows.len() {
            assert(config::pool_client()(pool[i - rows.len()]) != config::pool_client()(
                pool[j - rows.len()],
            ));
        } else {
            assert(rows[i].client_uuid != pool[j - rows.len()].client_uuid);
        }
    }
    lemma_filter_at_most_one(all, p);
}

/// Without a network to ask for, all members are listed.
proof fn lemma_all_listed(rows: Seq<crate::config::ApprovedView>)
    ensures
        rows.filter(model::listed(None)) == rows,
    decreases rows.len(),
{
    reveal(Seq::filter);
    if rows.len() > 0 {
        lemma_all_listed(rows.drop_last());
        assert(rows.drop_last().push(rows.last()) =~= rows);
    }
}

/// A client that is named without a network is found: in its network, where it
/// is a member, or among those without one. Otherwise it is not found.
pub proof fn law_clients_are_resolved(s: HubView, c: Uuid)
    requires
        soundness::sound(s),
    ensures
        resolved(model::devices(s, None), c) == if s.assigned_net(c) is Some {
            Ok::<Option<Uuid>, ServerRespView>(s.assigned_net(c))
        } else if s.in_pool(c) {
            Ok::<Option<Uuid>, ServerRespView>(None)
        } else {
            Err::<Option<Uuid>, ServerRespView>(ServerRespView::NotFound)
        },
{
    let all = model::devices(s, None);
    let rows = s.cfg.approved_clients;
    let pool = s.cfg.pending_clients;
    let p = entry_of(c);
    let found = all.filter(p);
    law_client_is_listed_once(s, c);
    lemma_all_listed(rows);
    seqs::lemma_filter_from(all, p);
    seqs::lemma_position(rows, config::of_client(c));
    seqs::lemma_position(pool, config::pending_of(c));
    if s.assigned_net(c) is Some {
        let i = seqs::position(rows, config::of_client(c))->0;
        assert(all[i] == model::member_entry(s, rows[i]));
        assert(all.contains(all[i]));
        seqs::lemma_filter_keeps(all, p, all[i]);
        let k = choose|k: int| 0 <= k < found.len() && found[k] == all[i];
        assert(found[0] == all[i]);
    } else if s.in_pool(c) {
        let i = rows.len() + seqs::position(pool, config::pending_of(c))->0;
        assert(all[i].client_uuid == c && all[i].net_uuid is None);
        assert(all.contains(all[i]));
        seqs::lemma_filter_keeps(all, p, all[i]);
        let k = choose|k: int| 0 <= k < found.len() && found[k] == all[i];
        assert(found[0] == all[i]);
    } else if found.len() > 0 {
        assert(all.contains(found[0]) && p(found[0]));
        let k = choose|k: int| 0 <= k < all.len() && all[k] == found[0];
        if k < rows.len() {
            assert(!config::of_client(c)(rows[k]));
        } else {
            assert(!config::pending_of(c)(pool[k - rows.len()]));
        }
    }
}

/// What an admin is answered when a client is to be changed. A member is
/// changed in its network. A client without a network has no admission and no
/// address to change; its name and its subnets can be. Nobody else is found.
pub proof fn law_change_requests(s: HubView, c: Uuid, u: UpdateView, fresh: Uuid)
    requires
        soundness::sound(s),
    ensures
        ({
            let req = ServerReqView::DeviceSet {
                client_uuid: c,
                name: u.name,
                admitted: u.admitted,
                tap_ip: u.tap_ip,
                lan_subnets: u.lan_subnets,
            };
            let (step, next) = request_step(s, req, fresh);
            let fine = u.lan_subnets matches Some(v) ==> forall|i: int|
                0 <= i < v.len() ==> crate::addr::net_parsed(#[trigger] v[i]) is Some;
            if s.assigned_net(c) is Some {
                let n = s.assigned_net(c)->0;
                let (t, r) = model::device_set_step(s, c, n, u);
                step == t && next == match r {
                    DeviceSetStepView::Approve(a) => NextView::PrepareTap {
                        approval: a,
                        client_uuid: c,
                        net_uuid: n,
                    },
                    DeviceSetStepView::Done(DeviceSetView::Updated(d)) => NextView::Reply(
                        ServerRespView::Device(d),
                    ),
                    DeviceSetStepView::Done(DeviceSetView::NotFound) => NextView::Reply(
                        ServerRespView::NotFound,
                    ),
                    DeviceSetStepView::Done(DeviceSetView::InvalidIp) => NextView::Reply(
                        ServerRespView::InvalidIp,
                    ),
                    DeviceSetStepView::Done(DeviceSetView::Conflict { msg }) => NextView::Reply(
                        ServerRespView::Conflict { msg: msg },
                    ),
                }
            } else if !s.in_pool(c) {
                step == (s, Seq::<ActionView>::empty()) && next == NextView::Reply(
                    ServerRespView::NotFound,
                )
            } else if u.admitted is Some || u.tap_ip is Some {
                step == (s, Seq::<ActionView>::empty()) && next == NextView::Reply(
                    ServerRespView::Error(
                        "client "@ + uuids::uuid_chars(c)
                            + " is unassigned (no network); use `assign` first"@,
                    ),
                )
            } else if !fine {
                step == (s, Seq::<ActionView>::empty()) && next == NextView::Reply(
                    ServerRespView::InvalidIp,
                )
            } else {
                let (t, d) = model::patch_step(s, c, u.name, u.lan_subnets);
                step == t && d is Some && next == NextView::Reply(ServerRespView::Device(d->0))
            }
        }),
{
    law_clients_are_resolved(s, c);
}

/// What the other requests of an admin do, and what they are answered. A
/// request that only asks changes nothing.
pub proof fn law_requests(s: HubView, req: ServerReqView, fresh: Uuid)
    requires
        !(req is DeviceSet),
    ensures
        ({
            let (step, next) = request_step(s, req, fresh);
            let quiet = step == (s, Seq::<ActionView>::empty());
            match req {
                ServerReqView::MakeNet { name, bridge_ip } => quiet && match model::planned_net(
                    name,
                    bridge_ip,
                    fresh,
                ) {
                    Ok(n) => next == NextView::CreateBridge(n),
                    Err(m) => next == NextView::Reply(ServerRespView::Error(m)),
                },
                ServerReqView::RenameNet { net_uuid, name } => step == model::rename_step(
                    s,
                    net_uuid,
                    name,
                ).0 && next == NextView::Reply(
                    if s.knows_net(net_uuid) {
                        ServerRespView::Done
                    } else {
                        ServerRespView::NotFound
                    },
                ),
                ServerReqView::DeleteNet { net_uuid } => step == model::delete_net_step(
                    s,
                    net_uuid,
                ).0 && next == NextView::Reply(
                    if s.knows_net(net_uuid) {
                        ServerRespView::Done
                    } else {
                        ServerRespView::NotFound
                    },
                ),
                ServerReqView::AssignClient { client_uuid, net_uuid } => step
                    == model::assign_step(s, client_uuid, net_uuid).0 && next == NextView::Reply(
                    match model::assign_step(s, client_uuid, net_uuid).1 {
                        AssignView::Assigned(d) => ServerRespView::Device(d),
                        AssignView::NotFound => ServerRespView::NotFound,
                        AssignView::UnknownNetwork => ServerRespView::Error("unknown network"@),
                    },
                ),
                ServerReqView::DevicePush { net_uuid } => step == (
                    s,
                    model::push_actions(s, net_uuid),
                ) && next == (NextView::CountRoutes {
                    net_uuid: net_uuid,
                    routes: crate::routes::derived(s.cfg.approved_clients, net_uuid),
                }),
                ServerReqView::DeviceList { net_uuid } => quiet && next == NextView::Reply(
                    ServerRespView::Devices(model::devices(s, net_uuid)),
                ),
                ServerReqView::List => quiet && next == NextView::Reply(
                    ServerRespView::Snapshot(snapshot_data(model::snapshot(s))),
                ),
                ServerReqView::Send { msg } => step == (
                    s,
                    model::broadcast(s.conns, FrameView::Text(msg)),
                ) && next is CountSends,
                ServerReqView::SendFile { name, data } => step == (
                    s,
                    model::broadcast(s.conns, FrameView::File { name: name, data: data }),
                ) && next is CountSends,
                ServerReqView::Shutdown => quiet && next == NextView::Reply(ServerRespView::Done),
                _ => true,
            }
        }),
{
    let n = match req {
        ServerReqView::RenameNet { net_uuid, name } => net_uuid,
        ServerReqView::DeleteNet { net_uuid } => net_uuid,
        _ => fresh,
    };
    seqs::lemma_position(s.cfg.networks, model::net_is(n));
}

/// The snapshot that is sent shows every network, session and waiting client,
/// in the order of the tables.
pub proof fn law_snapshot_is_sent_whole(s: SnapshotView, i: int)
    ensures
        ({
            let d = snapshot_data(s);
            &&& d.networks.len() == s.networks.len()
            &&& d.sessions.len() == s.sessions.len()
            &&& d.pending.len() == s.pending.len()
            &&& 0 <= i < s.networks.len() ==> d.networks[i].name == s.networks[i].name
                && d.networks[i].uuid == s.networks[i].uuid && d.networks[i].bridge_ip
                == s.networks[i].bridge_ip
            &&& 0 <= i < s.sessions.len() ==> {
                let (a, b) = (d.sessions[i], s.sessions[i]);
                &&& a.sid == b.sid.0 && a.client_uuid == b.client && a.net_uuid == b.net
                &&& a.tap_name == b.tap_name && a.tap_ip == b.tap_ip
                &&& a.bound == b.bound_conn is Some
            }
            &&& 0 <= i < s.pending.len() ==> d.pending[i].client_uuid == s.pending[i].client_uuid
                && d.pending[i].net_uuid == s.pending[i].net_uuid
        }),
{
}

} // verus!
