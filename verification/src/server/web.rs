//! What each HTTP request does, and how it is answered.
//!
//! Errors share one shape: a message. A 4xx status is for what the caller can
//! mend: an unknown network or client, a malformed address, an address that
//! is taken.
use vstd::prelude::*;
use vstd::string::*;

use crate::admin::{ServerReqView, ServerRespView};
use crate::config::{ApprovedView, NetRecord, NetView, ServerConfigView};
use crate::device::{DeviceEntry, DeviceView};
use crate::frame;
use crate::frame::{RouteEntry, RouteView};
use crate::hub::model;
use crate::hub::model::{HubView, Step};
use crate::hub::nets;
use crate::hub::{
    ActionView, Approval, ApprovalView, AssignClientResult, AssignView, DeviceSetResult,
    DeviceSetStep, DeviceSetStepView, DeviceSetView, DeviceUpdate, Hub, HubAction,
    SetBridgeIpView, SetNetBridgeIpResult, UpdateView,
};
use crate::routes;
use crate::seqs;
use crate::server::dispatch;
use crate::text;
use crate::uuids;
use crate::uuids::Uuid;

verus! {

/// A network in a list.
#[derive(Debug, Clone, PartialEq, Eq)]
pub struct Network {
    pub id: Uuid,
    pub name: String,
    pub bridge_name: String,
    pub bridge_ip: String,
    pub device_count: usize,
    pub online_count: usize,
    /// Whether the members should be told a new routing table.
    pub routes_dirty: bool,
}

/// The content of a [`Network`].
#[verifier::ext_equal]
pub struct NetworkView {
    pub id: Uuid,
    pub name: Seq<char>,
    pub bridge_name: Seq<char>,
    pub bridge_ip: Seq<char>,
    pub device_count: nat,
    pub online_count: nat,
    pub routes_dirty: bool,
}

impl DeepView for Network {
    type V = NetworkView;

    open spec fn deep_view(&self) -> NetworkView {
        NetworkView {
            id: self.id,
            name: self.name@,
            bridge_name: self.bridge_name@,
            bridge_ip: self.bridge_ip@,
            device_count: self.device_count as nat,
            online_count: self.online_count as nat,
            routes_dirty: self.routes_dirty,
        }
    }
}

/// What a response says.
#[derive(Debug)]
pub enum ApiBody {
    Networks(Vec<Network>),
    Created { id: Uuid, name: String },
    Network(NetRecord),
    Device(DeviceEntry),
    Devices(Vec<DeviceEntry>),
    Pushed { count: u64, routes: Vec<RouteEntry> },
    Error(String),
    Nothing,
}

/// The content of an [`ApiBody`].
#[verifier::ext_equal]
pub enum BodyView {
    Networks(Seq<NetworkView>),
    Created { id: Uuid, name: Seq<char> },
    Network(NetView),
    Device(DeviceView),
    Devices(Seq<DeviceView>),
    Pushed { count: u64, routes: Seq<RouteView> },
    Error(Seq<char>),
    Nothing,
}

impl DeepView for ApiBody {
    type V = BodyView;

    open spec fn deep_view(&self) -> BodyView {
        match self {
            ApiBody::Networks(v) => BodyView::Networks(v.deep_view()),
            ApiBody::Created { id, name } => BodyView::Created { id: *id, name: name@ },
            ApiBody::Network(n) => BodyView::Network(n.deep_view()),
            ApiBody::Device(d) => BodyView::Device(d.deep_view()),
            ApiBody::Devices(v) => BodyView::Devices(v.deep_view()),
            ApiBody::Pushed { count, routes } => BodyView::Pushed {
                count: *count,
                routes: routes.deep_view(),
            },
            ApiBody::Error(m) => BodyView::Error(m@),
            ApiBody::Nothing => BodyView::Nothing,
        }
    }
}

/// A response.
#[derive(Debug)]
pub struct ApiReply {
    pub status: u16,
    pub body: ApiBody,
}

/// The content of an [`ApiReply`].
#[verifier::ext_equal]
pub struct ReplyView {
    pub status: u16,
    pub body: BodyView,
}

impl DeepView for ApiReply {
    type V = ReplyView;

    open spec fn deep_view(&self) -> ReplyView {
        ReplyView { status: self.status, body: self.body.deep_view() }
    }
}

/// A request.
#[derive(Debug)]
pub enum ApiRequest {
    ListNetworks,
    CreateNetwork { name: String },
    PatchNetwork { nid: Uuid, name: Option<String>, bridge_ip: Option<String> },
    DeleteNetwork { nid: Uuid },
    ListDevices { nid: Uuid },
    PatchDevice { nid: Uuid, cid: Uuid, update: DeviceUpdate },
    PushRoutes { nid: Uuid },
    ListClients,
    PatchClient { cid: Uuid, name: Option<String>, lan_subnets: Option<Vec<String>> },
    AssignClient { cid: Uuid, net_uuid: Option<Uuid> },
}

/// The content of an [`ApiRequest`].
#[verifier::ext_equal]
pub enum RequestView {
    ListNetworks,
    CreateNetwork { name: Seq<char> },
    PatchNetwork { nid: Uuid, name: Option<Seq<char>>, bridge_ip: Option<Seq<char>> },
    DeleteNetwork { nid: Uuid },
    ListDevices { nid: Uuid },
    PatchDevice { nid: Uuid, cid: Uuid, update: UpdateView },
    PushRoutes { nid: Uuid },
    ListClients,
    PatchClient { cid: Uuid, name: Option<Seq<char>>, lan_subnets: Option<Seq<Seq<char>>> },
    AssignClient { cid: Uuid, net_uuid: Option<Uuid> },
}

impl DeepView for ApiRequest {
    type V = RequestView;

    open spec fn deep_view(&self) -> RequestView {
        match self {
            ApiRequest::ListNetworks => RequestView::ListNetworks,
            ApiRequest::CreateNetwork { name } => RequestView::CreateNetwork { name: name@ },
            ApiRequest::PatchNetwork { nid, name, bridge_ip } => RequestView::PatchNetwork {
                nid: *nid,
                name: name.deep_view(),
                bridge_ip: bridge_ip.deep_view(),
            },
            ApiRequest::DeleteNetwork { nid } => RequestView::DeleteNetwork { nid: *nid },
            ApiRequest::ListDevices { nid } => RequestView::ListDevices { nid: *nid },
            ApiRequest::PatchDevice { nid, cid, update } => RequestView::PatchDevice {
                nid: *nid,
                cid: *cid,
                update: update.deep_view(),
            },
            ApiRequest::PushRoutes { nid } => RequestView::PushRoutes { nid: *nid },
            ApiRequest::ListClients => RequestView::ListClients,
            ApiRequest::PatchClient { cid, name, lan_subnets } => RequestView::PatchClient {
                cid: *cid,
                name: name.deep_view(),
                lan_subnets: lan_subnets.deep_view(),
            },
            ApiRequest::AssignClient { cid, net_uuid } => RequestView::AssignClient {
                cid: *cid,
                net_uuid: *net_uuid,
            },
        }
    }
}

/// How a request goes on.
#[derive(Debug)]
pub enum ApiNext {
    /// It is answered.
    Reply(ApiReply),
    /// Create the bridge of this network, then call [`finish_create`].
    CreateBridge(NetRecord),
    /// Prepare this TAP, hand the outcome to `do_approve`, then call
    /// [`finish_patch`].
    PrepareTap { approval: Approval, cid: Uuid, nid: Uuid },
    /// Count the clients that got their routes, then call [`finish_push`].
    CountRoutes { nid: Uuid, routes: Vec<RouteEntry> },
}

/// The content of an [`ApiNext`].
#[verifier::ext_equal]
pub enum ApiNextView {
    Reply(ReplyView),
    CreateBridge(NetView),
    PrepareTap { approval: ApprovalView, cid: Uuid, nid: Uuid },
    CountRoutes { nid: Uuid, routes: Seq<RouteView> },
}

impl DeepView for ApiNext {
    type V = ApiNextView;

    open spec fn deep_view(&self) -> ApiNextView {
        match self {
            ApiNext::Reply(r) => ApiNextView::Reply(r.deep_view()),
            ApiNext::CreateBridge(n) => ApiNextView::CreateBridge(n.deep_view()),
            ApiNext::PrepareTap { approval, cid, nid } => ApiNextView::PrepareTap {
                approval: approval.deep_view(),
                cid: *cid,
                nid: *nid,
            },
            ApiNext::CountRoutes { nid, routes } => ApiNextView::CountRoutes {
                nid: *nid,
                routes: routes.deep_view(),
            },
        }
    }
}

// ── What the answers are ─────────────────────────────────────────────────
/// A success.
pub open spec fn ok_reply(body: BodyView) -> ReplyView {
    ReplyView { status: 200, body: body }
}

/// A failure.
pub open spec fn error_reply(status: u16, msg: Seq<char>) -> ReplyView {
    ReplyView { status: status, body: BodyView::Error(msg) }
}

/// Selects the entries of a network.
pub open spec fn entry_in(n: Uuid) -> spec_fn(DeviceView) -> bool {
    |d: DeviceView| d.net_uuid == Some(n)
}

/// Selects the connected entries of a network.
pub open spec fn online_in(n: Uuid) -> spec_fn(DeviceView) -> bool {
    |d: DeviceView| d.net_uuid == Some(n) && d.online
}

/// A network as it is listed.
pub open spec fn network_row(s: HubView, n: NetView) -> NetworkView {
    let devices = model::devices(s, None);
    NetworkView {
        id: n.uuid,
        name: n.name,
        bridge_name: n.bridge_name,
        bridge_ip: n.bridge_ip,
        device_count: devices.filter(entry_in(n.uuid)).len(),
        online_count: devices.filter(online_in(n.uuid)).len(),
        routes_dirty: model::dirty_nets(s).contains(n.uuid),
    }
}

/// The answer to a change of a member; `missing` where there is no such
/// member.
pub open spec fn set_reply(r: DeviceSetView, missing: Seq<char>) -> ReplyView {
    match r {
        DeviceSetView::Updated(d) => ok_reply(BodyView::Device(d)),
        DeviceSetView::NotFound => error_reply(404, missing),
        DeviceSetView::InvalidIp => error_reply(400, "invalid IP/CIDR"@),
        DeviceSetView::Conflict { msg } => error_reply(409, msg),
    }
}

/// The answer to a move of a client.
pub open spec fn assign_reply(r: AssignView) -> ReplyView {
    match r {
        AssignView::Assigned(d) => ok_reply(BodyView::Device(d)),
        AssignView::NotFound => error_reply(404, "unknown client"@),
        AssignView::UnknownNetwork => error_reply(400, "unknown network"@),
    }
}

/// The record of a network, as it is now.
pub open spec fn record_reply(s: HubView, nid: Uuid) -> ReplyView {
    match seqs::first_where(s.cfg.networks, model::net_is(nid)) {
        Some(n) => ok_reply(BodyView::Network(n)),
        None => error_reply(404, "unknown network"@),
    }
}

/// The address of a network's bridge is changed, where a new one is given.
pub open spec fn patch_ip_step(s: HubView, nid: Uuid, ip: Option<Seq<char>>) -> (Step, ReplyView) {
    match ip {
        None => ((s, Seq::empty()), record_reply(s, nid)),
        Some(ip) => {
            let (t, r) = model::set_bridge_ip_step(s, nid, ip);
            (
                t,
                match r {
                    SetBridgeIpView::Updated(_) => record_reply(t.0, nid),
                    SetBridgeIpView::NotFound => error_reply(404, "unknown network"@),
                    SetBridgeIpView::Invalid(m) => error_reply(400, m),
                },
            )
        },
    }
}

/// A network is changed: its name first, then the address of its bridge.
pub open spec fn patch_network_step(
    s: HubView,
    nid: Uuid,
    name: Option<Seq<char>>,
    ip: Option<Seq<char>>,
) -> (Step, ReplyView) {
    if !s.knows_net(nid) {
        ((s, Seq::empty()), error_reply(404, "unknown network"@))
    } else {
        match name {
            None => patch_ip_step(s, nid, ip),
            Some(name) => {
                let n = text::trimmed(name);
                if n.len() == 0 {
                    ((s, Seq::empty()), error_reply(400, "name is required"@))
                } else {
                    let (t, a) = model::rename_step(s, nid, n).0;
                    let ((u, b), r) = patch_ip_step(t, nid, ip);
                    ((u, a + b), r)
                }
            },
        }
    }
}

/// A client is changed, wherever it is.
pub open spec fn patch_client_step(
    s: HubView,
    cid: Uuid,
    name: Option<Seq<char>>,
    subnets: Option<Seq<Seq<char>>>,
) -> (Step, ApiNextView) {
    match seqs::first_where(model::devices(s, None), dispatch::entry_of(cid)) {
        None => (
            (s, Seq::empty()),
            ApiNextView::Reply(error_reply(404, "unknown client"@)),
        ),
        Some(d) => match d.net_uuid {
            Some(nid) => {
                let u = UpdateView {
                    name: name,
                    admitted: None,
                    tap_ip: None,
                    lan_subnets: subnets,
                };
                let (t, r) = model::device_set_step(s, cid, nid, u);
                (
                    t,
                    match r {
                        DeviceSetStepView::Done(r) => ApiNextView::Reply(
                            set_reply(r, "client gone"@),
                        ),
                        DeviceSetStepView::Approve(a) => ApiNextView::PrepareTap {
                            approval: a,
                            cid: cid,
                            nid: nid,
                        },
                    },
                )
            },
            None => {
                let (t, d) = model::patch_step(s, cid, name, subnets);
                (
                    t,
                    ApiNextView::Reply(
                        match d {
                            Some(d) => ok_reply(BodyView::Device(d)),
                            None => error_reply(404, "client gone"@),
                        },
                    ),
                )
            },
        },
    }
}

/// What a request does. `fresh` is the identity of a network that it may
/// create.
pub open spec fn api_step(s: HubView, req: RequestView, fresh: Uuid) -> (Step, ApiNextView) {
    let unknown = ((s, Seq::empty()), ApiNextView::Reply(error_reply(404, "unknown network"@)));
    match req {
        RequestView::ListNetworks => (
            (s, Seq::empty()),
            ApiNextView::Reply(
                ok_reply(
                    BodyView::Networks(s.cfg.networks.map_values(|n: NetView| network_row(s, n))),
                ),
            ),
        ),
        RequestView::CreateNetwork { name } => {
            let n = text::trimmed(name);
            (
                (s, Seq::empty()),
                if n.len() == 0 {
                    ApiNextView::Reply(error_reply(400, "name is required"@))
                } else {
                    match model::planned_net(n, None, fresh) {
                        Ok(rec) => ApiNextView::CreateBridge(rec),
                        Err(m) => ApiNextView::Reply(error_reply(400, m)),
                    }
                },
            )
        },
        RequestView::PatchNetwork { nid, name, bridge_ip } => {
            let (t, r) = patch_network_step(s, nid, name, bridge_ip);
            (t, ApiNextView::Reply(r))
        },
        RequestView::DeleteNetwork { nid } => {
            let (t, found) = model::delete_net_step(s, nid);
            (
                t,
                ApiNextView::Reply(
                    if found {
                        ReplyView { status: 204, body: BodyView::Nothing }
                    } else {
                        error_reply(404, "unknown network"@)
                    },
                ),
            )
        },
        RequestView::ListDevices { nid } => if s.knows_net(nid) {
            (
                (s, Seq::empty()),
                ApiNextView::Reply(ok_reply(BodyView::Devices(model::devices(s, Some(nid))))),
            )
        } else {
            unknown
        },
        RequestView::PatchDevice { nid, cid, update } => if s.knows_net(nid) {
            let (t, r) = model::device_set_step(s, cid, nid, update);
            (
                t,
                match r {
                    DeviceSetStepView::Done(r) => ApiNextView::Reply(
                        set_reply(r, "no such device in this network"@),
                    ),
                    DeviceSetStepView::Approve(a) => ApiNextView::PrepareTap {
                        approval: a,
                        cid: cid,
                        nid: nid,
                    },
                },
            )
        } else {
            unknown
        },
        RequestView::PushRoutes { nid } => if s.knows_net(nid) {
            (
                (s, model::push_actions(s, nid)),
                ApiNextView::CountRoutes {
                    nid: nid,
                    routes: routes::derived(s.cfg.approved_clients, nid),
                },
            )
        } else {
            unknown
        },
        RequestView::ListClients => (
            (s, Seq::empty()),
            ApiNextView::Reply(ok_reply(BodyView::Devices(model::devices(s, None)))),
        ),
        RequestView::PatchClient { cid, name, lan_subnets } => patch_client_step(
            s,
            cid,
            name,
            lan_subnets,
        ),
        RequestView::AssignClient { cid, net_uuid } => {
            let (t, r) = model::assign_step(s, cid, net_uuid);
            (t, ApiNextView::Reply(assign_reply(r)))
        },
    }
}

// ── Carrying them out ────────────────────────────────────────────────────
fn nothing() -> (r: Vec<HubAction>)
    ensures
        r.deep_view() == Seq::<ActionView>::empty(),
{
    let r: Vec<HubAction> = Vec::new();
    assert(r.deep_view() =~= Seq::<ActionView>::empty());
    r
}

fn good(body: ApiBody) -> (r: ApiReply)
    ensures
        r.deep_view() == ok_reply(body.deep_view()),
{
    ApiReply { status: 200, body: body }
}

fn bad(status: u16, msg: &str) -> (r: ApiReply)
    ensures
        r.deep_view() == error_reply(status, msg@),
{
    ApiReply { status: status, body: ApiBody::Error(msg.to_owned()) }
}

/// The answer to a change of a member.
fn set_answer(r: DeviceSetResult, missing: &str) -> (a: ApiReply)
    ensures
        a.deep_view() == set_reply(r.deep_view(), missing@),
{
    match r {
        DeviceSetResult::Updated(d) => good(ApiBody::Device(d)),
        DeviceSetResult::NotFound => bad(404, missing),
        DeviceSetResult::InvalidIp => bad(400, "invalid IP/CIDR"),
        DeviceSetResult::Conflict { msg } => bad(409, msg.as_str()),
    }
}

/// How many entries of a network there are, and how many are connected.
fn count_in(devices: &Vec<DeviceEntry>, n: Uuid) -> (r: (usize, usize))
    ensures
        r.0 == devices.deep_view().filter(entry_in(n)).len(),
        r.1 == devices.deep_view().filter(online_in(n)).len(),
{
    let ghost all = devices.deep_view();
    let mut members: usize = 0;
    let mut online: usize = 0;
    let mut i: usize = 0;
    proof {
        seqs::lemma_filter_start(all, entry_in(n));
        seqs::lemma_filter_start(all, online_in(n));
    }
    while i < devices.len()
        invariant
            0 <= i <= devices.len(),
            all == devices.deep_view(),
            members <= i,
            online <= i,
            members == all.take(i as int).filter(entry_in(n)).len(),
            online == all.take(i as int).filter(online_in(n)).len(),
        decreases devices.len() - i,
    {
        proof {
            seqs::lemma_filter_step(all, entry_in(n), i as int);
            seqs::lemma_filter_step(all, online_in(n), i as int);
            assert(all[i as int] == devices[i as int].deep_view());
        }
        if uuids::same_opt_uuid(devices[i].net_uuid, Some(n)) {
            members += 1;
            if devices[i].online {
                online += 1;
            }
        }
        i += 1;
    }
    assert(all.take(i as int) =~= all);
    (members, online)
}

fn holds(v: &Vec<Uuid>, n: Uuid) -> (r: bool)
    ensures
        r == v@.contains(n),
{
    let mut i: usize = 0;
    while i < v.len()
        invariant
            0 <= i <= v.len(),
            forall|j: int| 0 <= j < i ==> v@[j] != n,
        decreases v.len() - i,
    {
        if v[i] == n {
            assert(v@[i as int] == n);
            return true;
        }
        i += 1;
    }
    false
}

fn list_networks(hub: &Hub) -> (r: Vec<Network>)
    ensures
        r.deep_view() == hub.deep_view().cfg.networks.map_values(
            |n: NetView| network_row(hub.deep_view(), n),
        ),
{
    let ghost s = hub.deep_view();
    let devices = hub.handle_device_list(None);
    let dirty = hub.routes_dirty_set();
    let mut out: Vec<Network> = Vec::new();
    let mut i: usize = 0;
    while i < hub.cfg.networks.len()
        invariant
            0 <= i <= hub.cfg.networks.len(),
            s == hub.deep_view(),
            devices.deep_view() == model::devices(s, None),
            dirty@ == model::dirty_nets(s),
            out.len() == i,
            forall|j: int|
                0 <= j < i ==> (#[trigger] out[j]).deep_view() == network_row(
                    s,
                    s.cfg.networks[j],
                ),
        decreases hub.cfg.networks.len() - i,
    {
        let n = &hub.cfg.networks[i];
        assert(s.cfg.networks[i as int] == n.deep_view());
        let (members, online) = count_in(&devices, n.uuid);
        out.push(
            Network {
                id: n.uuid,
                name: n.name.clone(),
                bridge_name: n.bridge_name.clone(),
                bridge_ip: n.bridge_ip.clone(),
                device_count: members,
                online_count: online,
                routes_dirty: holds(&dirty, n.uuid),
            },
        );
        i += 1;
    }
    assert(out.deep_view() =~= s.cfg.networks.map_values(|n: NetView| network_row(s, n)));
    out
}

fn record(hub: &Hub, nid: Uuid) -> (r: ApiReply)
    ensures
        r.deep_view() == record_reply(hub.deep_view(), nid),
{
    let ghost nets = hub.deep_view().cfg.networks;
    let mut i: usize = 0;
    while i < hub.cfg.networks.len()
        invariant
            0 <= i <= hub.cfg.networks.len(),
            nets == hub.deep_view().cfg.networks,
            forall|j: int| 0 <= j < i ==> !model::net_is(nid)(#[trigger] nets[j]),
        decreases hub.cfg.networks.len() - i,
    {
        assert(nets[i as int] == hub.cfg.networks[i as int].deep_view());
        if hub.cfg.networks[i].uuid == nid {
            proof {
                seqs::lemma_position_is(nets, model::net_is(nid), i as int);
            }
            return good(ApiBody::Network(hub.cfg.networks[i].copy()));
        }
        i += 1;
    }
    proof {
        seqs::lemma_position_none(nets, model::net_is(nid));
    }
    bad(404, "unknown network")
}

fn patch_ip(hub: &mut Hub, nid: Uuid, ip: Option<String>) -> (r: (Vec<HubAction>, ApiReply))
    ensures
        final(hub).deep_view() == patch_ip_step(old(hub).deep_view(), nid, ip.deep_view()).0.0,
        r.0.deep_view() == patch_ip_step(old(hub).deep_view(), nid, ip.deep_view()).0.1,
        r.1.deep_view() == patch_ip_step(old(hub).deep_view(), nid, ip.deep_view()).1,
{
    match ip {
        None => (nothing(), record(hub, nid)),
        Some(ip) => {
            let (acts, r) = hub.handle_set_net_bridge_ip(nid, &ip);
            match r {
                SetNetBridgeIpResult::Updated(_) => (acts, record(hub, nid)),
                SetNetBridgeIpResult::NotFound => (acts, bad(404, "unknown network")),
                SetNetBridgeIpResult::Invalid(m) => (acts, bad(400, m.as_str())),
            }
        },
    }
}

fn patch_network(hub: &mut Hub, nid: Uuid, name: Option<String>, ip: Option<String>) -> (r: (
    Vec<HubAction>,
    ApiReply,
))
    ensures
        final(hub).deep_view() == patch_network_step(
            old(hub).deep_view(),
            nid,
            name.deep_view(),
            ip.deep_view(),
        ).0.0,
        r.0.deep_view() == patch_network_step(
            old(hub).deep_view(),
            nid,
            name.deep_view(),
            ip.deep_view(),
        ).0.1,
        r.1.deep_view() == patch_network_step(
            old(hub).deep_view(),
            nid,
            name.deep_view(),
            ip.deep_view(),
        ).1,
{
    if !hub.network_exists(nid) {
        return (nothing(), bad(404, "unknown network"));
    }
    match name {
        None => patch_ip(hub, nid, ip),
        Some(name) => {
            let n = text::trim(name.as_str());
            if n.is_empty() {
                return (nothing(), bad(400, "name is required"));
            }
            let (mut acts, _) = hub.handle_rename_net(nid, &n.to_owned());
            let (mut more, reply) = patch_ip(hub, nid, ip);
            let ghost (a, b) = (acts.deep_view(), more.deep_view());
            acts.append(&mut more);
            assert(acts.deep_view() =~= a + b);
            (acts, reply)
        },
    }
}

/// The entry of a client.
fn find_entry(devices: &Vec<DeviceEntry>, cid: Uuid) -> (r: Option<usize>)
    ensures
        match r {
            Some(i) => i < devices.len() && seqs::position(
                devices.deep_view(),
                dispatch::entry_of(cid),
            ) == Some(i as int),
            None => seqs::position(devices.deep_view(), dispatch::entry_of(cid)) is None,
        },
{
    let mut i: usize = 0;
    while i < devices.len()
        invariant
            0 <= i <= devices.len(),
            forall|j: int| 0 <= j < i ==> (#[trigger] devices[j]).client_uuid != cid,
        decreases devices.len() - i,
    {
        if devices[i].client_uuid == cid {
            proof {
                seqs::lemma_position_is(
                    devices.deep_view(),
                    dispatch::entry_of(cid),
                    i as int,
                );
            }
            return Some(i);
        }
        i += 1;
    }
    proof {
        seqs::lemma_position_none(devices.deep_view(), dispatch::entry_of(cid));
    }
    None
}

fn patch_client(
    hub: &mut Hub,
    cid: Uuid,
    name: Option<String>,
    lan_subnets: Option<Vec<String>>,
) -> (r: (Vec<HubAction>, ApiNext))
    ensures
        final(hub).deep_view() == patch_client_step(
            old(hub).deep_view(),
            cid,
            name.deep_view(),
            lan_subnets.deep_view(),
        ).0.0,
        r.0.deep_view() == patch_client_step(
            old(hub).deep_view(),
            cid,
            name.deep_view(),
            lan_subnets.deep_view(),
        ).0.1,
        r.1.deep_view() == patch_client_step(
            old(hub).deep_view(),
            cid,
            name.deep_view(),
            lan_subnets.deep_view(),
        ).1,
{
    let devices = hub.handle_device_list(None);
    let i: usize = match find_entry(&devices, cid) {
        Some(i) => i,
        None => {
            return (nothing(), ApiNext::Reply(bad(404, "unknown client")));
        },
    };
    assert(devices.deep_view()[i as int] == devices[i as int].deep_view());
    match devices[i].net_uuid {
        Some(nid) => {
            let u = DeviceUpdate {
                name: name,
                admitted: None,
                tap_ip: None,
                lan_subnets: lan_subnets,
            };
            let (acts, step) = hub.handle_device_set(cid, nid, u);
            match step {
                DeviceSetStep::Done(r) => (acts, ApiNext::Reply(set_answer(r, "client gone"))),
                DeviceSetStep::Approve(a) => (
                    acts,
                    ApiNext::PrepareTap { approval: a, cid: cid, nid: nid },
                ),
            }
        },
        None => {
            let (acts, d) = hub.handle_patch_pending_client(cid, name, lan_subnets);
            match d {
                Some(d) => (acts, ApiNext::Reply(good(ApiBody::Device(d)))),
                None => (acts, ApiNext::Reply(bad(404, "client gone"))),
            }
        },
    }
}

/// Carries out a request. The identity of a network that it may create is drawn
/// at random.
pub fn api(hub: &mut Hub, req: ApiRequest) -> (r: (Vec<HubAction>, ApiNext))
    ensures
        exists|u: Uuid| #[trigger]
            uuids::is_random(u) && api_step(old(hub).deep_view(), req.deep_view(), u) == (
                (final(hub).deep_view(), r.0.deep_view()),
                r.1.deep_view(),
            ),
{
    let fresh = Uuid::fresh();
    let r = api_with(hub, req, fresh);
    assert(uuids::is_random(fresh));
    r
}

/// Carries out a request. `fresh` is the identity of a network that it may
/// create.
pub fn api_with(hub: &mut Hub, req: ApiRequest, fresh: Uuid) -> (r: (Vec<HubAction>, ApiNext))
    ensures
        final(hub).deep_view() == api_step(old(hub).deep_view(), req.deep_view(), fresh).0.0,
        r.0.deep_view() == api_step(old(hub).deep_view(), req.deep_view(), fresh).0.1,
        r.1.deep_view() == api_step(old(hub).deep_view(), req.deep_view(), fresh).1,
{
    match req {
        ApiRequest::ListNetworks => (
            nothing(),
            ApiNext::Reply(good(ApiBody::Networks(list_networks(hub)))),
        ),
        ApiRequest::CreateNetwork { name } => {
            let n = text::trim(name.as_str());
            if n.is_empty() {
                return (nothing(), ApiNext::Reply(bad(400, "name is required")));
            }
            match nets::plan_net(n, None, fresh) {
                Ok(rec) => (nothing(), ApiNext::CreateBridge(rec)),
                Err(m) => (nothing(), ApiNext::Reply(bad(400, m.as_str()))),
            }
        },
        ApiRequest::PatchNetwork { nid, name, bridge_ip } => {
            let (acts, reply) = patch_network(hub, nid, name, bridge_ip);
            (acts, ApiNext::Reply(reply))
        },
        ApiRequest::DeleteNetwork { nid } => {
            let (acts, found) = hub.handle_delete_net(nid);
            if found {
                (acts, ApiNext::Reply(ApiReply { status: 204, body: ApiBody::Nothing }))
            } else {
                (acts, ApiNext::Reply(bad(404, "unknown network")))
            }
        },
        ApiRequest::ListDevices { nid } => {
            if hub.network_exists(nid) {
                let devices = hub.handle_device_list(Some(nid));
                (nothing(), ApiNext::Reply(good(ApiBody::Devices(devices))))
            } else {
                (nothing(), ApiNext::Reply(bad(404, "unknown network")))
            }
        },
        ApiRequest::PatchDevice { nid, cid, update } => {
            if !hub.network_exists(nid) {
                return (nothing(), ApiNext::Reply(bad(404, "unknown network")));
            }
            let (acts, step) = hub.handle_device_set(cid, nid, update);
            match step {
                DeviceSetStep::Done(r) => (
                    acts,
                    ApiNext::Reply(set_answer(r, "no such device in this network")),
                ),
                DeviceSetStep::Approve(a) => (
                    acts,
                    ApiNext::PrepareTap { approval: a, cid: cid, nid: nid },
                ),
            }
        },
        ApiRequest::PushRoutes { nid } => {
            if !hub.network_exists(nid) {
                return (nothing(), ApiNext::Reply(bad(404, "unknown network")));
            }
            let (acts, table) = hub.handle_device_push(nid);
            (acts, ApiNext::CountRoutes { nid: nid, routes: table })
        },
        ApiRequest::ListClients => {
            let devices = hub.handle_device_list(None);
            (nothing(), ApiNext::Reply(good(ApiBody::Devices(devices))))
        },
        ApiRequest::PatchClient { cid, name, lan_subnets } => patch_client(
            hub,
            cid,
            name,
            lan_subnets,
        ),
        ApiRequest::AssignClient { cid, net_uuid } => {
            let (acts, r) = hub.handle_assign_client(cid, net_uuid);
            let reply = match r {
                AssignClientResult::Assigned(d) => good(ApiBody::Device(d)),
                AssignClientResult::NotFound => bad(404, "unknown client"),
                AssignClientResult::UnknownNetwork => bad(400, "unknown network"),
            };
            (acts, ApiNext::Reply(reply))
        },
    }
}

/// The bridge of a new network was created, or could not be.
pub fn finish_create(hub: &mut Hub, rec: NetRecord, up: bool) -> (r: (Vec<HubAction>, ApiReply))
    ensures
        final(hub).deep_view() == model::add_net_step(
            old(hub).deep_view(),
            rec.deep_view(),
            up,
        ).0,
        r.0.deep_view() == model::add_net_step(old(hub).deep_view(), rec.deep_view(), up).1,
        r.1.deep_view() == ok_reply(BodyView::Created { id: rec.uuid, name: rec.name@ }),
{
    let id = rec.uuid;
    let name = rec.name.clone();
    let acts = hub.add_net(rec, up);
    (acts, good(ApiBody::Created { id: id, name: name }))
}

/// The outcome of preparing the TAP was handed to `do_approve`.
pub fn finish_patch(hub: &mut Hub, cid: Uuid, nid: Uuid) -> (r: (Vec<HubAction>, ApiReply))
    ensures
        final(hub).deep_view() == model::finish_set_step(old(hub).deep_view(), cid, nid).0.0,
        r.0.deep_view() == model::finish_set_step(old(hub).deep_view(), cid, nid).0.1,
        r.1.deep_view() == set_reply(
            model::finish_set_step(old(hub).deep_view(), cid, nid).1,
            "no such device in this network"@,
        ),
{
    let (acts, r) = hub.finish_device_set(cid, nid);
    (acts, set_answer(r, "no such device in this network"))
}

/// `count` clients got their routes.
pub fn finish_push(hub: &mut Hub, nid: Uuid, table: &Vec<RouteEntry>, count: u64) -> (r: (
    Vec<HubAction>,
    ApiReply,
))
    ensures
        final(hub).deep_view() == model::finish_push_step(
            old(hub).deep_view(),
            nid,
            table.deep_view(),
            count,
        ).0,
        r.0.deep_view() == model::finish_push_step(
            old(hub).deep_view(),
            nid,
            table.deep_view(),
            count,
        ).1,
        r.1.deep_view() == ok_reply(
            BodyView::Pushed { count: count, routes: table.deep_view() },
        ),
{
    let acts = hub.finish_device_push(nid, table, count);
    (acts, good(ApiBody::Pushed { count: count, routes: frame::copy_routes(table) }))
}

/// Whether a request gives a network a name that is fine and an address that is
/// not: the name is taken before the address is looked at.
pub open spec fn half_done(s: HubView, req: RequestView) -> bool {
    req matches RequestView::PatchNetwork { nid, name, bridge_ip } && s.knows_net(nid) && (
    name matches Some(n) && text::trimmed(n).len() > 0) && (bridge_ip matches Some(ip)
        && model::checked_ip(ip) is Err)
}

/// A request that fails changes nothing and does nothing, but for a network
/// whose new name was fine and whose new address was not.
pub proof fn law_failed_requests_change_nothing(s: HubView, req: RequestView, fresh: Uuid)
    requires
        !half_done(s, req),
    ensures
        api_step(s, req, fresh).1 matches ApiNextView::Reply(r) && r.status >= 400 ==> api_step(
            s,
            req,
            fresh,
        ).0 == (s, Seq::<ActionView>::empty()),
{
    match req {
        RequestView::PatchNetwork { nid, name, bridge_ip } => {
            match (name, bridge_ip) {
                (Some(n), Some(ip)) => {
                    let t = model::rename_step(s, nid, text::trimmed(n)).0.0;
                    lemma_renamed_is_known(s, nid, text::trimmed(n));
                    lemma_readdressed_is_known(t, nid, ip);
                },
                (Some(n), None) => {
                    lemma_renamed_is_known(s, nid, text::trimmed(n));
                },
                (None, Some(ip)) => {
                    lemma_readdressed_is_known(s, nid, ip);
                },
                (None, None) => {},
            }
        },
        RequestView::PatchDevice { nid, cid, update } => {
            lemma_failed_set(s, cid, nid, update);
        },
        RequestView::PatchClient { cid, name, lan_subnets } => {
            match seqs::first_where(model::devices(s, None), dispatch::entry_of(cid)) {
                Some(d) => match d.net_uuid {
                    Some(nid) => {
                        lemma_failed_set(
                            s,
                            cid,
                            nid,
                            UpdateView {
                                name: name,
                                admitted: None,
                                tap_ip: None,
                                lan_subnets: lan_subnets,
                            },
                        );
                    },
                    None => {},
                },
                None => {},
            }
        },
        _ => {},
    }
}

/// A change of a member that is not applied changes nothing.
proof fn lemma_failed_set(s: HubView, c: Uuid, n: Uuid, u: UpdateView)
    ensures
        model::device_set_step(s, c, n, u).1 matches DeviceSetStepView::Done(r) && !(
        r is Updated) ==> model::device_set_step(s, c, n, u).0 == (
            s,
            Seq::<ActionView>::empty(),
        ),
{
    match model::refused(s, c, n, u) {
        Some(_) => {},
        None => {
            let rows = s.cfg.approved_clients;
            let p = model::of_pair(c, n);
            seqs::lemma_position(rows, p);
            let i = seqs::position(rows, p)->0;
            let new = model::updated_row(rows[i], u);
            seqs::lemma_position_update(rows, p, i, new);
        },
    }
}

/// A network is known under its new name.
proof fn lemma_renamed_is_known(s: HubView, n: Uuid, name: Seq<char>)
    ensures
        model::rename_step(s, n, name).0.0.knows_net(n) == s.knows_net(n),
{
    let nets = s.cfg.networks;
    let p = model::net_is(n);
    seqs::lemma_position(nets, p);
    match seqs::position(nets, p) {
        Some(i) => {
            seqs::lemma_position_update(nets, p, i, NetView { name: name, ..nets[i] });
        },
        None => {},
    }
}

/// A network is known with its new address.
proof fn lemma_readdressed_is_known(s: HubView, n: Uuid, ip: Seq<char>)
    ensures
        model::set_bridge_ip_step(s, n, ip).0.0.knows_net(n) == s.knows_net(n),
{
    let nets = s.cfg.networks;
    let p = model::net_is(n);
    seqs::lemma_position(nets, p);
    match (model::checked_ip(ip), seqs::position(nets, p)) {
        (Ok(net), Some(i)) => {
            let rec = NetView { bridge_ip: ip, ..nets[i] };
            seqs::lemma_position_update(nets, p, i, rec);
            match model::new_prefix(nets[i].bridge_ip, net) {
                Some(prefix) => {
                    let rows = s.cfg.approved_clients;
                    let t = HubView {
                        cfg: ServerConfigView {
                            networks: nets.update(i, rec),
                            approved_clients: model::rewritten_rows(rows, n, prefix),
                            ..s.cfg
                        },
                        ..s
                    };
                    lemma_notify_keeps_cfg(t, n, prefix, rows);
                },
                None => {},
            }
        },
        _ => {},
    }
}

/// Telling sessions their addresses leaves the configuration as it is.
proof fn lemma_notify_keeps_cfg(s: HubView, n: Uuid, prefix: u8, rows: Seq<ApprovedView>)
    ensures
        model::notify_step(s, n, prefix, rows).0.cfg == s.cfg,
    decreases rows.len(),
{
    if rows.len() > 0 {
        lemma_notify_keeps_cfg(s, n, prefix, rows.drop_last());
    }
}

/// The web interface and the admin socket do the same: deleting a network,
/// moving a client, pushing routes, renaming a network and changing a member
/// have the same effect from either side.
pub proof fn law_surfaces_agree(
    s: HubView,
    n: Uuid,
    c: Uuid,
    target: Option<Uuid>,
    name: Seq<char>,
    u: UpdateView,
    fresh: Uuid,
)
    ensures
        api_step(s, RequestView::DeleteNetwork { nid: n }, fresh).0 == dispatch::request_step(
            s,
            ServerReqView::DeleteNet { net_uuid: n },
            fresh,
        ).0,
        api_step(s, RequestView::AssignClient { cid: c, net_uuid: target }, fresh).0
            == dispatch::request_step(
            s,
            ServerReqView::AssignClient { client_uuid: c, net_uuid: target },
            fresh,
        ).0,
        s.knows_net(n) ==> api_step(s, RequestView::PushRoutes { nid: n }, fresh).0
            == dispatch::request_step(s, ServerReqView::DevicePush { net_uuid: n }, fresh).0,
        name.len() > 0 && text::trimmed(name) == name ==> api_step(
            s,
            RequestView::PatchNetwork { nid: n, name: Some(name), bridge_ip: None },
            fresh,
        ).0 == dispatch::request_step(
            s,
            ServerReqView::RenameNet { net_uuid: n, name: name },
            fresh,
        ).0,
        s.knows_net(n) && dispatch::resolved(model::devices(s, None), c) == Ok::<
            Option<Uuid>,
            ServerRespView,
        >(Some(n)) ==> api_step(
            s,
            RequestView::PatchDevice { nid: n, cid: c, update: u },
            fresh,
        ).0 == dispatch::request_step(
            s,
            ServerReqView::DeviceSet {
                client_uuid: c,
                name: u.name,
                admitted: u.admitted,
                tap_ip: u.tap_ip,
                lan_subnets: u.lan_subnets,
            },
            fresh,
        ).0,
{
    let a = model::rename_step(s, n, name).0.1;
    assert(a + Seq::<ActionView>::empty() =~= a);
}

/// The list of networks shows every network with its record, and with as many
/// devices as its device list has; those that are online are counted too.
pub proof fn law_networks_are_counted(s: HubView, i: int, fresh: Uuid)
    requires
        0 <= i < s.cfg.networks.len(),
    ensures
        ({
            let n = s.cfg.networks[i];
            let mine = model::devices(s, Some(n.uuid));
            &&& api_step(s, RequestView::ListNetworks, fresh).0 == (s, Seq::<ActionView>::empty())
            &&& api_step(s, RequestView::ListNetworks, fresh).1 matches ApiNextView::Reply(r)
                && r.status == 200 && (r.body matches BodyView::Networks(v) && v.len()
                == s.cfg.networks.len() && v[i].id == n.uuid && v[i].name == n.name
                && v[i].bridge_name == n.bridge_name && v[i].bridge_ip == n.bridge_ip
                && v[i].device_count == mine.len() && v[i].online_count == mine.filter(
                |d: DeviceView| d.online,
            ).len() && v[i].routes_dirty == s.dirty.contains(
                crate::hub::DirtyFlag { net: n.uuid, dirty: true },
            ))
        }),
{
    let n = s.cfg.networks[i].uuid;
    let rows = s.cfg.approved_clients;
    let f = |a: ApprovedView| model::member_entry(s, a);
    crate::hub::clients::law_snapshot_shows_the_tables(s, n);
    let all = model::devices(s, None);
    let members = rows.filter(model::listed(None)).map_values(f);
    let free = all.skip(members.len() as int);
    assert(all =~= members + free);
    crate::hub::clients::lemma_all_pass(rows, model::listed(None));
    lemma_filter_mapped(s, rows, n);
    lemma_filter_free(free, entry_in(n));
    lemma_filter_free(free, online_in(n));
    lemma_filter_sum(members, free, entry_in(n));
    lemma_filter_sum(members, free, online_in(n));
    let on = |d: DeviceView| d.online;
    lemma_filter_both(members, n);
    assert(members.filter(entry_in(n)).filter(on) == members.filter(online_in(n)));
}

/// Filtering two parts one after the other.
proof fn lemma_filter_sum(a: Seq<DeviceView>, b: Seq<DeviceView>, q: spec_fn(DeviceView) -> bool)
    ensures
        (a + b).filter(q) == a.filter(q) + b.filter(q),
    decreases b.len(),
{
    reveal(Seq::filter);
    if b.len() == 0 {
        assert(a + b =~= a);
        assert(a.filter(q) + b.filter(q) =~= a.filter(q));
    } else {
        lemma_filter_sum(a, b.drop_last(), q);
        assert((a + b).drop_last() =~= a + b.drop_last());
        assert((a + b).last() == b.last());
        if q(b.last()) {
            assert((a.filter(q) + b.drop_last().filter(q)).push(b.last()) =~= a.filter(q)
                + b.drop_last().filter(q).push(b.last()));
        }
    }
}

/// Clients without a network are in none.
proof fn lemma_filter_free(v: Seq<DeviceView>, q: spec_fn(DeviceView) -> bool)
    requires
        forall|i: int| 0 <= i < v.len() ==> !q(#[trigger] v[i]),
    ensures
        v.filter(q) == Seq::<DeviceView>::empty(),
    decreases v.len(),
{
    reveal(Seq::filter);
    if v.len() > 0 {
        let front = v.drop_last();
        assert forall|i: int| 0 <= i < front.len() implies !q(#[trigger] front[i]) by {
            assert(!q(v[i]));
        }
        lemma_filter_free(front, q);
        assert(!q(v[v.len() - 1]));
    }
}

/// The members of a network among all are those in its own list.
proof fn lemma_filter_mapped(s: HubView, rows: Seq<ApprovedView>, n: Uuid)
    ensures
        rows.map_values(|a: ApprovedView| model::member_entry(s, a)).filter(entry_in(n))
            == rows.filter(model::listed(Some(n))).map_values(
            |a: ApprovedView| model::member_entry(s, a),
        ),
    decreases rows.len(),
{
    reveal(Seq::filter);
    let f = |a: ApprovedView| model::member_entry(s, a);
    if rows.len() > 0 {
        let front = rows.drop_last();
        lemma_filter_mapped(s, front, n);
        assert(rows.map_values(f).drop_last() =~= front.map_values(f));
        if model::listed(Some(n))(rows.last()) {
            assert(front.filter(model::listed(Some(n))).push(rows.last()).map_values(f)
                =~= front.filter(model::listed(Some(n))).map_values(f).push(f(rows.last())));
        }
    } else {
        assert(rows.filter(model::listed(Some(n))).map_values(f) =~= Seq::<DeviceView>::empty());
    }
}

/// Those that are online, among those in a network.
proof fn lemma_filter_both(v: Seq<DeviceView>, n: Uuid)
    ensures
        v.filter(entry_in(n)).filter(|d: DeviceView| d.online) == v.filter(online_in(n)),
    decreases v.len(),
{
    reveal(Seq::filter);
    if v.len() > 0 {
        let front = v.drop_last();
        lemma_filter_both(front, n);
        if entry_in(n)(v.last()) {
            assert(front.filter(entry_in(n)).push(v.last()).drop_last() =~= front.filter(
                entry_in(n),
            ));
        }
    }
}

/// What the web interface answers to a request on a network. A name must not be
/// blank, and is taken without the white space around it. What is not there is
/// not found.
pub proof fn law_network_requests(
    s: HubView,
    n: Uuid,
    name: Option<Seq<char>>,
    ip: Option<Seq<char>>,
    new: Seq<char>,
    fresh: Uuid,
)
    ensures
        ({
            let quiet = (s, Seq::<ActionView>::empty());
            let unknown = ReplyView { status: 404, body: BodyView::Error("unknown network"@) };
            let blank = ReplyView { status: 400, body: BodyView::Error("name is required"@) };
            let (a, an) = api_step(s, RequestView::CreateNetwork { name: new }, fresh);
            let (d, dn) = api_step(s, RequestView::DeleteNetwork { nid: n }, fresh);
            let (l, ln) = api_step(s, RequestView::ListDevices { nid: n }, fresh);
            let (r, rn) = api_step(s, RequestView::PushRoutes { nid: n }, fresh);
            let (p, pn) = api_step(
                s,
                RequestView::PatchNetwork { nid: n, name: name, bridge_ip: ip },
                fresh,
            );
            &&& a == quiet
            &&& text::trimmed(new).len() == 0 ==> an == ApiNextView::Reply(blank)
            &&& text::trimmed(new).len() > 0 ==> (an matches ApiNextView::CreateBridge(rec)
                && rec.name == text::trimmed(new) && rec.uuid == fresh && rec.bridge_name
                == "bf-"@ + uuids::short_chars(fresh) && rec.bridge_ip.len() == 0)
            &&& d == model::delete_net_step(s, n).0
            &&& dn == ApiNextView::Reply(
                if s.knows_net(n) {
                    ReplyView { status: 204, body: BodyView::Nothing }
                } else {
                    unknown
                },
            )
            &&& l == quiet
            &&& ln == ApiNextView::Reply(
                if s.knows_net(n) {
                    ReplyView {
                        status: 200,
                        body: BodyView::Devices(model::devices(s, Some(n))),
                    }
                } else {
                    unknown
                },
            )
            &&& s.knows_net(n) ==> r == (s, model::push_actions(s, n)) && rn == (
            ApiNextView::CountRoutes {
                nid: n,
                routes: routes::derived(s.cfg.approved_clients, n),
            })
            &&& !s.knows_net(n) ==> r == quiet && rn == ApiNextView::Reply(unknown)
            &&& !s.knows_net(n) ==> p == quiet && pn == ApiNextView::Reply(unknown)
            &&& s.knows_net(n) && (name matches Some(t) && text::trimmed(t).len() == 0) ==> p
                == quiet && pn == ApiNextView::Reply(blank)
        }),
{
    seqs::lemma_position(s.cfg.networks, model::net_is(n));
}

/// A network that is changed gets the name, then the address, each where one is
/// given; it is answered with its record as it is then, or with what is wrong
/// with the address.
pub proof fn law_patched_network(
    s: HubView,
    n: Uuid,
    name: Option<Seq<char>>,
    ip: Option<Seq<char>>,
    fresh: Uuid,
)
    requires
        s.knows_net(n),
        name matches Some(t) ==> text::trimmed(t).len() > 0,
    ensures
        ({
            let ((u, acts), next) = api_step(
                s,
                RequestView::PatchNetwork { nid: n, name: name, bridge_ip: ip },
                fresh,
            );
            let (t, a) = if name is Some {
                model::rename_step(s, n, text::trimmed(name->0)).0
            } else {
                (s, Seq::<ActionView>::empty())
            };
            let ((v, b), r) = if ip is Some {
                model::set_bridge_ip_step(t, n, ip->0)
            } else {
                ((t, Seq::<ActionView>::empty()), SetBridgeIpView::NotFound)
            };
            &&& u == v
            &&& acts == a + b
            &&& ip is Some && r is Invalid ==> next == ApiNextView::Reply(
                ReplyView { status: 400, body: BodyView::Error(r->Invalid_0) },
            )
            &&& (ip is None || r is Updated) ==> (seqs::first_where(
                u.cfg.networks,
                model::net_is(n),
            ) matches Some(rec) && next == ApiNextView::Reply(
                ReplyView { status: 200, body: BodyView::Network(rec) },
            ))
        }),
{
    seqs::lemma_position(s.cfg.networks, model::net_is(n));
    let t = if name is Some {
        lemma_renamed_is_known(s, n, text::trimmed(name->0));
        model::rename_step(s, n, text::trimmed(name->0)).0.0
    } else {
        s
    };
    if ip is Some {
        lemma_readdressed_is_known(t, n, ip->0);
    }
}

/// What the web interface answers to a request on clients.
pub proof fn law_client_requests(
    s: HubView,
    n: Uuid,
    c: Uuid,
    u: UpdateView,
    target: Option<Uuid>,
    fresh: Uuid,
)
    ensures
        ({
            let quiet = (s, Seq::<ActionView>::empty());
            let (l, ln) = api_step(s, RequestView::ListClients, fresh);
            let (a, an) = api_step(
                s,
                RequestView::AssignClient { cid: c, net_uuid: target },
                fresh,
            );
            let (p, pn) = api_step(s, RequestView::PatchDevice { nid: n, cid: c, update: u }, fresh);
            let bad = |status: u16, msg: Seq<char>|
                ApiNextView::Reply(ReplyView { status: status, body: BodyView::Error(msg) });
            let good = |d: DeviceView|
                ApiNextView::Reply(ReplyView { status: 200, body: BodyView::Device(d) });
            &&& l == quiet && ln == ApiNextView::Reply(
                ReplyView { status: 200, body: BodyView::Devices(model::devices(s, None)) },
            )
            &&& a == model::assign_step(s, c, target).0
            &&& an == match model::assign_step(s, c, target).1 {
                AssignView::Assigned(d) => good(d),
                AssignView::NotFound => bad(404, "unknown client"@),
                AssignView::UnknownNetwork => bad(400, "unknown network"@),
            }
            &&& !s.knows_net(n) ==> p == quiet && pn == bad(404, "unknown network"@)
            &&& s.knows_net(n) ==> p == model::device_set_step(s, c, n, u).0 && pn
                == match model::device_set_step(s, c, n, u).1 {
                DeviceSetStepView::Approve(t) => ApiNextView::PrepareTap {
                    approval: t,
                    cid: c,
                    nid: n,
                },
                DeviceSetStepView::Done(DeviceSetView::Updated(d)) => good(d),
                DeviceSetStepView::Done(DeviceSetView::NotFound) => bad(
                    404,
                    "no such device in this network"@,
                ),
                DeviceSetStepView::Done(DeviceSetView::InvalidIp) => bad(400, "invalid IP/CIDR"@),
                DeviceSetStepView::Done(DeviceSetView::Conflict { msg }) => bad(409, msg),
            }
        }),
{
}

/// Name and subnets of a client are changed wherever it is: in its network, or
/// among the clients without one. A client that nobody knows is not found.
pub proof fn law_patched_client(
    s: HubView,
    c: Uuid,
    name: Option<Seq<char>>,
    subnets: Option<Seq<Seq<char>>>,
    fresh: Uuid,
)
    requires
        crate::hub::soundness::sound(s),
    ensures
        ({
            let (p, pn) = api_step(
                s,
                RequestView::PatchClient { cid: c, name: name, lan_subnets: subnets },
                fresh,
            );
            let bad = |status: u16, msg: Seq<char>|
                ApiNextView::Reply(ReplyView { status: status, body: BodyView::Error(msg) });
            let good = |d: DeviceView|
                ApiNextView::Reply(ReplyView { status: 200, body: BodyView::Device(d) });
            if s.assigned_net(c) is Some {
                let n = s.assigned_net(c)->0;
                let u = UpdateView {
                    name: name,
                    admitted: None,
                    tap_ip: None,
                    lan_subnets: subnets,
                };
                p == model::device_set_step(s, c, n, u).0 && match model::device_set_step(
                    s,
                    c,
                    n,
                    u,
                ).1 {
                    DeviceSetStepView::Done(DeviceSetView::Updated(d)) => pn == good(d),
                    DeviceSetStepView::Done(DeviceSetView::InvalidIp) => pn == bad(
                        400,
                        "invalid IP/CIDR"@,
                    ),
                    _ => true,
                }
            } else if s.in_pool(c) {
                let (t, d) = model::patch_step(s, c, name, subnets);
                p == t && pn == match d {
                    Some(d) => good(d),
                    None => bad(404, "client gone"@),
                }
            } else {
                p == (s, Seq::<ActionView>::empty()) && pn == bad(404, "unknown client"@)
            }
        }),
{
    let all = model::devices(s, None);
    let e = dispatch::entry_of(c);
    dispatch::law_clients_are_resolved(s, c);
    dispatch::law_client_is_listed_once(s, c);
    let found = all.filter(e);
    seqs::lemma_position(all, e);
    match seqs::position(all, e) {
        Some(i) => {
            assert(all.contains(all[i]));
            seqs::lemma_filter_keeps(all, e, all[i]);
            let k = choose|k: int| 0 <= k < found.len() && found[k] == all[i];
            assert(found[0] == all[i]);
        },
        None => {
            seqs::lemma_filter_from(all, e);
            if found.len() > 0 {
                assert(all.contains(found[0]) && e(found[0]));
                let k = choose|k: int| 0 <= k < all.len() && all[k] == found[0];
                assert(!e(all[k]));
            }
        },
    }
}

} // verus!
