//! A hub against devices in memory.
use std::collections::{HashMap, VecDeque};

use bifrost::config::{ApprovedClient, NetRecord, ServerConfig};
use bifrost::events::HubEvent;
use bifrost::frame::{Frame, PROTOCOL_VERSION};
use bifrost::hub::nets::plan_net;
use bifrost::hub::{
    Approval, AssignClientResult, DevicePushResult, DeviceSetResult, DeviceSetStep, DeviceUpdate,
    Hub, HubAction, MakeNetResult, SessionNote, SetNetBridgeIpResult, TapOutcome,
};
use bifrost::ids::{ConnId, SessionId};
use bifrost::net::mock::{MockBridge, MockPlatform};
use bifrost::session::{SessionAction, SessionCmd, SessionEvt, SessionInput, SessionTask};
use bifrost::uuids::Uuid;

// ── The surroundings of a hub ────────────────────────────────────────────

fn fresh() -> Uuid {
    Uuid(uuid::Uuid::new_v4().as_u128())
}

/// A connection as the hub sees it.
struct FakeConn {
    frames: VecDeque<Frame>,
    binds: VecDeque<Option<SessionId>>,
    open: bool,
}

/// A hub, and everything it acts on, in memory.
struct Rig {
    hub: Hub,
    platform: MockPlatform,
    bridge_at: HashMap<u128, usize>,
    tap_at: HashMap<u64, usize>,
    tasks: HashMap<u64, SessionTask>,
    conns: HashMap<u64, FakeConn>,
    events: VecDeque<HubEvent>,
    saved: Option<ServerConfig>,
    clock: u64,
}

fn spawn(cfg: ServerConfig) -> Rig {
    let mut rig = Rig {
        hub: Hub::new(cfg),
        platform: MockPlatform::new(),
        bridge_at: HashMap::new(),
        tap_at: HashMap::new(),
        tasks: HashMap::new(),
        conns: HashMap::new(),
        events: VecDeque::new(),
        saved: None,
        clock: 1000,
    };
    let nets: Vec<NetRecord> = rig.hub.cfg.networks.clone();
    for n in &nets {
        rig.make_bridge(n);
        rig.hub.bridge_ready(n.uuid);
    }
    let acts = rig.hub.handle_start();
    rig.run(acts);
    rig
}

impl Rig {
    fn make_bridge(&mut self, n: &NetRecord) {
        let i = self.platform.create_bridge(&n.bridge_name);
        self.bridge_at.insert(n.uuid.0, i);
    }

    fn bridge(&self, net: Uuid) -> &MockBridge {
        &self.platform.bridges[self.bridge_at[&net.0]]
    }

    fn bridge_mut(&mut self, net: Uuid) -> &mut MockBridge {
        let i = self.bridge_at[&net.0];
        &mut self.platform.bridges[i]
    }

    fn run(&mut self, acts: Vec<HubAction>) {
        for a in acts {
            match a {
                HubAction::Send { conn, frame } => {
                    if let Some(c) = self.conns.get_mut(&conn.0) {
                        c.frames.push_back(frame);
                    }
                }
                HubAction::Bind { conn, session } => {
                    if let Some(c) = self.conns.get_mut(&conn.0) {
                        c.binds.push_back(session);
                    }
                }
                HubAction::DropConn { conn } => {
                    if let Some(c) = self.conns.get_mut(&conn.0) {
                        c.open = false;
                    }
                }
                HubAction::ToSession { sid, note } => {
                    let cmd = match note {
                        SessionNote::Bind(c) => SessionCmd::BindConn(c),
                        SessionNote::Unbind => SessionCmd::UnbindConn,
                        SessionNote::Kill => SessionCmd::Kill,
                    };
                    self.session(sid, SessionInput::Cmd(cmd));
                }
                HubAction::StartSession { sid, conn, .. } => {
                    let timeout = self.hub.cfg.bridge.disconnect_timeout * 1000;
                    self.tasks.insert(sid.0, SessionTask::new(sid, conn, Some(timeout)));
                }
                HubAction::DestroyTap { sid } => {
                    let i = self.tap_at[&sid.0];
                    self.platform.taps[i].destroy();
                }
                HubAction::RemoveTap { net, tap_name } => {
                    self.bridge_mut(net).remove_tap(&tap_name);
                }
                HubAction::ApplyRoutes { net, routes } => {
                    self.bridge_mut(net).apply_routes(&routes);
                }
                HubAction::SetBridgeIp { .. } => {}
                HubAction::DestroyBridge { net } => self.bridge_mut(net).destroy(),
                HubAction::Persist => self.saved = Some(self.hub.cfg.clone()),
                HubAction::Emit(e) => self.events.push_back(e),
            }
        }
    }

    fn session(&mut self, sid: SessionId, input: SessionInput) {
        let now = self.clock;
        let acts = match self.tasks.get_mut(&sid.0) {
            Some(t) => t.step(now, input),
            None => return,
        };
        for a in acts {
            match a {
                SessionAction::WriteTap(f) => {
                    let i = self.tap_at[&sid.0];
                    let n = self.platform.taps[i].write(&f).unwrap();
                    self.session(sid, SessionInput::TapWritten(n as u64));
                }
                SessionAction::SetTapIp(ip) => {
                    let i = self.tap_at[&sid.0];
                    self.platform.taps[i].set_ip(ip);
                }
                SessionAction::ApplyRoutes(r) => {
                    let i = self.tap_at[&sid.0];
                    self.platform.taps[i].apply_routes(&r);
                }
                SessionAction::SendEth { conn, frame } => {
                    let n = frame.len() as u64;
                    self.conns.get_mut(&conn.0).unwrap().frames.push_back(Frame::Eth(frame));
                    self.session(sid, SessionInput::Sent(n));
                }
                SessionAction::DestroyTap => {
                    let i = self.tap_at[&sid.0];
                    self.platform.taps[i].destroy();
                }
                SessionAction::Tell(SessionEvt::Died { sid, .. }) => {
                    self.tasks.remove(&sid.0);
                    let acts = self.hub.handle_session_died(sid);
                    self.run(acts);
                }
            }
        }
    }

    /// Lets time pass.
    fn advance(&mut self, ms: u64) {
        self.clock += ms;
        let sids: Vec<u64> = self.tasks.keys().copied().collect();
        for sid in sids {
            let due = match self.tasks[&sid].wakes_at() {
                Some(t) => t <= self.clock,
                None => false,
            };
            if due {
                self.session(SessionId(sid), SessionInput::DeadlinePassed);
            }
        }
    }

    fn connect(&mut self, addr: &str) -> ConnId {
        let id = self.hub.handle_new_conn(addr.to_string());
        self.conns.insert(
            id.0,
            FakeConn { frames: VecDeque::new(), binds: VecDeque::new(), open: true },
        );
        id
    }

    fn hello(&mut self, conn: ConnId, client: Uuid) {
        let acts = self.hub.handle_hello(conn, client, PROTOCOL_VERSION);
        self.run(acts);
    }

    /// Connects and introduces a client, and takes the assignment it is told.
    fn arrive(&mut self, addr: &str, client: Uuid) -> ConnId {
        let c = self.connect(addr);
        self.hello(c, client);
        self.drain_hello_assign(c);
        c
    }

    fn approve(&mut self, a: Approval) {
        let i = self.platform.create_tap(&a.tap_name, None);
        self.tap_at.insert(a.sid.0, i);
        if a.bridged {
            self.bridge_mut(a.net_uuid).add_tap(&a.tap_name);
        }
        let acts = self.hub.do_approve(&a, TapOutcome::Ready);
        self.run(acts);
    }

    fn join(&mut self, conn: ConnId, net: Uuid) {
        let (acts, approval) = self.hub.handle_join(conn, net);
        self.run(acts);
        if let Some(a) = approval {
            self.approve(a);
        }
    }

    fn disconnect(&mut self, conn: ConnId) {
        self.conns.get_mut(&conn.0).unwrap().open = false;
        let acts = self.hub.handle_disconnect(conn);
        self.run(acts);
    }

    fn device_set(&mut self, client: Uuid, net: Uuid, update: DeviceUpdate) -> DeviceSetResult {
        let (acts, step) = self.hub.handle_device_set(client, net, update);
        self.run(acts);
        match step {
            DeviceSetStep::Done(r) => r,
            DeviceSetStep::Approve(a) => {
                self.approve(a);
                let (acts, r) = self.hub.finish_device_set(client, net);
                self.run(acts);
                r
            }
        }
    }

    fn assign_client(&mut self, client: Uuid, net: Option<Uuid>) -> AssignClientResult {
        let (acts, r) = self.hub.handle_assign_client(client, net);
        self.run(acts);
        r
    }

    fn device_push(&mut self, net: Uuid) -> DevicePushResult {
        let (acts, routes) = self.hub.handle_device_push(net);
        let mut count = 0;
        for a in &acts {
            if let HubAction::Send { frame: Frame::SetRoutes(_), .. } = a {
                count += 1;
            }
        }
        self.run(acts);
        let acts = self.hub.finish_device_push(net, &routes, count);
        self.run(acts);
        DevicePushResult { routes, count }
    }

    fn make_net(&mut self, name: &str, bridge_ip: Option<&str>) -> MakeNetResult {
        match plan_net(name, bridge_ip, fresh()) {
            Err(m) => MakeNetResult::InvalidBridgeIp(m),
            Ok(rec) => {
                let uuid = rec.uuid;
                self.make_bridge(&rec);
                let acts = self.hub.add_net(rec, true);
                self.run(acts);
                MakeNetResult::Created(uuid)
            }
        }
    }

    fn delete_net(&mut self, net: Uuid) -> bool {
        let (acts, done) = self.hub.handle_delete_net(net);
        self.run(acts);
        done
    }

    fn set_net_bridge_ip(&mut self, net: Uuid, ip: &str) -> SetNetBridgeIpResult {
        let (acts, r) = self.hub.handle_set_net_bridge_ip(net, &ip.to_string());
        self.run(acts);
        r
    }

    fn tick(&mut self) {
        let mut now: Vec<(u64, u64)> = Vec::new();
        for s in &self.hub.sessions {
            let t = &self.tasks[&s.sid.0];
            now.push((t.bytes_in, t.bytes_out));
        }
        let acts = self.hub.emit_metrics_tick(&now);
        self.run(acts);
    }

    fn shutdown(&mut self) {
        let acts = self.hub.shutdown_sessions();
        self.run(acts);
        let acts = self.hub.shutdown_bridges();
        self.run(acts);
    }

    fn recv(&mut self, conn: ConnId) -> Frame {
        match self.try_recv(conn) {
            Some(f) => f,
            None => panic!("no frame on {}", conn.to_text()),
        }
    }

    fn try_recv(&mut self, conn: ConnId) -> Option<Frame> {
        self.conns.get_mut(&conn.0).unwrap().frames.pop_front()
    }

    fn recv_bind(&mut self, conn: ConnId) -> Option<SessionId> {
        match self.conns.get_mut(&conn.0).unwrap().binds.pop_front() {
            Some(b) => b,
            None => panic!("no binding on {}", conn.to_text()),
        }
    }

    fn drain_hello_assign(&mut self, conn: ConnId) {
        let f = self.recv(conn);
        assert!(matches!(f, Frame::AssignNet { .. }), "expected AssignNet, got {:?}", f);
    }

    fn next_event(&mut self, want: fn(&HubEvent) -> bool) -> Option<HubEvent> {
        while let Some(e) = self.events.pop_front() {
            if want(&e) {
                return Some(e);
            }
        }
        None
    }

    fn is_dirty(&self, net: Uuid) -> bool {
        self.hub.handle_list().routes_dirty.contains(&net)
    }
}

fn build_cfg(disconnect_secs: u64) -> ServerConfig {
    let mut cfg = ServerConfig::default();
    cfg.bridge.disconnect_timeout = disconnect_secs;
    cfg
}

fn approved(client_uuid: Uuid, net_uuid: Uuid, tap_ip: &str) -> ApprovedClient {
    approved_with_lan(client_uuid, net_uuid, tap_ip, &[])
}

fn approved_with_lan(
    client_uuid: Uuid,
    net_uuid: Uuid,
    tap_ip: &str,
    lan: &[&str],
) -> ApprovedClient {
    ApprovedClient {
        client_uuid,
        net_uuid,
        tap_ip: tap_ip.to_string(),
        display_name: String::new(),
        lan_subnets: lan.iter().map(|s| s.to_string()).collect(),
        admitted: true,
    }
}

fn admission(on: bool) -> DeviceUpdate {
    DeviceUpdate { admitted: Some(on), ..Default::default() }
}

fn ip(s: &str) -> DeviceUpdate {
    DeviceUpdate { tap_ip: Some(s.to_string()), ..Default::default() }
}

fn lan(list: &[&str]) -> DeviceUpdate {
    DeviceUpdate {
        lan_subnets: Some(list.iter().map(|s| s.to_string()).collect()),
        ..Default::default()
    }
}

// ── Joining ──────────────────────────────────────────────────────────────

#[test]
fn whitelisted_join_creates_tap_and_binds_conn() {
    let net = fresh();
    let client = fresh();
    let mut cfg = build_cfg(60);
    cfg.networks.push(NetRecord::new("n", net));
    cfg.approved_clients.push(approved(client, net, "10.0.0.5/24"));
    let mut h = spawn(cfg);

    let c = h.arrive("1.2.3.4:1", client);
    h.join(c, net);

    match h.recv(c) {
        Frame::JoinOk { tap_suffix, ip } => {
            assert!(!tap_suffix.is_empty());
            assert_eq!(ip.as_deref(), Some("10.0.0.5/24"));
        }
        other => panic!("expected JoinOk, got {:?}", other),
    }
    assert_eq!(h.platform.taps_count(), 1);
    let name = h.platform.last_tap().unwrap().name().to_string();
    assert_eq!(h.bridge(net).snapshot().ports, vec![name]);
    assert!(h.recv_bind(c).is_some(), "conn must be bound");
    h.shutdown();
}

#[test]
fn unknown_network_is_denied() {
    let mut cfg = build_cfg(60);
    cfg.networks.push(NetRecord::new("n", fresh()));
    let mut h = spawn(cfg);

    let c = h.arrive("x", fresh());
    h.join(c, fresh());

    match h.recv(c) {
        Frame::JoinDeny { reason } => assert_eq!(reason, "unknown_network"),
        other => panic!("expected JoinDeny, got {:?}", other),
    }
    assert_eq!(h.platform.taps_count(), 0);
}

#[test]
fn join_without_hello_is_denied() {
    let net = fresh();
    let mut cfg = build_cfg(60);
    cfg.networks.push(NetRecord::new("n", net));
    let mut h = spawn(cfg);

    let c = h.connect("x");
    h.join(c, net);

    match h.recv(c) {
        Frame::JoinDeny { reason } => assert_eq!(reason, "no_hello"),
        other => panic!("expected JoinDeny, got {:?}", other),
    }
}

#[test]
fn fresh_hello_creates_pending_unassigned_row() {
    let net = fresh();
    let client = fresh();
    let mut cfg = build_cfg(60);
    cfg.networks.push(NetRecord::new("n", net));
    let mut h = spawn(cfg);

    let c = h.arrive("x", client);
    h.join(c, net);
    match h.recv(c) {
        Frame::JoinDeny { reason } => assert_eq!(reason, "unassigned"),
        other => panic!("expected JoinDeny(unassigned), got {:?}", other),
    }

    let devices = h.hub.handle_device_list(None);
    assert_eq!(devices.len(), 1);
    assert_eq!(devices[0].client_uuid, client);
    assert_eq!(devices[0].net_uuid, None);
    assert!(!devices[0].admitted);
    assert!(devices[0].online);
}

#[test]
fn assign_then_join_creates_pending_admit_row_and_holds_conn() {
    let net = fresh();
    let client = fresh();
    let mut cfg = build_cfg(60);
    cfg.networks.push(NetRecord::new("n", net));
    let mut h = spawn(cfg);

    let c = h.arrive("x", client);
    let result = h.assign_client(client, Some(net));
    assert!(matches!(result, AssignClientResult::Assigned(_)));
    match h.recv(c) {
        Frame::AssignNet { net_uuid } => assert_eq!(net_uuid, Some(net)),
        other => panic!("expected AssignNet, got {:?}", other),
    }

    h.join(c, net);
    assert!(h.try_recv(c).is_none());

    let snap = h.hub.handle_list();
    assert_eq!(snap.pending.len(), 1);
    assert_eq!(snap.pending[0].client_uuid, client);

    let devices = h.hub.handle_device_list(Some(net));
    assert_eq!(devices.len(), 1);
    assert!(!devices[0].admitted);
    assert!(devices[0].online);
}

#[test]
fn admit_toggle_on_promotes_pending_to_session() {
    let net = fresh();
    let client = fresh();
    let mut cfg = build_cfg(60);
    cfg.networks.push(NetRecord::new("n", net));
    let mut h = spawn(cfg);

    let c = h.arrive("x", client);
    let _ = h.assign_client(client, Some(net));
    let _ = h.recv(c);
    h.join(c, net);

    let result = h.device_set(client, net, admission(true));
    assert!(matches!(result, DeviceSetResult::Updated(_)));
    match h.recv(c) {
        Frame::JoinOk { .. } => {}
        other => panic!("expected JoinOk, got {:?}", other),
    }
    assert_eq!(h.platform.taps_count(), 1);
}

#[test]
fn admit_toggle_off_kicks_session_keeps_row_in_pending() {
    let net = fresh();
    let client = fresh();
    let mut cfg = build_cfg(60);
    cfg.networks.push(NetRecord::new("n", net));
    cfg.approved_clients.push(approved(client, net, "10.0.0.5/24"));
    let mut h = spawn(cfg);

    let c = h.arrive("x", client);
    h.join(c, net);
    let _ = h.recv(c);
    let _ = h.recv_bind(c);
    assert_eq!(h.hub.handle_list().sessions.len(), 1);

    let result = h.device_set(client, net, admission(false));
    assert!(matches!(result, DeviceSetResult::Updated(_)));
    assert_eq!(h.hub.handle_list().sessions.len(), 0, "session must be killed");
    assert!(!h.conns[&c.0].open);

    let devices = h.hub.handle_device_list(Some(net));
    assert_eq!(devices.len(), 1);
    assert_eq!(devices[0].client_uuid, client);
    assert!(!devices[0].admitted);
}

#[test]
fn make_net_persists_into_list() {
    let mut h = spawn(build_cfg(60));
    let uuid = match h.make_net("hml-net", None) {
        MakeNetResult::Created(u) => u,
        other => panic!("expected Created, got {:?}", other),
    };
    let snap = h.hub.handle_list();
    assert!(snap.networks.iter().any(|n| n.uuid == uuid && n.name == "hml-net"));
}

// ── Losing and regaining a connection ────────────────────────────────────

#[test]
fn disconnect_unbinds_session_but_keeps_tap() {
    let net = fresh();
    let client = fresh();
    let mut cfg = build_cfg(60);
    cfg.networks.push(NetRecord::new("n", net));
    cfg.approved_clients.push(approved(client, net, ""));
    let mut h = spawn(cfg);

    let c = h.arrive("x", client);
    h.join(c, net);
    let _ = h.recv(c);
    let _ = h.recv_bind(c);

    h.disconnect(c);
    let snap = h.hub.handle_list();
    assert_eq!(snap.sessions.len(), 1);
    assert_eq!(snap.sessions[0].bound_conn, None);
    assert_eq!(h.bridge(net).snapshot().ports.len(), 1);
}

#[test]
fn reconnect_reuses_session_no_new_tap() {
    let net = fresh();
    let client = fresh();
    let mut cfg = build_cfg(60);
    cfg.networks.push(NetRecord::new("n", net));
    cfg.approved_clients.push(approved(client, net, "10.0.0.7/24"));
    let mut h = spawn(cfg);

    let c1 = h.arrive("x1", client);
    h.join(c1, net);
    let _ = h.recv(c1);
    let _ = h.recv_bind(c1);
    assert_eq!(h.platform.taps_count(), 1);

    h.disconnect(c1);

    let c2 = h.arrive("x2", client);
    h.join(c2, net);
    assert_eq!(h.platform.taps_count(), 1);
    match h.recv(c2) {
        Frame::JoinOk { ip, .. } => assert_eq!(ip.as_deref(), Some("10.0.0.7/24")),
        other => panic!("expected JoinOk, got {:?}", other),
    }
    assert!(h.recv_bind(c2).is_some());
}

#[test]
fn reconnect_while_first_still_bound_unbinds_first() {
    let net = fresh();
    let client = fresh();
    let mut cfg = build_cfg(60);
    cfg.networks.push(NetRecord::new("n", net));
    cfg.approved_clients.push(approved(client, net, ""));
    let mut h = spawn(cfg);

    let c1 = h.arrive("x1", client);
    h.join(c1, net);
    let _ = h.recv(c1);
    let _ = h.recv_bind(c1);

    let c2 = h.arrive("x2", client);
    h.join(c2, net);
    assert!(h.recv_bind(c1).is_none(), "old conn must be unbound");
    let _ = h.recv(c2);
}

#[test]
fn disconnect_then_timeout_removes_session_and_tap() {
    let net = fresh();
    let client = fresh();
    let mut cfg = build_cfg(0);
    cfg.networks.push(NetRecord::new("n", net));
    cfg.approved_clients.push(approved(client, net, ""));
    let mut h = spawn(cfg);

    let c = h.arrive("x", client);
    h.join(c, net);
    let _ = h.recv(c);
    let _ = h.recv_bind(c);

    h.disconnect(c);
    h.advance(120);
    assert!(h.hub.handle_list().sessions.is_empty(), "session should be cleaned up");
    assert!(h.bridge(net).snapshot().ports.is_empty(), "tap should be removed from bridge");
}

#[test]
fn routes_pushed_after_join_and_filter_self_via() {
    let net = fresh();
    let client = fresh();
    let other_client = fresh();
    let mut cfg = build_cfg(60);
    cfg.networks.push(NetRecord::new("n", net));
    cfg.approved_clients.push(approved_with_lan(client, net, "10.0.0.5/24", &["192.168.20.0/24"]));
    cfg.approved_clients.push(approved_with_lan(
        other_client,
        net,
        "10.0.0.7/24",
        &["192.168.10.0/24"],
    ));
    let mut h = spawn(cfg);

    let c = h.arrive("x", client);
    h.join(c, net);
    let _ = h.recv(c);
    match h.recv(c) {
        Frame::SetRoutes(rs) => {
            assert_eq!(rs.len(), 1, "self-via route must be filtered: {:?}", rs);
            assert_eq!(rs[0].dst, "192.168.10.0/24");
            assert_eq!(rs[0].via, "10.0.0.7");
        }
        other => panic!("expected SetRoutes, got {:?}", other),
    }
}

#[test]
fn shutdown_destroys_bridge_and_kills_sessions() {
    let net = fresh();
    let client = fresh();
    let mut cfg = build_cfg(60);
    cfg.networks.push(NetRecord::new("n", net));
    cfg.approved_clients.push(approved(client, net, ""));
    let mut h = spawn(cfg);

    let c = h.arrive("x", client);
    h.join(c, net);
    let _ = h.recv(c);
    let _ = h.recv_bind(c);

    h.shutdown();
    assert!(h.bridge(net).snapshot().destroyed, "bridge must be destroyed");
    assert!(h.platform.last_tap().unwrap().snapshot().destroyed, "tap must be destroyed");
}

// ── Changing clients ─────────────────────────────────────────────────────

#[test]
fn device_set_ip_pushes_to_live_session() {
    let net = fresh();
    let client = fresh();
    let mut cfg = build_cfg(60);
    cfg.networks.push(NetRecord::new("n", net));
    cfg.approved_clients.push(approved(client, net, ""));
    let mut h = spawn(cfg);

    let c = h.arrive("x", client);
    h.join(c, net);
    let _ = h.recv(c);
    let _ = h.recv_bind(c);

    match h.device_set(client, net, ip("10.0.0.42/24")) {
        DeviceSetResult::Updated(d) => {
            assert_eq!(d.tap_ip.as_deref(), Some("10.0.0.42/24"));
            assert!(d.online);
        }
        other => panic!("expected Updated, got {:?}", other),
    }
    match h.recv(c) {
        Frame::SetIp { ip } => assert_eq!(ip.as_deref(), Some("10.0.0.42/24")),
        other => panic!("expected SetIp, got {:?}", other),
    }
}

#[test]
fn device_set_offline_only_persists_to_disk() {
    let net = fresh();
    let client = fresh();
    let mut cfg = build_cfg(60);
    cfg.networks.push(NetRecord::new("n", net));
    cfg.approved_clients.push(approved(client, net, ""));
    let mut h = spawn(cfg);

    let result = h.device_set(
        client,
        net,
        DeviceUpdate {
            name: Some("router".to_string()),
            lan_subnets: Some(vec!["192.168.10.0/24".to_string(), "192.168.20.0/24".to_string()]),
            ..Default::default()
        },
    );
    assert!(matches!(result, DeviceSetResult::Updated(_)));

    let on_disk = h.saved.as_ref().unwrap();
    assert_eq!(on_disk.approved_clients.len(), 1);
    assert_eq!(on_disk.approved_clients[0].display_name, "router");
    assert_eq!(on_disk.approved_clients[0].lan_subnets.len(), 2);
}

#[test]
fn device_set_rejects_invalid_or_unknown() {
    let net = fresh();
    let client = fresh();
    let mut cfg = build_cfg(60);
    cfg.networks.push(NetRecord::new("n", net));
    cfg.approved_clients.push(approved(client, net, ""));
    let mut h = spawn(cfg);

    let result = h.device_set(fresh(), net, ip("10.0.0.1/24"));
    assert!(matches!(result, DeviceSetResult::NotFound));

    let result = h.device_set(client, net, ip("not-an-ip"));
    assert!(matches!(result, DeviceSetResult::InvalidIp));

    let result = h.device_set(client, net, lan(&["not-a-cidr"]));
    assert!(matches!(result, DeviceSetResult::InvalidIp));
}

#[test]
fn device_set_detects_tap_ip_conflict() {
    let net = fresh();
    let a = fresh();
    let b = fresh();
    let mut cfg = build_cfg(60);
    cfg.networks.push(NetRecord::new("n", net));
    cfg.approved_clients.push(approved(a, net, "10.0.0.2/24"));
    cfg.approved_clients.push(approved(b, net, "10.0.0.3/24"));
    let mut h = spawn(cfg);

    let result = h.device_set(b, net, ip("10.0.0.2/24"));
    assert!(matches!(result, DeviceSetResult::Conflict { .. }), "got {:?}", result);
}

#[test]
fn device_set_persists_lan_subnets_to_disk() {
    let net = fresh();
    let client = fresh();
    let mut cfg = build_cfg(60);
    cfg.networks.push(NetRecord::new("n", net));
    cfg.approved_clients.push(approved(client, net, "10.0.0.5/24"));
    let mut h = spawn(cfg);

    let _ = h.device_set(client, net, lan(&["192.168.10.0/24", "192.168.20.0/24"]));
    assert_eq!(h.saved.as_ref().unwrap().approved_clients[0].lan_subnets.len(), 2);

    let _ = h.device_set(client, net, lan(&[]));
    assert!(h.saved.as_ref().unwrap().approved_clients[0].lan_subnets.is_empty());
}

#[test]
fn device_push_pushes_to_each_bound_session() {
    let net = fresh();
    let client_a = fresh();
    let client_b = fresh();
    let other = fresh();
    let mut cfg = build_cfg(60);
    cfg.networks.push(NetRecord::new("n", net));
    cfg.approved_clients.push(approved(client_a, net, "10.0.0.2/24"));
    cfg.approved_clients.push(approved(client_b, net, "10.0.0.3/24"));
    cfg.approved_clients.push(approved_with_lan(other, net, "10.0.0.7/24", &["192.168.10.0/24"]));
    let mut h = spawn(cfg);

    let a = h.arrive("x:1", client_a);
    h.join(a, net);
    let _ = h.recv(a);
    let _ = h.recv(a);
    let _ = h.recv_bind(a);

    let b = h.arrive("x:2", client_b);
    h.join(b, net);
    let _ = h.recv(b);
    let _ = h.recv(b);
    let _ = h.recv_bind(b);

    let result = h.device_push(net);
    assert_eq!(result.count, 2);
    assert_eq!(result.routes.len(), 1);
    match h.recv(a) {
        Frame::SetRoutes(rs) => assert_eq!(rs.len(), 1),
        other => panic!("expected SetRoutes on a, got {:?}", other),
    }
    match h.recv(b) {
        Frame::SetRoutes(rs) => assert_eq!(rs.len(), 1),
        other => panic!("expected SetRoutes on b, got {:?}", other),
    }
}

#[test]
fn device_push_takes_routes_back_from_each_bound_session() {
    let net = fresh();
    let (client, router) = (fresh(), fresh());
    let mut cfg = build_cfg(60);
    cfg.networks.push(NetRecord::new("n", net));
    cfg.approved_clients.push(approved(client, net, "10.0.0.2/24"));
    cfg.approved_clients.push(approved_with_lan(router, net, "10.0.0.7/24", &["192.168.10.0/24"]));
    let mut h = spawn(cfg);
    let a = h.arrive("x:1", client);
    h.join(a, net);
    let b = h.arrive("x:2", router);
    h.join(b, net);

    // The router's own table is empty, and it is told that, too.
    let result = h.device_push(net);
    assert_eq!(result.count, 2);
    let last = |h: &mut Rig, c: ConnId| h.conns.get_mut(&c.0).unwrap().frames.pop_back();
    assert!(matches!(last(&mut h, a), Some(Frame::SetRoutes(r)) if r.len() == 1));
    assert!(matches!(last(&mut h, b), Some(Frame::SetRoutes(r)) if r.is_empty()));

    // Without the last subnet, nobody keeps a route.
    let gone = DeviceUpdate { lan_subnets: Some(vec![]), ..Default::default() };
    h.device_set(router, net, gone);
    let result = h.device_push(net);
    assert_eq!(result.count, 2);
    assert!(result.routes.is_empty());
    assert!(matches!(last(&mut h, a), Some(Frame::SetRoutes(r)) if r.is_empty()));
    assert!(matches!(last(&mut h, b), Some(Frame::SetRoutes(r)) if r.is_empty()));
    assert!(h.hub.routes_dirty_set().is_empty());
}

#[test]
fn broadcast_text_reaches_all_conns() {
    let mut h = spawn(build_cfg(60));
    let a = h.connect("x:a");
    let b = h.connect("x:b");

    let acts = h.hub.handle_broadcast_text(&"hello".to_string());
    assert_eq!(acts.len(), 2);
    h.run(acts);

    for c in [a, b] {
        match h.recv(c) {
            Frame::Text(s) => assert_eq!(s, "hello"),
            other => panic!("expected Text, got {:?}", other),
        }
    }
}

#[test]
fn broadcast_file_reaches_all_conns() {
    let mut h = spawn(build_cfg(60));
    let a = h.connect("x:a");

    let acts = h.hub.handle_broadcast_file(&"foo.bin".to_string(), &vec![1, 2, 3, 4]);
    assert_eq!(acts.len(), 1);
    h.run(acts);

    match h.recv(a) {
        Frame::File { name, data } => {
            assert_eq!(name, "foo.bin");
            assert_eq!(data, vec![1, 2, 3, 4]);
        }
        other => panic!("expected File, got {:?}", other),
    }
}

#[test]
fn make_net_persists_to_disk() {
    let mut h = spawn(build_cfg(60));
    let uuid = match h.make_net("hml", None) {
        MakeNetResult::Created(u) => u,
        other => panic!("expected Created, got {:?}", other),
    };
    let on_disk = h.saved.as_ref().unwrap();
    assert!(on_disk.networks.iter().any(|n| n.uuid == uuid && n.name == "hml"));
}

// ── Events ───────────────────────────────────────────────────────────────

#[test]
fn metrics_tick_broadcasts_one_sample_per_session() {
    let net = fresh();
    let client = fresh();
    let mut cfg = build_cfg(60);
    cfg.networks.push(NetRecord::new("n", net));
    cfg.approved_clients.push(approved(client, net, "10.0.0.5/24"));
    let mut h = spawn(cfg);

    let c = h.arrive("x", client);
    h.join(c, net);
    let _ = h.recv(c);
    let _ = h.recv_bind(c);

    h.tick();
    let samples = match h.next_event(|e| matches!(e, HubEvent::MetricsTick { .. })) {
        Some(HubEvent::MetricsTick { samples }) => samples,
        other => panic!("expected MetricsTick, got {:?}", other),
    };
    assert_eq!(samples.len(), 1);
    assert_eq!(samples[0].network, net);
    assert_eq!(samples[0].client_uuid, client);
    assert_eq!(samples[0].bps_in, 0);
    assert_eq!(samples[0].bps_out, 0);
    assert_eq!(samples[0].total_in, 0);
    assert_eq!(samples[0].total_out, 0);
}

#[test]
fn metrics_tick_skipped_when_no_sessions() {
    let mut h = spawn(build_cfg(60));
    h.tick();
    assert!(h.events.is_empty(), "expected no events, got {:?}", h.events);
}

#[test]
fn admit_toggle_emits_device_online() {
    let net = fresh();
    let client = fresh();
    let mut cfg = build_cfg(60);
    cfg.networks.push(NetRecord::new("n", net));
    let mut h = spawn(cfg);

    let c = h.arrive("x", client);
    let pending = h.next_event(|e| matches!(e, HubEvent::DevicePending { .. }));
    assert!(matches!(pending, Some(HubEvent::DevicePending { network, .. }) if network == Uuid::nil()));

    let _ = h.assign_client(client, Some(net));
    let _ = h.recv(c);
    h.join(c, net);
    let _ = h.device_set(client, net, admission(true));

    match h.next_event(|e| matches!(e, HubEvent::DeviceOnline { .. })) {
        Some(HubEvent::DeviceOnline { network, client_uuid, .. }) => {
            assert_eq!(network, net);
            assert_eq!(client_uuid, client);
        }
        other => panic!("expected DeviceOnline, got {:?}", other),
    }
    let _ = h.recv(c);
}

#[test]
fn device_set_emits_changed_on_each_edit() {
    let net = fresh();
    let client = fresh();
    let mut cfg = build_cfg(60);
    cfg.networks.push(NetRecord::new("n", net));
    cfg.approved_clients.push(approved(client, net, "10.0.0.5/24"));
    let mut h = spawn(cfg);

    let _ = h.device_set(
        client,
        net,
        DeviceUpdate { name: Some("router".to_string()), ..Default::default() },
    );
    match h.next_event(|e| matches!(e, HubEvent::DeviceChanged { .. })) {
        Some(HubEvent::DeviceChanged { network, device }) => {
            assert_eq!(network, net);
            assert_eq!(device.display_name, "router");
            assert!(device.admitted);
        }
        other => panic!("expected DeviceChanged after rename, got {:?}", other),
    }

    let _ = h.device_set(client, net, admission(false));
    let kicked =
        h.next_event(|e| matches!(e, HubEvent::DeviceChanged { device, .. } if !device.admitted));
    match kicked {
        Some(HubEvent::DeviceChanged { network, device }) => {
            assert_eq!(network, net);
            assert_eq!(device.client_uuid, client);
            assert!(!device.admitted);
        }
        other => panic!("expected DeviceChanged after kick, got {:?}", other),
    }
}

#[test]
fn device_push_emits_routes_changed() {
    let net = fresh();
    let client = fresh();
    let mut cfg = build_cfg(60);
    cfg.networks.push(NetRecord::new("n", net));
    cfg.approved_clients.push(approved_with_lan(client, net, "10.0.0.5/24", &["192.168.10.0/24"]));
    let mut h = spawn(cfg);

    let _ = h.device_push(net);
    match h.next_event(|e| matches!(e, HubEvent::RoutesChanged { .. })) {
        Some(HubEvent::RoutesChanged { network, routes, .. }) => {
            assert_eq!(network, net);
            assert_eq!(routes.len(), 1);
            assert_eq!(routes[0].dst, "192.168.10.0/24");
        }
        other => panic!("expected RoutesChanged, got {:?}", other),
    }
}

// ── One bridge per network ───────────────────────────────────────────────

#[test]
fn each_network_gets_its_own_bridge() {
    let net_a = fresh();
    let net_b = fresh();
    let mut cfg = build_cfg(60);
    let rec_a = NetRecord::new("alpha", net_a);
    let rec_b = NetRecord::new("beta", net_b);
    let br_a_name = rec_a.bridge_name.clone();
    let br_b_name = rec_b.bridge_name.clone();
    cfg.networks.push(rec_a);
    cfg.networks.push(rec_b);
    let h = spawn(cfg);

    assert_eq!(h.platform.bridges.len(), 2, "expected one bridge per network");
    assert!(h.platform.bridges.iter().any(|b| b.name() == br_a_name));
    assert!(h.platform.bridges.iter().any(|b| b.name() == br_b_name));
    assert_ne!(br_a_name, br_b_name);
}

#[test]
fn admit_attaches_tap_to_owning_network_bridge_only() {
    let net_a = fresh();
    let net_b = fresh();
    let client = fresh();
    let mut cfg = build_cfg(60);
    cfg.networks.push(NetRecord::new("alpha", net_a));
    cfg.networks.push(NetRecord::new("beta", net_b));
    cfg.approved_clients.push(approved(client, net_a, "10.0.0.5/24"));
    let mut h = spawn(cfg);

    let c = h.arrive("x", client);
    h.join(c, net_a);
    let _ = h.recv(c);

    assert_eq!(h.bridge(net_a).snapshot().ports.len(), 1);
    assert!(h.bridge(net_b).snapshot().ports.is_empty());
}

#[test]
fn delete_net_destroys_only_that_networks_bridge() {
    let net_a = fresh();
    let net_b = fresh();
    let mut cfg = build_cfg(60);
    cfg.networks.push(NetRecord::new("alpha", net_a));
    cfg.networks.push(NetRecord::new("beta", net_b));
    let mut h = spawn(cfg);
    assert!(!h.bridge(net_a).snapshot().destroyed);
    assert!(!h.bridge(net_b).snapshot().destroyed);

    assert!(h.delete_net(net_a), "delete_net should succeed for an existing net");
    assert!(h.bridge(net_a).snapshot().destroyed, "net A's bridge must be torn down");
    assert!(!h.bridge(net_b).snapshot().destroyed, "net B's bridge must survive");
}

#[test]
fn legacy_bridge_config_migrates_to_first_networks_fields() {
    let net_a = fresh();
    let net_b = fresh();
    let mut cfg = ServerConfig::default();
    cfg.server.host = "0.0.0.0".to_string();
    cfg.server.port = 8888;
    cfg.server.save_dir = "/var/lib/bifrost".to_string();
    cfg.bridge.name = "br-bifrost".to_string();
    cfg.bridge.ip = "10.0.0.1/24".to_string();
    cfg.bridge.disconnect_timeout = 60;
    cfg.admin.socket = "/run/bifrost/server.sock".to_string();
    for (name, uuid) in [("alpha", net_a), ("beta", net_b)] {
        cfg.networks.push(NetRecord {
            name: name.to_string(),
            uuid,
            bridge_name: String::new(),
            bridge_ip: String::new(),
        });
    }
    cfg.migrate();

    assert_eq!(cfg.networks.len(), 2);
    assert_eq!(cfg.networks[0].bridge_name, "br-bifrost");
    assert_eq!(cfg.networks[0].bridge_ip, "10.0.0.1/24");
    assert_ne!(cfg.networks[1].bridge_name, "br-bifrost");
    assert_eq!(cfg.networks[1].bridge_ip, "");
    assert!(cfg.networks[1].bridge_name.starts_with("bf-"));
}

// ── Assigning clients ────────────────────────────────────────────────────

#[test]
fn assign_pending_to_network_emits_assignnet_and_creates_row() {
    let net = fresh();
    let client = fresh();
    let mut cfg = build_cfg(60);
    cfg.networks.push(NetRecord::new("n", net));
    let mut h = spawn(cfg);

    let c = h.arrive("x", client);
    let devices = h.hub.handle_device_list(None);
    assert!(devices.iter().any(|d| d.client_uuid == client && d.net_uuid.is_none()));

    let r = h.assign_client(client, Some(net));
    assert!(matches!(r, AssignClientResult::Assigned(_)));
    match h.recv(c) {
        Frame::AssignNet { net_uuid } => assert_eq!(net_uuid, Some(net)),
        other => panic!("expected AssignNet, got {:?}", other),
    }

    let devices = h.hub.handle_device_list(Some(net));
    assert_eq!(devices.len(), 1);
    assert_eq!(devices[0].client_uuid, client);
    assert!(!devices[0].admitted);
    assert!(devices[0].tap_ip.is_none());
}

#[test]
fn assign_detach_moves_admitted_client_to_pending_pool() {
    let net = fresh();
    let client = fresh();
    let mut cfg = build_cfg(60);
    cfg.networks.push(NetRecord::new("n", net));
    let mut row = approved_with_lan(client, net, "10.0.0.5/24", &["192.168.10.0/24"]);
    row.display_name = "router".to_string();
    cfg.approved_clients.push(row);
    let mut h = spawn(cfg);

    let r = h.assign_client(client, None);
    assert!(matches!(r, AssignClientResult::Assigned(_)));

    let devices = h.hub.handle_device_list(None);
    let only = devices.iter().find(|d| d.client_uuid == client).unwrap();
    assert!(only.net_uuid.is_none());
    assert_eq!(only.display_name, "router");
    assert_eq!(only.lan_subnets, vec!["192.168.10.0/24"]);
}

#[test]
fn assign_unknown_network_returns_unknown_network() {
    let client = fresh();
    let mut h = spawn(build_cfg(60));
    let r = h.assign_client(client, Some(fresh()));
    assert!(matches!(r, AssignClientResult::UnknownNetwork));
}

#[test]
fn delete_net_detaches_clients_to_pending() {
    let net = fresh();
    let cid_a = fresh();
    let cid_b = fresh();
    let mut cfg = build_cfg(60);
    cfg.networks.push(NetRecord::new("n", net));
    let mut a = approved_with_lan(cid_a, net, "10.0.0.5/24", &["192.168.10.0/24"]);
    a.display_name = "a".to_string();
    let mut b = approved_with_lan(cid_b, net, "10.0.0.6/24", &[]);
    b.display_name = "b".to_string();
    cfg.approved_clients.push(a);
    cfg.approved_clients.push(b);
    let mut h = spawn(cfg);

    assert!(h.delete_net(net));
    let devices = h.hub.handle_device_list(None);
    assert_eq!(devices.len(), 2);
    assert!(devices.iter().all(|d| d.net_uuid.is_none()));
    let names: Vec<&str> = devices.iter().map(|d| d.display_name.as_str()).collect();
    assert!(names.contains(&"a"));
    assert!(names.contains(&"b"));
}

// ── Bridge addresses ─────────────────────────────────────────────────────

#[test]
fn set_bridge_ip_rejects_non_16_or_24_prefix() {
    let net = fresh();
    let mut cfg = build_cfg(60);
    cfg.networks.push(NetRecord::new("n", net));
    let mut h = spawn(cfg);
    let r = h.set_net_bridge_ip(net, "10.0.0.1/22");
    assert!(matches!(r, SetNetBridgeIpResult::Invalid(_)));
}

#[test]
fn set_bridge_ip_24_to_16_rewrites_client_tap_ip_prefix() {
    let net = fresh();
    let cid = fresh();
    let mut cfg = build_cfg(60);
    let mut net_rec = NetRecord::new("n", net);
    net_rec.bridge_ip = "10.0.0.1/24".to_string();
    cfg.networks.push(net_rec);
    cfg.approved_clients.push(approved(cid, net, "10.0.0.5/24"));
    let mut h = spawn(cfg);

    let r = h.set_net_bridge_ip(net, "10.0.0.1/16");
    assert!(matches!(r, SetNetBridgeIpResult::Updated(_)));
    let devices = h.hub.handle_device_list(Some(net));
    assert_eq!(devices.len(), 1);
    assert_eq!(devices[0].tap_ip.as_deref(), Some("10.0.0.5/16"));
}

// ── Unpushed routes ──────────────────────────────────────────────────────

#[test]
fn routes_dirty_only_fires_when_all_clients_online() {
    let net = fresh();
    let c1 = fresh();
    let c2 = fresh();
    let mut cfg = build_cfg(60);
    cfg.networks.push(NetRecord::new("n", net));
    cfg.approved_clients.push(approved_with_lan(c1, net, "10.0.0.5/24", &["192.168.50.0/24"]));
    let mut waiting = approved_with_lan(c2, net, "", &["192.168.60.0/24"]);
    waiting.admitted = false;
    cfg.approved_clients.push(waiting);
    let mut h = spawn(cfg);
    assert!(!h.is_dirty(net), "not while c2 is unadmitted");

    let _ = h.device_set(c2, net, ip("10.0.0.6/24"));
    assert!(!h.is_dirty(net), "c2 is still not admitted");

    let result = h.device_set(c2, net, admission(true));
    assert!(matches!(result, DeviceSetResult::Updated(_)));
    match h.next_event(|e| matches!(e, HubEvent::RoutesDirty { dirty, .. } if *dirty)) {
        Some(HubEvent::RoutesDirty { network, dirty }) => {
            assert_eq!(network, net);
            assert!(dirty);
        }
        other => panic!("expected RoutesDirty after the last admission, got {:?}", other),
    }
    assert!(h.is_dirty(net));

    let _ = h.device_push(net);
    match h.next_event(|e| matches!(e, HubEvent::RoutesDirty { dirty, .. } if !*dirty)) {
        Some(HubEvent::RoutesDirty { network, dirty }) => {
            assert_eq!(network, net);
            assert!(!dirty);
        }
        other => panic!("expected RoutesDirty after the push, got {:?}", other),
    }
    assert!(!h.is_dirty(net));
}

#[test]
fn dragging_client_into_net_does_not_pulse_until_all_admitted() {
    let net_a = fresh();
    let net_b = fresh();
    let client = fresh();
    let mut cfg = build_cfg(60);
    cfg.networks.push(NetRecord::new("a", net_a));
    cfg.networks.push(NetRecord::new("b", net_b));
    cfg.approved_clients.push(approved_with_lan(
        client,
        net_a,
        "10.0.0.5/24",
        &["192.168.77.0/24"],
    ));
    let mut h = spawn(cfg);
    assert!(!h.is_dirty(net_a));
    assert!(!h.is_dirty(net_b));

    let r = h.assign_client(client, Some(net_b));
    assert!(matches!(r, AssignClientResult::Assigned(_)));
    assert!(!h.is_dirty(net_a), "an empty network needs no push");
    assert!(!h.is_dirty(net_b), "its only member is not admitted");

    let _ = h.device_set(client, net_b, ip("10.0.1.5/24"));
    assert!(!h.is_dirty(net_b));

    let _ = h.device_set(client, net_b, admission(true));
    match h.next_event(|e| matches!(e, HubEvent::RoutesDirty { dirty, .. } if *dirty)) {
        Some(HubEvent::RoutesDirty { network, dirty }) => {
            assert_eq!(network, net_b);
            assert!(dirty);
        }
        other => panic!("expected RoutesDirty after the admission, got {:?}", other),
    }
    assert!(h.is_dirty(net_b));
}
