//! The server around a hub: admin requests, client frames, HTTP requests.
use std::collections::{HashMap, VecDeque};

use bifrost::admin::{ServerAdminReq, ServerAdminResp};
use bifrost::config::{ApprovedClient, NetRecord, ServerConfig};
use bifrost::events::HubEvent;
use bifrost::frame::{Frame, PROTOCOL_VERSION};
use bifrost::hub::{Approval, DeviceUpdate, Hub, HubAction, SessionNote, TapOutcome};
use bifrost::ids::{ConnId, SessionId};
use bifrost::net::mock::{MockBridge, MockPlatform};
use bifrost::server::conn::{
    batch_has_room, candidate_name, next_name, part_name, route_inbound, saved_line, ConnAct,
};
use bifrost::server::daemon::{
    admin_request, apply_overrides, as_lines, listen_addr, send_file, startup_lines, AdminCmd,
    DeviceAction,
};
use bifrost::server::dispatch::{
    dispatch, dispatch_with, finish_make_net, finish_push, finish_set, Next,
};
use bifrost::server::render::format_resp;
use bifrost::server::repl::{parse, sent_file, ReplCmd};
use bifrost::server::statics::{asset_name, handler, StaticReply};
use bifrost::server::web;
use bifrost::server::web::{api, api_with, ApiBody, ApiNext, ApiReply, ApiRequest};
use bifrost::server::ws::{ws_step, WsAct, WsInput};
use bifrost::session::{SessionAction, SessionCmd, SessionEvt, SessionInput, SessionTask};
use bifrost::uuids::Uuid;

// ── The surroundings of a hub ────────────────────────────────────────────

fn fresh() -> Uuid {
    Uuid(uuid::Uuid::new_v4().as_u128())
}

/// A connection as the hub sees it.
struct FakeConn {
    frames: VecDeque<Frame>,
    binds: VecDeque<Option<SessionId>>,
    open: bool,
}

/// A hub, and everything it acts on, in memory.
struct Rig {
    hub: Hub,
    platform: MockPlatform,
    bridge_at: HashMap<u128, usize>,
    tap_at: HashMap<u64, usize>,
    tasks: HashMap<u64, SessionTask>,
    conns: HashMap<u64, FakeConn>,
    events: VecDeque<HubEvent>,
    saved: Option<ServerConfig>,
    clock: u64,
    server_id: Uuid,
    /// Files that clients sent, by name.
    files: HashMap<String, Vec<u8>>,
    shown: Vec<String>,
}

fn spawn(cfg: ServerConfig) -> Rig {
    let mut rig = Rig {
        hub: Hub::new(cfg),
        platform: MockPlatform::new(),
        bridge_at: HashMap::new(),
        tap_at: HashMap::new(),
        tasks: HashMap::new(),
        conns: HashMap::new(),
        events: VecDeque::new(),
        saved: None,
        clock: 1000,
        server_id: fresh(),
        files: HashMap::new(),
        shown: Vec::new(),
    };
    let nets: Vec<NetRecord> = rig.hub.cfg.networks.clone();
    for n in &nets {
        rig.make_bridge(n);
        rig.hub.bridge_ready(n.uuid);
    }
    let acts = rig.hub.handle_start();
    rig.run(acts);
    rig
}

impl Rig {
    fn make_bridge(&mut self, n: &NetRecord) {
        let i = self.platform.create_bridge(&n.bridge_name);
        self.bridge_at.insert(n.uuid.0, i);
    }

    fn bridge(&self, net: Uuid) -> &MockBridge {
        &self.platform.bridges[self.bridge_at[&net.0]]
    }

    fn bridge_mut(&mut self, net: Uuid) -> &mut MockBridge {
        let i = self.bridge_at[&net.0];
        &mut self.platform.bridges[i]
    }

    fn run(&mut self, acts: Vec<HubAction>) {
        for a in acts {
            match a {
                HubAction::Send { conn, frame } => {
                    if let Some(c) = self.conns.get_mut(&conn.0) {
                        c.frames.push_back(frame);
                    }
                }
                HubAction::Bind { conn, session } => {
                    if let Some(c) = self.conns.get_mut(&conn.0) {
                        c.binds.push_back(session);
                    }
                }
                HubAction::DropConn { conn } => {
                    if let Some(c) = self.conns.get_mut(&conn.0) {
                        c.open = false;
                    }
                }
                HubAction::ToSession { sid, note } => {
                    let cmd = match note {
                        SessionNote::Bind(c) => SessionCmd::BindConn(c),
                        SessionNote::Unbind => SessionCmd::UnbindConn,
                        SessionNote::Kill => SessionCmd::Kill,
                    };
                    self.session(sid, SessionInput::Cmd(cmd));
                }
                HubAction::StartSession { sid, conn, .. } => {
                    let timeout = self.hub.cfg.bridge.disconnect_timeout * 1000;
                    self.tasks.insert(sid.0, SessionTask::new(sid, conn, Some(timeout)));
                }
                HubAction::DestroyTap { sid } => {
                    let i = self.tap_at[&sid.0];
                    self.platform.taps[i].destroy();
                }
                HubAction::RemoveTap { net, tap_name } => {
                    self.bridge_mut(net).remove_tap(&tap_name);
                }
                HubAction::ApplyRoutes { net, routes } => {
                    self.bridge_mut(net).apply_routes(&routes);
                }
                HubAction::SetBridgeIp { .. } => {}
                HubAction::DestroyBridge { net } => self.bridge_mut(net).destroy(),
                HubAction::Persist => self.saved = Some(self.hub.cfg.clone()),
                HubAction::Emit(e) => self.events.push_back(e),
            }
        }
    }

    fn session(&mut self, sid: SessionId, input: SessionInput) {
        let now = self.clock;
        let acts = match self.tasks.get_mut(&sid.0) {
            Some(t) => t.step(now, input),
            None => return,
        };
        for a in acts {
            match a {
                SessionAction::WriteTap(f) => {
                    let i = self.tap_at[&sid.0];
                    let n = self.platform.taps[i].write(&f).unwrap();
                    self.session(sid, SessionInput::TapWritten(n as u64));
                }
                SessionAction::SetTapIp(ip) => {
                    let i = self.tap_at[&sid.0];
                    self.platform.taps[i].set_ip(ip);
                }
                SessionAction::ApplyRoutes(r) => {
                    let i = self.tap_at[&sid.0];
                    self.platform.taps[i].apply_routes(&r);
                }
                SessionAction::SendEth { conn, frame } => {
                    let n = frame.len() as u64;
                    self.conns.get_mut(&conn.0).unwrap().frames.push_back(Frame::Eth(frame));
                    self.session(sid, SessionInput::Sent(n));
                }
                SessionAction::DestroyTap => {
                    let i = self.tap_at[&sid.0];
                    self.platform.taps[i].destroy();
                }
                SessionAction::Tell(SessionEvt::Died { sid, .. }) => {
                    self.tasks.remove(&sid.0);
                    let acts = self.hub.handle_session_died(sid);
                    self.run(acts);
                }
            }
        }
    }

    fn connect(&mut self, addr: &str) -> ConnId {
        let id = self.hub.handle_new_conn(addr.to_string());
        self.conns.insert(
            id.0,
            FakeConn { frames: VecDeque::new(), binds: VecDeque::new(), open: true },
        );
        id
    }

    fn approve(&mut self, a: Approval) {
        let i = self.platform.create_tap(&a.tap_name, None);
        self.tap_at.insert(a.sid.0, i);
        if a.bridged {
            self.bridge_mut(a.net_uuid).add_tap(&a.tap_name);
        }
        let acts = self.hub.do_approve(&a, TapOutcome::Ready);
        self.run(acts);
    }

    fn join(&mut self, conn: ConnId, net: Uuid) {
        let (acts, approval) = self.hub.handle_join(conn, net);
        self.run(acts);
        if let Some(a) = approval {
            self.approve(a);
        }
    }

    fn disconnect(&mut self, conn: ConnId) {
        self.conns.get_mut(&conn.0).unwrap().open = false;
        let acts = self.hub.handle_disconnect(conn);
        self.run(acts);
    }

    fn tick(&mut self) {
        let mut now: Vec<(u64, u64)> = Vec::new();
        for s in &self.hub.sessions {
            let t = &self.tasks[&s.sid.0];
            now.push((t.bytes_in, t.bytes_out));
        }
        let acts = self.hub.emit_metrics_tick(&now);
        self.run(acts);
    }

    /// One admin request, and its response.
    fn rpc(&mut self, req: ServerAdminReq) -> ServerAdminResp {
        let (acts, next) = dispatch(&mut self.hub, req);
        let sends = count_sends(&acts);
        self.run(acts);
        let (acts, resp) = match next {
            Next::Reply(r) => return r,
            Next::CountSends => return ServerAdminResp::Count(sends),
            Next::CreateBridge(rec) => {
                self.make_bridge(&rec);
                finish_make_net(&mut self.hub, rec, true)
            }
            Next::PrepareTap { approval, client_uuid, net_uuid } => {
                self.approve(approval);
                finish_set(&mut self.hub, client_uuid, net_uuid)
            }
            Next::CountRoutes { net_uuid, routes } => {
                finish_push(&mut self.hub, net_uuid, &routes, sends)
            }
        };
        self.run(acts);
        resp
    }

    /// One HTTP request, and its reply.
    fn http(&mut self, req: ApiRequest) -> ApiReply {
        let (acts, next) = api(&mut self.hub, req);
        let sends = count_sends(&acts);
        self.run(acts);
        let (acts, reply) = match next {
            ApiNext::Reply(r) => return r,
            ApiNext::CreateBridge(rec) => {
                self.make_bridge(&rec);
                web::finish_create(&mut self.hub, rec, true)
            }
            ApiNext::PrepareTap { approval, cid, nid } => {
                self.approve(approval);
                web::finish_patch(&mut self.hub, cid, nid)
            }
            ApiNext::CountRoutes { nid, routes } => {
                web::finish_push(&mut self.hub, nid, &routes, sends)
            }
        };
        self.run(acts);
        reply
    }

    /// A frame of a client; says whether the connection lives on.
    fn client_sends(&mut self, conn: ConnId, frame: Frame) -> bool {
        let bound = match self.conns[&conn.0].binds.back() {
            Some(b) => *b,
            None => None,
        };
        let (acts, keep) = route_inbound(frame, self.server_id, bound.is_some(), "1.2.3.4:1");
        for a in acts {
            match a {
                ConnAct::Reply(f) => self.conns.get_mut(&conn.0).unwrap().frames.push_back(f),
                ConnAct::Hello { client_uuid, version } => {
                    let acts = self.hub.handle_hello(conn, client_uuid, version);
                    self.run(acts);
                }
                ConnAct::Join { net_uuid } => self.join(conn, net_uuid),
                ConnAct::ToSession(b) => {
                    self.session(bound.unwrap(), SessionInput::Cmd(SessionCmd::EthIn(b)));
                }
                ConnAct::Show(line) => self.shown.push(line),
                ConnAct::Save { name, data } => {
                    let mut free = name.clone();
                    let mut i = 1;
                    while self.files.contains_key(&free) {
                        free = next_name(&name, i);
                        i += 1;
                    }
                    self.files.insert(free, data);
                }
                ConnAct::Unexpected => {}
            }
        }
        if !keep {
            self.disconnect(conn);
        }
        keep
    }

    fn client_hello(&mut self, addr: &str, client: Uuid) -> ConnId {
        let c = self.connect(addr);
        self.client_sends(c, hello(PROTOCOL_VERSION, client));
        c
    }

    fn recv(&mut self, conn: ConnId) -> Frame {
        match self.try_recv(conn) {
            Some(f) => f,
            None => panic!("no frame on {}", conn.to_text()),
        }
    }

    fn try_recv(&mut self, conn: ConnId) -> Option<Frame> {
        self.conns.get_mut(&conn.0).unwrap().frames.pop_front()
    }

    fn next_event(&mut self, want: fn(&HubEvent) -> bool) -> Option<HubEvent> {
        while let Some(e) = self.events.pop_front() {
            if want(&e) {
                return Some(e);
            }
        }
        None
    }
}

fn approved(client_uuid: Uuid, net_uuid: Uuid, tap_ip: &str) -> ApprovedClient {
    approved_with_lan(client_uuid, net_uuid, tap_ip, &[])
}

fn approved_with_lan(
    client_uuid: Uuid,
    net_uuid: Uuid,
    tap_ip: &str,
    lan: &[&str],
) -> ApprovedClient {
    ApprovedClient {
        client_uuid,
        net_uuid,
        tap_ip: tap_ip.to_string(),
        display_name: String::new(),
        lan_subnets: lan.iter().map(|s| s.to_string()).collect(),
        admitted: true,
    }
}

fn count_sends(acts: &[HubAction]) -> u64 {
    acts.iter().filter(|a| matches!(a, HubAction::Send { .. })).count() as u64
}

fn hello(version: u16, client_uuid: Uuid) -> Frame {
    Frame::Hello { version, client_uuid, caps: 0 }
}

fn spawn_with(members: Vec<(Uuid, Uuid, &str)>, networks: Vec<Uuid>) -> Rig {
    let mut cfg = ServerConfig::default();
    cfg.bridge.disconnect_timeout = 60;
    for net in networks {
        cfg.networks.push(NetRecord::new(&format!("net-{}", net.short()), net));
    }
    for (client, net, ip) in members {
        cfg.approved_clients.push(approved(client, net, ip));
    }
    spawn(cfg)
}

/// A hub with one network and these members.
fn spawn_net(members: Vec<ApprovedClient>) -> (Rig, Uuid) {
    let net = fresh();
    let mut cfg = ServerConfig::default();
    cfg.networks.push(NetRecord::new("n", net));
    for mut m in members {
        m.net_uuid = net;
        cfg.approved_clients.push(m);
    }
    (spawn(cfg), net)
}

fn set_req(client_uuid: Uuid, u: DeviceUpdate) -> ServerAdminReq {
    ServerAdminReq::DeviceSet {
        client_uuid,
        name: u.name,
        admitted: u.admitted,
        tap_ip: u.tap_ip,
        lan_subnets: u.lan_subnets,
    }
}

fn lan(list: &[&str]) -> Option<Vec<String>> {
    Some(list.iter().map(|s| s.to_string()).collect())
}

fn some(s: &str) -> Option<String> {
    Some(s.to_string())
}

// ── Admin requests ───────────────────────────────────────────────────────

#[test]
fn mknet_round_trip_returns_uuid() {
    let mut h = spawn_with(vec![], vec![]);
    let resp = h.rpc(ServerAdminReq::MakeNet { name: "hml".to_string(), bridge_ip: None });
    match resp {
        ServerAdminResp::NetCreated { uuid } => assert_ne!(uuid, Uuid::nil()),
        other => panic!("expected NetCreated, got {:?}", other),
    }
    assert!(h.saved.is_some());
}

#[test]
fn mknet_with_an_address_checks_it_first() {
    let mut h = spawn_with(vec![], vec![]);
    let resp = h.rpc(ServerAdminReq::MakeNet { name: "a".to_string(), bridge_ip: some("10.0.0.1/22") });
    assert!(matches!(resp, ServerAdminResp::Error(_)), "got {:?}", resp);
    assert!(h.hub.cfg.networks.is_empty());

    let resp = h.rpc(ServerAdminReq::MakeNet { name: "a".to_string(), bridge_ip: some("10.0.0.1/24") });
    assert!(matches!(resp, ServerAdminResp::NetCreated { .. }));
    match h.rpc(ServerAdminReq::List) {
        ServerAdminResp::Snapshot(s) => assert_eq!(s.networks[0].bridge_ip, "10.0.0.1/24"),
        other => panic!("expected Snapshot, got {:?}", other),
    }
}

#[test]
fn list_returns_snapshot() {
    let net = fresh();
    let mut h = spawn_with(vec![], vec![net]);
    match h.rpc(ServerAdminReq::List) {
        ServerAdminResp::Snapshot(snap) => {
            assert_eq!(snap.networks.len(), 1);
            assert_eq!(snap.networks[0].uuid, net);
        }
        other => panic!("expected Snapshot, got {:?}", other),
    }
}

#[test]
fn device_set_lan_subnets_round_trips() {
    let net = fresh();
    let client = fresh();
    let mut h = spawn_with(vec![(client, net, "10.0.0.5/24")], vec![net]);

    let resp = h.rpc(set_req(
        client,
        DeviceUpdate {
            name: some("router"),
            lan_subnets: lan(&["192.168.10.0/24"]),
            ..Default::default()
        },
    ));
    match resp {
        ServerAdminResp::Device(d) => {
            assert_eq!(d.display_name, "router");
            assert_eq!(d.lan_subnets, vec!["192.168.10.0/24".to_string()]);
        }
        other => panic!("expected Device, got {:?}", other),
    }

    match h.rpc(ServerAdminReq::DevicePush { net_uuid: net }) {
        ServerAdminResp::Pushed { routes, .. } => {
            assert_eq!(routes.len(), 1);
            assert_eq!(routes[0].dst, "192.168.10.0/24");
            assert_eq!(routes[0].via, "10.0.0.5");
        }
        other => panic!("expected Pushed, got {:?}", other),
    }
}

#[test]
fn device_set_validates_invalid_subnet() {
    let net = fresh();
    let client = fresh();
    let mut h = spawn_with(vec![(client, net, "10.0.0.5/24")], vec![net]);
    let u = DeviceUpdate { lan_subnets: lan(&["garbage"]), ..Default::default() };
    let resp = h.rpc(set_req(client, u));
    assert!(matches!(resp, ServerAdminResp::InvalidIp), "got {:?}", resp);
}

#[test]
fn device_set_unknown_client_returns_not_found() {
    let mut h = spawn_with(vec![], vec![]);
    let u = DeviceUpdate { tap_ip: some("10.0.0.1/24"), ..Default::default() };
    let resp = h.rpc(set_req(fresh(), u));
    assert!(matches!(resp, ServerAdminResp::NotFound));
}

#[test]
fn device_set_invalid_ip() {
    let net = fresh();
    let client = fresh();
    let mut h = spawn_with(vec![(client, net, "")], vec![net]);
    let u = DeviceUpdate { tap_ip: some("not-an-ip"), ..Default::default() };
    let resp = h.rpc(set_req(client, u));
    assert!(matches!(resp, ServerAdminResp::InvalidIp));
}

#[test]
fn shutdown_request_signals_main() {
    let mut h = spawn_with(vec![], vec![]);
    let resp = h.rpc(ServerAdminReq::Shutdown);
    assert!(matches!(resp, ServerAdminResp::Done));
}

#[test]
fn broadcast_text_returns_count() {
    let mut h = spawn_with(vec![], vec![]);
    assert_eq!(
        h.rpc(ServerAdminReq::Send { msg: "hello".to_string() }),
        ServerAdminResp::Count(0)
    );
    let _ = h.connect("a");
    let _ = h.connect("b");
    assert_eq!(
        h.rpc(ServerAdminReq::SendFile { name: "x".to_string(), data: vec![1] }),
        ServerAdminResp::Count(2)
    );
}

#[test]
fn clients_without_a_network_take_a_name_and_subnets_only() {
    let client = fresh();
    let mut h = spawn_with(vec![], vec![]);
    let _ = h.client_hello("x", client);

    let u = DeviceUpdate { name: some("laptop"), ..Default::default() };
    match h.rpc(set_req(client, u)) {
        ServerAdminResp::Device(d) => assert_eq!(d.display_name, "laptop"),
        other => panic!("expected Device, got {:?}", other),
    }
    let u = DeviceUpdate { admitted: Some(true), ..Default::default() };
    match h.rpc(set_req(client, u)) {
        ServerAdminResp::Error(m) => {
            assert!(m.starts_with(&format!("client {}", client.to_text())), "got {}", m);
        }
        other => panic!("expected Error, got {:?}", other),
    }
    let u = DeviceUpdate { lan_subnets: lan(&["nonsense"]), ..Default::default() };
    assert_eq!(h.rpc(set_req(client, u)), ServerAdminResp::InvalidIp);
}

#[test]
fn networks_are_renamed_and_deleted() {
    let net = fresh();
    let client = fresh();
    let mut h = spawn_with(vec![(client, net, "10.0.0.5/24")], vec![net]);
    let rename = ServerAdminReq::RenameNet { net_uuid: net, name: "lab".to_string() };
    assert_eq!(h.rpc(rename), ServerAdminResp::Done);
    assert_eq!(h.hub.cfg.networks[0].name, "lab");
    assert_eq!(h.rpc(ServerAdminReq::DeleteNet { net_uuid: net }), ServerAdminResp::Done);
    assert_eq!(h.rpc(ServerAdminReq::DeleteNet { net_uuid: net }), ServerAdminResp::NotFound);
    match h.rpc(ServerAdminReq::DeviceList { net_uuid: None }) {
        ServerAdminResp::Devices(v) => {
            assert_eq!(v.len(), 1);
            assert_eq!(v[0].net_uuid, None);
        }
        other => panic!("expected Devices, got {:?}", other),
    }
}

#[test]
fn clients_are_assigned_by_request() {
    let net = fresh();
    let client = fresh();
    let mut h = spawn_with(vec![(client, net, "10.0.0.5/24")], vec![net]);
    let detach = ServerAdminReq::AssignClient { client_uuid: client, net_uuid: None };
    assert!(matches!(h.rpc(detach), ServerAdminResp::Device(d) if d.net_uuid.is_none()));
    let unknown = ServerAdminReq::AssignClient { client_uuid: fresh(), net_uuid: None };
    assert_eq!(h.rpc(unknown), ServerAdminResp::NotFound);
    let nowhere = ServerAdminReq::AssignClient { client_uuid: client, net_uuid: Some(fresh()) };
    assert!(matches!(h.rpc(nowhere), ServerAdminResp::Error(_)));
}

// ── Client frames ────────────────────────────────────────────────────────

#[test]
fn hello_returns_helloack() {
    let mut h = spawn_with(vec![], vec![]);
    let c = h.connect("1.2.3.4:1");
    assert!(h.client_sends(c, hello(PROTOCOL_VERSION, fresh())));
    match h.recv(c) {
        Frame::HelloAck { version, server_id, .. } => {
            assert_eq!(version, PROTOCOL_VERSION);
            assert_eq!(server_id, h.server_id);
        }
        other => panic!("expected HelloAck, got {:?}", other),
    }
}

#[test]
fn version_mismatch_closes_connection() {
    let mut h = spawn_with(vec![], vec![]);
    let c = h.connect("1.2.3.4:2");
    let keep = h.client_sends(c, hello(PROTOCOL_VERSION + 99, fresh()));
    match h.recv(c) {
        Frame::JoinDeny { reason } => assert!(reason.starts_with("version_mismatch")),
        other => panic!("expected JoinDeny, got {:?}", other),
    }
    assert!(!keep);
    assert!(h.try_recv(c).is_none());
}

#[test]
fn full_join_flow_creates_tap_and_binds() {
    let net = fresh();
    let client_uuid = fresh();
    let mut h = spawn_with(vec![(client_uuid, net, "10.0.0.5/24")], vec![net]);

    let c = h.client_hello("1.2.3.4:3", client_uuid);
    assert!(matches!(h.recv(c), Frame::HelloAck { .. }));
    assert_eq!(h.recv(c), Frame::AssignNet { net_uuid: Some(net) });

    h.client_sends(c, Frame::Join { net_uuid: net });
    match h.recv(c) {
        Frame::JoinOk { ip, .. } => assert_eq!(ip.as_deref(), Some("10.0.0.5/24")),
        other => panic!("expected JoinOk, got {:?}", other),
    }
    assert_eq!(h.platform.taps_count(), 1);
    assert_eq!(h.bridge(net).snapshot().ports.len(), 1);

    h.tick();
    h.client_sends(c, Frame::Eth(b"client-to-server".to_vec()));
    assert_eq!(h.platform.taps[0].pop_written(), Some(b"client-to-server".to_vec()));

    h.platform.taps[0].inject_frame(b"server-to-client".to_vec());
    let f = h.platform.taps[0].read(2048).unwrap();
    let sid = h.hub.sessions[0].sid;
    h.session(sid, SessionInput::TapRead(f));
    match h.recv(c) {
        Frame::Eth(b) => assert_eq!(b, b"server-to-client"),
        other => panic!("expected Eth, got {:?}", other),
    }
    h.tick();
    match h.events.pop_back() {
        Some(HubEvent::MetricsTick { samples }) => {
            assert_eq!(samples[0].bps_in, 16);
            assert_eq!(samples[0].total_out, 16);
        }
        other => panic!("expected MetricsTick, got {:?}", other),
    }
}

#[test]
fn ping_is_answered_inline() {
    let mut h = spawn_with(vec![], vec![]);
    let c = h.client_hello("1.2.3.4:4", fresh());
    let _ = h.recv(c);
    let _ = h.recv(c);
    h.client_sends(c, Frame::Ping(0xCAFEBABE));
    match h.recv(c) {
        Frame::Pong(n) => assert_eq!(n, 0xCAFEBABE),
        other => panic!("expected Pong, got {:?}", other),
    }
}

#[test]
fn file_frame_lands_in_save_dir() {
    let mut h = spawn_with(vec![], vec![]);
    let c = h.client_hello("1.2.3.4:5", fresh());
    let _ = h.recv(c);
    let file = Frame::File { name: "report.txt".to_string(), data: b"hello world".to_vec() };
    h.client_sends(c, file.clone());
    assert_eq!(h.files["report.txt"], b"hello world");
    h.client_sends(c, file.clone());
    h.client_sends(c, file);
    assert_eq!(h.files["report_1.txt"], b"hello world");
    assert_eq!(h.files["report_2.txt"], b"hello world");
    assert_eq!(candidate_name("notes", "", 3), "notes_3");
    assert_eq!(
        saved_line("1.2.3.4:5", "report.txt", 11, "recv/report.txt"),
        "[1.2.3.4:5] file \"report.txt\" (11 B) → recv/report.txt"
    );
}

#[test]
fn disconnect_then_reconnect_rebinds_no_new_tap() {
    let net = fresh();
    let client_uuid = fresh();
    let mut h = spawn_with(vec![(client_uuid, net, "10.0.0.5/24")], vec![net]);

    let c1 = h.client_hello("1.2.3.4:6", client_uuid);
    h.client_sends(c1, Frame::Join { net_uuid: net });
    let initial_taps = h.platform.taps_count();
    h.disconnect(c1);

    let c2 = h.client_hello("1.2.3.4:7", client_uuid);
    let _ = h.recv(c2);
    let _ = h.recv(c2);
    h.client_sends(c2, Frame::Join { net_uuid: net });
    match h.recv(c2) {
        Frame::JoinOk { .. } => {}
        other => panic!("expected JoinOk, got {:?}", other),
    }
    assert_eq!(h.platform.taps_count(), initial_taps);
}

#[test]
fn other_frames_of_clients() {
    let mut h = spawn_with(vec![], vec![]);
    let c = h.connect("x");
    assert!(h.client_sends(c, Frame::Text("hi".to_string())));
    assert_eq!(h.shown, vec!["[1.2.3.4:1] > hi"]);
    let (acts, keep) = route_inbound(Frame::Eth(vec![1]), fresh(), false, "x");
    assert!(acts.is_empty() && keep);
    let (acts, keep) = route_inbound(Frame::SetIp { ip: None }, fresh(), true, "x");
    assert!(matches!(acts[..], [ConnAct::Unexpected]) && keep);
    assert!(batch_has_room(31, 0) && !batch_has_room(32, 0));
    assert!(batch_has_room(0, 32767) && !batch_has_room(0, 32768));
}

// ── HTTP requests ────────────────────────────────────────────────────────

#[test]
fn networks_endpoint_returns_array() {
    let net_a = fresh();
    let net_b = fresh();
    let mut cfg = ServerConfig::default();
    cfg.networks.push(NetRecord::new("alpha", net_a));
    cfg.networks.push(NetRecord::new("beta", net_b));
    let mut row = approved_with_lan(fresh(), net_a, "10.0.0.5/24", &["192.168.10.0/24"]);
    row.display_name = "router".to_string();
    cfg.approved_clients.push(row);
    let mut h = spawn(cfg);

    match h.http(ApiRequest::ListNetworks) {
        ApiReply { status: 200, body: ApiBody::Networks(v) } => {
            assert_eq!(v.len(), 2);
            let alpha = v.iter().find(|n| n.name == "alpha").unwrap();
            assert_eq!(alpha.device_count, 1);
            assert_eq!(alpha.online_count, 0);
        }
        other => panic!("expected Networks, got {:?}", other),
    }
}

#[test]
fn devices_endpoint_returns_approved() {
    let mut row = approved_with_lan(fresh(), fresh(), "10.0.0.5/24", &["192.168.10.0/24"]);
    row.display_name = "router".to_string();
    let (mut h, net) = spawn_net(vec![row]);
    match h.http(ApiRequest::ListDevices { nid: net }) {
        ApiReply { status: 200, body: ApiBody::Devices(v) } => {
            assert_eq!(v.len(), 1);
            assert_eq!(v[0].display_name, "router");
            assert_eq!(v[0].tap_ip.as_deref(), Some("10.0.0.5/24"));
            assert!(v[0].admitted);
            assert!(!v[0].online);
            assert_eq!(v[0].lan_subnets[0], "192.168.10.0/24");
        }
        other => panic!("expected Devices, got {:?}", other),
    }
}

#[test]
fn devices_endpoint_404s_unknown_net() {
    let mut h = spawn(ServerConfig::default());
    assert_eq!(h.http(ApiRequest::ListDevices { nid: fresh() }).status, 404);
}

fn patch(nid: Uuid, cid: Uuid, update: DeviceUpdate) -> ApiRequest {
    ApiRequest::PatchDevice { nid, cid, update }
}

#[test]
fn patch_device_updates_fields_and_returns_record() {
    let cid = fresh();
    let (mut h, net) = spawn_net(vec![approved(cid, fresh(), "10.0.0.5/24")]);
    let u = DeviceUpdate {
        name: some("router"),
        lan_subnets: lan(&["192.168.10.0/24"]),
        ..Default::default()
    };
    match h.http(patch(net, cid, u)) {
        ApiReply { status: 200, body: ApiBody::Device(d) } => {
            assert_eq!(d.display_name, "router");
            assert_eq!(d.lan_subnets[0], "192.168.10.0/24");
            assert_eq!(d.tap_ip.as_deref(), Some("10.0.0.5/24"));
            assert!(d.admitted);
        }
        other => panic!("expected Device, got {:?}", other),
    }
}

#[test]
fn patch_device_admit_false_keeps_row_in_pending_state() {
    let cid = fresh();
    let (mut h, net) = spawn_net(vec![approved(cid, fresh(), "10.0.0.5/24")]);
    let u = DeviceUpdate { admitted: Some(false), ..Default::default() };
    match h.http(patch(net, cid, u)) {
        ApiReply { status: 200, body: ApiBody::Device(d) } => assert!(!d.admitted),
        other => panic!("expected Device, got {:?}", other),
    }
    match h.http(ApiRequest::ListDevices { nid: net }) {
        ApiReply { body: ApiBody::Devices(v), .. } => {
            assert_eq!(v.len(), 1);
            assert_eq!(v[0].client_uuid, cid);
            assert!(!v[0].admitted);
        }
        other => panic!("expected Devices, got {:?}", other),
    }
}

#[test]
fn patch_device_admit_toggle_round_trip() {
    let cid = fresh();
    let mut row = approved(cid, fresh(), "10.0.0.5/24");
    row.admitted = false;
    let (mut h, net) = spawn_net(vec![row]);
    let u = DeviceUpdate { admitted: Some(true), ..Default::default() };
    match h.http(patch(net, cid, u)) {
        ApiReply { status: 200, body: ApiBody::Device(d) } => assert!(d.admitted),
        other => panic!("expected Device, got {:?}", other),
    }
}

#[test]
fn patch_device_invalid_ip_is_400() {
    let cid = fresh();
    let (mut h, net) = spawn_net(vec![approved(cid, fresh(), "")]);
    let u = DeviceUpdate { tap_ip: some("not-an-ip"), ..Default::default() };
    assert_eq!(h.http(patch(net, cid, u)).status, 400);
}

#[test]
fn patch_device_conflict_is_409() {
    let a = fresh();
    let b = fresh();
    let (mut h, net) = spawn_net(vec![
        approved(a, fresh(), "10.0.0.2/24"),
        approved(b, fresh(), "10.0.0.3/24"),
    ]);
    let u = DeviceUpdate { tap_ip: some("10.0.0.2/24"), ..Default::default() };
    assert_eq!(h.http(patch(net, b, u)).status, 409);
}

#[test]
fn patch_device_unknown_is_404() {
    let (mut h, net) = spawn_net(vec![]);
    let u = DeviceUpdate { name: some("x"), ..Default::default() };
    assert_eq!(h.http(patch(net, fresh(), u)).status, 404);
}

#[test]
fn push_routes_returns_count_and_table() {
    let cid = fresh();
    let (mut h, net) =
        spawn_net(vec![approved_with_lan(cid, fresh(), "10.0.0.5/24", &["192.168.10.0/24"])]);
    match h.http(ApiRequest::PushRoutes { nid: net }) {
        ApiReply { status: 200, body: ApiBody::Pushed { count, routes } } => {
            assert_eq!(count, 0);
            assert_eq!(routes.len(), 1);
            assert_eq!(routes[0].dst, "192.168.10.0/24");
            assert_eq!(routes[0].via, "10.0.0.5");
        }
        other => panic!("expected Pushed, got {:?}", other),
    }
}

#[test]
fn push_routes_unknown_net_is_404() {
    let (mut h, _) = spawn_net(vec![]);
    assert_eq!(h.http(ApiRequest::PushRoutes { nid: fresh() }).status, 404);
}

#[test]
fn networks_are_created_changed_and_deleted_over_http() {
    let mut h = spawn(ServerConfig::default());
    assert_eq!(h.http(ApiRequest::CreateNetwork { name: "  ".to_string() }).status, 400);
    let id = match h.http(ApiRequest::CreateNetwork { name: " lab ".to_string() }) {
        ApiReply { body: ApiBody::Created { id, name }, .. } => {
            assert_eq!(name, "lab");
            id
        }
        other => panic!("expected Created, got {:?}", other),
    };
    let change = |name: Option<&str>, ip: Option<&str>| ApiRequest::PatchNetwork {
        nid: id,
        name: name.map(|s| s.to_string()),
        bridge_ip: ip.map(|s| s.to_string()),
    };
    match h.http(change(Some("home"), Some("10.0.0.1/24"))) {
        ApiReply { status: 200, body: ApiBody::Network(n) } => {
            assert_eq!(n.name, "home");
            assert_eq!(n.bridge_ip, "10.0.0.1/24");
        }
        other => panic!("expected Network, got {:?}", other),
    }
    assert_eq!(h.http(change(Some(" "), None)).status, 400);
    assert_eq!(h.http(change(None, Some("10.0.0.1/30"))).status, 400);
    assert_eq!(h.http(ApiRequest::DeleteNetwork { nid: id }).status, 204);
    assert_eq!(h.http(ApiRequest::DeleteNetwork { nid: id }).status, 404);
    assert_eq!(h.http(change(None, None)).status, 404);
}

#[test]
fn clients_are_changed_and_assigned_over_http() {
    let client = fresh();
    let (mut h, net) = spawn_net(vec![]);
    let _ = h.client_hello("x", client);
    let rename = |cid: Uuid| ApiRequest::PatchClient { cid, name: some("tv"), lan_subnets: None };
    assert_eq!(h.http(rename(fresh())).status, 404);
    match h.http(rename(client)) {
        ApiReply { status: 200, body: ApiBody::Device(d) } => assert_eq!(d.display_name, "tv"),
        other => panic!("expected Device, got {:?}", other),
    }
    let assign = |cid: Uuid, net_uuid: Option<Uuid>| ApiRequest::AssignClient { cid, net_uuid };
    assert_eq!(h.http(assign(client, Some(net))).status, 200);
    assert_eq!(h.http(assign(client, Some(fresh()))).status, 400);
    assert_eq!(h.http(assign(fresh(), None)).status, 404);
    match h.http(ApiRequest::ListClients) {
        ApiReply { status: 200, body: ApiBody::Devices(v) } => {
            assert_eq!(v.len(), 1);
            assert_eq!(v[0].net_uuid, Some(net));
        }
        other => panic!("expected Devices, got {:?}", other),
    }
}

// ── The web interface ────────────────────────────────────────────────────

#[test]
fn root_serves_index_html() {
    assert_eq!(asset_name("/"), "index.html");
    match handler("/", true, true) {
        StaticReply::Serve { path, content_type, cache } => {
            assert_eq!(path, "index.html");
            assert!(content_type.starts_with("text/html"), "got content-type: {}", content_type);
            assert_eq!(cache, "no-cache");
        }
        other => panic!("expected Serve, got {:?}", other),
    }
}

#[test]
fn deep_link_falls_back_to_index() {
    match handler("/networks/abc-def", false, true) {
        StaticReply::Serve { path, content_type, .. } => {
            assert_eq!(path, "index.html");
            assert!(content_type.starts_with("text/html"));
        }
        other => panic!("expected Serve, got {:?}", other),
    }
}

#[test]
fn assets_are_kept_and_a_missing_build_is_told() {
    match handler("/assets/app-1f.js", true, true) {
        StaticReply::Serve { path, content_type, cache } => {
            assert_eq!(path, "assets/app-1f.js");
            assert_eq!(content_type, "text/javascript");
            assert_eq!(cache, "public, max-age=31536000, immutable");
        }
        other => panic!("expected Serve, got {:?}", other),
    }
    match handler("/data.unknownext", true, true) {
        StaticReply::Serve { content_type, .. } => {
            assert_eq!(content_type, "application/octet-stream");
        }
        other => panic!("expected Serve, got {:?}", other),
    }
    assert!(matches!(handler("/", false, false), StaticReply::Unavailable { .. }));
}

#[test]
fn event_stream_sends_and_ends() {
    assert_eq!(ws_step(WsInput::Tick), WsAct::Ping);
    assert_eq!(ws_step(WsInput::Event(some("{}"))), WsAct::Text("{}".to_string()));
    assert_eq!(ws_step(WsInput::Event(None)), WsAct::Wait);
    assert_eq!(ws_step(WsInput::Lagged(9)), WsAct::Wait);
    assert_eq!(ws_step(WsInput::Ping(vec![1, 2])), WsAct::Pong(vec![1, 2]));
    assert_eq!(ws_step(WsInput::Other), WsAct::Wait);
    assert_eq!(ws_step(WsInput::Closed), WsAct::End);
    assert_eq!(ws_step(WsInput::HubGone), WsAct::End);
    assert_eq!(ws_step(WsInput::SendFailed), WsAct::End);
}

// ── The command line ─────────────────────────────────────────────────────

#[test]
fn parses_basic_commands() {
    assert_eq!(
        parse("mknet hml").unwrap(),
        ReplCmd::Req(ServerAdminReq::MakeNet { name: "hml".to_string(), bridge_ip: None })
    );
    assert_eq!(parse("list").unwrap(), ReplCmd::Req(ServerAdminReq::List));
    assert_eq!(
        parse("send hi there").unwrap(),
        ReplCmd::Req(ServerAdminReq::Send { msg: "hi there".to_string() })
    );
    assert_eq!(parse("quit").unwrap(), ReplCmd::Quit);
    assert_eq!(parse("exit").unwrap(), ReplCmd::Quit);
    assert_eq!(parse("shutdown").unwrap(), ReplCmd::Req(ServerAdminReq::Shutdown));
}

#[test]
fn parses_device_list() {
    assert_eq!(
        parse("device list").unwrap(),
        ReplCmd::Req(ServerAdminReq::DeviceList { net_uuid: None })
    );
    let nid = fresh();
    assert_eq!(
        parse(&format!("device list {}", nid.to_text())).unwrap(),
        ReplCmd::Req(ServerAdminReq::DeviceList { net_uuid: Some(nid) })
    );
}

#[test]
fn parses_device_push() {
    let nid = fresh();
    assert_eq!(
        parse(&format!("device push {}", nid.to_text())).unwrap(),
        ReplCmd::Req(ServerAdminReq::DevicePush { net_uuid: nid })
    );
}

#[test]
fn parses_device_set_full() {
    let cid = fresh();
    let line = format!(
        "device set {} name=router ip=10.0.0.5/24 admit=true lan=192.168.10.0/24,192.168.20.0/24",
        cid.to_text()
    );
    assert_eq!(
        parse(&line).unwrap(),
        ReplCmd::Req(ServerAdminReq::DeviceSet {
            client_uuid: cid,
            name: some("router"),
            admitted: Some(true),
            tap_ip: some("10.0.0.5/24"),
            lan_subnets: lan(&["192.168.10.0/24", "192.168.20.0/24"]),
        })
    );
}

#[test]
fn parses_device_set_partial_clears() {
    let cid = fresh();
    assert_eq!(
        parse(&format!("device set {} ip= lan=", cid.to_text())).unwrap(),
        ReplCmd::Req(ServerAdminReq::DeviceSet {
            client_uuid: cid,
            name: None,
            admitted: None,
            tap_ip: some(""),
            lan_subnets: lan(&[]),
        })
    );
}

#[test]
fn repl_rejects_malformed() {
    assert_eq!(parse("garbage"), Err("unknown command \"garbage\"".to_string()));
    assert!(parse("approve 7").is_err());
    assert!(parse("device").is_err());
    assert!(parse("device push not-a-uuid").is_err());
    assert!(parse("device set not-a-uuid").is_err());
    assert!(parse("mknet").is_err());
}

#[test]
fn parses_network_commands() {
    let nid = fresh();
    let cid = fresh();
    assert_eq!(
        parse("mknet my lab ip=10.0.0.1/24").unwrap(),
        ReplCmd::Req(ServerAdminReq::MakeNet {
            name: "my lab".to_string(),
            bridge_ip: some("10.0.0.1/24"),
        })
    );
    assert_eq!(
        parse(&format!("rename {} new name", nid.to_text())).unwrap(),
        ReplCmd::Req(ServerAdminReq::RenameNet { net_uuid: nid, name: "new name".to_string() })
    );
    assert_eq!(
        parse(&format!("rmnet {}", nid.to_text())).unwrap(),
        ReplCmd::Req(ServerAdminReq::DeleteNet { net_uuid: nid })
    );
    assert_eq!(
        parse(&format!("assign {} none", cid.to_text())).unwrap(),
        ReplCmd::Req(ServerAdminReq::AssignClient { client_uuid: cid, net_uuid: None })
    );
    assert_eq!(
        parse(&format!("assign {} {}", cid.to_text(), nid.to_text())).unwrap(),
        ReplCmd::Req(ServerAdminReq::AssignClient { client_uuid: cid, net_uuid: Some(nid) })
    );
    assert_eq!(parse("sendfile /tmp/x").unwrap(), ReplCmd::SendFile("/tmp/x".to_string()));
    assert_eq!(parse("mknet ip=10.0.0.1/24"), Err("usage: mknet <name> [ip=<cidr>]".to_string()));
    assert_eq!(parse("send"), Err("usage: send <msg>".to_string()));
    assert_eq!(parse(""), Err("empty command".to_string()));
    let line = format!("device set {} admit=maybe", cid.to_text());
    assert_eq!(parse(&line), Err("bad admit value \"maybe\"".to_string()));
    let line = format!("device set {} colour=red", cid.to_text());
    assert_eq!(parse(&line), Err("unknown key \"colour\"".to_string()));
    let line = format!("device set {} name", cid.to_text());
    assert_eq!(parse(&line), Err("bad pair \"name\", expected key=value".to_string()));
}

#[test]
fn responses_are_rendered() {
    assert_eq!(format_resp(&ServerAdminResp::Done), "ok");
    let u = Uuid(1);
    assert!(format_resp(&ServerAdminResp::NetCreated { uuid: u }).contains(&u.to_text()));
    assert!(format_resp(&ServerAdminResp::Count(3)).contains('3'));
    assert!(format_resp(&ServerAdminResp::Error("x".to_string())).contains('x'));
    let mut h = spawn_with(vec![], vec![u]);
    let snap = h.rpc(ServerAdminReq::List);
    let s = format_resp(&snap);
    assert!(s.contains("net-00000000"), "got {}", s);
    assert!(s.contains("(none)"), "got {}", s);
}

#[test]
fn arguments_change_the_configuration() {
    let mut cfg = ServerConfig::default();
    apply_overrides(&mut cfg, some("/tmp/a.sock"), some("0.0.0.0:80"), true);
    assert_eq!(cfg.admin.socket, "/tmp/a.sock");
    assert_eq!(cfg.web.listen, "0.0.0.0:80");
    assert!(!cfg.web.enabled);
    cfg.server.host = "0.0.0.0".to_string();
    cfg.server.port = 9000;
    assert_eq!(listen_addr(&cfg), "0.0.0.0:9000");
    let lines = startup_lines(&cfg, Uuid(0));
    assert_eq!(lines[0], "[*] server id: 00000000-0000-0000-0000-000000000000");
    assert_eq!(lines[1], "[*] listen:    0.0.0.0:9000");
    assert_eq!(lines.len(), 5);
}

#[test]
fn subcommands_become_requests() {
    let cid = fresh();
    assert_eq!(
        admin_request(AdminCmd::Assign { client_uuid: cid, net: "-".to_string() }),
        Ok(ReplCmd::Req(ServerAdminReq::AssignClient { client_uuid: cid, net_uuid: None }))
    );
    assert_eq!(
        admin_request(AdminCmd::Assign { client_uuid: cid, net: "x".to_string() }),
        Err("bad net uuid: \"x\" (use a UUID or `none`)".to_string())
    );
    let change = DeviceAction::Change {
        client_uuid: cid,
        name: None,
        admitted: Some(true),
        ip: some("10.0.0.2/24"),
        lan: None,
    };
    assert_eq!(
        admin_request(AdminCmd::Device { action: change }),
        Ok(ReplCmd::Req(set_req(
            cid,
            DeviceUpdate { admitted: Some(true), tap_ip: some("10.0.0.2/24"), ..Default::default() }
        )))
    );
    assert_eq!(
        send_file(None, vec![1]),
        ServerAdminReq::SendFile { name: "file".to_string(), data: vec![1] }
    );
    assert_eq!(as_lines("ok".to_string()), "ok\n");
    assert_eq!(as_lines("ok\n".to_string()), "ok\n");
    assert_eq!(as_lines(String::new()), "\n");
}

#[test]
fn typed_file_is_read_or_refused() {
    assert_eq!(
        sent_file("/tmp/a.bin", Some("a.bin".to_string()), Ok(vec![1, 2])),
        Ok(ServerAdminReq::SendFile { name: "a.bin".to_string(), data: vec![1, 2] })
    );
    assert_eq!(
        sent_file("..", None, Ok(vec![])),
        Ok(ServerAdminReq::SendFile { name: "file".to_string(), data: vec![] })
    );
    assert_eq!(
        sent_file("/no/such", None, Err("not found".to_string())),
        Err("read \"/no/such\": not found".to_string())
    );
}

#[test]
fn file_names_are_parted_at_the_last_dot() {
    let parted = |n: &str| part_name(n);
    let both = |a: &str, b: &str| (a.to_string(), b.to_string());
    assert_eq!(parted("archive.tar.gz"), both("archive.tar", "gz"));
    assert_eq!(parted(".bashrc"), both(".bashrc", ""));
    assert_eq!(parted("notes"), both("notes", ""));
    assert_eq!(parted("notes."), both("notes", ""));
    assert_eq!(parted(""), both("", ""));
    assert_eq!(next_name("archive.tar.gz", 1), "archive.tar_1.gz");
    assert_eq!(next_name(".bashrc", 2), ".bashrc_2");
}

#[test]
fn new_networks_get_the_identity_that_was_drawn() {
    let mut hub = Hub::new(ServerConfig::default());
    let id = Uuid(7);
    let req = ServerAdminReq::MakeNet { name: "lab".to_string(), bridge_ip: None };
    match dispatch_with(&mut hub, req, id).1 {
        Next::CreateBridge(rec) => assert_eq!(rec.uuid, id),
        other => panic!("expected a bridge to create, got {:?}", other),
    }
    match api_with(&mut hub, ApiRequest::CreateNetwork { name: " lab ".to_string() }, id).1 {
        ApiNext::CreateBridge(rec) => {
            assert_eq!(rec.uuid, id);
            assert_eq!(rec.name, "lab");
        }
        other => panic!("expected a bridge to create, got {:?}", other),
    }
}

#[test]
fn both_surfaces_have_the_same_effect() {
    let (net, client) = (fresh(), fresh());
    let hub = || {
        let mut rec = NetRecord::new("lab", net);
        rec.bridge_ip = "10.0.0.1/24".to_string();
        let mut cfg = ServerConfig::default();
        cfg.networks.push(rec);
        cfg.approved_clients.push(ApprovedClient {
            client_uuid: client,
            net_uuid: net,
            tap_ip: "10.0.0.2/24".to_string(),
            display_name: "router".to_string(),
            lan_subnets: vec!["192.168.1.0/24".to_string()],
            admitted: true,
        });
        let mut h = Hub::new(cfg);
        h.bridge_ready(net);
        h
    };
    let update = DeviceUpdate { tap_ip: Some("10.0.0.9/24".to_string()), ..DeviceUpdate::default() };
    let pairs = vec![
        (
            ApiRequest::DeleteNetwork { nid: net },
            ServerAdminReq::DeleteNet { net_uuid: net },
        ),
        (
            ApiRequest::AssignClient { cid: client, net_uuid: None },
            ServerAdminReq::AssignClient { client_uuid: client, net_uuid: None },
        ),
        (ApiRequest::PushRoutes { nid: net }, ServerAdminReq::DevicePush { net_uuid: net }),
        (
            ApiRequest::PatchNetwork { nid: net, name: Some("x".to_string()), bridge_ip: None },
            ServerAdminReq::RenameNet { net_uuid: net, name: "x".to_string() },
        ),
        (
            ApiRequest::PatchDevice { nid: net, cid: client, update },
            ServerAdminReq::DeviceSet {
                client_uuid: client,
                name: None,
                admitted: None,
                tap_ip: Some("10.0.0.9/24".to_string()),
                lan_subnets: None,
            },
        ),
    ];
    for (web, admin) in pairs {
        let (mut a, mut b) = (hub(), hub());
        let over_web = api_with(&mut a, web, Uuid(1)).0;
        let over_socket = dispatch_with(&mut b, admin, Uuid(1)).0;
        assert_eq!(a.cfg, b.cfg);
        assert_eq!(format!("{:?}", over_web), format!("{:?}", over_socket));
    }
}

#[test]
fn only_a_half_done_change_outlives_its_failure() {
    let net = fresh();
    let mut cfg = ServerConfig::default();
    cfg.networks.push(NetRecord::new("lab", net));
    let mut hub = Hub::new(cfg.clone());
    let patch = |name: &str, ip: &str| ApiRequest::PatchNetwork {
        nid: net,
        name: Some(name.to_string()),
        bridge_ip: Some(ip.to_string()),
    };
    let empty = api_with(&mut hub, patch("  ", "10.0.0.1/24"), Uuid(1));
    assert!(matches!(empty.1, ApiNext::Reply(ApiReply { status: 400, .. })));
    assert_eq!(hub.cfg, cfg);
    let half = api_with(&mut hub, patch("other", "10.0.0.1/30"), Uuid(1));
    assert!(matches!(half.1, ApiNext::Reply(ApiReply { status: 400, .. })));
    assert_eq!(hub.cfg.networks[0].name, "other");
    assert_eq!(hub.cfg.networks[0].bridge_ip, "");
}

#[test]
fn a_changed_configuration_is_saved() {
    let net = fresh();
    let mut cfg = ServerConfig::default();
    cfg.networks.push(NetRecord::new("lab", net));
    let mut hub = Hub::new(cfg);
    let rename = |n: Uuid| ServerAdminReq::RenameNet { net_uuid: n, name: "x".to_string() };
    let acts = dispatch_with(&mut hub, rename(net), Uuid(1)).0;
    assert!(matches!(acts[0], HubAction::Persist));
    assert!(dispatch_with(&mut hub, rename(fresh()), Uuid(1)).0.is_empty());
    let conn = hub.handle_new_conn("a".to_string());
    let hello = hub.handle_hello(conn, fresh(), 2);
    assert!(matches!(hello[0], HubAction::Persist));
}

#[test]
fn an_empty_lan_argument_clears_the_subnets() {
    let client = fresh();
    let set = |lan: Option<Vec<&str>>| {
        let cmd = AdminCmd::Device {
            action: DeviceAction::Change {
                client_uuid: client,
                name: None,
                admitted: None,
                ip: None,
                lan: lan.map(|v| v.iter().map(|s| s.to_string()).collect()),
            },
        };
        match admin_request(cmd) {
            Ok(ReplCmd::Req(ServerAdminReq::DeviceSet { lan_subnets, .. })) => lan_subnets,
            other => panic!("expected a change, got {:?}", other),
        }
    };
    assert_eq!(set(Some(vec![""])), Some(vec![]));
    assert_eq!(set(None), None);
    let two = vec!["192.168.1.0/24".to_string(), "192.168.2.0/24".to_string()];
    assert_eq!(set(Some(vec!["192.168.1.0/24", "192.168.2.0/24"])), Some(two));
}

#[test]
fn a_connection_that_is_gone_gets_no_session() {
    let (net, client) = (fresh(), fresh());
    let mut cfg = ServerConfig::default();
    cfg.networks.push(NetRecord::new("lab", net));
    cfg.approved_clients.push(approved_with_lan(client, net, "10.0.0.2/24", &[]));
    let mut hub = Hub::new(cfg);
    hub.bridge_ready(net);
    let conn = hub.handle_new_conn("a".to_string());
    hub.handle_hello(conn, client, 2);
    let request = hub.handle_join(conn, net).1.unwrap();
    hub.handle_disconnect(conn);
    let acts = hub.do_approve(&request, TapOutcome::Ready);
    assert!(hub.sessions.is_empty());
    assert_eq!(acts.len(), 1);
    assert!(matches!(acts[0], HubAction::DestroyTap { sid } if sid == request.sid));
    assert_eq!(hub.do_approve(&request, TapOutcome::AttachFailed("e".to_string())).len(), 1);
    assert!(hub.do_approve(&request, TapOutcome::CreateFailed("e".to_string())).is_empty());
}
