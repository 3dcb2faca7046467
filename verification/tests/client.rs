//! The client's controller on devices in memory, and its command line.
use std::collections::VecDeque;

use bifrost::admin::{ClientAdminReq, ClientAdminResp};
use bifrost::client::app::{App, AppAction, AppInput, AppNext, ConnEvent, JoinPlan};
use bifrost::client::conn::{dial, ConnTask, LinkAction, LinkInput, LinkPhase};
use bifrost::client::daemon::{
    admin_request, apply_overrides, ensure_uuid, send_file, startup_lines, AdminCmd, AdminStep,
};
use bifrost::client::dispatch::{answered, dispatch, ends_daemon, format_resp, Delivery};
use bifrost::client::repl::{
    format_status, parse, read_line, sent_file, ClientStatusSnapshot, LineAct, LineCmd, UserCmd,
};
use bifrost::config::ClientConfig;
use bifrost::frame::{Frame, RouteEntry, PROTOCOL_VERSION};
use bifrost::ids::{ConnId, SessionId};
use bifrost::net::mock::MockPlatform;
use bifrost::session::{DeathReason, SessionAction, SessionEvt, SessionInput, SessionTask};
use bifrost::uuids::Uuid;

fn fresh() -> Uuid {
    Uuid(uuid::Uuid::new_v4().as_u128())
}

/// A controller, and everything it acts on, in memory.
struct Rig {
    app: App,
    platform: MockPlatform,
    task: Option<SessionTask>,
    out: VecDeque<Frame>,
    saved: ClientConfig,
    shown: Vec<String>,
    warned: Vec<String>,
    reports: Vec<ClientStatusSnapshot>,
    files: Vec<(String, String, Vec<u8>)>,
    /// What creating a TAP gives.
    tap_error: Option<String>,
    stopped: bool,
    failed: Option<String>,
}

fn spawn_app(joined_network: Option<Uuid>) -> Rig {
    let mut cfg = ClientConfig::default();
    cfg.client.uuid = fresh().to_text();
    cfg.client.save_dir = "recv".to_string();
    if let Some(net) = joined_network {
        cfg.client.joined_network = net.to_text();
    }
    Rig {
        saved: cfg.clone(),
        app: App::new(cfg),
        platform: MockPlatform::new(),
        task: None,
        out: VecDeque::new(),
        shown: Vec::new(),
        warned: Vec::new(),
        reports: Vec::new(),
        files: Vec::new(),
        tap_error: None,
        stopped: false,
        failed: None,
    }
}

impl Rig {
    fn input(&mut self, e: AppInput) {
        let (acts, next) = self.app.step(e);
        self.run(acts);
        match next {
            AppNext::Go => {}
            AppNext::CreateTap(plan) => self.create_tap(plan),
            AppNext::Stop => self.stopped = true,
            AppNext::Fail(m) => self.failed = Some(m),
        }
    }

    fn create_tap(&mut self, plan: JoinPlan) {
        let made = match &self.tap_error {
            Some(e) => Err(e.clone()),
            None => {
                self.platform.create_tap(&plan.tap_name, plan.addr);
                Ok(())
            }
        };
        let (acts, next) = self.app.finish_join(plan, made);
        self.run(acts);
        assert!(matches!(next, AppNext::Go));
    }

    fn run(&mut self, acts: Vec<AppAction>) {
        for a in acts {
            match a {
                AppAction::Send(f) | AppAction::Answer(f) => self.out.push_back(f),
                AppAction::ToSession(c) => self.session(SessionInput::Cmd(c)),
                AppAction::StartSession { .. } => {
                    self.task = Some(SessionTask::new(SessionId(0), ConnId(0), None));
                }
                AppAction::Persist => self.saved = self.app.cfg.clone(),
                AppAction::SaveFile { dir, name, data } => self.files.push((dir, name, data)),
                AppAction::Show(s) => self.shown.push(s),
                AppAction::Warn(s) => self.warned.push(s),
                AppAction::Report(s) => self.reports.push(s),
                AppAction::Unexpected | AppAction::AwaitSession => {}
            }
        }
    }

    fn session(&mut self, input: SessionInput) {
        let acts = match &mut self.task {
            Some(t) => t.step(0, input),
            None => return,
        };
        let i = self.platform.taps_count() - 1;
        for a in acts {
            match a {
                SessionAction::WriteTap(f) => {
                    let n = self.platform.taps[i].write(&f).unwrap();
                    self.session(SessionInput::TapWritten(n as u64));
                }
                SessionAction::SetTapIp(ip) => self.platform.taps[i].set_ip(ip),
                SessionAction::ApplyRoutes(r) => self.platform.taps[i].apply_routes(&r),
                SessionAction::SendEth { frame, .. } => self.out.push_back(Frame::Eth(frame)),
                SessionAction::DestroyTap => self.platform.taps[i].destroy(),
                SessionAction::Tell(e) => {
                    self.task = None;
                    self.input(AppInput::Session(e));
                }
            }
        }
    }

    fn frame(&mut self, f: Frame) {
        self.input(AppInput::Conn(ConnEvent::FrameIn(f)));
    }

    fn user(&mut self, c: UserCmd) {
        self.input(AppInput::User(c));
    }

    fn recv(&mut self) -> Frame {
        match self.out.pop_front() {
            Some(f) => f,
            None => panic!("no frame was sent"),
        }
    }

    fn connect(&mut self) {
        self.input(AppInput::Conn(ConnEvent::Connected));
    }

    fn ack(&mut self) {
        let f = Frame::HelloAck { version: PROTOCOL_VERSION, server_id: fresh(), caps: 0 };
        self.frame(f);
    }

    fn handshake(&mut self) {
        self.connect();
        match self.recv() {
            Frame::Hello { version, caps, .. } => {
                assert_eq!(version, PROTOCOL_VERSION);
                assert_eq!(caps, 0);
            }
            other => panic!("expected Hello, got {:?}", other),
        }
        self.ack();
    }

    fn join_ok(&mut self, tap_suffix: &str, ip: Option<&str>) {
        self.frame(Frame::JoinOk {
            tap_suffix: tap_suffix.to_string(),
            ip: ip.map(|s| s.to_string()),
        });
    }

    fn join_network(&mut self, net: Uuid, tap_suffix: &str, ip: Option<&str>) {
        self.handshake();
        self.user(UserCmd::Join(net));
        assert_eq!(self.recv(), Frame::Join { net_uuid: net });
        self.join_ok(tap_suffix, ip);
    }

    /// Lets the session read a frame from the TAP.
    fn inject(&mut self, f: &[u8]) {
        self.session(SessionInput::TapRead(f.to_vec()));
    }

    fn quit(&mut self) {
        self.user(UserCmd::Quit);
        assert!(self.stopped);
        assert!(self.failed.is_none());
    }
}

// ── The controller ───────────────────────────────────────────────────────

#[test]
fn handshake_then_join_creates_local_tap() {
    let mut h = spawn_app(None);
    let net = fresh();
    h.join_network(net, "abc12345", Some("10.0.0.5/24"));

    assert_eq!(h.platform.taps_count(), 1);
    let tap = h.platform.last_tap().unwrap();
    assert_eq!(tap.name(), "tapabc12345");
    assert_eq!(tap.snapshot().ip.unwrap().to_text(), "10.0.0.5/24");
    assert_eq!(h.saved.client.joined_network, net.to_text());
    assert_eq!(h.saved.tap.ip, "10.0.0.5/24");
    h.quit();
}

#[test]
fn server_eth_frames_are_written_to_tap() {
    let mut h = spawn_app(None);
    h.join_network(fresh(), "00112233", None);
    let payload = b"frame-from-server".to_vec();
    h.frame(Frame::Eth(payload.clone()));
    assert_eq!(h.platform.taps[0].pop_written(), Some(payload));
    h.quit();
}

#[test]
fn tap_frames_flow_back_out_to_server() {
    let mut h = spawn_app(None);
    h.join_network(fresh(), "deadbeef", None);
    h.inject(b"frame-to-server");
    match h.recv() {
        Frame::Eth(b) => assert_eq!(b, b"frame-to-server"),
        other => panic!("expected Eth, got {:?}", other),
    }
    h.quit();
}

#[test]
fn auto_rejoin_after_disconnect() {
    let mut h = spawn_app(None);
    let net = fresh();
    h.join_network(net, "11223344", None);
    let initial_taps = h.platform.taps_count();

    h.input(AppInput::Conn(ConnEvent::Disconnected));
    h.handshake();
    match h.recv() {
        Frame::Join { net_uuid } => assert_eq!(net_uuid, net),
        other => panic!("expected Join, got {:?}", other),
    }
    h.join_ok("11223344", None);
    assert_eq!(h.platform.taps_count(), initial_taps);

    h.inject(b"after-rejoin");
    match h.recv() {
        Frame::Eth(b) => assert_eq!(b, b"after-rejoin"),
        other => panic!("expected Eth, got {:?}", other),
    }
    h.quit();
}

#[test]
fn join_deny_clears_intent_no_tap() {
    let mut h = spawn_app(None);
    h.handshake();
    h.user(UserCmd::Join(fresh()));
    let _ = h.recv();
    h.frame(Frame::JoinDeny { reason: "denied_by_admin".to_string() });
    assert_eq!(h.platform.taps_count(), 0);
    assert_eq!(h.saved.client.joined_network, "");
    assert_eq!(h.warned, vec!["[!] join denied: denied_by_admin"]);
    h.quit();
}

#[test]
fn late_refusal_keeps_the_assignment() {
    let (stale, net) = (fresh(), fresh());
    let mut h = spawn_app(Some(stale));
    h.handshake();
    assert!(matches!(h.recv(), Frame::Join { net_uuid } if net_uuid == stale));
    h.frame(Frame::AssignNet { net_uuid: Some(net) });
    assert!(matches!(h.recv(), Frame::Join { net_uuid } if net_uuid == net));
    h.frame(Frame::JoinDeny { reason: "unknown_network".to_string() });
    assert_eq!(h.app.joining_net, Some(net));
    assert_eq!(h.saved.client.joined_network, net.to_text());
    assert_eq!(h.warned, vec!["[!] join denied: unknown_network"]);
    h.frame(Frame::JoinOk { tap_suffix: "11223344".to_string(), ip: None });
    assert_eq!(h.platform.taps_count(), 1);
    assert_eq!(h.app.joined_net, Some(net));
    // A refusal that is not late is obeyed.
    h.frame(Frame::JoinDeny { reason: "no_bridge".to_string() });
    assert_eq!(h.app.joining_net, None);
    assert_eq!(h.saved.client.joined_network, "");
    assert!(h.platform.taps[0].snapshot().destroyed);
    h.quit();
}

#[test]
fn a_new_connection_has_no_late_requests() {
    let (stale, net) = (fresh(), fresh());
    let mut h = spawn_app(Some(stale));
    h.handshake();
    h.frame(Frame::AssignNet { net_uuid: Some(net) });
    assert_eq!((h.app.unanswered, h.app.late), (2, 1));
    h.out.clear();
    h.input(AppInput::Conn(ConnEvent::Disconnected));
    h.handshake();
    assert_eq!((h.app.unanswered, h.app.late), (1, 0));
    h.frame(Frame::JoinDeny { reason: "unassigned".to_string() });
    assert_eq!(h.app.joining_net, None);
}

#[test]
fn leave_destroys_tap() {
    let mut h = spawn_app(None);
    h.join_network(fresh(), "55667788", None);
    h.user(UserCmd::Leave);
    assert!(h.platform.taps[0].snapshot().destroyed);
    assert_eq!(h.saved.client.joined_network, "");
    h.quit();
}

#[test]
fn join_before_helloack_defers_until_handshake() {
    let mut h = spawn_app(None);
    let net = fresh();
    h.user(UserCmd::Join(net));
    assert!(h.out.is_empty());
    h.handshake();
    match h.recv() {
        Frame::Join { net_uuid } => assert_eq!(net_uuid, net),
        other => panic!("expected Join, got {:?}", other),
    }
    h.quit();
}

#[test]
fn persisted_joined_network_triggers_auto_join_on_first_handshake() {
    let net = fresh();
    let mut h = spawn_app(Some(net));
    h.handshake();
    match h.recv() {
        Frame::Join { net_uuid } => assert_eq!(net_uuid, net),
        other => panic!("expected Join, got {:?}", other),
    }
    h.quit();
}

#[test]
fn set_ip_and_set_routes_propagate_to_tap_and_disk() {
    let mut h = spawn_app(None);
    h.join_network(fresh(), "abcdef00", Some("10.0.0.5/24"));
    h.frame(Frame::SetIp { ip: Some("10.0.0.42/24".to_string()) });
    h.frame(Frame::SetRoutes(vec![RouteEntry {
        dst: "192.168.10.0/24".to_string(),
        via: "10.0.0.1".to_string(),
    }]));

    let snap = h.platform.taps[0].snapshot();
    assert_eq!(snap.ip.unwrap().to_text(), "10.0.0.42/24");
    assert_eq!(snap.routes.len(), 1);
    assert_eq!(snap.routes[0].dst.to_text(), "192.168.10.0/24");
    assert_eq!(h.saved.tap.ip, "10.0.0.42/24");
    assert_eq!(h.saved.routes.len(), 1);
    h.quit();
}

#[test]
fn ping_is_answered_with_pong() {
    let mut h = spawn_app(None);
    h.handshake();
    h.frame(Frame::Ping(0xCAFEBABE));
    match h.recv() {
        Frame::Pong(n) => assert_eq!(n, 0xCAFEBABE),
        other => panic!("expected Pong, got {:?}", other),
    }
    h.quit();
}

#[test]
fn send_text_emits_frame() {
    let mut h = spawn_app(None);
    h.handshake();
    h.user(UserCmd::SendText("hello world".to_string()));
    match h.recv() {
        Frame::Text(s) => assert_eq!(s, "hello world"),
        other => panic!("expected Text, got {:?}", other),
    }
    h.quit();
}

#[test]
fn quit_with_no_session_returns_cleanly() {
    let mut h = spawn_app(None);
    h.quit();
}

#[test]
fn other_versions_are_refused() {
    let mut h = spawn_app(None);
    h.connect();
    h.frame(Frame::HelloAck { version: 1, server_id: fresh(), caps: 0 });
    assert_eq!(
        h.failed.as_deref(),
        Some("server speaks protocol v1, this client speaks v2")
    );
}

#[test]
fn a_malformed_identity_is_refused() {
    let mut cfg = ClientConfig::default();
    cfg.client.uuid = "nonsense".to_string();
    let mut app = App::new(cfg);
    let (acts, next) = app.step(AppInput::Conn(ConnEvent::Connected));
    assert!(acts.is_empty());
    assert!(matches!(next, AppNext::Fail(_)));
}

#[test]
fn a_tap_that_cannot_be_created_gives_the_network_up() {
    let mut h = spawn_app(None);
    h.tap_error = Some("no such device".to_string());
    h.join_network(fresh(), "00000000", None);
    assert_eq!(h.warned, vec!["[!] create_tap failed: no such device"]);
    assert_eq!(h.app.joining_net, None);
    assert!(!h.app.session);
    assert_eq!(h.saved.client.joined_network, "");
}

#[test]
fn assignment_moves_the_client() {
    let mut h = spawn_app(None);
    let (a, b) = (fresh(), fresh());
    h.join_network(a, "00000001", Some("10.0.0.5/24"));

    h.frame(Frame::AssignNet { net_uuid: Some(a) });
    assert!(h.app.session, "it is there already");
    assert!(!h.platform.taps[0].snapshot().destroyed);
    assert_eq!(h.recv(), Frame::Join { net_uuid: a });

    h.frame(Frame::AssignNet { net_uuid: Some(b) });
    assert!(h.platform.taps[0].snapshot().destroyed);
    assert_eq!(h.recv(), Frame::Join { net_uuid: b });
    assert_eq!(h.saved.client.joined_network, b.to_text());
    h.join_ok("00000002", None);
    assert_eq!(h.platform.taps_count(), 2);

    h.frame(Frame::AssignNet { net_uuid: None });
    assert!(h.platform.taps[1].snapshot().destroyed);
    assert!(h.out.is_empty());
    assert_eq!(h.saved.client.joined_network, "");
}

#[test]
fn joining_twice_needs_leaving_first() {
    let mut h = spawn_app(None);
    h.join_network(fresh(), "00000001", None);
    h.user(UserCmd::Join(fresh()));
    assert_eq!(h.warned, vec!["[!] already joined; type 'leave' first"]);
    assert!(h.out.is_empty());
}

#[test]
fn a_session_that_died_is_forgotten_and_wanted_again() {
    let mut h = spawn_app(None);
    let net = fresh();
    h.join_network(net, "00000001", None);
    h.input(AppInput::Session(SessionEvt::Died {
        sid: SessionId(0),
        reason: DeathReason::TapError("x".to_string()),
    }));
    assert!(!h.app.session);
    assert_eq!(h.app.joined_net, None);
    assert_eq!(h.app.joining_net, Some(net));
}

#[test]
fn files_and_texts_of_the_server_are_handed_on() {
    let mut h = spawn_app(None);
    h.frame(Frame::Text("hi".to_string()));
    assert_eq!(h.shown, vec!["[server] > hi"]);
    h.frame(Frame::File { name: "a.txt".to_string(), data: vec![1] });
    assert_eq!(h.files, vec![("recv".to_string(), "a.txt".to_string(), vec![1])]);
    h.join_ok("00000000", None);
    assert_eq!(h.platform.taps_count(), 0, "nothing was asked for");
}

// ── Admin requests ───────────────────────────────────────────────────────

/// One admin request, and its response.
fn rpc(h: &mut Rig, req: ClientAdminReq) -> ClientAdminResp {
    let asks = matches!(req, ClientAdminReq::Status);
    h.user(dispatch(req));
    answered(match h.reports.pop() {
        Some(s) => Delivery::Answered(s),
        None if asks => Delivery::Unanswered,
        None => Delivery::Taken,
    })
}

#[test]
fn join_via_admin_socket_emits_join_frame() {
    let mut h = spawn_app(None);
    let net = fresh();
    h.handshake();
    let resp = rpc(&mut h, ClientAdminReq::Join { net_uuid: net });
    assert!(matches!(resp, ClientAdminResp::Done));
    match h.recv() {
        Frame::Join { net_uuid } => assert_eq!(net_uuid, net),
        other => panic!("expected Join, got {:?}", other),
    }
    h.quit();
}

#[test]
fn status_returns_current_state() {
    let mut h = spawn_app(None);
    h.handshake();
    match rpc(&mut h, ClientAdminReq::Status) {
        ClientAdminResp::Status { connected, joined_network, tap_name, .. } => {
            assert!(connected);
            assert!(joined_network.is_none());
            assert!(tap_name.is_none());
        }
        other => panic!("expected Status, got {:?}", other),
    }
    h.quit();
}

#[test]
fn send_via_admin_emits_text_frame() {
    let mut h = spawn_app(None);
    h.handshake();
    let resp = rpc(&mut h, ClientAdminReq::Send { msg: "ping from admin".to_string() });
    assert!(matches!(resp, ClientAdminResp::Done));
    match h.recv() {
        Frame::Text(s) => assert_eq!(s, "ping from admin"),
        other => panic!("expected Text, got {:?}", other),
    }
    h.quit();
}

#[test]
fn sendfile_via_admin_emits_file_frame() {
    let mut h = spawn_app(None);
    h.handshake();
    let req = ClientAdminReq::SendFile { name: "report.bin".to_string(), data: vec![1, 2, 3, 4] };
    assert!(matches!(rpc(&mut h, req), ClientAdminResp::Done));
    match h.recv() {
        Frame::File { name, data } => {
            assert_eq!(name, "report.bin");
            assert_eq!(data, vec![1, 2, 3, 4]);
        }
        other => panic!("expected File, got {:?}", other),
    }
    h.quit();
}

#[test]
fn shutdown_via_admin_signals_main() {
    let mut h = spawn_app(None);
    assert!(ends_daemon(&ClientAdminReq::Shutdown));
    assert!(!ends_daemon(&ClientAdminReq::Leave));
    let resp = rpc(&mut h, ClientAdminReq::Shutdown);
    assert!(matches!(resp, ClientAdminResp::Done));
    assert!(h.stopped);
}

#[test]
fn responses_and_the_status_read_the_same() {
    assert_eq!(format_resp(&ClientAdminResp::Done), "ok");
    assert_eq!(format_resp(&answered(Delivery::Gone)), "error: app gone");
    assert_eq!(
        format_resp(&answered(Delivery::Unanswered)),
        "error: status query timed out"
    );
    let s = ClientStatusSnapshot {
        client_uuid: Uuid(1),
        connected: true,
        joined_network: None,
        tap_name: Some("tap0".to_string()),
        tap_ip: None,
    };
    let text = "client_uuid:    00000000-0000-0000-0000-000000000001\n\
                connected:      true\n\
                joined_network: (none)\n\
                tap_name:       tap0\n\
                tap_ip:         -";
    assert_eq!(format_status(&s), text);
    assert_eq!(format_resp(&answered(Delivery::Answered(s))), text);
}

// ── The command line ─────────────────────────────────────────────────────

fn cmd(c: UserCmd) -> Option<LineCmd> {
    Some(LineCmd::Cmd(c))
}

#[test]
fn parses_join_leave_send_quit() {
    let net = fresh();
    assert_eq!(parse(&format!("join {}", net.to_text())).unwrap(), cmd(UserCmd::Join(net)));
    assert_eq!(parse("leave").unwrap(), cmd(UserCmd::Leave));
    assert_eq!(
        parse("send hello world").unwrap(),
        cmd(UserCmd::SendText("hello world".to_string()))
    );
    assert_eq!(parse("quit").unwrap(), cmd(UserCmd::Quit));
    assert_eq!(parse("exit").unwrap(), cmd(UserCmd::Quit));
}

#[test]
fn parse_sendfile_names_the_file_to_read() {
    assert_eq!(
        parse("sendfile /tmp/payload.bin").unwrap(),
        Some(LineCmd::SendFile("/tmp/payload.bin".to_string()))
    );
    assert_eq!(
        sent_file("/tmp/payload.bin", Some("payload.bin".to_string()), Ok(b"hello-disk".to_vec())),
        Ok(UserCmd::SendFile { name: "payload.bin".to_string(), data: b"hello-disk".to_vec() })
    );
    assert_eq!(
        sent_file("..", None, Ok(vec![])),
        Ok(UserCmd::SendFile { name: "file".to_string(), data: vec![] })
    );
}

#[test]
fn rejects_malformed() {
    assert!(parse("join not-a-uuid").is_err());
    assert!(parse("join").is_err());
    assert!(parse("send").is_err());
    assert!(parse("sendfile").is_err());
    let path = match parse("sendfile /no/such/file/here_xyz") {
        Ok(Some(LineCmd::SendFile(p))) => p,
        other => panic!("expected a path, got {:?}", other),
    };
    let read = sent_file(&path, None, Err("not found".to_string()));
    assert_eq!(read, Err("read \"/no/such/file/here_xyz\": not found".to_string()));
}

#[test]
fn unknown_verb_yields_none() {
    assert!(parse("garbage").unwrap().is_none());
    assert!(parse("").unwrap().is_none());
}

#[test]
fn typed_lines_are_trimmed_and_answered() {
    assert_eq!(read_line("   "), LineAct::Skip);
    assert_eq!(read_line(" status "), LineAct::Run(LineCmd::Cmd(UserCmd::Status)));
    assert_eq!(read_line("leave\n"), LineAct::Run(LineCmd::Cmd(UserCmd::Leave)));
    assert_eq!(
        read_line("dance"),
        LineAct::Show(
            "[!] unknown command. Try: join | leave | send | sendfile | status | quit".to_string()
        )
    );
    assert_eq!(
        read_line("join x"),
        LineAct::Show("[!] invalid uuid: \"x\"".to_string())
    );
}

// ── The connection ───────────────────────────────────────────────────────

#[test]
fn connections_are_tried_again() {
    let cfg = ClientConfig::default();
    let (mut t, acts) = ConnTask::new(&cfg);
    assert!(matches!(acts[..], [LinkAction::Connect]));
    assert!(matches!(t.step(LinkInput::ConnectFailed)[..], [LinkAction::Sleep(5)]));
    assert!(matches!(t.step(LinkInput::Woke)[..], [LinkAction::Connect]));
    assert!(matches!(
        t.step(LinkInput::Connected)[..],
        [LinkAction::Tell(ConnEvent::Connected)]
    ));
    assert!(matches!(
        t.step(LinkInput::Read(Frame::Ping(1)))[..],
        [LinkAction::Tell(ConnEvent::FrameIn(Frame::Ping(1)))]
    ));
    assert!(matches!(
        t.step(LinkInput::Outgoing(Frame::Pong(1)))[..],
        [LinkAction::Write(Frame::Pong(1))]
    ));
    assert!(matches!(
        t.step(LinkInput::WriteFailed)[..],
        [LinkAction::Tell(ConnEvent::Disconnected), LinkAction::Sleep(5)]
    ));
    assert_eq!(t.phase, LinkPhase::Waiting);
    t.step(LinkInput::ControllerGone);
    assert_eq!(t.phase, LinkPhase::Over);
    assert!(t.step(LinkInput::Woke).is_empty());
}

#[test]
fn proxies_are_used_where_enabled() {
    let mut cfg = ClientConfig::default();
    assert_eq!(dial(&cfg).host, "127.0.0.1");
    assert_eq!(dial(&cfg).port, 8888);
    assert_eq!(dial(&cfg).proxy, None);
    cfg.proxy.enabled = true;
    assert_eq!(dial(&cfg).proxy, Some(("127.0.0.1".to_string(), 1080)));
    apply_overrides(&mut cfg, Some("/tmp/c.sock".to_string()), true);
    assert_eq!(dial(&cfg).proxy, None);
    assert_eq!(cfg.admin.socket, "/tmp/c.sock");
}

#[test]
fn identities_are_made_once() {
    let mut cfg = ClientConfig::default();
    assert!(ensure_uuid(&mut cfg, Uuid(7)));
    assert_eq!(cfg.client.uuid, Uuid(7).to_text());
    assert!(!ensure_uuid(&mut cfg, Uuid(8)));
    assert_eq!(cfg.client.uuid, Uuid(7).to_text());
    assert_eq!(
        startup_lines(&cfg),
        vec![
            "[*] client uuid: 00000000-0000-0000-0000-000000000007",
            "[*] target: 127.0.0.1:8888 (direct)",
            "[*] admin: /tmp/bifrost-client.sock",
        ]
    );
    cfg.proxy.enabled = true;
    assert_eq!(
        startup_lines(&cfg)[1],
        "[*] target: 127.0.0.1:8888 via SOCKS5 127.0.0.1:1080"
    );
}

#[test]
fn client_subcommands_become_requests() {
    let net = fresh();
    assert_eq!(
        admin_request(AdminCmd::Join { net_uuid: net }),
        AdminStep::Req(ClientAdminReq::Join { net_uuid: net })
    );
    assert_eq!(
        admin_request(AdminCmd::Sendfile { path: "/tmp/x".to_string() }),
        AdminStep::SendFile("/tmp/x".to_string())
    );
    assert_eq!(
        send_file(Some("x".to_string()), vec![1]),
        ClientAdminReq::SendFile { name: "x".to_string(), data: vec![1] }
    );
}
