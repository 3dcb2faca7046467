//! Sessions on a TAP in memory.
use bifrost::frame::RouteEntry;
use bifrost::ids::{ConnId, SessionId};
use bifrost::net::mock::MockTap;
use bifrost::session::{
    parse_ip_cidr, DeathReason, SessionAction, SessionCmd, SessionEvt, SessionInput, SessionTask,
    DEFAULT_DISCONNECT_TIMEOUT,
};

const FIRST: ConnId = ConnId(1);

/// A session, its TAP, what it sent where, and what it said.
struct Rig {
    task: SessionTask,
    tap: MockTap,
    sent: Vec<(ConnId, Vec<u8>)>,
    /// Connections that take no frames.
    gone: Vec<ConnId>,
    told: Vec<DeathReason>,
    clock: u64,
}

fn spawn(timeout_ms: Option<u64>) -> Rig {
    Rig {
        task: SessionTask::new(SessionId(1), FIRST, timeout_ms),
        tap: MockTap::new("tap-test"),
        sent: Vec::new(),
        gone: Vec::new(),
        told: Vec::new(),
        clock: 0,
    }
}

impl Rig {
    fn input(&mut self, e: SessionInput) {
        for a in self.task.step(self.clock, e) {
            match a {
                SessionAction::WriteTap(f) => match self.tap.write(&f) {
                    Ok(n) => self.input(SessionInput::TapWritten(n as u64)),
                    Err(e) => self.input(SessionInput::TapFailed(format!("{:?}", e))),
                },
                SessionAction::SetTapIp(ip) => self.tap.set_ip(ip),
                SessionAction::ApplyRoutes(r) => self.tap.apply_routes(&r),
                SessionAction::SendEth { conn, frame } => {
                    if self.gone.contains(&conn) {
                        self.input(SessionInput::ConnGone);
                    } else {
                        let n = frame.len() as u64;
                        self.sent.push((conn, frame));
                        self.input(SessionInput::Sent(n));
                    }
                }
                SessionAction::DestroyTap => self.tap.destroy(),
                SessionAction::Tell(SessionEvt::Died { sid, reason }) => {
                    assert_eq!(sid, SessionId(1));
                    self.told.push(reason);
                }
            }
        }
    }

    fn cmd(&mut self, c: SessionCmd) {
        self.input(SessionInput::Cmd(c));
    }

    /// Injects a frame, and lets the session read it, if it does.
    fn inject(&mut self, frame: &[u8]) {
        self.tap.inject_frame(frame.to_vec());
        if self.task.reads_tap() {
            let f = self.tap.read(2048).unwrap();
            self.input(SessionInput::TapRead(f));
        }
    }

    fn advance(&mut self, ms: u64) {
        self.clock += ms;
        if let Some(t) = self.task.wakes_at() {
            if t <= self.clock {
                self.input(SessionInput::DeadlinePassed);
            }
        }
    }

    fn death(&self) -> DeathReason {
        assert_eq!(self.told.len(), 1, "a session says once that it died");
        assert!(self.task.is_dead());
        self.told[0].clone()
    }
}

#[test]
fn joined_forwards_tap_to_conn() {
    let mut h = spawn(Some(60_000));
    h.inject(b"abcdef");
    assert_eq!(h.sent, vec![(FIRST, b"abcdef".to_vec())]);
    h.cmd(SessionCmd::Kill);
    assert_eq!(h.death(), DeathReason::HubKill);
}

#[test]
fn joined_eth_in_writes_to_tap() {
    let mut h = spawn(Some(60_000));
    h.cmd(SessionCmd::EthIn(b"hello-tap".to_vec()));
    assert_eq!(h.tap.pop_written(), Some(b"hello-tap".to_vec()));
    h.cmd(SessionCmd::Kill);
    assert_eq!(h.death(), DeathReason::HubKill);
}

#[test]
fn byte_counters_track_both_directions() {
    let mut h = spawn(Some(60_000));
    h.cmd(SessionCmd::EthIn(b"hello-tap".to_vec()));
    assert!(h.tap.pop_written().is_some());
    h.inject(b"world-from!");
    assert_eq!(h.sent, vec![(FIRST, b"world-from!".to_vec())]);
    assert_eq!(h.task.bytes_in, 9);
    assert_eq!(h.task.bytes_out, 11);
    h.cmd(SessionCmd::Kill);
    assert_eq!(h.death(), DeathReason::HubKill);
}

#[test]
fn set_ip_and_set_routes_apply_to_tap() {
    let mut h = spawn(Some(60_000));
    h.cmd(SessionCmd::SetIp(Some("10.0.0.5/24".to_string())));
    h.cmd(SessionCmd::SetRoutes(vec![
        RouteEntry { dst: "192.168.1.0/24".to_string(), via: "10.0.0.1".to_string() },
        RouteEntry { dst: "garbage-route".to_string(), via: "10.0.0.2".to_string() },
    ]));
    h.cmd(SessionCmd::EthIn(b"sync".to_vec()));
    assert!(h.tap.pop_written().is_some());

    let snap = h.tap.snapshot();
    assert_eq!(snap.ip.unwrap().to_text(), "10.0.0.5/24");
    assert_eq!(snap.routes.len(), 1, "malformed route must be dropped");
    assert_eq!(snap.routes[0].dst.to_text(), "192.168.1.0/24");
    h.cmd(SessionCmd::Kill);
    assert_eq!(h.death(), DeathReason::HubKill);
}

#[test]
fn set_ip_with_bare_ip_promotes_to_host_prefix() {
    let mut h = spawn(Some(60_000));
    h.cmd(SessionCmd::SetIp(Some("10.0.0.7".to_string())));
    assert_eq!(h.tap.snapshot().ip.unwrap().to_text(), "10.0.0.7/32");
    h.cmd(SessionCmd::Kill);
    let _ = h.death();
}

#[test]
fn set_ip_with_none_clears_address() {
    let mut h = spawn(Some(60_000));
    h.cmd(SessionCmd::SetIp(Some("10.0.0.7/24".to_string())));
    assert!(h.tap.snapshot().ip.is_some());
    h.cmd(SessionCmd::SetIp(None));
    assert_eq!(h.tap.snapshot().ip, None);
    h.cmd(SessionCmd::Kill);
    let _ = h.death();
}

#[test]
fn unbind_then_timeout_dies_with_timeout_reason() {
    let mut h = spawn(Some(80));
    h.cmd(SessionCmd::UnbindConn);
    h.advance(79);
    assert!(h.told.is_empty());
    h.advance(1);
    assert_eq!(h.death(), DeathReason::Timeout);
    assert!(h.tap.snapshot().destroyed);
}

#[test]
fn unbind_then_rebind_returns_to_joined() {
    let mut h = spawn(Some(500));
    h.cmd(SessionCmd::UnbindConn);
    h.cmd(SessionCmd::BindConn(ConnId(2)));
    h.inject(b"after-rebind");
    assert_eq!(h.sent, vec![(ConnId(2), b"after-rebind".to_vec())]);
    h.advance(10_000);
    h.cmd(SessionCmd::Kill);
    assert_eq!(h.death(), DeathReason::HubKill);
}

#[test]
fn dropping_conn_rx_implicitly_unbinds_then_times_out() {
    let mut h = spawn(Some(80));
    h.gone.push(FIRST);
    h.inject(b"trigger");
    assert!(!h.task.reads_tap());
    h.advance(80);
    assert_eq!(h.death(), DeathReason::Timeout);
}

#[test]
fn no_timeout_stays_disconnected_indefinitely() {
    let mut h = spawn(None);
    h.cmd(SessionCmd::UnbindConn);
    h.advance(1_000_000_000);
    h.input(SessionInput::DeadlinePassed);
    assert!(h.told.is_empty(), "session must not time out without a deadline");
    h.cmd(SessionCmd::Kill);
    assert_eq!(h.death(), DeathReason::HubKill);
}

#[test]
fn kill_in_disconnected_dies_immediately() {
    let mut h = spawn(Some(10_000));
    h.cmd(SessionCmd::UnbindConn);
    h.cmd(SessionCmd::Kill);
    assert_eq!(h.death(), DeathReason::HubKill);
    assert_eq!(h.clock, 0, "kill should not wait for the deadline");
}

#[test]
fn dropping_cmd_rx_yields_hub_gone_in_joined() {
    let mut h = spawn(Some(10_000));
    h.input(SessionInput::HubGone);
    assert_eq!(h.death(), DeathReason::HubGone);
    assert!(h.tap.snapshot().destroyed);
}

#[test]
fn dropping_cmd_rx_yields_hub_gone_in_disconnected() {
    let mut h = spawn(Some(10_000));
    h.cmd(SessionCmd::UnbindConn);
    h.input(SessionInput::HubGone);
    assert_eq!(h.death(), DeathReason::HubGone);
}

#[test]
fn a_failing_tap_ends_the_session() {
    let mut h = spawn(Some(10_000));
    h.tap.destroy();
    h.cmd(SessionCmd::EthIn(b"x".to_vec()));
    assert_eq!(h.death(), DeathReason::TapError("BrokenPipe".to_string()));
    h.cmd(SessionCmd::Kill);
    h.input(SessionInput::HubGone);
    assert_eq!(h.told.len(), 1);
}

#[test]
fn frames_for_a_session_without_connection_are_dropped() {
    let mut h = spawn(Some(10_000));
    h.cmd(SessionCmd::UnbindConn);
    h.cmd(SessionCmd::EthIn(b"x".to_vec()));
    assert_eq!(h.tap.pop_written(), None);
    assert_eq!(h.task.bytes_in, 0);
}

#[test]
fn addresses_are_told_with_or_without_prefix() {
    assert_eq!(parse_ip_cidr(Some("10.0.0.5/24")).unwrap().to_text(), "10.0.0.5/24");
    assert_eq!(parse_ip_cidr(Some("  10.0.0.5 ")).unwrap().to_text(), "10.0.0.5/32");
    assert_eq!(parse_ip_cidr(Some("::1")).unwrap().to_text(), "::1/128");
    assert_eq!(parse_ip_cidr(Some("  ")), None);
    assert_eq!(parse_ip_cidr(Some("nonsense")), None);
    assert_eq!(parse_ip_cidr(None), None);
    assert_eq!(DEFAULT_DISCONNECT_TIMEOUT, 60);
}
