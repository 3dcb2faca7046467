//! The client's controller.
//!
//! ```text
//!                ┌── ConnEvent ──┐
//!  connection ──▶│               │            ┌─── SessionCmd ──▶  session (owns the TAP)
//!                │     App       │            │
//!  user      ───▶│               │────────────┘
//!                │  joining_net  │            ◀── SessionEvt ─────  (it died)
//!                │  joined_net   │
//!                │  hello_acked  │
//!                └───────────────┘
//! ```
//!
//! `joining_net` is the network that the client wants to be in. It survives
//! reconnects, and the end of the program: the next handshake asks for it
//! again. `joined_net` is the network that there is a session for.
//! `hello_acked` holds from the acknowledged handshake to the loss of the
//! connection; a request to join is sent only while it holds.
//!
//! The server answers requests in the order they were sent. A request that was
//! under way when the server said where the client belongs is late: its refusal
//! says nothing of the network that the client wants now, and is passed over.
//!
//! The controller does no I/O: each input gives the actions to carry out. Only
//! the TAP is awaited in between, and the outcome handed to
//! [`App::finish_join`].
use vstd::prelude::*;
use vstd::string::*;

use crate::addr;
use crate::addr::IpNet;
use crate::client::repl::{ClientStatusSnapshot, StatusView, UserCmd, UserView};
use crate::config::{ClientConfig, ClientConfigView, ClientCoreView, WireRoute};
use crate::frame::{Frame, FrameView, RouteEntry, RouteView, PROTOCOL_VERSION};
use crate::ids::ConnId;
use crate::session::{CmdView, EvtView, SessionCmd, SessionEvt};
use crate::text;
use crate::uuids;
use crate::uuids::Uuid;

verus! {

/// The one connection of a client.
pub open spec fn only_conn() -> ConnId {
    ConnId(0)
}

/// What a connection reports.
#[derive(Debug)]
pub enum ConnEvent {
    /// It is established.
    Connected,
    /// It is lost.
    Disconnected,
    /// It brought a frame.
    FrameIn(Frame),
}

/// The content of a [`ConnEvent`].
#[verifier::ext_equal]
pub enum ConnEventView {
    Connected,
    Disconnected,
    FrameIn(FrameView),
}

impl DeepView for ConnEvent {
    type V = ConnEventView;

    open spec fn deep_view(&self) -> ConnEventView {
        match self {
            ConnEvent::Connected => ConnEventView::Connected,
            ConnEvent::Disconnected => ConnEventView::Disconnected,
            ConnEvent::FrameIn(f) => ConnEventView::FrameIn(f.deep_view()),
        }
    }
}

/// What happens to the controller.
#[derive(Debug)]
pub enum AppInput {
    Conn(ConnEvent),
    User(UserCmd),
    Session(SessionEvt),
    /// Nothing will happen any more.
    Closed,
}

/// The content of an [`AppInput`].
#[verifier::ext_equal]
pub enum AppInputView {
    Conn(ConnEventView),
    User(UserView),
    Session(EvtView),
    Closed,
}

impl DeepView for AppInput {
    type V = AppInputView;

    open spec fn deep_view(&self) -> AppInputView {
        match self {
            AppInput::Conn(e) => AppInputView::Conn(e.deep_view()),
            AppInput::User(c) => AppInputView::User(c.deep_view()),
            AppInput::Session(e) => AppInputView::Session(e.deep_view()),
            AppInput::Closed => AppInputView::Closed,
        }
    }
}

/// One thing for the surroundings to do.
#[derive(Debug)]
pub enum AppAction {
    /// Send a frame to the server. Where that fails, the client ends.
    Send(Frame),
    /// Send a frame to the server, if that can be done.
    Answer(Frame),
    /// Tell the session something.
    ToSession(SessionCmd),
    /// Start a session on the TAP that was created. It has no timeout.
    StartSession { net: Uuid },
    /// Write the configuration as it is now.
    Persist,
    /// Save a file under this name, and not over another one.
    SaveFile { dir: String, name: String, data: Vec<u8> },
    /// Print a line.
    Show(String),
    /// Print a line to the error output.
    Warn(String),
    /// Answer the question how things stand.
    Report(ClientStatusSnapshot),
    /// Note a frame that only clients send.
    Unexpected,
    /// Give the session two seconds to end.
    AwaitSession,
}

/// The content of an [`AppAction`].
#[verifier::ext_equal]
pub enum AppActView {
    Send(FrameView),
    Answer(FrameView),
    ToSession(CmdView),
    StartSession { net: Uuid },
    Persist,
    SaveFile { dir: Seq<char>, name: Seq<char>, data: Seq<u8> },
    Show(Seq<char>),
    Warn(Seq<char>),
    Report(StatusView),
    Unexpected,
    AwaitSession,
}

impl DeepView for AppAction {
    type V = AppActView;

    open spec fn deep_view(&self) -> AppActView {
        match self {
            AppAction::Send(f) => AppActView::Send(f.deep_view()),
            AppAction::Answer(f) => AppActView::Answer(f.deep_view()),
            AppAction::ToSession(c) => AppActView::ToSession(c.deep_view()),
            AppAction::StartSession { net } => AppActView::StartSession { net: *net },
            AppAction::Persist => AppActView::Persist,
            AppAction::SaveFile { dir, name, data } => AppActView::SaveFile {
                dir: dir@,
                name: name@,
                data: data@,
            },
            AppAction::Show(s) => AppActView::Show(s@),
            AppAction::Warn(s) => AppActView::Warn(s@),
            AppAction::Report(s) => AppActView::Report(s.deep_view()),
            AppAction::Unexpected => AppActView::Unexpected,
            AppAction::AwaitSession => AppActView::AwaitSession,
        }
    }
}

/// A TAP to create for a network that the server let the client into.
#[derive(Debug, Clone, PartialEq, Eq)]
pub struct JoinPlan {
    pub net: Uuid,
    pub tap_name: String,
    /// The address as the server gave it.
    pub ip: Option<String>,
    /// The address to give the TAP.
    pub addr: Option<IpNet>,
}

/// The content of a [`JoinPlan`].
#[verifier::ext_equal]
pub struct PlanView {
    pub net: Uuid,
    pub tap_name: Seq<char>,
    pub ip: Option<Seq<char>>,
    pub addr: Option<IpNet>,
}

impl DeepView for JoinPlan {
    type V = PlanView;

    open spec fn deep_view(&self) -> PlanView {
        PlanView {
            net: self.net,
            tap_name: self.tap_name@,
            ip: self.ip.deep_view(),
            addr: self.addr,
        }
    }
}

/// How the controller goes on after the actions.
#[derive(Debug)]
pub enum AppNext {
    /// With the next input.
    Go,
    /// Create the TAP, and hand the outcome to [`App::finish_join`].
    CreateTap(JoinPlan),
    /// Not at all.
    Stop,
    /// Not at all, because of this.
    Fail(String),
}

/// The content of an [`AppNext`].
#[verifier::ext_equal]
pub enum NextView {
    Go,
    CreateTap(PlanView),
    Stop,
    Fail(Seq<char>),
}

impl DeepView for AppNext {
    type V = NextView;

    open spec fn deep_view(&self) -> NextView {
        match self {
            AppNext::Go => NextView::Go,
            AppNext::CreateTap(p) => NextView::CreateTap(p.deep_view()),
            AppNext::Stop => NextView::Stop,
            AppNext::Fail(m) => NextView::Fail(m@),
        }
    }
}

/// The controller.
#[derive(Debug)]
pub struct App {
    pub cfg: ClientConfig,
    /// Whether there is a session to talk to.
    pub session: bool,
    pub joining_net: Option<Uuid>,
    pub joined_net: Option<Uuid>,
    pub joined_tap_name: Option<String>,
    pub joined_tap_ip: Option<String>,
    pub hello_acked: bool,
    /// Requests to join that were sent on this connection and not answered.
    pub unanswered: u64,
    /// How many of those were sent before the server last said where the client
    /// belongs.
    pub late: u64,
}

/// The content of an [`App`].
#[verifier::ext_equal]
pub struct AppView {
    pub cfg: ClientConfigView,
    pub session: bool,
    pub joining: Option<Uuid>,
    pub joined: Option<Uuid>,
    pub tap_name: Option<Seq<char>>,
    pub tap_ip: Option<Seq<char>>,
    pub acked: bool,
    pub unanswered: u64,
    pub late: u64,
}

impl DeepView for App {
    type V = AppView;

    open spec fn deep_view(&self) -> AppView {
        AppView {
            cfg: self.cfg.deep_view(),
            session: self.session,
            joining: self.joining_net,
            joined: self.joined_net,
            tap_name: self.joined_tap_name.deep_view(),
            tap_ip: self.joined_tap_ip.deep_view(),
            acked: self.hello_acked,
            unanswered: self.unanswered,
            late: self.late,
        }
    }
}

// ── What the controller does ─────────────────────────────────────────────
/// The state after an input, what there is to do, and how to go on.
pub type Out = (AppView, Seq<AppActView>, NextView);

/// The network that a configuration asks for.
pub open spec fn wanted(joined_network: Seq<char>) -> Option<Uuid> {
    if joined_network.len() == 0 {
        None
    } else {
        match uuids::uuid_parsed(joined_network) {
            Ok(u) => Some(Uuid(u)),
            Err(_) => None,
        }
    }
}

/// The controller at the start.
pub open spec fn opened(cfg: ClientConfigView) -> AppView {
    AppView {
        cfg: cfg,
        session: false,
        joining: wanted(cfg.client.joined_network),
        joined: None,
        tap_name: None,
        tap_ip: None,
        acked: false,
        unanswered: 0,
        late: 0,
    }
}

/// One more.
pub open spec fn one_more(n: u64) -> u64 {
    if n < u64::MAX {
        (n + 1) as u64
    } else {
        n
    }
}

/// One less, where there is one.
pub open spec fn one_less(n: u64) -> u64 {
    if n > 0 {
        (n - 1) as u64
    } else {
        n
    }
}

/// A request to join was sent.
pub open spec fn asked(s: AppView) -> AppView {
    AppView { unanswered: one_more(s.unanswered), ..s }
}

/// A request to join was answered, the earliest one.
pub open spec fn answered(s: AppView) -> AppView {
    AppView { unanswered: one_less(s.unanswered), late: one_less(s.late), ..s }
}

/// The configuration with another network to ask for.
pub open spec fn with_network(c: ClientConfigView, net: Seq<char>) -> ClientConfigView {
    ClientConfigView { client: ClientCoreView { joined_network: net, ..c.client }, ..c }
}

/// Telling the session something, if there is one.
pub open spec fn tell(s: AppView, c: CmdView) -> Seq<AppActView> {
    if s.session {
        seq![AppActView::ToSession(c)]
    } else {
        Seq::empty()
    }
}

/// A new connection: the client introduces itself.
pub open spec fn connected(s: AppView) -> Out {
    let t = AppView { acked: false, unanswered: 0, late: 0, ..s };
    match uuids::uuid_parsed(s.cfg.client.uuid) {
        Ok(u) => (
            t,
            seq![
                AppActView::Send(
                    FrameView::Hello { version: PROTOCOL_VERSION, client_uuid: Uuid(u), caps: 0 },
                ),
            ],
            NextView::Go,
        ),
        Err(e) => (t, Seq::empty(), NextView::Fail(e)),
    }
}

/// A lost connection: the session waits.
pub open spec fn disconnected(s: AppView) -> Out {
    (
        AppView { acked: false, ..s },
        tell(s, CmdView::UnbindConn) + seq![AppActView::Show("[-] disconnected, retrying..."@)],
        NextView::Go,
    )
}

/// An acknowledged handshake: the client asks for the network it wants.
pub open spec fn acknowledged(s: AppView, version: u16) -> Out {
    if version != PROTOCOL_VERSION {
        (
            s,
            Seq::empty(),
            NextView::Fail(
                "server speaks protocol v"@ + text::dec(version as nat)
                    + ", this client speaks v"@ + text::dec(PROTOCOL_VERSION as nat),
            ),
        )
    } else {
        let t = AppView { acked: true, ..s };
        match s.joining {
            Some(net) => (
                asked(t),
                seq![AppActView::Send(FrameView::Join { net_uuid: net })],
                NextView::Go,
            ),
            None => (t, Seq::empty(), NextView::Go),
        }
    }
}

/// An accepted request to join. A session for the network goes on; otherwise
/// there is a TAP to create.
pub open spec fn join_ok(s: AppView, suffix: Seq<char>, ip: Option<Seq<char>>) -> Out {
    let t = answered(s);
    match s.joining {
        None => (t, Seq::empty(), NextView::Go),
        Some(net) => if s.joined == Some(net) {
            (
                t,
                tell(s, CmdView::BindConn(only_conn())) + (if ip is Some {
                    tell(s, CmdView::SetIp(ip))
                } else {
                    Seq::empty()
                }) + seq![AppActView::Show("[+] rejoined network "@ + uuids::short_chars(net))],
                NextView::Go,
            )
        } else {
            (
                t,
                Seq::empty(),
                NextView::CreateTap(
                    PlanView {
                        net: net,
                        tap_name: "tap"@ + suffix,
                        ip: ip,
                        addr: match ip {
                            Some(t) => addr::net_parsed(t),
                            None => None,
                        },
                    },
                ),
            )
        },
    }
}

/// The TAP is there: a session starts, and the network is remembered.
pub open spec fn tap_created(s: AppView, p: PlanView) -> Out {
    let c = with_network(s.cfg, uuids::uuid_chars(p.net));
    (
        AppView {
            cfg: match p.ip {
                Some(t) => ClientConfigView { tap_ip: t, ..c },
                None => c,
            },
            session: true,
            joined: Some(p.net),
            tap_name: Some(p.tap_name),
            tap_ip: p.ip,
            ..s
        },
        seq![
            AppActView::StartSession { net: p.net },
            AppActView::Persist,
            AppActView::Show(
                "[+] joined network "@ + uuids::short_chars(p.net) + " (TAP="@ + p.tap_name + ")"@,
            ),
        ],
        NextView::Go,
    )
}

/// The TAP could not be created: the network is given up.
pub open spec fn tap_failed(s: AppView, e: Seq<char>) -> Out {
    (
        AppView { cfg: with_network(s.cfg, Seq::empty()), joining: None, ..s },
        seq![AppActView::Warn("[!] create_tap failed: "@ + e), AppActView::Persist],
        NextView::Go,
    )
}

/// A refused request to join: the network is given up. Where the request was
/// late, what the client wants and has stays as it is.
pub open spec fn join_deny(s: AppView, reason: Seq<char>) -> Out {
    let shown = AppActView::Warn("[!] join denied: "@ + reason);
    if s.late > 0 {
        (answered(s), seq![shown], NextView::Go)
    } else {
        (
            AppView {
                cfg: with_network(s.cfg, Seq::empty()),
                session: false,
                joining: None,
                joined: None,
                ..answered(s)
            },
            seq![shown] + tell(s, CmdView::Kill) + seq![AppActView::Persist],
            NextView::Go,
        )
    }
}

/// The server says where the client belongs. Where it is there already, it
/// stays; otherwise it leaves, and asks for the new network, if any. Requests
/// that are under way are late from now on.
pub open spec fn assign_net(s: AppView, net: Option<Uuid>) -> Out {
    let asks = net is Some && s.acked;
    let stays = net is Some && s.joined == net;
    let c = with_network(
        s.cfg,
        match net {
            Some(n) => uuids::uuid_chars(n),
            None => Seq::empty(),
        },
    );
    let ask = if asks {
        seq![AppActView::Send(FrameView::Join { net_uuid: net->0 })]
    } else {
        Seq::empty()
    };
    let t = AppView {
        cfg: c,
        joining: net,
        unanswered: if asks {
            one_more(s.unanswered)
        } else {
            s.unanswered
        },
        late: s.unanswered,
        ..s
    };
    if stays {
        (t, seq![AppActView::Persist] + ask, NextView::Go)
    } else {
        (
            AppView { session: false, joined: None, tap_name: None, tap_ip: None, ..t },
            tell(s, CmdView::Kill) + seq![AppActView::Persist] + ask,
            NextView::Go,
        )
    }
}

/// Another address, or none.
pub open spec fn set_ip(s: AppView, ip: Option<Seq<char>>) -> Out {
    (
        AppView {
            cfg: ClientConfigView {
                tap_ip: match ip {
                    Some(t) => t,
                    None => Seq::empty(),
                },
                ..s.cfg
            },
            tap_ip: ip,
            ..s
        },
        tell(s, CmdView::SetIp(ip)) + seq![
            AppActView::Persist,
            AppActView::Show(
                "[*] TAP IP updated: "@ + match ip {
                    Some(t) => t,
                    None => "(cleared)"@,
                },
            ),
        ],
        NextView::Go,
    )
}

/// Another routing table.
pub open spec fn set_routes(s: AppView, routes: Seq<RouteView>) -> Out {
    (
        AppView { cfg: ClientConfigView { routes: routes, ..s.cfg }, ..s },
        tell(s, CmdView::SetRoutes(routes)) + seq![
            AppActView::Persist,
            AppActView::Show("[*] "@ + text::dec(routes.len()) + " route(s) received"@),
        ],
        NextView::Go,
    )
}

/// A frame of the server.
pub open spec fn server_frame(s: AppView, f: FrameView) -> Out {
    match f {
        FrameView::HelloAck { version, server_id, caps } => acknowledged(s, version),
        FrameView::JoinOk { tap_suffix, ip } => join_ok(s, tap_suffix, ip),
        FrameView::JoinDeny { reason } => join_deny(s, reason),
        FrameView::AssignNet { net_uuid } => assign_net(s, net_uuid),
        FrameView::Eth(b) => (s, tell(s, CmdView::EthIn(b)), NextView::Go),
        FrameView::SetIp { ip } => set_ip(s, ip),
        FrameView::SetRoutes(r) => set_routes(s, r),
        FrameView::Text(m) => (s, seq![AppActView::Show("[server] > "@ + m)], NextView::Go),
        FrameView::File { name, data } => (
            s,
            seq![AppActView::SaveFile { dir: s.cfg.client.save_dir, name: name, data: data }],
            NextView::Go,
        ),
        FrameView::Ping(nonce) => (
            s,
            seq![AppActView::Answer(FrameView::Pong(nonce))],
            NextView::Go,
        ),
        FrameView::Pong(_) => (s, Seq::empty(), NextView::Go),
        FrameView::Hello { .. } => (s, seq![AppActView::Unexpected], NextView::Go),
        FrameView::Join { .. } => (s, seq![AppActView::Unexpected], NextView::Go),
    }
}

/// The user wants to join a network. That is refused in a network, and put off
/// until the handshake is done.
pub open spec fn user_join(s: AppView, net: Uuid) -> Out {
    if s.session {
        (
            s,
            seq![AppActView::Warn("[!] already joined; type 'leave' first"@)],
            NextView::Go,
        )
    } else {
        let t = AppView { joining: Some(net), ..s };
        if s.acked {
            (
                asked(t),
                seq![
                    AppActView::Send(FrameView::Join { net_uuid: net }),
                    AppActView::Show("[*] join sent, awaiting approval..."@),
                ],
                NextView::Go,
            )
        } else {
            (
                t,
                seq![
                    AppActView::Show(
                        "[*] not yet handshaked; will join after the next HelloAck"@,
                    ),
                ],
                NextView::Go,
            )
        }
    }
}

/// The user leaves: the session ends, and the network is forgotten.
pub open spec fn user_leave(s: AppView) -> Out {
    (
        AppView {
            cfg: with_network(s.cfg, Seq::empty()),
            session: false,
            joining: None,
            joined: None,
            tap_name: None,
            tap_ip: None,
            ..s
        },
        tell(s, CmdView::Kill) + seq![AppActView::Persist, AppActView::Show("[*] left"@)],
        NextView::Go,
    )
}

/// How things stand.
pub open spec fn status(s: AppView) -> StatusView {
    StatusView {
        client_uuid: match uuids::uuid_parsed(s.cfg.client.uuid) {
            Ok(u) => Uuid(u),
            Err(_) => uuids::nil_uuid(),
        },
        connected: s.acked,
        joined_network: s.joined,
        tap_name: s.tap_name,
        tap_ip: s.tap_ip,
    }
}

/// The end: the session is told to end, and given time for it.
pub open spec fn ended(s: AppView) -> Out {
    (
        AppView { session: false, ..s },
        if s.session {
            seq![AppActView::ToSession(CmdView::Kill), AppActView::AwaitSession]
        } else {
            Seq::empty()
        },
        NextView::Stop,
    )
}

/// What the user asks for.
pub open spec fn user_cmd(s: AppView, c: UserView) -> Out {
    match c {
        UserView::Join(net) => user_join(s, net),
        UserView::Leave => user_leave(s),
        UserView::SendText(m) => (
            s,
            seq![AppActView::Send(FrameView::Text(m))],
            NextView::Go,
        ),
        UserView::SendFile { name, data } => (
            s,
            seq![AppActView::Send(FrameView::File { name: name, data: data })],
            NextView::Go,
        ),
        UserView::Status => (s, seq![AppActView::Report(status(s))], NextView::Go),
        UserView::Quit => ended(s),
    }
}

/// The session died.
pub open spec fn session_died(s: AppView) -> Out {
    (
        AppView { session: false, joined: None, tap_name: None, tap_ip: None, ..s },
        Seq::empty(),
        NextView::Go,
    )
}

/// What the controller does with an input.
pub open spec fn handled(s: AppView, e: AppInputView) -> Out {
    match e {
        AppInputView::Conn(ConnEventView::Connected) => connected(s),
        AppInputView::Conn(ConnEventView::Disconnected) => disconnected(s),
        AppInputView::Conn(ConnEventView::FrameIn(f)) => server_frame(s, f),
        AppInputView::User(c) => user_cmd(s, c),
        AppInputView::Session(_) => session_died(s),
        AppInputView::Closed => ended(s),
    }
}

// ── Doing it ─────────────────────────────────────────────────────────────
/// What there is to do, and how to go on.
pub type AppStep = (Vec<AppAction>, AppNext);

/// No action.
fn nothing() -> (r: Vec<AppAction>)
    ensures
        r.deep_view() == Seq::<AppActView>::empty(),
{
    let out: Vec<AppAction> = Vec::new();
    assert(out.deep_view() =~= Seq::<AppActView>::empty());
    out
}

/// Appends an action.
fn put(out: &mut Vec<AppAction>, a: AppAction)
    ensures
        final(out).deep_view() == old(out).deep_view().push(a.deep_view()),
{
    out.push(a);
    assert(out.deep_view() =~= old(out).deep_view().push(a.deep_view()));
}

/// One action.
fn only(a: AppAction) -> (r: Vec<AppAction>)
    ensures
        r.deep_view() == seq![a.deep_view()],
{
    let mut out = nothing();
    put(&mut out, a);
    out
}

/// A routing table as it is written to the configuration.
fn as_wire(v: &Vec<RouteEntry>) -> (r: Vec<WireRoute>)
    ensures
        r.deep_view() == v.deep_view(),
{
    let mut out: Vec<WireRoute> = Vec::new();
    let mut i: usize = 0;
    while i < v.len()
        invariant
            0 <= i <= v.len(),
            out.len() == i,
            forall|j: int| 0 <= j < i ==> (#[trigger] out[j]).deep_view() == v[j].deep_view(),
        decreases v.len() - i,
    {
        out.push(WireRoute { dst: v[i].dst.clone(), via: v[i].via.clone() });
        i += 1;
    }
    assert(out.deep_view() =~= v.deep_view());
    out
}

impl App {
    /// A controller at the start. Where the configuration names a network, the
    /// first handshake asks for it.
    pub fn new(cfg: ClientConfig) -> (r: App)
        ensures
            r.deep_view() == opened(cfg.deep_view()),
    {
        let joining: Option<Uuid> = if cfg.client.joined_network.as_str().is_empty() {
            None
        } else {
            match Uuid::parse(cfg.client.joined_network.as_str()) {
                Ok(u) => Some(u),
                Err(_) => None,
            }
        };
        App {
            cfg: cfg,
            session: false,
            joining_net: joining,
            joined_net: None,
            joined_tap_name: None,
            joined_tap_ip: None,
            hello_acked: false,
            unanswered: 0,
            late: 0,
        }
    }

    /// Notes that a request to join was sent.
    fn note_asked(&mut self)
        ensures
            final(self).deep_view() == asked(old(self).deep_view()),
    {
        if self.unanswered < u64::MAX {
            self.unanswered += 1;
        }
    }

    /// Notes that the earliest request to join was answered.
    fn note_answered(&mut self)
        ensures
            final(self).deep_view() == answered(old(self).deep_view()),
    {
        if self.unanswered > 0 {
            self.unanswered -= 1;
        }
        if self.late > 0 {
            self.late -= 1;
        }
    }

    /// Tells the session something, if there is one.
    fn tell(&self, out: &mut Vec<AppAction>, c: SessionCmd)
        ensures
            final(out).deep_view() == old(out).deep_view() + tell(
                self.deep_view(),
                c.deep_view(),
            ),
    {
        if self.session {
            put(out, AppAction::ToSession(c));
        }
        assert(out.deep_view() =~= old(out).deep_view() + tell(self.deep_view(), c.deep_view()));
    }

    fn on_connected(&mut self) -> (r: AppStep)
        ensures
            (final(self).deep_view(), r.0.deep_view(), r.1.deep_view()) == connected(
                old(self).deep_view(),
            ),
    {
        self.hello_acked = false;
        self.unanswered = 0;
        self.late = 0;
        match Uuid::parse(self.cfg.client.uuid.as_str()) {
            Ok(u) => (
                only(
                    AppAction::Send(
                        Frame::Hello { version: PROTOCOL_VERSION, client_uuid: u, caps: 0 },
                    ),
                ),
                AppNext::Go,
            ),
            Err(e) => (nothing(), AppNext::Fail(e)),
        }
    }

    fn on_disconnected(&mut self) -> (r: AppStep)
        ensures
            (final(self).deep_view(), r.0.deep_view(), r.1.deep_view()) == disconnected(
                old(self).deep_view(),
            ),
    {
        let ghost s = self.deep_view();
        self.hello_acked = false;
        let mut out = nothing();
        self.tell(&mut out, SessionCmd::UnbindConn);
        put(&mut out, AppAction::Show("[-] disconnected, retrying...".to_owned()));
        assert(out.deep_view() =~= disconnected(s).1);
        (out, AppNext::Go)
    }

    fn on_hello_ack(&mut self, version: u16) -> (r: AppStep)
        ensures
            (final(self).deep_view(), r.0.deep_view(), r.1.deep_view()) == acknowledged(
                old(self).deep_view(),
                version,
            ),
    {
        if version != PROTOCOL_VERSION {
            let theirs = text::dec_text(version as u64);
            let ours = text::dec_text(PROTOCOL_VERSION as u64);
            let m = text::join3(
                "server speaks protocol v",
                theirs.as_str(),
                ", this client speaks v",
            );
            return (nothing(), AppNext::Fail(text::join2(m.as_str(), ours.as_str())));
        }
        self.hello_acked = true;
        match self.joining_net {
            Some(net) => {
                self.note_asked();
                (only(AppAction::Send(Frame::Join { net_uuid: net })), AppNext::Go)
            },
            None => (nothing(), AppNext::Go),
        }
    }

    fn on_join_ok(&mut self, tap_suffix: String, ip: Option<String>) -> (r: AppStep)
        ensures
            (final(self).deep_view(), r.0.deep_view(), r.1.deep_view()) == join_ok(
                old(self).deep_view(),
                tap_suffix@,
                ip.deep_view(),
            ),
    {
        let ghost s = self.deep_view();
        let ghost told = ip.deep_view();
        self.note_answered();
        let net = match self.joining_net {
            Some(n) => n,
            None => {
                return (nothing(), AppNext::Go);
            },
        };
        if uuids::same_opt_uuid(self.joined_net, Some(net)) {
            let mut out = nothing();
            self.tell(&mut out, SessionCmd::BindConn(ConnId(0)));
            if ip.is_some() {
                self.tell(&mut out, SessionCmd::SetIp(ip));
            }
            let id = net.short();
            put(&mut out, AppAction::Show(text::join2("[+] rejoined network ", id.as_str())));
            assert(out.deep_view() =~= join_ok(s, tap_suffix@, told).1);
            return (out, AppNext::Go);
        }
        let addr: Option<IpNet> = match &ip {
            Some(t) => IpNet::parse(t.as_str()),
            None => None,
        };
        let plan = JoinPlan {
            net: net,
            tap_name: text::join2("tap", tap_suffix.as_str()),
            ip: ip,
            addr: addr,
        };
        (nothing(), AppNext::CreateTap(plan))
    }

    /// Goes on when the TAP was created, or not. The network that a session
    /// was started for is the one that the next start of the client asks for.
    pub fn finish_join(&mut self, plan: JoinPlan, tap: Result<(), String>) -> (r: AppStep)
        ensures
            (final(self).deep_view(), r.0.deep_view(), r.1.deep_view()) == match tap {
                Ok(_) => tap_created(old(self).deep_view(), plan.deep_view()),
                Err(e) => tap_failed(old(self).deep_view(), e@),
            },
            tap is Ok ==> opened(final(self).deep_view().cfg).joining == Some(plan.net),
            tap is Ok ==> remembers(final(self).deep_view()),
    {
        let ghost s = self.deep_view();
        let ghost p = plan.deep_view();
        match tap {
            Err(e) => {
                self.joining_net = None;
                self.cfg.client.joined_network = String::new();
                let mut out = only(
                    AppAction::Warn(text::join2("[!] create_tap failed: ", e.as_str())),
                );
                put(&mut out, AppAction::Persist);
                assert(self.deep_view() =~= tap_failed(s, e@).0);
                (out, AppNext::Go)
            },
            Ok(_) => {
                let id = plan.net.short();
                self.session = true;
                self.joined_net = Some(plan.net);
                let mut line = "[+] joined network ".to_owned();
                line.append(id.as_str());
                line.append(" (TAP=");
                line.append(plan.tap_name.as_str());
                line.append(")");
                self.joined_tap_name = Some(plan.tap_name);
                let net = plan.net.to_text();
                proof {
                    assert(net@.len() > 0);
                }
                self.cfg.client.joined_network = net;
                match &plan.ip {
                    Some(t) => {
                        self.cfg.tap.ip = t.clone();
                    },
                    None => {},
                }
                self.joined_tap_ip = plan.ip;
                let mut out = only(AppAction::StartSession { net: plan.net });
                put(&mut out, AppAction::Persist);
                put(&mut out, AppAction::Show(line));
                assert(self.deep_view() =~= tap_created(s, p).0);
                (out, AppNext::Go)
            },
        }
    }

    fn on_join_deny(&mut self, reason: String) -> (r: AppStep)
        ensures
            (final(self).deep_view(), r.0.deep_view(), r.1.deep_view()) == join_deny(
                old(self).deep_view(),
                reason@,
            ),
    {
        let ghost s = self.deep_view();
        let mut out = only(AppAction::Warn(text::join2("[!] join denied: ", reason.as_str())));
        let late = self.late > 0;
        self.note_answered();
        if late {
            return (out, AppNext::Go);
        }
        self.tell(&mut out, SessionCmd::Kill);
        put(&mut out, AppAction::Persist);
        self.session = false;
        self.joining_net = None;
        self.joined_net = None;
        self.cfg.client.joined_network = String::new();
        assert(out.deep_view() =~= join_deny(s, reason@).1);
        assert(self.deep_view() =~= join_deny(s, reason@).0);
        (out, AppNext::Go)
    }

    fn on_assign_net(&mut self, net: Option<Uuid>) -> (r: AppStep)
        ensures
            (final(self).deep_view(), r.0.deep_view(), r.1.deep_view()) == assign_net(
                old(self).deep_view(),
                net,
            ),
            wanted(final(self).deep_view().cfg.client.joined_network) == net,
    {
        let ghost s = self.deep_view();
        let mut out = nothing();
        let stays = net.is_some() && uuids::same_opt_uuid(self.joined_net, net);
        if !stays {
            self.tell(&mut out, SessionCmd::Kill);
            self.session = false;
            self.joined_net = None;
            self.joined_tap_name = None;
            self.joined_tap_ip = None;
        }
        self.joining_net = net;
        self.late = self.unanswered;
        self.cfg.client.joined_network = match &net {
            Some(n) => n.to_text(),
            None => String::new(),
        };
        put(&mut out, AppAction::Persist);
        match net {
            Some(n) => {
                if self.hello_acked {
                    self.note_asked();
                    put(&mut out, AppAction::Send(Frame::Join { net_uuid: n }));
                }
            },
            None => {},
        }
        assert(out.deep_view() =~= assign_net(s, net).1);
        assert(self.deep_view() =~= assign_net(s, net).0);
        (out, AppNext::Go)
    }

    fn on_set_ip(&mut self, ip: Option<String>) -> (r: AppStep)
        ensures
            (final(self).deep_view(), r.0.deep_view(), r.1.deep_view()) == set_ip(
                old(self).deep_view(),
                ip.deep_view(),
            ),
    {
        let ghost s = self.deep_view();
        let ghost told = ip.deep_view();
        let mut out = nothing();
        self.tell(&mut out, SessionCmd::SetIp(text::copy_opt(&ip)));
        self.cfg.tap.ip = match &ip {
            Some(t) => t.clone(),
            None => String::new(),
        };
        put(&mut out, AppAction::Persist);
        let shown: &str = match &ip {
            Some(t) => t.as_str(),
            None => "(cleared)",
        };
        put(&mut out, AppAction::Show(text::join2("[*] TAP IP updated: ", shown)));
        self.joined_tap_ip = ip;
        assert(out.deep_view() =~= set_ip(s, told).1);
        assert(self.deep_view() =~= set_ip(s, told).0);
        (out, AppNext::Go)
    }

    fn on_set_routes(&mut self, routes: Vec<RouteEntry>) -> (r: AppStep)
        ensures
            (final(self).deep_view(), r.0.deep_view(), r.1.deep_view()) == set_routes(
                old(self).deep_view(),
                routes.deep_view(),
            ),
    {
        let ghost s = self.deep_view();
        let ghost told = routes.deep_view();
        self.cfg.routes = as_wire(&routes);
        let n = text::dec_text(routes.len() as u64);
        assert(told.len() == routes.len());
        let mut out = nothing();
        self.tell(&mut out, SessionCmd::SetRoutes(routes));
        put(&mut out, AppAction::Persist);
        put(&mut out, AppAction::Show(text::join3("[*] ", n.as_str(), " route(s) received")));
        assert(out.deep_view() =~= set_routes(s, told).1);
        assert(self.deep_view() =~= set_routes(s, told).0);
        (out, AppNext::Go)
    }

    fn on_server_frame(&mut self, frame: Frame) -> (r: AppStep)
        ensures
            (final(self).deep_view(), r.0.deep_view(), r.1.deep_view()) == server_frame(
                old(self).deep_view(),
                frame.deep_view(),
            ),
            frame.deep_view() matches FrameView::AssignNet { net_uuid } ==> wanted(
                final(self).deep_view().cfg.client.joined_network,
            ) == net_uuid,
    {
        match frame {
            Frame::HelloAck { version, server_id, caps } => self.on_hello_ack(version),
            Frame::JoinOk { tap_suffix, ip } => self.on_join_ok(tap_suffix, ip),
            Frame::JoinDeny { reason } => self.on_join_deny(reason),
            Frame::AssignNet { net_uuid } => self.on_assign_net(net_uuid),
            Frame::Eth(b) => {
                let mut out = nothing();
                self.tell(&mut out, SessionCmd::EthIn(b));
                assert(out.deep_view() =~= tell(self.deep_view(), CmdView::EthIn(b@)));
                (out, AppNext::Go)
            },
            Frame::SetIp { ip } => self.on_set_ip(ip),
            Frame::SetRoutes(routes) => self.on_set_routes(routes),
            Frame::Text(m) => (
                only(AppAction::Show(text::join2("[server] > ", m.as_str()))),
                AppNext::Go,
            ),
            Frame::File { name, data } => (
                only(
                    AppAction::SaveFile {
                        dir: self.cfg.client.save_dir.clone(),
                        name: name,
                        data: data,
                    },
                ),
                AppNext::Go,
            ),
            Frame::Ping(nonce) => (only(AppAction::Answer(Frame::Pong(nonce))), AppNext::Go),
            Frame::Pong(_) => (nothing(), AppNext::Go),
            Frame::Hello { .. } => (only(AppAction::Unexpected), AppNext::Go),
            Frame::Join { .. } => (only(AppAction::Unexpected), AppNext::Go),
        }
    }

    /// How things stand.
    pub fn snapshot(&self) -> (r: ClientStatusSnapshot)
        ensures
            r.deep_view() == status(self.deep_view()),
    {
        ClientStatusSnapshot {
            client_uuid: match Uuid::parse(self.cfg.client.uuid.as_str()) {
                Ok(u) => u,
                Err(_) => Uuid::nil(),
            },
            connected: self.hello_acked,
            joined_network: self.joined_net,
            tap_name: text::copy_opt(&self.joined_tap_name),
            tap_ip: text::copy_opt(&self.joined_tap_ip),
        }
    }

    fn on_leave(&mut self) -> (r: AppStep)
        ensures
            (final(self).deep_view(), r.0.deep_view(), r.1.deep_view()) == user_leave(
                old(self).deep_view(),
            ),
    {
        let ghost s = self.deep_view();
        let mut out = nothing();
        self.tell(&mut out, SessionCmd::Kill);
        self.session = false;
        self.joining_net = None;
        self.joined_net = None;
        self.joined_tap_name = None;
        self.joined_tap_ip = None;
        self.cfg.client.joined_network = String::new();
        put(&mut out, AppAction::Persist);
        put(&mut out, AppAction::Show("[*] left".to_owned()));
        assert(out.deep_view() =~= user_leave(s).1);
        assert(self.deep_view() =~= user_leave(s).0);
        (out, AppNext::Go)
    }

    fn end(&mut self) -> (r: AppStep)
        ensures
            (final(self).deep_view(), r.0.deep_view(), r.1.deep_view()) == ended(
                old(self).deep_view(),
            ),
    {
        let mut out = nothing();
        if self.session {
            put(&mut out, AppAction::ToSession(SessionCmd::Kill));
            put(&mut out, AppAction::AwaitSession);
        }
        self.session = false;
        (out, AppNext::Stop)
    }

    fn on_user_cmd(&mut self, cmd: UserCmd) -> (r: AppStep)
        ensures
            (final(self).deep_view(), r.0.deep_view(), r.1.deep_view()) == user_cmd(
                old(self).deep_view(),
                cmd.deep_view(),
            ),
    {
        match cmd {
            UserCmd::Join(net) => {
                if self.session {
                    return (
                        only(AppAction::Warn("[!] already joined; type 'leave' first".to_owned())),
                        AppNext::Go,
                    );
                }
                self.joining_net = Some(net);
                if self.hello_acked {
                    self.note_asked();
                    let mut out = only(AppAction::Send(Frame::Join { net_uuid: net }));
                    put(
                        &mut out,
                        AppAction::Show("[*] join sent, awaiting approval...".to_owned()),
                    );
                    (out, AppNext::Go)
                } else {
                    (
                        only(
                            AppAction::Show(
                                "[*] not yet handshaked; will join after the next HelloAck".to_owned(),
                            ),
                        ),
                        AppNext::Go,
                    )
                }
            },
            UserCmd::Leave => self.on_leave(),
            UserCmd::SendText(m) => (only(AppAction::Send(Frame::Text(m))), AppNext::Go),
            UserCmd::SendFile { name, data } => (
                only(AppAction::Send(Frame::File { name: name, data: data })),
                AppNext::Go,
            ),
            UserCmd::Status => (only(AppAction::Report(self.snapshot())), AppNext::Go),
            UserCmd::Quit => self.end(),
        }
    }

    fn on_session_evt(&mut self) -> (r: AppStep)
        ensures
            (final(self).deep_view(), r.0.deep_view(), r.1.deep_view()) == session_died(
                old(self).deep_view(),
            ),
    {
        self.session = false;
        self.joined_net = None;
        self.joined_tap_name = None;
        self.joined_tap_ip = None;
        (nothing(), AppNext::Go)
    }

    /// Takes one input. A client that remembers its network goes on doing so.
    pub fn step(&mut self, e: AppInput) -> (r: AppStep)
        ensures
            (final(self).deep_view(), r.0.deep_view(), r.1.deep_view()) == handled(
                old(self).deep_view(),
                e.deep_view(),
            ),
            remembers(old(self).deep_view()) ==> remembers(final(self).deep_view()),
            e.deep_view() matches AppInputView::Conn(
                ConnEventView::FrameIn(FrameView::AssignNet { net_uuid }),
            ) ==> opened(final(self).deep_view().cfg).joining == net_uuid,
    {
        match e {
            AppInput::Conn(ConnEvent::Connected) => self.on_connected(),
            AppInput::Conn(ConnEvent::Disconnected) => self.on_disconnected(),
            AppInput::Conn(ConnEvent::FrameIn(f)) => self.on_server_frame(f),
            AppInput::User(c) => self.on_user_cmd(c),
            AppInput::Session(_) => self.on_session_evt(),
            AppInput::Closed => self.end(),
        }
    }
}

// ── Laws ─────────────────────────────────────────────────────────────────
/// Whether the parts of the state fit together: there is a session exactly
/// where the client is in a network, and that is the network it wants; and the
/// late requests are among those without an answer.
pub open spec fn settled(s: AppView) -> bool {
    &&& s.session == s.joined is Some
    &&& s.session ==> s.joining == s.joined
    &&& s.late <= s.unanswered
}

/// Whether the network that the client is in is the one that the next start
/// of the client asks for.
pub open spec fn remembers(s: AppView) -> bool {
    s.session ==> wanted(s.cfg.client.joined_network) == s.joined
}

/// Whether an action asks the server to be let into `net`.
pub open spec fn asks_for(a: AppActView, net: Uuid) -> bool {
    a == AppActView::Send(FrameView::Join { net_uuid: net })
}

/// A controller starts settled.
pub proof fn law_start_is_settled(cfg: ClientConfigView)
    ensures
        settled(opened(cfg)),
        remembers(opened(cfg)),
{
}

/// Until it stops, a controller stays settled, and so it does when a TAP that
/// it asked for was created or not.
pub proof fn law_step_keeps_settled(s: AppView, e: AppInputView, failure: Seq<char>)
    requires
        settled(s),
    ensures
        ({
            let (t, acts, next) = handled(s, e);
            &&& !(next is Stop) ==> settled(t)
            &&& next matches NextView::CreateTap(p) ==> settled(tap_created(t, p).0) && settled(
                tap_failed(t, failure).0,
            )
        }),
{
}

/// A TAP is asked for only by a client without a session, for the network that
/// it wants.
pub proof fn law_one_tap_at_a_time(s: AppView, e: AppInputView)
    requires
        settled(s),
    ensures
        handled(s, e).2 matches NextView::CreateTap(p) ==> !s.session && s.joining == Some(p.net),
{
}

/// The server is asked for a network only after an acknowledged handshake, and
/// only for the one that the client wants.
pub proof fn law_no_join_before_handshake(s: AppView, e: AppInputView, net: Uuid)
    ensures
        ({
            let (t, acts, next) = handled(s, e);
            (exists|i: int| 0 <= i < acts.len() && asks_for(#[trigger] acts[i], net)) ==> t.acked
                && t.joining == Some(net)
        }),
{
}

/// The network that the client wants survives the loss of the connection: the
/// next handshake asks for it.
pub proof fn law_intent_survives_reconnect(s: AppView, server_id: Uuid, caps: u32)
    ensures
        ({
            let t = handled(s, AppInputView::Conn(ConnEventView::Disconnected)).0;
            let u = handled(t, AppInputView::Conn(ConnEventView::Connected)).0;
            let ack = FrameView::HelloAck {
                version: PROTOCOL_VERSION,
                server_id: server_id,
                caps: caps,
            };
            let (v, acts, next) = handled(u, AppInputView::Conn(ConnEventView::FrameIn(ack)));
            &&& v == AppView {
                acked: true,
                unanswered: if s.joining is Some {
                    1
                } else {
                    0
                },
                late: 0,
                ..s
            }
            &&& next == NextView::Go
            &&& acts == match s.joining {
                Some(net) => seq![AppActView::Send(FrameView::Join { net_uuid: net })],
                None => Seq::<AppActView>::empty(),
            }
        }),
{
}

/// A session outlives the connection: when the client is let in again, the
/// session gets the new connection, and no other TAP is created.
pub proof fn law_session_survives_reconnect(s: AppView, suffix: Seq<char>, ip: Option<Seq<char>>)
    requires
        settled(s),
        s.session,
    ensures
        ({
            let t = handled(s, AppInputView::Conn(ConnEventView::Disconnected)).0;
            let u = handled(t, AppInputView::Conn(ConnEventView::Connected)).0;
            let ok = FrameView::JoinOk { tap_suffix: suffix, ip: ip };
            let (v, acts, next) = handled(u, AppInputView::Conn(ConnEventView::FrameIn(ok)));
            &&& t.session && t.joined == s.joined
            &&& v == answered(u) && v.session && v.joined == s.joined
            &&& next == NextView::Go
            &&& acts[0] == AppActView::ToSession(CmdView::BindConn(only_conn()))
            &&& ip is Some ==> acts[1] == AppActView::ToSession(CmdView::SetIp(ip))
        }),
{
}

/// A client whose request was refused, and not late, or that left, has no
/// session and wants no network, not even after a restart.
pub proof fn law_refused_or_left_is_out(s: AppView, reason: Seq<char>)
    ensures
        s.late == 0 ==> ({
            let deny = FrameView::JoinDeny { reason: reason };
            let (t, acts, next) = handled(s, AppInputView::Conn(ConnEventView::FrameIn(deny)));
            &&& !t.session && t.joining is None && t.joined is None
            &&& opened(t.cfg).joining is None
            &&& s.session ==> acts.contains(AppActView::ToSession(CmdView::Kill))
        }),
        ({
            let (t, acts, next) = handled(s, AppInputView::User(UserView::Leave));
            &&& !t.session && t.joining is None && t.joined is None
            &&& t.tap_name is None && t.tap_ip is None
            &&& opened(t.cfg).joining is None
            &&& s.session ==> acts.contains(AppActView::ToSession(CmdView::Kill))
        }),
{
    if s.session {
        if s.late == 0 {
            let a = join_deny(s, reason).1;
            assert(a[1] == AppActView::ToSession(CmdView::Kill));
        }
        let b = user_leave(s).1;
        assert(b[0] == AppActView::ToSession(CmdView::Kill));
    }
}

/// Where the server moves the client elsewhere, its session ends; where it
/// confirms the network that the client is in, the session goes on untouched.
pub proof fn law_assignment_is_obeyed(s: AppView, net: Option<Uuid>)
    requires
        settled(s),
    ensures
        ({
            let f = FrameView::AssignNet { net_uuid: net };
            let (t, acts, next) = handled(s, AppInputView::Conn(ConnEventView::FrameIn(f)));
            &&& t.joining == net
            &&& s.session && s.joined == net ==> t.session && t.joined == s.joined && t.tap_name
                == s.tap_name && t.tap_ip == s.tap_ip && !acts.contains(
                AppActView::ToSession(CmdView::Kill),
            )
            &&& s.session && s.joined != net ==> !t.session && acts.contains(
                AppActView::ToSession(CmdView::Kill),
            )
            &&& s.acked && net is Some ==> asks_for(acts.last(), net->0)
        }),
{
    let a = assign_net(s, net).1;
    if s.session && s.joined != net {
        assert(a[0] == AppActView::ToSession(CmdView::Kill));
    }
}

/// The client after answers to its requests to join, where every TAP that it
/// asks for is created.
pub open spec fn after_answers(s: AppView, answers: Seq<FrameView>) -> AppView
    decreases answers.len(),
{
    if answers.len() == 0 {
        s
    } else {
        let t = after_answers(s, answers.drop_last());
        let (u, acts, next) = server_frame(t, answers.last());
        match next {
            NextView::CreateTap(p) => tap_created(u, p).0,
            _ => u,
        }
    }
}

/// Once the server said where the client belongs, the answers to requests that
/// were under way do not undo it: the client goes on wanting that network, and
/// a restart asks for it. The first acceptance lets the client in.
pub proof fn law_late_answers_keep_the_assignment(
    s: AppView,
    net: Uuid,
    answers: Seq<FrameView>,
    suffix: Seq<char>,
    ip: Option<Seq<char>>,
)
    requires
        answers.len() <= s.unanswered,
        forall|i: int|
            0 <= i < answers.len() ==> #[trigger] answers[i] is JoinOk || answers[i] is JoinDeny,
    ensures
        ({
            let t = assign_net(s, Some(net)).0;
            let u = after_answers(t, answers);
            &&& u.joining == Some(net)
            &&& u.cfg.client.joined_network == uuids::uuid_chars(net)
            &&& u.late == s.unanswered - answers.len()
            &&& t.session ==> u.session && u.joined == t.joined
            &&& u.joined == Some(net) || (join_ok(u, suffix, ip).2 matches NextView::CreateTap(p)
                && p.net == net)
        }),
    decreases answers.len(),
{
    if answers.len() > 0 {
        let front = answers.drop_last();
        assert forall|i: int| 0 <= i < front.len() implies #[trigger] front[i] is JoinOk
            || front[i] is JoinDeny by {
            assert(front[i] == answers[i]);
        }
        assert(answers[answers.len() - 1] == answers.last());
        law_late_answers_keep_the_assignment(s, net, front, suffix, ip);
    }
}

/// Whatever changes in the configuration is written at once.
pub proof fn law_every_change_is_saved(s: AppView, e: AppInputView)
    ensures
        handled(s, e).0.cfg != s.cfg ==> handled(s, e).1.contains(AppActView::Persist),
{
    let (t, acts, next) = handled(s, e);
    if t.cfg != s.cfg {
        match e {
            AppInputView::Conn(ConnEventView::FrameIn(FrameView::JoinDeny { .. })) => {
                assert(acts.last() == AppActView::Persist);
            },
            AppInputView::Conn(ConnEventView::FrameIn(FrameView::AssignNet { net_uuid })) => {
                let k = if net_uuid is Some && s.joined == net_uuid {
                    0
                } else {
                    tell(s, CmdView::Kill).len() as int
                };
                assert(acts[k] == AppActView::Persist);
            },
            AppInputView::Conn(ConnEventView::FrameIn(FrameView::SetIp { ip })) => {
                assert(acts[tell(s, CmdView::SetIp(ip)).len() as int] == AppActView::Persist);
            },
            AppInputView::Conn(ConnEventView::FrameIn(FrameView::SetRoutes(r))) => {
                assert(acts[tell(s, CmdView::SetRoutes(r)).len() as int] == AppActView::Persist);
            },
            _ => {
                assert(acts[tell(s, CmdView::Kill).len() as int] == AppActView::Persist);
            },
        }
    }
}

/// Whoever has no session is told nothing for it.
pub proof fn law_no_session_no_commands(s: AppView, e: AppInputView)
    requires
        !s.session,
    ensures
        forall|i: int|
            0 <= i < handled(s, e).1.len() ==> !(#[trigger] handled(s, e).1[i] is ToSession),
{
}

/// Ethernet frames of the server reach the session unchanged, and heartbeats
/// are answered with their number, whatever the state.
pub proof fn law_frames_are_passed_on(s: AppView, b: Seq<u8>, nonce: u64)
    ensures
        server_frame(s, FrameView::Eth(b)) == (s, tell(s, CmdView::EthIn(b)), NextView::Go),
        server_frame(s, FrameView::Ping(nonce)) == (
            s,
            seq![AppActView::Answer(FrameView::Pong(nonce))],
            NextView::Go,
        ),
{
}

} // verus!
