//! A session: one client's TAP, across reconnects.
//!
//! ```text
//!                  ┌────── bind ──────────┐
//!                  │                      ▼
//!                Joined ◀──── bind ── Disconnected
//!                  │                      │
//!          kill /  │                      │  timeout / kill /
//!       TAP error  │                      │  hub gone
//!                  ▼                      ▼
//!                 Dead ◀──────────────────┘
//! ```
//!
//! A session starts joined, because it is created when a join was approved. It
//! forwards Ethernet frames both ways, and says once that it died. The state
//! machine does no I/O: each input gives the actions to carry out, and what
//! came of an action is the next input.
use vstd::prelude::*;
use vstd::string::*;

use crate::addr;
use crate::addr::{IpAddr, IpNet};
use crate::frame::{RouteEntry, RouteView};
use crate::ids::{ConnId, SessionId};
use crate::routes;
use crate::text;

verus! {

/// How long a session outlives its connection by default, in seconds.
pub const DEFAULT_DISCONNECT_TIMEOUT: u64 = 60;

/// How long a session outlives its connection, in milliseconds; `None` for as
/// long as it takes.
pub type DisconnectTimeout = Option<u64>;

/// What a session is told.
#[derive(Debug)]
pub enum SessionCmd {
    /// Send frames out through this connection.
    BindConn(ConnId),
    /// The connection is gone.
    UnbindConn,
    /// Write an Ethernet frame to the TAP.
    EthIn(Vec<u8>),
    /// Replace the TAP's address; `None` clears it.
    SetIp(Option<String>),
    /// Replace the TAP's routing table.
    SetRoutes(Vec<RouteEntry>),
    /// End.
    Kill,
}

/// The content of a [`SessionCmd`].
#[verifier::ext_equal]
pub enum CmdView {
    BindConn(ConnId),
    UnbindConn,
    EthIn(Seq<u8>),
    SetIp(Option<Seq<char>>),
    SetRoutes(Seq<RouteView>),
    Kill,
}

impl DeepView for SessionCmd {
    type V = CmdView;

    open spec fn deep_view(&self) -> CmdView {
        match self {
            SessionCmd::BindConn(c) => CmdView::BindConn(*c),
            SessionCmd::UnbindConn => CmdView::UnbindConn,
            SessionCmd::EthIn(f) => CmdView::EthIn(f@),
            SessionCmd::SetIp(ip) => CmdView::SetIp(ip.deep_view()),
            SessionCmd::SetRoutes(r) => CmdView::SetRoutes(r.deep_view()),
            SessionCmd::Kill => CmdView::Kill,
        }
    }
}

/// Why a session died.
#[derive(Debug, Clone, PartialEq, Eq)]
pub enum DeathReason {
    /// No connection came back in time.
    Timeout,
    /// It was told to.
    HubKill,
    /// The TAP failed.
    TapError(String),
    /// There is nobody left to tell it anything.
    HubGone,
}

/// The content of a [`DeathReason`].
#[verifier::ext_equal]
pub enum ReasonView {
    Timeout,
    HubKill,
    TapError(Seq<char>),
    HubGone,
}

impl DeepView for DeathReason {
    type V = ReasonView;

    open spec fn deep_view(&self) -> ReasonView {
        match self {
            DeathReason::Timeout => ReasonView::Timeout,
            DeathReason::HubKill => ReasonView::HubKill,
            DeathReason::TapError(m) => ReasonView::TapError(m@),
            DeathReason::HubGone => ReasonView::HubGone,
        }
    }
}

impl DeathReason {
    /// A copy of this reason.
    pub fn copy(&self) -> (r: DeathReason)
        ensures
            r.deep_view() == self.deep_view(),
    {
        match self {
            DeathReason::Timeout => DeathReason::Timeout,
            DeathReason::HubKill => DeathReason::HubKill,
            DeathReason::TapError(m) => DeathReason::TapError(m.clone()),
            DeathReason::HubGone => DeathReason::HubGone,
        }
    }
}

/// What a session says of itself.
#[derive(Debug)]
pub enum SessionEvt {
    Died { sid: SessionId, reason: DeathReason },
}

/// The content of a [`SessionEvt`].
#[verifier::ext_equal]
pub enum EvtView {
    Died { sid: SessionId, reason: ReasonView },
}

impl DeepView for SessionEvt {
    type V = EvtView;

    open spec fn deep_view(&self) -> EvtView {
        match self {
            SessionEvt::Died { sid, reason } => EvtView::Died {
                sid: *sid,
                reason: reason.deep_view(),
            },
        }
    }
}

/// What happens to a session.
#[derive(Debug)]
pub enum SessionInput {
    /// It is told something.
    Cmd(SessionCmd),
    /// There is nobody left to tell it anything.
    HubGone,
    /// A frame was read from the TAP.
    TapRead(Vec<u8>),
    /// A frame of this length was written to the TAP.
    TapWritten(u64),
    /// The TAP failed.
    TapFailed(String),
    /// A frame of this length was handed to the connection.
    Sent(u64),
    /// The connection takes no frames any more.
    ConnGone,
    /// The time is up.
    DeadlinePassed,
}

/// The content of a [`SessionInput`].
#[verifier::ext_equal]
pub enum InputView {
    Cmd(CmdView),
    HubGone,
    TapRead(Seq<u8>),
    TapWritten(u64),
    TapFailed(Seq<char>),
    Sent(u64),
    ConnGone,
    DeadlinePassed,
}

impl DeepView for SessionInput {
    type V = InputView;

    open spec fn deep_view(&self) -> InputView {
        match self {
            SessionInput::Cmd(c) => InputView::Cmd(c.deep_view()),
            SessionInput::HubGone => InputView::HubGone,
            SessionInput::TapRead(f) => InputView::TapRead(f@),
            SessionInput::TapWritten(n) => InputView::TapWritten(*n),
            SessionInput::TapFailed(m) => InputView::TapFailed(m@),
            SessionInput::Sent(n) => InputView::Sent(*n),
            SessionInput::ConnGone => InputView::ConnGone,
            SessionInput::DeadlinePassed => InputView::DeadlinePassed,
        }
    }
}

/// One thing for the surroundings to do.
#[derive(Debug)]
pub enum SessionAction {
    /// Write a frame to the TAP; the outcome is `TapWritten` or `TapFailed`.
    WriteTap(Vec<u8>),
    /// Replace the TAP's address.
    SetTapIp(Option<IpNet>),
    /// Replace the TAP's routing table.
    ApplyRoutes(Vec<addr::RouteEntry>),
    /// Hand a frame to the connection; the outcome is `Sent` or `ConnGone`.
    SendEth { conn: ConnId, frame: Vec<u8> },
    /// Destroy the TAP.
    DestroyTap,
    /// Say it.
    Tell(SessionEvt),
}

/// The content of a [`SessionAction`].
#[verifier::ext_equal]
pub enum ActionView {
    WriteTap(Seq<u8>),
    SetTapIp(Option<IpNet>),
    ApplyRoutes(Seq<addr::RouteEntry>),
    SendEth { conn: ConnId, frame: Seq<u8> },
    DestroyTap,
    Tell(EvtView),
}

impl DeepView for SessionAction {
    type V = ActionView;

    open spec fn deep_view(&self) -> ActionView {
        match self {
            SessionAction::WriteTap(f) => ActionView::WriteTap(f@),
            SessionAction::SetTapIp(ip) => ActionView::SetTapIp(*ip),
            SessionAction::ApplyRoutes(r) => ActionView::ApplyRoutes(r@),
            SessionAction::SendEth { conn, frame } => ActionView::SendEth {
                conn: *conn,
                frame: frame@,
            },
            SessionAction::DestroyTap => ActionView::DestroyTap,
            SessionAction::Tell(e) => ActionView::Tell(e.deep_view()),
        }
    }
}

/// Where a session is.
#[derive(Debug)]
pub enum LoopState {
    /// Frames flow through this connection.
    Joined { conn: ConnId },
    /// No connection; the session ends at this time, if any.
    Disconnected { deadline: Option<u64> },
    Dead { reason: DeathReason },
}

/// The content of a [`LoopState`].
#[verifier::ext_equal]
pub enum StateView {
    Joined { conn: ConnId },
    Disconnected { deadline: Option<u64> },
    Dead { reason: ReasonView },
}

impl DeepView for LoopState {
    type V = StateView;

    open spec fn deep_view(&self) -> StateView {
        match self {
            LoopState::Joined { conn } => StateView::Joined { conn: *conn },
            LoopState::Disconnected { deadline } => StateView::Disconnected {
                deadline: *deadline,
            },
            LoopState::Dead { reason } => StateView::Dead { reason: reason.deep_view() },
        }
    }
}

/// The state machine of a session.
#[derive(Debug)]
pub struct SessionTask {
    pub sid: SessionId,
    pub disconnect_timeout: DisconnectTimeout,
    pub state: LoopState,
    /// Bytes written to the TAP.
    pub bytes_in: u64,
    /// Bytes read from the TAP and sent.
    pub bytes_out: u64,
}

/// The content of a [`SessionTask`].
#[verifier::ext_equal]
pub struct TaskView {
    pub sid: SessionId,
    pub timeout: DisconnectTimeout,
    pub state: StateView,
    pub bytes_in: u64,
    pub bytes_out: u64,
}

impl DeepView for SessionTask {
    type V = TaskView;

    open spec fn deep_view(&self) -> TaskView {
        TaskView {
            sid: self.sid,
            timeout: self.disconnect_timeout,
            state: self.state.deep_view(),
            bytes_in: self.bytes_in,
            bytes_out: self.bytes_out,
        }
    }
}

// ── What the machine does ────────────────────────────────────────────────
/// When a session ends that loses its connection at `now`.
pub open spec fn deadline(now: u64, timeout: DisconnectTimeout) -> Option<u64> {
    match timeout {
        Some(t) => Some(
            if now + t > u64::MAX {
                u64::MAX
            } else {
                (now + t) as u64
            },
        ),
        None => None,
    }
}

/// An address as a client is told it: with a prefix, or bare, which stands for
/// the one host.
pub open spec fn ip_told(ip: Option<Seq<char>>) -> Option<IpNet> {
    match ip {
        None => None,
        Some(s) => {
            let raw = text::trimmed(s);
            if raw.len() == 0 {
                None
            } else {
                match addr::net_parsed(raw) {
                    Some(n) => Some(n),
                    None => match addr::ip_parsed(raw) {
                        Some(IpAddr::V4(a)) => Some(IpNet { addr: IpAddr::V4(a), prefix: 32 }),
                        Some(IpAddr::V6(a)) => Some(IpNet { addr: IpAddr::V6(a), prefix: 128 }),
                        None => None,
                    },
                }
            }
        },
    }
}

/// The state after an input, and what there is to do.
pub type Step = (TaskView, Seq<ActionView>);

/// The session dies.
pub open spec fn die(s: TaskView, reason: ReasonView) -> Step {
    (
        TaskView { state: StateView::Dead { reason: reason }, ..s },
        seq![
            ActionView::DestroyTap,
            ActionView::Tell(EvtView::Died { sid: s.sid, reason: reason }),
        ],
    )
}

/// The session loses its connection.
pub open spec fn unbound(s: TaskView, now: u64) -> TaskView {
    TaskView { state: StateView::Disconnected { deadline: deadline(now, s.timeout) }, ..s }
}

/// `a + b`, modulo 2^64.
pub open spec fn counted(a: u64, b: u64) -> u64 {
    ((a + b) % 0x1_0000_0000_0000_0000) as u64
}

/// What a joined session does.
pub open spec fn joined_step(s: TaskView, conn: ConnId, now: u64, e: InputView) -> Step {
    match e {
        InputView::HubGone => die(s, ReasonView::HubGone),
        InputView::Cmd(c) => match c {
            CmdView::Kill => die(s, ReasonView::HubKill),
            CmdView::UnbindConn => (unbound(s, now), Seq::empty()),
            CmdView::BindConn(new) => (
                TaskView { state: StateView::Joined { conn: new }, ..s },
                Seq::empty(),
            ),
            CmdView::EthIn(f) => (s, seq![ActionView::WriteTap(f)]),
            CmdView::SetIp(ip) => (s, seq![ActionView::SetTapIp(ip_told(ip))]),
            CmdView::SetRoutes(r) => (s, seq![ActionView::ApplyRoutes(routes::parse_all(r))]),
        },
        InputView::TapRead(f) => (s, seq![ActionView::SendEth { conn: conn, frame: f }]),
        InputView::TapWritten(n) => (
            TaskView { bytes_in: counted(s.bytes_in, n), ..s },
            Seq::empty(),
        ),
        InputView::TapFailed(m) => die(s, ReasonView::TapError(m)),
        InputView::Sent(n) => (
            TaskView { bytes_out: counted(s.bytes_out, n), ..s },
            Seq::empty(),
        ),
        InputView::ConnGone => (unbound(s, now), Seq::empty()),
        InputView::DeadlinePassed => (s, Seq::empty()),
    }
}

/// What a session without a connection does: it waits for a connection or its
/// end, and ignores everything else.
pub open spec fn disconnected_step(
    s: TaskView,
    deadline: Option<u64>,
    now: u64,
    e: InputView,
) -> Step {
    match e {
        InputView::HubGone => die(s, ReasonView::HubGone),
        InputView::Cmd(CmdView::Kill) => die(s, ReasonView::HubKill),
        InputView::Cmd(CmdView::BindConn(new)) => (
            TaskView { state: StateView::Joined { conn: new }, ..s },
            Seq::empty(),
        ),
        InputView::DeadlinePassed => match deadline {
            Some(d) => if now >= d {
                die(s, ReasonView::Timeout)
            } else {
                (s, Seq::empty())
            },
            None => (s, Seq::empty()),
        },
        _ => (s, Seq::empty()),
    }
}

/// What a session does with an input at a time.
pub open spec fn step(s: TaskView, now: u64, e: InputView) -> Step {
    match s.state {
        StateView::Joined { conn } => joined_step(s, conn, now, e),
        StateView::Disconnected { deadline } => disconnected_step(s, deadline, now, e),
        StateView::Dead { reason } => (s, Seq::empty()),
    }
}

/// Reads an address as a client is told it: with a prefix, or bare, which
/// stands for the one host.
pub fn parse_ip_cidr(s: Option<&str>) -> (r: Option<IpNet>)
    ensures
        r == ip_told(
            match s {
                Some(t) => Some(t@),
                None => None,
            },
        ),
{
    let raw: &str = match s {
        None => {
            return None;
        },
        Some(t) => text::trim(t),
    };
    if raw.is_empty() {
        return None;
    }
    match IpNet::parse(raw) {
        Some(n) => Some(n),
        None => match IpAddr::parse(raw) {
            Some(IpAddr::V4(a)) => Some(IpNet { addr: IpAddr::V4(a), prefix: 32 }),
            Some(IpAddr::V6(a)) => Some(IpNet { addr: IpAddr::V6(a), prefix: 128 }),
            None => None,
        },
    }
}

/// One action.
fn only(a: SessionAction) -> (r: Vec<SessionAction>)
    ensures
        r.deep_view() == seq![a.deep_view()],
{
    let mut out: Vec<SessionAction> = Vec::new();
    out.push(a);
    assert(out.deep_view() =~= seq![a.deep_view()]);
    out
}

/// No action.
fn nothing() -> (r: Vec<SessionAction>)
    ensures
        r.deep_view() == Seq::<ActionView>::empty(),
{
    let out: Vec<SessionAction> = Vec::new();
    assert(out.deep_view() =~= Seq::<ActionView>::empty());
    out
}

impl SessionTask {
    /// A session that has just been approved.
    pub fn new(sid: SessionId, conn: ConnId, disconnect_timeout: DisconnectTimeout) -> (r:
        SessionTask)
        ensures
            r.deep_view() == (TaskView {
                sid: sid,
                timeout: disconnect_timeout,
                state: StateView::Joined { conn: conn },
                bytes_in: 0,
                bytes_out: 0,
            }),
    {
        SessionTask {
            sid: sid,
            disconnect_timeout: disconnect_timeout,
            state: LoopState::Joined { conn: conn },
            bytes_in: 0,
            bytes_out: 0,
        }
    }

    /// Whether frames should be read from the TAP.
    pub fn reads_tap(&self) -> (r: bool)
        ensures
            r == (self.deep_view().state is Joined),
    {
        match self.state {
            LoopState::Joined { .. } => true,
            _ => false,
        }
    }

    /// The time to wake the session at, if any.
    pub fn wakes_at(&self) -> (r: Option<u64>)
        ensures
            r == match self.deep_view().state {
                StateView::Disconnected { deadline } => deadline,
                _ => None,
            },
    {
        match self.state {
            LoopState::Disconnected { deadline } => deadline,
            _ => None,
        }
    }

    /// Whether the session has ended.
    pub fn is_dead(&self) -> (r: bool)
        ensures
            r == (self.deep_view().state is Dead),
    {
        match self.state {
            LoopState::Dead { .. } => true,
            _ => false,
        }
    }

    fn die(&mut self, reason: DeathReason) -> (r: Vec<SessionAction>)
        ensures
            final(self).deep_view() == die(old(self).deep_view(), reason.deep_view()).0,
            r.deep_view() == die(old(self).deep_view(), reason.deep_view()).1,
    {
        let ghost s = self.deep_view();
        let ghost why = reason.deep_view();
        let mut out = only(SessionAction::DestroyTap);
        let ghost first = out.deep_view();
        let told = SessionAction::Tell(SessionEvt::Died { sid: self.sid, reason: reason.copy() });
        out.push(told);
        assert(out.deep_view() =~= first.push(told.deep_view()));
        self.state = LoopState::Dead { reason: reason };
        assert(out.deep_view() =~= die(s, why).1);
        out
    }

    fn unbind(&mut self, now: u64)
        ensures
            final(self).deep_view() == unbound(old(self).deep_view(), now),
    {
        let d: Option<u64> = match self.disconnect_timeout {
            Some(t) => Some(
                if t > u64::MAX - now {
                    u64::MAX
                } else {
                    now + t
                },
            ),
            None => None,
        };
        self.state = LoopState::Disconnected { deadline: d };
    }

    fn tick_joined(&mut self, conn: ConnId, now: u64, e: SessionInput) -> (r: Vec<SessionAction>)
        requires
            old(self).deep_view().state == (StateView::Joined { conn: conn }),
        ensures
            final(self).deep_view() == joined_step(
                old(self).deep_view(),
                conn,
                now,
                e.deep_view(),
            ).0,
            r.deep_view() == joined_step(old(self).deep_view(), conn, now, e.deep_view()).1,
    {
        match e {
            SessionInput::HubGone => self.die(DeathReason::HubGone),
            SessionInput::Cmd(c) => match c {
                SessionCmd::Kill => self.die(DeathReason::HubKill),
                SessionCmd::UnbindConn => {
                    self.unbind(now);
                    nothing()
                },
                SessionCmd::BindConn(new) => {
                    self.state = LoopState::Joined { conn: new };
                    nothing()
                },
                SessionCmd::EthIn(f) => only(SessionAction::WriteTap(f)),
                SessionCmd::SetIp(ip) => {
                    let told: Option<&str> = match &ip {
                        Some(s) => Some(s.as_str()),
                        None => None,
                    };
                    only(SessionAction::SetTapIp(parse_ip_cidr(told)))
                },
                SessionCmd::SetRoutes(r) => only(
                    SessionAction::ApplyRoutes(routes::parse_routes(&r)),
                ),
            },
            SessionInput::TapRead(f) => only(SessionAction::SendEth { conn: conn, frame: f }),
            SessionInput::TapWritten(n) => {
                self.bytes_in = self.bytes_in.wrapping_add(n);
                nothing()
            },
            SessionInput::TapFailed(m) => self.die(DeathReason::TapError(m)),
            SessionInput::Sent(n) => {
                self.bytes_out = self.bytes_out.wrapping_add(n);
                nothing()
            },
            SessionInput::ConnGone => {
                self.unbind(now);
                nothing()
            },
            SessionInput::DeadlinePassed => nothing(),
        }
    }

    fn tick_disconnected(&mut self, deadline: Option<u64>, now: u64, e: SessionInput) -> (r: Vec<
        SessionAction,
    >)
        requires
            old(self).deep_view().state == (StateView::Disconnected { deadline: deadline }),
        ensures
            final(self).deep_view() == disconnected_step(
                old(self).deep_view(),
                deadline,
                now,
                e.deep_view(),
            ).0,
            r.deep_view() == disconnected_step(
                old(self).deep_view(),
                deadline,
                now,
                e.deep_view(),
            ).1,
    {
        match e {
            SessionInput::HubGone => self.die(DeathReason::HubGone),
            SessionInput::Cmd(SessionCmd::Kill) => self.die(DeathReason::HubKill),
            SessionInput::Cmd(SessionCmd::BindConn(new)) => {
                self.state = LoopState::Joined { conn: new };
                nothing()
            },
            SessionInput::DeadlinePassed => match deadline {
                Some(d) => if now >= d {
                    self.die(DeathReason::Timeout)
                } else {
                    nothing()
                },
                None => nothing(),
            },
            _ => nothing(),
        }
    }

    /// Takes one input at a time given in milliseconds.
    pub fn step(&mut self, now: u64, e: SessionInput) -> (r: Vec<SessionAction>)
        ensures
            final(self).deep_view() == step(old(self).deep_view(), now, e.deep_view()).0,
            r.deep_view() == step(old(self).deep_view(), now, e.deep_view()).1,
    {
        match &self.state {
            LoopState::Joined { conn } => {
                let id = *conn;
                self.tick_joined(id, now, e)
            },
            LoopState::Disconnected { deadline } => {
                let d = *deadline;
                self.tick_disconnected(d, now, e)
            },
            LoopState::Dead { .. } => nothing(),
        }
    }
}

// ── Laws ─────────────────────────────────────────────────────────────────
/// Whether an action says that the session died.
pub open spec fn is_death(a: ActionView) -> bool {
    a is Tell
}

/// A dead session stays dead, and does nothing.
pub proof fn law_death_is_final(s: TaskView, now: u64, e: InputView)
    requires
        s.state is Dead,
    ensures
        step(s, now, e) == (s, Seq::<ActionView>::empty()),
{
}

/// A session says that it died when it does, with the reason, after it ordered
/// the TAP destroyed; and at no other time.
pub proof fn law_death_is_told_once(s: TaskView, now: u64, e: InputView)
    ensures
        ({
            let (t, acts) = step(s, now, e);
            if !(s.state is Dead) && t.state is Dead {
                acts == seq![
                    ActionView::DestroyTap,
                    ActionView::Tell(
                        EvtView::Died { sid: s.sid, reason: t.state->Dead_reason },
                    ),
                ]
            } else {
                forall|i: int|
                    0 <= i < acts.len() ==> !is_death(#[trigger] acts[i]) && !(
                    acts[i] is DestroyTap)
            }
        }),
{
}

/// Whether a session keeps to its timeout: it has a deadline only where it has
/// a timeout.
pub open spec fn patient(s: TaskView) -> bool {
    s.timeout is None ==> match s.state {
        StateView::Disconnected { deadline } => deadline is None,
        StateView::Dead { reason } => !(reason is Timeout),
        _ => true,
    }
}

/// A session without a timeout never dies of one, however long it waits.
pub proof fn law_no_timeout_no_death_by_it(s: TaskView, now: u64, e: InputView)
    requires
        patient(s),
    ensures
        patient(step(s, now, e).0),
        step(s, now, e).0.timeout == s.timeout,
{
}

/// A session that loses its connection dies when its time is up, and not
/// before.
pub proof fn law_timeout_is_kept(s: TaskView, lost: u64, now: u64)
    requires
        s.state is Joined,
        s.timeout is Some,
    ensures
        ({
            let t = step(s, lost, InputView::Cmd(CmdView::UnbindConn)).0;
            let u = step(t, now, InputView::DeadlinePassed).0;
            &&& (lost + s.timeout->0 <= now ==> u.state == StateView::Dead {
                reason: ReasonView::Timeout,
            })
            &&& (now < lost + s.timeout->0 && now < u64::MAX ==> u == t)
        }),
{
}

/// A session that gets a connection back in between is as it was, but for the
/// connection.
pub proof fn law_rebinding_restores(s: TaskView, lost: u64, back: u64, conn: ConnId)
    requires
        s.state is Joined,
    ensures
        ({
            let t = step(s, lost, InputView::Cmd(CmdView::UnbindConn)).0;
            let u = step(t, back, InputView::Cmd(CmdView::BindConn(conn))).0;
            u == TaskView { state: StateView::Joined { conn: conn }, ..s }
        }),
{
}

/// What the TAP gives goes to the connection that was bound last, and what the
/// connection gives goes to the TAP, unchanged.
pub proof fn law_frames_are_forwarded(s: TaskView, now: u64, conn: ConnId, f: Seq<u8>)
    requires
        !(s.state is Dead),
    ensures
        ({
            let t = step(s, now, InputView::Cmd(CmdView::BindConn(conn))).0;
            &&& step(t, now, InputView::TapRead(f)) == (
                t,
                seq![ActionView::SendEth { conn: conn, frame: f }],
            )
            &&& step(t, now, InputView::Cmd(CmdView::EthIn(f))) == (
                t,
                seq![ActionView::WriteTap(f)],
            )
        }),
{
}

/// Killing a session that lives ends it at once, connected or not.
pub proof fn law_kill_is_immediate(s: TaskView, now: u64)
    requires
        !(s.state is Dead),
    ensures
        step(s, now, InputView::Cmd(CmdView::Kill)).0.state == (StateView::Dead {
            reason: ReasonView::HubKill,
        }),
        step(s, now, InputView::HubGone).0.state == (StateView::Dead {
            reason: ReasonView::HubGone,
        }),
{
}

/// The counters count what was forwarded.
pub proof fn law_counters_add_up(s: TaskView, now: u64, n: u64, m: u64)
    requires
        s.state is Joined,
        s.bytes_in + n + m <= u64::MAX,
    ensures
        ({
            let t = step(s, now, InputView::TapWritten(n)).0;
            let u = step(t, now, InputView::TapWritten(m)).0;
            u.bytes_in == s.bytes_in + n + m && u.bytes_out == s.bytes_out
        }),
{
}

/// An address as it is told is taken without the white space around it. With a
/// prefix it is taken as it is; a bare address stands for the one host; what is
/// neither, or empty, stands for none.
pub proof fn law_told_addresses(s: Seq<char>)
    ensures
        ip_told(None) is None,
        ({
            let raw = text::trimmed(s);
            ip_told(Some(s)) == if raw.len() == 0 {
                None
            } else if addr::net_parsed(raw) is Some {
                addr::net_parsed(raw)
            } else {
                match addr::ip_parsed(raw) {
                    Some(a) => Some(IpNet { addr: a, prefix: if a is V4 { 32 } else { 128 } }),
                    None => None,
                }
            }
        }),
{
}

/// A session whose connection is lost, in either way, has none, and ends after
/// its timeout, if it has one, counted from then. Nothing is done.
pub proof fn law_lost_connection_starts_the_clock(s: TaskView, now: u64, e: InputView)
    requires
        s.state is Joined,
        e == InputView::Cmd(CmdView::UnbindConn) || e is ConnGone,
    ensures
        ({
            let (t, acts) = step(s, now, e);
            &&& acts.len() == 0
            &&& t == TaskView { state: t.state, ..s }
            &&& t.state matches StateView::Disconnected { deadline } && match s.timeout {
                None => deadline is None,
                Some(w) => deadline == Some(
                    if now + w <= u64::MAX {
                        (now + w) as u64
                    } else {
                        u64::MAX
                    },
                ),
            }
        }),
{
}

/// What a session with a connection does with everything else: frames go
/// through unchanged, an address and routes go to the TAP, what was forwarded is
/// counted, and a TAP that fails ends the session. Otherwise it stays as it is.
pub proof fn law_joined_session(s: TaskView, conn: ConnId, now: u64, e: InputView)
    requires
        s.state == (StateView::Joined { conn: conn }),
    ensures
        ({
            let (t, acts) = step(s, now, e);
            let only = |a: ActionView| t == s && acts == seq![a];
            match e {
                InputView::Cmd(CmdView::EthIn(f)) => only(ActionView::WriteTap(f)),
                InputView::Cmd(CmdView::SetIp(ip)) => only(ActionView::SetTapIp(ip_told(ip))),
                InputView::Cmd(CmdView::SetRoutes(r)) => only(
                    ActionView::ApplyRoutes(routes::parse_all(r)),
                ),
                InputView::TapRead(f) => only(ActionView::SendEth { conn: conn, frame: f }),
                InputView::Cmd(CmdView::BindConn(new)) => acts.len() == 0 && t == (TaskView {
                    state: StateView::Joined { conn: new },
                    ..s
                }),
                InputView::TapWritten(n) => acts.len() == 0 && t == (TaskView {
                    bytes_in: t.bytes_in,
                    ..s
                }) && (s.bytes_in + n <= u64::MAX ==> t.bytes_in == s.bytes_in + n),
                InputView::Sent(n) => acts.len() == 0 && t == (TaskView {
                    bytes_out: t.bytes_out,
                    ..s
                }) && (s.bytes_out + n <= u64::MAX ==> t.bytes_out == s.bytes_out + n),
                InputView::DeadlinePassed => t == s && acts.len() == 0,
                InputView::TapFailed(m) => t == (TaskView {
                    state: StateView::Dead { reason: ReasonView::TapError(m) },
                    ..s
                }),
                InputView::Cmd(CmdView::Kill) => t == (TaskView {
                    state: StateView::Dead { reason: ReasonView::HubKill },
                    ..s
                }),
                InputView::HubGone => t == (TaskView {
                    state: StateView::Dead { reason: ReasonView::HubGone },
                    ..s
                }),
                _ => t.state is Disconnected,
            }
        }),
{
}

/// What a session without a connection does: it takes up a new one, ends when
/// it is told to or when its time is up, and lets everything else pass.
pub proof fn law_waiting_session(s: TaskView, deadline: Option<u64>, now: u64, e: InputView)
    requires
        s.state == (StateView::Disconnected { deadline: deadline }),
    ensures
        ({
            let (t, acts) = step(s, now, e);
            match e {
                InputView::Cmd(CmdView::BindConn(new)) => acts.len() == 0 && t == (TaskView {
                    state: StateView::Joined { conn: new },
                    ..s
                }),
                InputView::Cmd(CmdView::Kill) => t == (TaskView {
                    state: StateView::Dead { reason: ReasonView::HubKill },
                    ..s
                }),
                InputView::HubGone => t == (TaskView {
                    state: StateView::Dead { reason: ReasonView::HubGone },
                    ..s
                }),
                InputView::DeadlinePassed => if deadline is Some && now >= deadline->0 {
                    t == (TaskView { state: StateView::Dead { reason: ReasonView::Timeout }, ..s })
                } else {
                    t == s && acts.len() == 0
                },
                _ => t == s && acts.len() == 0,
            }
        }),
{
}

} // verus!
