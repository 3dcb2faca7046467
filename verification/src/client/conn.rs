//! The client's connection: connecting, and connecting again.
//!
//! ```text
//!  Connecting ── ok ──▶ Open ── lost ──▶ Waiting
//!      ▲  └── failed ──────────────────▶   │
//!      └──────────── time is up ──────────┘
//! ```
//!
//! What is to be sent while there is no connection waits for the next one. The
//! machine ends when the controller is gone.
use vstd::prelude::*;

use crate::client::app::{ConnEvent, ConnEventView};
use crate::config::ClientConfig;
use crate::frame::{Frame, FrameView};

verus! {

/// The size of the kernel's send buffer, in bytes. A small one shows
/// congestion to whoever sends through the tunnel.
pub const SEND_BUFFER: usize = 262144;

/// Where to connect to, and through which proxy, if any.
#[derive(Debug, Clone, PartialEq, Eq)]
pub struct Dial {
    pub host: String,
    pub port: u16,
    pub proxy: Option<(String, u16)>,
}

/// Where to connect to, and through which proxy, if it is enabled.
pub fn dial(cfg: &ClientConfig) -> (r: Dial)
    ensures
        ({
            let c = cfg.deep_view();
            &&& r.host@ == c.client.host
            &&& r.port == c.client.port
            &&& match r.proxy {
                Some(p) => c.proxy.enabled && p.0@ == c.proxy.host && p.1 == c.proxy.port,
                None => !c.proxy.enabled,
            }
        }),
{
    Dial {
        host: cfg.client.host.clone(),
        port: cfg.client.port,
        proxy: if cfg.proxy.enabled {
            Some((cfg.proxy.host.clone(), cfg.proxy.port))
        } else {
            None
        },
    }
}

/// Where the connection is.
#[derive(Debug, Clone, Copy, PartialEq, Eq, Structural)]
pub enum LinkPhase {
    Connecting,
    Open,
    /// Before the next attempt.
    Waiting,
    Over,
}

/// What happens to the connection.
#[derive(Debug)]
pub enum LinkInput {
    Connected,
    ConnectFailed,
    /// A frame was read.
    Read(Frame),
    /// Nothing can be read any more: it is closed, or what came is no frame.
    ReadEnded,
    /// The controller has a frame to send.
    Outgoing(Frame),
    WriteFailed,
    /// The controller will send nothing any more.
    OutgoingClosed,
    /// The controller hears nothing any more.
    ControllerGone,
    /// The time to wait is over.
    Woke,
}

/// The content of a [`LinkInput`].
#[verifier::ext_equal]
pub enum LinkInputView {
    Connected,
    ConnectFailed,
    Read(FrameView),
    ReadEnded,
    Outgoing(FrameView),
    WriteFailed,
    OutgoingClosed,
    ControllerGone,
    Woke,
}

impl DeepView for LinkInput {
    type V = LinkInputView;

    open spec fn deep_view(&self) -> LinkInputView {
        match self {
            LinkInput::Connected => LinkInputView::Connected,
            LinkInput::ConnectFailed => LinkInputView::ConnectFailed,
            LinkInput::Read(f) => LinkInputView::Read(f.deep_view()),
            LinkInput::ReadEnded => LinkInputView::ReadEnded,
            LinkInput::Outgoing(f) => LinkInputView::Outgoing(f.deep_view()),
            LinkInput::WriteFailed => LinkInputView::WriteFailed,
            LinkInput::OutgoingClosed => LinkInputView::OutgoingClosed,
            LinkInput::ControllerGone => LinkInputView::ControllerGone,
            LinkInput::Woke => LinkInputView::Woke,
        }
    }
}

/// One thing for the surroundings to do.
#[derive(Debug)]
pub enum LinkAction {
    /// Connect; the outcome is `Connected` or `ConnectFailed`.
    Connect,
    /// Tell the controller; where that fails, `ControllerGone` follows.
    Tell(ConnEvent),
    /// Write a frame, which may wait for more to be sent in one go; where that
    /// fails, `WriteFailed` follows.
    Write(Frame),
    /// Wait this many seconds; then `Woke` follows.
    Sleep(u64),
}

/// The content of a [`LinkAction`].
#[verifier::ext_equal]
pub enum LinkActView {
    Connect,
    Tell(ConnEventView),
    Write(FrameView),
    Sleep(u64),
}

impl DeepView for LinkAction {
    type V = LinkActView;

    open spec fn deep_view(&self) -> LinkActView {
        match self {
            LinkAction::Connect => LinkActView::Connect,
            LinkAction::Tell(e) => LinkActView::Tell(e.deep_view()),
            LinkAction::Write(f) => LinkActView::Write(f.deep_view()),
            LinkAction::Sleep(n) => LinkActView::Sleep(*n),
        }
    }
}

/// What the connection does with an input, where an attempt is repeated after
/// `retry` seconds.
pub open spec fn link_step(p: LinkPhase, retry: u64, e: LinkInputView) -> (
    LinkPhase,
    Seq<LinkActView>,
) {
    let lost = (
        LinkPhase::Waiting,
        seq![LinkActView::Tell(ConnEventView::Disconnected), LinkActView::Sleep(retry)],
    );
    let same = (p, Seq::<LinkActView>::empty());
    if e is ControllerGone {
        (LinkPhase::Over, Seq::empty())
    } else {
        match p {
            LinkPhase::Connecting => match e {
                LinkInputView::Connected => (
                    LinkPhase::Open,
                    seq![LinkActView::Tell(ConnEventView::Connected)],
                ),
                LinkInputView::ConnectFailed => (
                    LinkPhase::Waiting,
                    seq![LinkActView::Sleep(retry)],
                ),
                _ => same,
            },
            LinkPhase::Open => match e {
                LinkInputView::Read(f) => (
                    p,
                    seq![LinkActView::Tell(ConnEventView::FrameIn(f))],
                ),
                LinkInputView::ReadEnded => lost,
                LinkInputView::Outgoing(f) => (p, seq![LinkActView::Write(f)]),
                LinkInputView::WriteFailed => lost,
                LinkInputView::OutgoingClosed => (LinkPhase::Over, Seq::empty()),
                _ => same,
            },
            LinkPhase::Waiting => match e {
                LinkInputView::Woke => (LinkPhase::Connecting, seq![LinkActView::Connect]),
                _ => same,
            },
            LinkPhase::Over => same,
        }
    }
}

/// No action.
fn nothing() -> (r: Vec<LinkAction>)
    ensures
        r.deep_view() == Seq::<LinkActView>::empty(),
{
    let out: Vec<LinkAction> = Vec::new();
    assert(out.deep_view() =~= Seq::<LinkActView>::empty());
    out
}

/// One action.
fn only(a: LinkAction) -> (r: Vec<LinkAction>)
    ensures
        r.deep_view() == seq![a.deep_view()],
{
    let mut out: Vec<LinkAction> = Vec::new();
    out.push(a);
    assert(out.deep_view() =~= seq![a.deep_view()]);
    out
}

/// The state machine of a client's connection.
#[derive(Debug)]
pub struct ConnTask {
    pub phase: LinkPhase,
    /// Seconds between two attempts.
    pub retry: u64,
}

impl ConnTask {
    /// A connection at the start, and the first thing to do.
    pub fn new(cfg: &ClientConfig) -> (r: (ConnTask, Vec<LinkAction>))
        ensures
            r.0.phase == LinkPhase::Connecting,
            r.0.retry == cfg.deep_view().client.retry_interval,
            r.1.deep_view() == seq![LinkActView::Connect],
    {
        (
            ConnTask { phase: LinkPhase::Connecting, retry: cfg.client.retry_interval as u64 },
            only(LinkAction::Connect),
        )
    }

    fn lose(&mut self) -> (r: Vec<LinkAction>)
        ensures
            final(self).phase == LinkPhase::Waiting,
            final(self).retry == old(self).retry,
            r.deep_view() == seq![
                LinkActView::Tell(ConnEventView::Disconnected),
                LinkActView::Sleep(old(self).retry),
            ],
    {
        self.phase = LinkPhase::Waiting;
        let mut out = only(LinkAction::Tell(ConnEvent::Disconnected));
        let ghost first = out.deep_view();
        out.push(LinkAction::Sleep(self.retry));
        assert(out.deep_view() =~= first.push(LinkActView::Sleep(self.retry)));
        out
    }

    /// Takes one input.
    pub fn step(&mut self, e: LinkInput) -> (r: Vec<LinkAction>)
        ensures
            final(self).retry == old(self).retry,
            (final(self).phase, r.deep_view()) == link_step(
                old(self).phase,
                old(self).retry,
                e.deep_view(),
            ),
    {
        match (self.phase, e) {
            (_, LinkInput::ControllerGone) => {
                self.phase = LinkPhase::Over;
                nothing()
            },
            (LinkPhase::Connecting, LinkInput::Connected) => {
                self.phase = LinkPhase::Open;
                only(LinkAction::Tell(ConnEvent::Connected))
            },
            (LinkPhase::Connecting, LinkInput::ConnectFailed) => {
                self.phase = LinkPhase::Waiting;
                only(LinkAction::Sleep(self.retry))
            },
            (LinkPhase::Open, LinkInput::Read(f)) => only(
                LinkAction::Tell(ConnEvent::FrameIn(f)),
            ),
            (LinkPhase::Open, LinkInput::ReadEnded) => self.lose(),
            (LinkPhase::Open, LinkInput::Outgoing(f)) => only(LinkAction::Write(f)),
            (LinkPhase::Open, LinkInput::WriteFailed) => self.lose(),
            (LinkPhase::Open, LinkInput::OutgoingClosed) => {
                self.phase = LinkPhase::Over;
                nothing()
            },
            (LinkPhase::Waiting, LinkInput::Woke) => {
                self.phase = LinkPhase::Connecting;
                only(LinkAction::Connect)
            },
            _ => nothing(),
        }
    }
}

// ── Laws ─────────────────────────────────────────────────────────────────
/// The controller hears of a connection when it opens, and of its loss when it
/// is lost and there will be another attempt, and at no other time; so the two
/// alternate, and frames come between them.
pub proof fn law_ups_and_downs_are_told(p: LinkPhase, retry: u64, e: LinkInputView, i: int)
    requires
        0 <= i < link_step(p, retry, e).1.len(),
    ensures
        ({
            let (q, acts) = link_step(p, retry, e);
            &&& acts[i] == LinkActView::Tell(ConnEventView::Connected) <==> p
                == LinkPhase::Connecting && q == LinkPhase::Open
            &&& acts[i] == LinkActView::Tell(ConnEventView::Disconnected) ==> p
                == LinkPhase::Open && q == LinkPhase::Waiting
            &&& acts[i] matches LinkActView::Tell(ConnEventView::FrameIn(f)) ==> p
                == LinkPhase::Open && q == LinkPhase::Open && e == LinkInputView::Read(f)
            &&& acts[i] is Write ==> p == LinkPhase::Open && q == LinkPhase::Open
        }),
{
}

/// A lost connection is told of, and tried again after the interval.
pub proof fn law_losses_are_retried(p: LinkPhase, retry: u64, e: LinkInputView)
    ensures
        ({
            let (q, acts) = link_step(p, retry, e);
            &&& p == LinkPhase::Open && q == LinkPhase::Waiting ==> acts == seq![
                LinkActView::Tell(ConnEventView::Disconnected),
                LinkActView::Sleep(retry),
            ]
            &&& p != q && q == LinkPhase::Waiting ==> acts.last() == LinkActView::Sleep(retry)
            &&& link_step(LinkPhase::Waiting, retry, LinkInputView::Woke) == (
                LinkPhase::Connecting,
                seq![LinkActView::Connect],
            )
        }),
{
}

/// A connection that is over stays so, and does nothing.
pub proof fn law_over_is_final(retry: u64, e: LinkInputView)
    ensures
        link_step(LinkPhase::Over, retry, e) == (LinkPhase::Over, Seq::<LinkActView>::empty()),
{
}

/// An attempt that succeeds opens the connection, and the controller is told;
/// one that fails is repeated after the interval. Nothing else matters while it
/// is under way.
pub proof fn law_attempts(retry: u64, e: LinkInputView)
    requires
        !(e is ControllerGone),
    ensures
        ({
            let (q, acts) = link_step(LinkPhase::Connecting, retry, e);
            match e {
                LinkInputView::Connected => q == LinkPhase::Open && acts == seq![
                    LinkActView::Tell(ConnEventView::Connected),
                ],
                LinkInputView::ConnectFailed => q == LinkPhase::Waiting && acts == seq![
                    LinkActView::Sleep(retry),
                ],
                _ => q == LinkPhase::Connecting && acts.len() == 0,
            }
        }),
{
}

/// On an open connection frames pass both ways, unchanged and each once. It is
/// lost where nothing can be read or written any more, and over where there is
/// nothing left to send.
pub proof fn law_open_connection_passes_frames(retry: u64, e: LinkInputView)
    requires
        !(e is ControllerGone),
    ensures
        ({
            let (q, acts) = link_step(LinkPhase::Open, retry, e);
            match e {
                LinkInputView::Read(f) => q == LinkPhase::Open && acts == seq![
                    LinkActView::Tell(ConnEventView::FrameIn(f)),
                ],
                LinkInputView::Outgoing(f) => q == LinkPhase::Open && acts == seq![
                    LinkActView::Write(f),
                ],
                LinkInputView::ReadEnded => q == LinkPhase::Waiting,
                LinkInputView::WriteFailed => q == LinkPhase::Waiting,
                LinkInputView::OutgoingClosed => q == LinkPhase::Over && acts.len() == 0,
                _ => q == LinkPhase::Open && acts.len() == 0,
            }
        }),
{
}

/// Between two attempts nothing happens until the time to wait is over; and
/// where the controller is gone, the connection is over at once.
pub proof fn law_waiting_and_ending(p: LinkPhase, retry: u64, e: LinkInputView)
    ensures
        !(e is Woke) && !(e is ControllerGone) ==> link_step(LinkPhase::Waiting, retry, e) == (
            LinkPhase::Waiting,
            Seq::<LinkActView>::empty(),
        ),
        link_step(p, retry, LinkInputView::ControllerGone) == (
            LinkPhase::Over,
            Seq::<LinkActView>::empty(),
        ),
{
}

} // verus!
