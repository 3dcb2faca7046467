//! What a connection does with the frames of a client.
use vstd::prelude::*;
use vstd::string::*;

use crate::frame::{Frame, FrameView, PROTOCOL_VERSION};
use crate::text;
use crate::uuids::Uuid;

verus! {

/// One thing for a connection to do.
#[derive(Debug)]
pub enum ConnAct {
    /// Send a frame back. Where that fails, the connection is over.
    Reply(Frame),
    /// Tell the hub that the client introduced itself.
    Hello { client_uuid: Uuid, version: u16 },
    /// Tell the hub that the client asks to join.
    Join { net_uuid: Uuid },
    /// Hand an Ethernet frame to the session, past the hub.
    ToSession(Vec<u8>),
    /// Print a line.
    Show(String),
    /// Save a file under this name, and not over another one.
    Save { name: String, data: Vec<u8> },
    /// Note a frame that only the server sends.
    Unexpected,
}

/// The content of a [`ConnAct`].
#[verifier::ext_equal]
pub enum ConnActView {
    Reply(FrameView),
    Hello { client_uuid: Uuid, version: u16 },
    Join { net_uuid: Uuid },
    ToSession(Seq<u8>),
    Show(Seq<char>),
    Save { name: Seq<char>, data: Seq<u8> },
    Unexpected,
}

impl DeepView for ConnAct {
    type V = ConnActView;

    open spec fn deep_view(&self) -> ConnActView {
        match self {
            ConnAct::Reply(f) => ConnActView::Reply(f.deep_view()),
            ConnAct::Hello { client_uuid, version } => ConnActView::Hello {
                client_uuid: *client_uuid,
                version: *version,
            },
            ConnAct::Join { net_uuid } => ConnActView::Join { net_uuid: *net_uuid },
            ConnAct::ToSession(b) => ConnActView::ToSession(b@),
            ConnAct::Show(s) => ConnActView::Show(s@),
            ConnAct::Save { name, data } => ConnActView::Save { name: name@, data: data@ },
            ConnAct::Unexpected => ConnActView::Unexpected,
        }
    }
}

/// What a connection does with a frame, and whether it lives on. A client
/// whose version differs is told so, and the connection ends. The handshake is
/// answered before the hub hears of it. Ethernet frames go to the session that
/// the connection is bound to, and nowhere while it is bound to none.
pub open spec fn routed(f: FrameView, server_id: Uuid, bound: bool, addr: Seq<char>) -> (
    Seq<ConnActView>,
    bool,
) {
    match f {
        FrameView::Hello { version, client_uuid, caps } => if version != PROTOCOL_VERSION {
            (
                seq![
                    ConnActView::Reply(
                        FrameView::JoinDeny {
                            reason: "version_mismatch:server="@ + text::dec(
                                PROTOCOL_VERSION as nat,
                            ),
                        },
                    ),
                ],
                false,
            )
        } else {
            (
                seq![
                    ConnActView::Reply(
                        FrameView::HelloAck {
                            version: PROTOCOL_VERSION,
                            server_id: server_id,
                            caps: 0,
                        },
                    ),
                    ConnActView::Hello { client_uuid: client_uuid, version: version },
                ],
                true,
            )
        },
        FrameView::Join { net_uuid } => (seq![ConnActView::Join { net_uuid: net_uuid }], true),
        FrameView::Eth(b) => (
            if bound {
                seq![ConnActView::ToSession(b)]
            } else {
                Seq::empty()
            },
            true,
        ),
        FrameView::Text(s) => (seq![ConnActView::Show("["@ + addr + "] > "@ + s)], true),
        FrameView::File { name, data } => (
            seq![ConnActView::Save { name: name, data: data }],
            true,
        ),
        FrameView::Ping(nonce) => (seq![ConnActView::Reply(FrameView::Pong(nonce))], true),
        FrameView::Pong(_) => (Seq::empty(), true),
        _ => (seq![ConnActView::Unexpected], true),
    }
}

/// One action.
fn only(a: ConnAct) -> (r: Vec<ConnAct>)
    ensures
        r.deep_view() == seq![a.deep_view()],
{
    let mut out: Vec<ConnAct> = Vec::new();
    out.push(a);
    assert(out.deep_view() =~= seq![a.deep_view()]);
    out
}

/// No action.
fn nothing() -> (r: Vec<ConnAct>)
    ensures
        r.deep_view() == Seq::<ConnActView>::empty(),
{
    let out: Vec<ConnAct> = Vec::new();
    assert(out.deep_view() =~= Seq::<ConnActView>::empty());
    out
}

/// What to do with a frame, and whether the connection lives on.
pub fn route_inbound(frame: Frame, server_id: Uuid, bound: bool, addr: &str) -> (r: (
    Vec<ConnAct>,
    bool,
))
    ensures
        r.0.deep_view() == routed(frame.deep_view(), server_id, bound, addr@).0,
        r.1 == routed(frame.deep_view(), server_id, bound, addr@).1,
{
    match frame {
        Frame::Hello { version, client_uuid, caps } => {
            if version != PROTOCOL_VERSION {
                let v = text::dec_text(PROTOCOL_VERSION as u64);
                let reason = text::join2("version_mismatch:server=", v.as_str());
                return (only(ConnAct::Reply(Frame::JoinDeny { reason: reason })), false);
            }
            let mut out = only(
                ConnAct::Reply(
                    Frame::HelloAck { version: PROTOCOL_VERSION, server_id: server_id, caps: 0 },
                ),
            );
            let ghost first = out.deep_view();
            let told = ConnAct::Hello { client_uuid: client_uuid, version: version };
            out.push(told);
            assert(out.deep_view() =~= first.push(told.deep_view()));
            (out, true)
        },
        Frame::Join { net_uuid } => (only(ConnAct::Join { net_uuid: net_uuid }), true),
        Frame::Eth(b) => {
            if bound {
                (only(ConnAct::ToSession(b)), true)
            } else {
                (nothing(), true)
            }
        },
        Frame::Text(s) => {
            let a = text::join3("[", addr, "] > ");
            let line = text::join2(a.as_str(), s.as_str());
            (only(ConnAct::Show(line)), true)
        },
        Frame::File { name, data } => (only(ConnAct::Save { name: name, data: data }), true),
        Frame::Ping(nonce) => (only(ConnAct::Reply(Frame::Pong(nonce))), true),
        Frame::Pong(_) => (nothing(), true),
        _ => (only(ConnAct::Unexpected), true),
    }
}

/// A client of another version is refused with the reason, and its connection
/// ends; one of the same version is acknowledged before the hub is told.
pub proof fn law_versions_must_match(
    version: u16,
    client: Uuid,
    caps: u32,
    server_id: Uuid,
    bound: bool,
    addr: Seq<char>,
)
    ensures
        ({
            let (acts, keep) = routed(
                FrameView::Hello { version: version, client_uuid: client, caps: caps },
                server_id,
                bound,
                addr,
            );
            &&& keep == (version == PROTOCOL_VERSION)
            &&& acts[0] is Reply
            &&& keep ==> acts.len() == 2 && acts[1] == (ConnActView::Hello {
                client_uuid: client,
                version: version,
            })
            &&& !keep ==> acts.len() == 1
        }),
{
}

// ── Received files ───────────────────────────────────────────────────────
/// Whether the dot at `k` parts a file name into a stem and an extension: it is
/// the last dot, and not the first character.
pub open spec fn parting_dot(name: Seq<char>, k: int) -> bool {
    &&& 0 < k < name.len()
    &&& name[k] == '.'
    &&& forall|j: int| k < j < name.len() ==> name[j] != '.'
}

/// A file name parted into a stem and an extension. A name without a parting
/// dot is all stem.
pub open spec fn parted(name: Seq<char>) -> (Seq<char>, Seq<char>) {
    if exists|k: int| parting_dot(name, k) {
        let k = choose|k: int| parting_dot(name, k);
        (name.take(k), name.skip(k + 1))
    } else {
        (name, Seq::empty())
    }
}

/// The stem and the extension of a file name.
pub fn part_name(name: &str) -> (r: (String, String))
    ensures
        (r.0@, r.1@) == parted(name@),
{
    let n: usize = name.unicode_len();
    let mut k: usize = n;
    while k > 1
        invariant
            0 <= k <= n,
            n == name@.len(),
            forall|j: int| k <= j < n ==> name@[j] != '.',
        decreases k,
    {
        k -= 1;
        if name.get_char(k) == '.' {
            assert(parting_dot(name@, k as int));
            let stem = name.substring_char(0, k).to_owned();
            let ext = name.substring_char(k + 1, n).to_owned();
            proof {
                let c = choose|c: int| parting_dot(name@, c);
                assert(c == k);
                assert(stem@ =~= name@.take(c));
                assert(ext@ =~= name@.skip(c + 1));
            }
            return (stem, ext);
        }
    }
    proof {
        reveal_strlit("");
        assert(""@ =~= Seq::<char>::empty());
    }
    (name.to_owned(), "".to_owned())
}

/// The name to try next, where `i` names before it are taken.
pub open spec fn candidate(stem: Seq<char>, ext: Seq<char>, i: u32) -> Seq<char> {
    if ext.len() == 0 {
        stem + "_"@ + text::dec(i as nat)
    } else {
        stem + "_"@ + text::dec(i as nat) + "."@ + ext
    }
}

/// The name to try next: the stem, a number, and the extension.
pub fn candidate_name(stem: &str, ext: &str, i: u32) -> (r: String)
    ensures
        r@ == candidate(stem@, ext@, i),
{
    let n = text::dec_text(i as u64);
    let s = text::join3(stem, "_", n.as_str());
    if ext.is_empty() {
        s
    } else {
        text::join3(s.as_str(), ".", ext)
    }
}

/// The name to try next for a file called `name`, where `i` names before it are
/// taken.
pub fn next_name(name: &str, i: u32) -> (r: String)
    ensures
        r@ == candidate(parted(name@).0, parted(name@).1, i),
{
    let (stem, ext) = part_name(name);
    candidate_name(stem.as_str(), ext.as_str(), i)
}

/// What is printed of a file that was saved.
pub fn saved_line(addr: &str, name: &str, len: usize, path: &str) -> (r: String)
    ensures
        r@ == "["@ + addr@ + "] file "@ + text::debug_chars(name@) + " ("@ + text::dec(len as nat)
            + " B) → "@ + path@,
{
    let d = text::debug_text(name);
    let n = text::dec_text(len as u64);
    let mut s = "[".to_owned();
    s.append(addr);
    s.append("] file ");
    s.append(d.as_str());
    s.append(" (");
    s.append(n.as_str());
    s.append(" B) → ");
    s.append(path);
    s
}

/// The names that are tried are all different, so that a free one is found.
pub proof fn law_candidates_differ(stem: Seq<char>, ext: Seq<char>, i: u32, j: u32)
    requires
        i != j,
    ensures
        candidate(stem, ext, i) != candidate(stem, ext, j),
{
    let (a, b) = (candidate(stem, ext, i), candidate(stem, ext, j));
    if a == b {
        let (x, y) = (text::dec(i as nat), text::dec(j as nat));
        let k = (stem.len() + "_"@.len()) as int;
        let tail = if ext.len() == 0 {
            0
        } else {
            "."@.len() + ext.len()
        };
        assert(a.len() == k + x.len() + tail);
        assert(b.len() == k + y.len() + tail);
        assert(a.subrange(k, k + x.len()) =~= x);
        assert(b.subrange(k, k + y.len()) =~= y);
        text::lemma_dec_injective(i as nat, j as nat);
    }
}

// ── Sending ──────────────────────────────────────────────────────────────
/// The most frames that are sent in one go.
pub const BATCH_FRAMES: usize = 32;

/// The size at which a batch is sent, in bytes.
pub const BATCH_BYTES: usize = 32768;

/// Whether another frame may join a batch of `frames` frames and `bytes`
/// bytes.
pub fn batch_has_room(frames: usize, bytes: usize) -> (r: bool)
    ensures
        r == (frames < BATCH_FRAMES && bytes < BATCH_BYTES),
{
    frames < BATCH_FRAMES && bytes < BATCH_BYTES
}

/// What a connection does with a frame of a client that was greeted: a request
/// to join goes to the hub; an Ethernet frame goes to the session that the
/// connection leads to, and nowhere where it leads to none; a text is shown with
/// the client's address; a file is saved; a heartbeat is answered with its
/// number; and what only the server sends is noted. The connection lives on.
pub proof fn law_frames_go_where_they_belong(
    f: FrameView,
    server_id: Uuid,
    bound: bool,
    addr: Seq<char>,
)
    requires
        !(f is Hello),
    ensures
        ({
            let (acts, keep) = routed(f, server_id, bound, addr);
            &&& keep
            &&& match f {
                FrameView::Join { net_uuid } => acts == seq![
                    ConnActView::Join { net_uuid: net_uuid },
                ],
                FrameView::Eth(b) => if bound {
                    acts == seq![ConnActView::ToSession(b)]
                } else {
                    acts.len() == 0
                },
                FrameView::Text(m) => acts == seq![ConnActView::Show("["@ + addr + "] > "@ + m)],
                FrameView::File { name, data } => acts == seq![
                    ConnActView::Save { name: name, data: data },
                ],
                FrameView::Ping(n) => acts == seq![ConnActView::Reply(FrameView::Pong(n))],
                FrameView::Pong(_) => acts.len() == 0,
                _ => acts == seq![ConnActView::Unexpected],
            }
        }),
{
}

/// A client that speaks the server's version is greeted with it and with the
/// server's identity, and the hub hears who it is; one of another version is
/// told the server's.
pub proof fn law_greeting(
    version: u16,
    client: Uuid,
    caps: u32,
    server_id: Uuid,
    bound: bool,
    addr: Seq<char>,
)
    ensures
        ({
            let (acts, keep) = routed(
                FrameView::Hello { version: version, client_uuid: client, caps: caps },
                server_id,
                bound,
                addr,
            );
            &&& keep == (version == 2)
            &&& version == 2 ==> acts == seq![
                ConnActView::Reply(
                    FrameView::HelloAck { version: 2, server_id: server_id, caps: 0 },
                ),
                ConnActView::Hello { client_uuid: client, version: 2 },
            ]
            &&& version != 2 ==> acts == seq![
                ConnActView::Reply(
                    FrameView::JoinDeny { reason: "version_mismatch:server="@ + text::dec(2) },
                ),
            ]
        }),
{
}

/// A file name is parted at its last dot: the stem, the dot and the extension
/// make the name, and the extension holds no dot. A name without a dot behind
/// its first character has no extension.
pub proof fn law_names_are_parted_at_the_last_dot(name: Seq<char>)
    ensures
        ({
            let (stem, ext) = parted(name);
            if exists|k: int| 0 < k < name.len() && name[k] == '.' {
                &&& name == stem + seq!['.'] + ext
                &&& stem.len() > 0
                &&& !ext.contains('.')
            } else {
                stem == name && ext.len() == 0
            }
        }),
{
    if exists|k: int| 0 < k < name.len() && name[k] == '.' {
        let k = choose|k: int| 0 < k < name.len() && name[k] == '.';
        lemma_last_dot(name, k);
        let m = choose|m: int| parting_dot(name, m);
        assert(name =~= name.take(m) + seq!['.'] + name.skip(m + 1));
        let ext = name.skip(m + 1);
        assert forall|j: int| 0 <= j < ext.len() implies #[trigger] ext[j] != '.' by {
            assert(name[m + 1 + j] != '.');
        }
    }
}

proof fn lemma_last_dot(name: Seq<char>, k: int)
    requires
        0 < k < name.len(),
        name[k] == '.',
    ensures
        exists|m: int| parting_dot(name, m),
    decreases name.len() - k,
{
    if exists|j: int| k < j < name.len() && name[j] == '.' {
        let j = choose|j: int| k < j < name.len() && name[j] == '.';
        lemma_last_dot(name, j);
    } else {
        assert(parting_dot(name, k));
    }
}

/// Where a name is taken, a number is put behind the stem, and the extension
/// stays.
pub proof fn law_next_name_keeps_the_extension(stem: Seq<char>, ext: Seq<char>, i: u32)
    ensures
        candidate(stem, Seq::empty(), i) == stem + "_"@ + text::dec(i as nat),
        ext.len() > 0 ==> candidate(stem, ext, i) == stem + "_"@ + text::dec(i as nat) + "."@ + ext,
{
}

} // verus!
