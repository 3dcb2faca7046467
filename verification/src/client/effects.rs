//! What the client does with each thing that happens to it. What is not said to
//! be done is not done.
use vstd::prelude::*;

use crate::addr;
use crate::client::app;
use crate::client::app::{AppActView, AppInputView, AppView, ConnEventView, NextView, PlanView};
use crate::client::repl::{StatusView, UserView};
use crate::config::{ClientConfigView, ClientCoreView};
use crate::frame::{FrameView, RouteView};
use crate::ids::ConnId;
use crate::session::{CmdView, EvtView};
use crate::text;
use crate::uuids;
use crate::uuids::Uuid;

verus! {

broadcast use {
    vstd::seq_lib::lemma_seq_concat_contains_all_elements,
    vstd::seq_lib::lemma_seq_contains_after_push,
    vstd::seq_lib::lemma_seq_empty_contains_nothing,
};

/// What the client does with a frame of the server.
pub open spec fn on_frame(s: AppView, f: FrameView) -> app::Out {
    app::handled(s, AppInputView::Conn(ConnEventView::FrameIn(f)))
}

/// The configuration with another network to ask for.
pub open spec fn asking_for(c: ClientConfigView, net: Seq<char>) -> ClientConfigView {
    ClientConfigView { client: ClientCoreView { joined_network: net, ..c.client }, ..c }
}

/// A client starts without a session, not yet greeted, and wants the network
/// that its configuration names, where it names one that can be read.
pub proof fn law_start(cfg: ClientConfigView)
    ensures
        ({
            let s = app::opened(cfg);
            &&& s.cfg == cfg
            &&& !s.session && s.joined is None && s.tap_name is None && s.tap_ip is None
            &&& !s.acked && s.unanswered == 0 && s.late == 0
            &&& s.joining == if cfg.client.joined_network.len() > 0 && uuids::uuid_parsed(
                cfg.client.joined_network,
            ) is Ok {
                Some(Uuid(uuids::uuid_parsed(cfg.client.joined_network)->Ok_0))
            } else {
                None
            }
        }),
{
}

/// On a new connection the client introduces itself with its identity and the
/// version that it speaks, and waits for the answer. Without an identity it
/// ends. What it has and wants stays.
pub proof fn law_connected_client_introduces_itself(s: AppView, x: AppActView)
    ensures
        ({
            let (t, acts, next) = app::handled(s, AppInputView::Conn(ConnEventView::Connected));
            &&& t == AppView { acked: false, unanswered: 0, late: 0, ..s }
            &&& match uuids::uuid_parsed(s.cfg.client.uuid) {
                Ok(u) => next is Go && (acts.contains(x) <==> x == AppActView::Send(
                    FrameView::Hello { version: 2, client_uuid: Uuid(u), caps: 0 },
                )),
                Err(e) => next == NextView::Fail(e) && acts.len() == 0,
            }
        }),
{
}

/// When the connection is lost, the session is told, if there is one, and so is
/// the user. What the client has and wants stays.
pub proof fn law_lost_connection_is_told(s: AppView, x: AppActView)
    ensures
        ({
            let (t, acts, next) = app::handled(s, AppInputView::Conn(ConnEventView::Disconnected));
            &&& t == AppView { acked: false, ..s }
            &&& next is Go
            &&& acts.contains(x) <==> {
                ||| s.session && x == AppActView::ToSession(CmdView::UnbindConn)
                ||| x == AppActView::Show("[-] disconnected, retrying..."@)
            }
        }),
{
}

/// A greeting of another version ends the client with a message. One of the
/// same version is followed by a request for the network that the client wants,
/// if any.
pub proof fn law_greeting_is_followed_by_a_request(
    s: AppView,
    version: u16,
    server_id: Uuid,
    caps: u32,
    x: AppActView,
)
    ensures
        ({
            let (t, acts, next) = on_frame(
                s,
                FrameView::HelloAck { version: version, server_id: server_id, caps: caps },
            );
            &&& version != 2 ==> t == s && acts.len() == 0 && next == NextView::Fail(
                "server speaks protocol v"@ + text::dec(version as nat)
                    + ", this client speaks v"@ + text::dec(2),
            )
            &&& version == 2 ==> {
                &&& next is Go
                &&& t == AppView { acked: true, unanswered: t.unanswered, ..s }
                &&& s.joining is None ==> t.unanswered == s.unanswered
                &&& s.joining is Some && s.unanswered < u64::MAX ==> t.unanswered == s.unanswered
                    + 1
                &&& acts.contains(x) <==> (s.joining matches Some(net) && x == AppActView::Send(
                    FrameView::Join { net_uuid: net },
                ))
            }
        }),
{
}

/// Whether a request is answered: there is one less without an answer, and one
/// less that is late.
pub open spec fn one_answered(s: AppView, t: AppView) -> bool {
    &&& t.unanswered == if s.unanswered > 0 {
        s.unanswered - 1
    } else {
        0
    }
    &&& t.late == if s.late > 0 {
        s.late - 1
    } else {
        0
    }
}

/// A client that is let into a network where it has no session has the TAP
/// created that the server names, with the address that the server gives. One
/// that has a session there has it bound again, with the address, where one is
/// given. One that wants no network does nothing.
pub proof fn law_accepted_request(
    s: AppView,
    suffix: Seq<char>,
    ip: Option<Seq<char>>,
    x: AppActView,
)
    ensures
        ({
            let (t, acts, next) = on_frame(s, FrameView::JoinOk { tap_suffix: suffix, ip: ip });
            &&& t == AppView { unanswered: t.unanswered, late: t.late, ..s }
            &&& one_answered(s, t)
            &&& s.joining is None ==> acts.len() == 0 && next is Go
            &&& s.joining is Some && s.joined == s.joining ==> next is Go && (acts.contains(x)
                <==> {
                ||| s.session && x == AppActView::ToSession(CmdView::BindConn(ConnId(0)))
                ||| s.session && ip is Some && x == AppActView::ToSession(CmdView::SetIp(ip))
                ||| x == AppActView::Show(
                    "[+] rejoined network "@ + uuids::short_chars(s.joining->0),
                )
            })
            &&& s.joining is Some && s.joined != s.joining ==> acts.len() == 0 && next
                == NextView::CreateTap(
                PlanView {
                    net: s.joining->0,
                    tap_name: "tap"@ + suffix,
                    ip: ip,
                    addr: if ip is Some {
                        addr::net_parsed(ip->0)
                    } else {
                        None
                    },
                },
            )
        }),
{
}

/// When the TAP is there, a session is started on it; the client is in the
/// network, with the TAP and the address, and remembers both. When it could not
/// be created, the client gives the network up, and says why.
pub proof fn law_created_tap(s: AppView, p: PlanView, failure: Seq<char>, x: AppActView)
    ensures
        ({
            let (t, acts, next) = app::tap_created(s, p);
            &&& next is Go
            &&& t.session && t.joined == Some(p.net) && t.tap_name == Some(p.tap_name) && t.tap_ip
                == p.ip
            &&& t.joining == s.joining && t.acked == s.acked && t.unanswered == s.unanswered
                && t.late == s.late
            &&& t.cfg == ClientConfigView {
                tap_ip: if p.ip is Some {
                    p.ip->0
                } else {
                    s.cfg.tap_ip
                },
                ..asking_for(s.cfg, uuids::uuid_chars(p.net))
            }
            &&& acts.contains(x) <==> {
                ||| x == (AppActView::StartSession { net: p.net })
                ||| x == AppActView::Persist
                ||| x == AppActView::Show(
                    "[+] joined network "@ + uuids::short_chars(p.net) + " (TAP="@ + p.tap_name
                        + ")"@,
                )
            }
        }),
        ({
            let (t, acts, next) = app::tap_failed(s, failure);
            &&& next is Go
            &&& t == AppView { cfg: asking_for(s.cfg, Seq::empty()), joining: None, ..s }
            &&& acts.contains(x) <==> x == AppActView::Persist || x == AppActView::Warn(
                "[!] create_tap failed: "@ + failure,
            )
        }),
{
}

/// A request that is refused is told to the user. Where it was not late, the
/// client gives the network up, for good, and its session ends.
pub proof fn law_refused_request(s: AppView, reason: Seq<char>, x: AppActView)
    ensures
        ({
            let (t, acts, next) = on_frame(s, FrameView::JoinDeny { reason: reason });
            let told = AppActView::Warn("[!] join denied: "@ + reason);
            &&& next is Go
            &&& one_answered(s, t)
            &&& s.late > 0 ==> t == AppView { unanswered: t.unanswered, late: t.late, ..s } && (
            acts.contains(x) <==> x == told)
            &&& s.late == 0 ==> {
                &&& t == AppView {
                    cfg: asking_for(s.cfg, Seq::empty()),
                    session: false,
                    joining: None,
                    joined: None,
                    unanswered: t.unanswered,
                    late: t.late,
                    ..s
                }
                &&& acts.contains(x) <==> {
                    ||| x == told
                    ||| x == AppActView::Persist
                    ||| s.session && x == AppActView::ToSession(CmdView::Kill)
                }
            }
        }),
{
}

/// A client that is told where it belongs wants that network, and remembers it;
/// it asks for it at once, if it is greeted. Where it is in another network, or
/// is to be in none, it leaves, and its session ends. Requests that are under
/// way are late from then on.
pub proof fn law_assignment(s: AppView, net: Option<Uuid>, x: AppActView)
    ensures
        ({
            let (t, acts, next) = on_frame(s, FrameView::AssignNet { net_uuid: net });
            let stays = net is Some && s.joined == net;
            &&& next is Go
            &&& t.cfg == asking_for(
                s.cfg,
                if net is Some {
                    uuids::uuid_chars(net->0)
                } else {
                    Seq::empty()
                },
            )
            &&& t.joining == net && t.acked == s.acked && t.late == s.unanswered
            &&& !(net is Some && s.acked) ==> t.unanswered == s.unanswered
            &&& net is Some && s.acked && s.unanswered < u64::MAX ==> t.unanswered == s.unanswered
                + 1
            &&& stays ==> t.session == s.session && t.joined == s.joined && t.tap_name == s.tap_name
                && t.tap_ip == s.tap_ip
            &&& !stays ==> !t.session && t.joined is None && t.tap_name is None && t.tap_ip is None
            &&& acts.contains(x) <==> {
                ||| x == AppActView::Persist
                ||| !stays && s.session && x == AppActView::ToSession(CmdView::Kill)
                ||| net is Some && s.acked && x == AppActView::Send(
                    FrameView::Join { net_uuid: net->0 },
                )
            }
        }),
{
}

/// A new address, or none, is given to the session, remembered, shown as the
/// client's, and told to the user.
pub proof fn law_new_address(s: AppView, ip: Option<Seq<char>>, x: AppActView)
    ensures
        ({
            let (t, acts, next) = on_frame(s, FrameView::SetIp { ip: ip });
            let shown = if ip is Some {
                ip->0
            } else {
                "(cleared)"@
            };
            &&& next is Go
            &&& t == AppView {
                cfg: ClientConfigView {
                    tap_ip: if ip is Some {
                        ip->0
                    } else {
                        Seq::empty()
                    },
                    ..s.cfg
                },
                tap_ip: ip,
                ..s
            }
            &&& acts.contains(x) <==> {
                ||| s.session && x == AppActView::ToSession(CmdView::SetIp(ip))
                ||| x == AppActView::Persist
                ||| x == AppActView::Show("[*] TAP IP updated: "@ + shown)
            }
        }),
{
}

/// New routes are given to the session, all of them, remembered, and counted
/// for the user.
pub proof fn law_new_routes(s: AppView, routes: Seq<RouteView>, x: AppActView)
    ensures
        ({
            let (t, acts, next) = on_frame(s, FrameView::SetRoutes(routes));
            &&& next is Go
            &&& t == AppView { cfg: ClientConfigView { routes: routes, ..s.cfg }, ..s }
            &&& acts.contains(x) <==> {
                ||| s.session && x == AppActView::ToSession(CmdView::SetRoutes(routes))
                ||| x == AppActView::Persist
                ||| x == AppActView::Show("[*] "@ + text::dec(routes.len()) + " route(s) received"@)
            }
        }),
{
}

/// Ethernet frames go to the session, texts to the user, files to the
/// directory for them, and heartbeats back; an answer to a heartbeat needs
/// nothing, and frames that only clients send are noted. None of them changes
/// the client.
pub proof fn law_other_frames(s: AppView, f: FrameView, x: AppActView)
    requires
        !(f is HelloAck || f is JoinOk || f is JoinDeny || f is AssignNet || f is SetIp
            || f is SetRoutes),
    ensures
        ({
            let (t, acts, next) = on_frame(s, f);
            &&& t == s
            &&& next is Go
            &&& acts.contains(x) <==> match f {
                FrameView::Eth(b) => s.session && x == AppActView::ToSession(CmdView::EthIn(b)),
                FrameView::Text(m) => x == AppActView::Show("[server] > "@ + m),
                FrameView::File { name, data } => x == (AppActView::SaveFile {
                    dir: s.cfg.client.save_dir,
                    name: name,
                    data: data,
                }),
                FrameView::Ping(n) => x == AppActView::Answer(FrameView::Pong(n)),
                FrameView::Pong(_) => false,
                _ => x is Unexpected,
            }
        }),
{
}

/// A user in a network cannot join another one. Otherwise the network is the
/// one that the client wants, and it is asked for at once, or after the
/// greeting.
pub proof fn law_user_joins(s: AppView, net: Uuid, x: AppActView)
    ensures
        ({
            let (t, acts, next) = app::handled(s, AppInputView::User(UserView::Join(net)));
            &&& next is Go
            &&& s.session ==> t == s && (acts.contains(x) <==> x == AppActView::Warn(
                "[!] already joined; type 'leave' first"@,
            ))
            &&& !s.session ==> t == AppView {
                joining: Some(net),
                unanswered: t.unanswered,
                ..s
            }
            &&& !s.session && !s.acked ==> t.unanswered == s.unanswered && (acts.contains(x) <==> x
                == AppActView::Show("[*] not yet handshaked; will join after the next HelloAck"@))
            &&& !s.session && s.acked ==> {
                &&& s.unanswered < u64::MAX ==> t.unanswered == s.unanswered + 1
                &&& acts.contains(x) <==> {
                    ||| x == AppActView::Send(FrameView::Join { net_uuid: net })
                    ||| x == AppActView::Show("[*] join sent, awaiting approval..."@)
                }
            }
        }),
{
}

/// A user who leaves is in no network and wants none, not even after a restart.
/// The session ends.
pub proof fn law_user_leaves(s: AppView, x: AppActView)
    ensures
        ({
            let (t, acts, next) = app::handled(s, AppInputView::User(UserView::Leave));
            &&& next is Go
            &&& t == AppView {
                cfg: asking_for(s.cfg, Seq::empty()),
                session: false,
                joining: None,
                joined: None,
                tap_name: None,
                tap_ip: None,
                ..s
            }
            &&& acts.contains(x) <==> {
                ||| s.session && x == AppActView::ToSession(CmdView::Kill)
                ||| x == AppActView::Persist
                ||| x == AppActView::Show("[*] left"@)
            }
        }),
{
}

/// A text and a file of the user are sent to the server as they are.
pub proof fn law_user_sends(
    s: AppView,
    msg: Seq<char>,
    name: Seq<char>,
    data: Seq<u8>,
    x: AppActView,
)
    ensures
        ({
            let (t, acts, next) = app::handled(s, AppInputView::User(UserView::SendText(msg)));
            t == s && next is Go && (acts.contains(x) <==> x == AppActView::Send(
                FrameView::Text(msg),
            ))
        }),
        ({
            let (t, acts, next) = app::handled(
                s,
                AppInputView::User(UserView::SendFile { name: name, data: data }),
            );
            t == s && next is Go && (acts.contains(x) <==> x == AppActView::Send(
                FrameView::File { name: name, data: data },
            ))
        }),
{
}

/// Asked how things stand, the client gives its identity, whether it is
/// greeted, its network, its TAP and its address.
pub proof fn law_status_is_the_state(s: AppView, x: AppActView)
    ensures
        ({
            let (t, acts, next) = app::handled(s, AppInputView::User(UserView::Status));
            t == s && next is Go && (acts.contains(x) <==> x == AppActView::Report(
                StatusView {
                    client_uuid: if uuids::uuid_parsed(s.cfg.client.uuid) is Ok {
                        Uuid(uuids::uuid_parsed(s.cfg.client.uuid)->Ok_0)
                    } else {
                        Uuid(0)
                    },
                    connected: s.acked,
                    joined_network: s.joined,
                    tap_name: s.tap_name,
                    tap_ip: s.tap_ip,
                },
            ))
        }),
{
}

/// When the session has died, the client is in no network. What it wants and
/// remembers stays, and nothing is done.
pub proof fn law_dead_session_is_gone(s: AppView, e: EvtView)
    ensures
        app::handled(s, AppInputView::Session(e)) == (
            AppView { session: false, joined: None, tap_name: None, tap_ip: None, ..s },
            Seq::<AppActView>::empty(),
            NextView::Go,
        ),
{
}

/// At the end the session is told to end, and waited for. What is remembered
/// stays.
pub proof fn law_end(s: AppView, x: AppActView)
    ensures
        ({
            let (t, acts, next) = app::handled(s, AppInputView::Closed);
            &&& next is Stop
            &&& t == AppView { session: false, ..s }
            &&& acts.contains(x) <==> s.session && (x == AppActView::ToSession(CmdView::Kill) || x
                is AwaitSession)
        }),
        app::handled(s, AppInputView::User(UserView::Quit)) == app::handled(
            s,
            AppInputView::Closed,
        ),
{
}

/// Nothing is done twice: no input leads to the same action more than once.
pub proof fn law_nothing_is_done_twice(s: AppView, e: AppInputView)
    ensures
        forall|i: int, j: int|
            0 <= i < j < app::handled(s, e).1.len() ==> #[trigger] app::handled(s, e).1[i]
                != #[trigger] app::handled(s, e).1[j],
{
}

/// A session is told to end before the client asks for another network, and a
/// new session is started before its network is remembered.
pub proof fn law_order(s: AppView, net: Option<Uuid>, p: PlanView)
    ensures
        ({
            let acts = on_frame(s, FrameView::AssignNet { net_uuid: net }).1;
            forall|i: int, j: int|
                0 <= i < acts.len() && 0 <= j < acts.len() && #[trigger] acts[i] is ToSession
                    && #[trigger] acts[j] is Send ==> i < j
        }),
        app::tap_created(s, p).1[0] is StartSession,
{
}

} // verus!
