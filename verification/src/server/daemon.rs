//! Starting the server, and its command line arguments.
use vstd::prelude::*;
use vstd::string::*;

use crate::admin::{ServerAdminReq, ServerReqView};
use crate::config::{ListenerView, NetRecord, NetView, ServerConfig, ServerConfigView};
use crate::server::repl;
use crate::server::repl::{ReplCmd, ReplView};
use crate::text;
use crate::uuids;
use crate::uuids::Uuid;

verus! {

// ── Starting ─────────────────────────────────────────────────────────────
/// A configuration with what the command line says taken in.
pub open spec fn overridden(
    c: ServerConfigView,
    socket: Option<Seq<char>>,
    web_listen: Option<Seq<char>>,
    no_web: bool,
) -> ServerConfigView {
    ServerConfigView {
        admin: match socket {
            Some(s) => s,
            None => c.admin,
        },
        web: ListenerView {
            enabled: c.web.enabled && !no_web,
            listen: match web_listen {
                Some(s) => s,
                None => c.web.listen,
            },
        },
        ..c
    }
}

/// Takes in what the command line says.
pub fn apply_overrides(
    cfg: &mut ServerConfig,
    socket: Option<String>,
    web_listen: Option<String>,
    no_web: bool,
)
    ensures
        final(cfg).deep_view() == overridden(
            old(cfg).deep_view(),
            socket.deep_view(),
            web_listen.deep_view(),
            no_web,
        ),
{
    match socket {
        Some(s) => {
            cfg.admin.socket = s;
        },
        None => {},
    }
    match web_listen {
        Some(s) => {
            cfg.web.listen = s;
        },
        None => {},
    }
    if no_web {
        cfg.web.enabled = false;
    }
}

/// The address to listen on.
pub open spec fn listen_chars(c: ServerConfigView) -> Seq<char> {
    c.server.host + ":"@ + text::dec(c.server.port as nat)
}

/// The address to listen on.
pub fn listen_addr(cfg: &ServerConfig) -> (r: String)
    ensures
        r@ == listen_chars(cfg.deep_view()),
{
    let p = text::dec_text(cfg.server.port as u64);
    text::join3(cfg.server.host.as_str(), ":", p.as_str())
}

/// What is printed of a network when the server starts.
pub open spec fn net_banner(n: NetView) -> Seq<char> {
    "    └─ "@ + n.name + " ("@ + uuids::uuid_chars(n.uuid) + ") bridge="@ + n.bridge_name
        + if n.bridge_ip.len() == 0 {
        Seq::empty()
    } else {
        " ip="@ + n.bridge_ip
    }
}

/// What is printed when the server starts.
pub open spec fn banner(c: ServerConfigView, server_id: Uuid) -> Seq<Seq<char>> {
    seq![
        "[*] server id: "@ + uuids::uuid_chars(server_id),
        "[*] listen:    "@ + listen_chars(c),
        "[*] networks:  "@ + text::dec(c.networks.len()),
    ] + c.networks.map_values(|n: NetView| net_banner(n)) + seq![
        "[*] save dir:  "@ + c.server.save_dir,
        "[*] admin:     "@ + c.admin,
    ] + if c.web.enabled {
        seq!["[*] web:       http://"@ + c.web.listen]
    } else {
        Seq::empty()
    }
}

fn net_line(n: &NetRecord) -> (r: String)
    ensures
        r@ == net_banner(n.deep_view()),
{
    let mut s = "    └─ ".to_owned();
    s.append(n.name.as_str());
    s.append(" (");
    let id = n.uuid.to_text();
    s.append(id.as_str());
    s.append(") bridge=");
    s.append(n.bridge_name.as_str());
    let ghost front = s@;
    if !n.bridge_ip.as_str().is_empty() {
        let ip = text::join2(" ip=", n.bridge_ip.as_str());
        s.append(ip.as_str());
    } else {
        assert(front + Seq::<char>::empty() =~= front);
    }
    s
}

/// Appends a line.
fn add_line(out: &mut Vec<String>, line: String)
    ensures
        final(out).deep_view() == old(out).deep_view().push(line@),
{
    out.push(line);
    assert(out.deep_view() =~= old(out).deep_view().push(line@));
}

/// What to print when the server starts.
pub fn startup_lines(cfg: &ServerConfig, server_id: Uuid) -> (r: Vec<String>)
    ensures
        r.deep_view() == banner(cfg.deep_view(), server_id),
{
    let ghost c = cfg.deep_view();
    let mut out: Vec<String> = Vec::new();
    assert(out.deep_view() =~= Seq::<Seq<char>>::empty());
    let id = server_id.to_text();
    add_line(&mut out, text::join2("[*] server id: ", id.as_str()));
    let listen = listen_addr(cfg);
    add_line(&mut out, text::join2("[*] listen:    ", listen.as_str()));
    let n = text::dec_text(cfg.networks.len() as u64);
    add_line(&mut out, text::join2("[*] networks:  ", n.as_str()));
    let ghost head = out.deep_view();
    let ghost lines = c.networks.map_values(|n: NetView| net_banner(n));
    let mut i: usize = 0;
    assert(head + lines.take(0) =~= head);
    while i < cfg.networks.len()
        invariant
            0 <= i <= cfg.networks.len(),
            c == cfg.deep_view(),
            lines == c.networks.map_values(|n: NetView| net_banner(n)),
            out.deep_view() == head + lines.take(i as int),
        decreases cfg.networks.len() - i,
    {
        assert(c.networks[i as int] == cfg.networks[i as int].deep_view());
        add_line(&mut out, net_line(&cfg.networks[i]));
        assert(out.deep_view() =~= head + lines.take(i + 1));
        i += 1;
    }
    assert(lines.take(i as int) =~= lines);
    add_line(&mut out, text::join2("[*] save dir:  ", cfg.server.save_dir.as_str()));
    add_line(&mut out, text::join2("[*] admin:     ", cfg.admin.socket.as_str()));
    if cfg.web.enabled {
        add_line(&mut out, text::join2("[*] web:       http://", cfg.web.listen.as_str()));
    }
    assert(out.deep_view() =~= banner(c, server_id));
    out
}

// ── Admin commands ───────────────────────────────────────────────────────
/// What can be done to clients from the command line.
#[derive(Debug, Clone, PartialEq, Eq)]
pub enum DeviceAction {
    List { net_uuid: Option<Uuid> },
    Change {
        client_uuid: Uuid,
        name: Option<String>,
        admitted: Option<bool>,
        ip: Option<String>,
        lan: Option<Vec<String>>,
    },
    Push { net_uuid: Uuid },
}

/// What can be asked from the command line.
#[derive(Debug, Clone, PartialEq, Eq)]
pub enum AdminCmd {
    Mknet { name: String, ip: Option<String> },
    Rename { net_uuid: Uuid, name: String },
    Rmnet { net_uuid: Uuid },
    Device { action: DeviceAction },
    Assign { client_uuid: Uuid, net: String },
    List,
    Send { msg: String },
    Sendfile { path: String },
    Shutdown,
}

/// The subnets that a command gives. An empty argument, which is one empty
/// subnet when it is split at its commas, stands for the empty list.
pub open spec fn given_subnets(lan: Option<Seq<Seq<char>>>) -> Option<Seq<Seq<char>>> {
    match lan {
        Some(v) => if v.len() == 1 && v[0].len() == 0 {
            Some(Seq::empty())
        } else {
            Some(v)
        },
        None => None,
    }
}

/// The subnets that a command gives.
fn subnets_given(lan: Option<Vec<String>>) -> (r: Option<Vec<String>>)
    ensures
        r.deep_view() == given_subnets(lan.deep_view()),
{
    match lan {
        Some(v) => {
            assert(v.len() == 1 ==> v.deep_view()[0] == v[0]@);
            if v.len() == 1 && v[0].as_str().is_empty() {
                let none: Vec<String> = Vec::new();
                assert(none.deep_view() =~= Seq::<Seq<char>>::empty());
                Some(none)
            } else {
                Some(v)
            }
        },
        None => None,
    }
}

/// The request that a command stands for. Only the network that a client is
/// moved to can be wrong.
pub open spec fn command_request(cmd: AdminCmd) -> Result<ReplView, Seq<char>> {
    match cmd {
        AdminCmd::Mknet { name, ip } => Ok(
            ReplView::Req(ServerReqView::MakeNet { name: name@, bridge_ip: ip.deep_view() }),
        ),
        AdminCmd::Rename { net_uuid, name } => Ok(
            ReplView::Req(ServerReqView::RenameNet { net_uuid: net_uuid, name: name@ }),
        ),
        AdminCmd::Rmnet { net_uuid } => Ok(
            ReplView::Req(ServerReqView::DeleteNet { net_uuid: net_uuid }),
        ),
        AdminCmd::Device { action } => Ok(
            ReplView::Req(
                match action {
                    DeviceAction::List { net_uuid } => ServerReqView::DeviceList {
                        net_uuid: net_uuid,
                    },
                    DeviceAction::Push { net_uuid } => ServerReqView::DevicePush {
                        net_uuid: net_uuid,
                    },
                    DeviceAction::Change { client_uuid, name, admitted, ip, lan } =>
                        ServerReqView::DeviceSet {
                        client_uuid: client_uuid,
                        name: name.deep_view(),
                        admitted: admitted,
                        tap_ip: ip.deep_view(),
                        lan_subnets: given_subnets(lan.deep_view()),
                    },
                },
            ),
        ),
        AdminCmd::Assign { client_uuid, net } => match repl::target_arg(net@) {
            Ok(n) => Ok(
                ReplView::Req(
                    ServerReqView::AssignClient { client_uuid: client_uuid, net_uuid: n },
                ),
            ),
            Err(e) => Err(e),
        },
        AdminCmd::List => Ok(ReplView::Req(ServerReqView::List)),
        AdminCmd::Send { msg } => Ok(ReplView::Req(ServerReqView::Send { msg: msg@ })),
        AdminCmd::Sendfile { path } => Ok(ReplView::SendFile(path@)),
        AdminCmd::Shutdown => Ok(ReplView::Req(ServerReqView::Shutdown)),
    }
}

/// The request that a command stands for.
pub fn admin_request(cmd: AdminCmd) -> (r: Result<ReplCmd, String>)
    ensures
        match r {
            Ok(c) => command_request(cmd) == Ok::<ReplView, Seq<char>>(c.deep_view()),
            Err(e) => command_request(cmd) == Err::<ReplView, Seq<char>>(e@),
        },
{
    let req = match cmd {
        AdminCmd::Mknet { name, ip } => ServerAdminReq::MakeNet { name: name, bridge_ip: ip },
        AdminCmd::Rename { net_uuid, name } => ServerAdminReq::RenameNet {
            net_uuid: net_uuid,
            name: name,
        },
        AdminCmd::Rmnet { net_uuid } => ServerAdminReq::DeleteNet { net_uuid: net_uuid },
        AdminCmd::Device { action } => match action {
            DeviceAction::List { net_uuid } => ServerAdminReq::DeviceList { net_uuid: net_uuid },
            DeviceAction::Push { net_uuid } => ServerAdminReq::DevicePush { net_uuid: net_uuid },
            DeviceAction::Change { client_uuid, name, admitted, ip, lan } => ServerAdminReq::DeviceSet {
                client_uuid: client_uuid,
                name: name,
                admitted: admitted,
                tap_ip: ip,
                lan_subnets: subnets_given(lan),
            },
        },
        AdminCmd::Assign { client_uuid, net } => match repl::parse_target(net.as_str()) {
            Ok(n) => ServerAdminReq::AssignClient { client_uuid: client_uuid, net_uuid: n },
            Err(e) => {
                return Err(e);
            },
        },
        AdminCmd::List => ServerAdminReq::List,
        AdminCmd::Send { msg } => ServerAdminReq::Send { msg: msg },
        AdminCmd::Sendfile { path } => {
            return Ok(ReplCmd::SendFile(path));
        },
        AdminCmd::Shutdown => ServerAdminReq::Shutdown,
    };
    Ok(ReplCmd::Req(req))
}

/// The request that sends a file; `name` is the last part of its path, where
/// it has one.
pub fn send_file(name: Option<String>, data: Vec<u8>) -> (r: ServerAdminReq)
    ensures
        r.deep_view() == (ServerReqView::SendFile {
            name: match name.deep_view() {
                Some(n) => n,
                None => "file"@,
            },
            data: data@,
        }),
{
    ServerAdminReq::SendFile {
        name: match name {
            Some(n) => n,
            None => "file".to_owned(),
        },
        data: data,
    }
}

/// A text with a line break at the end, where it has none yet.
pub fn as_lines(s: String) -> (r: String)
    ensures
        r@ == (if s@.len() > 0 && s@.last() == '\n' {
            s@
        } else {
            s@ + "\n"@
        }),
{
    let n: usize = s.as_str().unicode_len();
    if n > 0 && s.as_str().get_char(n - 1) == '\n' {
        s
    } else {
        text::join2(s.as_str(), "\n")
    }
}

// ── Laws ─────────────────────────────────────────────────────────────────
/// The command line replaces the socket and the web address where it names
/// them, and can switch the web interface off, but not on. Everything else
/// stays.
pub proof fn law_overrides(
    c: ServerConfigView,
    socket: Option<Seq<char>>,
    web_listen: Option<Seq<char>>,
    no_web: bool,
)
    ensures
        ({
            let t = overridden(c, socket, web_listen, no_web);
            &&& t == ServerConfigView { admin: t.admin, web: t.web, ..c }
            &&& t.admin == if socket is Some {
                socket->0
            } else {
                c.admin
            }
            &&& t.web.listen == if web_listen is Some {
                web_listen->0
            } else {
                c.web.listen
            }
            &&& t.web.enabled <==> c.web.enabled && !no_web
        }),
{
}

/// The server listens on its host and port.
pub proof fn law_listening_address(c: ServerConfigView)
    ensures
        listen_chars(c) == c.server.host + ":"@ + text::dec(c.server.port as nat),
{
}

/// Every command of the command line stands for the request that it names, with
/// what it holds; a file is read first.
pub proof fn law_commands(
    name: String,
    ip: Option<String>,
    n: Uuid,
    net: Option<Uuid>,
    msg: String,
    path: String,
)
    ensures
        command_request(AdminCmd::Mknet { name: name, ip: ip }) == Ok::<ReplView, Seq<char>>(
            ReplView::Req(ServerReqView::MakeNet { name: name@, bridge_ip: ip.deep_view() }),
        ),
        command_request(AdminCmd::Rename { net_uuid: n, name: name }) == Ok::<ReplView, Seq<char>>(
            ReplView::Req(ServerReqView::RenameNet { net_uuid: n, name: name@ }),
        ),
        command_request(AdminCmd::Rmnet { net_uuid: n }) == Ok::<ReplView, Seq<char>>(
            ReplView::Req(ServerReqView::DeleteNet { net_uuid: n }),
        ),
        command_request(
            AdminCmd::Device { action: DeviceAction::List { net_uuid: net } },
        ) == Ok::<ReplView, Seq<char>>(
            ReplView::Req(ServerReqView::DeviceList { net_uuid: net }),
        ),
        command_request(
            AdminCmd::Device { action: DeviceAction::Push { net_uuid: n } },
        ) == Ok::<ReplView, Seq<char>>(ReplView::Req(ServerReqView::DevicePush { net_uuid: n })),
        command_request(AdminCmd::List) == Ok::<ReplView, Seq<char>>(
            ReplView::Req(ServerReqView::List),
        ),
        command_request(AdminCmd::Send { msg: msg }) == Ok::<ReplView, Seq<char>>(
            ReplView::Req(ServerReqView::Send { msg: msg@ }),
        ),
        command_request(AdminCmd::Sendfile { path: path }) == Ok::<ReplView, Seq<char>>(
            ReplView::SendFile(path@),
        ),
        command_request(AdminCmd::Shutdown) == Ok::<ReplView, Seq<char>>(
            ReplView::Req(ServerReqView::Shutdown),
        ),
{
}

/// A command that changes a client hands on what it gives; an empty list of
/// subnets clears them. One that moves a client takes `none` and `-` for no
/// network.
pub proof fn law_client_commands(
    c: Uuid,
    name: Option<String>,
    admitted: Option<bool>,
    ip: Option<String>,
    lan: Option<Vec<String>>,
    net: String,
)
    ensures
        command_request(
            AdminCmd::Device {
                action: DeviceAction::Change {
                    client_uuid: c,
                    name: name,
                    admitted: admitted,
                    ip: ip,
                    lan: lan,
                },
            },
        ) matches Ok(ReplView::Req(ServerReqView::DeviceSet {
            client_uuid,
            name: n,
            admitted: a,
            tap_ip,
            lan_subnets,
        })) && client_uuid == c && n == name.deep_view() && a == admitted && tap_ip
            == ip.deep_view() && match lan.deep_view() {
            None => lan_subnets is None,
            Some(v) => if v.len() == 1 && v[0].len() == 0 {
                lan_subnets matches Some(l) && l.len() == 0
            } else {
                lan_subnets == Some(v)
            },
        },
        command_request(AdminCmd::Assign { client_uuid: c, net: net }) == if net@ == "none"@ || net@
            == "-"@ {
            Ok::<ReplView, Seq<char>>(
                ReplView::Req(ServerReqView::AssignClient { client_uuid: c, net_uuid: None }),
            )
        } else {
            match uuids::uuid_parsed(net@) {
                Ok(u) => Ok(
                    ReplView::Req(
                        ServerReqView::AssignClient { client_uuid: c, net_uuid: Some(Uuid(u)) },
                    ),
                ),
                Err(_) => Err(
                    "bad net uuid: "@ + text::debug_chars(net@) + " (use a UUID or `none`)"@,
                ),
            }
        },
{
}

/// What is printed at the start: who the server is, where it listens, its
/// networks, where it keeps files, where it is administered, and where its web
/// interface is, if it is on.
pub proof fn law_start_is_announced(c: ServerConfigView, id: Uuid, i: int)
    ensures
        ({
            let b = banner(c, id);
            let n = c.networks.len() as int;
            &&& b.len() == 5 + n + (if c.web.enabled {
                1int
            } else {
                0int
            })
            &&& b[0] == "[*] server id: "@ + uuids::uuid_chars(id)
            &&& b[1] == "[*] listen:    "@ + listen_chars(c)
            &&& b[2] == "[*] networks:  "@ + text::dec(c.networks.len())
            &&& 0 <= i < n ==> b[3 + i] == "    └─ "@ + c.networks[i].name + " ("@
                + uuids::uuid_chars(c.networks[i].uuid) + ") bridge="@ + c.networks[i].bridge_name
                + (if c.networks[i].bridge_ip.len() > 0 {
                " ip="@ + c.networks[i].bridge_ip
            } else {
                Seq::empty()
            })
            &&& b[3 + n] == "[*] save dir:  "@ + c.server.save_dir
            &&& b[4 + n] == "[*] admin:     "@ + c.admin
            &&& c.web.enabled ==> b[5 + n] == "[*] web:       http://"@ + c.web.listen
        }),
{
}

} // verus!
