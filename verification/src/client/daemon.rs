//! Starting the client, and its command line arguments.
use vstd::prelude::*;
use vstd::string::*;

use crate::admin::{ClientAdminReq, ClientReqView};
use crate::config::{ClientConfig, ClientConfigView, ClientCoreView, ProxyConfigView};
use crate::text;
use crate::uuids;
use crate::uuids::Uuid;

verus! {

/// A configuration with what the command line says taken in.
pub open spec fn overridden(
    c: ClientConfigView,
    socket: Option<Seq<char>>,
    no_proxy: bool,
) -> ClientConfigView {
    ClientConfigView {
        admin: match socket {
            Some(s) => s,
            None => c.admin,
        },
        proxy: ProxyConfigView { enabled: c.proxy.enabled && !no_proxy, ..c.proxy },
        ..c
    }
}

/// Takes in what the command line says.
pub fn apply_overrides(cfg: &mut ClientConfig, socket: Option<String>, no_proxy: bool)
    ensures
        final(cfg).deep_view() == overridden(old(cfg).deep_view(), socket.deep_view(), no_proxy),
{
    match socket {
        Some(s) => {
            cfg.admin.socket = s;
        },
        None => {},
    }
    if no_proxy {
        cfg.proxy.enabled = false;
    }
    assert(cfg.deep_view() =~= overridden(old(cfg).deep_view(), socket.deep_view(), no_proxy));
}

/// Gives a client without an identity the identity `fresh`, and says whether
/// it did.
pub fn ensure_uuid(cfg: &mut ClientConfig, fresh: Uuid) -> (r: bool)
    ensures
        r == (old(cfg).deep_view().client.uuid.len() == 0),
        !r ==> final(cfg).deep_view() == old(cfg).deep_view(),
        r ==> final(cfg).deep_view() == (ClientConfigView {
            client: ClientCoreView {
                uuid: uuids::uuid_chars(fresh),
                ..old(cfg).deep_view().client
            },
            ..old(cfg).deep_view()
        }),
        r ==> uuids::reads_as(final(cfg).deep_view().client.uuid, fresh),
{
    if cfg.client.uuid.as_str().is_empty() {
        cfg.client.uuid = fresh.to_text();
        true
    } else {
        false
    }
}

/// What is printed when the client starts.
pub open spec fn banner(c: ClientConfigView) -> Seq<Seq<char>> {
    seq![
        "[*] client uuid: "@ + c.client.uuid,
        "[*] target: "@ + c.client.host + ":"@ + text::dec(c.client.port as nat) + (
        if c.proxy.enabled {
            " via SOCKS5 "@ + c.proxy.host + ":"@ + text::dec(c.proxy.port as nat)
        } else {
            " (direct)"@
        }),
        "[*] admin: "@ + c.admin,
    ]
}

/// What to print when the client starts.
pub fn startup_lines(cfg: &ClientConfig) -> (r: Vec<String>)
    ensures
        r.deep_view() == banner(cfg.deep_view()),
{
    let mut out: Vec<String> = Vec::new();
    out.push(text::join2("[*] client uuid: ", cfg.client.uuid.as_str()));
    let mut target = "[*] target: ".to_owned();
    target.append(cfg.client.host.as_str());
    target.append(":");
    let p = text::dec_text(cfg.client.port as u64);
    target.append(p.as_str());
    let way: String = if cfg.proxy.enabled {
        let q = text::dec_text(cfg.proxy.port as u64);
        let h = text::join3(" via SOCKS5 ", cfg.proxy.host.as_str(), ":");
        text::join2(h.as_str(), q.as_str())
    } else {
        " (direct)".to_owned()
    };
    target.append(way.as_str());
    out.push(target);
    out.push(text::join2("[*] admin: ", cfg.admin.socket.as_str()));
    assert(out.deep_view() =~= banner(cfg.deep_view()));
    out
}

/// What can be asked from the command line.
#[derive(Debug, Clone, PartialEq, Eq)]
pub enum AdminCmd {
    Join { net_uuid: Uuid },
    Leave,
    Status,
    Send { msg: String },
    Sendfile { path: String },
    Shutdown,
}

/// What to do for a command of the command line.
#[derive(Debug, Clone, PartialEq, Eq)]
pub enum AdminStep {
    Req(ClientAdminReq),
    /// Read this file, and send it.
    SendFile(String),
}

/// The content of an [`AdminStep`].
#[verifier::ext_equal]
pub enum AdminStepView {
    Req(ClientReqView),
    SendFile(Seq<char>),
}

impl DeepView for AdminStep {
    type V = AdminStepView;

    open spec fn deep_view(&self) -> AdminStepView {
        match self {
            AdminStep::Req(q) => AdminStepView::Req(q.deep_view()),
            AdminStep::SendFile(p) => AdminStepView::SendFile(p@),
        }
    }
}

/// The request that a command stands for, or the file to read first.
pub open spec fn command_step(cmd: AdminCmd) -> AdminStepView {
    match cmd {
        AdminCmd::Join { net_uuid } => AdminStepView::Req(
            ClientReqView::Join { net_uuid: net_uuid },
        ),
        AdminCmd::Leave => AdminStepView::Req(ClientReqView::Leave),
        AdminCmd::Status => AdminStepView::Req(ClientReqView::Status),
        AdminCmd::Send { msg } => AdminStepView::Req(ClientReqView::Send { msg: msg@ }),
        AdminCmd::Sendfile { path } => AdminStepView::SendFile(path@),
        AdminCmd::Shutdown => AdminStepView::Req(ClientReqView::Shutdown),
    }
}

/// The request that a command stands for, or the file to read first.
pub fn admin_request(cmd: AdminCmd) -> (r: AdminStep)
    ensures
        r.deep_view() == command_step(cmd),
{
    match cmd {
        AdminCmd::Join { net_uuid } => AdminStep::Req(ClientAdminReq::Join { net_uuid: net_uuid }),
        AdminCmd::Leave => AdminStep::Req(ClientAdminReq::Leave),
        AdminCmd::Status => AdminStep::Req(ClientAdminReq::Status),
        AdminCmd::Send { msg } => AdminStep::Req(ClientAdminReq::Send { msg: msg }),
        AdminCmd::Sendfile { path } => AdminStep::SendFile(path),
        AdminCmd::Shutdown => AdminStep::Req(ClientAdminReq::Shutdown),
    }
}

/// The request that sends a file; `name` is the last part of its path, where
/// it has one.
pub fn send_file(name: Option<String>, data: Vec<u8>) -> (r: ClientAdminReq)
    ensures
        r.deep_view() == (ClientReqView::SendFile {
            name: match name.deep_view() {
                Some(n) => n,
                None => "file"@,
            },
            data: data@,
        }),
{
    ClientAdminReq::SendFile {
        name: match name {
            Some(n) => n,
            None => "file".to_owned(),
        },
        data: data,
    }
}

/// The command line replaces the socket where it names one, and can switch the
/// proxy off, but not on. Everything else stays.
pub proof fn law_overrides(c: ClientConfigView, socket: Option<Seq<char>>, no_proxy: bool)
    ensures
        ({
            let t = overridden(c, socket, no_proxy);
            &&& t.admin == if socket is Some {
                socket->0
            } else {
                c.admin
            }
            &&& t.proxy.enabled <==> c.proxy.enabled && !no_proxy
            &&& t.proxy.host == c.proxy.host && t.proxy.port == c.proxy.port
            &&& t.client == c.client && t.tap_ip == c.tap_ip && t.routes == c.routes
        }),
{
}

/// Every command of the command line stands for the request that it names, with
/// what it holds; a file is read first.
pub proof fn law_commands(net: Uuid, msg: String, path: String)
    ensures
        command_step(AdminCmd::Join { net_uuid: net }) == AdminStepView::Req(
            ClientReqView::Join { net_uuid: net },
        ),
        command_step(AdminCmd::Leave) == AdminStepView::Req(ClientReqView::Leave),
        command_step(AdminCmd::Status) == AdminStepView::Req(ClientReqView::Status),
        command_step(AdminCmd::Send { msg: msg }) == AdminStepView::Req(
            ClientReqView::Send { msg: msg@ },
        ),
        command_step(AdminCmd::Sendfile { path: path }) == AdminStepView::SendFile(path@),
        command_step(AdminCmd::Shutdown) == AdminStepView::Req(ClientReqView::Shutdown),
{
}

/// What is printed at the start: who the client is, where it connects to, by
/// which proxy, if any, and where it is administered.
pub proof fn law_start_is_announced(c: ClientConfigView)
    ensures
        ({
            let target = "[*] target: "@ + c.client.host + ":"@ + text::dec(c.client.port as nat);
            &&& banner(c).len() == 3
            &&& banner(c)[0] == "[*] client uuid: "@ + c.client.uuid
            &&& c.proxy.enabled ==> banner(c)[1] == target + (" via SOCKS5 "@ + c.proxy.host + ":"@
                + text::dec(c.proxy.port as nat))
            &&& !c.proxy.enabled ==> banner(c)[1] == target + " (direct)"@
            &&& banner(c)[2] == "[*] admin: "@ + c.admin
        }),
{
}

} // verus!
