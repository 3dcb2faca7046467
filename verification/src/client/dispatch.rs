//! What the client does with admin requests.
use vstd::prelude::*;
use vstd::string::*;

use crate::admin::{ClientAdminReq, ClientAdminResp, ClientReqView, ClientRespView};
use crate::client::repl;
use crate::client::repl::{ClientStatusSnapshot, StatusView, UserCmd, UserView};
use crate::text;
use crate::uuids::Uuid;

verus! {

/// How long to wait for the controller to say how things stand, in seconds.
pub const STATUS_WAIT: u64 = 2;

/// The command that a request stands for.
pub open spec fn command(q: ClientReqView) -> UserView {
    match q {
        ClientReqView::Join { net_uuid } => UserView::Join(net_uuid),
        ClientReqView::Leave => UserView::Leave,
        ClientReqView::Status => UserView::Status,
        ClientReqView::Send { msg } => UserView::SendText(msg),
        ClientReqView::SendFile { name, data } => UserView::SendFile { name: name, data: data },
        ClientReqView::Shutdown => UserView::Quit,
    }
}

/// The command that a request stands for.
pub fn dispatch(req: ClientAdminReq) -> (r: UserCmd)
    ensures
        r.deep_view() == command(req.deep_view()),
{
    match req {
        ClientAdminReq::Join { net_uuid } => UserCmd::Join(net_uuid),
        ClientAdminReq::Leave => UserCmd::Leave,
        ClientAdminReq::Status => UserCmd::Status,
        ClientAdminReq::Send { msg } => UserCmd::SendText(msg),
        ClientAdminReq::SendFile { name, data } => UserCmd::SendFile { name: name, data: data },
        ClientAdminReq::Shutdown => UserCmd::Quit,
    }
}

/// Whether the daemon ends after the answer to a request.
pub fn ends_daemon(req: &ClientAdminReq) -> (r: bool)
    ensures
        r == (req.deep_view() is Shutdown),
{
    match req {
        ClientAdminReq::Shutdown => true,
        _ => false,
    }
}

/// What came of handing a command to the controller.
#[derive(Debug)]
pub enum Delivery {
    /// It has ended.
    Gone,
    /// It took the command, which asks for no answer.
    Taken,
    /// It said how things stand.
    Answered(ClientStatusSnapshot),
    /// It took the question how things stand, and did not answer in time.
    Unanswered,
}

/// The content of a [`Delivery`].
#[verifier::ext_equal]
pub enum DeliveryView {
    Gone,
    Taken,
    Answered(StatusView),
    Unanswered,
}

impl DeepView for Delivery {
    type V = DeliveryView;

    open spec fn deep_view(&self) -> DeliveryView {
        match self {
            Delivery::Gone => DeliveryView::Gone,
            Delivery::Taken => DeliveryView::Taken,
            Delivery::Answered(s) => DeliveryView::Answered(s.deep_view()),
            Delivery::Unanswered => DeliveryView::Unanswered,
        }
    }
}

/// The response to a request whose command was delivered so.
pub open spec fn answer(d: DeliveryView) -> ClientRespView {
    match d {
        DeliveryView::Gone => ClientRespView::Error("app gone"@),
        DeliveryView::Taken => ClientRespView::Done,
        DeliveryView::Answered(s) => ClientRespView::Status {
            client_uuid: s.client_uuid,
            connected: s.connected,
            joined_network: s.joined_network,
            tap_name: s.tap_name,
            tap_ip: s.tap_ip,
        },
        DeliveryView::Unanswered => ClientRespView::Error("status query timed out"@),
    }
}

/// The response to a request whose command was delivered so.
pub fn answered(d: Delivery) -> (r: ClientAdminResp)
    ensures
        r.deep_view() == answer(d.deep_view()),
{
    match d {
        Delivery::Gone => ClientAdminResp::Error("app gone".to_owned()),
        Delivery::Taken => ClientAdminResp::Done,
        Delivery::Answered(s) => ClientAdminResp::Status {
            client_uuid: s.client_uuid,
            connected: s.connected,
            joined_network: s.joined_network,
            tap_name: s.tap_name,
            tap_ip: s.tap_ip,
        },
        Delivery::Unanswered => ClientAdminResp::Error("status query timed out".to_owned()),
    }
}

/// A response as text.
pub open spec fn resp_chars(r: ClientRespView) -> Seq<char> {
    match r {
        ClientRespView::Done => "ok"@,
        ClientRespView::Error(e) => "error: "@ + e,
        ClientRespView::Status { client_uuid, connected, joined_network, tap_name, tap_ip } =>
            repl::status_chars(
            StatusView {
                client_uuid: client_uuid,
                connected: connected,
                joined_network: joined_network,
                tap_name: tap_name,
                tap_ip: tap_ip,
            },
        ),
    }
}

/// A response as text.
pub fn format_resp(resp: &ClientAdminResp) -> (r: String)
    ensures
        r@ == resp_chars(resp.deep_view()),
{
    match resp {
        ClientAdminResp::Done => "ok".to_owned(),
        ClientAdminResp::Error(e) => text::join2("error: ", e.as_str()),
        ClientAdminResp::Status { client_uuid, connected, joined_network, tap_name, tap_ip } =>
            repl::format_status(
            &ClientStatusSnapshot {
                client_uuid: *client_uuid,
                connected: *connected,
                joined_network: *joined_network,
                tap_name: text::copy_opt(tap_name),
                tap_ip: text::copy_opt(tap_ip),
            },
        ),
    }
}

/// The socket and the command line show the state of the client in the same
/// words.
pub proof fn law_status_reads_the_same(s: StatusView)
    ensures
        resp_chars(answer(DeliveryView::Answered(s))) == repl::status_chars(s),
{
}

/// Every request is handed on as the command that it names, with what it holds;
/// the answer says whether it was taken, or how things stand.
pub proof fn law_requests_are_handed_on(
    net: Uuid,
    msg: Seq<char>,
    name: Seq<char>,
    data: Seq<u8>,
    s: StatusView,
)
    ensures
        command(ClientReqView::Join { net_uuid: net }) == UserView::Join(net),
        command(ClientReqView::Leave) is Leave,
        command(ClientReqView::Status) is Status,
        command(ClientReqView::Send { msg: msg }) == UserView::SendText(msg),
        command(ClientReqView::SendFile { name: name, data: data }) == (UserView::SendFile {
            name: name,
            data: data,
        }),
        command(ClientReqView::Shutdown) is Quit,
        answer(DeliveryView::Taken) is Done,
        answer(DeliveryView::Gone) == ClientRespView::Error("app gone"@),
        answer(DeliveryView::Unanswered) == ClientRespView::Error("status query timed out"@),
        answer(DeliveryView::Answered(s)) == (ClientRespView::Status {
            client_uuid: s.client_uuid,
            connected: s.connected,
            joined_network: s.joined_network,
            tap_name: s.tap_name,
            tap_ip: s.tap_ip,
        }),
{
}

} // verus!
