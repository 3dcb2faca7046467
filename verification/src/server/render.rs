//! Responses as text for people.
use vstd::prelude::*;
use vstd::string::*;

use crate::admin::{
    NetEntry, NetEntryView, PendingEntry, RouteRow, ServerAdminResp, ServerRespView, SessionEntry,
    SessionEntryView, SnapshotDataView,
};
use crate::device::{DeviceEntry, DeviceView};
use crate::frame::RouteView;
use crate::text;
use crate::uuids;
use crate::uuids::Uuid;

verus! {

// ── What is written ──────────────────────────────────────────────────────
/// A text, or a dash where there is none.
pub open spec fn or_dash(s: Option<Seq<char>>) -> Seq<char> {
    match s {
        Some(s) => s,
        None => "-"@,
    }
}

/// The short form of a network, or a dash where there is none.
pub open spec fn net_chars(n: Option<Uuid>) -> Seq<char> {
    match n {
        Some(n) => uuids::short_chars(n),
        None => "-"@,
    }
}

/// Subnets with commas between them, or a dash where there are none.
pub open spec fn lan_chars(subnets: Seq<Seq<char>>) -> Seq<char> {
    if subnets.len() == 0 {
        "-"@
    } else {
        text::joined(subnets, ","@)
    }
}

/// What is said of a device, after its identity.
pub open spec fn device_fields(d: DeviceView) -> Seq<char> {
    " net="@ + net_chars(d.net_uuid) + " name="@ + text::debug_chars(d.display_name) + " admitted="@
        + text::bool_chars(d.admitted) + " ip="@ + or_dash(d.tap_ip) + " lan="@ + lan_chars(
        d.lan_subnets,
    ) + " online="@ + text::bool_chars(d.online)
}

/// A device in a list.
pub open spec fn device_line(d: DeviceView) -> Seq<char> {
    "  client="@ + uuids::short_chars(d.client_uuid) + device_fields(d) + "\n"@
}

/// A route in a list.
pub open spec fn route_line(r: RouteView) -> Seq<char> {
    "  "@ + r.dst + " via "@ + r.via + "\n"@
}

/// A network in a list.
pub open spec fn net_line(n: NetEntryView) -> Seq<char> {
    "  "@ + n.name + " "@ + uuids::uuid_chars(n.uuid) + "\n"@
}

/// A session in a list.
pub open spec fn session_line(x: SessionEntryView) -> Seq<char> {
    "  sid="@ + text::dec(x.sid as nat) + " client="@ + uuids::short_chars(x.client_uuid)
        + " net="@ + uuids::short_chars(x.net_uuid) + " tap="@ + x.tap_name + " ip="@ + or_dash(
        x.tap_ip,
    ) + " bound="@ + text::bool_chars(x.bound) + "\n"@
}

/// A waiting client in a list.
pub open spec fn pending_line(p: PendingEntry) -> Seq<char> {
    "  client="@ + uuids::short_chars(p.client_uuid) + " net="@ + uuids::short_chars(p.net_uuid)
        + "\n"@
}

/// What is written for an empty list.
pub open spec fn none_line(len: nat) -> Seq<char> {
    if len == 0 {
        "  (none)\n"@
    } else {
        Seq::empty()
    }
}

/// The lines of a device list.
pub open spec fn device_lines(v: Seq<DeviceView>) -> Seq<char>
    decreases v.len(),
{
    if v.len() == 0 {
        Seq::empty()
    } else {
        device_lines(v.drop_last()) + device_line(v.last())
    }
}

/// The lines of a routing table.
pub open spec fn route_lines(v: Seq<RouteView>) -> Seq<char>
    decreases v.len(),
{
    if v.len() == 0 {
        Seq::empty()
    } else {
        route_lines(v.drop_last()) + route_line(v.last())
    }
}

/// The lines of a network list.
pub open spec fn net_lines(v: Seq<NetEntryView>) -> Seq<char>
    decreases v.len(),
{
    if v.len() == 0 {
        Seq::empty()
    } else {
        net_lines(v.drop_last()) + net_line(v.last())
    }
}

/// The lines of a session list.
pub open spec fn session_lines(v: Seq<SessionEntryView>) -> Seq<char>
    decreases v.len(),
{
    if v.len() == 0 {
        Seq::empty()
    } else {
        session_lines(v.drop_last()) + session_line(v.last())
    }
}

/// The lines of a list of waiting clients.
pub open spec fn pending_lines(v: Seq<PendingEntry>) -> Seq<char>
    decreases v.len(),
{
    if v.len() == 0 {
        Seq::empty()
    } else {
        pending_lines(v.drop_last()) + pending_line(v.last())
    }
}

/// A snapshot.
pub open spec fn snapshot_chars(s: SnapshotDataView) -> Seq<char> {
    "── networks ──\n"@ + none_line(s.networks.len()) + net_lines(s.networks)
        + "── sessions ──\n"@ + none_line(s.sessions.len()) + session_lines(s.sessions)
        + "── pending ──\n"@ + none_line(s.pending.len()) + pending_lines(s.pending)
}

/// A response.
pub open spec fn resp_chars(r: ServerRespView) -> Seq<char> {
    match r {
        ServerRespView::Done => "ok"@,
        ServerRespView::Count(n) => text::dec(n as nat),
        ServerRespView::NetCreated { uuid } => "network created  uuid="@ + uuids::uuid_chars(uuid),
        ServerRespView::Device(d) => "device "@ + uuids::short_chars(d.client_uuid)
            + device_fields(d),
        ServerRespView::Devices(v) => "── devices ──\n"@ + none_line(v.len()) + device_lines(v),
        ServerRespView::Pushed { count, routes } => "pushed to "@ + text::dec(count as nat)
            + " client(s); "@ + text::dec(routes.len()) + " route(s):\n"@ + route_lines(routes),
        ServerRespView::NotFound => "not found"@,
        ServerRespView::InvalidIp => "invalid ip/cidr"@,
        ServerRespView::Conflict { msg } => "conflict: "@ + msg,
        ServerRespView::Snapshot(s) => snapshot_chars(s),
        ServerRespView::Error(e) => "error: "@ + e,
    }
}

// ── Writing it ───────────────────────────────────────────────────────────
fn add_opt(out: &mut String, s: &Option<String>)
    ensures
        final(out)@ == old(out)@ + or_dash(s.deep_view()),
{
    match s {
        Some(s) => out.append(s.as_str()),
        None => out.append("-"),
    }
}

fn add_short(out: &mut String, u: Uuid)
    ensures
        final(out)@ == old(out)@ + uuids::short_chars(u),
{
    let s = u.short();
    out.append(s.as_str());
}

fn add_bool(out: &mut String, b: bool)
    ensures
        final(out)@ == old(out)@ + text::bool_chars(b),
{
    let s = text::bool_text(b);
    out.append(s.as_str());
}

fn add_dec(out: &mut String, n: u64)
    ensures
        final(out)@ == old(out)@ + text::dec(n as nat),
{
    let s = text::dec_text(n);
    out.append(s.as_str());
}

fn fields_text(d: &DeviceEntry) -> (r: String)
    ensures
        r@ == device_fields(d.deep_view()),
{
    let mut s = " net=".to_owned();
    match d.net_uuid {
        Some(n) => add_short(&mut s, n),
        None => s.append("-"),
    }
    s.append(" name=");
    let name = text::debug_text(d.display_name.as_str());
    s.append(name.as_str());
    s.append(" admitted=");
    add_bool(&mut s, d.admitted);
    s.append(" ip=");
    add_opt(&mut s, &d.tap_ip);
    s.append(" lan=");
    if d.lan_subnets.len() == 0 {
        s.append("-");
    } else {
        let lan = text::join_all(&d.lan_subnets, ",");
        s.append(lan.as_str());
    }
    s.append(" online=");
    add_bool(&mut s, d.online);
    s
}

fn device_text(d: &DeviceEntry) -> (r: String)
    ensures
        r@ == device_line(d.deep_view()),
{
    let mut s = "  client=".to_owned();
    add_short(&mut s, d.client_uuid);
    let f = fields_text(d);
    s.append(f.as_str());
    s.append("\n");
    s
}

fn route_text(r: &RouteRow) -> (t: String)
    ensures
        t@ == route_line(r.deep_view()),
{
    let mut s = "  ".to_owned();
    s.append(r.dst.as_str());
    s.append(" via ");
    s.append(r.via.as_str());
    s.append("\n");
    s
}

fn net_text(n: &NetEntry) -> (r: String)
    ensures
        r@ == net_line(n.deep_view()),
{
    let mut s = "  ".to_owned();
    s.append(n.name.as_str());
    s.append(" ");
    let id = n.uuid.to_text();
    s.append(id.as_str());
    s.append("\n");
    s
}

fn session_text(x: &SessionEntry) -> (r: String)
    ensures
        r@ == session_line(x.deep_view()),
{
    let mut s = "  sid=".to_owned();
    add_dec(&mut s, x.sid);
    s.append(" client=");
    add_short(&mut s, x.client_uuid);
    s.append(" net=");
    add_short(&mut s, x.net_uuid);
    s.append(" tap=");
    s.append(x.tap_name.as_str());
    s.append(" ip=");
    add_opt(&mut s, &x.tap_ip);
    s.append(" bound=");
    add_bool(&mut s, x.bound);
    s.append("\n");
    s
}

fn pending_text(p: &PendingEntry) -> (r: String)
    ensures
        r@ == pending_line(*p),
{
    let mut s = "  client=".to_owned();
    add_short(&mut s, p.client_uuid);
    s.append(" net=");
    add_short(&mut s, p.net_uuid);
    s.append("\n");
    s
}

fn add_none(out: &mut String, len: usize)
    ensures
        final(out)@ == old(out)@ + none_line(len as nat),
{
    let ghost start = out@;
    if len == 0 {
        out.append("  (none)\n");
    }
    assert(out@ =~= start + none_line(len as nat));
}

fn add_devices(out: &mut String, v: &Vec<DeviceEntry>)
    ensures
        final(out)@ == old(out)@ + device_lines(v.deep_view()),
{
    let ghost start = out@;
    let ghost all = v.deep_view();
    let mut i: usize = 0;
    assert(start + device_lines(all.take(0)) =~= start);
    while i < v.len()
        invariant
            0 <= i <= v.len(),
            all == v.deep_view(),
            out@ == start + device_lines(all.take(i as int)),
        decreases v.len() - i,
    {
        let t = device_text(&v[i]);
        out.append(t.as_str());
        assert(all.take(i + 1).drop_last() =~= all.take(i as int));
        assert(all.take(i + 1).last() == v[i as int].deep_view());
        assert(out@ =~= start + device_lines(all.take(i + 1)));
        i += 1;
    }
    assert(all.take(i as int) =~= all);
}

fn add_routes(out: &mut String, v: &Vec<RouteRow>)
    ensures
        final(out)@ == old(out)@ + route_lines(v.deep_view()),
{
    let ghost start = out@;
    let ghost all = v.deep_view();
    let mut i: usize = 0;
    assert(start + route_lines(all.take(0)) =~= start);
    while i < v.len()
        invariant
            0 <= i <= v.len(),
            all == v.deep_view(),
            out@ == start + route_lines(all.take(i as int)),
        decreases v.len() - i,
    {
        let t = route_text(&v[i]);
        out.append(t.as_str());
        assert(all.take(i + 1).drop_last() =~= all.take(i as int));
        assert(all.take(i + 1).last() == v[i as int].deep_view());
        assert(out@ =~= start + route_lines(all.take(i + 1)));
        i += 1;
    }
    assert(all.take(i as int) =~= all);
}

fn add_nets(out: &mut String, v: &Vec<NetEntry>)
    ensures
        final(out)@ == old(out)@ + net_lines(v.deep_view()),
{
    let ghost start = out@;
    let ghost all = v.deep_view();
    let mut i: usize = 0;
    assert(start + net_lines(all.take(0)) =~= start);
    while i < v.len()
        invariant
            0 <= i <= v.len(),
            all == v.deep_view(),
            out@ == start + net_lines(all.take(i as int)),
        decreases v.len() - i,
    {
        let t = net_text(&v[i]);
        out.append(t.as_str());
        assert(all.take(i + 1).drop_last() =~= all.take(i as int));
        assert(all.take(i + 1).last() == v[i as int].deep_view());
        assert(out@ =~= start + net_lines(all.take(i + 1)));
        i += 1;
    }
    assert(all.take(i as int) =~= all);
}

fn add_sessions(out: &mut String, v: &Vec<SessionEntry>)
    ensures
        final(out)@ == old(out)@ + session_lines(v.deep_view()),
{
    let ghost start = out@;
    let ghost all = v.deep_view();
    let mut i: usize = 0;
    assert(start + session_lines(all.take(0)) =~= start);
    while i < v.len()
        invariant
            0 <= i <= v.len(),
            all == v.deep_view(),
            out@ == start + session_lines(all.take(i as int)),
        decreases v.len() - i,
    {
        let t = session_text(&v[i]);
        out.append(t.as_str());
        assert(all.take(i + 1).drop_last() =~= all.take(i as int));
        assert(all.take(i + 1).last() == v[i as int].deep_view());
        assert(out@ =~= start + session_lines(all.take(i + 1)));
        i += 1;
    }
    assert(all.take(i as int) =~= all);
}

fn add_pending(out: &mut String, v: &Vec<PendingEntry>)
    ensures
        final(out)@ == old(out)@ + pending_lines(v@),
{
    let ghost start = out@;
    let mut i: usize = 0;
    assert(start + pending_lines(v@.take(0)) =~= start);
    while i < v.len()
        invariant
            0 <= i <= v.len(),
            out@ == start + pending_lines(v@.take(i as int)),
        decreases v.len() - i,
    {
        let t = pending_text(&v[i]);
        out.append(t.as_str());
        assert(v@.take(i + 1).drop_last() =~= v@.take(i as int));
        assert(out@ =~= start + pending_lines(v@.take(i + 1)));
        i += 1;
    }
    assert(v@.take(i as int) =~= v@);
}

/// A response as text for people.
pub fn format_resp(resp: &ServerAdminResp) -> (r: String)
    ensures
        r@ == resp_chars(resp.deep_view()),
{
    match resp {
        ServerAdminResp::Done => "ok".to_owned(),
        ServerAdminResp::Count(n) => text::dec_text(*n),
        ServerAdminResp::NetCreated { uuid } => {
            let id = uuid.to_text();
            text::join2("network created  uuid=", id.as_str())
        },
        ServerAdminResp::Device(d) => {
            let mut s = "device ".to_owned();
            add_short(&mut s, d.client_uuid);
            let f = fields_text(d);
            s.append(f.as_str());
            s
        },
        ServerAdminResp::Devices(v) => {
            let mut s = "── devices ──\n".to_owned();
            add_none(&mut s, v.len());
            add_devices(&mut s, v);
            s
        },
        ServerAdminResp::Pushed { count, routes } => {
            let mut s = "pushed to ".to_owned();
            add_dec(&mut s, *count);
            s.append(" client(s); ");
            add_dec(&mut s, routes.len() as u64);
            s.append(" route(s):\n");
            add_routes(&mut s, routes);
            s
        },
        ServerAdminResp::NotFound => "not found".to_owned(),
        ServerAdminResp::InvalidIp => "invalid ip/cidr".to_owned(),
        ServerAdminResp::Conflict { msg } => text::join2("conflict: ", msg.as_str()),
        ServerAdminResp::Snapshot(snap) => {
            let mut s = "── networks ──\n".to_owned();
            add_none(&mut s, snap.networks.len());
            add_nets(&mut s, &snap.networks);
            s.append("── sessions ──\n");
            add_none(&mut s, snap.sessions.len());
            add_sessions(&mut s, &snap.sessions);
            s.append("── pending ──\n");
            add_none(&mut s, snap.pending.len());
            add_pending(&mut s, &snap.pending);
            s
        },
        ServerAdminResp::Error(e) => text::join2("error: ", e.as_str()),
    }
}

// ── Laws ─────────────────────────────────────────────────────────────────
/// Lists are written line by line, in their order, and an empty one says so.
pub proof fn law_lists_are_written_in_order(
    devices: Seq<DeviceView>,
    d: DeviceView,
    routes: Seq<RouteView>,
    r: RouteView,
    nets: Seq<NetEntryView>,
    n: NetEntryView,
    sessions: Seq<SessionEntryView>,
    x: SessionEntryView,
    waiting: Seq<PendingEntry>,
    p: PendingEntry,
)
    ensures
        device_lines(devices.push(d)) == device_lines(devices) + device_line(d),
        route_lines(routes.push(r)) == route_lines(routes) + ("  "@ + r.dst + " via "@ + r.via
            + "\n"@),
        net_lines(nets.push(n)) == net_lines(nets) + ("  "@ + n.name + " "@ + uuids::uuid_chars(
            n.uuid,
        ) + "\n"@),
        session_lines(sessions.push(x)) == session_lines(sessions) + session_line(x),
        pending_lines(waiting.push(p)) == pending_lines(waiting) + ("  client="@
            + uuids::short_chars(p.client_uuid) + " net="@ + uuids::short_chars(p.net_uuid)
            + "\n"@),
        resp_chars(ServerRespView::Devices(Seq::empty())) == "── devices ──\n"@ + "  (none)\n"@,
{
    assert(devices.push(d).drop_last() =~= devices);
    assert(routes.push(r).drop_last() =~= routes);
    assert(nets.push(n).drop_last() =~= nets);
    assert(sessions.push(x).drop_last() =~= sessions);
    assert(waiting.push(p).drop_last() =~= waiting);
    assert("── devices ──\n"@ + "  (none)\n"@ + device_lines(Seq::empty())
        =~= "── devices ──\n"@ + "  (none)\n"@);
}

/// What is written of a device: its network, name, admission, address, subnets
/// and whether it is online, with a dash for what it does not have.
pub proof fn law_devices_are_written_whole(d: DeviceView)
    ensures
        device_fields(d) == " net="@ + (if d.net_uuid is Some {
            uuids::short_chars(d.net_uuid->0)
        } else {
            "-"@
        }) + " name="@ + text::debug_chars(d.display_name) + " admitted="@ + (if d.admitted {
            "true"@
        } else {
            "false"@
        }) + " ip="@ + (if d.tap_ip is Some {
            d.tap_ip->0
        } else {
            "-"@
        }) + " lan="@ + (if d.lan_subnets.len() > 0 {
            text::joined(d.lan_subnets, ","@)
        } else {
            "-"@
        }) + " online="@ + (if d.online {
            "true"@
        } else {
            "false"@
        }),
        device_line(d) == "  client="@ + uuids::short_chars(d.client_uuid) + device_fields(d)
            + "\n"@,
        resp_chars(ServerRespView::Device(d)) == "device "@ + uuids::short_chars(d.client_uuid)
            + device_fields(d),
{
}

/// What is written of a session: its identity, client, network, TAP and
/// address, and whether it is bound.
pub proof fn law_sessions_are_written_whole(x: SessionEntryView)
    ensures
        session_line(x) == "  sid="@ + text::dec(x.sid as nat) + " client="@ + uuids::short_chars(
            x.client_uuid,
        ) + " net="@ + uuids::short_chars(x.net_uuid) + " tap="@ + x.tap_name + " ip="@ + (
        if x.tap_ip is Some {
            x.tap_ip->0
        } else {
            "-"@
        }) + " bound="@ + (if x.bound {
            "true"@
        } else {
            "false"@
        }) + "\n"@,
{
}

/// A snapshot is written in three parts: networks, sessions and waiting
/// clients. The other answers are written with what they hold.
pub proof fn law_answers_are_written(
    s: SnapshotDataView,
    n: u64,
    u: Uuid,
    routes: Seq<RouteView>,
    m: Seq<char>,
)
    ensures
        s.networks.len() > 0 && s.sessions.len() > 0 && s.pending.len() > 0 ==> resp_chars(
            ServerRespView::Snapshot(s),
        ) == "── networks ──\n"@ + net_lines(s.networks) + "── sessions ──\n"@ + session_lines(
            s.sessions,
        ) + "── pending ──\n"@ + pending_lines(s.pending),
        resp_chars(ServerRespView::Done) == "ok"@,
        resp_chars(ServerRespView::Count(n)) == text::dec(n as nat),
        resp_chars(ServerRespView::NetCreated { uuid: u }) == "network created  uuid="@
            + uuids::uuid_chars(u),
        resp_chars(ServerRespView::Pushed { count: n, routes: routes }) == "pushed to "@
            + text::dec(n as nat) + " client(s); "@ + text::dec(routes.len()) + " route(s):\n"@
            + route_lines(routes),
        resp_chars(ServerRespView::NotFound) == "not found"@,
        resp_chars(ServerRespView::InvalidIp) == "invalid ip/cidr"@,
        resp_chars(ServerRespView::Conflict { msg: m }) == "conflict: "@ + m,
        resp_chars(ServerRespView::Error(m)) == "error: "@ + m,
{
    let e = Seq::<char>::empty();
    assert("── networks ──\n"@ + e =~= "── networks ──\n"@);
    let a = "── networks ──\n"@ + net_lines(s.networks) + "── sessions ──\n"@;
    assert(a + e =~= a);
    let b = a + session_lines(s.sessions) + "── pending ──\n"@;
    assert(b + e =~= b);
}

} // verus!
