//! The server's command line.
use vstd::prelude::*;
use vstd::string::*;

use crate::admin::{ServerAdminReq, ServerReqView};
use crate::hub::{DeviceUpdate, UpdateView};
use crate::server::daemon;
use crate::text;
use crate::uuids;
use crate::uuids::Uuid;

verus! {

/// What a line asks for.
#[derive(Debug, Clone, PartialEq, Eq)]
pub enum ReplCmd {
    Req(ServerAdminReq),
    /// Read this file, and send it.
    SendFile(String),
    Quit,
}

/// The content of a [`ReplCmd`].
#[verifier::ext_equal]
pub enum ReplView {
    Req(ServerReqView),
    SendFile(Seq<char>),
    Quit,
}

impl DeepView for ReplCmd {
    type V = ReplView;

    open spec fn deep_view(&self) -> ReplView {
        match self {
            ReplCmd::Req(r) => ReplView::Req(r.deep_view()),
            ReplCmd::SendFile(p) => ReplView::SendFile(p@),
            ReplCmd::Quit => ReplView::Quit,
        }
    }
}

/// A request that was read, or a message.
pub type ReqResult = Result<ServerReqView, Seq<char>>;

// ── The grammar ──────────────────────────────────────────────────────────
/// An identity that was read, or a message that begins with `what`.
pub open spec fn uuid_arg(what: Seq<char>, s: Seq<char>) -> Result<Uuid, Seq<char>> {
    match uuids::uuid_parsed(s) {
        Ok(u) => Ok(Uuid(u)),
        Err(e) => Err(what + e),
    }
}

/// `true`, `1` and `yes`, or `false`, `0` and `no`.
pub open spec fn admit_arg(v: Seq<char>) -> Option<bool> {
    if v == "true"@ || v == "1"@ || v == "yes"@ {
        Some(true)
    } else if v == "false"@ || v == "0"@ || v == "no"@ {
        Some(false)
    } else {
        None
    }
}

/// Subnets with commas between them; none for nothing.
pub open spec fn lan_arg(v: Seq<char>) -> Seq<Seq<char>> {
    if v.len() == 0 {
        Seq::empty()
    } else {
        text::pieces(v, ',').map_values(|p: Seq<char>| text::trimmed(p))
    }
}

/// A change with one `key=value` pair taken in.
pub open spec fn with_pair(u: UpdateView, pair: Seq<char>) -> Result<UpdateView, Seq<char>> {
    if !pair.contains('=') {
        Err("bad pair "@ + text::debug_chars(pair) + ", expected key=value"@)
    } else {
        let k = text::before(pair, '=');
        let v = text::after(pair, '=');
        if k == "name"@ {
            Ok(UpdateView { name: Some(v), ..u })
        } else if k == "ip"@ {
            Ok(UpdateView { tap_ip: Some(v), ..u })
        } else if k == "admit"@ {
            match admit_arg(v) {
                Some(b) => Ok(UpdateView { admitted: Some(b), ..u }),
                None => Err("bad admit value "@ + text::debug_chars(v)),
            }
        } else if k == "lan"@ {
            Ok(UpdateView { lan_subnets: Some(lan_arg(v)), ..u })
        } else {
            Err("unknown key "@ + text::debug_chars(k))
        }
    }
}

/// No change.
pub open spec fn no_change() -> UpdateView {
    UpdateView { name: None, admitted: None, tap_ip: None, lan_subnets: None }
}

/// The change that `key=value` pairs say, from left to right; the first
/// mistake decides.
pub open spec fn update_of(pairs: Seq<Seq<char>>) -> Result<UpdateView, Seq<char>>
    decreases pairs.len(),
{
    if pairs.len() == 0 {
        Ok(no_change())
    } else {
        match update_of(pairs.drop_last()) {
            Err(e) => Err(e),
            Ok(u) => with_pair(u, pairs.last()),
        }
    }
}

/// What `device set` is used like.
pub open spec fn set_usage() -> Seq<char> {
    "usage: device set <client-uuid> [name=X] [ip=Y] [admit=true|false] [lan=A,B,...]"@
}

/// `device set`, after these words.
pub open spec fn set_parsed(tail: Seq<char>) -> ReqResult {
    let w = text::words(tail);
    if w.len() == 0 {
        Err(set_usage())
    } else {
        match uuid_arg("bad client uuid: "@, w[0]) {
            Err(e) => Err(e),
            Ok(c) => match update_of(w.skip(1)) {
                Err(e) => Err(e),
                Ok(u) => Ok(
                    ServerReqView::DeviceSet {
                        client_uuid: c,
                        name: u.name,
                        admitted: u.admitted,
                        tap_ip: u.tap_ip,
                        lan_subnets: u.lan_subnets,
                    },
                ),
            },
        }
    }
}

/// `device`, after this word.
pub open spec fn device_parsed(rest: Seq<char>) -> ReqResult {
    let sub = text::trimmed(text::before(rest, ' '));
    let tail = text::trimmed(text::after(rest, ' '));
    if sub == "list"@ {
        if tail.len() == 0 {
            Ok(ServerReqView::DeviceList { net_uuid: None })
        } else {
            match uuid_arg("bad net uuid: "@, tail) {
                Ok(n) => Ok(ServerReqView::DeviceList { net_uuid: Some(n) }),
                Err(e) => Err(e),
            }
        }
    } else if sub == "push"@ {
        if tail.len() == 0 {
            Err("usage: device push <net-uuid>"@)
        } else {
            match uuid_arg("bad net uuid: "@, tail) {
                Ok(n) => Ok(ServerReqView::DevicePush { net_uuid: n }),
                Err(e) => Err(e),
            }
        }
    } else if sub == "set"@ {
        set_parsed(tail)
    } else {
        Err("usage: device list|set|push"@)
    }
}

/// Where the last word of a text begins.
pub open spec fn last_word_at(s: Seq<char>) -> int
    decreases s.len(),
{
    if s.len() == 0 || text::is_white(s.last()) {
        s.len() as int
    } else {
        last_word_at(s.drop_last())
    }
}

/// `mknet`, after this word: a name, which may hold spaces, and an address as
/// the last word, where that begins with `ip=`.
pub open spec fn mknet_parsed(rest: Seq<char>) -> ReqResult {
    let at = last_word_at(rest);
    let last = rest.skip(at);
    let (name, ip) = if "ip="@.is_prefix_of(last) {
        (text::trimmed(rest.take(at)), Some(last.skip("ip="@.len() as int)))
    } else {
        (rest, None)
    };
    if name.len() == 0 {
        Err("usage: mknet <name> [ip=<cidr>]"@)
    } else {
        Ok(ServerReqView::MakeNet { name: name, bridge_ip: ip })
    }
}

/// `rename`, after this word.
pub open spec fn rename_parsed(rest: Seq<char>) -> ReqResult {
    let id = text::before(rest, ' ');
    let name = text::trimmed(text::after(rest, ' '));
    if name.len() == 0 {
        Err("usage: rename <net-uuid> <new-name>"@)
    } else {
        match uuid_arg("bad net uuid: "@, id) {
            Ok(n) => Ok(ServerReqView::RenameNet { net_uuid: n, name: name }),
            Err(e) => Err(e),
        }
    }
}

/// `rmnet`, after this word.
pub open spec fn rmnet_parsed(rest: Seq<char>) -> ReqResult {
    if rest.len() == 0 {
        Err("usage: rmnet <net-uuid>"@)
    } else {
        match uuid_arg("bad net uuid: "@, rest) {
            Ok(n) => Ok(ServerReqView::DeleteNet { net_uuid: n }),
            Err(e) => Err(e),
        }
    }
}

/// The network to move a client to; none for `none` and `-`.
pub open spec fn target_arg(net: Seq<char>) -> Result<Option<Uuid>, Seq<char>> {
    if net == "none"@ || net == "-"@ {
        Ok(None)
    } else {
        match uuids::uuid_parsed(net) {
            Ok(u) => Ok(Some(Uuid(u))),
            Err(_) => Err(
                "bad net uuid: "@ + text::debug_chars(net) + " (use a UUID or `none`)"@,
            ),
        }
    }
}

/// `assign`, after this word.
pub open spec fn assign_parsed(rest: Seq<char>) -> ReqResult {
    let id = text::before(rest, ' ');
    let net = text::trimmed(text::after(rest, ' '));
    if net.len() == 0 {
        Err("usage: assign <client-uuid> <net-uuid|none>"@)
    } else {
        match uuid_arg("bad client uuid: "@, id) {
            Err(e) => Err(e),
            Ok(c) => match target_arg(net) {
                Err(e) => Err(e),
                Ok(n) => Ok(ServerReqView::AssignClient { client_uuid: c, net_uuid: n }),
            },
        }
    }
}

/// A line.
pub open spec fn parsed(line: Seq<char>) -> Result<ReplView, Seq<char>> {
    let head = text::before(line, ' ');
    let rest = text::trimmed(text::after(line, ' '));
    let req = |r: ReqResult|
        match r {
            Ok(q) => Ok(ReplView::Req(q)),
            Err(e) => Err(e),
        };
    if head == "mknet"@ {
        req(mknet_parsed(rest))
    } else if head == "rename"@ {
        req(rename_parsed(rest))
    } else if head == "rmnet"@ {
        req(rmnet_parsed(rest))
    } else if head == "assign"@ {
        req(assign_parsed(rest))
    } else if head == "device"@ {
        req(device_parsed(rest))
    } else if head == "list"@ {
        Ok(ReplView::Req(ServerReqView::List))
    } else if head == "send"@ {
        if rest.len() == 0 {
            Err("usage: send <msg>"@)
        } else {
            Ok(ReplView::Req(ServerReqView::Send { msg: rest }))
        }
    } else if head == "sendfile"@ {
        if rest.len() == 0 {
            Err("usage: sendfile <path>"@)
        } else {
            Ok(ReplView::SendFile(rest))
        }
    } else if head == "shutdown"@ {
        Ok(ReplView::Req(ServerReqView::Shutdown))
    } else if head == "quit"@ || head == "exit"@ {
        Ok(ReplView::Quit)
    } else if head.len() == 0 {
        Err("empty command"@)
    } else {
        Err("unknown command "@ + text::debug_chars(head))
    }
}

// ── Reading it ───────────────────────────────────────────────────────────
fn read_uuid(what: &str, s: &str) -> (r: Result<Uuid, String>)
    ensures
        match r {
            Ok(u) => uuid_arg(what@, s@) == Ok::<Uuid, Seq<char>>(u),
            Err(e) => uuid_arg(what@, s@) == Err::<Uuid, Seq<char>>(e@),
        },
{
    match Uuid::parse(s) {
        Ok(u) => Ok(u),
        Err(e) => Err(text::join2(what, e.as_str())),
    }
}

fn has_char(s: &str, c: char) -> (r: bool)
    ensures
        r == s@.contains(c),
{
    match text::find_char(s, c) {
        Some(i) => {
            proof {
                crate::seqs::lemma_position(s@, text::is_char(c));
                assert(s@[i as int] == c);
            }
            true
        },
        None => {
            proof {
                crate::seqs::lemma_position(s@, text::is_char(c));
                assert forall|j: int| 0 <= j < s@.len() implies s@[j] != c by {
                    assert(!text::is_char(c)(s@[j]));
                }
            }
            false
        },
    }
}

fn read_pair(u: DeviceUpdate, pair: &str) -> (r: Result<DeviceUpdate, String>)
    ensures
        match r {
            Ok(v) => with_pair(u.deep_view(), pair@) == Ok::<UpdateView, Seq<char>>(v.deep_view()),
            Err(e) => with_pair(u.deep_view(), pair@) == Err::<UpdateView, Seq<char>>(e@),
        },
{
    let ghost gu = u.deep_view();
    if !has_char(pair, '=') {
        let d = text::debug_text(pair);
        return Err(text::join3("bad pair ", d.as_str(), ", expected key=value"));
    }
    let k = text::text_before(pair, '=');
    let v = text::text_after(pair, '=');
    let mut w = u;
    if text::same_text(k, "name") {
        w.name = Some(v.to_owned());
    } else if text::same_text(k, "ip") {
        w.tap_ip = Some(v.to_owned());
    } else if text::same_text(k, "admit") {
        if text::same_text(v, "true") || text::same_text(v, "1") || text::same_text(v, "yes") {
            w.admitted = Some(true);
        } else if text::same_text(v, "false") || text::same_text(v, "0") || text::same_text(
            v,
            "no",
        ) {
            w.admitted = Some(false);
        } else {
            let d = text::debug_text(v);
            return Err(text::join2("bad admit value ", d.as_str()));
        }
    } else if text::same_text(k, "lan") {
        let list: Vec<String> = if v.is_empty() {
            let none: Vec<String> = Vec::new();
            assert(none.deep_view() =~= Seq::<Seq<char>>::empty());
            none
        } else {
            text::split_trimmed(v, ',')
        };
        w.lan_subnets = Some(list);
    } else {
        let d = text::debug_text(k);
        return Err(text::join2("unknown key ", d.as_str()));
    }
    Ok(w)
}

fn parse_device_set(tail: &str) -> (r: Result<ServerAdminReq, String>)
    ensures
        match r {
            Ok(q) => set_parsed(tail@) == Ok::<ServerReqView, Seq<char>>(q.deep_view()),
            Err(e) => set_parsed(tail@) == Err::<ServerReqView, Seq<char>>(e@),
        },
{
    let w = text::split_words(tail);
    let ghost all = text::words(tail@);
    assert(w.deep_view().len() == w.len());
    if w.len() == 0 {
        return Err(
            "usage: device set <client-uuid> [name=X] [ip=Y] [admit=true|false] [lan=A,B,...]".to_owned(),
        );
    }
    assert(all[0] == w[0]@);
    let client_uuid = match read_uuid("bad client uuid: ", w[0].as_str()) {
        Ok(c) => c,
        Err(e) => {
            return Err(e);
        },
    };
    let ghost pairs = all.skip(1);
    let mut u: DeviceUpdate = Default::default();
    let mut i: usize = 1;
    assert(pairs.take(0) =~= Seq::<Seq<char>>::empty());
    while i < w.len()
        invariant
            1 <= i <= w.len(),
            w.deep_view() == all,
            all == text::words(tail@),
            pairs == all.skip(1),
            uuid_arg("bad client uuid: "@, all[0]) == Ok::<Uuid, Seq<char>>(client_uuid),
            update_of(pairs.take(i - 1)) == Ok::<UpdateView, Seq<char>>(u.deep_view()),
        decreases w.len() - i,
    {
        proof {
            assert(pairs.take(i as int).drop_last() =~= pairs.take(i - 1));
            assert(pairs.take(i as int).last() == w[i as int]@);
        }
        match read_pair(u, w[i].as_str()) {
            Ok(v) => {
                u = v;
            },
            Err(e) => {
                proof {
                    lemma_first_mistake(pairs, i as int);
                }
                return Err(e);
            },
        }
        i += 1;
    }
    assert(pairs.take(i - 1) =~= pairs);
    Ok(
        ServerAdminReq::DeviceSet {
            client_uuid: client_uuid,
            name: u.name,
            admitted: u.admitted,
            tap_ip: u.tap_ip,
            lan_subnets: u.lan_subnets,
        },
    )
}

/// The first mistake decides.
proof fn lemma_first_mistake(pairs: Seq<Seq<char>>, i: int)
    requires
        0 <= i <= pairs.len(),
        update_of(pairs.take(i)) is Err,
    ensures
        update_of(pairs) == update_of(pairs.take(i)),
    decreases pairs.len() - i,
{
    if i < pairs.len() {
        assert(pairs.take(i + 1).drop_last() =~= pairs.take(i));
        lemma_first_mistake(pairs, i + 1);
    } else {
        assert(pairs.take(i) =~= pairs);
    }
}

fn parse_device(rest: &str) -> (r: Result<ServerAdminReq, String>)
    ensures
        match r {
            Ok(q) => device_parsed(rest@) == Ok::<ServerReqView, Seq<char>>(q.deep_view()),
            Err(e) => device_parsed(rest@) == Err::<ServerReqView, Seq<char>>(e@),
        },
{
    let sub = text::trim(text::text_before(rest, ' '));
    let tail = text::trim(text::text_after(rest, ' '));
    if text::same_text(sub, "list") {
        if tail.is_empty() {
            return Ok(ServerAdminReq::DeviceList { net_uuid: None });
        }
        match read_uuid("bad net uuid: ", tail) {
            Ok(n) => Ok(ServerAdminReq::DeviceList { net_uuid: Some(n) }),
            Err(e) => Err(e),
        }
    } else if text::same_text(sub, "push") {
        if tail.is_empty() {
            return Err("usage: device push <net-uuid>".to_owned());
        }
        match read_uuid("bad net uuid: ", tail) {
            Ok(n) => Ok(ServerAdminReq::DevicePush { net_uuid: n }),
            Err(e) => Err(e),
        }
    } else if text::same_text(sub, "set") {
        parse_device_set(tail)
    } else {
        Err("usage: device list|set|push".to_owned())
    }
}

fn parse_mknet(rest: &str) -> (r: Result<ServerAdminReq, String>)
    ensures
        match r {
            Ok(q) => mknet_parsed(rest@) == Ok::<ServerReqView, Seq<char>>(q.deep_view()),
            Err(e) => mknet_parsed(rest@) == Err::<ServerReqView, Seq<char>>(e@),
        },
{
    let n: usize = rest.unicode_len();
    let mut at: usize = n;
    proof {
        assert(rest@.take(n as int) =~= rest@);
    }
    while at > 0 && !text::white(rest.get_char(at - 1))
        invariant
            0 <= at <= n,
            n == rest@.len(),
            last_word_at(rest@) == last_word_at(rest@.take(at as int)),
        decreases at,
    {
        assert(rest@.take(at as int).drop_last() =~= rest@.take(at - 1));
        at -= 1;
    }
    assert(last_word_at(rest@) == at);
    let last = rest.substring_char(at, n);
    assert(last@ =~= rest@.skip(at as int));
    if text::begins_with(last, "ip=") {
        let k: usize = "ip=".unicode_len();
        let m: usize = last.unicode_len();
        let ip = last.substring_char(k, m);
        assert(ip@ =~= last@.skip("ip="@.len() as int));
        let front = rest.substring_char(0, at);
        assert(front@ =~= rest@.take(at as int));
        let name = text::trim(front);
        if name.is_empty() {
            return Err("usage: mknet <name> [ip=<cidr>]".to_owned());
        }
        Ok(ServerAdminReq::MakeNet { name: name.to_owned(), bridge_ip: Some(ip.to_owned()) })
    } else {
        if rest.is_empty() {
            return Err("usage: mknet <name> [ip=<cidr>]".to_owned());
        }
        Ok(ServerAdminReq::MakeNet { name: rest.to_owned(), bridge_ip: None })
    }
}

fn parse_rename(rest: &str) -> (r: Result<ServerAdminReq, String>)
    ensures
        match r {
            Ok(q) => rename_parsed(rest@) == Ok::<ServerReqView, Seq<char>>(q.deep_view()),
            Err(e) => rename_parsed(rest@) == Err::<ServerReqView, Seq<char>>(e@),
        },
{
    let id = text::text_before(rest, ' ');
    let name = text::trim(text::text_after(rest, ' '));
    if name.is_empty() {
        return Err("usage: rename <net-uuid> <new-name>".to_owned());
    }
    match read_uuid("bad net uuid: ", id) {
        Ok(n) => Ok(ServerAdminReq::RenameNet { net_uuid: n, name: name.to_owned() }),
        Err(e) => Err(e),
    }
}

/// The network to move a client to; none for `none` and `-`.
pub fn parse_target(net: &str) -> (r: Result<Option<Uuid>, String>)
    ensures
        match r {
            Ok(n) => target_arg(net@) == Ok::<Option<Uuid>, Seq<char>>(n),
            Err(e) => target_arg(net@) == Err::<Option<Uuid>, Seq<char>>(e@),
        },
{
    if text::same_text(net, "none") || text::same_text(net, "-") {
        return Ok(None);
    }
    match Uuid::parse(net) {
        Ok(u) => Ok(Some(u)),
        Err(_) => {
            let d = text::debug_text(net);
            Err(text::join3("bad net uuid: ", d.as_str(), " (use a UUID or `none`)"))
        },
    }
}

fn parse_assign(rest: &str) -> (r: Result<ServerAdminReq, String>)
    ensures
        match r {
            Ok(q) => assign_parsed(rest@) == Ok::<ServerReqView, Seq<char>>(q.deep_view()),
            Err(e) => assign_parsed(rest@) == Err::<ServerReqView, Seq<char>>(e@),
        },
{
    let id = text::text_before(rest, ' ');
    let net = text::trim(text::text_after(rest, ' '));
    if net.is_empty() {
        return Err("usage: assign <client-uuid> <net-uuid|none>".to_owned());
    }
    let c = match read_uuid("bad client uuid: ", id) {
        Ok(c) => c,
        Err(e) => {
            return Err(e);
        },
    };
    match parse_target(net) {
        Ok(n) => Ok(ServerAdminReq::AssignClient { client_uuid: c, net_uuid: n }),
        Err(e) => Err(e),
    }
}

fn as_cmd(r: Result<ServerAdminReq, String>) -> (c: Result<ReplCmd, String>)
    ensures
        match (r, c) {
            (Ok(q), Ok(c)) => c.deep_view() == ReplView::Req(q.deep_view()),
            (Err(e), Err(f)) => e@ == f@,
            _ => false,
        },
{
    match r {
        Ok(q) => Ok(ReplCmd::Req(q)),
        Err(e) => Err(e),
    }
}

/// Reads one line.
pub fn parse(line: &str) -> (r: Result<ReplCmd, String>)
    ensures
        match r {
            Ok(c) => parsed(line@) == Ok::<ReplView, Seq<char>>(c.deep_view()),
            Err(e) => parsed(line@) == Err::<ReplView, Seq<char>>(e@),
        },
{
    let head = text::text_before(line, ' ');
    let rest = text::trim(text::text_after(line, ' '));
    if text::same_text(head, "mknet") {
        as_cmd(parse_mknet(rest))
    } else if text::same_text(head, "rename") {
        as_cmd(parse_rename(rest))
    } else if text::same_text(head, "rmnet") {
        if rest.is_empty() {
            return Err("usage: rmnet <net-uuid>".to_owned());
        }
        match read_uuid("bad net uuid: ", rest) {
            Ok(n) => Ok(ReplCmd::Req(ServerAdminReq::DeleteNet { net_uuid: n })),
            Err(e) => Err(e),
        }
    } else if text::same_text(head, "assign") {
        as_cmd(parse_assign(rest))
    } else if text::same_text(head, "device") {
        as_cmd(parse_device(rest))
    } else if text::same_text(head, "list") {
        Ok(ReplCmd::Req(ServerAdminReq::List))
    } else if text::same_text(head, "send") {
        if rest.is_empty() {
            return Err("usage: send <msg>".to_owned());
        }
        Ok(ReplCmd::Req(ServerAdminReq::Send { msg: rest.to_owned() }))
    } else if text::same_text(head, "sendfile") {
        if rest.is_empty() {
            return Err("usage: sendfile <path>".to_owned());
        }
        Ok(ReplCmd::SendFile(rest.to_owned()))
    } else if text::same_text(head, "shutdown") {
        Ok(ReplCmd::Req(ServerAdminReq::Shutdown))
    } else if text::same_text(head, "quit") || text::same_text(head, "exit") {
        Ok(ReplCmd::Quit)
    } else if head.is_empty() {
        Err("empty command".to_owned())
    } else {
        let d = text::debug_text(head);
        Err(text::join2("unknown command ", d.as_str()))
    }
}

/// The request that sends a file which was read, or what to print where it
/// could not be read. `name` is the last part of its path, where it has one.
pub fn sent_file(path: &str, name: Option<String>, read: Result<Vec<u8>, String>) -> (r: Result<
    ServerAdminReq,
    String,
>)
    ensures
        match (read, r) {
            (Ok(data), Ok(q)) => q.deep_view() == (ServerReqView::SendFile {
                name: match name.deep_view() {
                    Some(n) => n,
                    None => "file"@,
                },
                data: data@,
            }),
            (Err(e), Err(m)) => m@ == "read "@ + text::debug_chars(path@) + ": "@ + e@,
            _ => false,
        },
{
    match read {
        Ok(data) => Ok(daemon::send_file(name, data)),
        Err(e) => {
            let d = text::debug_text(path);
            let s = text::join3("read ", d.as_str(), ": ");
            Err(text::join2(s.as_str(), e.as_str()))
        },
    }
}

// ── Laws ─────────────────────────────────────────────────────────────────
/// The words that commands begin with: they are told apart, and hold no space.
proof fn lemma_heads()
    ensures
        "mknet"@.len() == 5 && "mknet"@[0] == 'm' && "mknet"@[1] == 'k',
        !"mknet"@.contains(' '),
        "rename"@.len() == 6 && "rename"@[0] == 'r' && "rename"@[1] == 'e',
        !"rename"@.contains(' '),
        "rmnet"@.len() == 5 && "rmnet"@[0] == 'r' && "rmnet"@[1] == 'm',
        !"rmnet"@.contains(' '),
        "assign"@.len() == 6 && "assign"@[0] == 'a' && "assign"@[1] == 's',
        !"assign"@.contains(' '),
        "device"@.len() == 6 && "device"@[0] == 'd' && "device"@[1] == 'e',
        !"device"@.contains(' '),
        "list"@.len() == 4 && "list"@[0] == 'l' && "list"@[1] == 'i',
        !"list"@.contains(' '),
        "send"@.len() == 4 && "send"@[0] == 's' && "send"@[1] == 'e',
        !"send"@.contains(' '),
        "sendfile"@.len() == 8 && "sendfile"@[0] == 's' && "sendfile"@[1] == 'e',
        !"sendfile"@.contains(' '),
        "shutdown"@.len() == 8 && "shutdown"@[0] == 's' && "shutdown"@[1] == 'h',
        !"shutdown"@.contains(' '),
        "quit"@.len() == 4 && "quit"@[0] == 'q' && "quit"@[1] == 'u',
        !"quit"@.contains(' '),
        "exit"@.len() == 4 && "exit"@[0] == 'e' && "exit"@[1] == 'x',
        !"exit"@.contains(' '),
{
    reveal_strlit("mknet");
    reveal_strlit("rename");
    reveal_strlit("rmnet");
    reveal_strlit("assign");
    reveal_strlit("device");
    reveal_strlit("list");
    reveal_strlit("send");
    reveal_strlit("sendfile");
    reveal_strlit("shutdown");
    reveal_strlit("quit");
    reveal_strlit("exit");
    assert forall|i: int| 0 <= i < "mknet"@.len() implies #[trigger] "mknet"@[i] != ' ' by {}
    assert forall|i: int| 0 <= i < "rename"@.len() implies #[trigger] "rename"@[i] != ' ' by {}
    assert forall|i: int| 0 <= i < "rmnet"@.len() implies #[trigger] "rmnet"@[i] != ' ' by {}
    assert forall|i: int| 0 <= i < "assign"@.len() implies #[trigger] "assign"@[i] != ' ' by {}
    assert forall|i: int| 0 <= i < "device"@.len() implies #[trigger] "device"@[i] != ' ' by {}
    assert forall|i: int| 0 <= i < "list"@.len() implies #[trigger] "list"@[i] != ' ' by {}
    assert forall|i: int| 0 <= i < "send"@.len() implies #[trigger] "send"@[i] != ' ' by {}
    assert forall|i: int| 0 <= i < "sendfile"@.len() implies #[trigger] "sendfile"@[i] != ' ' by {}
    assert forall|i: int| 0 <= i < "shutdown"@.len() implies #[trigger] "shutdown"@[i] != ' ' by {}
    assert forall|i: int| 0 <= i < "quit"@.len() implies #[trigger] "quit"@[i] != ' ' by {}
    assert forall|i: int| 0 <= i < "exit"@.len() implies #[trigger] "exit"@[i] != ' ' by {}
}

/// A line: a first word, a space, and what follows.
pub open spec fn line(head: Seq<char>, arg: Seq<char>) -> Seq<char> {
    head + seq![' '] + arg
}

/// A line with a network or a file to name, or with a message: what follows the
/// first word, without the white space around it, is the argument, and there
/// must be one.
pub proof fn law_simple_lines(arg: Seq<char>)
    ensures
        ({
            let a = text::trimmed(arg);
            &&& parsed(line("rmnet"@, arg)) == if a.len() == 0 {
                Err::<ReplView, Seq<char>>("usage: rmnet <net-uuid>"@)
            } else {
                match uuids::uuid_parsed(a) {
                    Ok(u) => Ok(ReplView::Req(ServerReqView::DeleteNet { net_uuid: Uuid(u) })),
                    Err(e) => Err("bad net uuid: "@ + e),
                }
            }
            &&& parsed(line("send"@, arg)) == if a.len() == 0 {
                Err::<ReplView, Seq<char>>("usage: send <msg>"@)
            } else {
                Ok(ReplView::Req(ServerReqView::Send { msg: a }))
            }
            &&& parsed(line("sendfile"@, arg)) == if a.len() == 0 {
                Err::<ReplView, Seq<char>>("usage: sendfile <path>"@)
            } else {
                Ok(ReplView::SendFile(a))
            }
            &&& parsed("list"@) == Ok::<ReplView, Seq<char>>(ReplView::Req(ServerReqView::List))
            &&& parsed("shutdown"@) == Ok::<ReplView, Seq<char>>(
                ReplView::Req(ServerReqView::Shutdown),
            )
            &&& parsed("quit"@) == Ok::<ReplView, Seq<char>>(ReplView::Quit)
            &&& parsed("exit"@) == Ok::<ReplView, Seq<char>>(ReplView::Quit)
        }),
{
    lemma_heads();
    text::law_parts_are_found_again("rmnet"@, ' ', arg);
    text::law_parts_are_found_again("send"@, ' ', arg);
    text::law_parts_are_found_again("sendfile"@, ' ', arg);
    text::law_text_is_parted("list"@, ' ');
    text::law_text_is_parted("shutdown"@, ' ');
    text::law_text_is_parted("quit"@, ' ');
    text::law_text_is_parted("exit"@, ' ');
}

/// A line that names a network or a client, and what becomes of it: a new name
/// for the network, or a network for the client, where `none` and `-` stand for
/// none.
pub proof fn law_lines_with_two_arguments(id: Seq<char>, rest: Seq<char>)
    requires
        id.len() > 0,
        !id.contains(' '),
        text::trimmed(line(id, rest)) == line(id, rest),
    ensures
        ({
            let a = text::trimmed(rest);
            &&& parsed(line("rename"@, line(id, rest))) == if a.len() == 0 {
                Err::<ReplView, Seq<char>>("usage: rename <net-uuid> <new-name>"@)
            } else {
                match uuids::uuid_parsed(id) {
                    Ok(u) => Ok(
                        ReplView::Req(ServerReqView::RenameNet { net_uuid: Uuid(u), name: a }),
                    ),
                    Err(e) => Err("bad net uuid: "@ + e),
                }
            }
            &&& parsed(line("assign"@, line(id, rest))) == if a.len() == 0 {
                Err::<ReplView, Seq<char>>("usage: assign <client-uuid> <net-uuid|none>"@)
            } else {
                match uuids::uuid_parsed(id) {
                    Err(e) => Err("bad client uuid: "@ + e),
                    Ok(u) => if a == "none"@ || a == "-"@ {
                        Ok(
                            ReplView::Req(
                                ServerReqView::AssignClient {
                                    client_uuid: Uuid(u),
                                    net_uuid: None,
                                },
                            ),
                        )
                    } else {
                        match uuids::uuid_parsed(a) {
                            Ok(n) => Ok(
                                ReplView::Req(
                                    ServerReqView::AssignClient {
                                        client_uuid: Uuid(u),
                                        net_uuid: Some(Uuid(n)),
                                    },
                                ),
                            ),
                            Err(_) => Err(
                                "bad net uuid: "@ + text::debug_chars(a)
                                    + " (use a UUID or `none`)"@,
                            ),
                        }
                    },
                }
            }
        }),
{
    lemma_heads();
    text::law_parts_are_found_again("rename"@, ' ', line(id, rest));
    text::law_parts_are_found_again("assign"@, ' ', line(id, rest));
    text::law_parts_are_found_again(id, ' ', rest);
}

/// A pair of a key and a value changes what the key stands for, and nothing
/// else: the name, the address, the admission or the subnets. Another key, and
/// an admission that is neither, are mistakes.
pub proof fn law_pairs(u: UpdateView, key: Seq<char>, v: Seq<char>)
    requires
        !key.contains('='),
    ensures
        ({
            let r = with_pair(u, key + seq!['='] + v);
            if key == "name"@ {
                r == Ok::<UpdateView, Seq<char>>(UpdateView { name: Some(v), ..u })
            } else if key == "ip"@ {
                r == Ok::<UpdateView, Seq<char>>(UpdateView { tap_ip: Some(v), ..u })
            } else if key == "admit"@ {
                if v == "true"@ || v == "1"@ || v == "yes"@ {
                    r == Ok::<UpdateView, Seq<char>>(UpdateView { admitted: Some(true), ..u })
                } else if v == "false"@ || v == "0"@ || v == "no"@ {
                    r == Ok::<UpdateView, Seq<char>>(UpdateView { admitted: Some(false), ..u })
                } else {
                    r == Err::<UpdateView, Seq<char>>(
                        "bad admit value "@ + text::debug_chars(v),
                    )
                }
            } else if key == "lan"@ {
                r matches Ok(w) && w == (UpdateView { lan_subnets: w.lan_subnets, ..u }) && (
                w.lan_subnets matches Some(list) && list == if v.len() == 0 {
                    Seq::<Seq<char>>::empty()
                } else {
                    text::pieces(v, ',').map_values(|p: Seq<char>| text::trimmed(p))
                })
            } else {
                r == Err::<UpdateView, Seq<char>>("unknown key "@ + text::debug_chars(key))
            }
        }),
{
    let pair = key + seq!['='] + v;
    text::law_parts_are_found_again(key, '=', v);
    assert(pair[key.len() as int] == '=');
    assert(pair.contains('='));
    reveal_strlit("true");
    reveal_strlit("1");
    reveal_strlit("yes");
    reveal_strlit("false");
    reveal_strlit("0");
    reveal_strlit("no");
    assert("true"@[0] == 't' && "1"@[0] == '1' && "yes"@[0] == 'y');
    assert("false"@[0] == 'f' && "0"@[0] == '0' && "no"@[0] == 'n');
    reveal_strlit("name");
    reveal_strlit("ip");
    reveal_strlit("admit");
    reveal_strlit("lan");
    assert("name"@.len() == 4 && "ip"@.len() == 2 && "admit"@.len() == 5 && "lan"@.len() == 3);
}

/// Pairs are taken in from left to right, and a later one counts. The first
/// mistake decides.
pub proof fn law_pairs_in_order(pairs: Seq<Seq<char>>, last: Seq<char>)
    ensures
        update_of(Seq::empty()) == Ok::<UpdateView, Seq<char>>(
            UpdateView { name: None, admitted: None, tap_ip: None, lan_subnets: None },
        ),
        update_of(pairs.push(last)) == match update_of(pairs) {
            Ok(u) => with_pair(u, last),
            Err(e) => Err(e),
        },
{
    assert(pairs.push(last).drop_last() =~= pairs);
}

/// The name of a new network may hold spaces; the last word is the address of
/// its bridge, where it begins with `ip=`.
pub proof fn law_new_network_lines(name: Seq<char>, word: Seq<char>)
    requires
        name.len() > 0,
        text::trimmed(name) == name,
        forall|i: int| 0 <= i < word.len() ==> !text::is_white(#[trigger] word[i]),
    ensures
        mknet_parsed(name + seq![' '] + ("ip="@ + word)) == Ok::<ServerReqView, Seq<char>>(
            ServerReqView::MakeNet { name: name, bridge_ip: Some(word) },
        ),
        !("ip="@.is_prefix_of(name.skip(last_word_at(name)))) ==> mknet_parsed(name) == Ok::<
            ServerReqView,
            Seq<char>,
        >(ServerReqView::MakeNet { name: name, bridge_ip: None }),
        mknet_parsed(Seq::empty()) == Err::<ServerReqView, Seq<char>>(
            "usage: mknet <name> [ip=<cidr>]"@,
        ),
{
    reveal_strlit("ip=");
    let w = "ip="@ + word;
    let rest = name + seq![' '] + w;
    assert forall|i: int| 0 <= i < w.len() implies !text::is_white(#[trigger] w[i]) by {
        if i >= 3 {
            assert(w[i] == word[i - 3]);
        }
    }
    lemma_last_word(name + seq![' '], w);
    assert(rest =~= (name + seq![' ']) + w);
    assert(rest.skip(name.len() as int + 1) =~= w);
    assert(rest.take(name.len() as int + 1) =~= name + seq![' ']);
    assert(w.skip(3) =~= word);
    assert("ip="@.is_prefix_of(w));
    lemma_trim_space(name);
    assert(Seq::<char>::empty().skip(0) =~= Seq::<char>::empty());
}

proof fn lemma_last_word(front: Seq<char>, w: Seq<char>)
    requires
        front.len() > 0,
        text::is_white(front.last()),
        forall|i: int| 0 <= i < w.len() ==> !text::is_white(#[trigger] w[i]),
    ensures
        last_word_at(front + w) == front.len(),
    decreases w.len(),
{
    let s = front + w;
    if w.len() > 0 {
        assert(s.last() == w[w.len() - 1]);
        assert(s.drop_last() =~= front + w.drop_last());
        lemma_last_word(front, w.drop_last());
    } else {
        assert(s =~= front);
    }
}

proof fn lemma_trim_space(name: Seq<char>)
    requires
        name.len() > 0,
        text::trimmed(name) == name,
    ensures
        text::trimmed(name + seq![' ']) == name,
{
    text::lemma_trimmed_ends(name);
    let s = name + seq![' '];
    assert(s[0] == name[0]);
    assert(text::trim_start(s) == s);
    assert(s.last() == ' ');
    assert(s.drop_last() =~= name);
    assert(text::trim_end(name) == name);
}

/// The lines that create a network or speak of clients are read from what
/// follows their first word. An empty line is no command, and neither is one
/// with another first word.
pub proof fn law_other_lines(head: Seq<char>, arg: Seq<char>)
    ensures
        parsed(line("mknet"@, arg)) == match mknet_parsed(text::trimmed(arg)) {
            Ok(q) => Ok::<ReplView, Seq<char>>(ReplView::Req(q)),
            Err(e) => Err(e),
        },
        parsed(line("device"@, arg)) == match device_parsed(text::trimmed(arg)) {
            Ok(q) => Ok::<ReplView, Seq<char>>(ReplView::Req(q)),
            Err(e) => Err(e),
        },
        parsed(Seq::empty()) == Err::<ReplView, Seq<char>>("empty command"@),
        head.len() > 0 && !head.contains(' ') && head != "mknet"@ && head != "rename"@ && head
            != "rmnet"@ && head != "assign"@ && head != "device"@ && head != "list"@ && head
            != "send"@ && head != "sendfile"@ && head != "shutdown"@ && head != "quit"@ && head
            != "exit"@ ==> parsed(line(head, arg)) == Err::<ReplView, Seq<char>>(
            "unknown command "@ + text::debug_chars(head),
        ),
{
    lemma_heads();
    text::law_parts_are_found_again("mknet"@, ' ', arg);
    text::law_parts_are_found_again("device"@, ' ', arg);
    text::law_text_is_parted(Seq::empty(), ' ');
    if !head.contains(' ') {
        text::law_parts_are_found_again(head, ' ', arg);
    }
}

/// The clients of a network, or all, are listed; the routes of a network are
/// pushed; and a client is changed by what the pairs behind its identity say.
pub proof fn law_device_lines(arg: Seq<char>)
    ensures
        ({
            let a = text::trimmed(arg);
            let w = text::words(a);
            &&& device_parsed("list"@) == Ok::<ServerReqView, Seq<char>>(
                ServerReqView::DeviceList { net_uuid: None },
            )
            &&& device_parsed(line("list"@, arg)) == if a.len() == 0 {
                Ok::<ServerReqView, Seq<char>>(ServerReqView::DeviceList { net_uuid: None })
            } else {
                match uuids::uuid_parsed(a) {
                    Ok(u) => Ok(ServerReqView::DeviceList { net_uuid: Some(Uuid(u)) }),
                    Err(e) => Err("bad net uuid: "@ + e),
                }
            }
            &&& device_parsed(line("push"@, arg)) == if a.len() == 0 {
                Err::<ServerReqView, Seq<char>>("usage: device push <net-uuid>"@)
            } else {
                match uuids::uuid_parsed(a) {
                    Ok(u) => Ok(ServerReqView::DevicePush { net_uuid: Uuid(u) }),
                    Err(e) => Err("bad net uuid: "@ + e),
                }
            }
            &&& w.len() > 0 ==> device_parsed(line("set"@, arg)) == match uuids::uuid_parsed(w[0]) {
                Err(e) => Err::<ServerReqView, Seq<char>>("bad client uuid: "@ + e),
                Ok(c) => match update_of(w.skip(1)) {
                    Err(e) => Err(e),
                    Ok(u) => Ok(
                        ServerReqView::DeviceSet {
                            client_uuid: Uuid(c),
                            name: u.name,
                            admitted: u.admitted,
                            tap_ip: u.tap_ip,
                            lan_subnets: u.lan_subnets,
                        },
                    ),
                },
            }
            &&& w.len() == 0 ==> device_parsed(line("set"@, arg)) is Err
        }),
{
    lemma_subwords();
    text::law_parts_are_found_again("list"@, ' ', arg);
    text::law_parts_are_found_again("push"@, ' ', arg);
    text::law_parts_are_found_again("set"@, ' ', arg);
    text::law_text_is_parted("list"@, ' ');
    assert(text::trimmed(Seq::<char>::empty()) =~= Seq::<char>::empty());
}

/// The words that say what to do with clients: they are told apart, and hold no
/// white space.
proof fn lemma_subwords()
    ensures
        "list"@ != "push"@,
        "list"@ != "set"@,
        "push"@ != "set"@,
        !"list"@.contains(' '),
        !"push"@.contains(' '),
        !"set"@.contains(' '),
        text::trimmed("list"@) == "list"@,
        text::trimmed("push"@) == "push"@,
        text::trimmed("set"@) == "set"@,
{
    reveal_strlit("list");
    reveal_strlit("push");
    reveal_strlit("set");
    assert forall|i: int| 0 <= i < "list"@.len() implies #[trigger] "list"@[i] != ' ' by {}
    assert forall|i: int| 0 <= i < "push"@.len() implies #[trigger] "push"@[i] != ' ' by {}
    assert forall|i: int| 0 <= i < "set"@.len() implies #[trigger] "set"@[i] != ' ' by {}
    assert("push"@[0] == 'p' && "push"@[3] == 'h');
    assert("set"@[0] == 's' && "set"@[2] == 't');
    assert("list"@[0] == 'l' && "list"@[3] == 't');
    lemma_untouched("list"@);
    lemma_untouched("push"@);
    lemma_untouched("set"@);
}

proof fn lemma_untouched(s: Seq<char>)
    requires
        s.len() > 0,
        !text::is_white(s[0]),
        !text::is_white(s.last()),
    ensures
        text::trimmed(s) == s,
{
}

} // verus!
