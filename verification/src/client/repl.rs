//! The client's command line.
use vstd::prelude::*;
use vstd::string::*;

use crate::text;
use crate::uuids;
use crate::uuids::Uuid;

verus! {

/// What the client says of itself.
#[derive(Debug, Clone, PartialEq, Eq)]
pub struct ClientStatusSnapshot {
    pub client_uuid: Uuid,
    /// Whether the handshake is done.
    pub connected: bool,
    pub joined_network: Option<Uuid>,
    pub tap_name: Option<String>,
    pub tap_ip: Option<String>,
}

/// The content of a [`ClientStatusSnapshot`].
#[verifier::ext_equal]
pub struct StatusView {
    pub client_uuid: Uuid,
    pub connected: bool,
    pub joined_network: Option<Uuid>,
    pub tap_name: Option<Seq<char>>,
    pub tap_ip: Option<Seq<char>>,
}

impl DeepView for ClientStatusSnapshot {
    type V = StatusView;

    open spec fn deep_view(&self) -> StatusView {
        StatusView {
            client_uuid: self.client_uuid,
            connected: self.connected,
            joined_network: self.joined_network,
            tap_name: self.tap_name.deep_view(),
            tap_ip: self.tap_ip.deep_view(),
        }
    }
}

/// What the user asks of the client.
#[derive(Debug, Clone, PartialEq, Eq)]
pub enum UserCmd {
    Join(Uuid),
    Leave,
    SendText(String),
    SendFile { name: String, data: Vec<u8> },
    /// Say how things stand.
    Status,
    Quit,
}

/// The content of a [`UserCmd`].
#[verifier::ext_equal]
pub enum UserView {
    Join(Uuid),
    Leave,
    SendText(Seq<char>),
    SendFile { name: Seq<char>, data: Seq<u8> },
    Status,
    Quit,
}

impl DeepView for UserCmd {
    type V = UserView;

    open spec fn deep_view(&self) -> UserView {
        match self {
            UserCmd::Join(n) => UserView::Join(*n),
            UserCmd::Leave => UserView::Leave,
            UserCmd::SendText(s) => UserView::SendText(s@),
            UserCmd::SendFile { name, data } => UserView::SendFile { name: name@, data: data@ },
            UserCmd::Status => UserView::Status,
            UserCmd::Quit => UserView::Quit,
        }
    }
}

/// What a line asks for.
#[derive(Debug, Clone, PartialEq, Eq)]
pub enum LineCmd {
    Cmd(UserCmd),
    /// Read this file, and send it.
    SendFile(String),
}

/// The content of a [`LineCmd`].
#[verifier::ext_equal]
pub enum LineView {
    Cmd(UserView),
    SendFile(Seq<char>),
}

impl DeepView for LineCmd {
    type V = LineView;

    open spec fn deep_view(&self) -> LineView {
        match self {
            LineCmd::Cmd(c) => LineView::Cmd(c.deep_view()),
            LineCmd::SendFile(p) => LineView::SendFile(p@),
        }
    }
}

// ── The grammar ──────────────────────────────────────────────────────────
/// A line: what it asks for; nothing, where its first word is unknown; or what
/// is wrong with it.
pub open spec fn parsed(line: Seq<char>) -> Result<Option<LineView>, Seq<char>> {
    let head = text::before(line, ' ');
    let arg = text::trimmed(text::after(line, ' '));
    if head == "join"@ {
        if arg.len() == 0 {
            Err("usage: join <uuid>"@)
        } else {
            match uuids::uuid_parsed(arg) {
                Ok(u) => Ok(Some(LineView::Cmd(UserView::Join(Uuid(u))))),
                Err(_) => Err("invalid uuid: "@ + text::debug_chars(arg)),
            }
        }
    } else if head == "leave"@ {
        Ok(Some(LineView::Cmd(UserView::Leave)))
    } else if head == "send"@ {
        if arg.len() == 0 {
            Err("usage: send <msg>"@)
        } else {
            Ok(Some(LineView::Cmd(UserView::SendText(arg))))
        }
    } else if head == "sendfile"@ {
        if arg.len() == 0 {
            Err("usage: sendfile <path>"@)
        } else {
            Ok(Some(LineView::SendFile(arg)))
        }
    } else if head == "quit"@ || head == "exit"@ {
        Ok(Some(LineView::Cmd(UserView::Quit)))
    } else {
        Ok(None)
    }
}

/// Reads one line.
pub fn parse(line: &str) -> (r: Result<Option<LineCmd>, String>)
    ensures
        match r {
            Ok(c) => parsed(line@) == Ok::<Option<LineView>, Seq<char>>(c.deep_view()),
            Err(e) => parsed(line@) == Err::<Option<LineView>, Seq<char>>(e@),
        },
{
    let head = text::text_before(line, ' ');
    let arg = text::trim(text::text_after(line, ' '));
    if text::same_text(head, "join") {
        if arg.is_empty() {
            return Err("usage: join <uuid>".to_owned());
        }
        match Uuid::parse(arg) {
            Ok(u) => Ok(Some(LineCmd::Cmd(UserCmd::Join(u)))),
            Err(_) => {
                let d = text::debug_text(arg);
                Err(text::join2("invalid uuid: ", d.as_str()))
            },
        }
    } else if text::same_text(head, "leave") {
        Ok(Some(LineCmd::Cmd(UserCmd::Leave)))
    } else if text::same_text(head, "send") {
        if arg.is_empty() {
            return Err("usage: send <msg>".to_owned());
        }
        Ok(Some(LineCmd::Cmd(UserCmd::SendText(arg.to_owned()))))
    } else if text::same_text(head, "sendfile") {
        if arg.is_empty() {
            return Err("usage: sendfile <path>".to_owned());
        }
        Ok(Some(LineCmd::SendFile(arg.to_owned())))
    } else if text::same_text(head, "quit") || text::same_text(head, "exit") {
        Ok(Some(LineCmd::Cmd(UserCmd::Quit)))
    } else {
        Ok(None)
    }
}

/// What to do with a line that was typed.
#[derive(Debug, Clone, PartialEq, Eq)]
pub enum LineAct {
    /// Nothing: it is blank.
    Skip,
    /// Do what it asks for.
    Run(LineCmd),
    /// Print this.
    Show(String),
}

/// The content of a [`LineAct`].
#[verifier::ext_equal]
pub enum LineActView {
    Skip,
    Run(LineView),
    Show(Seq<char>),
}

impl DeepView for LineAct {
    type V = LineActView;

    open spec fn deep_view(&self) -> LineActView {
        match self {
            LineAct::Skip => LineActView::Skip,
            LineAct::Run(c) => LineActView::Run(c.deep_view()),
            LineAct::Show(s) => LineActView::Show(s@),
        }
    }
}

/// What to do with a line that was typed.
pub open spec fn line_act(typed: Seq<char>) -> LineActView {
    let line = text::trimmed(typed);
    if line.len() == 0 {
        LineActView::Skip
    } else if line == "status"@ {
        LineActView::Run(LineView::Cmd(UserView::Status))
    } else {
        match parsed(line) {
            Ok(Some(c)) => LineActView::Run(c),
            Ok(None) => LineActView::Show(
                "[!] unknown command. Try: join | leave | send | sendfile | status | quit"@,
            ),
            Err(e) => LineActView::Show("[!] "@ + e),
        }
    }
}

/// What to do with a line that was typed.
pub fn read_line(typed: &str) -> (r: LineAct)
    ensures
        r.deep_view() == line_act(typed@),
{
    let line = text::trim(typed);
    if line.is_empty() {
        return LineAct::Skip;
    }
    if text::same_text(line, "status") {
        return LineAct::Run(LineCmd::Cmd(UserCmd::Status));
    }
    match parse(line) {
        Ok(Some(c)) => LineAct::Run(c),
        Ok(None) => LineAct::Show(
            "[!] unknown command. Try: join | leave | send | sendfile | status | quit".to_owned(),
        ),
        Err(e) => LineAct::Show(text::join2("[!] ", e.as_str())),
    }
}

/// The command that sends a file, from what reading it at `path` gave; `name`
/// is the last part of the path, where it has one.
pub fn sent_file(path: &str, name: Option<String>, read: Result<Vec<u8>, String>) -> (r: Result<
    UserCmd,
    String,
>)
    ensures
        match (read, r) {
            (Ok(data), Ok(c)) => c.deep_view() == (UserView::SendFile {
                name: match name.deep_view() {
                    Some(n) => n,
                    None => "file"@,
                },
                data: data@,
            }),
            (Err(e), Err(m)) => m@ == "read "@ + text::debug_chars(path@) + ": "@ + e@,
            _ => false,
        },
{
    match read {
        Ok(data) => Ok(
            UserCmd::SendFile {
                name: match name {
                    Some(n) => n,
                    None => "file".to_owned(),
                },
                data: data,
            },
        ),
        Err(e) => {
            let d = text::debug_text(path);
            let s = text::join3("read ", d.as_str(), ": ");
            Err(text::join2(s.as_str(), e.as_str()))
        },
    }
}

// ── Showing the state ────────────────────────────────────────────────────
/// A text, or what stands for none.
pub open spec fn or_else(o: Option<Seq<char>>, none: Seq<char>) -> Seq<char> {
    match o {
        Some(s) => s,
        None => none,
    }
}

/// The state of the client as five lines.
pub open spec fn status_chars(s: StatusView) -> Seq<char> {
    let net = match s.joined_network {
        Some(u) => Some(uuids::uuid_chars(u)),
        None => None,
    };
    "client_uuid:    "@ + uuids::uuid_chars(s.client_uuid) + "\nconnected:      "@
        + text::bool_chars(s.connected) + "\njoined_network: "@ + or_else(net, "(none)"@)
        + "\ntap_name:       "@ + or_else(s.tap_name, "-"@) + "\ntap_ip:         "@ + or_else(
        s.tap_ip,
        "-"@,
    )
}

/// The state of the client as five lines.
pub fn format_status(s: &ClientStatusSnapshot) -> (r: String)
    ensures
        r@ == status_chars(s.deep_view()),
{
    let mut out = "client_uuid:    ".to_owned();
    let id = s.client_uuid.to_text();
    out.append(id.as_str());
    out.append("\nconnected:      ");
    let c = text::bool_text(s.connected);
    out.append(c.as_str());
    out.append("\njoined_network: ");
    match &s.joined_network {
        Some(u) => {
            let n = u.to_text();
            out.append(n.as_str());
        },
        None => {
            out.append("(none)");
        },
    }
    out.append("\ntap_name:       ");
    match &s.tap_name {
        Some(n) => {
            out.append(n.as_str());
        },
        None => {
            out.append("-");
        },
    }
    out.append("\ntap_ip:         ");
    match &s.tap_ip {
        Some(n) => {
            out.append(n.as_str());
        },
        None => {
            out.append("-");
        },
    }
    out
}

// ── Laws ─────────────────────────────────────────────────────────────────
/// A line with an argument: what follows the first word, without the white
/// space around it, is the network, the message or the file, and there must be
/// one.
pub proof fn law_lines(arg: Seq<char>)
    ensures
        ({
            let a = text::trimmed(arg);
            let line = |head: Seq<char>| head + seq![' '] + arg;
            &&& parsed(line("join"@)) == if a.len() == 0 {
                Err::<Option<LineView>, Seq<char>>("usage: join <uuid>"@)
            } else {
                match uuids::uuid_parsed(a) {
                    Ok(u) => Ok(Some(LineView::Cmd(UserView::Join(Uuid(u))))),
                    Err(_) => Err("invalid uuid: "@ + text::debug_chars(a)),
                }
            }
            &&& parsed(line("send"@)) == if a.len() == 0 {
                Err::<Option<LineView>, Seq<char>>("usage: send <msg>"@)
            } else {
                Ok(Some(LineView::Cmd(UserView::SendText(a))))
            }
            &&& parsed(line("sendfile"@)) == if a.len() == 0 {
                Err::<Option<LineView>, Seq<char>>("usage: sendfile <path>"@)
            } else {
                Ok(Some(LineView::SendFile(a)))
            }
            &&& parsed("leave"@) == Ok::<Option<LineView>, Seq<char>>(
                Some(LineView::Cmd(UserView::Leave)),
            )
            &&& parsed("quit"@) == Ok::<Option<LineView>, Seq<char>>(
                Some(LineView::Cmd(UserView::Quit)),
            )
            &&& parsed("exit"@) == Ok::<Option<LineView>, Seq<char>>(
                Some(LineView::Cmd(UserView::Quit)),
            )
        }),
{
    lemma_heads();
    text::law_parts_are_found_again("join"@, ' ', arg);
    text::law_parts_are_found_again("send"@, ' ', arg);
    text::law_parts_are_found_again("sendfile"@, ' ', arg);
    text::law_text_is_parted("leave"@, ' ');
    text::law_text_is_parted("quit"@, ' ');
    text::law_text_is_parted("exit"@, ' ');
}

/// The words that lines begin with: they are told apart, and hold no space.
proof fn lemma_heads()
    ensures
        "join"@.len() == 4 && "join"@[0] == 'j',
        !"join"@.contains(' '),
        "leave"@.len() == 5 && "leave"@[0] == 'l',
        !"leave"@.contains(' '),
        "send"@.len() == 4 && "send"@[0] == 's',
        !"send"@.contains(' '),
        "sendfile"@.len() == 8 && "sendfile"@[0] == 's',
        !"sendfile"@.contains(' '),
        "quit"@.len() == 4 && "quit"@[0] == 'q',
        !"quit"@.contains(' '),
        "exit"@.len() == 4 && "exit"@[0] == 'e',
        !"exit"@.contains(' '),
        "status"@.len() == 6 && "status"@[0] == 's',
        !"status"@.contains(' '),
{
    reveal_strlit("join");
    assert forall|i: int| 0 <= i < "join"@.len() implies #[trigger] "join"@[i] != ' ' by {}
    reveal_strlit("leave");
    assert forall|i: int| 0 <= i < "leave"@.len() implies #[trigger] "leave"@[i] != ' ' by {}
    reveal_strlit("send");
    assert forall|i: int| 0 <= i < "send"@.len() implies #[trigger] "send"@[i] != ' ' by {}
    reveal_strlit("sendfile");
    assert forall|i: int| 0 <= i < "sendfile"@.len() implies #[trigger] "sendfile"@[i] != ' ' by {}
    reveal_strlit("quit");
    assert forall|i: int| 0 <= i < "quit"@.len() implies #[trigger] "quit"@[i] != ' ' by {}
    reveal_strlit("exit");
    assert forall|i: int| 0 <= i < "exit"@.len() implies #[trigger] "exit"@[i] != ' ' by {}
    reveal_strlit("status");
    assert forall|i: int| 0 <= i < "status"@.len() implies #[trigger] "status"@[i] != ' ' by {}
}

/// A blank line is passed over, however much white space it holds. The word
/// `status` asks how things stand. Of any other line, what it asks for is done,
/// and what is wrong with it is shown.
pub proof fn law_typed_lines(typed: Seq<char>)
    ensures
        ({
            let line = text::trimmed(typed);
            &&& line.len() == 0 <==> line_act(typed) is Skip
            &&& line == "status"@ ==> line_act(typed) == LineActView::Run(
                LineView::Cmd(UserView::Status),
            )
            &&& line.len() > 0 && line != "status"@ ==> line_act(typed) == match parsed(line) {
                Ok(Some(c)) => LineActView::Run(c),
                Ok(None) => LineActView::Show(
                    "[!] unknown command. Try: join | leave | send | sendfile | status | quit"@,
                ),
                Err(e) => LineActView::Show("[!] "@ + e),
            }
        }),
{
    lemma_heads();
}

/// The state of the client is shown in five lines, with `(none)` and a dash for
/// what it does not have.
pub proof fn law_status_is_shown_whole(s: StatusView)
    ensures
        status_chars(s) == "client_uuid:    "@ + uuids::uuid_chars(s.client_uuid)
            + "\nconnected:      "@ + (if s.connected {
            "true"@
        } else {
            "false"@
        }) + "\njoined_network: "@ + (if s.joined_network is Some {
            uuids::uuid_chars(s.joined_network->0)
        } else {
            "(none)"@
        }) + "\ntap_name:       "@ + (if s.tap_name is Some {
            s.tap_name->0
        } else {
            "-"@
        }) + "\ntap_ip:         "@ + (if s.tap_ip is Some {
            s.tap_ip->0
        } else {
            "-"@
        }),
{
}

} // verus!
