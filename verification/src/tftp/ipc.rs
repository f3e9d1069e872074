//! The line-based control protocol: `status`, `reload`, `stop`.

use vstd::prelude::*;

use crate::tftp::config::{join_path, join_path_str};
use crate::tftp::text::{str_eq, trim, trimmed_string};

verus! {

/// A control command.
#[derive(Debug, Clone, PartialEq, Eq)]
pub enum IpcCommand {
    Status,
    Reload,
    Stop,
    /// Anything else, trimmed.
    Unknown(String),
}

pub enum IpcCommandView {
    Status,
    Reload,
    Stop,
    Unknown(Seq<char>),
}

impl View for IpcCommand {
    type V = IpcCommandView;

    open spec fn view(&self) -> IpcCommandView {
        match self {
            IpcCommand::Status => IpcCommandView::Status,
            IpcCommand::Reload => IpcCommandView::Reload,
            IpcCommand::Stop => IpcCommandView::Stop,
            IpcCommand::Unknown(s) => IpcCommandView::Unknown(s@),
        }
    }
}

/// The command a line holds, surrounding whitespace ignored.
pub open spec fn spec_parse_command(line: Seq<char>) -> IpcCommandView {
    let t = trim(line);
    if t == "status"@ {
        IpcCommandView::Status
    } else if t == "reload"@ {
        IpcCommandView::Reload
    } else if t == "stop"@ {
        IpcCommandView::Stop
    } else {
        IpcCommandView::Unknown(t)
    }
}

pub fn parse_command(line: &str) -> (r: IpcCommand)
    ensures
        r@ == spec_parse_command(line@),
{
    let cmd = trimmed_string(line);
    if str_eq(cmd.as_str(), "status") {
        IpcCommand::Status
    } else if str_eq(cmd.as_str(), "reload") {
        IpcCommand::Reload
    } else if str_eq(cmd.as_str(), "stop") {
        IpcCommand::Stop
    } else {
        IpcCommand::Unknown(cmd)
    }
}


/// A lower-case hexadecimal digit.
pub open spec fn hex_digit(d: nat) -> char {
    if d < 10 {
        ((d + '0' as nat) as u32) as char
    } else {
        ((d - 10 + 'a' as nat) as u32) as char
    }
}

/// How `serde_json` writes one character inside a string: `"` and `\` and
/// the control characters below U+0020 are escaped (`\b`, `\t`, `\n`, `\f`,
/// `\r`, else `\u00XX` in lower-case hex); every other character is written
/// as it is.
pub open spec fn json_escape_char(c: char) -> Seq<char> {
    if c == '"' {
        seq!['\\', '"']
    } else if c == '\\' {
        seq!['\\', '\\']
    } else if c == '\u{8}' {
        seq!['\\', 'b']
    } else if c == '\t' {
        seq!['\\', 't']
    } else if c == '\n' {
        seq!['\\', 'n']
    } else if c == '\u{c}' {
        seq!['\\', 'f']
    } else if c == '\r' {
        seq!['\\', 'r']
    } else if (c as u32) < 0x20 {
        seq!['\\', 'u', '0', '0', hex_digit((c as u32 / 16) as nat), hex_digit((c as u32 % 16) as nat)]
    } else {
        seq![c]
    }
}

/// The characters of `s`, each escaped.
pub open spec fn json_escaped(s: Seq<char>) -> Seq<char>
    decreases s.len(),
{
    if s.len() == 0 {
        Seq::empty()
    } else {
        json_escaped(s.drop_last()) + json_escape_char(s.last())
    }
}

/// A JSON string literal holding `s`.
pub open spec fn json_quoted(s: Seq<char>) -> Seq<char> {
    seq!['"'] + json_escaped(s) + seq!['"']
}

/// Calls `serde_json::to_string` on a `&str`: the text in double quotes,
/// escaped as `json_escape_char` says (`format_escaped_str_contents` and the
/// `ESCAPE` table of `serde_json::ser`). Writing a `str` into a buffer does
/// not fail.
#[verifier::external_body]
fn json_string(s: &str) -> (r: String)
    ensures
        r@ == json_quoted(s@),
{
    match serde_json::to_string(s) {
        Ok(t) => t,
        Err(_) => String::new(),
    }
}

/// The reply to a failed request: `{"error":<message>,"ok":false}`, the keys
/// in the order `serde_json` keeps them (sorted).
pub open spec fn error_reply(message: Seq<char>) -> Seq<char> {
    "{\"error\":"@ + json_quoted(message) + ",\"ok\":false}"@
}

fn error_reply_for(prefix: &str, detail: &str) -> (r: String)
    ensures
        r@ == error_reply(prefix@ + detail@),
{
    let mut msg = prefix.to_string();
    msg.append(detail);
    let mut out = "{\"error\":".to_string();
    out.append(json_string(msg.as_str()).as_str());
    out.append(",\"ok\":false}");
    out
}

/// The reply to `reload`: success, or the reason the configuration could not
/// be read again.
pub fn reload_reply(result: &Result<(), String>) -> (r: String)
    ensures
        r@ == match result {
            Ok(()) => "{\"ok\":true,\"message\":\"config reloaded\"}"@,
            Err(e) => error_reply("config reload failed: "@ + e@),
        },
{
    match result {
        Ok(()) => "{\"ok\":true,\"message\":\"config reloaded\"}".to_string(),
        Err(e) => error_reply_for("config reload failed: ", e.as_str()),
    }
}

/// The reply to `stop`.
pub fn stop_reply() -> (r: String)
    ensures
        r@ == "{\"ok\":true,\"message\":\"shutdown initiated\"}"@,
{
    "{\"ok\":true,\"message\":\"shutdown initiated\"}".to_string()
}

/// The reply to a command that is not known (`cmd` is the trimmed line).
pub fn unknown_reply(cmd: &str) -> (r: String)
    ensures
        r@ == error_reply("unknown command: "@ + cmd@),
{
    error_reply_for("unknown command: ", cmd)
}

/// Where the control socket lives: `fry-tftp-server.sock` in
/// `$XDG_RUNTIME_DIR` when that is set, else `/run/fry-tftp-server.sock`.
pub fn socket_path(runtime_dir: Option<String>) -> (r: String)
    ensures
        r@ == match runtime_dir {
            Some(d) => join_path(d@, "fry-tftp-server.sock"@),
            None => "/run/fry-tftp-server.sock"@,
        },
{
    match runtime_dir {
        Some(d) => join_path_str(d.as_str(), "fry-tftp-server.sock"),
        None => "/run/fry-tftp-server.sock".to_string(),
    }
}

} // verus!
