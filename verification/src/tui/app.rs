//! The terminal front end: its tabs, the settings list it shows and edits,
//! and how its state answers keys.

use std::time::Duration;
use vstd::prelude::*;

use crate::tftp::config::{
    AclConfig, AclRuleConfig, Config, FilesystemConfig, ProtocolConfig, SecurityConfig,
    ServerConfig, SessionConfig,
};
use crate::gui::tabs::files::{lemma_listed_total, lemma_listed_trans, listed_before};
use crate::tftp::log_buffer::{append_bounded, newest, LogEntry, LogLevel};
use crate::tftp::text::{
    contains, decimal, join, join_strings, list_items, parse_uint, parse_unsigned, split_list,
    str_contains, str_eq, str_lex_le, str_to_lowercase, string_pop, string_push, u64_to_string, unicode_lower,
    views,
};
use crate::tftp::timing::{duration_as_secs, spec_as_nanos};

verus! {

broadcast use vstd::string::group_string_axioms, vstd::seq_lib::group_to_multiset_ensures,
    vstd::multiset::group_multiset_axioms;

// ─── Tabs ────────────────────────────────────────────────────────────────────

/// The tabs, in the order in which they are shown.
#[derive(Debug, Clone, Copy, PartialEq, Eq, Structural)]
pub enum Tab {
    Dashboard,
    Files,
    Transfers,
    Log,
    Config,
    Acl,
    Help,
}

/// The number of tabs.
pub const TAB_COUNT: usize = 7;

impl Tab {
    pub open spec fn spec_index(self) -> nat {
        match self {
            Tab::Dashboard => 0,
            Tab::Files => 1,
            Tab::Transfers => 2,
            Tab::Log => 3,
            Tab::Config => 4,
            Tab::Acl => 5,
            Tab::Help => 6,
        }
    }

    /// The tab at a position of the tab bar.
    pub open spec fn spec_at(i: nat) -> Tab {
        if i == 0 {
            Tab::Dashboard
        } else if i == 1 {
            Tab::Files
        } else if i == 2 {
            Tab::Transfers
        } else if i == 3 {
            Tab::Log
        } else if i == 4 {
            Tab::Config
        } else if i == 5 {
            Tab::Acl
        } else {
            Tab::Help
        }
    }

    pub open spec fn spec_title(self) -> Seq<char> {
        match self {
            Tab::Dashboard => " 1:Dashboard "@,
            Tab::Files => " 2:Files "@,
            Tab::Transfers => " 3:Transfers "@,
            Tab::Log => " 4:Log "@,
            Tab::Config => " 5:Config "@,
            Tab::Acl => " 6:ACL "@,
            Tab::Help => " 7:Help "@,
        }
    }

    /// The label of the tab in the tab bar.
    pub fn title(&self) -> (r: &'static str)
        ensures
            r@ == self.spec_title(),
    {
        match self {
            Tab::Dashboard => " 1:Dashboard ",
            Tab::Files => " 2:Files ",
            Tab::Transfers => " 3:Transfers ",
            Tab::Log => " 4:Log ",
            Tab::Config => " 5:Config ",
            Tab::Acl => " 6:ACL ",
            Tab::Help => " 7:Help ",
        }
    }

    /// The position of the tab in the tab bar.
    pub fn index(&self) -> (r: usize)
        ensures
            r == self.spec_index(),
            r < TAB_COUNT,
    {
        match self {
            Tab::Dashboard => 0,
            Tab::Files => 1,
            Tab::Transfers => 2,
            Tab::Log => 3,
            Tab::Config => 4,
            Tab::Acl => 5,
            Tab::Help => 6,
        }
    }

    /// The tab at a position of the tab bar.
    pub fn at(i: usize) -> (r: Tab)
        requires
            i < TAB_COUNT,
        ensures
            r == Tab::spec_at(i as nat),
            r.spec_index() == i,
    {
        if i == 0 {
            Tab::Dashboard
        } else if i == 1 {
            Tab::Files
        } else if i == 2 {
            Tab::Transfers
        } else if i == 3 {
            Tab::Log
        } else if i == 4 {
            Tab::Config
        } else if i == 5 {
            Tab::Acl
        } else {
            Tab::Help
        }
    }
}

/// The tab after `t`, wrapping round to the first.
pub open spec fn next_tab(t: Tab) -> Tab {
    Tab::spec_at((t.spec_index() + 1) % (TAB_COUNT as nat))
}

/// The tab before `t`, wrapping round to the last.
pub open spec fn prev_tab(t: Tab) -> Tab {
    Tab::spec_at(((t.spec_index() + TAB_COUNT - 1) % (TAB_COUNT as int)) as nat)
}

/// Tab and Shift-Tab undo each other, and seven Tabs come back to the start.
pub proof fn lemma_tab_cycle(t: Tab)
    ensures
        prev_tab(next_tab(t)) == t,
        next_tab(prev_tab(t)) == t,
        next_tab(next_tab(next_tab(next_tab(next_tab(next_tab(next_tab(t))))))) == t,
{
    match t {
        Tab::Dashboard => {},
        Tab::Files => {},
        Tab::Transfers => {},
        Tab::Log => {},
        Tab::Config => {},
        Tab::Acl => {},
        Tab::Help => {},
    }
}

// ─── Short formats ───────────────────────────────────────────────────────────

/// `{h}h{m}m` from an hour on, `{m}m{s}s` from a minute on, `{s}s` below.
pub open spec fn spec_format_duration_short(secs: nat) -> Seq<char> {
    if secs >= 3600 {
        decimal(secs / 3600) + "h"@ + decimal((secs % 3600) / 60) + "m"@
    } else if secs >= 60 {
        decimal(secs / 60) + "m"@ + decimal(secs % 60) + "s"@
    } else {
        decimal(secs) + "s"@
    }
}

/// A duration in whole seconds, shortly: `1h2m`, `3m4s`, `5s`.
pub fn format_duration_short(d: Duration) -> (r: String)
    ensures
        r@ == spec_format_duration_short((spec_as_nanos(d) / 1000000000) as nat),
{
    let s = duration_as_secs(d);
    if s >= 3600 {
        let mut out = u64_to_string(s / 3600);
        out.append("h");
        out.append(u64_to_string((s % 3600) / 60).as_str());
        out.append("m");
        out
    } else if s >= 60 {
        let mut out = u64_to_string(s / 60);
        out.append("m");
        out.append(u64_to_string(s % 60).as_str());
        out.append("s");
        out
    } else {
        let mut out = u64_to_string(s);
        out.append("s");
        out
    }
}

/// The decimal of `n`, with a leading zero below ten.
pub open spec fn two_digits(n: nat) -> Seq<char> {
    if n < 10 {
        seq!['0'] + decimal(n)
    } else {
        decimal(n)
    }
}

fn push_two_digits(out: &mut String, n: u64)
    ensures
        final(out)@ == old(out)@ + two_digits(n as nat),
{
    if n < 10 {
        out.append("0");
    }
    out.append(u64_to_string(n).as_str());
    proof {
        reveal_strlit("0");
    }
}

/// The UTC time of day of a time given in whole seconds since the epoch,
/// as `HH:MM:SS`.
pub open spec fn spec_format_log_time(secs: nat) -> Seq<char> {
    two_digits((secs % 86400) / 3600) + ":"@ + two_digits((secs % 3600) / 60) + ":"@ + two_digits(
        secs % 60,
    )
}

/// The time of day of a log entry (seconds since the epoch) as `HH:MM:SS`.
pub fn format_log_time(secs: u64) -> (r: String)
    ensures
        r@ == spec_format_log_time(secs as nat),
{
    let mut out = String::new();
    push_two_digits(&mut out, (secs % 86400) / 3600);
    out.append(":");
    push_two_digits(&mut out, (secs % 3600) / 60);
    out.append(":");
    push_two_digits(&mut out, secs % 60);
    out
}

/// The colours the terminal front end uses for log levels.
#[derive(Debug, Clone, Copy, PartialEq, Eq, Structural)]
pub enum TermColor {
    Red,
    Yellow,
    Green,
    Cyan,
    DarkGray,
}

/// The colour of a log level in the log tab.
pub fn log_level_color(level: LogLevel) -> (r: TermColor)
    ensures
        r == match level {
            LogLevel::Error => TermColor::Red,
            LogLevel::Warn => TermColor::Yellow,
            LogLevel::Info => TermColor::Green,
            LogLevel::Debug => TermColor::Cyan,
            LogLevel::Trace => TermColor::DarkGray,
        },
{
    match level {
        LogLevel::Error => TermColor::Red,
        LogLevel::Warn => TermColor::Yellow,
        LogLevel::Info => TermColor::Green,
        LogLevel::Debug => TermColor::Cyan,
        LogLevel::Trace => TermColor::DarkGray,
    }
}

// ─── The settings list ───────────────────────────────────────────────────────

/// `true` or `false`, as `bool` displays.
pub open spec fn bool_text(b: bool) -> Seq<char> {
    if b {
        "true"@
    } else {
        "false"@
    }
}

/// `str::parse::<bool>`: exactly `true` or `false`.
pub open spec fn parse_bool(s: Seq<char>) -> Option<bool> {
    if s == "true"@ {
        Some(true)
    } else if s == "false"@ {
        Some(false)
    } else {
        None
    }
}

fn parse_bool_str(s: &str) -> (r: Option<bool>)
    ensures
        r == parse_bool(s@),
{
    if str_eq(s, "true") {
        Some(true)
    } else if str_eq(s, "false") {
        Some(false)
    } else {
        None
    }
}

fn bool_string(b: bool) -> (r: String)
    ensures
        r@ == bool_text(b),
{
    if b {
        "true".to_string()
    } else {
        "false".to_string()
    }
}

/// The rows of the settings list: section, key and the value as text.
pub open spec fn spec_config_items(c: Config) -> Seq<(Seq<char>, Seq<char>, Seq<char>)> {
    seq![
        ("Server"@, "port"@, decimal(c.server.port as nat)),
        ("Server"@, "bind_address"@, c.server.bind_address@),
        ("Server"@, "root"@, c.server.root@),
        ("Server"@, "log_level"@, c.server.log_level@),
        ("Protocol"@, "allow_write"@, bool_text(c.protocol.allow_write)),
        ("Protocol"@, "blksize"@, decimal(c.protocol.default_blksize as nat)),
        ("Protocol"@, "max_blksize"@, decimal(c.protocol.max_blksize as nat)),
        ("Protocol"@, "windowsize"@, decimal(c.protocol.default_windowsize as nat)),
        ("Protocol"@, "max_windowsize"@, decimal(c.protocol.max_windowsize as nat)),
        ("Protocol"@, "timeout"@, decimal(c.protocol.default_timeout as nat)),
        ("Session"@, "max_sessions"@, decimal(c.session.max_sessions as nat)),
        ("Session"@, "max_retries"@, decimal(c.session.max_retries as nat)),
        ("Security"@, "per_ip_max"@, decimal(c.security.per_ip_max_sessions as nat)),
        ("Security"@, "rate_limit"@, decimal(c.security.per_ip_rate_limit as nat)),
        ("Filesystem"@, "max_file_size"@, c.filesystem.max_file_size@),
        ("Filesystem"@, "overwrite"@, bool_text(c.filesystem.allow_overwrite)),
    ]
}

/// The text of each row of the settings list.
pub open spec fn item_views(v: Seq<(String, String, String)>) -> Seq<
    (Seq<char>, Seq<char>, Seq<char>),
> {
    v.map_values(|t: (String, String, String)| (t.0@, t.1@, t.2@))
}

fn row(section: &str, key: &str, value: String) -> (r: (String, String, String))
    ensures
        r.0@ == section@,
        r.1@ == key@,
        r.2@ == value@,
{
    (section.to_string(), key.to_string(), value)
}

/// The settings list of a configuration.
pub fn config_items(c: &Config) -> (r: Vec<(String, String, String)>)
    ensures
        item_views(r@) == spec_config_items(*c),
{
    let mut v: Vec<(String, String, String)> = Vec::new();
    v.push(row("Server", "port", u64_to_string(c.server.port as u64)));
    v.push(row("Server", "bind_address", c.server.bind_address.clone()));
    v.push(row("Server", "root", c.server.root.clone()));
    v.push(row("Server", "log_level", c.server.log_level.clone()));
    v.push(row("Protocol", "allow_write", bool_string(c.protocol.allow_write)));
    v.push(row("Protocol", "blksize", u64_to_string(c.protocol.default_blksize as u64)));
    v.push(row("Protocol", "max_blksize", u64_to_string(c.protocol.max_blksize as u64)));
    v.push(row("Protocol", "windowsize", u64_to_string(c.protocol.default_windowsize as u64)));
    v.push(row("Protocol", "max_windowsize", u64_to_string(c.protocol.max_windowsize as u64)));
    v.push(row("Protocol", "timeout", u64_to_string(c.protocol.default_timeout as u64)));
    v.push(row("Session", "max_sessions", u64_to_string(c.session.max_sessions as u64)));
    v.push(row("Session", "max_retries", u64_to_string(c.session.max_retries as u64)));
    v.push(row("Security", "per_ip_max", u64_to_string(c.security.per_ip_max_sessions as u64)));
    v.push(row("Security", "rate_limit", u64_to_string(c.security.per_ip_rate_limit as u64)));
    v.push(row("Filesystem", "max_file_size", c.filesystem.max_file_size.clone()));
    v.push(row("Filesystem", "overwrite", bool_string(c.filesystem.allow_overwrite)));
    assert(item_views(v@) =~= spec_config_items(*c));
    v
}

/// `new` is `old` with the setting named `key` set from the text `val`.
/// Numbers and booleans that do not parse leave the setting as it was; the
/// text settings take the text as it is; unknown keys (and `root`) change
/// nothing.
pub open spec fn edit_applied(old: Config, new: Config, key: Seq<char>, val: Seq<char>) -> bool {
    if key == "port"@ {
        new == match parse_unsigned(val, u16::MAX as nat) {
            Some(v) => Config { server: ServerConfig { port: v as u16, ..old.server }, ..old },
            None => old,
        }
    } else if key == "bind_address"@ {
        &&& new == Config {
            server: ServerConfig { bind_address: new.server.bind_address, ..old.server },
            ..old
        }
        &&& new.server.bind_address@ == val
    } else if key == "log_level"@ {
        &&& new == Config {
            server: ServerConfig { log_level: new.server.log_level, ..old.server },
            ..old
        }
        &&& new.server.log_level@ == val
    } else if key == "allow_write"@ {
        new == match parse_bool(val) {
            Some(b) => Config { protocol: ProtocolConfig { allow_write: b, ..old.protocol }, ..old },
            None => old,
        }
    } else if key == "blksize"@ {
        new == match parse_unsigned(val, u16::MAX as nat) {
            Some(v) => Config {
                protocol: ProtocolConfig { default_blksize: v as u16, ..old.protocol },
                ..old
            },
            None => old,
        }
    } else if key == "max_blksize"@ {
        new == match parse_unsigned(val, u16::MAX as nat) {
            Some(v) => Config {
                protocol: ProtocolConfig { max_blksize: v as u16, ..old.protocol },
                ..old
            },
            None => old,
        }
    } else if key == "windowsize"@ {
        new == match parse_unsigned(val, u16::MAX as nat) {
            Some(v) => Config {
                protocol: ProtocolConfig { default_windowsize: v as u16, ..old.protocol },
                ..old
            },
            None => old,
        }
    } else if key == "max_windowsize"@ {
        new == match parse_unsigned(val, u16::MAX as nat) {
            Some(v) => Config {
                protocol: ProtocolConfig { max_windowsize: v as u16, ..old.protocol },
                ..old
            },
            None => old,
        }
    } else if key == "timeout"@ {
        new == match parse_unsigned(val, u8::MAX as nat) {
            Some(v) => Config {
                protocol: ProtocolConfig { default_timeout: v as u8, ..old.protocol },
                ..old
            },
            None => old,
        }
    } else if key == "max_sessions"@ {
        new == match parse_unsigned(val, usize::MAX as nat) {
            Some(v) => Config {
                session: SessionConfig { max_sessions: v as usize, ..old.session },
                ..old
            },
            None => old,
        }
    } else if key == "max_retries"@ {
        new == match parse_unsigned(val, u32::MAX as nat) {
            Some(v) => Config {
                session: SessionConfig { max_retries: v as u32, ..old.session },
                ..old
            },
            None => old,
        }
    } else if key == "per_ip_max"@ {
        new == match parse_unsigned(val, usize::MAX as nat) {
            Some(v) => Config {
                security: SecurityConfig { per_ip_max_sessions: v as usize, ..old.security },
                ..old
            },
            None => old,
        }
    } else if key == "rate_limit"@ {
        new == match parse_unsigned(val, u32::MAX as nat) {
            Some(v) => Config {
                security: SecurityConfig { per_ip_rate_limit: v as u32, ..old.security },
                ..old
            },
            None => old,
        }
    } else if key == "max_file_size"@ {
        &&& new == Config {
            filesystem: FilesystemConfig {
                max_file_size: new.filesystem.max_file_size,
                ..old.filesystem
            },
            ..old
        }
        &&& new.filesystem.max_file_size@ == val
    } else if key == "overwrite"@ {
        new == match parse_bool(val) {
            Some(b) => Config {
                filesystem: FilesystemConfig { allow_overwrite: b, ..old.filesystem },
                ..old
            },
            None => old,
        }
    } else {
        new == old
    }
}

/// Set the setting named `key` from the text `val`.
pub fn apply_config_edit(c: &mut Config, key: &str, val: &str)
    ensures
        edit_applied(*old(c), *final(c), key@, val@),
{
    if str_eq(key, "port") {
        if let Some(v) = parse_uint(val, 65535) {
            c.server.port = v as u16;
        }
    } else if str_eq(key, "bind_address") {
        c.server.bind_address = val.to_string();
    } else if str_eq(key, "log_level") {
        c.server.log_level = val.to_string();
    } else if str_eq(key, "allow_write") {
        if let Some(b) = parse_bool_str(val) {
            c.protocol.allow_write = b;
        }
    } else if str_eq(key, "blksize") {
        if let Some(v) = parse_uint(val, 65535) {
            c.protocol.default_blksize = v as u16;
        }
    } else if str_eq(key, "max_blksize") {
        if let Some(v) = parse_uint(val, 65535) {
            c.protocol.max_blksize = v as u16;
        }
    } else if str_eq(key, "windowsize") {
        if let Some(v) = parse_uint(val, 65535) {
            c.protocol.default_windowsize = v as u16;
        }
    } else if str_eq(key, "max_windowsize") {
        if let Some(v) = parse_uint(val, 65535) {
            c.protocol.max_windowsize = v as u16;
        }
    } else if str_eq(key, "timeout") {
        if let Some(v) = parse_uint(val, 255) {
            c.protocol.default_timeout = v as u8;
        }
    } else if str_eq(key, "max_sessions") {
        if let Some(v) = parse_uint(val, usize::MAX as u64) {
            c.session.max_sessions = v as usize;
        }
    } else if str_eq(key, "max_retries") {
        if let Some(v) = parse_uint(val, u32::MAX as u64) {
            c.session.max_retries = v as u32;
        }
    } else if str_eq(key, "per_ip_max") {
        if let Some(v) = parse_uint(val, usize::MAX as u64) {
            c.security.per_ip_max_sessions = v as usize;
        }
    } else if str_eq(key, "rate_limit") {
        if let Some(v) = parse_uint(val, u32::MAX as u64) {
            c.security.per_ip_rate_limit = v as u32;
        }
    } else if str_eq(key, "max_file_size") {
        c.filesystem.max_file_size = val.to_string();
    } else if str_eq(key, "overwrite") {
        if let Some(b) = parse_bool_str(val) {
            c.filesystem.allow_overwrite = b;
        }
    }
}

// ─── ACL rules ───────────────────────────────────────────────────────────────

/// A rule being written in the terminal; the operations are one
/// comma-separated text.
#[derive(Clone)]
pub struct AclRuleEdit {
    pub action: String,
    pub source: String,
    pub operations: String,
    pub comment: String,
}

/// The text of a rule being written.
pub struct AclDraftView {
    pub action: Seq<char>,
    pub source: Seq<char>,
    pub operations: Seq<char>,
    pub comment: Seq<char>,
}

impl View for AclRuleEdit {
    type V = AclDraftView;

    open spec fn view(&self) -> AclDraftView {
        AclDraftView {
            action: self.action@,
            source: self.source@,
            operations: self.operations@,
            comment: self.comment@,
        }
    }
}

/// The configured rule that a rule being written becomes: the operations
/// split on commas, each trimmed, empty ones dropped.
pub open spec fn rule_from_draft(r: AclRuleConfig, d: AclDraftView) -> bool {
    &&& r.action@ == d.action
    &&& r.source@ == d.source
    &&& views(r.operations@) == list_items(d.operations)
    &&& r.comment@ == d.comment
}

/// `new` is `old` with a rule stored: in place of rule `idx` when there is
/// such a rule, else appended at the end. Nothing else changes.
pub open spec fn acl_rule_saved(old: Config, new: Config, idx: Option<nat>, d: AclDraftView) -> bool {
    let n = old.acl.rules@.len();
    let replace = idx matches Some(i) && i < n;
    let pos: int = if replace {
        idx->0 as int
    } else {
        n as int
    };
    &&& new == Config { acl: AclConfig { rules: new.acl.rules, ..old.acl }, ..old }
    &&& new.acl.rules@.len() == if replace {
        n
    } else {
        n + 1
    }
    &&& forall|k: int|
        0 <= k < new.acl.rules@.len() && k != pos ==> #[trigger] new.acl.rules@[k]
            == old.acl.rules@[k]
    &&& rule_from_draft(new.acl.rules@[pos], d)
}

/// Store `rule` in place of rule `idx`, or append it when there is no such rule.
pub fn save_acl_rule(c: &mut Config, idx: Option<usize>, rule: &AclRuleEdit)
    ensures
        acl_rule_saved(
            *old(c),
            *final(c),
            match idx {
                Some(i) => Some(i as nat),
                None => None,
            },
            rule@,
        ),
{
    let new_rule = AclRuleConfig {
        action: rule.action.clone(),
        source: rule.source.clone(),
        operations: split_list(rule.operations.as_str()),
        comment: rule.comment.clone(),
    };
    match idx {
        Some(i) if i < c.acl.rules.len() => {
            c.acl.rules.set(i, new_rule);
        },
        _ => {
            c.acl.rules.push(new_rule);
        },
    }
}

/// Remove rule `idx` when there is such a rule; say whether one was removed.
pub fn delete_acl_rule(c: &mut Config, idx: usize) -> (r: bool)
    ensures
        r == (idx < old(c).acl.rules@.len()),
        !r ==> *final(c) == *old(c),
        r ==> *final(c) == (Config {
            acl: AclConfig { rules: final(c).acl.rules, ..old(c).acl },
            ..*old(c)
        }),
        r ==> final(c).acl.rules@ == old(c).acl.rules@.remove(idx as int),
{
    if idx < c.acl.rules.len() {
        c.acl.rules.remove(idx);
        true
    } else {
        false
    }
}


// ─── Keys and the state they drive ───────────────────────────────────────────

/// How the rule editor stands: closed, writing a new rule, or rewriting rule
/// `i`; the last number is the field that has the cursor (action, source,
/// operations, comment).
pub enum AclEditMode {
    Closed,
    Adding(AclRuleEdit, usize),
    Editing(usize, AclRuleEdit, usize),
}

pub enum AclEditModeView {
    Closed,
    Adding(AclDraftView, usize),
    Editing(usize, AclDraftView, usize),
}

impl View for AclEditMode {
    type V = AclEditModeView;

    open spec fn view(&self) -> AclEditModeView {
        match self {
            AclEditMode::Closed => AclEditModeView::Closed,
            AclEditMode::Adding(r, f) => AclEditModeView::Adding(r@, *f),
            AclEditMode::Editing(i, r, f) => AclEditModeView::Editing(*i, r@, *f),
        }
    }
}

/// A key press, as far as the terminal front end tells keys apart.
#[derive(Debug, Clone, Copy, PartialEq, Eq, Structural)]
pub enum Key {
    Char(char),
    Enter,
    Esc,
    Tab,
    BackTab,
    Backspace,
    Up,
    Down,
    Other,
}

/// A mouse event, as far as the terminal front end tells them apart.
#[derive(Debug, Clone, Copy, PartialEq, Eq, Structural)]
pub enum MouseKind {
    ScrollUp,
    ScrollDown,
    Other,
}

/// What a key asks of the program around the state.
#[allow(inconsistent_fields)]
pub enum TuiAction {
    Nothing,
    /// Leave the program.
    Quit,
    /// Stop the server.
    CancelShutdown,
    /// Set a setting from its text, then save and publish the configuration.
    ApplyConfigEdit { key: String, val: String },
    /// Store a rule (in place of rule `idx` when there is one), then save and
    /// publish the configuration.
    SaveAclRule { idx: Option<usize>, rule: AclRuleEdit },
    /// Remove rule `idx` if there is one, then save and publish the configuration.
    DeleteAclRule { idx: usize },
    /// Show the parent of the directory shown, if it has one.
    OpenParentDir,
    /// Show the subdirectory `name` of the directory shown.
    OpenDir { name: String },
}

#[allow(inconsistent_fields)]
pub enum TuiActionView {
    Nothing,
    Quit,
    CancelShutdown,
    ApplyConfigEdit { key: Seq<char>, val: Seq<char> },
    SaveAclRule { idx: Option<usize>, rule: AclDraftView },
    DeleteAclRule { idx: usize },
    OpenParentDir,
    OpenDir { name: Seq<char> },
}

impl View for TuiAction {
    type V = TuiActionView;

    open spec fn view(&self) -> TuiActionView {
        match self {
            TuiAction::Nothing => TuiActionView::Nothing,
            TuiAction::Quit => TuiActionView::Quit,
            TuiAction::CancelShutdown => TuiActionView::CancelShutdown,
            TuiAction::ApplyConfigEdit { key, val } => TuiActionView::ApplyConfigEdit {
                key: key@,
                val: val@,
            },
            TuiAction::SaveAclRule { idx, rule } => TuiActionView::SaveAclRule {
                idx: *idx,
                rule: rule@,
            },
            TuiAction::DeleteAclRule { idx } => TuiActionView::DeleteAclRule { idx: *idx },
            TuiAction::OpenParentDir => TuiActionView::OpenParentDir,
            TuiAction::OpenDir { name } => TuiActionView::OpenDir { name: name@ },
        }
    }
}

/// The most log entries the terminal keeps.
pub const TUI_MAX_LOG_ENTRIES: usize = 10000;

/// The state of the terminal front end that keys and mouse wheel drive.
pub struct TuiState {
    pub current_tab: Tab,
    pub log_entries: Vec<LogEntry>,
    pub log_scroll: usize,
    pub log_auto_scroll: bool,
    pub active_scroll: usize,
    pub transfers_scroll: usize,
    pub files_scroll: usize,
    pub config_scroll: usize,
    pub acl_scroll: usize,
    /// Name, whether it is a directory, size.
    pub files_entries: Vec<(String, bool, u64)>,
    pub files_root: String,
    pub files_dirty: bool,
    /// Section, key, value.
    pub config_items: Vec<(String, String, String)>,
    pub config_editing: Option<usize>,
    pub config_edit_buf: String,
    pub acl_edit_mode: AclEditMode,
    pub filter_active: bool,
    pub filter_text: String,
    pub show_help: bool,
}

pub struct TuiStateView {
    pub current_tab: Tab,
    pub log_entries: Seq<LogEntry>,
    pub log_scroll: usize,
    pub log_auto_scroll: bool,
    pub active_scroll: usize,
    pub transfers_scroll: usize,
    pub files_scroll: usize,
    pub config_scroll: usize,
    pub acl_scroll: usize,
    pub files_entries: Seq<(Seq<char>, bool, u64)>,
    pub files_root: Seq<char>,
    pub files_dirty: bool,
    pub config_items: Seq<(Seq<char>, Seq<char>, Seq<char>)>,
    pub config_editing: Option<usize>,
    pub config_edit_buf: Seq<char>,
    pub acl_edit_mode: AclEditModeView,
    pub filter_active: bool,
    pub filter_text: Seq<char>,
    pub show_help: bool,
}

/// The text of each file row.
pub open spec fn file_views(v: Seq<(String, bool, u64)>) -> Seq<(Seq<char>, bool, u64)> {
    v.map_values(|t: (String, bool, u64)| (t.0@, t.1, t.2))
}

impl View for TuiState {
    type V = TuiStateView;

    open spec fn view(&self) -> TuiStateView {
        TuiStateView {
            current_tab: self.current_tab,
            log_entries: self.log_entries@,
            log_scroll: self.log_scroll,
            log_auto_scroll: self.log_auto_scroll,
            active_scroll: self.active_scroll,
            transfers_scroll: self.transfers_scroll,
            files_scroll: self.files_scroll,
            config_scroll: self.config_scroll,
            acl_scroll: self.acl_scroll,
            files_entries: file_views(self.files_entries@),
            files_root: self.files_root@,
            files_dirty: self.files_dirty,
            config_items: item_views(self.config_items@),
            config_editing: self.config_editing,
            config_edit_buf: self.config_edit_buf@,
            acl_edit_mode: self.acl_edit_mode@,
            filter_active: self.filter_active,
            filter_text: self.filter_text@,
            show_help: self.show_help,
        }
    }
}

/// The text without its last character (`String::pop`).
pub open spec fn popped(s: Seq<char>) -> Seq<char> {
    if s.len() > 0 {
        s.drop_last()
    } else {
        s
    }
}

/// The rule with `c` typed into field `f` (0 action, 1 source,
/// 2 operations, else comment).
pub open spec fn draft_push(d: AclDraftView, f: usize, c: char) -> AclDraftView {
    if f == 0 {
        AclDraftView { action: d.action.push(c), ..d }
    } else if f == 1 {
        AclDraftView { source: d.source.push(c), ..d }
    } else if f == 2 {
        AclDraftView { operations: d.operations.push(c), ..d }
    } else {
        AclDraftView { comment: d.comment.push(c), ..d }
    }
}

/// The rule with the last character of field `f` erased.
pub open spec fn draft_pop(d: AclDraftView, f: usize) -> AclDraftView {
    if f == 0 {
        AclDraftView { action: popped(d.action), ..d }
    } else if f == 1 {
        AclDraftView { source: popped(d.source), ..d }
    } else if f == 2 {
        AclDraftView { operations: popped(d.operations), ..d }
    } else {
        AclDraftView { comment: popped(d.comment), ..d }
    }
}

/// The editor with `c` typed into the field under the cursor.
pub open spec fn mode_push(m: AclEditModeView, c: char) -> AclEditModeView {
    match m {
        AclEditModeView::Closed => m,
        AclEditModeView::Adding(d, f) => AclEditModeView::Adding(draft_push(d, f, c), f),
        AclEditModeView::Editing(i, d, f) => AclEditModeView::Editing(i, draft_push(d, f, c), f),
    }
}

/// The editor with the last character of the field under the cursor erased.
pub open spec fn mode_pop(m: AclEditModeView) -> AclEditModeView {
    match m {
        AclEditModeView::Closed => m,
        AclEditModeView::Adding(d, f) => AclEditModeView::Adding(draft_pop(d, f), f),
        AclEditModeView::Editing(i, d, f) => AclEditModeView::Editing(i, draft_pop(d, f), f),
    }
}

/// The editor with the cursor moved `step` fields on, round the four fields.
pub open spec fn mode_field(m: AclEditModeView, step: nat) -> AclEditModeView {
    match m {
        AclEditModeView::Closed => m,
        AclEditModeView::Adding(d, f) => AclEditModeView::Adding(d, ((f + step) % 4) as usize),
        AclEditModeView::Editing(i, d, f) => AclEditModeView::Editing(
            i,
            d,
            ((f + step) % 4) as usize,
        ),
    }
}

/// `n - k`, or 0 below.
pub open spec fn sat_sub(n: nat, k: nat) -> nat {
    if n >= k {
        (n - k) as nat
    } else {
        0
    }
}

/// The state after the wheel or a key scrolls up in the current tab.
pub open spec fn spec_scroll_up(s: TuiStateView) -> TuiStateView {
    match s.current_tab {
        Tab::Dashboard => TuiStateView { active_scroll: sat_sub(s.active_scroll as nat, 1) as usize, ..s },
        Tab::Files => TuiStateView { files_scroll: sat_sub(s.files_scroll as nat, 1) as usize, ..s },
        Tab::Transfers => TuiStateView {
            transfers_scroll: sat_sub(s.transfers_scroll as nat, 1) as usize,
            ..s
        },
        Tab::Log => TuiStateView {
            log_auto_scroll: false,
            log_scroll: sat_sub(s.log_scroll as nat, 1) as usize,
            ..s
        },
        Tab::Config => TuiStateView { config_scroll: sat_sub(s.config_scroll as nat, 1) as usize, ..s },
        Tab::Acl => TuiStateView { acl_scroll: sat_sub(s.acl_scroll as nat, 1) as usize, ..s },
        Tab::Help => s,
    }
}

/// The state after the wheel or a key scrolls down in the current tab: lists
/// stop at their last row; in the log, coming within three rows of the end
/// turns following on again.
pub open spec fn spec_scroll_down(s: TuiStateView) -> TuiStateView {
    match s.current_tab {
        Tab::Dashboard => TuiStateView { active_scroll: (s.active_scroll + 1) as usize, ..s },
        Tab::Files => if s.files_scroll < sat_sub(s.files_entries.len(), 1) {
            TuiStateView { files_scroll: (s.files_scroll + 1) as usize, ..s }
        } else {
            s
        },
        Tab::Transfers => TuiStateView { transfers_scroll: (s.transfers_scroll + 1) as usize, ..s },
        Tab::Log => {
            let n = s.log_entries.len();
            let ls: usize = if s.log_scroll < sat_sub(n, 1) {
                (s.log_scroll + 1) as usize
            } else {
                s.log_scroll
            };
            TuiStateView {
                log_scroll: ls,
                log_auto_scroll: if ls >= sat_sub(n, 3) {
                    true
                } else {
                    s.log_auto_scroll
                },
                ..s
            }
        },
        Tab::Config => if s.config_scroll < sat_sub(s.config_items.len(), 1) {
            TuiStateView { config_scroll: (s.config_scroll + 1) as usize, ..s }
        } else {
            s
        },
        Tab::Acl => TuiStateView { acl_scroll: (s.acl_scroll + 1) as usize, ..s },
        Tab::Help => s,
    }
}

/// What Enter does outside the editors: open the directory under the cursor
/// in the file list, or start editing the setting under the cursor.
pub open spec fn spec_enter(s: TuiStateView) -> (TuiStateView, TuiActionView) {
    match s.current_tab {
        Tab::Files => if s.files_scroll < s.files_entries.len()
            && s.files_entries[s.files_scroll as int].1 {
            (s, TuiActionView::OpenDir { name: s.files_entries[s.files_scroll as int].0 })
        } else {
            (s, TuiActionView::Nothing)
        },
        Tab::Config => if s.config_scroll < s.config_items.len() {
            (
                TuiStateView {
                    config_edit_buf: s.config_items[s.config_scroll as int].2,
                    config_editing: Some(s.config_scroll),
                    ..s
                },
                TuiActionView::Nothing,
            )
        } else {
            (s, TuiActionView::Nothing)
        },
        _ => (s, TuiActionView::Nothing),
    }
}

/// The text of a configured rule in the editor: operations joined with ", ".
pub open spec fn draft_of_rule(r: AclRuleConfig) -> AclDraftView {
    AclDraftView {
        action: r.action@,
        source: r.source@,
        operations: join(views(r.operations@), ", "@),
        comment: r.comment@,
    }
}

/// A key while the filter is being typed.
pub open spec fn spec_filter_key(s: TuiStateView, key: Key) -> TuiStateView {
    match key {
        Key::Esc => TuiStateView { filter_active: false, filter_text: Seq::empty(), ..s },
        Key::Enter => TuiStateView { filter_active: false, ..s },
        Key::Char(c) => TuiStateView { filter_text: s.filter_text.push(c), ..s },
        Key::Backspace => TuiStateView { filter_text: popped(s.filter_text), ..s },
        _ => s,
    }
}

/// A key while a rule is being written.
pub open spec fn spec_acl_edit_key(s: TuiStateView, key: Key) -> (TuiStateView, TuiActionView) {
    match key {
        Key::Esc => (TuiStateView { acl_edit_mode: AclEditModeView::Closed, ..s }, TuiActionView::Nothing),
        Key::Tab => (TuiStateView { acl_edit_mode: mode_field(s.acl_edit_mode, 1), ..s }, TuiActionView::Nothing),
        Key::BackTab => (
            TuiStateView { acl_edit_mode: mode_field(s.acl_edit_mode, 3), ..s },
            TuiActionView::Nothing,
        ),
        Key::Enter => (
            TuiStateView { acl_edit_mode: AclEditModeView::Closed, ..s },
            match s.acl_edit_mode {
                AclEditModeView::Editing(i, d, _) => TuiActionView::SaveAclRule {
                    idx: Some(i),
                    rule: d,
                },
                AclEditModeView::Adding(d, _) => TuiActionView::SaveAclRule { idx: None, rule: d },
                AclEditModeView::Closed => TuiActionView::Nothing,
            },
        ),
        Key::Char(c) => (
            TuiStateView {
                acl_edit_mode: mode_push(s.acl_edit_mode, c),
                ..s
            },
            TuiActionView::Nothing,
        ),
        Key::Backspace => (
            TuiStateView { acl_edit_mode: mode_pop(s.acl_edit_mode), ..s },
            TuiActionView::Nothing,
        ),
        _ => (s, TuiActionView::Nothing),
    }
}

/// A key while a setting is being edited: Enter writes the text into the
/// list and asks for the setting to be applied.
pub open spec fn spec_config_edit_key(s: TuiStateView, key: Key, idx: usize) -> (
    TuiStateView,
    TuiActionView,
) {
    match key {
        Key::Esc => (TuiStateView { config_editing: None, ..s }, TuiActionView::Nothing),
        Key::Enter => if idx < s.config_items.len() {
            let it = s.config_items[idx as int];
            (
                TuiStateView {
                    config_items: s.config_items.update(idx as int, (it.0, it.1, s.config_edit_buf)),
                    config_editing: None,
                    ..s
                },
                TuiActionView::ApplyConfigEdit { key: it.1, val: s.config_edit_buf },
            )
        } else {
            (TuiStateView { config_editing: None, ..s }, TuiActionView::Nothing)
        },
        Key::Char(c) => (
            TuiStateView { config_edit_buf: s.config_edit_buf.push(c), ..s },
            TuiActionView::Nothing,
        ),
        Key::Backspace => (
            TuiStateView { config_edit_buf: popped(s.config_edit_buf), ..s },
            TuiActionView::Nothing,
        ),
        _ => (s, TuiActionView::Nothing),
    }
}

/// A key in the ordinary mode.
pub open spec fn spec_normal_key(s: TuiStateView, key: Key, c: Config) -> (TuiStateView, TuiActionView) {
    let nothing = TuiActionView::Nothing;
    match key {
        Key::Char('q') => (s, TuiActionView::Quit),
        Key::Char('?') => (TuiStateView { show_help: true, ..s }, nothing),
        Key::Char('s') => (s, TuiActionView::CancelShutdown),
        Key::Char('r') => (
            TuiStateView { config_items: spec_config_items(c), files_dirty: true, ..s },
            nothing,
        ),
        Key::Char('/') => (TuiStateView { filter_active: true, filter_text: Seq::empty(), ..s }, nothing),
        Key::Char('1') => (TuiStateView { current_tab: Tab::Dashboard, ..s }, nothing),
        Key::Char('2') => (TuiStateView { current_tab: Tab::Files, files_dirty: true, ..s }, nothing),
        Key::Char('3') => (TuiStateView { current_tab: Tab::Transfers, ..s }, nothing),
        Key::Char('4') => (TuiStateView { current_tab: Tab::Log, ..s }, nothing),
        Key::Char('5') => (TuiStateView { current_tab: Tab::Config, ..s }, nothing),
        Key::Char('6') => (TuiStateView { current_tab: Tab::Acl, ..s }, nothing),
        Key::Char('7') => (TuiStateView { current_tab: Tab::Help, ..s }, nothing),
        Key::Tab => (TuiStateView { current_tab: next_tab(s.current_tab), ..s }, nothing),
        Key::BackTab => (TuiStateView { current_tab: prev_tab(s.current_tab), ..s }, nothing),
        Key::Up | Key::Char('k') => (spec_scroll_up(s), nothing),
        Key::Down | Key::Char('j') => (spec_scroll_down(s), nothing),
        Key::Enter => spec_enter(s),
        Key::Char('a') if s.current_tab == Tab::Acl => (
            TuiStateView {
                acl_edit_mode: AclEditModeView::Adding(
                    AclDraftView {
                        action: "allow"@,
                        source: Seq::empty(),
                        operations: "read"@,
                        comment: Seq::empty(),
                    },
                    0,
                ),
                ..s
            },
            nothing,
        ),
        Key::Char('e') if s.current_tab == Tab::Acl => if s.acl_scroll < c.acl.rules@.len() {
            (
                TuiStateView {
                    acl_edit_mode: AclEditModeView::Editing(
                        s.acl_scroll,
                        draft_of_rule(c.acl.rules@[s.acl_scroll as int]),
                        0,
                    ),
                    ..s
                },
                nothing,
            )
        } else {
            (s, nothing)
        },
        Key::Char('d') if s.current_tab == Tab::Acl => (
            TuiStateView { acl_scroll: sat_sub(s.acl_scroll as nat, 1) as usize, ..s },
            TuiActionView::DeleteAclRule { idx: s.acl_scroll },
        ),
        Key::Esc => if s.filter_text.len() > 0 {
            (TuiStateView { filter_text: Seq::empty(), ..s }, nothing)
        } else if s.current_tab == Tab::Files {
            (s, TuiActionView::OpenParentDir)
        } else {
            (s, nothing)
        },
        _ => (s, nothing),
    }
}

/// The answer to a key: the typing filter takes every key first, then an
/// open rule editor, then an open setting editor; an open help overlay is
/// closed by any key; otherwise the key acts in the current tab.
pub open spec fn spec_handle_key(s: TuiStateView, key: Key, c: Config) -> (TuiStateView, TuiActionView) {
    if s.filter_active {
        (spec_filter_key(s, key), TuiActionView::Nothing)
    } else if !(s.acl_edit_mode is Closed) {
        spec_acl_edit_key(s, key)
    } else if s.config_editing is Some {
        spec_config_edit_key(s, key, s.config_editing->0)
    } else if s.show_help {
        (TuiStateView { show_help: false, ..s }, TuiActionView::Nothing)
    } else {
        spec_normal_key(s, key, c)
    }
}


impl AclRuleEdit {
    fn push_field(&mut self, f: usize, c: char)
        ensures
            final(self)@ == draft_push(old(self)@, f, c),
    {
        if f == 0 {
            string_push(&mut self.action, c);
        } else if f == 1 {
            string_push(&mut self.source, c);
        } else if f == 2 {
            string_push(&mut self.operations, c);
        } else {
            string_push(&mut self.comment, c);
        }
    }

    fn pop_field(&mut self, f: usize)
        ensures
            final(self)@ == draft_pop(old(self)@, f),
    {
        if f == 0 {
            string_pop(&mut self.action);
        } else if f == 1 {
            string_pop(&mut self.source);
        } else if f == 2 {
            string_pop(&mut self.operations);
        } else {
            string_pop(&mut self.comment);
        }
    }

    fn from_rule(r: &AclRuleConfig) -> (d: AclRuleEdit)
        ensures
            d@ == draft_of_rule(*r),
    {
        AclRuleEdit {
            action: r.action.clone(),
            source: r.source.clone(),
            operations: join_strings(&r.operations, ", "),
            comment: r.comment.clone(),
        }
    }
}

impl TuiState {
    /// The state at start-up: the dashboard, the settings list of `config`,
    /// the file list of its root still to be read, the log followed.
    pub fn new(config: &Config) -> (r: Self)
        ensures
            r.current_tab == Tab::Dashboard,
            r.log_entries@.len() == 0,
            r.log_scroll == 0 && r.active_scroll == 0 && r.transfers_scroll == 0,
            r.files_scroll == 0 && r.config_scroll == 0 && r.acl_scroll == 0,
            r.log_auto_scroll,
            r.files_entries@.len() == 0,
            r.files_root@ == config.server.root@,
            r.files_dirty,
            item_views(r.config_items@) == spec_config_items(*config),
            r.config_editing is None,
            r.config_edit_buf@.len() == 0,
            r.acl_edit_mode is Closed,
            !r.filter_active,
            r.filter_text@.len() == 0,
            !r.show_help,
    {
        TuiState {
            current_tab: Tab::Dashboard,
            log_entries: Vec::new(),
            log_scroll: 0,
            log_auto_scroll: true,
            active_scroll: 0,
            transfers_scroll: 0,
            files_scroll: 0,
            config_scroll: 0,
            acl_scroll: 0,
            files_entries: Vec::new(),
            files_root: config.server.root.clone(),
            files_dirty: true,
            config_items: config_items(config),
            config_editing: None,
            config_edit_buf: String::new(),
            acl_edit_mode: AclEditMode::Closed,
            filter_active: false,
            filter_text: String::new(),
            show_help: false,
        }
    }

    /// Take the log entries that arrived, keeping the newest `TUI_MAX_LOG_ENTRIES`.
    pub fn take_logs(&mut self, incoming: Vec<LogEntry>)
        ensures
            final(self)@ == (TuiStateView {
                log_entries: newest(old(self).log_entries@ + incoming@, TUI_MAX_LOG_ENTRIES as nat),
                ..old(self)@
            }),
    {
        append_bounded(&mut self.log_entries, incoming, TUI_MAX_LOG_ENTRIES);
    }

    /// Rebuild the settings list from `config`.
    pub fn refresh_config(&mut self, config: &Config)
        ensures
            final(self)@ == (TuiStateView { config_items: spec_config_items(*config), ..old(self)@ }),
    {
        self.config_items = config_items(config);
    }

    /// Show the directory `root`, from its first row, to be read anew.
    pub fn enter_dir(&mut self, root: String)
        ensures
            final(self)@ == (TuiStateView {
                files_root: root@,
                files_dirty: true,
                files_scroll: 0,
                ..old(self)@
            }),
    {
        self.files_root = root;
        self.files_dirty = true;
        self.files_scroll = 0;
    }

    /// Scroll up in the current tab.
    pub fn scroll_up(&mut self)
        ensures
            final(self)@ == spec_scroll_up(old(self)@),
    {
        match self.current_tab {
            Tab::Dashboard => self.active_scroll = self.active_scroll.saturating_sub(1),
            Tab::Files => self.files_scroll = self.files_scroll.saturating_sub(1),
            Tab::Transfers => self.transfers_scroll = self.transfers_scroll.saturating_sub(1),
            Tab::Log => {
                self.log_auto_scroll = false;
                self.log_scroll = self.log_scroll.saturating_sub(1);
            },
            Tab::Config => self.config_scroll = self.config_scroll.saturating_sub(1),
            Tab::Acl => self.acl_scroll = self.acl_scroll.saturating_sub(1),
            Tab::Help => {},
        }
    }

    /// Scroll down in the current tab.
    pub fn scroll_down(&mut self)
        requires
            old(self).active_scroll < usize::MAX,
            old(self).transfers_scroll < usize::MAX,
            old(self).acl_scroll < usize::MAX,
        ensures
            final(self)@ == spec_scroll_down(old(self)@),
    {
        match self.current_tab {
            Tab::Dashboard => self.active_scroll = self.active_scroll + 1,
            Tab::Files => {
                if self.files_scroll < self.files_entries.len().saturating_sub(1) {
                    self.files_scroll = self.files_scroll + 1;
                }
            },
            Tab::Transfers => self.transfers_scroll = self.transfers_scroll + 1,
            Tab::Log => {
                if self.log_scroll < self.log_entries.len().saturating_sub(1) {
                    self.log_scroll = self.log_scroll + 1;
                }
                if self.log_scroll >= self.log_entries.len().saturating_sub(3) {
                    self.log_auto_scroll = true;
                }
            },
            Tab::Config => {
                if self.config_scroll < self.config_items.len().saturating_sub(1) {
                    self.config_scroll = self.config_scroll + 1;
                }
            },
            Tab::Acl => self.acl_scroll = self.acl_scroll + 1,
            Tab::Help => {},
        }
        proof {
            assert(file_views(self.files_entries@).len() == self.files_entries@.len());
            assert(item_views(self.config_items@).len() == self.config_items@.len());
        }
    }

    /// The wheel scrolls like the arrow keys.
    pub fn handle_mouse(&mut self, mouse: MouseKind)
        requires
            old(self).active_scroll < usize::MAX,
            old(self).transfers_scroll < usize::MAX,
            old(self).acl_scroll < usize::MAX,
        ensures
            final(self)@ == match mouse {
                MouseKind::ScrollUp => spec_scroll_up(old(self)@),
                MouseKind::ScrollDown => spec_scroll_down(old(self)@),
                MouseKind::Other => old(self)@,
            },
    {
        match mouse {
            MouseKind::ScrollUp => self.scroll_up(),
            MouseKind::ScrollDown => self.scroll_down(),
            MouseKind::Other => {},
        }
    }

    fn handle_enter(&mut self) -> (r: TuiAction)
        ensures
            (final(self)@, r@) == spec_enter(old(self)@),
    {
        match self.current_tab {
            Tab::Files => {
                if self.files_scroll < self.files_entries.len() {
                    let entry = &self.files_entries[self.files_scroll];
                    if entry.1 {
                        return TuiAction::OpenDir { name: entry.0.clone() };
                    }
                }
                TuiAction::Nothing
            },
            Tab::Config => {
                if self.config_scroll < self.config_items.len() {
                    self.config_edit_buf = self.config_items[self.config_scroll].2.clone();
                    self.config_editing = Some(self.config_scroll);
                }
                TuiAction::Nothing
            },
            _ => TuiAction::Nothing,
        }
    }

    fn acl_edit_key(&mut self, key: Key) -> (r: TuiAction)
        requires
            !(old(self).acl_edit_mode is Closed),
        ensures
            (final(self)@, r@) == spec_acl_edit_key(old(self)@, key),
    {
        let mut mode = AclEditMode::Closed;
        std::mem::swap(&mut mode, &mut self.acl_edit_mode);
        match key {
            Key::Esc => TuiAction::Nothing,
            Key::Tab | Key::BackTab => {
                let step: usize = if key == Key::Tab {
                    1
                } else {
                    3
                };
                self.acl_edit_mode = match mode {
                    AclEditMode::Adding(d, f) => AclEditMode::Adding(d, (f % 4 + step) % 4),
                    AclEditMode::Editing(i, d, f) => AclEditMode::Editing(i, d, (f % 4 + step) % 4),
                    AclEditMode::Closed => AclEditMode::Closed,
                };
                TuiAction::Nothing
            },
            Key::Enter => match mode {
                AclEditMode::Adding(rule, _) => TuiAction::SaveAclRule { idx: None, rule },
                AclEditMode::Editing(i, rule, _) => TuiAction::SaveAclRule { idx: Some(i), rule },
                AclEditMode::Closed => TuiAction::Nothing,
            },
            Key::Char(c) => {
                self.acl_edit_mode = match mode {
                    AclEditMode::Adding(mut d, f) => {
                        d.push_field(f, c);
                        AclEditMode::Adding(d, f)
                    },
                    AclEditMode::Editing(i, mut d, f) => {
                        d.push_field(f, c);
                        AclEditMode::Editing(i, d, f)
                    },
                    AclEditMode::Closed => AclEditMode::Closed,
                };
                TuiAction::Nothing
            },
            Key::Backspace => {
                self.acl_edit_mode = match mode {
                    AclEditMode::Adding(mut d, f) => {
                        d.pop_field(f);
                        AclEditMode::Adding(d, f)
                    },
                    AclEditMode::Editing(i, mut d, f) => {
                        d.pop_field(f);
                        AclEditMode::Editing(i, d, f)
                    },
                    AclEditMode::Closed => AclEditMode::Closed,
                };
                TuiAction::Nothing
            },
            _ => {
                self.acl_edit_mode = mode;
                TuiAction::Nothing
            },
        }
    }

    fn config_edit_key(&mut self, key: Key, idx: usize) -> (r: TuiAction)
        ensures
            (final(self)@, r@) == spec_config_edit_key(old(self)@, key, idx),
    {
        match key {
            Key::Esc => {
                self.config_editing = None;
                TuiAction::Nothing
            },
            Key::Enter => {
                self.config_editing = None;
                if idx < self.config_items.len() {
                    let ghost before = self.config_items@;
                    let section = self.config_items[idx].0.clone();
                    let key_name = self.config_items[idx].1.clone();
                    let val = self.config_edit_buf.clone();
                    self.config_items.set(idx, (section, key_name.clone(), val.clone()));
                    proof {
                        assert(item_views(self.config_items@) =~= item_views(before).update(
                            idx as int,
                            (before[idx as int].0@, before[idx as int].1@, self.config_edit_buf@),
                        ));
                    }
                    TuiAction::ApplyConfigEdit { key: key_name, val }
                } else {
                    TuiAction::Nothing
                }
            },
            Key::Char(c) => {
                string_push(&mut self.config_edit_buf, c);
                TuiAction::Nothing
            },
            Key::Backspace => {
                string_pop(&mut self.config_edit_buf);
                TuiAction::Nothing
            },
            _ => TuiAction::Nothing,
        }
    }

    fn normal_key(&mut self, key: Key, config: &Config) -> (r: TuiAction)
        requires
            old(self).active_scroll < usize::MAX,
            old(self).transfers_scroll < usize::MAX,
            old(self).acl_scroll < usize::MAX,
        ensures
            (final(self)@, r@) == spec_normal_key(old(self)@, key, *config),
    {
        match key {
            Key::Char('q') => TuiAction::Quit,
            Key::Char('?') => {
                self.show_help = true;
                TuiAction::Nothing
            },
            Key::Char('s') => TuiAction::CancelShutdown,
            Key::Char('r') => {
                self.refresh_config(config);
                self.files_dirty = true;
                TuiAction::Nothing
            },
            Key::Char('/') => {
                self.filter_active = true;
                self.filter_text = String::new();
                TuiAction::Nothing
            },
            Key::Char('1') => {
                self.current_tab = Tab::Dashboard;
                TuiAction::Nothing
            },
            Key::Char('2') => {
                self.current_tab = Tab::Files;
                self.files_dirty = true;
                TuiAction::Nothing
            },
            Key::Char('3') => {
                self.current_tab = Tab::Transfers;
                TuiAction::Nothing
            },
            Key::Char('4') => {
                self.current_tab = Tab::Log;
                TuiAction::Nothing
            },
            Key::Char('5') => {
                self.current_tab = Tab::Config;
                TuiAction::Nothing
            },
            Key::Char('6') => {
                self.current_tab = Tab::Acl;
                TuiAction::Nothing
            },
            Key::Char('7') => {
                self.current_tab = Tab::Help;
                TuiAction::Nothing
            },
            Key::Tab => {
                let i = self.current_tab.index();
                self.current_tab = Tab::at((i + 1) % TAB_COUNT);
                TuiAction::Nothing
            },
            Key::BackTab => {
                let i = self.current_tab.index();
                self.current_tab = Tab::at((i + TAB_COUNT - 1) % TAB_COUNT);
                TuiAction::Nothing
            },
            Key::Up | Key::Char('k') => {
                self.scroll_up();
                TuiAction::Nothing
            },
            Key::Down | Key::Char('j') => {
                self.scroll_down();
                TuiAction::Nothing
            },
            Key::Enter => self.handle_enter(),
            Key::Char('a') if self.current_tab == Tab::Acl => {
                self.acl_edit_mode = AclEditMode::Adding(
                    AclRuleEdit {
                        action: "allow".to_string(),
                        source: String::new(),
                        operations: "read".to_string(),
                        comment: String::new(),
                    },
                    0,
                );
                TuiAction::Nothing
            },
            Key::Char('e') if self.current_tab == Tab::Acl => {
                if self.acl_scroll < config.acl.rules.len() {
                    let d = AclRuleEdit::from_rule(&config.acl.rules[self.acl_scroll]);
                    self.acl_edit_mode = AclEditMode::Editing(self.acl_scroll, d, 0);
                }
                TuiAction::Nothing
            },
            Key::Char('d') if self.current_tab == Tab::Acl => {
                let idx = self.acl_scroll;
                if self.acl_scroll > 0 {
                    self.acl_scroll = self.acl_scroll - 1;
                }
                TuiAction::DeleteAclRule { idx }
            },
            Key::Esc => {
                if self.filter_text.as_str().unicode_len() > 0 {
                    self.filter_text = String::new();
                    TuiAction::Nothing
                } else if self.current_tab == Tab::Files {
                    TuiAction::OpenParentDir
                } else {
                    TuiAction::Nothing
                }
            },
            _ => TuiAction::Nothing,
        }
    }

    /// Answer a key; see [`spec_handle_key`].
    pub fn handle_key(&mut self, key: Key, config: &Config) -> (r: TuiAction)
        requires
            old(self).active_scroll < usize::MAX,
            old(self).transfers_scroll < usize::MAX,
            old(self).acl_scroll < usize::MAX,
        ensures
            (final(self)@, r@) == spec_handle_key(old(self)@, key, *config),
    {
        if self.filter_active {
            match key {
                Key::Esc => {
                    self.filter_active = false;
                    self.filter_text = String::new();
                },
                Key::Enter => {
                    self.filter_active = false;
                },
                Key::Char(c) => {
                    string_push(&mut self.filter_text, c);
                },
                Key::Backspace => {
                    string_pop(&mut self.filter_text);
                },
                _ => {},
            }
            return TuiAction::Nothing;
        }
        let editing_rule = match self.acl_edit_mode {
            AclEditMode::Closed => false,
            _ => true,
        };
        if editing_rule {
            return self.acl_edit_key(key);
        }
        if let Some(idx) = self.config_editing {
            return self.config_edit_key(key, idx);
        }
        if self.show_help {
            self.show_help = false;
            return TuiAction::Nothing;
        }
        self.normal_key(key, config)
    }

    /// The hint line for the current mode.
    pub fn status_hint(&self) -> (r: &'static str)
        ensures
            r@ == if self.config_editing is Some {
                " Enter: save | Esc: cancel "@
            } else if !(self.acl_edit_mode is Closed) {
                " Tab: next field | Enter: save | Esc: cancel "@
            } else if self.current_tab == Tab::Acl {
                " a: add | e: edit | d: delete | /: filter | q: quit | ?: help "@
            } else {
                " 1-6: tabs | j/k: scroll | /: filter | Enter: select | s: stop | r: reload | q: quit | ?: help "@
            },
    {
        if self.config_editing.is_some() {
            " Enter: save | Esc: cancel "
        } else if match self.acl_edit_mode {
            AclEditMode::Closed => false,
            _ => true,
        } {
            " Tab: next field | Enter: save | Esc: cancel "
        } else if self.current_tab == Tab::Acl {
            " a: add | e: edit | d: delete | /: filter | q: quit | ?: help "
        } else {
            " 1-6: tabs | j/k: scroll | /: filter | Enter: select | s: stop | r: reload | q: quit | ?: help "
        }
    }

    /// Whether `text` passes the filter: no filter, or the filter occurs in
    /// the text, both in lower case.
    pub fn matches_filter(&self, text: &str) -> (r: bool)
        ensures
            r == (self.filter_text@.len() == 0 || contains(
                unicode_lower(text@),
                unicode_lower(self.filter_text@),
            )),
    {
        if self.filter_text.as_str().unicode_len() == 0 {
            return true;
        }
        let t = str_to_lowercase(text);
        let f = str_to_lowercase(self.filter_text.as_str());
        str_contains(t.as_str(), f.as_str())
    }
}


/// Whether the file rows are in the order of the list: directories first,
/// then by name.
pub open spec fn rows_sorted(s: Seq<(String, bool, u64)>) -> bool {
    forall|i: int, j: int|
        0 <= i < j < s.len() ==> listed_before(
            (#[trigger] s[i]).1,
            s[i].0@,
            (#[trigger] s[j]).1,
            s[j].0@,
        )
}

/// The file rows in the order of the list.
pub fn sort_file_rows(v: Vec<(String, bool, u64)>) -> (r: Vec<(String, bool, u64)>)
    ensures
        r@.to_multiset() == v@.to_multiset(),
        rows_sorted(r@),
{
    let ghost orig = v@;
    let mut rest = v;
    let mut out: Vec<(String, bool, u64)> = Vec::new();
    while rest.len() > 0
        invariant
            out@.to_multiset().add(rest@.to_multiset()) == orig.to_multiset(),
            rows_sorted(out@),
        decreases rest.len(),
    {
        let ghost before_rest = rest@;
        let x = rest.remove(0);
        proof {
            assert(before_rest =~= before_rest.remove(0).insert(0, x));
            vstd::seq_lib::to_multiset_insert(before_rest.remove(0), 0, x);
        }
        let mut pos: usize = 0;
        while pos < out.len() && ((out[pos].1 && !x.1) || (out[pos].1 == x.1 && str_lex_le(
            out[pos].0.as_str(),
            x.0.as_str(),
        )))
            invariant
                pos <= out@.len(),
                forall|k: int|
                    0 <= k < pos ==> listed_before((#[trigger] out@[k]).1, out@[k].0@, x.1, x.0@),
            decreases out.len() - pos,
        {
            pos = pos + 1;
        }
        let ghost old_out = out@;
        proof {
            if pos < old_out.len() {
                lemma_listed_total(old_out[pos as int].1, old_out[pos as int].0@, x.1, x.0@);
            }
            assert forall|j: int| pos <= j < old_out.len() implies listed_before(
                x.1,
                x.0@,
                (#[trigger] old_out[j]).1,
                old_out[j].0@,
            ) by {
                if j > pos {
                    lemma_listed_trans(
                        x.1,
                        x.0@,
                        old_out[pos as int].1,
                        old_out[pos as int].0@,
                        old_out[j].1,
                        old_out[j].0@,
                    );
                }
            }
        }
        out.insert(pos, x);
        proof {
            vstd::seq_lib::to_multiset_insert(old_out, pos as int, x);
            assert forall|i: int, j: int| 0 <= i < j < out@.len() implies listed_before(
                (#[trigger] out@[i]).1,
                out@[i].0@,
                (#[trigger] out@[j]).1,
                out@[j].0@,
            ) by {
                if j < pos {
                    assert(out@[i] == old_out[i] && out@[j] == old_out[j]);
                } else if j == pos {
                    assert(out@[i] == old_out[i]);
                } else if i == pos {
                    assert(out@[j] == old_out[j - 1]);
                } else if i < pos {
                    assert(out@[i] == old_out[i] && out@[j] == old_out[j - 1]);
                } else {
                    assert(out@[i] == old_out[i - 1] && out@[j] == old_out[j - 1]);
                }
            }
            assert(out@.to_multiset().add(rest@.to_multiset()) =~= orig.to_multiset());
        }
    }
    out
}

impl TuiState {
    /// Show the rows read from the directory (name, whether a directory,
    /// size), in the order of the list; the list is then up to date.
    pub fn set_files(&mut self, rows: Vec<(String, bool, u64)>)
        ensures
            final(self).files_entries@.to_multiset() == rows@.to_multiset(),
            rows_sorted(final(self).files_entries@),
            final(self)@ == (TuiStateView {
                files_entries: final(self)@.files_entries,
                files_dirty: false,
                ..old(self)@
            }),
    {
        self.files_entries = sort_file_rows(rows);
        self.files_dirty = false;
    }
}

} // verus!
