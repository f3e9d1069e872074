//! Server configuration: the settings, their defaults, size strings such as
//! "4GB", and command-line overrides.

use vstd::prelude::*;

use crate::tftp::text::{
    chars_range, parse_uint, parse_unsigned, parse_unsigned_range, starts_with, str_eq,
    str_starts_with, str_to_lowercase, trim, trim_bounds, trimmed_chars, unicode_lower,
};

verus! {

/// Captured CLI overrides so they survive config reload.
#[derive(Debug, Clone, Default)]
pub struct CliOverrides {
    pub config_path: Option<String>,
    pub port: Option<u16>,
    pub bind: Option<String>,
    pub root: Option<String>,
    pub allow_write: bool,
    pub max_sessions: Option<usize>,
    pub blksize: Option<u16>,
    pub windowsize: Option<u16>,
    pub ip_version: Option<String>,
    pub log_level: Option<String>,
}

/// Full server configuration
#[derive(Debug, Clone)]
pub struct Config {
    pub server: ServerConfig,
    pub network: NetworkConfig,
    pub protocol: ProtocolConfig,
    pub session: SessionConfig,
    pub security: SecurityConfig,
    pub filesystem: FilesystemConfig,
    pub acl: AclConfig,
    pub gui: GuiConfig,
    pub tui: TuiConfig,
}

#[derive(Debug, Clone)]
pub struct GuiConfig {
    pub theme: String,
    pub refresh_rate_ms: u64,
    pub graph_history_seconds: u64,
    pub show_bandwidth_chart: bool,
    pub language: String,
}

#[derive(Debug, Clone)]
pub struct TuiConfig {
    pub mouse: bool,
    pub refresh_rate_ms: u64,
}

#[derive(Debug, Clone)]
pub struct ServerConfig {
    pub bind_address: String,
    pub port: u16,
    pub root: String,
    pub log_level: String,
    pub log_file: String,
    /// Maximum lines to keep in the log file (circular rotation). 0 = unlimited.
    pub max_log_lines: usize,
    /// Enable system log integration (journald on Linux, Event Log on Windows)
    pub syslog: bool,
}

#[derive(Debug, Clone)]
pub struct NetworkConfig {
    pub ip_version: String,
    pub recv_buffer_size: usize,
    pub send_buffer_size: usize,
    pub session_recv_buffer: usize,
    pub session_send_buffer: usize,
}

#[derive(Debug, Clone)]
pub struct ProtocolConfig {
    pub allow_write: bool,
    pub default_blksize: u16,
    pub max_blksize: u16,
    pub default_windowsize: u16,
    pub max_windowsize: u16,
    pub default_timeout: u8,
    pub min_timeout: u8,
    pub max_timeout: u8,
}

#[derive(Debug, Clone)]
pub struct SessionConfig {
    pub max_sessions: usize,
    pub max_retries: u32,
    pub exponential_backoff: bool,
    pub session_timeout: u64,
    pub shutdown_grace_period: u64,
}

#[derive(Debug, Clone)]
pub struct SecurityConfig {
    pub per_ip_max_sessions: usize,
    pub per_ip_rate_limit: u32,
    pub rate_limit_window_seconds: u64,
    pub rate_limit_action: String,
}

#[derive(Debug, Clone)]
pub struct FilesystemConfig {
    pub max_file_size: String,
    pub allow_overwrite: bool,
    pub create_dirs: bool,
    pub follow_symlinks: bool,
    /// Alias prefix and physical directory of each virtual root.
    pub virtual_roots: Vec<(String, String)>,
}

#[derive(Debug, Clone)]
pub struct AclConfig {
    pub mode: String,
    pub rules: Vec<AclRuleConfig>,
}

#[derive(Debug, Clone)]
pub struct AclRuleConfig {
    pub action: String,
    pub source: String,
    pub operations: Vec<String>,
    pub comment: String,
}

/// The language code of a locale such as `de_DE.UTF-8`: `ru`, `de`, `es` or
/// `fr` when the lower-cased locale starts with it, `en` otherwise.
pub open spec fn language_of_locale(locale: Seq<char>) -> Seq<char> {
    let l = unicode_lower(locale);
    if starts_with(l, "ru"@) {
        "ru"@
    } else if starts_with(l, "de"@) {
        "de"@
    } else if starts_with(l, "es"@) {
        "es"@
    } else if starts_with(l, "fr"@) {
        "fr"@
    } else {
        "en"@
    }
}

/// The locale the environment names: `LANG`, else `LC_ALL`, else
/// `LC_MESSAGES`, else none (the empty text).
pub open spec fn chosen_locale(
    lang: Option<Seq<char>>,
    lc_all: Option<Seq<char>>,
    lc_messages: Option<Seq<char>>,
) -> Seq<char> {
    match lang {
        Some(l) => l,
        None => match lc_all {
            Some(l) => l,
            None => match lc_messages {
                Some(l) => l,
                None => Seq::empty(),
            },
        },
    }
}

pub open spec fn opt_view(o: Option<String>) -> Option<Seq<char>> {
    match o {
        Some(s) => Some(s@),
        None => None,
    }
}

/// The language to show, from the values of `LANG`, `LC_ALL` and
/// `LC_MESSAGES` (each `None` when unset).
pub fn detect_system_language(
    lang: Option<String>,
    lc_all: Option<String>,
    lc_messages: Option<String>,
) -> (r: String)
    ensures
        r@ == language_of_locale(
            chosen_locale(opt_view(lang), opt_view(lc_all), opt_view(lc_messages)),
        ),
{
    let locale = match lang {
        Some(l) => l,
        None => match lc_all {
            Some(l) => l,
            None => match lc_messages {
                Some(l) => l,
                None => String::new(),
            },
        },
    };
    let l = str_to_lowercase(locale.as_str());
    let code = if str_starts_with(l.as_str(), "ru") {
        "ru"
    } else if str_starts_with(l.as_str(), "de") {
        "de"
    } else if str_starts_with(l.as_str(), "es") {
        "es"
    } else if str_starts_with(l.as_str(), "fr") {
        "fr"
    } else {
        "en"
    };
    code.to_string()
}

impl GuiConfig {
    /// The graphical settings by default, showing `language`.
    pub fn default_for_language(language: String) -> (r: Self)
        ensures
            r.theme@ == "dark"@,
            r.refresh_rate_ms == 250,
            r.graph_history_seconds == 300,
            !r.show_bandwidth_chart,
            r.language@ == language@,
    {
        GuiConfig {
            theme: "dark".to_string(),
            refresh_rate_ms: 250,
            graph_history_seconds: 300,
            show_bandwidth_chart: false,
            language,
        }
    }
}

impl Default for ServerConfig {
    /// The server settings by default, with the Unix locations of the root
    /// and the log file.
    fn default() -> (r: Self)
        ensures
            r.bind_address@ == "::"@,
            r.port == 69,
            r.root@ == "/srv/tftp"@,
            r.log_level@ == "info"@,
            r.log_file@ == "/var/log/fry-tftp-server.log"@,
            r.max_log_lines == 5000,
            !r.syslog,
    {
        ServerConfig {
            bind_address: "::".to_string(),
            port: 69,
            root: "/srv/tftp".to_string(),
            log_level: "info".to_string(),
            log_file: "/var/log/fry-tftp-server.log".to_string(),
            max_log_lines: 5000,
            syslog: false,
        }
    }
}

impl Default for TuiConfig {
    fn default() -> (r: Self)
        ensures
            r.mouse,
            r.refresh_rate_ms == 250,
    {
        TuiConfig { mouse: true, refresh_rate_ms: 250 }
    }
}

impl Default for NetworkConfig {
    fn default() -> (r: Self)
        ensures
            r.ip_version@ == "dual"@,
            r.recv_buffer_size == 4 * 1024 * 1024,
            r.send_buffer_size == 4 * 1024 * 1024,
            r.session_recv_buffer == 2 * 1024 * 1024,
            r.session_send_buffer == 2 * 1024 * 1024,
    {
        NetworkConfig {
            ip_version: "dual".to_string(),
            recv_buffer_size: 4 * 1024 * 1024,
            send_buffer_size: 4 * 1024 * 1024,
            session_recv_buffer: 2 * 1024 * 1024,
            session_send_buffer: 2 * 1024 * 1024,
        }
    }
}

impl Default for ProtocolConfig {
    fn default() -> (r: Self)
        ensures
            !r.allow_write,
            r.default_blksize == 512,
            r.max_blksize == 65464,
            r.default_windowsize == 1,
            r.max_windowsize == 64,
            r.default_timeout == 3,
            r.min_timeout == 1,
            r.max_timeout == 255,
    {
        ProtocolConfig {
            allow_write: false,
            default_blksize: 512,
            max_blksize: 65464,
            default_windowsize: 1,
            max_windowsize: 64,
            default_timeout: 3,
            min_timeout: 1,
            max_timeout: 255,
        }
    }
}

impl Default for SessionConfig {
    fn default() -> (r: Self)
        ensures
            r.max_sessions == 100,
            r.max_retries == 5,
            r.exponential_backoff,
            r.session_timeout == 120,
            r.shutdown_grace_period == 30,
    {
        SessionConfig {
            max_sessions: 100,
            max_retries: 5,
            exponential_backoff: true,
            session_timeout: 120,
            shutdown_grace_period: 30,
        }
    }
}

impl Default for SecurityConfig {
    fn default() -> (r: Self)
        ensures
            r.per_ip_max_sessions == 10,
            r.per_ip_rate_limit == 100,
            r.rate_limit_window_seconds == 60,
            r.rate_limit_action@ == "drop"@,
    {
        SecurityConfig {
            per_ip_max_sessions: 10,
            per_ip_rate_limit: 100,
            rate_limit_window_seconds: 60,
            rate_limit_action: "drop".to_string(),
        }
    }
}

impl Default for FilesystemConfig {
    fn default() -> (r: Self)
        ensures
            r.max_file_size@ == "4GB"@,
            !r.allow_overwrite,
            !r.create_dirs,
            !r.follow_symlinks,
            r.virtual_roots@.len() == 0,
    {
        FilesystemConfig {
            max_file_size: "4GB".to_string(),
            allow_overwrite: false,
            create_dirs: false,
            follow_symlinks: false,
            virtual_roots: Vec::new(),
        }
    }
}

impl Default for AclConfig {
    fn default() -> (r: Self)
        ensures
            r.mode@ == "disabled"@,
            r.rules@.len() == 0,
    {
        AclConfig { mode: "disabled".to_string(), rules: Vec::new() }
    }
}

// ─── Size strings ──────────────────────────────────────────────────────────

/// Whether `t` ends with the two characters `a`, `b`.
pub open spec fn ends_with2(t: Seq<char>, a: char, b: char) -> bool {
    t.len() >= 2 && t[t.len() - 2] == a && t[t.len() - 1] == b
}

/// The number part and the unit (in bytes) of a trimmed size string.
pub open spec fn size_parts(t: Seq<char>) -> (Seq<char>, nat) {
    if ends_with2(t, 'G', 'B') || ends_with2(t, 'g', 'b') {
        (t.take(t.len() - 2), 1024 * 1024 * 1024)
    } else if ends_with2(t, 'M', 'B') || ends_with2(t, 'm', 'b') {
        (t.take(t.len() - 2), 1024 * 1024)
    } else if ends_with2(t, 'K', 'B') || ends_with2(t, 'k', 'b') {
        (t.take(t.len() - 2), 1024)
    } else if t.len() >= 1 && (t.last() == 'B' || t.last() == 'b') {
        (t.take(t.len() - 1), 1)
    } else {
        (t, 1)
    }
}

/// A size such as "4GB", " 4 GB", "100mb", "512KB", "1024B" or "1024" in bytes;
/// an oversized product saturates at `u64::MAX`.
pub open spec fn spec_parse_size(s: Seq<char>) -> Option<u64> {
    let (num, unit) = size_parts(trim(s));
    match parse_unsigned(trim(num), u64::MAX as nat) {
        Some(n) => Some(
            if n * unit <= u64::MAX {
                (n * unit) as u64
            } else {
                u64::MAX
            },
        ),
        None => None,
    }
}

/// Parse a human-readable size string like "4GB", "100MB", "512KB", "1024" into bytes.
pub fn parse_size(s: &str) -> (r: Option<u64>)
    ensures
        r == spec_parse_size(s@),
{
    let t = trimmed_chars(s);
    let n = t.len();
    let (cut, unit): (usize, u64) = if n >= 2 && ((t[n - 2] == 'G' && t[n - 1] == 'B') || (t[n
        - 2] == 'g' && t[n - 1] == 'b')) {
        (n - 2, 1024 * 1024 * 1024)
    } else if n >= 2 && ((t[n - 2] == 'M' && t[n - 1] == 'B') || (t[n - 2] == 'm' && t[n - 1]
        == 'b')) {
        (n - 2, 1024 * 1024)
    } else if n >= 2 && ((t[n - 2] == 'K' && t[n - 1] == 'B') || (t[n - 2] == 'k' && t[n - 1]
        == 'b')) {
        (n - 2, 1024)
    } else if n >= 1 && (t[n - 1] == 'B' || t[n - 1] == 'b') {
        (n - 1, 1)
    } else {
        (n, 1)
    };
    let num = chars_range(&t, 0, cut);
    assert(num@ == size_parts(t@).0);
    assert(unit as nat == size_parts(t@).1);
    let (a, b) = trim_bounds(&num);
    match parse_unsigned_range(&num, a, b, u64::MAX) {
        Some(v) => match v.checked_mul(unit) {
            Some(p) => Some(p),
            None => Some(u64::MAX),
        },
        None => None,
    }
}

impl FilesystemConfig {
    /// Parse max_file_size string into bytes. Returns u64::MAX on parse failure.
    pub fn max_file_size_bytes(&self) -> (r: u64)
        ensures
            r == match spec_parse_size(self.max_file_size@) {
                Some(n) => n,
                None => u64::MAX,
            },
    {
        match parse_size(self.max_file_size.as_str()) {
            Some(n) => n,
            None => u64::MAX,
        }
    }
}


/// `o`'s value, or `d` when `o` is `None`.
pub open spec fn or_keep<T>(o: Option<T>, d: T) -> T {
    match o {
        Some(v) => v,
        None => d,
    }
}

impl Config {
    /// Apply CLI overrides: each given value replaces its setting; `blksize` and
    /// `windowsize` set the negotiation maxima; `allow_write` can only turn
    /// writing on.
    #[allow(clippy::too_many_arguments)]
    pub fn apply_overrides(
        &mut self,
        port: Option<u16>,
        bind: Option<String>,
        root: Option<String>,
        allow_write: bool,
        max_sessions: Option<usize>,
        blksize: Option<u16>,
        windowsize: Option<u16>,
        ip_version: Option<String>,
        log_level: Option<String>,
    )
        ensures
            final(self).server == (ServerConfig {
                port: or_keep(port, old(self).server.port),
                bind_address: or_keep(bind, old(self).server.bind_address),
                root: or_keep(root, old(self).server.root),
                log_level: or_keep(log_level, old(self).server.log_level),
                ..old(self).server
            }),
            final(self).protocol == (ProtocolConfig {
                allow_write: allow_write || old(self).protocol.allow_write,
                max_blksize: or_keep(blksize, old(self).protocol.max_blksize),
                max_windowsize: or_keep(windowsize, old(self).protocol.max_windowsize),
                ..old(self).protocol
            }),
            final(self).session == (SessionConfig {
                max_sessions: or_keep(max_sessions, old(self).session.max_sessions),
                ..old(self).session
            }),
            final(self).network == (NetworkConfig {
                ip_version: or_keep(ip_version, old(self).network.ip_version),
                ..old(self).network
            }),
            final(self).security == old(self).security,
            final(self).filesystem == old(self).filesystem,
            final(self).acl == old(self).acl,
            final(self).gui == old(self).gui,
            final(self).tui == old(self).tui,
    {
        if let Some(p) = port {
            self.server.port = p;
        }
        if let Some(b) = bind {
            self.server.bind_address = b;
        }
        if let Some(r) = root {
            self.server.root = r;
        }
        if allow_write {
            self.protocol.allow_write = true;
        }
        if let Some(m) = max_sessions {
            self.session.max_sessions = m;
        }
        if let Some(b) = blksize {
            self.protocol.max_blksize = b;
        }
        if let Some(w) = windowsize {
            self.protocol.max_windowsize = w;
        }
        if let Some(v) = ip_version {
            self.network.ip_version = v;
        }
        if let Some(l) = log_level {
            self.server.log_level = l;
        }
    }
}


/// The values of the environment variables that override the configuration,
/// each `None` when unset: `TFTP_SERVER_PORT`, `TFTP_SERVER_BIND_ADDRESS`,
/// `TFTP_SERVER_ROOT`, `TFTP_SERVER_LOG_LEVEL`, `TFTP_SERVER_LOG_FILE`,
/// `TFTP_SERVER_ALLOW_WRITE`, `TFTP_SERVER_MAX_SESSIONS`, `TFTP_SERVER_IP_VERSION`.
pub struct EnvOverrides {
    pub port: Option<String>,
    pub bind_address: Option<String>,
    pub root: Option<String>,
    pub log_level: Option<String>,
    pub log_file: Option<String>,
    pub allow_write: Option<String>,
    pub max_sessions: Option<String>,
    pub ip_version: Option<String>,
}

/// A number from an override, or the setting as it was when the override is
/// unset or does not parse.
pub open spec fn parsed_or_keep(o: Option<String>, max: nat, keep: nat) -> nat {
    match o {
        Some(v) => match parse_unsigned(v@, max) {
            Some(n) => n,
            None => keep,
        },
        None => keep,
    }
}

impl Config {
    /// Apply environment overrides (priority: CLI > env > file > defaults):
    /// numbers that do not parse are ignored; writing is allowed exactly when
    /// the variable is `true` or `1`.
    pub fn apply_env_overrides(&mut self, env: EnvOverrides)
        ensures
            final(self).server == (ServerConfig {
                port: parsed_or_keep(env.port, u16::MAX as nat, old(self).server.port as nat) as u16,
                bind_address: or_keep(env.bind_address, old(self).server.bind_address),
                root: or_keep(env.root, old(self).server.root),
                log_level: or_keep(env.log_level, old(self).server.log_level),
                log_file: or_keep(env.log_file, old(self).server.log_file),
                ..old(self).server
            }),
            final(self).protocol == (ProtocolConfig {
                allow_write: match env.allow_write {
                    Some(v) => v@ == "true"@ || v@ == "1"@,
                    None => old(self).protocol.allow_write,
                },
                ..old(self).protocol
            }),
            final(self).session == (SessionConfig {
                max_sessions: parsed_or_keep(
                    env.max_sessions,
                    usize::MAX as nat,
                    old(self).session.max_sessions as nat,
                ) as usize,
                ..old(self).session
            }),
            final(self).network == (NetworkConfig {
                ip_version: or_keep(env.ip_version, old(self).network.ip_version),
                ..old(self).network
            }),
            final(self).security == old(self).security,
            final(self).filesystem == old(self).filesystem,
            final(self).acl == old(self).acl,
            final(self).gui == old(self).gui,
            final(self).tui == old(self).tui,
    {
        if let Some(v) = env.port {
            if let Some(p) = parse_uint(v.as_str(), 65535) {
                self.server.port = p as u16;
            }
        }
        if let Some(v) = env.bind_address {
            self.server.bind_address = v;
        }
        if let Some(v) = env.root {
            self.server.root = v;
        }
        if let Some(v) = env.log_level {
            self.server.log_level = v;
        }
        if let Some(v) = env.log_file {
            self.server.log_file = v;
        }
        if let Some(v) = env.allow_write {
            self.protocol.allow_write = str_eq(v.as_str(), "true") || str_eq(v.as_str(), "1");
        }
        if let Some(v) = env.max_sessions {
            if let Some(n) = parse_uint(v.as_str(), usize::MAX as u64) {
                self.session.max_sessions = n as usize;
            }
        }
        if let Some(v) = env.ip_version {
            self.network.ip_version = v;
        }
    }
}

/// `base` and a relative path joined with one `/` (none is added when `base`
/// is empty or already ends with `/`).
pub open spec fn join_path(base: Seq<char>, rel: Seq<char>) -> Seq<char> {
    if base.len() == 0 || base.last() == '/' {
        base + rel
    } else {
        base + "/"@ + rel
    }
}

/// `base` and a relative path joined with `/`; see [`join_path`].
pub fn join_path_str(base: &str, rel: &str) -> (r: String)
    ensures
        r@ == join_path(base@, rel@),
{
    let n = base.unicode_len();
    let mut out = base.to_string();
    if n > 0 && base.get_char(n - 1) != '/' {
        out.append("/");
    }
    out.append(rel);
    proof {
        reveal_strlit("/");
    }
    out
}

/// The places a configuration file is looked for, in order: under the
/// user's home directory (when it is known) first, then the system-wide
/// file, then `config.toml` in the working directory.
pub open spec fn spec_config_paths(home: Option<Seq<char>>) -> Seq<Seq<char>> {
    let tail = seq!["/etc/fry-tftp-server/config.toml"@, "config.toml"@];
    match home {
        Some(h) => seq![join_path(h, ".config/fry-tftp-server/config.toml"@)] + tail,
        None => tail,
    }
}

/// Calls `dirs::home_dir`, which reads the environment (and the password
/// database), so nothing is stated of its result; a home directory whose
/// name is not UTF-8 is kept, with its invalid bytes replaced by U+FFFD.
#[verifier::external_body]
fn home_dir() -> (r: Option<String>) {
    dirs::home_dir().map(|p| p.to_string_lossy().into_owned())
}

/// The config file locations for a known (or unknown) home directory.
pub fn config_paths_for_home(home: Option<String>) -> (r: Vec<String>)
    ensures
        crate::tftp::text::views(r@) == spec_config_paths(opt_view(home)),
{
    let mut paths: Vec<String> = Vec::new();
    if let Some(h) = home {
        paths.push(join_path_str(h.as_str(), ".config/fry-tftp-server/config.toml"));
    }
    paths.push("/etc/fry-tftp-server/config.toml".to_string());
    paths.push("config.toml".to_string());
    assert(crate::tftp::text::views(paths@) =~= spec_config_paths(opt_view(home)));
    paths
}

impl Config {
    /// The config file locations for the home directory of the process.
    pub fn default_config_paths() -> (r: Vec<String>)
        ensures
            exists|home: Option<Seq<char>>| crate::tftp::text::views(r@) == spec_config_paths(home),
    {
        let home = home_dir();
        let r = config_paths_for_home(home);
        assert(crate::tftp::text::views(r@) == spec_config_paths(opt_view(home)));
        r
    }
}

/// The log level the command line asks for: `error` when quiet, else by
/// the number of `-v`: none, `info`, `debug`, then `trace`.
pub fn log_level_for_cli(quiet: bool, verbose: u8) -> (r: Option<String>)
    ensures
        r matches Some(l) ==> l@ == if quiet {
            "error"@
        } else if verbose == 1 {
            "info"@
        } else if verbose == 2 {
            "debug"@
        } else {
            "trace"@
        },
        r is None <==> (!quiet && verbose == 0),
{
    if quiet {
        Some("error".to_string())
    } else if verbose == 0 {
        None
    } else if verbose == 1 {
        Some("info".to_string())
    } else if verbose == 2 {
        Some("debug".to_string())
    } else {
        Some("trace".to_string())
    }
}

} // verus!
