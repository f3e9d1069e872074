//! The configuration form: every setting as the text the user edits, and the
//! way an edited form is written back into a configuration.

use vstd::prelude::*;

use crate::tftp::config::{
    Config, FilesystemConfig, GuiConfig, NetworkConfig, ProtocolConfig, SecurityConfig,
    ServerConfig, SessionConfig,
};
use crate::tftp::text::{decimal, lemma_parse_decimal, parse_uint, parse_unsigned, u64_to_string};

verus! {

broadcast use vstd::string::group_string_axioms;

/// The configuration form as the user edits it.
pub struct ConfigState {
    pub port: String,
    pub bind_address: String,
    pub root: String,
    pub ip_version: String,
    pub log_level: String,
    pub max_log_lines: String,
    pub allow_write: bool,
    pub default_blksize: String,
    pub max_blksize: String,
    pub default_windowsize: String,
    pub max_windowsize: String,
    pub default_timeout: String,
    pub max_sessions: String,
    pub max_retries: String,
    pub exponential_backoff: bool,
    pub session_timeout: String,
    pub per_ip_max_sessions: String,
    pub per_ip_rate_limit: String,
    pub rate_limit_window: String,
    pub max_file_size: String,
    pub allow_overwrite: bool,
    pub create_dirs: bool,
    pub follow_symlinks: bool,
    pub show_bandwidth_chart: bool,
    pub language: String,
    pub dirty: bool,
    pub status_message: String,
}

/// The result of writing a form back: the configuration as it stands when the
/// writing stops, and the message of the field that stopped it, if one did.
/// Fields are written in order; a number that does not parse stops the
/// writing there, and the fields written before it keep their new values.
pub open spec fn spec_apply_config(cs: ConfigState, c: Config) -> (Config, Option<Seq<char>>) {
    match parse_unsigned(cs.port@, u16::MAX as nat) {
        None => (c, Some("Invalid port"@)),
        Some(port) => {
            let c1 = Config {
                server: ServerConfig {
                    port: port as u16,
                    bind_address: cs.bind_address,
                    root: cs.root,
                    log_level: cs.log_level,
                    ..c.server
                },
                network: NetworkConfig { ip_version: cs.ip_version, ..c.network },
                ..c
            };
            match parse_unsigned(cs.max_log_lines@, usize::MAX as nat) {
                None => (c1, Some("Invalid max log lines"@)),
                Some(lines) => {
                    let c2 = Config {
                        server: ServerConfig { max_log_lines: lines as usize, ..c1.server },
                        protocol: ProtocolConfig { allow_write: cs.allow_write, ..c1.protocol },
                        ..c1
                    };
                    spec_apply_protocol(cs, c2)
                },
            }
        },
    }
}

/// The protocol fields of a form, written in order.
pub open spec fn spec_apply_protocol(cs: ConfigState, c: Config) -> (Config, Option<Seq<char>>) {
    match parse_unsigned(cs.default_blksize@, u16::MAX as nat) {
        None => (c, Some("Invalid blksize"@)),
        Some(a) => {
            let c1 = Config {
                protocol: ProtocolConfig { default_blksize: a as u16, ..c.protocol },
                ..c
            };
            match parse_unsigned(cs.max_blksize@, u16::MAX as nat) {
                None => (c1, Some("Invalid max blksize"@)),
                Some(b) => {
                    let c2 = Config {
                        protocol: ProtocolConfig { max_blksize: b as u16, ..c1.protocol },
                        ..c1
                    };
                    match parse_unsigned(cs.default_windowsize@, u16::MAX as nat) {
                        None => (c2, Some("Invalid windowsize"@)),
                        Some(w) => {
                            let c3 = Config {
                                protocol: ProtocolConfig {
                                    default_windowsize: w as u16,
                                    ..c2.protocol
                                },
                                ..c2
                            };
                            match parse_unsigned(cs.max_windowsize@, u16::MAX as nat) {
                                None => (c3, Some("Invalid max windowsize"@)),
                                Some(mw) => {
                                    let c4 = Config {
                                        protocol: ProtocolConfig {
                                            max_windowsize: mw as u16,
                                            ..c3.protocol
                                        },
                                        ..c3
                                    };
                                    match parse_unsigned(cs.default_timeout@, u8::MAX as nat) {
                                        None => (c4, Some("Invalid timeout"@)),
                                        Some(t) => spec_apply_session(
                                            cs,
                                            Config {
                                                protocol: ProtocolConfig {
                                                    default_timeout: t as u8,
                                                    ..c4.protocol
                                                },
                                                ..c4
                                            },
                                        ),
                                    }
                                },
                            }
                        },
                    }
                },
            }
        },
    }
}

/// The session and security fields of a form, written in order, then the rest.
pub open spec fn spec_apply_session(cs: ConfigState, c: Config) -> (Config, Option<Seq<char>>) {
    match parse_unsigned(cs.max_sessions@, usize::MAX as nat) {
        None => (c, Some("Invalid max sessions"@)),
        Some(m) => {
            let c1 = Config {
                session: SessionConfig { max_sessions: m as usize, ..c.session },
                ..c
            };
            match parse_unsigned(cs.max_retries@, u32::MAX as nat) {
                None => (c1, Some("Invalid max retries"@)),
                Some(r) => {
                    let c2 = Config {
                        session: SessionConfig {
                            max_retries: r as u32,
                            exponential_backoff: cs.exponential_backoff,
                            ..c1.session
                        },
                        ..c1
                    };
                    match parse_unsigned(cs.session_timeout@, u64::MAX as nat) {
                        None => (c2, Some("Invalid session timeout"@)),
                        Some(st) => {
                            let c3 = Config {
                                session: SessionConfig { session_timeout: st as u64, ..c2.session },
                                ..c2
                            };
                            spec_apply_security(cs, c3)
                        },
                    }
                },
            }
        },
    }
}

/// The security fields of a form, written in order, then the rest.
pub open spec fn spec_apply_security(cs: ConfigState, c: Config) -> (Config, Option<Seq<char>>) {
    match parse_unsigned(cs.per_ip_max_sessions@, usize::MAX as nat) {
        None => (c, Some("Invalid per-IP max sessions"@)),
        Some(p) => {
            let c1 = Config {
                security: SecurityConfig { per_ip_max_sessions: p as usize, ..c.security },
                ..c
            };
            match parse_unsigned(cs.per_ip_rate_limit@, u32::MAX as nat) {
                None => (c1, Some("Invalid rate limit"@)),
                Some(l) => {
                    let c2 = Config {
                        security: SecurityConfig { per_ip_rate_limit: l as u32, ..c1.security },
                        ..c1
                    };
                    match parse_unsigned(cs.rate_limit_window@, u64::MAX as nat) {
                        None => (c2, Some("Invalid rate limit window"@)),
                        Some(w) => (
                            Config {
                                security: SecurityConfig {
                                    rate_limit_window_seconds: w as u64,
                                    ..c2.security
                                },
                                filesystem: FilesystemConfig {
                                    max_file_size: cs.max_file_size,
                                    allow_overwrite: cs.allow_overwrite,
                                    create_dirs: cs.create_dirs,
                                    follow_symlinks: cs.follow_symlinks,
                                    ..c2.filesystem
                                },
                                gui: GuiConfig {
                                    show_bandwidth_chart: cs.show_bandwidth_chart,
                                    language: cs.language,
                                    ..c2.gui
                                },
                                ..c2
                            },
                            None,
                        ),
                    }
                },
            }
        },
    }
}

/// `cs` shows `c`: numbers in decimal, texts and switches as they are.
pub open spec fn form_of(cs: ConfigState, c: Config) -> bool {
    &&& cs.port@ == decimal(c.server.port as nat)
    &&& cs.bind_address == c.server.bind_address
    &&& cs.root == c.server.root
    &&& cs.ip_version == c.network.ip_version
    &&& cs.log_level == c.server.log_level
    &&& cs.max_log_lines@ == decimal(c.server.max_log_lines as nat)
    &&& cs.allow_write == c.protocol.allow_write
    &&& cs.default_blksize@ == decimal(c.protocol.default_blksize as nat)
    &&& cs.max_blksize@ == decimal(c.protocol.max_blksize as nat)
    &&& cs.default_windowsize@ == decimal(c.protocol.default_windowsize as nat)
    &&& cs.max_windowsize@ == decimal(c.protocol.max_windowsize as nat)
    &&& cs.default_timeout@ == decimal(c.protocol.default_timeout as nat)
    &&& cs.max_sessions@ == decimal(c.session.max_sessions as nat)
    &&& cs.max_retries@ == decimal(c.session.max_retries as nat)
    &&& cs.exponential_backoff == c.session.exponential_backoff
    &&& cs.session_timeout@ == decimal(c.session.session_timeout as nat)
    &&& cs.per_ip_max_sessions@ == decimal(c.security.per_ip_max_sessions as nat)
    &&& cs.per_ip_rate_limit@ == decimal(c.security.per_ip_rate_limit as nat)
    &&& cs.rate_limit_window@ == decimal(c.security.rate_limit_window_seconds as nat)
    &&& cs.max_file_size == c.filesystem.max_file_size
    &&& cs.allow_overwrite == c.filesystem.allow_overwrite
    &&& cs.create_dirs == c.filesystem.create_dirs
    &&& cs.follow_symlinks == c.filesystem.follow_symlinks
    &&& cs.show_bandwidth_chart == c.gui.show_bandwidth_chart
    &&& cs.language == c.gui.language
}

/// Writing back a form that shows a configuration, unedited, succeeds and
/// leaves the configuration as it was.
pub proof fn lemma_unedited_form_keeps_config(cs: ConfigState, c: Config)
    requires
        form_of(cs, c),
    ensures
        spec_apply_config(cs, c) == (c, Option::<Seq<char>>::None),
{
    lemma_parse_decimal(c.server.port as nat, u16::MAX as nat);
    lemma_parse_decimal(c.server.max_log_lines as nat, usize::MAX as nat);
    lemma_parse_decimal(c.protocol.default_blksize as nat, u16::MAX as nat);
    lemma_parse_decimal(c.protocol.max_blksize as nat, u16::MAX as nat);
    lemma_parse_decimal(c.protocol.default_windowsize as nat, u16::MAX as nat);
    lemma_parse_decimal(c.protocol.max_windowsize as nat, u16::MAX as nat);
    lemma_parse_decimal(c.protocol.default_timeout as nat, u8::MAX as nat);
    lemma_parse_decimal(c.session.max_sessions as nat, usize::MAX as nat);
    lemma_parse_decimal(c.session.max_retries as nat, u32::MAX as nat);
    lemma_parse_decimal(c.session.session_timeout as nat, u64::MAX as nat);
    lemma_parse_decimal(c.security.per_ip_max_sessions as nat, usize::MAX as nat);
    lemma_parse_decimal(c.security.per_ip_rate_limit as nat, u32::MAX as nat);
    lemma_parse_decimal(c.security.rate_limit_window_seconds as nat, u64::MAX as nat);
}

fn err_text(s: &str) -> (r: String)
    ensures
        r@ == s@,
{
    s.to_string()
}

impl ConfigState {
    /// The form for `config`: numbers in decimal, nothing edited yet.
    pub fn from_config(config: &Config) -> (r: Self)
        ensures
            form_of(r, *config),
            !r.dirty,
            r.status_message@.len() == 0,
    {
        ConfigState {
            port: u64_to_string(config.server.port as u64),
            bind_address: config.server.bind_address.clone(),
            root: config.server.root.clone(),
            ip_version: config.network.ip_version.clone(),
            log_level: config.server.log_level.clone(),
            max_log_lines: u64_to_string(config.server.max_log_lines as u64),
            allow_write: config.protocol.allow_write,
            default_blksize: u64_to_string(config.protocol.default_blksize as u64),
            max_blksize: u64_to_string(config.protocol.max_blksize as u64),
            default_windowsize: u64_to_string(config.protocol.default_windowsize as u64),
            max_windowsize: u64_to_string(config.protocol.max_windowsize as u64),
            default_timeout: u64_to_string(config.protocol.default_timeout as u64),
            max_sessions: u64_to_string(config.session.max_sessions as u64),
            max_retries: u64_to_string(config.session.max_retries as u64),
            exponential_backoff: config.session.exponential_backoff,
            session_timeout: u64_to_string(config.session.session_timeout),
            per_ip_max_sessions: u64_to_string(config.security.per_ip_max_sessions as u64),
            per_ip_rate_limit: u64_to_string(config.security.per_ip_rate_limit as u64),
            rate_limit_window: u64_to_string(config.security.rate_limit_window_seconds),
            max_file_size: config.filesystem.max_file_size.clone(),
            allow_overwrite: config.filesystem.allow_overwrite,
            create_dirs: config.filesystem.create_dirs,
            follow_symlinks: config.filesystem.follow_symlinks,
            show_bandwidth_chart: config.gui.show_bandwidth_chart,
            language: config.gui.language.clone(),
            dirty: false,
            status_message: String::new(),
        }
    }

    /// Write the form into `config`, field by field in the order of the form.
    /// A number that does not parse stops the writing with that field's
    /// message; the fields before it stay written.
    pub fn apply_to_config(&self, config: &mut Config) -> (r: Result<(), String>)
        ensures
            *final(config) == spec_apply_config(*self, *old(config)).0,
            match r {
                Ok(()) => spec_apply_config(*self, *old(config)).1 is None,
                Err(e) => spec_apply_config(*self, *old(config)).1 == Some(e@),
            },
    {
        match parse_uint(self.port.as_str(), 65535) {
            None => return Err(err_text("Invalid port")),
            Some(v) => config.server.port = v as u16,
        }
        config.server.bind_address = self.bind_address.clone();
        config.server.root = self.root.clone();
        config.network.ip_version = self.ip_version.clone();
        config.server.log_level = self.log_level.clone();
        match parse_uint(self.max_log_lines.as_str(), usize::MAX as u64) {
            None => return Err(err_text("Invalid max log lines")),
            Some(v) => config.server.max_log_lines = v as usize,
        }
        config.protocol.allow_write = self.allow_write;
        self.apply_protocol(config)
    }

    fn apply_protocol(&self, config: &mut Config) -> (r: Result<(), String>)
        ensures
            *final(config) == spec_apply_protocol(*self, *old(config)).0,
            match r {
                Ok(()) => spec_apply_protocol(*self, *old(config)).1 is None,
                Err(e) => spec_apply_protocol(*self, *old(config)).1 == Some(e@),
            },
    {
        match parse_uint(self.default_blksize.as_str(), 65535) {
            None => return Err(err_text("Invalid blksize")),
            Some(v) => config.protocol.default_blksize = v as u16,
        }
        match parse_uint(self.max_blksize.as_str(), 65535) {
            None => return Err(err_text("Invalid max blksize")),
            Some(v) => config.protocol.max_blksize = v as u16,
        }
        match parse_uint(self.default_windowsize.as_str(), 65535) {
            None => return Err(err_text("Invalid windowsize")),
            Some(v) => config.protocol.default_windowsize = v as u16,
        }
        match parse_uint(self.max_windowsize.as_str(), 65535) {
            None => return Err(err_text("Invalid max windowsize")),
            Some(v) => config.protocol.max_windowsize = v as u16,
        }
        match parse_uint(self.default_timeout.as_str(), 255) {
            None => return Err(err_text("Invalid timeout")),
            Some(v) => config.protocol.default_timeout = v as u8,
        }
        self.apply_session(config)
    }

    fn apply_session(&self, config: &mut Config) -> (r: Result<(), String>)
        ensures
            *final(config) == spec_apply_session(*self, *old(config)).0,
            match r {
                Ok(()) => spec_apply_session(*self, *old(config)).1 is None,
                Err(e) => spec_apply_session(*self, *old(config)).1 == Some(e@),
            },
    {
        match parse_uint(self.max_sessions.as_str(), usize::MAX as u64) {
            None => return Err(err_text("Invalid max sessions")),
            Some(v) => config.session.max_sessions = v as usize,
        }
        match parse_uint(self.max_retries.as_str(), u32::MAX as u64) {
            None => return Err(err_text("Invalid max retries")),
            Some(v) => config.session.max_retries = v as u32,
        }
        config.session.exponential_backoff = self.exponential_backoff;
        match parse_uint(self.session_timeout.as_str(), u64::MAX) {
            None => return Err(err_text("Invalid session timeout")),
            Some(v) => config.session.session_timeout = v,
        }
        self.apply_security(config)
    }

    fn apply_security(&self, config: &mut Config) -> (r: Result<(), String>)
        ensures
            *final(config) == spec_apply_security(*self, *old(config)).0,
            match r {
                Ok(()) => spec_apply_security(*self, *old(config)).1 is None,
                Err(e) => spec_apply_security(*self, *old(config)).1 == Some(e@),
            },
    {
        match parse_uint(self.per_ip_max_sessions.as_str(), usize::MAX as u64) {
            None => return Err(err_text("Invalid per-IP max sessions")),
            Some(v) => config.security.per_ip_max_sessions = v as usize,
        }
        match parse_uint(self.per_ip_rate_limit.as_str(), u32::MAX as u64) {
            None => return Err(err_text("Invalid rate limit")),
            Some(v) => config.security.per_ip_rate_limit = v as u32,
        }
        match parse_uint(self.rate_limit_window.as_str(), u64::MAX) {
            None => return Err(err_text("Invalid rate limit window")),
            Some(v) => config.security.rate_limit_window_seconds = v,
        }
        config.filesystem.max_file_size = self.max_file_size.clone();
        config.filesystem.allow_overwrite = self.allow_overwrite;
        config.filesystem.create_dirs = self.create_dirs;
        config.filesystem.follow_symlinks = self.follow_symlinks;
        config.gui.show_bandwidth_chart = self.show_bandwidth_chart;
        config.gui.language = self.language.clone();
        Ok(())
    }
}

} // verus!
