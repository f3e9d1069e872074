use fry_tftp_server::tftp::config::{
    config_paths_for_home, detect_system_language, join_path_str, AclConfig, Config,
    EnvOverrides, FilesystemConfig, GuiConfig, NetworkConfig, ProtocolConfig, SecurityConfig,
    ServerConfig, SessionConfig, TuiConfig,
};
use fry_tftp_server::tftp::ipc::{reload_reply, socket_path, stop_reply, unknown_reply};
use fry_tftp_server::tftp::log_buffer::{
    append_bounded, dated_log_names, lines_of_str, parse_log_line, truncate_log_content,
    LogEntry, LogLevel,
};
use fry_tftp_server::tftp::server::ServerState;
use fry_tftp_server::tftp::config::log_level_for_cli;
use fry_tftp_server::tftp::protocol::packet::ErrorCode;
use fry_tftp_server::tftp::session::write::{declared_size_error, write_precheck, WritePrecheck};

fn sample_config() -> Config {
    Config {
        server: ServerConfig::default(),
        network: NetworkConfig::default(),
        protocol: ProtocolConfig::default(),
        session: SessionConfig::default(),
        security: SecurityConfig::default(),
        filesystem: FilesystemConfig::default(),
        acl: AclConfig::default(),
        gui: GuiConfig::default_for_language("en".to_string()),
        tui: TuiConfig::default(),
    }
}

fn no_env() -> EnvOverrides {
    EnvOverrides {
        port: None,
        bind_address: None,
        root: None,
        log_level: None,
        log_file: None,
        allow_write: None,
        max_sessions: None,
        ip_version: None,
    }
}

#[test]
fn server_defaults() {
    let s = ServerConfig::default();
    assert_eq!(s.port, 69);
    assert_eq!(s.bind_address, "::");
    assert_eq!(s.root, "/srv/tftp");
    assert_eq!(s.log_file, "/var/log/fry-tftp-server.log");
    assert_eq!(s.max_log_lines, 5000);
    let g = GuiConfig::default_for_language("fr".to_string());
    assert_eq!(g.theme, "dark");
    assert_eq!(g.language, "fr");
}

#[test]
fn env_overrides_apply() {
    let mut c = sample_config();
    let mut env = no_env();
    env.port = Some("1069".to_string());
    env.root = Some("/data".to_string());
    env.allow_write = Some("1".to_string());
    env.max_sessions = Some("lots".to_string());
    env.ip_version = Some("v4".to_string());
    c.apply_env_overrides(env);
    assert_eq!(c.server.port, 1069);
    assert_eq!(c.server.root, "/data");
    assert!(c.protocol.allow_write);
    assert_eq!(c.session.max_sessions, 100);
    assert_eq!(c.network.ip_version, "v4");
    let mut env = no_env();
    env.allow_write = Some("yes".to_string());
    env.port = Some("70000".to_string());
    c.apply_env_overrides(env);
    assert!(!c.protocol.allow_write);
    assert_eq!(c.server.port, 1069);
}

#[test]
fn cli_overrides_env() {
    let mut c = sample_config();
    let mut env = no_env();
    env.port = Some("1069".to_string());
    env.log_level = Some("debug".to_string());
    c.apply_env_overrides(env);
    c.apply_overrides(Some(2069), None, None, false, None, None, None, None, None);
    assert_eq!(c.server.port, 2069);
    assert_eq!(c.server.log_level, "debug");
}

#[test]
fn language_detection() {
    assert_eq!(detect_system_language(Some("de_DE.UTF-8".to_string()), None, None), "de");
    assert_eq!(detect_system_language(None, Some("RU_ru".to_string()), None), "ru");
    assert_eq!(detect_system_language(None, None, Some("es_ES".to_string())), "es");
    assert_eq!(detect_system_language(Some("C".to_string()), Some("fr_FR".to_string()), None), "en");
    assert_eq!(detect_system_language(None, None, None), "en");
    assert_eq!(detect_system_language(Some("FR".to_string()), None, None), "fr");
}

#[test]
fn config_paths() {
    let p = config_paths_for_home(Some("/home/ann".to_string()));
    assert_eq!(
        p,
        vec![
            "/home/ann/.config/fry-tftp-server/config.toml".to_string(),
            "/etc/fry-tftp-server/config.toml".to_string(),
            "config.toml".to_string(),
        ]
    );
    let p = config_paths_for_home(None);
    assert_eq!(p.len(), 2);
    assert_eq!(join_path_str("/root/", "x"), "/root/x");
    assert_eq!(join_path_str("", "x"), "x");
}

#[test]
fn ipc_replies() {
    assert_eq!(reload_reply(&Ok(())), r#"{"ok":true,"message":"config reloaded"}"#);
    assert_eq!(
        reload_reply(&Err("bad \"toml\"\n".to_string())),
        r#"{"error":"config reload failed: bad \"toml\"\n","ok":false}"#
    );
    assert_eq!(stop_reply(), r#"{"ok":true,"message":"shutdown initiated"}"#);
    assert_eq!(unknown_reply("halt\u{1}"), r#"{"error":"unknown command: halt\u0001","ok":false}"#);
    assert_eq!(socket_path(Some("/run/user/1000".to_string())), "/run/user/1000/fry-tftp-server.sock");
    assert_eq!(socket_path(None), "/run/fry-tftp-server.sock");
}

#[test]
fn log_line_parsing() {
    let e = parse_log_line("2026-03-13T10:00:00Z  WARN fry::session: retry 3", 42);
    assert_eq!(e.timestamp_ms, 42);
    assert!(e.level == LogLevel::Warn);
    assert_eq!(e.target, "fry::session");
    assert_eq!(e.message, "retry 3");
    let e = parse_log_line("  plain text  ", 0);
    assert!(e.level == LogLevel::Info);
    assert_eq!(e.target, "app");
    assert_eq!(e.message, "plain text");
}

#[test]
fn bounded_append() {
    let mk = |i: u64| LogEntry { timestamp_ms: i, level: LogLevel::Info, target: String::new(), message: String::new() };
    let mut v = vec![mk(1), mk(2)];
    append_bounded(&mut v, vec![mk(3)], 5);
    assert_eq!(v.len(), 3);
    append_bounded(&mut v, vec![mk(4), mk(5), mk(6)], 4);
    let stamps: Vec<u64> = v.iter().map(|e| e.timestamp_ms).collect();
    assert_eq!(stamps, vec![3, 4, 5, 6]);
}

#[test]
fn log_lines_and_truncation() {
    let lines = lines_of_str("a\r\nb\n\nc");
    let texts: Vec<String> = lines.iter().map(|l| l.iter().collect()).collect();
    assert_eq!(texts, vec!["a", "b", "", "c"]);
    assert_eq!(lines_of_str("x\n").len(), 1);
    assert_eq!(lines_of_str("").len(), 0);
    assert_eq!(truncate_log_content("1\n2\n3\n", 3), None);
    assert_eq!(truncate_log_content("1\n2\r\n3\n4", 2), Some("3\n4\n".to_string()));
    assert_eq!(truncate_log_content("1\n2\n", 0), Some(String::new()));
}

#[test]
fn dated_logs_newest_first() {
    let names = vec![
        "tftp.log.2026-03-12".to_string(),
        "tftp.log".to_string(),
        "other.log.2026-03-14".to_string(),
        "tftp.log.2026-03-13".to_string(),
    ];
    assert_eq!(
        dated_log_names("tftp.log", names),
        vec!["tftp.log.2026-03-13".to_string(), "tftp.log.2026-03-12".to_string()]
    );
}

#[test]
fn server_state_names() {
    assert_eq!(ServerState::Stopping.name(), "Stopping");
    assert_eq!(ServerState::Running.name(), "Running");
}

#[test]
fn cli_log_levels() {
    assert_eq!(log_level_for_cli(false, 0), None);
    assert_eq!(log_level_for_cli(false, 1), Some("info".to_string()));
    assert_eq!(log_level_for_cli(false, 2), Some("debug".to_string()));
    assert_eq!(log_level_for_cli(false, 9), Some("trace".to_string()));
    assert_eq!(log_level_for_cli(true, 3), Some("error".to_string()));
}

#[test]
fn write_prechecks() {
    assert_eq!(
        write_precheck(true, false, true, false),
        WritePrecheck::Reject { code: ErrorCode::FileAlreadyExists, message: "File already exists".to_string() }
    );
    assert_eq!(write_precheck(true, true, true, false), WritePrecheck::Proceed);
    assert_eq!(write_precheck(false, false, false, true), WritePrecheck::CreateParent);
    assert_eq!(
        write_precheck(false, false, false, false),
        WritePrecheck::Reject { code: ErrorCode::FileNotFound, message: "Parent directory does not exist".to_string() }
    );
    assert_eq!(declared_size_error(Some(5000), 4096, "4KB"), Some("File too large: 5000 > 4KB".to_string()));
    assert_eq!(declared_size_error(Some(4096), 4096, "4KB"), None);
    assert_eq!(declared_size_error(None, 0, "0"), None);
}

#[test]
fn truncating_twice_changes_nothing() {
    // the kept line "a\r" (from "a\r\r\n") loses its CR when read again, and
    // the line count stays, so a second truncation leaves the file alone
    let once = truncate_log_content("x\na\r\r\nb\n", 2).expect("over the limit");
    assert_eq!(once, "a\r\nb\n");
    assert_eq!(truncate_log_content(&once, 2), None);
    let once = truncate_log_content("1\n2\n3\n4\n5", 0).expect("over the limit");
    assert_eq!(once, "");
    assert_eq!(truncate_log_content(&once, 0), None);
}
