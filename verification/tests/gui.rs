use fry_tftp_server::gui::tabs::acl_tab::{is_valid_cidr_input, AclRuleEdit, AclState};
use fry_tftp_server::gui::tabs::config_tab::ConfigState;
use fry_tftp_server::gui::tabs::dashboard::format_duration;
use fry_tftp_server::gui::tabs::files::{sort_entries, DirEntry, FilesState};
use fry_tftp_server::gui::tabs::help_tab::HelpState;
use fry_tftp_server::gui::tabs::log_tab::{
    filtered_text, format_entry, format_timestamp, LogState, MAX_LOG_ENTRIES,
};
use fry_tftp_server::gui::tabs::transfers::{sort_header_text, SortColumn, TransfersState};
use fry_tftp_server::gui::theme::{Rgb, Theme};
use fry_tftp_server::gui::tray::{tray_tooltip, tray_visual, TrayVisualState};
use fry_tftp_server::tftp::config::{
    AclConfig, AclRuleConfig, Config, FilesystemConfig, GuiConfig, NetworkConfig, ProtocolConfig,
    SecurityConfig, ServerConfig, SessionConfig, TuiConfig,
};
use fry_tftp_server::tftp::log_buffer::{LogEntry, LogLevel};
use fry_tftp_server::tftp::server::ServerState;
use std::time::Duration;

fn sample_config() -> Config {
    Config {
        server: ServerConfig::default(),
        network: NetworkConfig::default(),
        protocol: ProtocolConfig::default(),
        session: SessionConfig::default(),
        security: SecurityConfig::default(),
        filesystem: FilesystemConfig::default(),
        acl: AclConfig::default(),
        gui: GuiConfig::default_for_language("en".to_string()),
        tui: TuiConfig::default(),
    }
}

fn entry(ms: u64, level: LogLevel, target: &str, message: &str) -> LogEntry {
    LogEntry { timestamp_ms: ms, level, target: target.to_string(), message: message.to_string() }
}

#[test]
fn config_form_shows_settings() {
    let c = sample_config();
    let form = ConfigState::from_config(&c);
    assert_eq!(form.port, "69");
    assert_eq!(form.bind_address, "::");
    assert_eq!(form.root, "/srv/tftp");
    assert_eq!(form.max_blksize, "65464");
    assert_eq!(form.default_timeout, "3");
    assert_eq!(form.max_file_size, "4GB");
    assert!(!form.dirty);
}

#[test]
fn config_form_unedited_keeps_config() {
    let c = sample_config();
    let form = ConfigState::from_config(&c);
    let mut d = c.clone();
    assert_eq!(form.apply_to_config(&mut d), Ok(()));
    assert_eq!(d.server.port, c.server.port);
    assert_eq!(d.protocol.max_blksize, c.protocol.max_blksize);
    assert_eq!(d.session.session_timeout, c.session.session_timeout);
    assert_eq!(d.security.rate_limit_window_seconds, c.security.rate_limit_window_seconds);
    assert_eq!(d.gui.language, c.gui.language);
}

#[test]
fn config_form_applies_edits() {
    let c = sample_config();
    let mut form = ConfigState::from_config(&c);
    form.port = "6969".to_string();
    form.max_windowsize = "+16".to_string();
    form.language = "de".to_string();
    form.allow_write = true;
    let mut d = c.clone();
    assert_eq!(form.apply_to_config(&mut d), Ok(()));
    assert_eq!(d.server.port, 6969);
    assert_eq!(d.protocol.max_windowsize, 16);
    assert_eq!(d.gui.language, "de");
    assert!(d.protocol.allow_write);
}

#[test]
fn config_form_stops_at_first_bad_number() {
    let c = sample_config();
    let mut form = ConfigState::from_config(&c);
    form.bind_address = "0.0.0.0".to_string();
    form.max_blksize = "70000".to_string();
    form.max_sessions = "7".to_string();
    let mut d = c.clone();
    assert_eq!(form.apply_to_config(&mut d), Err("Invalid max blksize".to_string()));
    // Fields before the bad one are written, those after are not.
    assert_eq!(d.server.bind_address, "0.0.0.0");
    assert_eq!(d.protocol.max_blksize, c.protocol.max_blksize);
    assert_eq!(d.session.max_sessions, c.session.max_sessions);
}

#[test]
fn config_form_error_messages() {
    let c = sample_config();
    let cases: Vec<(fn(&mut ConfigState), &str)> = vec![
        (|f| f.port = "x".to_string(), "Invalid port"),
        (|f| f.max_log_lines = "".to_string(), "Invalid max log lines"),
        (|f| f.default_blksize = "-1".to_string(), "Invalid blksize"),
        (|f| f.default_windowsize = "1.5".to_string(), "Invalid windowsize"),
        (|f| f.max_windowsize = "65536".to_string(), "Invalid max windowsize"),
        (|f| f.default_timeout = "256".to_string(), "Invalid timeout"),
        (|f| f.max_sessions = " 5".to_string(), "Invalid max sessions"),
        (|f| f.max_retries = "4294967296".to_string(), "Invalid max retries"),
        (|f| f.session_timeout = "abc".to_string(), "Invalid session timeout"),
        (|f| f.per_ip_max_sessions = "ten".to_string(), "Invalid per-IP max sessions"),
        (|f| f.per_ip_rate_limit = "1e3".to_string(), "Invalid rate limit"),
        (|f| f.rate_limit_window = "".to_string(), "Invalid rate limit window"),
    ];
    for (edit, msg) in cases {
        let mut form = ConfigState::from_config(&c);
        edit(&mut form);
        let mut d = c.clone();
        assert_eq!(form.apply_to_config(&mut d), Err(msg.to_string()));
    }
}

#[test]
fn acl_form_roundtrip() {
    let acl = AclConfig {
        mode: "whitelist".to_string(),
        rules: vec![
            AclRuleConfig {
                action: "allow".to_string(),
                source: "10.0.0.0/8".to_string(),
                operations: vec!["read".to_string(), "write".to_string()],
                comment: "lab".to_string(),
            },
            AclRuleConfig {
                action: "deny".to_string(),
                source: "0.0.0.0/0".to_string(),
                operations: vec![],
                comment: String::new(),
            },
        ],
    };
    let form = AclState::from_config(&acl);
    assert_eq!(form.rules.len(), 2);
    assert_eq!(form.rules[0].operations, "read, write");
    assert_eq!(form.rules[1].operations, "");
    assert!(form.rules.iter().all(|r| r.enabled));
    assert_eq!(form.new_action, "allow");
    assert_eq!(form.new_ops, "read");
    let back = form.to_config();
    assert_eq!(back.mode, "whitelist");
    assert_eq!(back.rules.len(), 2);
    assert_eq!(back.rules[0].operations, vec!["read".to_string(), "write".to_string()]);
    assert!(back.rules[1].operations.is_empty());
    assert_eq!(back.rules[0].source, "10.0.0.0/8");
}

#[test]
fn acl_form_drops_disabled_rules_and_empty_items() {
    let mut form = AclState::from_config(&AclConfig::default());
    form.rules.push(AclRuleEdit {
        action: "allow".to_string(),
        source: "192.168.1.0/24".to_string(),
        operations: " read ,, write , ".to_string(),
        comment: "c".to_string(),
        enabled: true,
    });
    form.rules.push(AclRuleEdit {
        action: "deny".to_string(),
        source: "10.1.1.1".to_string(),
        operations: "read".to_string(),
        comment: String::new(),
        enabled: false,
    });
    let back = form.to_config();
    assert_eq!(back.mode, "disabled");
    assert_eq!(back.rules.len(), 1);
    assert_eq!(back.rules[0].operations, vec!["read".to_string(), "write".to_string()]);
}

#[test]
fn acl_source_validation() {
    assert!(is_valid_cidr_input("10.0.0.0/8", false));
    assert!(is_valid_cidr_input("fe80::/10", false));
    assert!(!is_valid_cidr_input("10.0.0.0/33", false));
    assert!(!is_valid_cidr_input("10.0.0.1", false));
    assert!(is_valid_cidr_input("10.0.0.1", true));
    assert!(!is_valid_cidr_input("", true));
    let rule = AclRuleEdit {
        action: "allow".to_string(),
        source: "not an address".to_string(),
        operations: String::new(),
        comment: String::new(),
        enabled: true,
    };
    assert!(!rule.is_valid_cidr(false));
}

#[test]
fn log_state_keeps_newest() {
    let mut st = LogState::new();
    assert_eq!(st.filter_level, LogLevel::Trace);
    assert!(st.auto_scroll);
    st.update(vec![entry(1, LogLevel::Info, "a", "1"), entry(2, LogLevel::Info, "a", "2")]);
    assert_eq!(st.entries.len(), 2);
    let more: Vec<LogEntry> =
        (3..=(MAX_LOG_ENTRIES as u64 + 1)).map(|t| entry(t, LogLevel::Info, "a", "x")).collect();
    st.update(more);
    assert_eq!(st.entries.len(), MAX_LOG_ENTRIES);
    assert_eq!(st.entries[0].timestamp_ms, 2);
    assert_eq!(st.entries[MAX_LOG_ENTRIES - 1].timestamp_ms, MAX_LOG_ENTRIES as u64 + 1);
}

#[test]
fn log_timestamp_format() {
    assert_eq!(format_timestamp(0), "00:00:00.000");
    // 1 day + 1 h 2 min 3.045 s
    assert_eq!(format_timestamp(86_400_000 + 3_723_045), "01:02:03.045");
    assert_eq!(format_timestamp(86_399_999), "23:59:59.999");
}

#[test]
fn log_entry_format() {
    let e = entry(3_723_045, LogLevel::Warn, "tftp", "slow client");
    assert_eq!(format_entry(&e), "01:02:03.045 WARN  [tftp] slow client");
    let e = entry(0, LogLevel::Error, "x", "y");
    assert_eq!(format_entry(&e), "00:00:00.000 ERROR [x] y");
}

#[test]
fn log_filtered_text() {
    let entries = vec![
        entry(0, LogLevel::Error, "net", "bind failed"),
        entry(1000, LogLevel::Debug, "session", "ack 5"),
        entry(2000, LogLevel::Info, "session", "done"),
    ];
    assert_eq!(
        filtered_text(&entries, LogLevel::Info, ""),
        "00:00:00.000 ERROR [net] bind failed\n00:00:02.000 INFO  [session] done"
    );
    assert_eq!(
        filtered_text(&entries, LogLevel::Trace, "session"),
        "00:00:01.000 DEBUG [session] ack 5\n00:00:02.000 INFO  [session] done"
    );
    assert_eq!(filtered_text(&entries, LogLevel::Error, "session"), "");
}

#[test]
fn files_sorted_dirs_first() {
    let mk = |n: &str, d: bool| DirEntry {
        name: n.to_string(),
        path: format!("/srv/{}", n),
        is_dir: d,
        size: 1,
    };
    let sorted = sort_entries(vec![mk("b.bin", false), mk("zeta", true), mk("a.bin", false), mk("alpha", true), mk("B.bin", false)]);
    let names: Vec<&str> = sorted.iter().map(|e| e.name.as_str()).collect();
    assert_eq!(names, vec!["alpha", "zeta", "B.bin", "a.bin", "b.bin"]);
    let mut fs = FilesState::new("/srv".to_string());
    assert!(fs.needs_refresh);
    fs.set_entries(vec![mk("x", false), mk("d", true)]);
    assert!(!fs.needs_refresh);
    assert_eq!(fs.entries[0].name, "d");
}

#[test]
fn small_states() {
    assert!(!HelpState::new().show_about);
    let t = TransfersState::new();
    assert_eq!(t.filter_status, "all");
    assert!(t.sort_column == SortColumn::Duration);
    assert!(!t.sort_ascending);
    assert_eq!(sort_header_text("Size", SortColumn::Size, SortColumn::Size, true), "Size [A]");
    assert_eq!(sort_header_text("Size", SortColumn::Size, SortColumn::Size, false), "Size [D]");
    assert_eq!(sort_header_text("Size", SortColumn::Size, SortColumn::File, false), "Size");
}

#[test]
fn dashboard_duration() {
    assert_eq!(format_duration(Duration::from_secs(5)), "5s");
    assert_eq!(format_duration(Duration::from_millis(61_900)), "1m 1s");
    assert_eq!(format_duration(Duration::from_secs(3600 + 120 + 7)), "1h 2m 7s");
}

#[test]
fn theme_and_tray() {
    assert!(Theme::Dark.accent() == Rgb { r: 0x6e, g: 0xa8, b: 0xfe });
    assert!(Theme::Light.sidebar_bg() == Rgb { r: 0xf0, g: 0xf0, b: 0xf5 });
    assert!(Theme::Light.log_color(LogLevel::Warn) == Rgb { r: 0xff, g: 0xc1, b: 0x07 });
    assert!(tray_visual(ServerState::Running, 0) == TrayVisualState::Running);
    assert!(tray_visual(ServerState::Running, 2) == TrayVisualState::Error);
    assert!(tray_visual(ServerState::Stopping, 0) == TrayVisualState::Stopped);
    assert!(tray_visual(ServerState::Error, 0) == TrayVisualState::Error);
    assert_eq!(tray_tooltip(TrayVisualState::Stopped), "Fry TFTP Server - Stopped");
}

#[test]
fn acl_form_row_operations() {
    let mut form = AclState::from_config(&AclConfig::default());
    form.new_source = "bad".to_string();
    assert!(!form.add_new_rule(false));
    assert!(form.rules.is_empty());
    form.new_source = "10.0.0.0/8".to_string();
    form.new_comment = "lab".to_string();
    assert!(form.add_new_rule(false));
    assert_eq!(form.rules.len(), 1);
    assert_eq!(form.rules[0].action, "allow");
    assert_eq!(form.rules[0].operations, "read");
    assert_eq!(form.rules[0].comment, "lab");
    assert!(form.rules[0].enabled);
    assert_eq!(form.new_source, "");
    assert_eq!(form.new_comment, "");
    assert!(form.dirty);
    form.new_source = "192.168.0.7".to_string();
    assert!(form.add_new_rule(true));
    form.swap_rules(0, 1);
    assert_eq!(form.rules[0].source, "192.168.0.7");
    assert_eq!(form.rules[1].source, "10.0.0.0/8");
    form.remove_rule(0);
    assert_eq!(form.rules.len(), 1);
    form.mark_applied(Ok("/etc/x.toml".to_string()));
    assert!(!form.dirty);
    assert_eq!(form.status_message, "ACL applied & saved to /etc/x.toml");
    form.mark_applied(Err("read-only".to_string()));
    assert_eq!(form.status_message, "ACL applied (save failed: read-only)");
}
