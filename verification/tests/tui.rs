use fry_tftp_server::tftp::config::{
    AclConfig, AclRuleConfig, Config, FilesystemConfig, GuiConfig, NetworkConfig, ProtocolConfig,
    SecurityConfig, ServerConfig, SessionConfig, TuiConfig,
};
use fry_tftp_server::tftp::log_buffer::{LogEntry, LogLevel};
use fry_tftp_server::tui::app::{
    apply_config_edit, config_items, delete_acl_rule, format_duration_short, format_log_time,
    log_level_color, save_acl_rule, sort_file_rows, AclEditMode, AclRuleEdit, Key, MouseKind, Tab,
    TermColor, TuiAction, TuiState, TAB_COUNT, TUI_MAX_LOG_ENTRIES,
};
use std::time::Duration;

fn sample_config() -> Config {
    Config {
        server: ServerConfig::default(),
        network: NetworkConfig::default(),
        protocol: ProtocolConfig::default(),
        session: SessionConfig::default(),
        security: SecurityConfig::default(),
        filesystem: FilesystemConfig::default(),
        acl: AclConfig {
            mode: "whitelist".to_string(),
            rules: vec![AclRuleConfig {
                action: "allow".to_string(),
                source: "10.0.0.0/8".to_string(),
                operations: vec!["read".to_string(), "write".to_string()],
                comment: "lab".to_string(),
            }],
        },
        gui: GuiConfig::default_for_language("en".to_string()),
        tui: TuiConfig::default(),
    }
}

fn type_text(st: &mut TuiState, c: &Config, text: &str) {
    for ch in text.chars() {
        let _ = st.handle_key(Key::Char(ch), c);
    }
}

#[test]
fn tabs_titles_and_cycle() {
    assert_eq!(Tab::Acl.title(), " 6:ACL ");
    assert_eq!(Tab::Help.index(), 6);
    let mut t = Tab::Help;
    for _ in 0..TAB_COUNT {
        t = Tab::at((t.index() + 1) % TAB_COUNT);
    }
    assert!(t == Tab::Help);
    let c = sample_config();
    let mut st = TuiState::new(&c);
    let _ = st.handle_key(Key::Tab, &c);
    assert!(st.current_tab == Tab::Files);
    let _ = st.handle_key(Key::BackTab, &c);
    let _ = st.handle_key(Key::BackTab, &c);
    assert!(st.current_tab == Tab::Help);
}

#[test]
fn short_formats() {
    assert_eq!(format_duration_short(Duration::from_secs(59)), "59s");
    assert_eq!(format_duration_short(Duration::from_millis(61_500)), "1m1s");
    assert_eq!(format_duration_short(Duration::from_secs(7322)), "2h2m");
    assert_eq!(format_log_time(0), "00:00:00");
    assert_eq!(format_log_time(86_400 + 3_661), "01:01:01");
    assert!(log_level_color(LogLevel::Trace) == TermColor::DarkGray);
}

#[test]
fn settings_list() {
    let c = sample_config();
    let items = config_items(&c);
    assert_eq!(items.len(), 16);
    assert_eq!(items[0], ("Server".to_string(), "port".to_string(), "69".to_string()));
    assert_eq!(items[4].2, "false");
    assert_eq!(items[15], ("Filesystem".to_string(), "overwrite".to_string(), "false".to_string()));
}

#[test]
fn config_edits() {
    let mut c = sample_config();
    apply_config_edit(&mut c, "port", "1069");
    assert_eq!(c.server.port, 1069);
    apply_config_edit(&mut c, "port", "99999");
    assert_eq!(c.server.port, 1069);
    apply_config_edit(&mut c, "allow_write", "true");
    assert!(c.protocol.allow_write);
    apply_config_edit(&mut c, "allow_write", "yes");
    assert!(c.protocol.allow_write);
    apply_config_edit(&mut c, "timeout", "9");
    assert_eq!(c.protocol.default_timeout, 9);
    apply_config_edit(&mut c, "root", "/tmp");
    assert_eq!(c.server.root, "/srv/tftp");
    apply_config_edit(&mut c, "max_file_size", "1MB");
    assert_eq!(c.filesystem.max_file_size, "1MB");
}

#[test]
fn acl_rule_store_and_delete() {
    let mut c = sample_config();
    let rule = AclRuleEdit {
        action: "deny".to_string(),
        source: "1.2.3.4".to_string(),
        operations: "write, ".to_string(),
        comment: String::new(),
    };
    save_acl_rule(&mut c, None, &rule);
    assert_eq!(c.acl.rules.len(), 2);
    assert_eq!(c.acl.rules[1].operations, vec!["write".to_string()]);
    save_acl_rule(&mut c, Some(0), &rule);
    assert_eq!(c.acl.rules.len(), 2);
    assert_eq!(c.acl.rules[0].action, "deny");
    save_acl_rule(&mut c, Some(9), &rule);
    assert_eq!(c.acl.rules.len(), 3);
    assert!(delete_acl_rule(&mut c, 1));
    assert_eq!(c.acl.rules.len(), 2);
    assert!(!delete_acl_rule(&mut c, 5));
    assert_eq!(c.acl.rules.len(), 2);
}

#[test]
fn keys_quit_stop_help() {
    let c = sample_config();
    let mut st = TuiState::new(&c);
    assert!(matches!(st.handle_key(Key::Char('q'), &c), TuiAction::Quit));
    assert!(matches!(st.handle_key(Key::Char('s'), &c), TuiAction::CancelShutdown));
    let _ = st.handle_key(Key::Char('?'), &c);
    assert!(st.show_help);
    // Any key closes the help overlay and does nothing else.
    assert!(matches!(st.handle_key(Key::Char('q'), &c), TuiAction::Nothing));
    assert!(!st.show_help);
}

#[test]
fn keys_filter_typing() {
    let c = sample_config();
    let mut st = TuiState::new(&c);
    let _ = st.handle_key(Key::Char('/'), &c);
    assert!(st.filter_active);
    type_text(&mut st, &c, "TFTPq");
    let _ = st.handle_key(Key::Backspace, &c);
    assert_eq!(st.filter_text, "TFTP");
    let _ = st.handle_key(Key::Enter, &c);
    assert!(!st.filter_active);
    assert!(st.matches_filter("my tftp server"));
    assert!(!st.matches_filter("other"));
    let _ = st.handle_key(Key::Esc, &c);
    assert_eq!(st.filter_text, "");
    assert!(st.matches_filter("other"));
}

#[test]
fn keys_config_edit() {
    let c = sample_config();
    let mut st = TuiState::new(&c);
    let _ = st.handle_key(Key::Char('5'), &c);
    assert!(st.current_tab == Tab::Config);
    let _ = st.handle_key(Key::Down, &c);
    let _ = st.handle_key(Key::Up, &c);
    let _ = st.handle_key(Key::Enter, &c);
    assert_eq!(st.config_editing, Some(0));
    assert_eq!(st.config_edit_buf, "69");
    let _ = st.handle_key(Key::Backspace, &c);
    let _ = st.handle_key(Key::Backspace, &c);
    type_text(&mut st, &c, "1069");
    match st.handle_key(Key::Enter, &c) {
        TuiAction::ApplyConfigEdit { key, val } => {
            assert_eq!(key, "port");
            assert_eq!(val, "1069");
        }
        _ => panic!("expected a config edit"),
    }
    assert_eq!(st.config_editing, None);
    assert_eq!(st.config_items[0].2, "1069");
}

#[test]
fn keys_acl_editor() {
    let c = sample_config();
    let mut st = TuiState::new(&c);
    let _ = st.handle_key(Key::Char('6'), &c);
    let _ = st.handle_key(Key::Char('a'), &c);
    assert!(matches!(st.acl_edit_mode, AclEditMode::Adding(_, 0)));
    let _ = st.handle_key(Key::Tab, &c);
    type_text(&mut st, &c, "10.1.0.0/16");
    let _ = st.handle_key(Key::BackTab, &c);
    let _ = st.handle_key(Key::Backspace, &c);
    match st.handle_key(Key::Enter, &c) {
        TuiAction::SaveAclRule { idx, rule } => {
            assert_eq!(idx, None);
            assert_eq!(rule.action, "allo");
            assert_eq!(rule.source, "10.1.0.0/16");
            assert_eq!(rule.operations, "read");
        }
        _ => panic!("expected a rule to save"),
    }
    assert!(matches!(st.acl_edit_mode, AclEditMode::Closed));
    let _ = st.handle_key(Key::Char('e'), &c);
    match &st.acl_edit_mode {
        AclEditMode::Editing(0, rule, 0) => assert_eq!(rule.operations, "read, write"),
        _ => panic!("expected the editor on rule 0"),
    }
    let _ = st.handle_key(Key::Esc, &c);
    st.acl_scroll = 1;
    assert!(matches!(st.handle_key(Key::Char('d'), &c), TuiAction::DeleteAclRule { idx: 1 }));
    assert_eq!(st.acl_scroll, 0);
}

#[test]
fn keys_files_and_scrolling() {
    let c = sample_config();
    let mut st = TuiState::new(&c);
    let _ = st.handle_key(Key::Char('2'), &c);
    assert!(st.files_dirty);
    st.set_files(vec![
        ("b.bin".to_string(), false, 3),
        ("sub".to_string(), true, 0),
        ("a.bin".to_string(), false, 5),
    ]);
    assert!(!st.files_dirty);
    assert_eq!(st.files_entries[0].0, "sub");
    assert!(matches!(st.handle_key(Key::Enter, &c), TuiAction::OpenDir { ref name } if name == "sub"));
    st.handle_mouse(MouseKind::ScrollDown);
    st.handle_mouse(MouseKind::ScrollDown);
    st.handle_mouse(MouseKind::ScrollDown);
    assert_eq!(st.files_scroll, 2);
    assert!(matches!(st.handle_key(Key::Enter, &c), TuiAction::Nothing));
    assert!(matches!(st.handle_key(Key::Esc, &c), TuiAction::OpenParentDir));
    st.enter_dir("/srv".to_string());
    assert_eq!(st.files_scroll, 0);
    assert!(st.files_dirty);
}

#[test]
fn log_scrolling_follows_end() {
    let c = sample_config();
    let mut st = TuiState::new(&c);
    let logs: Vec<LogEntry> = (0..10)
        .map(|i| LogEntry {
            timestamp_ms: i,
            level: LogLevel::Info,
            target: "t".to_string(),
            message: "m".to_string(),
        })
        .collect();
    st.take_logs(logs);
    assert_eq!(st.log_entries.len(), 10);
    assert!(TUI_MAX_LOG_ENTRIES >= 10);
    let _ = st.handle_key(Key::Char('4'), &c);
    let _ = st.handle_key(Key::Up, &c);
    assert!(!st.log_auto_scroll);
    for _ in 0..7 {
        let _ = st.handle_key(Key::Char('j'), &c);
    }
    assert_eq!(st.log_scroll, 7);
    assert!(st.log_auto_scroll);
}

#[test]
fn file_rows_sort() {
    let rows = sort_file_rows(vec![
        ("z".to_string(), false, 1),
        ("y".to_string(), true, 2),
        ("x".to_string(), false, 3),
    ]);
    let names: Vec<&str> = rows.iter().map(|r| r.0.as_str()).collect();
    assert_eq!(names, vec!["y", "x", "z"]);
}

#[test]
fn status_hints() {
    let c = sample_config();
    let mut st = TuiState::new(&c);
    assert!(st.status_hint().starts_with(" 1-6: tabs"));
    let _ = st.handle_key(Key::Char('6'), &c);
    assert_eq!(st.status_hint(), " a: add | e: edit | d: delete | /: filter | q: quit | ?: help ");
    let _ = st.handle_key(Key::Char('a'), &c);
    assert_eq!(st.status_hint(), " Tab: next field | Enter: save | Esc: cancel ");
}
