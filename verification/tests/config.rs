use fry_tftp_server::tftp::config::{parse_size, FilesystemConfig};

#[test]
fn test_parse_size_gb() {
    assert_eq!(parse_size("4GB"), Some(4 * 1024 * 1024 * 1024));
    assert_eq!(parse_size("1gb"), Some(1024 * 1024 * 1024));
}

#[test]
fn test_parse_size_mb() {
    assert_eq!(parse_size("100MB"), Some(100 * 1024 * 1024));
    assert_eq!(parse_size("256mb"), Some(256 * 1024 * 1024));
}

#[test]
fn test_parse_size_kb() {
    assert_eq!(parse_size("512KB"), Some(512 * 1024));
}

#[test]
fn test_parse_size_bytes() {
    assert_eq!(parse_size("1024B"), Some(1024));
    assert_eq!(parse_size("1024"), Some(1024));
}

#[test]
fn test_parse_size_invalid() {
    assert_eq!(parse_size("abc"), None);
    assert_eq!(parse_size(""), None);
}

#[test]
fn test_parse_size_with_spaces() {
    assert_eq!(parse_size(" 4 GB"), Some(4 * 1024 * 1024 * 1024));
}

#[test]
fn test_max_file_size_bytes() {
    let fs = FilesystemConfig { max_file_size: "4GB".to_string(), ..Default::default() };
    assert_eq!(fs.max_file_size_bytes(), 4 * 1024 * 1024 * 1024);
}

#[test]
fn test_parse_size_edges() {
    assert_eq!(parse_size("+7kb"), Some(7 * 1024));
    assert_eq!(parse_size("GB"), None);
    assert_eq!(parse_size("1Gb"), None);
    assert_eq!(parse_size("-1"), None);
    assert_eq!(parse_size("18446744073709551615"), Some(u64::MAX));
    assert_eq!(parse_size("18446744073709551616"), None);
    assert_eq!(parse_size("17179869184GB"), Some(u64::MAX));
    assert_eq!(parse_size("\u{3000}12\tb\n"), Some(12));
    let fs = FilesystemConfig { max_file_size: "lots".to_string(), ..Default::default() };
    assert_eq!(fs.max_file_size_bytes(), u64::MAX);
}
