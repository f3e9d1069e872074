use fry_tftp_server::tftp::fs::{
    check_within_root, read_error_code, relative_request_path, route_request, validate_requested_path, FsError,
    RequestTarget, VirtualRoots,
};
use fry_tftp_server::tftp::ipc::{parse_command, IpcCommand};
use fry_tftp_server::tftp::net::{ip_version_for_client, IpVersion};
use fry_tftp_server::tftp::protocol::packet::ErrorCode;
use fry_tftp_server::tftp::server::{
    admit_request, consults_rate_limit, count_request, shutdown_step, window_expired, Admission,
    RateWindow, RequestKind, ShutdownStep,
};

fn roots() -> VirtualRoots {
    VirtualRoots::new(&vec![
        ("/fw".to_string(), "/data/fw".to_string()),
        ("fw/new".to_string(), "/data/fw-new".to_string()),
        ("\\img".to_string(), "/data/img".to_string()),
    ])
}

#[test]
fn virtual_roots_longest_alias_wins() {
    let v = roots();
    assert_eq!(v.resolve("fw/new/a.bin"), Some(("/data/fw-new".to_string(), "a.bin".to_string())));
    assert_eq!(v.resolve("/fw/old/a.bin"), Some(("/data/fw".to_string(), "old/a.bin".to_string())));
    assert_eq!(v.resolve("img//x"), Some(("/data/img".to_string(), "x".to_string())));
    assert_eq!(v.resolve("fw/"), None);
    assert_eq!(v.resolve("other/x"), None);
}

#[test]
fn request_routing() {
    let v = roots();
    match route_request(&v, "/fw/a.bin") {
        Ok(RequestTarget::Virtual { root, rest }) => {
            assert_eq!(root, "/data/fw");
            assert_eq!(rest, "a.bin");
        }
        _ => panic!("expected a virtual root"),
    }
    match route_request(&v, "//boot/pxe.0") {
        Ok(RequestTarget::Main { rest }) => assert_eq!(rest, "boot/pxe.0"),
        _ => panic!("expected the main root"),
    }
    assert!(matches!(route_request(&v, "../etc/passwd"), Err(FsError::AccessViolation(_))));
    assert!(matches!(route_request(&v, "/"), Err(FsError::InvalidPath(_))));
    assert!(matches!(relative_request_path("\\\\x"), Ok(ref r) if r == "x"));
}

#[test]
fn path_validation_messages() {
    match validate_requested_path("a\u{1}b") {
        Err(e) => assert_eq!(e.to_string(), "invalid path: control character 0x01 in path"),
        Ok(()) => panic!("expected a refusal"),
    }
    match validate_requested_path("x/../y") {
        Err(e) => assert_eq!(e.to_string(), "access violation: path traversal attempt (..)"),
        Ok(()) => panic!("expected a refusal"),
    }
    match validate_requested_path("~root") {
        Err(e) => assert_eq!(e.to_string(), "access violation: tilde in path"),
        Ok(()) => panic!("expected a refusal"),
    }
    assert!(validate_requested_path("ok/file.bin").is_ok());
    assert_eq!(read_error_code(&FsError::FileNotFound("x".to_string())), ErrorCode::FileNotFound);
    assert_eq!(read_error_code(&FsError::InvalidPath("x".to_string())), ErrorCode::NotDefined);
}

#[test]
fn admission_rules() {
    assert_eq!(admit_request(RequestKind::Read, false, true, "drop", true, 0, 10, 0, 100), Admission::Spawn);
    assert_eq!(
        admit_request(RequestKind::Write, false, true, "drop", true, 0, 10, 0, 100),
        Admission::Reject { code: ErrorCode::AccessViolation, message: "Write not allowed".to_string() }
    );
    assert_eq!(admit_request(RequestKind::Read, false, false, "drop", true, 0, 10, 0, 100), Admission::Drop);
    assert_eq!(
        admit_request(RequestKind::Read, false, false, "error", true, 0, 10, 0, 100),
        Admission::Reject { code: ErrorCode::NotDefined, message: "Rate limit exceeded".to_string() }
    );
    assert_eq!(admit_request(RequestKind::Write, true, false, "error", true, 0, 10, 0, 100), Admission::Drop);
    assert_eq!(
        admit_request(RequestKind::Read, false, true, "drop", false, 0, 10, 0, 100),
        Admission::Reject { code: ErrorCode::AccessViolation, message: "Access denied".to_string() }
    );
    assert_eq!(
        admit_request(RequestKind::Read, false, true, "drop", true, 10, 10, 0, 100),
        Admission::Reject { code: ErrorCode::NotDefined, message: "Too many sessions".to_string() }
    );
    assert_eq!(
        admit_request(RequestKind::Read, false, true, "drop", true, 0, 10, 100, 100),
        Admission::Reject { code: ErrorCode::NotDefined, message: "Server busy".to_string() }
    );
    assert!(matches!(
        admit_request(RequestKind::Other, true, true, "drop", true, 0, 10, 0, 100),
        Admission::Reject { code: ErrorCode::IllegalOperation, .. }
    ));
    assert!(consults_rate_limit(RequestKind::Read, false));
    assert!(!consults_rate_limit(RequestKind::Write, false));
    assert!(!consults_rate_limit(RequestKind::Other, true));
}

#[test]
fn control_commands_and_ip_versions() {
    assert_eq!(parse_command(" status\n"), IpcCommand::Status);
    assert_eq!(parse_command("reload"), IpcCommand::Reload);
    assert_eq!(parse_command("stop\r\n"), IpcCommand::Stop);
    assert_eq!(parse_command(" halt "), IpcCommand::Unknown("halt".to_string()));
    assert_eq!(IpVersion::from_str("v6"), IpVersion::V6);
    assert_eq!(IpVersion::from_str("V4"), IpVersion::Dual);
    assert_eq!(ip_version_for_client(true, "v6"), IpVersion::V4);
    assert_eq!(ip_version_for_client(false, "v6"), IpVersion::V6);
}

fn no_roots() -> VirtualRoots {
    VirtualRoots::new(&Vec::new())
}

fn main_rest(v: &VirtualRoots, requested: &str) -> String {
    match route_request(v, requested) {
        Ok(RequestTarget::Main { rest }) => rest,
        _ => panic!("expected the main root for {:?}", requested),
    }
}

#[test]
fn test_resolve_basic() {
    assert!(main_rest(&no_roots(), "test.bin").ends_with("test.bin"));
}

#[test]
fn test_reject_traversal() {
    assert!(route_request(&no_roots(), "../../etc/passwd").is_err());
}

#[test]
fn test_reject_tilde() {
    assert!(route_request(&no_roots(), "~root/.ssh/keys").is_err());
}

#[test]
fn test_reject_control_chars() {
    assert!(route_request(&no_roots(), "file\x01name").is_err());
}

#[test]
fn test_subdirectory() {
    assert!(main_rest(&no_roots(), "firmware/test.bin").ends_with("test.bin"));
}

#[test]
fn test_empty_path() {
    assert!(route_request(&no_roots(), "").is_err());
}

#[test]
fn test_leading_slash_stripped() {
    assert!(main_rest(&no_roots(), "/test.bin").ends_with("test.bin"));
}

#[test]
fn test_virtual_roots() {
    let vroots = VirtualRoots::new(&vec![("firmware".to_string(), "/srv/vroot".to_string())]);
    match route_request(&vroots, "firmware/fw.bin") {
        Ok(RequestTarget::Virtual { root, rest }) => {
            assert_eq!(root, "/srv/vroot");
            assert!(rest.ends_with("fw.bin"));
        }
        _ => panic!("expected the virtual root"),
    }
    assert!(main_rest(&vroots, "main.bin").ends_with("main.bin"));
}

#[test]
fn test_path_traversal_patterns() {
    let bad_paths = &[
        "../etc/passwd",
        "..\\windows\\system32",
        "subdir/../../etc/shadow",
        "....//....//etc/passwd",
        "foo/../../../bar",
    ];
    for path in bad_paths {
        let result = route_request(&no_roots(), path);
        assert!(result.is_err(), "path '{}' should be rejected", path);
    }
}

#[test]
fn rate_limit_counts_within_a_window() {
    // limit of 2 requests per 1000 ms
    let (w, ok) = count_request(None, 500, 1000, 2);
    assert_eq!(w, RateWindow { start_ms: 500, count: 1 });
    assert!(ok);
    let (w, ok) = count_request(Some(w), 900, 1000, 2);
    assert_eq!(w.count, 2);
    assert!(ok);
    let (w, ok) = count_request(Some(w), 1499, 1000, 2);
    assert_eq!(w, RateWindow { start_ms: 500, count: 3 });
    assert!(!ok);
    // the window is over at 1500: a new one starts
    let (w, ok) = count_request(Some(w), 1500, 1000, 2);
    assert_eq!(w, RateWindow { start_ms: 1500, count: 1 });
    assert!(ok);
    let (w, _) = count_request(Some(RateWindow { start_ms: 0, count: u32::MAX }), 1, 1000, 2);
    assert_eq!(w.count, u32::MAX);
    assert!(window_expired(0, 1000, 1000));
    assert!(!window_expired(0, 999, 1000));
    assert!(!window_expired(2000, 1000, 10));
}

#[test]
fn leading_slash_routes_alike() {
    let v = roots();
    for r in ["fw/a.bin", "img/x", "boot/pxe.0", "\\fw/a", "", "../x", "a\u{1f}b", "~x"] {
        let with_slash = format!("/{}", r);
        let a = format!("{:?}", route_request(&v, &with_slash));
        let b = format!("{:?}", route_request(&v, r));
        assert_eq!(a, b, "{:?}", r);
        let a = format!("{:?}", relative_request_path(&with_slash));
        let b = format!("{:?}", relative_request_path(r));
        assert_eq!(a, b, "{:?}", r);
    }
    match validate_requested_path("a\u{1f}b") {
        Err(e) => assert_eq!(e.to_string(), "invalid path: control character 0x1f in path"),
        Ok(()) => panic!("expected a refusal"),
    }
}

fn parts(p: &str) -> Vec<Vec<u8>> {
    let mut v = vec![b"/".to_vec()];
    v.extend(p.split('/').filter(|c| !c.is_empty()).map(|c| c.as_bytes().to_vec()));
    v
}

#[test]
fn resolved_path_must_stay_below_root() {
    assert!(check_within_root(&parts("/srv/tftp/a.bin"), &parts("/srv/tftp"), "a.bin").is_ok());
    assert!(check_within_root(&parts("/srv/tftp"), &parts("/srv/tftp"), "").is_ok());
    match check_within_root(&parts("/srv/tftp2/a.bin"), &parts("/srv/tftp"), "x") {
        Err(e) => assert_eq!(e.to_string(), "access violation: resolved path escapes root: x"),
        Ok(()) => panic!("expected a refusal"),
    }
    assert!(check_within_root(&parts("/etc/passwd"), &parts("/srv/tftp"), "p").is_err());
    assert!(check_within_root(&parts("/srv"), &parts("/srv/tftp"), "p").is_err());
}

#[test]
fn graceful_shutdown_steps() {
    assert_eq!(shutdown_step(0, 0, 30), ShutdownStep::Done);
    assert_eq!(shutdown_step(2, 29_999, 30), ShutdownStep::Wait);
    assert_eq!(shutdown_step(2, 30_000, 30), ShutdownStep::ForceStop);
    assert_eq!(shutdown_step(0, 99_999, 30), ShutdownStep::Done);
    assert_eq!(shutdown_step(1, u64::MAX, u64::MAX), ShutdownStep::Wait);
}
