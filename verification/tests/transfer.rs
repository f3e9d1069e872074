use fry_tftp_server::tftp::config::{
    AclConfig, Config, FilesystemConfig, GuiConfig, NetworkConfig, ProtocolConfig, SecurityConfig,
    ServerConfig, SessionConfig, TuiConfig,
};
use fry_tftp_server::tftp::protocol::packet::{parse_packet, serialize_packet, Packet, TftpOption};
use fry_tftp_server::tftp::session::handshake::{HandshakeStep, OackHandshake};
use fry_tftp_server::tftp::session::read::ReadTransfer;
use fry_tftp_server::tftp::session::write::{
    declared_size_error, declared_tsize, DataOutcome, TimeoutOutcome, WriteTransfer,
};
use fry_tftp_server::tftp::session::{build_oack, negotiate_options};
use std::time::Duration;

fn config() -> Config {
    Config {
        server: ServerConfig::default(),
        network: NetworkConfig::default(),
        protocol: ProtocolConfig::default(),
        session: SessionConfig::default(),
        security: SecurityConfig::default(),
        filesystem: FilesystemConfig::default(),
        acl: AclConfig::default(),
        gui: GuiConfig::default_for_language("en".to_string()),
        tui: TuiConfig::default(),
    }
}

fn opt(name: &str, value: &str) -> TftpOption {
    TftpOption { name: name.to_string(), value: value.to_string() }
}

#[test]
fn negotiation_clamps_and_reports() {
    let c = config();
    let p = negotiate_options(&c, &[], Some(10));
    assert_eq!(p.blksize, 512);
    assert_eq!(p.windowsize, 1);
    assert_eq!(p.timeout, Duration::from_secs(3));
    assert!(!p.has_options);
    let opts = vec![
        opt("blksize", "4"),
        opt("windowsize", "1000"),
        opt("timeout", "0"),
        opt("tsize", "0"),
        opt("colour", "blue"),
    ];
    let p = negotiate_options(&c, &opts, Some(1234));
    assert_eq!(p.blksize, 8);
    assert_eq!(p.windowsize, 64);
    assert_eq!(p.timeout, Duration::from_secs(1));
    assert_eq!(p.tsize, Some(1234));
    assert!(p.has_options);
    let p = negotiate_options(&c, &[opt("blksize", "1468"), opt("blksize", "x"), opt("tsize", "0")], None);
    assert_eq!(p.blksize, 1468);
    assert_eq!(p.tsize, None);
}

#[test]
fn oack_values_read_back() {
    let c = config();
    let p = negotiate_options(&c, &[opt("blksize", "1468"), opt("windowsize", "8"), opt("tsize", "0")], Some(99));
    let oack = build_oack(&p);
    let bytes = serialize_packet(&oack);
    match parse_packet(&bytes) {
        Ok(Packet::Oack { options }) => {
            let names: Vec<&str> = options.iter().map(|o| o.name.as_str()).collect();
            assert_eq!(names, vec!["blksize", "windowsize", "tsize"]);
            assert_eq!(options[0].value.parse::<u16>().unwrap(), p.blksize);
            assert_eq!(options[1].value.parse::<u16>().unwrap(), p.windowsize);
            assert_eq!(options[2].value.parse::<u64>().unwrap(), 99);
        }
        other => panic!("expected OACK, got {:?}", other),
    }
    let plain = negotiate_options(&c, &[], None);
    assert!(matches!(build_oack(&plain), Packet::Oack { ref options } if options.is_empty()));
}

#[test]
fn read_transfer_windows_and_acks() {
    // 1300 bytes in blocks of 512: blocks of 512, 512 and 276 bytes.
    let mut t = ReadTransfer::new(1300, 512, 2, 3);
    assert_eq!(t.total_blocks, 3);
    assert_eq!(t.next_window(), Some((1, 2)));
    assert_eq!(t.on_ack(0), None); // before the window: ignored
    assert_eq!(t.on_ack(5), None); // beyond the window: ignored
    assert_eq!(t.on_ack(1), Some(512));
    assert_eq!(t.bytes_sent, 512);
    assert_eq!(t.next_window(), Some((2, 3)));
    assert_eq!(t.on_ack(1), None); // duplicate: ignored
    assert_eq!(t.on_ack(3), Some(788));
    assert_eq!(t.next_window(), None);
    assert_eq!(t.bytes_sent, 1300);
}

#[test]
fn read_transfer_exact_multiple_and_retries() {
    // A file of exactly one block ends with an empty block.
    let mut t = ReadTransfer::new(512, 512, 1, 1);
    assert_eq!(t.total_blocks, 2);
    assert_eq!(t.next_window(), Some((1, 1)));
    assert!(!t.on_timeout());
    assert!(t.on_timeout());
    assert_eq!(t.on_ack(1), Some(512));
    assert_eq!(t.next_window(), Some((2, 2)));
    assert_eq!(t.retries, 0);
    assert_eq!(t.on_ack(2), Some(0));
    assert_eq!(t.next_window(), None);
}

#[test]
fn write_transfer_reassembles_out_of_order() {
    let mut w = WriteTransfer::new(4, 3, 1000, 2);
    assert_eq!(w.on_data(2, vec![5, 6, 7, 8]), DataOutcome::Accepted);
    assert_eq!(w.on_data(9, vec![0]), DataOutcome::Ignored);
    assert_eq!(w.on_data(1, vec![1, 2, 3, 4]), DataOutcome::Accepted);
    assert_eq!(w.on_data(3, vec![9, 10, 11, 12]), DataOutcome::WindowDone { ack: 3 });
    assert_eq!(w.on_data(2, vec![5, 6, 7, 8]), DataOutcome::Ignored);
    assert_eq!(w.on_data(4, vec![13]), DataOutcome::Finished { ack: 4 });
    assert_eq!(w.received, vec![1, 2, 3, 4, 5, 6, 7, 8, 9, 10, 11, 12, 13]);
    assert_eq!(w.bytes_received, 13);
}

#[test]
fn write_transfer_limits_and_timeouts() {
    let mut w = WriteTransfer::new(4, 1, 6, 1);
    assert_eq!(w.on_timeout(), TimeoutOutcome::Resend(None));
    assert_eq!(w.on_timeout(), TimeoutOutcome::GiveUp);
    let mut w = WriteTransfer::new(4, 1, 6, 1);
    assert_eq!(w.on_data(1, vec![0; 4]), DataOutcome::WindowDone { ack: 1 });
    assert_eq!(w.on_timeout(), TimeoutOutcome::Resend(Some(1)));
    assert_eq!(w.on_data(2, vec![0; 4]), DataOutcome::TooLarge);
}

#[test]
fn oack_handshake_steps() {
    let mut h = OackHandshake::new(1);
    assert_eq!(h.max_invalid, 10);
    assert_eq!(h.on_reply(&Ok(Packet::Ack { block: 3 })), HandshakeStep::Continue);
    assert_eq!(h.invalid_packets, 1);
    assert_eq!(h.on_reply(&parse_packet(&[0, 9])), HandshakeStep::Continue);
    assert_eq!(
        h.on_reply(&Ok(Packet::Error {
            code: fry_tftp_server::tftp::protocol::packet::ErrorCode::DiskFull,
            message: "full".to_string()
        })),
        HandshakeStep::ClientError("full".to_string())
    );
    assert_eq!(h.on_reply(&Ok(Packet::Ack { block: 0 })), HandshakeStep::Done);
    assert!(!h.on_timeout());
    assert!(h.on_timeout());
    let mut h = OackHandshake::new(0);
    assert_eq!(h.on_reply(&Ok(Packet::Ack { block: 1 })), HandshakeStep::TooManyInvalid);
}

#[test]
fn read_transfer_block_number_rollover() {
    // 70000 full blocks of 8 bytes and a last block of 3: block numbers on
    // the wire wrap past 65535 and acknowledgements still advance.
    let len: u64 = 8 * 70000 + 3;
    let mut t = ReadTransfer::new(len, 8, 4, 3);
    assert_eq!(t.total_blocks, 70001);
    let mut windows = 0u64;
    while let Some((start, end)) = t.next_window() {
        assert!(start <= end && end <= 70001);
        let wire = (end % 65536) as u16;
        // a stale acknowledgement of the block before the window changes nothing
        let before = t.bytes_sent;
        assert_eq!(t.on_ack(((start - 1) % 65536) as u16), None);
        assert_eq!(t.bytes_sent, before);
        let acked = t.on_ack(wire).expect("window acknowledged");
        assert_eq!(t.bytes_sent, before + acked);
        windows += 1;
    }
    assert_eq!(t.bytes_sent, len);
    assert_eq!(windows, (70001 + 3) / 4);
}

#[test]
fn declared_upload_size_is_checked() {
    assert_eq!(declared_tsize(&[]), None);
    assert_eq!(declared_tsize(&[opt("tsize", "5000"), opt("blksize", "1024")]), Some(5000));
    assert_eq!(declared_tsize(&[opt("tsize", "10"), opt("tsize", "x")]), Some(10));
    assert_eq!(declared_tsize(&[opt("tsize", "10"), opt("tsize", "20")]), Some(20));
    assert_eq!(declared_tsize(&[opt("TSIZE", "10")]), None);
    let declared = declared_tsize(&[opt("tsize", "5000")]);
    assert_eq!(
        declared_size_error(declared, 4096, "4KB"),
        Some("File too large: 5000 > 4KB".to_string())
    );
    assert_eq!(declared_size_error(declared, 5000, "5000"), None);
}
