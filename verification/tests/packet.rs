use fry_tftp_server::tftp::protocol::packet::{
    parse_packet, serialize_packet, ErrorCode, Opcode, Packet, ParseError, TftpOption,
    TransferMode,
};

#[test]
fn test_parse_rrq_basic() {
    // opcode=1 | "test.bin" | 0 | "octet" | 0
    let mut data = vec![0x00, 0x01];
    data.extend_from_slice(b"test.bin");
    data.push(0);
    data.extend_from_slice(b"octet");
    data.push(0);

    let pkt = parse_packet(&data).unwrap();
    match pkt {
        Packet::Rrq { filename, mode, options } => {
            assert_eq!(filename, "test.bin");
            assert_eq!(mode, TransferMode::Octet);
            assert!(options.is_empty());
        }
        _ => panic!("expected RRQ"),
    }
}

#[test]
fn test_parse_rrq_with_options() {
    let mut data = vec![0x00, 0x01];
    data.extend_from_slice(b"firmware.img");
    data.push(0);
    data.extend_from_slice(b"octet");
    data.push(0);
    data.extend_from_slice(b"blksize");
    data.push(0);
    data.extend_from_slice(b"1468");
    data.push(0);
    data.extend_from_slice(b"tsize");
    data.push(0);
    data.extend_from_slice(b"0");
    data.push(0);

    let pkt = parse_packet(&data).unwrap();
    match pkt {
        Packet::Rrq { options, .. } => {
            assert_eq!(options.len(), 2);
            assert_eq!(options[0].name, "blksize");
            assert_eq!(options[0].value, "1468");
            assert_eq!(options[1].name, "tsize");
            assert_eq!(options[1].value, "0");
        }
        _ => panic!("expected RRQ"),
    }
}

#[test]
fn test_parse_wrq() {
    let mut data = vec![0x00, 0x02];
    data.extend_from_slice(b"upload.bin");
    data.push(0);
    data.extend_from_slice(b"OCTET");
    data.push(0);

    let pkt = parse_packet(&data).unwrap();
    match pkt {
        Packet::Wrq { filename, mode, .. } => {
            assert_eq!(filename, "upload.bin");
            assert_eq!(mode, TransferMode::Octet);
        }
        _ => panic!("expected WRQ"),
    }
}

#[test]
fn test_parse_data() {
    let data = vec![0x00, 0x03, 0x00, 0x01, 0xDE, 0xAD, 0xBE, 0xEF];
    let pkt = parse_packet(&data).unwrap();
    match pkt {
        Packet::Data { block, data } => {
            assert_eq!(block, 1);
            assert_eq!(data, vec![0xDE, 0xAD, 0xBE, 0xEF]);
        }
        _ => panic!("expected DATA"),
    }
}

#[test]
fn test_parse_ack() {
    let data = vec![0x00, 0x04, 0x00, 0x2A];
    let pkt = parse_packet(&data).unwrap();
    match pkt {
        Packet::Ack { block } => assert_eq!(block, 42),
        _ => panic!("expected ACK"),
    }
}

#[test]
fn test_parse_error() {
    let mut data = vec![0x00, 0x05, 0x00, 0x01];
    data.extend_from_slice(b"File not found");
    data.push(0);

    let pkt = parse_packet(&data).unwrap();
    match pkt {
        Packet::Error { code, message } => {
            assert_eq!(code, ErrorCode::FileNotFound);
            assert_eq!(message, "File not found");
        }
        _ => panic!("expected ERROR"),
    }
}

#[test]
fn test_parse_oack() {
    let mut data = vec![0x00, 0x06];
    data.extend_from_slice(b"blksize");
    data.push(0);
    data.extend_from_slice(b"1468");
    data.push(0);
    data.extend_from_slice(b"windowsize");
    data.push(0);
    data.extend_from_slice(b"8");
    data.push(0);

    let pkt = parse_packet(&data).unwrap();
    match pkt {
        Packet::Oack { options } => {
            assert_eq!(options.len(), 2);
            assert_eq!(options[0].name, "blksize");
            assert_eq!(options[0].value, "1468");
            assert_eq!(options[1].name, "windowsize");
            assert_eq!(options[1].value, "8");
        }
        _ => panic!("expected OACK"),
    }
}

#[test]
fn test_roundtrip_data() {
    let original = Packet::Data { block: 42, data: vec![1, 2, 3, 4, 5] };
    let bytes = serialize_packet(&original);
    let parsed = parse_packet(&bytes).unwrap();
    assert_eq!(original, parsed);
}

#[test]
fn test_roundtrip_ack() {
    let original = Packet::Ack { block: 100 };
    let bytes = serialize_packet(&original);
    let parsed = parse_packet(&bytes).unwrap();
    assert_eq!(original, parsed);
}

#[test]
fn test_roundtrip_error() {
    let original = Packet::Error {
        code: ErrorCode::AccessViolation,
        message: "Access denied".to_string(),
    };
    let bytes = serialize_packet(&original);
    let parsed = parse_packet(&bytes).unwrap();
    assert_eq!(original, parsed);
}

#[test]
fn test_path_traversal_rejected() {
    let mut data = vec![0x00, 0x01];
    data.extend_from_slice(b"../../etc/passwd");
    data.push(0);
    data.extend_from_slice(b"octet");
    data.push(0);

    assert!(parse_packet(&data).is_err());
}

#[test]
fn test_tilde_rejected() {
    let mut data = vec![0x00, 0x01];
    data.extend_from_slice(b"~root/.ssh/keys");
    data.push(0);
    data.extend_from_slice(b"octet");
    data.push(0);

    assert!(parse_packet(&data).is_err());
}

#[test]
fn test_control_chars_rejected() {
    let mut data = vec![0x00, 0x01];
    data.extend_from_slice(b"file\x01name");
    data.push(0);
    data.extend_from_slice(b"octet");
    data.push(0);

    assert!(parse_packet(&data).is_err());
}

#[test]
fn test_too_short() {
    assert!(parse_packet(&[0x00]).is_err());
    assert!(parse_packet(&[]).is_err());
}

#[test]
fn test_unknown_opcode() {
    assert!(parse_packet(&[0x00, 0xFF]).is_err());
}

#[test]
fn test_zero_byte_data() {
    let data = vec![0x00, 0x03, 0x00, 0x01]; // DATA block 1, empty payload
    let pkt = parse_packet(&data).unwrap();
    match pkt {
        Packet::Data { block, data } => {
            assert_eq!(block, 1);
            assert!(data.is_empty());
        }
        _ => panic!("expected DATA"),
    }
}

#[test]
fn test_packet_roundtrip_rrq() {
    let original = Packet::Rrq {
        filename: "firmware.bin".to_string(),
        mode: TransferMode::Octet,
        options: vec![
            TftpOption { name: "blksize".to_string(), value: "1468".to_string() },
            TftpOption { name: "tsize".to_string(), value: "0".to_string() },
        ],
    };
    let bytes = serialize_packet(&original);
    let parsed = parse_packet(&bytes).unwrap();
    assert_eq!(original, parsed);
}

// ─── Further cases ──────────────────────────────────────────────────────

fn request(opcode: u8, filename: &[u8], mode: &[u8]) -> Vec<u8> {
    let mut data = vec![0x00, opcode];
    data.extend_from_slice(filename);
    data.push(0);
    data.extend_from_slice(mode);
    data.push(0);
    data
}

#[test]
fn test_error_variants() {
    match parse_packet(&[0x00]) {
        Err(ParseError::TooShort(1)) => {}
        other => panic!("unexpected {:?}", other),
    }
    match parse_packet(&[0x00, 0x07]) {
        Err(ParseError::UnknownOpcode(7)) => {}
        other => panic!("unexpected {:?}", other),
    }
    match parse_packet(&[0x00, 0x04, 0x01]) {
        Err(ParseError::TooShort(3)) => {}
        other => panic!("unexpected {:?}", other),
    }
    match parse_packet(&request(1, b"a.bin", b"mail")) {
        Err(ParseError::UnknownMode(m)) => assert_eq!(m, "mail"),
        other => panic!("unexpected {:?}", other),
    }
    match parse_packet(&request(1, b"\xff\xfe", b"octet")) {
        Err(ParseError::InvalidFilename) => {}
        other => panic!("unexpected {:?}", other),
    }
    match parse_packet(&[0x00, 0x01, b'a', 0x00]) {
        Err(ParseError::Malformed(m)) => assert_eq!(m, "missing filename or mode"),
        other => panic!("unexpected {:?}", other),
    }
    match parse_packet(&request(1, b"", b"octet")) {
        Err(ParseError::Malformed(m)) => assert_eq!(m, "empty filename"),
        other => panic!("unexpected {:?}", other),
    }
    match parse_packet(&request(2, b"a..b", b"octet")) {
        Err(ParseError::Malformed(m)) => assert_eq!(m, "path traversal attempt (..)"),
        other => panic!("unexpected {:?}", other),
    }
    match parse_packet(&request(2, b"~x", b"octet")) {
        Err(ParseError::Malformed(m)) => assert_eq!(m, "tilde in filename"),
        other => panic!("unexpected {:?}", other),
    }
    match parse_packet(&request(1, b"file\x1fname", b"octet")) {
        Err(ParseError::Malformed(m)) => assert_eq!(m, "control character 0x1f in filename"),
        other => panic!("unexpected {:?}", other),
    }
    match parse_packet(&request(1, b"a.bin", b"\xff")) {
        Err(ParseError::Malformed(m)) => assert_eq!(m, "invalid mode encoding"),
        other => panic!("unexpected {:?}", other),
    }
    let mut bad_opt = request(1, b"a.bin", b"octet");
    bad_opt.extend_from_slice(b"\xc3\x28\x00x\x00");
    match parse_packet(&bad_opt) {
        Err(ParseError::Malformed(m)) => assert_eq!(m, "invalid option name encoding"),
        other => panic!("unexpected {:?}", other),
    }
    match parse_packet(&[0x00, 0x06, b'a', 0x00, 0xff, 0x00]) {
        Err(ParseError::Malformed(m)) => assert_eq!(m, "invalid option value in OACK"),
        other => panic!("unexpected {:?}", other),
    }
}

#[test]
fn test_request_details() {
    // Mode is case-insensitive, option names are lower-cased, a trailing
    // unpaired option string and unterminated bytes are ignored.
    let mut data = request(1, b"dir/File.BIN", b"NetAscii");
    data.extend_from_slice(b"BlkSize\x001024\x00orphan\x00tail");
    match parse_packet(&data).unwrap() {
        Packet::Rrq { filename, mode, options } => {
            assert_eq!(filename, "dir/File.BIN");
            assert_eq!(mode, TransferMode::Netascii);
            assert_eq!(options, vec![TftpOption { name: "blksize".to_string(), value: "1024".to_string() }]);
        }
        other => panic!("unexpected {:?}", other),
    }
}

#[test]
fn test_error_message_variants() {
    // no message at all
    assert_eq!(
        parse_packet(&[0, 5, 0, 9]).unwrap(),
        Packet::Error { code: ErrorCode::NotDefined, message: String::new() }
    );
    // unterminated message, unknown code
    assert_eq!(
        parse_packet(&[0, 5, 0, 42, b'h', b'i']).unwrap(),
        Packet::Error { code: ErrorCode::NotDefined, message: "hi".to_string() }
    );
    // invalid UTF-8 in the message
    assert_eq!(
        parse_packet(&[0, 5, 0, 8, 0xff, 0]).unwrap(),
        Packet::Error { code: ErrorCode::OptionRejected, message: "invalid error message".to_string() }
    );
}

#[test]
fn test_serialize_exact_bytes() {
    let oack = Packet::Oack {
        options: vec![TftpOption { name: "blksize".to_string(), value: "1468".to_string() }],
    };
    assert_eq!(&serialize_packet(&oack)[..], b"\x00\x06blksize\x001468\x00");
    let err = Packet::Error { code: ErrorCode::DiskFull, message: "full".to_string() };
    assert_eq!(&serialize_packet(&err)[..], b"\x00\x05\x00\x03full\x00");
    let wrq = Packet::Wrq { filename: "a".to_string(), mode: TransferMode::Netascii, options: vec![] };
    assert_eq!(&serialize_packet(&wrq)[..], b"\x00\x02a\x00netascii\x00");
    let data = Packet::Data { block: 0x0102, data: vec![9] };
    assert_eq!(&serialize_packet(&data)[..], b"\x00\x03\x01\x02\x09");
}

#[test]
fn test_codes_and_modes() {
    assert_eq!(Opcode::from_u16(6), Some(Opcode::Oack));
    assert_eq!(Opcode::from_u16(0), None);
    assert_eq!(Opcode::Data.code(), 3);
    assert_eq!(ErrorCode::from_u16(6), ErrorCode::FileAlreadyExists);
    assert_eq!(ErrorCode::from_u16(99), ErrorCode::NotDefined);
    assert_eq!(ErrorCode::UnknownTransferId.code(), 5);
    assert_eq!(ErrorCode::IllegalOperation.to_string(), "Illegal TFTP operation");
    assert_eq!(TransferMode::from_str_ignore_case("OcTeT"), Some(TransferMode::Octet));
    assert_eq!(TransferMode::from_str_ignore_case("binary"), None);
    assert_eq!(TransferMode::Netascii.as_str(), "netascii");
}
