use std::time::Duration;

use fry_tftp_server::tftp::session::{
    block_to_absolute, compute_backoff, compute_total_blocks, decode_netascii, encode_netascii,
    get_block_payload,
};

#[test]
fn test_encode_netascii() {
    // LF → CR+LF
    assert_eq!(encode_netascii(b"a\nb"), b"a\r\nb");
    // CR → CR+NUL
    assert_eq!(encode_netascii(b"a\rb"), b"a\r\0b");
    // CR+LF stays CR+LF
    assert_eq!(encode_netascii(b"a\r\nb"), b"a\r\nb");
    // No change
    assert_eq!(encode_netascii(b"hello"), b"hello");
}

#[test]
fn test_decode_netascii() {
    assert_eq!(decode_netascii(b"a\r\nb"), b"a\nb");
    assert_eq!(decode_netascii(b"a\r\0b"), b"a\rb");
    assert_eq!(decode_netascii(b"hello"), b"hello");
}

#[test]
fn test_netascii_roundtrip() {
    // Native text with LF and bare CR (no CR+LF since that's wire format)
    let native = b"line1\nline2\rline3";
    let encoded = encode_netascii(native);
    assert_eq!(encoded, b"line1\r\nline2\r\0line3");
    let decoded = decode_netascii(&encoded);
    assert_eq!(decoded, native);
}

#[test]
fn test_netascii_encode_decode() {
    let native = b"line1\nline2\rline3";
    let encoded = encode_netascii(native);
    let decoded = decode_netascii(&encoded);
    assert_eq!(decoded, native);
    assert!(encoded.len() >= native.len());
}

#[test]
fn test_compute_total_blocks() {
    assert_eq!(compute_total_blocks(0, 512), 1);
    assert_eq!(compute_total_blocks(1, 512), 1);
    assert_eq!(compute_total_blocks(512, 512), 2); // extra empty block
    assert_eq!(compute_total_blocks(513, 512), 2);
    assert_eq!(compute_total_blocks(1024, 512), 3);
    assert_eq!(compute_total_blocks(1536, 512), 4);
}

#[test]
fn test_compute_backoff() {
    let base = Duration::from_secs(3);
    let max = Duration::from_secs(30);
    assert_eq!(compute_backoff(base, 0, true, max), Duration::from_secs(3));
    assert_eq!(compute_backoff(base, 1, true, max), Duration::from_secs(6));
    assert_eq!(compute_backoff(base, 2, true, max), Duration::from_secs(12));
    assert_eq!(compute_backoff(base, 3, true, max), Duration::from_secs(24));
    assert_eq!(compute_backoff(base, 4, true, max), Duration::from_secs(30)); // capped
                                                                              // No backoff
    assert_eq!(compute_backoff(base, 3, false, max), Duration::from_secs(3));
}

#[test]
fn test_block_to_absolute() {
    assert_eq!(block_to_absolute(1, 1), 1);
    assert_eq!(block_to_absolute(100, 50), 100);
    assert_eq!(block_to_absolute(0, 65536), 65536); // rollover: block 0 in second epoch
    assert_eq!(block_to_absolute(1, 65536), 65537);
}

#[test]
fn test_backoff_saturates_and_caps_shift() {
    let max = Duration::MAX;
    assert_eq!(compute_backoff(Duration::from_millis(1), 20, true, max), Duration::from_millis(256));
    assert_eq!(compute_backoff(Duration::MAX, 2, true, max), Duration::MAX);
}

#[test]
fn test_block_payloads_reassemble() {
    let data: Vec<u8> = (0..1030u32).map(|i| (i % 251) as u8).collect();
    let total = compute_total_blocks(data.len() as u64, 512);
    assert_eq!(total, 3);
    let mut joined = Vec::new();
    for b in 1..=total {
        let p = get_block_payload(&data, b, 512);
        if b < total {
            assert_eq!(p.len(), 512);
        } else {
            assert!(p.len() < 512);
        }
        joined.extend_from_slice(p);
    }
    assert_eq!(joined, data);
    assert!(get_block_payload(&data, 9, 512).is_empty());
}

#[test]
fn test_block_to_absolute_window_and_duplicate() {
    // duplicate ACK of the block before the base maps beyond any window
    assert_eq!(block_to_absolute(65535, 65536), 65536 + 65535);
    assert_eq!(block_to_absolute(4, 5), 65540);
}

#[test]
fn test_zero_block_size() {
    assert_eq!(compute_total_blocks(0, 0), 1);
    assert_eq!(get_block_payload(b"hello", 1, 0), &[] as &[u8]);
    assert_eq!(get_block_payload(b"hello", 7, 0), &[] as &[u8]);
}
