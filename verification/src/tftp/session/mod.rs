//! Transfer arithmetic and decisions of a TFTP session: block numbering and
//! rollover, block payloads, retransmission back-off, netascii translation and
//! option negotiation.

use std::time::Duration;
pub mod handshake;
pub mod read;
pub mod write;

use vstd::prelude::*;

use crate::tftp::config::{Config, ProtocolConfig};
use crate::tftp::protocol::packet::{options_view, OptionView, Packet, PacketView, TftpOption};
use crate::tftp::text::{
    chars_of, decimal, lemma_parse_decimal, parse_unsigned, parse_unsigned_range, str_eq,
    u64_to_string,
};
use crate::tftp::timing::{
    duration_from_secs, duration_min, duration_saturating_mul, max_duration_nanos, spec_as_nanos,
};

verus! {

/// The absolute block number that a 16-bit wire block number `block` denotes,
/// seen from `base`: the smallest number `>= base` congruent to `block` mod 65536.
pub open spec fn spec_block_to_absolute(block: u16, base: u64) -> int {
    let candidate = (base / 65536) * 65536 + block;
    if candidate < base {
        candidate + 65536
    } else {
        candidate
    }
}

/// Convert a u16 block number to an absolute block number, accounting for
/// rollover, using `base_block` as the reference epoch.
pub fn block_to_absolute(block_u16: u16, base_block: u64) -> (r: u64)
    requires
        base_block + 65536 <= u64::MAX,
    ensures
        r == spec_block_to_absolute(block_u16, base_block),
        base_block <= r < base_block + 65536,
        r % 65536 == block_u16 as int,
{
    let epoch = base_block / 65536;
    let candidate = epoch * 65536 + block_u16 as u64;
    if candidate < base_block {
        candidate + 65536
    } else {
        candidate
    }
}

/// Wire block numbers wrap at 65536 without losing track: a block sent as
/// its absolute number modulo 65536 is read back as that absolute number by
/// any receiver whose base is at most 65535 blocks behind it.
pub proof fn lemma_block_number_rollover(abs: nat, base: nat)
    requires
        base <= abs < base + 65536,
        base <= u64::MAX,
    ensures
        spec_block_to_absolute((abs % 65536) as u16, base as u64) == abs,
{
    let e = base / 65536;
    let c = e * 65536 + abs % 65536;
    assert(base == e * 65536 + base % 65536) by (nonlinear_arith)
        requires e == base / 65536;
    assert(abs == (abs / 65536) * 65536 + abs % 65536) by (nonlinear_arith);
    assert(abs / 65536 == e || abs / 65536 == e + 1) by (nonlinear_arith)
        requires
            base <= abs < base + 65536,
            e == base / 65536,
    ;
}

/// Number of DATA blocks that carry a file of `file_size` bytes: a file whose
/// size is a multiple of the block size ends with an extra empty block.
pub open spec fn spec_total_blocks(file_size: nat, blksize: nat) -> nat {
    if file_size == 0 {
        1
    } else if file_size % blksize == 0 {
        file_size / blksize + 1
    } else {
        file_size / blksize + 1
    }
}

pub fn compute_total_blocks(file_size: u64, blksize: usize) -> (r: u64)
    requires
        file_size == 0 || blksize > 0,
        blksize > 0 ==> (file_size as int) / (blksize as int) + 1 <= u64::MAX,
    ensures
        r == spec_total_blocks(file_size as nat, blksize as nat),
{
    if file_size == 0 {
        return 1;
    }
    let b = blksize as u64;
    if file_size % b == 0 {
        file_size / b + 1
    } else {
        file_size / b + 1
    }
}

/// The retransmission timeout after `attempt` failed attempts: `base` doubled
/// per attempt (at most 256 times as long), capped at `max`; `base` itself
/// without exponential back-off or on the first attempt.
pub open spec fn spec_backoff_nanos(base: nat, attempt: u32, exponential: bool, max: nat) -> nat {
    if !exponential || attempt == 0 {
        base
    } else {
        let factor: nat = vstd::arithmetic::power2::pow2(
            if attempt < 8 {
                attempt as nat
            } else {
                8
            },
        );
        let scaled = if base * factor <= max_duration_nanos() {
            base * factor
        } else {
            max_duration_nanos()
        };
        if scaled <= max {
            scaled
        } else {
            max
        }
    }
}

pub fn compute_backoff(base: Duration, attempt: u32, exponential: bool, max: Duration) -> (r:
    Duration)
    ensures
        !exponential || attempt == 0 ==> r == base,
        spec_as_nanos(r) as nat == spec_backoff_nanos(
            spec_as_nanos(base) as nat,
            attempt,
            exponential,
            spec_as_nanos(max) as nat,
        ),
{
    if !exponential || attempt == 0 {
        return base;
    }
    let shift: u32 = if attempt < 8 {
        attempt
    } else {
        8
    };
    let factor: u64 = 1u64 << shift;
    proof {
        vstd::arithmetic::power2::lemma2_to64();
        assert(factor == vstd::arithmetic::power2::pow2(shift as nat)) by {
            vstd::bits::lemma_u64_shl_is_mul(1, shift as u64);
        }
    }
    let backoff = duration_saturating_mul(base, factor as u32);
    duration_min(backoff, max)
}


/// Byte offset in the file at which block `block` (counted from 1) starts.
pub open spec fn block_offset(block: nat, blksize: nat) -> int {
    (block - 1) * blksize
}

/// The payload of DATA block `block` (counted from 1): up to `blksize` bytes
/// from the block's offset, empty once the file is exhausted.
pub open spec fn spec_block_payload(data: Seq<u8>, block: nat, blksize: nat) -> Seq<u8> {
    let off = block_offset(block, blksize);
    if off < data.len() {
        data.subrange(
            off,
            if off + blksize < data.len() {
                off + blksize
            } else {
                data.len() as int
            },
        )
    } else {
        Seq::empty()
    }
}

pub fn get_block_payload(file_data: &[u8], block: u64, blksize: usize) -> (r: &[u8])
    requires
        block >= 1,
        (block - 1) * blksize + blksize <= usize::MAX,
    ensures
        r@ == spec_block_payload(file_data@, block as nat, blksize as nat),
{
    if blksize == 0 {
        assert(spec_block_payload(file_data@, block as nat, 0) =~= Seq::<u8>::empty());
        return &file_data[0..0];
    }
    proof {
        assert(0 <= (block - 1) * blksize && block - 1 <= (block - 1) * blksize) by (nonlinear_arith)
            requires block >= 1, blksize >= 1;
    }
    let offset = ((block - 1) as usize) * blksize;
    let end = if offset + blksize < file_data.len() {
        offset + blksize
    } else {
        file_data.len()
    };
    if offset < file_data.len() {
        &file_data[offset..end]
    } else {
        &file_data[0..0]
    }
}

/// The wire form of DATA block `block` carrying `payload`.
pub open spec fn data_packet_bytes(block: u16, payload: Seq<u8>) -> Seq<u8> {
    seq![0u8, 3u8, (block / 256) as u8, (block % 256) as u8] + payload
}

/// Serialize a DATA packet directly into `buf`, returning the bytes written.
pub fn serialize_data_packet<'a>(buf: &'a mut Vec<u8>, block: u16, payload: &[u8]) -> (r: &'a [u8])
    ensures
        r@ == data_packet_bytes(block, payload@),
{
    buf.clear();
    buf.push(0u8);
    buf.push(3u8);
    buf.push((block / 256) as u8);
    buf.push((block % 256) as u8);
    let mut i: usize = 0;
    while i < payload.len()
        invariant
            i <= payload@.len(),
            buf@ == seq![0u8, 3u8, (block / 256) as u8, (block % 256) as u8] + payload@.take(i as int),
        decreases payload.len() - i,
    {
        buf.push(payload[i]);
        assert(payload@.take(i + 1) =~= payload@.take(i as int).push(payload@[i as int]));
        i = i + 1;
    }
    assert(payload@.take(payload@.len() as int) =~= payload@);
    buf.as_slice()
}

/// Blocks `1..=n` of a transfer, concatenated.
pub open spec fn blocks_concat(data: Seq<u8>, blksize: nat, n: nat) -> Seq<u8>
    decreases n,
{
    if n == 0 {
        Seq::empty()
    } else {
        blocks_concat(data, blksize, (n - 1) as nat) + spec_block_payload(data, n, blksize)
    }
}

proof fn lemma_blocks_concat_prefix(data: Seq<u8>, blksize: nat, n: nat)
    requires
        blksize > 0,
    ensures
        blocks_concat(data, blksize, n) == data.take(
            if n * blksize < data.len() {
                (n * blksize) as int
            } else {
                data.len() as int
            },
        ),
    decreases n,
{
    if n == 0 {
        assert(0 * blksize == 0);
        assert(data.take(0) =~= Seq::<u8>::empty());
    } else {
        lemma_blocks_concat_prefix(data, blksize, (n - 1) as nat);
        let m = (n - 1) as nat;
        assert(m * blksize + blksize == n * blksize) by (nonlinear_arith)
            requires m == n - 1;
        assert(0 <= m * blksize) by (nonlinear_arith);
        let off = block_offset(n, blksize);
        assert(off == m * blksize);
        let prev_end = if m * blksize < data.len() {
            (m * blksize) as int
        } else {
            data.len() as int
        };
        let end = if n * blksize < data.len() {
            (n * blksize) as int
        } else {
            data.len() as int
        };
        assert(blocks_concat(data, blksize, m) == data.take(prev_end));
        if off < data.len() {
            assert(prev_end == off);
            assert(data.take(off) + data.subrange(off, end) =~= data.take(end));
        } else {
            assert(prev_end == data.len());
            assert(end == data.len());
            assert(spec_block_payload(data, n, blksize) =~= Seq::<u8>::empty());
            assert(data.take(prev_end) + Seq::<u8>::empty() =~= data.take(end));
        }
    }
}

/// The blocks of a transfer reassemble the file: blocks `1..=total` in order
/// are exactly the file's bytes, every block before the last carries a full
/// `blksize` bytes, and the last block carries fewer (possibly none), which is
/// how the receiver recognises the end.
pub proof fn lemma_blocks_reassemble_file(data: Seq<u8>, blksize: nat)
    requires
        blksize > 0,
    ensures
        blocks_concat(data, blksize, spec_total_blocks(data.len(), blksize)) == data,
        spec_block_payload(data, spec_total_blocks(data.len(), blksize), blksize).len() < blksize,
        forall|k: nat|
            1 <= k < spec_total_blocks(data.len(), blksize) ==> #[trigger] spec_block_payload(
                data,
                k,
                blksize,
            ).len() == blksize,
{
    let len = data.len();
    let total = spec_total_blocks(len, blksize);
    lemma_blocks_concat_prefix(data, blksize, total);
    vstd::arithmetic::div_mod::lemma_fundamental_div_mod(len as int, blksize as int);
    let q = len / blksize;
    let r = len % blksize;
    assert(len == blksize * q + r);
    if len > 0 {
        assert(total == q + 1);
        assert((q + 1) * blksize == q * blksize + blksize) by (nonlinear_arith);
        assert(q * blksize == blksize * q) by (nonlinear_arith);
    }
    assert(total * blksize >= len) by (nonlinear_arith)
        requires
            len > 0 ==> total * blksize == blksize * q + blksize,
            len == blksize * q + r,
            r < blksize,
            total >= 1,
            blksize > 0;
    assert(data.take(len as int) =~= data);
    assert(block_offset(total, blksize) == blksize * q) by (nonlinear_arith)
        requires
            len > 0 ==> total == q + 1,
            len == 0 ==> total == 1 && q == 0;
    assert forall|k: nat| 1 <= k < total implies #[trigger] spec_block_payload(
        data,
        k,
        blksize,
    ).len() == blksize by {
        assert(k * blksize <= q * blksize) by (nonlinear_arith)
            requires k <= q, blksize > 0;
        assert((k - 1) * blksize + blksize == k * blksize) by (nonlinear_arith);
        assert(0 <= (k - 1) * blksize) by (nonlinear_arith)
            requires k >= 1;
        assert(q * blksize == blksize * q) by (nonlinear_arith);
    }
}


// ─── Netascii ──────────────────────────────────────────────────────────────

/// Netascii encoding: LF → CR LF, CR LF kept, bare CR → CR NUL.
pub open spec fn spec_encode_netascii(d: Seq<u8>) -> Seq<u8>
    decreases d.len(),
{
    if d.len() == 0 {
        Seq::empty()
    } else if d[0] == 0x0a {
        seq![0x0du8, 0x0au8] + spec_encode_netascii(d.drop_first())
    } else if d[0] == 0x0d {
        if d.len() > 1 && d[1] == 0x0a {
            seq![0x0du8, 0x0au8] + spec_encode_netascii(d.skip(2))
        } else {
            seq![0x0du8, 0x00u8] + spec_encode_netascii(d.drop_first())
        }
    } else {
        seq![d[0]] + spec_encode_netascii(d.drop_first())
    }
}

/// Netascii decoding: CR LF → LF, CR NUL → CR, everything else kept.
pub open spec fn spec_decode_netascii(d: Seq<u8>) -> Seq<u8>
    decreases d.len(),
{
    if d.len() == 0 {
        Seq::empty()
    } else if d[0] == 0x0d && d.len() > 1 && d[1] == 0x0a {
        seq![0x0au8] + spec_decode_netascii(d.skip(2))
    } else if d[0] == 0x0d && d.len() > 1 && d[1] == 0x00 {
        seq![0x0du8] + spec_decode_netascii(d.skip(2))
    } else {
        seq![d[0]] + spec_decode_netascii(d.drop_first())
    }
}

/// Netascii encoding: LF → CR+LF, bare CR → CR+NUL
pub fn encode_netascii(data: &[u8]) -> (r: Vec<u8>)
    ensures
        r@ == spec_encode_netascii(data@),
{
    let mut out: Vec<u8> = Vec::with_capacity(data.len().saturating_add(data.len() / 10));
    let mut i: usize = 0;
    assert(data@.skip(0) =~= data@);
    assert(out@ + spec_encode_netascii(data@) =~= spec_encode_netascii(data@));
    while i < data.len()
        invariant
            i <= data@.len(),
            spec_encode_netascii(data@) == out@ + spec_encode_netascii(data@.skip(i as int)),
        decreases data.len() - i,
    {
        let ghost rest = data@.skip(i as int);
        assert(rest.drop_first() =~= data@.skip(i + 1));
        if data[i] == 0x0a {
            out.push(0x0d);
            out.push(0x0a);
            assert(spec_encode_netascii(data@) =~= out@ + spec_encode_netascii(data@.skip(i + 1)));
        } else if data[i] == 0x0d {
            out.push(0x0d);
            if i + 1 < data.len() && data[i + 1] == 0x0a {
                out.push(0x0a);
                assert(rest.skip(2) =~= data@.skip(i + 2));
                assert(spec_encode_netascii(data@) =~= out@ + spec_encode_netascii(data@.skip(i + 2)));
                i = i + 1;
            } else {
                out.push(0x00);
                assert(spec_encode_netascii(data@) =~= out@ + spec_encode_netascii(data@.skip(i + 1)));
            }
        } else {
            out.push(data[i]);
            assert(spec_encode_netascii(data@) =~= out@ + spec_encode_netascii(data@.skip(i + 1)));
        }
        i = i + 1;
    }
    assert(data@.skip(i as int) =~= Seq::<u8>::empty());
    assert(out@ + Seq::<u8>::empty() =~= out@);
    out
}

/// Netascii decoding: CR+LF → LF, CR+NUL → CR
pub fn decode_netascii(data: &[u8]) -> (r: Vec<u8>)
    ensures
        r@ == spec_decode_netascii(data@),
{
    let mut out: Vec<u8> = Vec::with_capacity(data.len());
    let mut i: usize = 0;
    assert(data@.skip(0) =~= data@);
    assert(out@ + spec_decode_netascii(data@) =~= spec_decode_netascii(data@));
    while i < data.len()
        invariant
            i <= data@.len(),
            spec_decode_netascii(data@) == out@ + spec_decode_netascii(data@.skip(i as int)),
        decreases data.len() - i,
    {
        let ghost rest = data@.skip(i as int);
        assert(rest.drop_first() =~= data@.skip(i + 1));
        if data[i] == 0x0d && i + 1 < data.len() {
            if data[i + 1] == 0x0a {
                out.push(0x0a);
                assert(rest.skip(2) =~= data@.skip(i + 2));
                assert(spec_decode_netascii(data@) =~= out@ + spec_decode_netascii(data@.skip(i + 2)));
                i = i + 2;
                continue;
            }
            if data[i + 1] == 0 {
                out.push(0x0d);
                assert(rest.skip(2) =~= data@.skip(i + 2));
                assert(spec_decode_netascii(data@) =~= out@ + spec_decode_netascii(data@.skip(i + 2)));
                i = i + 2;
                continue;
            }
        }
        out.push(data[i]);
        assert(spec_decode_netascii(data@) =~= out@ + spec_decode_netascii(data@.skip(i + 1)));
        i = i + 1;
    }
    assert(data@.skip(i as int) =~= Seq::<u8>::empty());
    assert(out@ + Seq::<u8>::empty() =~= out@);
    out
}

/// Whether `d` holds a CR immediately followed by LF.
pub open spec fn has_crlf(d: Seq<u8>) -> bool {
    exists|i: int| #[trigger] crlf_at(d, i)
}

pub open spec fn crlf_at(d: Seq<u8>, i: int) -> bool {
    0 <= i && i + 1 < d.len() && d[i] == 0x0d && d[i + 1] == 0x0a
}

/// Encoding works piece by piece: text that does not end in a CR encodes
/// the same whatever follows it.
pub proof fn lemma_encode_netascii_concat(p: Seq<u8>, q: Seq<u8>)
    requires
        p.len() == 0 || p.last() != 0x0d,
    ensures
        spec_encode_netascii(p + q) == spec_encode_netascii(p) + spec_encode_netascii(q),
    decreases p.len(),
{
    if p.len() == 0 {
        assert(p + q =~= q);
        assert(spec_encode_netascii(p) + spec_encode_netascii(q) =~= spec_encode_netascii(q));
    } else {
        let pq = p + q;
        assert(pq[0] == p[0]);
        if p[0] == 0x0d {
            assert(p.len() > 1);
            assert(pq[1] == p[1]);
            if p[1] == 0x0a {
                let rest = p.skip(2);
                assert(pq.skip(2) =~= rest + q);
                if rest.len() > 0 {
                    assert(rest.last() == p.last());
                }
                lemma_encode_netascii_concat(rest, q);
                assert(spec_encode_netascii(pq) =~= spec_encode_netascii(p) + spec_encode_netascii(q));
                return;
            }
        }
        let rest = p.drop_first();
        assert(pq.drop_first() =~= rest + q);
        if rest.len() > 0 {
            assert(rest.last() == p.last());
        }
        lemma_encode_netascii_concat(rest, q);
        assert(spec_encode_netascii(pq) =~= spec_encode_netascii(p) + spec_encode_netascii(q));
    }
}

/// What each kind of byte becomes at the end of text that does not end in
/// a CR: a CR LF pair stays CR LF, a lone LF becomes CR LF, a lone CR
/// becomes CR NUL, and any other byte stays as it is.
pub proof fn lemma_encode_netascii_append(p: Seq<u8>, x: u8)
    requires
        p.len() == 0 || p.last() != 0x0d,
    ensures
        spec_encode_netascii(p + seq![0x0du8, 0x0au8]) == spec_encode_netascii(p) + seq![
            0x0du8,
            0x0au8,
        ],
        spec_encode_netascii(p + seq![0x0au8]) == spec_encode_netascii(p) + seq![0x0du8, 0x0au8],
        spec_encode_netascii(p + seq![0x0du8]) == spec_encode_netascii(p) + seq![0x0du8, 0x00u8],
        x != 0x0d && x != 0x0a ==> spec_encode_netascii(p + seq![x]) == spec_encode_netascii(p)
            + seq![x],
{
    lemma_encode_netascii_concat(p, seq![0x0du8, 0x0au8]);
    lemma_encode_netascii_concat(p, seq![0x0au8]);
    lemma_encode_netascii_concat(p, seq![0x0du8]);
    lemma_encode_netascii_concat(p, seq![x]);
    let e = Seq::<u8>::empty();
    assert(seq![0x0du8, 0x0au8].skip(2) =~= e);
    assert(seq![0x0au8].drop_first() =~= e);
    assert(seq![0x0du8].drop_first() =~= e);
    assert(seq![x].drop_first() =~= e);
    let crlf = seq![0x0du8, 0x0au8];
    assert(crlf.len() == 2 && crlf[0] == 0x0d && crlf[1] == 0x0a);
    assert(spec_encode_netascii(crlf.skip(2)) == e);
    assert(spec_encode_netascii(crlf) =~= seq![0x0du8, 0x0au8] + e);
    assert(spec_encode_netascii(seq![0x0au8]) =~= seq![0x0du8, 0x0au8]);
    assert(spec_encode_netascii(seq![0x0du8]) =~= seq![0x0du8, 0x00u8]);
    if x != 0x0d && x != 0x0a {
        assert(spec_encode_netascii(seq![x]) =~= seq![x]);
    }
}

/// Decoding undoes encoding for native text, that is text without a CR LF
/// pair (CR LF is already the wire form of a line end and encodes to itself,
/// so it decodes to a bare LF).
pub proof fn lemma_netascii_roundtrip(d: Seq<u8>)
    requires
        !has_crlf(d),
    ensures
        spec_decode_netascii(spec_encode_netascii(d)) == d,
    decreases d.len(),
{
    if d.len() > 0 {
        let rest = d.drop_first();
        assert(!has_crlf(rest)) by {
            if has_crlf(rest) {
                let i = choose|i: int| #[trigger] crlf_at(rest, i);
                assert(crlf_at(d, i + 1));
            }
        }
        lemma_netascii_roundtrip(rest);
        let e = spec_encode_netascii(rest);
        if d[0] == 0x0a {
            assert((seq![0x0du8, 0x0au8] + e).skip(2) =~= e);
        } else if d[0] == 0x0d {
            assert(!(d.len() > 1 && d[1] == 0x0a)) by {
                if d.len() > 1 && d[1] == 0x0a {
                    assert(crlf_at(d, 0));
                }
            }
            assert((seq![0x0du8, 0x00u8] + e).skip(2) =~= e);
        } else {
            assert((seq![d[0]] + e).drop_first() =~= e);
        }
        assert(seq![d[0]] + rest =~= d);
    }
}

/// Encoding never shrinks data.
pub proof fn lemma_encode_netascii_len(d: Seq<u8>)
    ensures
        spec_encode_netascii(d).len() >= d.len(),
    decreases d.len(),
{
    if d.len() > 0 {
        lemma_encode_netascii_len(d.drop_first());
        if d[0] == 0x0d && d.len() > 1 && d[1] == 0x0a {
            lemma_encode_netascii_len(d.skip(2));
        }
    }
}


// ─── Option negotiation (RFC 2347/2348/2349/7440) ──────────────────────────

/// Negotiated session parameters
pub struct NegotiatedParams {
    pub blksize: u16,
    pub windowsize: u16,
    pub timeout: Duration,
    pub tsize: Option<u64>,
    pub has_options: bool,
}

/// Negotiation state as plain values (the timeout in seconds).
pub struct NegotiationState {
    pub blksize: u16,
    pub windowsize: u16,
    pub timeout_secs: u8,
    pub tsize: Option<u64>,
    pub has_options: bool,
}

pub open spec fn clamp(v: int, lo: int, hi: int) -> int {
    let raised = if v >= lo {
        v
    } else {
        lo
    };
    if raised <= hi {
        raised
    } else {
        hi
    }
}

/// Before any option: the configured defaults.
pub open spec fn negotiation_start(p: ProtocolConfig) -> NegotiationState {
    NegotiationState {
        blksize: p.default_blksize,
        windowsize: p.default_windowsize,
        timeout_secs: p.default_timeout,
        tsize: None,
        has_options: false,
    }
}

/// The effect of one client option: a recognised option with a value that
/// parses is clamped to the configured bounds; `tsize` reports the file size
/// when it is known; anything else leaves the state as it was.
pub open spec fn negotiation_step(
    p: ProtocolConfig,
    st: NegotiationState,
    o: OptionView,
    file_size: Option<u64>,
) -> NegotiationState {
    if o.name == "blksize"@ {
        match parse_unsigned(o.value, u16::MAX as nat) {
            Some(v) => NegotiationState {
                blksize: clamp(v as int, 8, p.max_blksize as int) as u16,
                has_options: true,
                ..st
            },
            None => st,
        }
    } else if o.name == "windowsize"@ {
        match parse_unsigned(o.value, u16::MAX as nat) {
            Some(v) => NegotiationState {
                windowsize: clamp(v as int, 1, p.max_windowsize as int) as u16,
                has_options: true,
                ..st
            },
            None => st,
        }
    } else if o.name == "timeout"@ {
        match parse_unsigned(o.value, u8::MAX as nat) {
            Some(v) => NegotiationState {
                timeout_secs: clamp(v as int, p.min_timeout as int, p.max_timeout as int) as u8,
                has_options: true,
                ..st
            },
            None => st,
        }
    } else if o.name == "tsize"@ {
        match file_size {
            Some(size) => NegotiationState { tsize: Some(size), has_options: true, ..st },
            None => st,
        }
    } else {
        st
    }
}

/// The options applied in order, later ones overriding earlier ones.
pub open spec fn spec_negotiate(
    p: ProtocolConfig,
    opts: Seq<OptionView>,
    file_size: Option<u64>,
) -> NegotiationState {
    opts.fold_left(
        negotiation_start(p),
        |st: NegotiationState, o: OptionView| negotiation_step(p, st, o, file_size),
    )
}

fn clamp_u64(v: u64, lo: u64, hi: u64) -> (r: u64)
    ensures
        r == clamp(v as int, lo as int, hi as int),
{
    let raised = if v >= lo {
        v
    } else {
        lo
    };
    if raised <= hi {
        raised
    } else {
        hi
    }
}

/// Settle block size, window size, timeout and transfer size from the
/// client's options and the configured bounds.
pub fn negotiate_options(
    config: &Config,
    client_options: &[TftpOption],
    file_size: Option<u64>,
) -> (r: NegotiatedParams)
    ensures
        ({
            let st = spec_negotiate(config.protocol, options_view(client_options@), file_size);
            &&& r.blksize == st.blksize
            &&& r.windowsize == st.windowsize
            &&& spec_as_nanos(r.timeout) as int == st.timeout_secs * 1000000000
            &&& r.tsize == st.tsize
            &&& r.has_options == st.has_options
        }),
{
    let p = &config.protocol;
    let ghost ov = options_view(client_options@);
    let ghost step = |st: NegotiationState, o: OptionView| negotiation_step(config.protocol, st, o, file_size);
    let mut blksize = p.default_blksize;
    let mut windowsize = p.default_windowsize;
    let mut timeout_secs = p.default_timeout;
    let mut tsize: Option<u64> = None;
    let mut has_options = false;
    let mut i: usize = 0;
    assert(ov.take(0) =~= Seq::<OptionView>::empty());
    while i < client_options.len()
        invariant
            i <= client_options@.len(),
            p == &config.protocol,
            ov == options_view(client_options@),
            step == (|st: NegotiationState, o: OptionView| negotiation_step(config.protocol, st, o, file_size)),
            ov.take(i as int).fold_left(negotiation_start(config.protocol), step) == (NegotiationState {
                blksize,
                windowsize,
                timeout_secs,
                tsize,
                has_options,
            }),
        decreases client_options.len() - i,
    {
        let opt = &client_options[i];
        assert(ov.take(i + 1).drop_last() =~= ov.take(i as int));
        assert(ov.take(i + 1).last() == opt@);
        let name = opt.name.as_str();
        if str_eq(name, "blksize") {
            let v = chars_of(opt.value.as_str());
            if let Some(req) = parse_unsigned_range(&v, 0, v.len(), 65535) {
                assert(v@.subrange(0, v@.len() as int) =~= v@);
                blksize = clamp_u64(req, 8, p.max_blksize as u64) as u16;
                has_options = true;
            } else {
                assert(v@.subrange(0, v@.len() as int) =~= v@);
            }
        } else if str_eq(name, "windowsize") {
            let v = chars_of(opt.value.as_str());
            if let Some(req) = parse_unsigned_range(&v, 0, v.len(), 65535) {
                assert(v@.subrange(0, v@.len() as int) =~= v@);
                windowsize = clamp_u64(req, 1, p.max_windowsize as u64) as u16;
                has_options = true;
            } else {
                assert(v@.subrange(0, v@.len() as int) =~= v@);
            }
        } else if str_eq(name, "timeout") {
            let v = chars_of(opt.value.as_str());
            if let Some(req) = parse_unsigned_range(&v, 0, v.len(), 255) {
                assert(v@.subrange(0, v@.len() as int) =~= v@);
                timeout_secs = clamp_u64(req, p.min_timeout as u64, p.max_timeout as u64) as u8;
                has_options = true;
            } else {
                assert(v@.subrange(0, v@.len() as int) =~= v@);
            }
        } else if str_eq(name, "tsize") {
            if let Some(size) = file_size {
                tsize = Some(size);
                has_options = true;
            }
        }
        i = i + 1;
    }
    assert(ov.take(client_options@.len() as int) =~= ov);
    NegotiatedParams {
        blksize,
        windowsize,
        timeout: duration_from_secs(timeout_secs as u64),
        tsize,
        has_options,
    }
}

/// The options an OACK announces: block size and window size when they differ
/// from the RFC 1350 defaults (512 and 1), and the transfer size when known.
pub open spec fn spec_oack_options(blksize: u16, windowsize: u16, tsize: Option<u64>) -> Seq<
    OptionView,
> {
    (if blksize != 512 {
        seq![OptionView { name: "blksize"@, value: decimal(blksize as nat) }]
    } else {
        Seq::empty()
    }) + (if windowsize != 1 {
        seq![OptionView { name: "windowsize"@, value: decimal(windowsize as nat) }]
    } else {
        Seq::empty()
    }) + (match tsize {
        Some(t) => seq![OptionView { name: "tsize"@, value: decimal(t as nat) }],
        None => Seq::empty(),
    })
}

/// The values an OACK announces read back as the negotiated numbers: the
/// receiver parses each option value to the block size, window size or
/// transfer size that was settled, and no option appears twice.
pub proof fn lemma_oack_values_read_back(blksize: u16, windowsize: u16, tsize: Option<u64>)
    ensures
        forall|i: int|
            0 <= i < spec_oack_options(blksize, windowsize, tsize).len() ==> {
                let o = #[trigger] spec_oack_options(blksize, windowsize, tsize)[i];
                &&& o.name == "blksize"@ ==> parse_unsigned(o.value, u16::MAX as nat) == Some(
                    blksize as nat,
                )
                &&& o.name == "windowsize"@ ==> parse_unsigned(o.value, u16::MAX as nat) == Some(
                    windowsize as nat,
                )
                &&& o.name == "tsize"@ ==> (tsize matches Some(t) && parse_unsigned(
                    o.value,
                    u64::MAX as nat,
                ) == Some(t as nat))
            },
        forall|i: int, j: int|
            0 <= i < j < spec_oack_options(blksize, windowsize, tsize).len() ==> (
            #[trigger] spec_oack_options(blksize, windowsize, tsize)[i]).name
                != (#[trigger] spec_oack_options(blksize, windowsize, tsize)[j]).name,
{
    reveal_strlit("blksize");
    reveal_strlit("windowsize");
    reveal_strlit("tsize");
    assert("blksize"@.len() == 7 && "windowsize"@.len() == 10 && "tsize"@.len() == 5);
    assert("blksize"@ != "windowsize"@ && "blksize"@ != "tsize"@ && "windowsize"@ != "tsize"@);
    lemma_parse_decimal(blksize as nat, u16::MAX as nat);
    lemma_parse_decimal(windowsize as nat, u16::MAX as nat);
    if let Some(t) = tsize {
        lemma_parse_decimal(t as nat, u64::MAX as nat);
    }
    let a: Seq<OptionView> = if blksize != 512 {
        seq![OptionView { name: "blksize"@, value: decimal(blksize as nat) }]
    } else {
        Seq::empty()
    };
    let b: Seq<OptionView> = if windowsize != 1 {
        seq![OptionView { name: "windowsize"@, value: decimal(windowsize as nat) }]
    } else {
        Seq::empty()
    };
    let c: Seq<OptionView> = match tsize {
        Some(t) => seq![OptionView { name: "tsize"@, value: decimal(t as nat) }],
        None => Seq::empty(),
    };
    let all = spec_oack_options(blksize, windowsize, tsize);
    assert(all == a + b + c);
    assert forall|i: int| 0 <= i < all.len() implies (#[trigger] all[i]).name == "blksize"@ || all[i].name
        == "windowsize"@ || all[i].name == "tsize"@ by {
        if i < a.len() {
            assert(all[i] == a[i]);
        } else if i < a.len() + b.len() {
            assert(all[i] == b[i - a.len()]);
        } else {
            assert(all[i] == c[i - a.len() - b.len()]);
        }
    }
    assert forall|i: int| 0 <= i < all.len() implies {
        let o = #[trigger] all[i];
        &&& (o.name == "blksize"@ ==> o == a[0] && a.len() == 1)
        &&& (o.name == "windowsize"@ ==> o == b[0] && b.len() == 1)
        &&& (o.name == "tsize"@ ==> o == c[0] && c.len() == 1)
    } by {
        if i < a.len() {
            assert(all[i] == a[i]);
        } else if i < a.len() + b.len() {
            assert(all[i] == b[i - a.len()]);
        } else {
            assert(all[i] == c[i - a.len() - b.len()]);
        }
    }
    assert forall|i: int, j: int| 0 <= i < j < all.len() implies (#[trigger] all[i]).name != (
    #[trigger] all[j]).name by {
        let pi: int = if i < a.len() { 0 } else if i < a.len() + b.len() { 1 } else { 2 };
        let pj: int = if j < a.len() { 0 } else if j < a.len() + b.len() { 1 } else { 2 };
        assert(pi < pj);
        if i < a.len() {
            assert(all[i] == a[i]);
        } else if i < a.len() + b.len() {
            assert(all[i] == b[i - a.len()]);
        } else {
            assert(all[i] == c[i - a.len() - b.len()]);
        }
        if j < a.len() {
            assert(all[j] == a[j]);
        } else if j < a.len() + b.len() {
            assert(all[j] == b[j - a.len()]);
        } else {
            assert(all[j] == c[j - a.len() - b.len()]);
        }
    }
}

/// An OACK announces the block size exactly when it is not the default 512,
/// the window size exactly when it is not the default 1, and the transfer
/// size exactly when it is known, each with its negotiated value, each
/// independently of the others.
pub proof fn lemma_oack_announces(blksize: u16, windowsize: u16, tsize: Option<u64>)
    ensures
        ({
            let o = spec_oack_options(blksize, windowsize, tsize);
            &&& (exists|i: int| 0 <= i < o.len() && (#[trigger] o[i]).name == "blksize"@) <==> blksize
                != 512
            &&& (exists|i: int| 0 <= i < o.len() && (#[trigger] o[i]).name == "windowsize"@)
                <==> windowsize != 1
            &&& (exists|i: int| 0 <= i < o.len() && (#[trigger] o[i]).name == "tsize"@) <==> tsize
                is Some
            &&& forall|i: int|
                0 <= i < o.len() ==> {
                    let x = #[trigger] o[i];
                    &&& x.name == "blksize"@ ==> x.value == decimal(blksize as nat)
                    &&& x.name == "windowsize"@ ==> x.value == decimal(windowsize as nat)
                    &&& x.name == "tsize"@ ==> tsize is Some && x.value == decimal(tsize->0 as nat)
                }
        }),
{
    reveal_strlit("blksize");
    reveal_strlit("windowsize");
    reveal_strlit("tsize");
    assert("blksize"@.len() == 7 && "windowsize"@.len() == 10 && "tsize"@.len() == 5);
    assert("blksize"@ != "windowsize"@ && "blksize"@ != "tsize"@ && "windowsize"@ != "tsize"@);
    let a: Seq<OptionView> = if blksize != 512 {
        seq![OptionView { name: "blksize"@, value: decimal(blksize as nat) }]
    } else {
        Seq::empty()
    };
    let b: Seq<OptionView> = if windowsize != 1 {
        seq![OptionView { name: "windowsize"@, value: decimal(windowsize as nat) }]
    } else {
        Seq::empty()
    };
    let c: Seq<OptionView> = match tsize {
        Some(t) => seq![OptionView { name: "tsize"@, value: decimal(t as nat) }],
        None => Seq::empty(),
    };
    let o = spec_oack_options(blksize, windowsize, tsize);
    assert(o == a + b + c);
    assert forall|i: int| 0 <= i < o.len() implies {
        let x = #[trigger] o[i];
        &&& (x.name == "blksize"@ ==> blksize != 512 && x.value == decimal(blksize as nat))
        &&& (x.name == "windowsize"@ ==> windowsize != 1 && x.value == decimal(windowsize as nat))
        &&& (x.name == "tsize"@ ==> tsize is Some && x.value == decimal(tsize->0 as nat))
    } by {
        if i < a.len() {
            assert(o[i] == a[i]);
        } else if i < a.len() + b.len() {
            assert(o[i] == b[i - a.len()]);
        } else {
            assert(o[i] == c[i - a.len() - b.len()]);
        }
    }
    if blksize != 512 {
        assert(o[0] == a[0]);
    }
    if windowsize != 1 {
        assert(o[a.len() as int] == b[0]);
    }
    if tsize is Some {
        assert(o[(a.len() + b.len()) as int] == c[0]);
    }
}

pub fn build_oack(params: &NegotiatedParams) -> (r: Packet)
    ensures
        r@ == (PacketView::Oack {
            options: spec_oack_options(params.blksize, params.windowsize, params.tsize),
        }),
{
    let mut options: Vec<TftpOption> = Vec::new();
    if params.blksize != 512 {
        options.push(
            TftpOption { name: "blksize".to_string(), value: u64_to_string(params.blksize as u64) },
        );
    }
    if params.windowsize != 1 {
        options.push(
            TftpOption {
                name: "windowsize".to_string(),
                value: u64_to_string(params.windowsize as u64),
            },
        );
    }
    if let Some(tsize) = params.tsize {
        options.push(TftpOption { name: "tsize".to_string(), value: u64_to_string(tsize) });
    }
    let ghost expected = spec_oack_options(params.blksize, params.windowsize, params.tsize);
    assert(options_view(options@) =~= expected);
    Packet::Oack { options }
}

} // verus!
