//! The receiver side of a transfer (a write request): which DATA blocks are
//! taken, how out-of-order blocks of a window are held back and joined, what
//! to acknowledge, and when the upload is complete, too large, or abandoned.

use std::collections::BTreeMap;
use vstd::prelude::*;

use crate::tftp::protocol::packet::{options_view, ErrorCode, OptionView, TftpOption};
use crate::tftp::session::{block_to_absolute, spec_block_to_absolute};
use crate::tftp::text::{decimal, parse_uint, parse_unsigned, str_eq, u64_to_string};

verus! {

broadcast use vstd::std_specs::btree::group_btree_axioms, vstd::string::group_string_axioms;

/// Block numbers from which a transfer is not continued (the counters stay
/// far from overflow).
pub const BLOCK_LIMIT: u64 = 0xffff_ffff_fffc_0000;

/// `s[0] + s[1] + ...`
pub open spec fn flatten(s: Seq<Seq<u8>>) -> Seq<u8>
    decreases s.len(),
{
    if s.len() == 0 {
        Seq::empty()
    } else {
        flatten(s.drop_last()) + s.last()
    }
}

/// What an arriving DATA block did.
#[derive(Debug, Clone, Copy, PartialEq, Eq, Structural)]
pub enum DataOutcome {
    /// Outside the window (a duplicate or a block too far ahead): nothing changed.
    Ignored,
    /// Taken; the window is still open.
    Accepted,
    /// Taken, and the received data now exceed the size limit: abort.
    TooLarge,
    /// The last (short) block arrived and nothing is missing: acknowledge
    /// `ack` and store the data.
    Finished { ack: u16 },
    /// Every block of the window arrived: acknowledge `ack`; a new window is open.
    WindowDone { ack: u16 },
    /// The block counter reached `BLOCK_LIMIT`: abort.
    Exhausted,
}

/// What a timeout did.
#[derive(Debug, Clone, Copy, PartialEq, Eq, Structural)]
pub enum TimeoutOutcome {
    GiveUp,
    /// Acknowledge the last block received in order, if any, to make the
    /// sender retransmit.
    Resend(Option<u16>),
}

/// The state of an upload.
pub struct WriteTransfer {
    pub blksize: u64,
    pub windowsize: u64,
    pub max_file_bytes: u64,
    pub max_retries: u32,
    /// Next block to append.
    pub expected_block: u64,
    /// Last block of the current window.
    pub window_end: u64,
    pub retries: u32,
    pub bytes_received: u64,
    /// The data of blocks `1..expected_block`, in order.
    pub received: Vec<u8>,
    /// Blocks of the window that arrived ahead of a missing one.
    pub pending: BTreeMap<u64, Vec<u8>>,
    /// The payload of each appended block, in order.
    pub accepted: Ghost<Seq<Seq<u8>>>,
}

/// The wire number of absolute block `n`.
pub open spec fn wire_block(n: int) -> u16 {
    (n % 65536) as u16
}

impl WriteTransfer {
    pub open spec fn wf(&self) -> bool {
        &&& self.windowsize <= u16::MAX
        &&& 1 <= self.expected_block
        &&& self.expected_block <= self.window_end + 1
        &&& self.window_end < self.expected_block + self.windowsize
        &&& self.window_end <= BLOCK_LIMIT + 2 * 65536
        &&& self.retries <= self.max_retries
        &&& self.accepted@.len() == self.expected_block - 1
        &&& self.received@ == flatten(self.accepted@)
        &&& self.bytes_received == self.received@.len()
        &&& forall|k: u64| #[trigger]
            self.pending@.contains_key(k) ==> self.expected_block < k <= self.window_end
    }

    /// An upload in blocks of `blksize` with windows of `windowsize` blocks,
    /// limited to `max_file_bytes`, abandoned after `max_retries` timeouts.
    pub fn new(blksize: u16, windowsize: u16, max_file_bytes: u64, max_retries: u32) -> (r: Self)
        ensures
            r.wf(),
            r.blksize == blksize,
            r.windowsize == windowsize,
            r.max_file_bytes == max_file_bytes,
            r.max_retries == max_retries,
            r.expected_block == 1,
            r.window_end == windowsize as int,
            r.received@.len() == 0,
            r.pending@.is_empty(),
    {
        let r = WriteTransfer {
            blksize: blksize as u64,
            windowsize: windowsize as u64,
            max_file_bytes,
            max_retries,
            expected_block: 1,
            window_end: windowsize as u64,
            retries: 0,
            bytes_received: 0,
            received: Vec::new(),
            pending: BTreeMap::new(),
            accepted: Ghost(Seq::empty()),
        };
        assert(flatten(Seq::<Seq<u8>>::empty()) =~= Seq::<u8>::empty());
        r
    }

    /// Append the contiguous run of held-back blocks that starts at the
    /// expected block.
    fn flush(&mut self)
        requires
            old(self).windowsize <= u16::MAX,
            1 <= old(self).expected_block <= old(self).window_end + 1,
            old(self).window_end <= BLOCK_LIMIT + 2 * 65536,
            old(self).accepted@.len() == old(self).expected_block - 1,
            old(self).received@ == flatten(old(self).accepted@),
            forall|k: u64| #[trigger]
                old(self).pending@.contains_key(k) ==> old(self).expected_block <= k
                    <= old(self).window_end,
        ensures
            ({
                let e = old(self).expected_block;
                let e2 = final(self).expected_block;
                let m = old(self).pending@;
                &&& e <= e2 <= old(self).window_end + 1
                &&& forall|k: u64| e <= k < e2 ==> #[trigger] m.contains_key(k)
                &&& !m.contains_key(e2)
                &&& final(self).accepted@ == old(self).accepted@ + Seq::new(
                    (e2 - e) as nat,
                    |i: int| m[(e + i) as u64]@,
                )
                &&& final(self).pending@ == m.remove_keys(Set::new(|k: u64| e <= k < e2))
            }),
            final(self).received@ == flatten(final(self).accepted@),
            final(self).accepted@.len() == final(self).expected_block - 1,
            final(self).bytes_received == final(self).received@.len(),
            final(self).blksize == old(self).blksize,
            final(self).windowsize == old(self).windowsize,
            final(self).max_file_bytes == old(self).max_file_bytes,
            final(self).max_retries == old(self).max_retries,
            final(self).window_end == old(self).window_end,
            final(self).retries == old(self).retries,
    {
        let ghost e = self.expected_block;
        let ghost m = self.pending@;
        let ghost acc0 = self.accepted@;
        while self.pending.contains_key(&self.expected_block)
            invariant
                e == old(self).expected_block,
                m == old(self).pending@,
                acc0 == old(self).accepted@,
                self.blksize == old(self).blksize,
                self.windowsize == old(self).windowsize,
                self.max_file_bytes == old(self).max_file_bytes,
                self.max_retries == old(self).max_retries,
                self.window_end == old(self).window_end,
                self.retries == old(self).retries,
                e <= self.expected_block <= self.window_end + 1,
                self.window_end <= BLOCK_LIMIT + 2 * 65536,
                forall|k: u64| e <= k < self.expected_block ==> #[trigger] m.contains_key(k),
                self.pending@ == m.remove_keys(Set::new(|k: u64| e <= k < self.expected_block)),
                forall|k: u64| #[trigger] m.contains_key(k) ==> e <= k <= self.window_end,
                self.accepted@ == acc0 + Seq::new(
                    (self.expected_block - e) as nat,
                    |i: int| m[(e + i) as u64]@,
                ),
                self.accepted@.len() == self.expected_block - 1,
                self.received@ == flatten(self.accepted@),
            decreases self.window_end + 1 - self.expected_block,
        {
            let blk = self.pending.remove(&self.expected_block).unwrap();
            let ghost old_acc = self.accepted@;
            let ghost old_exp = self.expected_block;
            self.received.extend_from_slice(blk.as_slice());
            self.expected_block = self.expected_block + 1;
            proof {
                self.accepted@ = old_acc.push(blk@);
                assert(self.accepted@.drop_last() =~= old_acc);
                assert(self.accepted@ =~= acc0 + Seq::new(
                    (self.expected_block - e) as nat,
                    |i: int| m[(e + i) as u64]@,
                ));
                assert(self.pending@ =~= m.remove_keys(
                    Set::new(|k: u64| e <= k < self.expected_block),
                ));
            }
        }
        proof {
            assert(!self.pending@.contains_key(self.expected_block));
            assert(!m.contains_key(self.expected_block));
        }
        self.bytes_received = self.received.len() as u64;
    }

    /// DATA block `block` carrying `data` arrived.
    pub fn on_data(&mut self, block: u16, data: Vec<u8>) -> (r: DataOutcome)
        requires
            old(self).wf(),
        ensures
            final(self).wf(),
            r == DataOutcome::Ignored ==> *final(self) == *old(self),
            old(self).expected_block >= BLOCK_LIMIT ==> r == DataOutcome::Exhausted && *final(self)
                == *old(self),
            old(self).expected_block < BLOCK_LIMIT ==> ({
                let abs = spec_block_to_absolute(block, old(self).expected_block);
                let m = old(self).pending@.insert(abs as u64, data);
                let e = old(self).expected_block;
                let e2 = final(self).expected_block;
                if e <= abs <= old(self).window_end {
                    &&& e <= e2 <= old(self).window_end + 1
                    &&& forall|k: u64| e <= k < e2 ==> #[trigger] m.contains_key(k)
                    &&& !m.contains_key(e2)
                    &&& final(self).accepted@ == old(self).accepted@ + Seq::new(
                        (e2 - e) as nat,
                        |i: int| m[(e + i) as u64]@,
                    )
                    &&& final(self).pending@ == m.remove_keys(Set::new(|k: u64| e <= k < e2))
                    &&& r == if final(self).bytes_received > old(self).max_file_bytes {
                        DataOutcome::TooLarge
                    } else if data@.len() < old(self).blksize && final(self).pending@.is_empty() {
                        DataOutcome::Finished { ack: block }
                    } else if e2 > old(self).window_end {
                        DataOutcome::WindowDone { ack: wire_block(e2 - 1) }
                    } else {
                        DataOutcome::Accepted
                    }
                    &&& r == (DataOutcome::WindowDone { ack: wire_block(e2 - 1) }) ==> {
                        &&& final(self).window_end == e2 + old(self).windowsize - 1
                        &&& final(self).retries == 0
                    }
                    &&& r != (DataOutcome::WindowDone { ack: wire_block(e2 - 1) })
                        ==> final(self).window_end == old(self).window_end && final(self).retries
                        == old(self).retries
                } else {
                    r == DataOutcome::Ignored
                }
            }),
            final(self).blksize == old(self).blksize,
            final(self).windowsize == old(self).windowsize,
            final(self).max_file_bytes == old(self).max_file_bytes,
            final(self).max_retries == old(self).max_retries,
    {
        if self.expected_block >= BLOCK_LIMIT {
            return DataOutcome::Exhausted;
        }
        let abs = block_to_absolute(block, self.expected_block);
        if abs < self.expected_block || abs > self.window_end {
            return DataOutcome::Ignored;
        }
        let is_last = (data.len() as u64) < self.blksize;
        self.pending.insert(abs, data);
        self.flush();
        if self.bytes_received > self.max_file_bytes {
            return DataOutcome::TooLarge;
        }
        if is_last && self.pending.is_empty() {
            return DataOutcome::Finished { ack: block };
        }
        if self.expected_block > self.window_end {
            let ack = ((self.expected_block - 1) % 65536) as u16;
            self.retries = 0;
            self.window_end = self.expected_block + self.windowsize - 1;
            return DataOutcome::WindowDone { ack };
        }
        DataOutcome::Accepted
    }

    /// No DATA arrived in time: give up once the window has already been
    /// re-requested `max_retries` times; otherwise count the retry and
    /// re-acknowledge the last block received in order (none before block 1).
    pub fn on_timeout(&mut self) -> (r: TimeoutOutcome)
        requires
            old(self).wf(),
        ensures
            final(self).wf(),
            old(self).retries >= old(self).max_retries ==> r == TimeoutOutcome::GiveUp
                && *final(self) == *old(self),
            old(self).retries < old(self).max_retries ==> {
                &&& final(self).retries == old(self).retries + 1
                &&& final(self).expected_block == old(self).expected_block
                &&& final(self).window_end == old(self).window_end
                &&& final(self).received@ == old(self).received@
                &&& final(self).pending@ == old(self).pending@
                &&& r == TimeoutOutcome::Resend(
                    if old(self).expected_block > 1 {
                        Some(wire_block(old(self).expected_block - 1))
                    } else {
                        None
                    },
                )
            },
    {
        if self.retries >= self.max_retries {
            return TimeoutOutcome::GiveUp;
        }
        self.retries = self.retries + 1;
        if self.expected_block > 1 {
            TimeoutOutcome::Resend(Some(((self.expected_block - 1) % 65536) as u16))
        } else {
            TimeoutOutcome::Resend(None)
        }
    }
}


/// What to do with the target of a write request before any data comes.
#[derive(Debug, Clone, PartialEq, Eq)]
pub enum WritePrecheck {
    /// The target may be written.
    Proceed,
    /// Its directory is missing and is to be created first.
    CreateParent,
    /// Refuse the request with this error.
    Reject { code: ErrorCode, message: String },
}

pub enum WritePrecheckView {
    Proceed,
    CreateParent,
    Reject { code: ErrorCode, message: Seq<char> },
}

impl View for WritePrecheck {
    type V = WritePrecheckView;

    open spec fn view(&self) -> WritePrecheckView {
        match self {
            WritePrecheck::Proceed => WritePrecheckView::Proceed,
            WritePrecheck::CreateParent => WritePrecheckView::CreateParent,
            WritePrecheck::Reject { code, message } => WritePrecheckView::Reject {
                code: *code,
                message: message@,
            },
        }
    }
}

/// An existing file is refused unless overwriting is allowed; a missing
/// directory is created when that is allowed and refused otherwise.
pub open spec fn spec_write_precheck(
    file_exists: bool,
    allow_overwrite: bool,
    parent_exists: bool,
    create_dirs: bool,
) -> WritePrecheckView {
    if !allow_overwrite && file_exists {
        WritePrecheckView::Reject {
            code: ErrorCode::FileAlreadyExists,
            message: "File already exists"@,
        }
    } else if !parent_exists {
        if create_dirs {
            WritePrecheckView::CreateParent
        } else {
            WritePrecheckView::Reject {
                code: ErrorCode::FileNotFound,
                message: "Parent directory does not exist"@,
            }
        }
    } else {
        WritePrecheckView::Proceed
    }
}

/// An upload goes ahead exactly when its directory exists and the file is
/// new or may be overwritten; an existing file that may not be overwritten is
/// refused as already existing; and a missing directory is created or refused
/// only when the directory is in fact missing.
pub proof fn lemma_write_precheck_decides(
    file_exists: bool,
    allow_overwrite: bool,
    parent_exists: bool,
    create_dirs: bool,
)
    ensures
        ({
            let r = spec_write_precheck(file_exists, allow_overwrite, parent_exists, create_dirs);
            &&& (r is Proceed <==> (parent_exists && (!file_exists || allow_overwrite)))
            &&& (file_exists && !allow_overwrite ==> (r matches WritePrecheckView::Reject {
                code,
                ..
            } && code == ErrorCode::FileAlreadyExists))
            &&& (r is CreateParent <==> (!parent_exists && create_dirs && (!file_exists
                || allow_overwrite)))
            &&& (r matches WritePrecheckView::Reject { code, .. } && code == ErrorCode::FileNotFound
                ==> !parent_exists && !create_dirs)
        }),
{
}

/// Check the target of a write request: whether the file is there and
/// whether its directory is (a path without a directory part counts as
/// having one).
pub fn write_precheck(
    file_exists: bool,
    allow_overwrite: bool,
    parent_exists: bool,
    create_dirs: bool,
) -> (r: WritePrecheck)
    ensures
        r@ == spec_write_precheck(file_exists, allow_overwrite, parent_exists, create_dirs),
{
    if !allow_overwrite && file_exists {
        return WritePrecheck::Reject {
            code: ErrorCode::FileAlreadyExists,
            message: "File already exists".to_string(),
        };
    }
    if !parent_exists {
        if create_dirs {
            return WritePrecheck::CreateParent;
        }
        return WritePrecheck::Reject {
            code: ErrorCode::FileNotFound,
            message: "Parent directory does not exist".to_string(),
        };
    }
    WritePrecheck::Proceed
}

/// The size a client declares for an upload: the value of the last `tsize`
/// option whose value reads as an unsigned 64-bit number.
pub open spec fn spec_declared_tsize(opts: Seq<OptionView>) -> Option<u64>
    decreases opts.len(),
{
    if opts.len() == 0 {
        None
    } else {
        let o = opts.last();
        if o.name == "tsize"@ && parse_unsigned(o.value, u64::MAX as nat) is Some {
            Some(parse_unsigned(o.value, u64::MAX as nat)->0 as u64)
        } else {
            spec_declared_tsize(opts.drop_last())
        }
    }
}

/// The size the client of a write request declares with its `tsize` option.
pub fn declared_tsize(options: &[TftpOption]) -> (r: Option<u64>)
    ensures
        r == spec_declared_tsize(options_view(options@)),
{
    let ghost ov = options_view(options@);
    let mut found: Option<u64> = None;
    let mut i: usize = 0;
    assert(ov.take(0) =~= Seq::<OptionView>::empty());
    while i < options.len()
        invariant
            i <= options@.len(),
            ov == options_view(options@),
            found == spec_declared_tsize(ov.take(i as int)),
        decreases options.len() - i,
    {
        let opt = &options[i];
        assert(ov.take(i + 1).drop_last() =~= ov.take(i as int));
        assert(ov.take(i + 1).last() == opt@);
        if str_eq(opt.name.as_str(), "tsize") {
            if let Some(v) = parse_uint(opt.value.as_str(), u64::MAX) {
                found = Some(v);
            }
        }
        proof {
            reveal_strlit("tsize");
        }
        i = i + 1;
    }
    assert(ov.take(options@.len() as int) =~= ov);
    found
}

/// The refusal of an upload whose declared size (`tsize`) is over the limit:
/// `File too large: <tsize> > <limit as configured>`.
pub fn declared_size_error(tsize: Option<u64>, max_bytes: u64, max_file_size: &str) -> (r: Option<
    String,
>)
    ensures
        match tsize {
            Some(t) if t > max_bytes => r matches Some(m) && m@ == "File too large: "@ + decimal(
                t as nat,
            ) + " > "@ + max_file_size@,
            _ => r is None,
        },
{
    match tsize {
        Some(t) if t > max_bytes => {
            let mut m = "File too large: ".to_string();
            m.append(u64_to_string(t).as_str());
            m.append(" > ");
            m.append(max_file_size);
            Some(m)
        },
        _ => None,
    }
}

} // verus!
