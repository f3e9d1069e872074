//! The sender side of a transfer (a read request): which blocks to send, what
//! an acknowledgement does, and when to give up.

use vstd::prelude::*;

use crate::tftp::session::{block_to_absolute, compute_total_blocks, spec_block_to_absolute, spec_total_blocks};

verus! {

/// What a transfer has sent and had acknowledged; the I/O loop around it sends
/// the blocks of each window and reports acknowledgements and timeouts.
pub struct ReadTransfer {
    pub file_len: u64,
    pub blksize: u64,
    pub windowsize: u64,
    pub max_retries: u32,
    pub total_blocks: u64,
    /// First block not yet acknowledged.
    pub base_block: u64,
    /// Last block of the window in flight.
    pub window_end: u64,
    pub retries: u32,
    /// Payload bytes acknowledged so far.
    pub bytes_sent: u64,
}

/// `min(n * blksize, len)`: the bytes that blocks `1..=n` carry.
pub open spec fn sent_prefix(len: nat, blksize: nat, n: nat) -> nat {
    if n * blksize < len {
        n * blksize
    } else {
        len
    }
}

impl ReadTransfer {
    pub open spec fn wf(&self) -> bool {
        &&& self.blksize > 0
        &&& self.windowsize <= u16::MAX
        &&& self.total_blocks == spec_total_blocks(self.file_len as nat, self.blksize as nat)
        &&& self.total_blocks + 2 * 65536 <= u64::MAX
        &&& 1 <= self.base_block <= self.total_blocks + 1
        &&& self.window_end <= self.total_blocks
        &&& self.base_block <= self.window_end + 1
        &&& self.retries <= self.max_retries
        &&& self.bytes_sent == sent_prefix(
            self.file_len as nat,
            self.blksize as nat,
            (self.base_block - 1) as nat,
        )
    }

    /// A transfer of `file_len` bytes in blocks of `blksize` with `windowsize`
    /// blocks in flight, giving up after `max_retries` timeouts of one window.
    pub fn new(file_len: u64, blksize: u16, windowsize: u16, max_retries: u32) -> (r: Self)
        requires
            blksize > 0,
            (file_len as int) / (blksize as int) + 3 * 65536 <= u64::MAX,
        ensures
            r.wf(),
            r.file_len == file_len,
            r.blksize == blksize,
            r.windowsize == windowsize,
            r.max_retries == max_retries,
            r.base_block == 1,
            r.window_end == 0,
            r.retries == 0,
            r.bytes_sent == 0,
    {
        let total = compute_total_blocks(file_len, blksize as usize);
        proof {
            assert(0 * (blksize as nat) == 0);
        }
        ReadTransfer {
            file_len,
            blksize: blksize as u64,
            windowsize: windowsize as u64,
            max_retries,
            total_blocks: total,
            base_block: 1,
            window_end: 0,
            retries: 0,
            bytes_sent: 0,
        }
    }

    /// Open the next window: blocks `base..=end` are to be sent. `None` once
    /// every block has been acknowledged, and then every byte has been.
    pub fn next_window(&mut self) -> (r: Option<(u64, u64)>)
        requires
            old(self).wf(),
        ensures
            final(self).wf(),
            match r {
                None => {
                    &&& old(self).base_block > old(self).total_blocks
                    &&& *final(self) == *old(self)
                    &&& final(self).bytes_sent == final(self).file_len
                },
                Some((first, last)) => {
                    &&& old(self).base_block <= old(self).total_blocks
                    &&& first == old(self).base_block
                    &&& last == if old(self).base_block + old(self).windowsize - 1
                        < old(self).total_blocks {
                        old(self).base_block + old(self).windowsize - 1
                    } else {
                        old(self).total_blocks as int
                    }
                    &&& *final(self) == (ReadTransfer { window_end: last, retries: 0, ..*old(self) })
                },
            },
    {
        if self.base_block > self.total_blocks {
            proof {
                self.lemma_all_sent();
            }
            return None;
        }
        let candidate = self.base_block + self.windowsize - 1;
        let end = if candidate < self.total_blocks {
            candidate
        } else {
            self.total_blocks
        };
        self.window_end = end;
        self.retries = 0;
        Some((self.base_block, end))
    }

    proof fn lemma_all_sent(&self)
        requires
            self.wf(),
            self.base_block == self.total_blocks + 1,
        ensures
            self.bytes_sent == self.file_len,
    {
        let len = self.file_len as nat;
        let b = self.blksize as nat;
        vstd::arithmetic::div_mod::lemma_fundamental_div_mod(len as int, b as int);
        let q = len / b;
        assert(self.total_blocks * b >= len) by (nonlinear_arith)
            requires
                len == b * q + len % b,
                len % b < b,
                self.total_blocks == spec_total_blocks(len, b),
                len > 0 ==> self.total_blocks == q + 1,
                len == 0 ==> self.total_blocks == 1,
                b > 0;
    }

    proof fn lemma_offset_bound(&self, k: u64)
        requires
            self.wf(),
            1 <= k <= self.total_blocks,
        ensures
            0 <= (k - 1) * self.blksize <= self.file_len,
    {
        let len = self.file_len as nat;
        let b = self.blksize as nat;
        vstd::arithmetic::div_mod::lemma_fundamental_div_mod(len as int, b as int);
        let q = len / b;
        assert(0 <= (k - 1) * b <= len) by (nonlinear_arith)
            requires
                len == b * q + len % b,
                len % b >= 0,
                1 <= k <= self.total_blocks,
                len > 0 ==> self.total_blocks == q + 1,
                len == 0 ==> self.total_blocks == 1,
                b > 0;
    }

    /// An acknowledgement of wire block `block`. Inside the window it
    /// acknowledges every block up to it, slides the base past it and returns
    /// the payload bytes newly acknowledged; any other acknowledgement (a
    /// duplicate or one beyond the window) changes nothing and returns `None`.
    pub fn on_ack(&mut self, block: u16) -> (r: Option<u64>)
        requires
            old(self).wf(),
        ensures
            final(self).wf(),
            ({
                let abs = spec_block_to_absolute(block, old(self).base_block);
                if old(self).base_block <= abs <= old(self).window_end {
                    &&& *final(self) == (ReadTransfer {
                        base_block: (abs + 1) as u64,
                        bytes_sent: sent_prefix(
                            old(self).file_len as nat,
                            old(self).blksize as nat,
                            abs as nat,
                        ) as u64,
                        ..*old(self)
                    })
                    &&& r == Some((final(self).bytes_sent - old(self).bytes_sent) as u64)
                } else {
                    &&& r is None
                    &&& *final(self) == *old(self)
                }
            }),
    {
        let abs = block_to_absolute(block, self.base_block);
        if abs >= self.base_block && abs <= self.window_end {
            proof {
                self.lemma_offset_bound(abs);
                self.lemma_offset_bound(self.base_block);
            }
            let offset = (abs - 1) * self.blksize;
            let new_sent = if offset >= self.file_len {
                self.file_len
            } else if self.blksize < self.file_len - offset {
                offset + self.blksize
            } else {
                self.file_len
            };
            proof {
                let b = self.blksize as nat;
                assert((abs - 1) * b + b == abs * b) by (nonlinear_arith);
                assert((self.base_block - 1) * b <= (abs - 1) * b) by (nonlinear_arith)
                    requires self.base_block <= abs;
                assert(new_sent == sent_prefix(self.file_len as nat, b, abs as nat));
            }
            let acked = new_sent - self.bytes_sent;
            self.bytes_sent = new_sent;
            self.base_block = abs + 1;
            Some(acked)
        } else {
            None
        }
    }

    /// A timeout while waiting for an acknowledgement: `true` (give up) once
    /// the window has already been retransmitted `max_retries` times;
    /// otherwise count the retry and return `false` (retransmit the window).
    pub fn on_timeout(&mut self) -> (give_up: bool)
        requires
            old(self).wf(),
        ensures
            final(self).wf(),
            give_up == (old(self).retries >= old(self).max_retries),
            give_up ==> *final(self) == *old(self),
            !give_up ==> *final(self) == (ReadTransfer {
                retries: (old(self).retries + 1) as u32,
                ..*old(self)
            }),
    {
        if self.retries >= self.max_retries {
            true
        } else {
            self.retries = self.retries + 1;
            false
        }
    }
}

/// A duplicate acknowledgement, for the block just before the window's base,
/// never moves the window and never causes a retransmission (the "Sorcerer's
/// Apprentice" defect of RFC 1350 is avoided).
pub proof fn lemma_duplicate_ack_ignored(t: ReadTransfer)
    requires
        t.wf(),
        t.base_block >= 2,
        t.window_end <= t.base_block + t.windowsize - 1,
    ensures
        t.window_end < spec_block_to_absolute(((t.base_block - 1) % 65536) as u16, t.base_block),
{
}

} // verus!
