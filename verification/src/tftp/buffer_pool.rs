//! Pre-allocated buffer pool for TFTP session packet buffers.
//!
//! Reduces allocator pressure by recycling `Vec<u8>` buffers between sessions.

use vstd::prelude::*;

verus! {

/// A pool of reusable packet buffers.
pub struct BufferPool {
    pool: Vec<Vec<u8>>,
    buf_size: usize,
    capacity: usize,
    hits: u64,
    misses: u64,
}

/// A pool as numbers: how many buffers it holds and its settings.
pub struct BufferPoolView {
    pub available: nat,
    pub buf_size: nat,
    pub capacity: nat,
    pub hits: u64,
    pub misses: u64,
}

impl View for BufferPool {
    type V = BufferPoolView;

    closed spec fn view(&self) -> BufferPoolView {
        BufferPoolView {
            available: self.pool@.len(),
            buf_size: self.buf_size as nat,
            capacity: self.capacity as nat,
            hits: self.hits,
            misses: self.misses,
        }
    }
}

/// The pool after an acquisition: a held buffer is handed out (a hit), or,
/// when none is held, a new one is allocated (a miss). The counters wrap.
pub open spec fn after_acquire(v: BufferPoolView) -> BufferPoolView {
    if v.available > 0 {
        BufferPoolView { available: (v.available - 1) as nat, hits: v.hits.wrapping_add(1), ..v }
    } else {
        BufferPoolView { misses: v.misses.wrapping_add(1), ..v }
    }
}

/// The pool after a buffer comes back: kept while there is room, else dropped.
pub open spec fn after_release(v: BufferPoolView) -> BufferPoolView {
    if v.available < v.capacity {
        BufferPoolView { available: v.available + 1, ..v }
    } else {
        v
    }
}

/// A buffer given back to a pool with room is what the next acquisition
/// hands out: that acquisition is a hit and the pool holds as many buffers
/// as before.
pub proof fn lemma_release_then_acquire_hits(v: BufferPoolView)
    requires
        v.available < v.capacity,
    ensures
        after_acquire(after_release(v)) == (BufferPoolView { hits: v.hits.wrapping_add(1), ..v }),
{
}

/// A pool never holds more than its capacity, whatever is released into it.
pub proof fn lemma_release_bounded(v: BufferPoolView)
    requires
        v.available <= v.capacity,
    ensures
        after_release(v).available <= v.capacity,
        after_release(v).capacity == v.capacity,
{
}

impl BufferPool {
    /// The pool never holds more buffers than its capacity.
    pub closed spec fn wf(&self) -> bool {
        self.pool@.len() <= self.capacity
    }

    /// Create a new buffer pool.
    ///
    /// - `capacity`: maximum number of buffers to keep in the pool
    /// - `buf_size`: size of each buffer (typically `max_blksize + 4`)
    pub fn new(capacity: usize, buf_size: usize) -> (r: Self)
        ensures
            r.wf(),
            r@ == (BufferPoolView {
                available: 0,
                buf_size: buf_size as nat,
                capacity: capacity as nat,
                hits: 0,
                misses: 0,
            }),
    {
        BufferPool { pool: Vec::with_capacity(capacity), buf_size, capacity, hits: 0, misses: 0 }
    }

    /// Acquire a buffer from the pool, or allocate a new one if empty.
    /// The returned buffer is zeroed and sized to `buf_size`.
    pub fn acquire(&mut self) -> (buf: Vec<u8>)
        requires
            old(self).wf(),
        ensures
            final(self).wf(),
            buf@ == Seq::new(old(self)@.buf_size, |i: int| 0u8),
            final(self)@ == after_acquire(old(self)@),
    {
        let size = self.buf_size;
        if let Some(mut buf) = self.pool.pop() {
            buf.clear();
            buf.resize(size, 0);
            self.hits = self.hits.wrapping_add(1);
            assert(buf@ =~= Seq::new(size as nat, |i: int| 0u8));
            buf
        } else {
            self.misses = self.misses.wrapping_add(1);
            let buf = vec![0u8; size];
            assert(buf@ =~= Seq::new(size as nat, |i: int| 0u8));
            buf
        }
    }

    /// Release a buffer back into the pool for reuse.
    /// If the pool is full, the buffer is dropped.
    pub fn release(&mut self, buf: Vec<u8>)
        requires
            old(self).wf(),
        ensures
            final(self).wf(),
            final(self)@ == after_release(old(self)@),
    {
        if self.pool.len() < self.capacity {
            self.pool.push(buf);
        }
    }

    /// Update buffer size and drain stale buffers. New acquires use the new size.
    pub fn update_buf_size(&mut self, new_buf_size: usize)
        requires
            old(self).wf(),
        ensures
            final(self).wf(),
            final(self)@ == (BufferPoolView {
                available: 0,
                buf_size: new_buf_size as nat,
                ..old(self)@
            }),
    {
        self.buf_size = new_buf_size;
        self.pool.clear();
    }

    /// Acquisitions served from the pool (the count wraps).
    pub fn hits(&self) -> (r: u64)
        ensures
            r == self@.hits,
    {
        self.hits
    }

    /// Acquisitions that had to allocate (the count wraps).
    pub fn misses(&self) -> (r: u64)
        ensures
            r == self@.misses,
    {
        self.misses
    }

    /// Get the current buffer size.
    pub fn buf_size(&self) -> (r: usize)
        ensures
            r == self@.buf_size,
    {
        self.buf_size
    }

    /// Current number of buffers in the pool.
    pub fn available(&self) -> (r: usize)
        requires
            self.wf(),
        ensures
            r == self@.available,
            r <= self@.capacity,
    {
        self.pool.len()
    }
}

} // verus!
