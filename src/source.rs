//! In-memory byte source with progress accounting.

use vstd::prelude::*;
use crate::progress::{ProgressTracker, initial_state, read_step};

verus! {

/// Abstract state of a [`MemorySource`]: its bytes and how many were read.
pub ghost struct SourceState {
    pub data: Seq<u8>,
    pub offset: nat,
}

/// Result of one read: the bytes delivered, and the offset to report to the
/// progress observer (`None` when nothing was delivered).
pub struct ReadChunk {
    pub bytes: Vec<u8>,
    pub progress: Option<u64>,
}

/// A finite source held in memory, read front to back, that counts what it
/// delivers.
pub struct MemorySource {
    data: Vec<u8>,
    tracker: ProgressTracker,
}

impl View for MemorySource {
    type V = SourceState;

    closed spec fn view(&self) -> SourceState {
        SourceState { data: self.data@, offset: self.tracker@.offset }
    }
}

pub open spec fn min_nat(a: nat, b: nat) -> nat {
    if a <= b {
        a
    } else {
        b
    }
}

impl MemorySource {
    pub closed spec fn tracker_matches(&self) -> bool {
        &&& self.tracker.wf()
        &&& self.tracker@.total == self.data@.len()
    }

    /// The offset stays within the data.
    pub open spec fn wf(&self) -> bool {
        &&& self.tracker_matches()
        &&& self@.offset <= self@.data.len()
    }

    /// A source over `data`, nothing read yet.
    pub fn new(data: Vec<u8>) -> (r: Self)
        ensures
            r.wf(),
            r@.data == data@,
            r@.offset == 0,
    {
        let total = data.len() as u64;
        MemorySource { data, tracker: ProgressTracker::new(total) }
    }

    /// Declared length of the source.
    pub fn total(&self) -> (r: u64)
        requires
            self.wf(),
        ensures
            r == self@.data.len(),
    {
        self.tracker.total()
    }

    /// Bytes delivered so far.
    pub fn offset(&self) -> (r: u64)
        requires
            self.wf(),
        ensures
            r == self@.offset,
    {
        self.tracker.offset()
    }

    /// Delivers the next `min(max, remaining)` bytes. An empty chunk means end
    /// of file (or `max == 0`) and reports no progress; otherwise the new
    /// offset is reported.
    pub fn read(&mut self, max: usize) -> (r: ReadChunk)
        requires
            old(self).wf(),
        ensures
            final(self).wf(),
            final(self)@.data == old(self)@.data,
            final(self)@.offset == old(self)@.offset + min_nat(
                max as nat,
                (old(self)@.data.len() - old(self)@.offset) as nat,
            ),
            r.bytes@ == old(self)@.data.subrange(
                old(self)@.offset as int,
                final(self)@.offset as int,
            ),
            r.bytes@.len() == 0 ==> r.progress is None,
            r.bytes@.len() > 0 ==> r.progress == Some(final(self)@.offset as u64),
    {
        let start = self.tracker.offset() as usize;
        let rest = self.data.len() - start;
        let n: usize = if max <= rest {
            max
        } else {
            rest
        };
        let mut bytes: Vec<u8> = Vec::new();
        let mut i: usize = 0;
        while i < n
            invariant
                start + n <= self.data.len(),
                0 <= i <= n,
                bytes@ == self.data@.subrange(start as int, start + i),
            decreases n - i,
        {
            bytes.push(self.data[start + i]);
            assert(self.data@.subrange(start as int, start + i + 1) == self.data@.subrange(
                start as int,
                start + i,
            ).push(self.data@[start + i]));
            i = i + 1;
        }
        let progress = match self.tracker.record_read(n as u64) {
            Ok(p) => p,
            Err(_) => None,
        };
        ReadChunk { bytes, progress }
    }
}

} // verus!
