//! Progress accounting for a finite byte source of known length.

use vstd::prelude::*;

verus! {

/// Abstract state of a [`ProgressTracker`]: bytes read so far, and the
/// declared length of the source.
pub ghost struct TrackerState {
    pub offset: nat,
    pub total: nat,
}

/// The source delivered more bytes than its declared length.
#[derive(Clone, Copy, Debug, PartialEq, Eq, Structural)]
pub enum ProgressError {
    PastEnd,
}

/// Cumulative read offset of a source whose total length is known up front.
/// The offset starts at zero, only grows, and never exceeds the total.
pub struct ProgressTracker {
    cur: u64,
    total: u64,
}

impl View for ProgressTracker {
    type V = TrackerState;

    closed spec fn view(&self) -> TrackerState {
        TrackerState { offset: self.cur as nat, total: self.total as nat }
    }
}

/// State at the start of a source of `total` bytes.
pub open spec fn initial_state(total: nat) -> TrackerState {
    TrackerState { offset: 0, total }
}

/// Effect of one read of `n` bytes: it is counted when it stays within the
/// declared length, and refused (state unchanged) otherwise.
pub open spec fn read_step(s: TrackerState, n: nat) -> TrackerState {
    if s.offset + n <= s.total {
        TrackerState { offset: s.offset + n, total: s.total }
    } else {
        s
    }
}

/// State after a sequence of reads, applied in order.
pub open spec fn after_reads(s: TrackerState, reads: Seq<nat>) -> TrackerState
    decreases reads.len(),
{
    if reads.len() == 0 {
        s
    } else {
        read_step(after_reads(s, reads.drop_last()), reads.last())
    }
}

/// Sum of a sequence of read sizes.
pub open spec fn sum_of(reads: Seq<nat>) -> nat
    decreases reads.len(),
{
    if reads.len() == 0 {
        0
    } else {
        sum_of(reads.drop_last()) + reads.last()
    }
}

impl ProgressTracker {
    pub open spec fn wf(&self) -> bool {
        self@.offset <= self@.total
    }

    /// A tracker for a source of `total` bytes, nothing read yet.
    pub fn new(total: u64) -> (r: Self)
        ensures
            r.wf(),
            r@ == initial_state(total as nat),
    {
        ProgressTracker { cur: 0, total }
    }

    /// Bytes read so far.
    pub fn offset(&self) -> (r: u64)
        ensures
            r == self@.offset,
    {
        self.cur
    }

    /// Declared length of the source.
    pub fn total(&self) -> (r: u64)
        ensures
            r == self@.total,
    {
        self.total
    }

    /// Whether every declared byte has been read.
    pub fn is_complete(&self) -> (r: bool)
        ensures
            r == (self@.offset == self@.total),
    {
        self.cur == self.total
    }

    /// Records a successful read of `n` bytes. Returns the new offset to hand
    /// to the progress observer, or `None` for an end-of-file read of zero
    /// bytes, which the observer is not told about. A read that would carry the
    /// offset past the declared length is refused and changes nothing.
    pub fn record_read(&mut self, n: u64) -> (r: Result<Option<u64>, ProgressError>)
        requires
            old(self).wf(),
        ensures
            final(self).wf(),
            final(self)@ == read_step(old(self)@, n as nat),
            r is Ok <==> old(self)@.offset + n <= old(self)@.total,
            r matches Ok(None) <==> n == 0,
            r matches Ok(Some(p)) ==> p == final(self)@.offset,
    {
        if n <= self.total - self.cur {
            self.cur = self.cur + n;
            if n == 0 {
                Ok(None)
            } else {
                Ok(Some(self.cur))
            }
        } else {
            Err(ProgressError::PastEnd)
        }
    }
}

/// However reads go, the offset never decreases and never exceeds the
/// declared length.
pub proof fn lemma_offset_bounded(s: TrackerState, reads: Seq<nat>)
    requires
        s.offset <= s.total,
    ensures
        s.offset <= after_reads(s, reads).offset <= s.total,
        after_reads(s, reads).total == s.total,
    decreases reads.len(),
{
    if reads.len() > 0 {
        lemma_offset_bounded(s, reads.drop_last());
    }
}

/// When the reads together stay within the declared length, the offset after
/// them is exactly the sum of the bytes they returned.
pub proof fn lemma_offset_is_sum_of_reads(total: nat, reads: Seq<nat>)
    requires
        sum_of(reads) <= total,
    ensures
        after_reads(initial_state(total), reads).offset == sum_of(reads),
        after_reads(initial_state(total), reads).offset <= total,
    decreases reads.len(),
{
    if reads.len() > 0 {
        let prefix = reads.drop_last();
        assert(sum_of(reads) == sum_of(prefix) + reads.last());
        lemma_offset_is_sum_of_reads(total, prefix);
        lemma_offset_bounded(initial_state(total), prefix);
        assert(after_reads(initial_state(total), reads) == read_step(
            after_reads(initial_state(total), prefix),
            reads.last(),
        ));
    }
}

} // verus!
