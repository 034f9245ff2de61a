//! Stream pump: copies one source into one destination, in order, until the
//! source is exhausted.

use vstd::prelude::*;
use crate::sink::{CapturedSink, SinkState, after_writes, concat_chunks};
use crate::source::MemorySource;

verus! {

/// What a finished pump reports: the bytes it moved, and the last offset it
/// handed to the progress observer (`None` when it moved nothing).
pub struct PumpReport {
    pub copied: u64,
    pub last_progress: Option<u64>,
}

/// The destination's new content is the old content followed by some split of
/// `moved` into chunks, written in order.
pub open spec fn received_in_chunks(before: SinkState, after: SinkState, moved: Seq<u8>) -> bool {
    exists|chunks: Seq<Seq<u8>>|
        #[trigger] concat_chunks(chunks) == moved && after == after_writes(before, chunks)
}

/// Copies every remaining byte of `src` into `dst`, reading at most
/// `chunk_size` bytes at a time. The destination receives exactly the
/// remaining bytes, byte for byte and in source order; the source ends
/// exhausted.
pub fn pump(src: &mut MemorySource, dst: &mut CapturedSink, chunk_size: usize) -> (r: PumpReport)
    requires
        old(src).wf(),
        chunk_size > 0,
    ensures
        final(src).wf(),
        final(src)@.data == old(src)@.data,
        final(src)@.offset == old(src)@.data.len(),
        final(dst)@.bytes == old(dst)@.bytes + old(src)@.data.subrange(
            old(src)@.offset as int,
            old(src)@.data.len() as int,
        ),
        received_in_chunks(
            old(dst)@,
            final(dst)@,
            old(src)@.data.subrange(old(src)@.offset as int, old(src)@.data.len() as int),
        ),
        r.copied == old(src)@.data.len() - old(src)@.offset,
        r.last_progress == (if old(src)@.offset < old(src)@.data.len() {
            Some(old(src)@.data.len() as u64)
        } else {
            None
        }),
{
    let ghost d = src@.data;
    let ghost start = src@.offset;
    let ghost dst0 = dst@;
    let ghost mut chunks: Seq<Seq<u8>> = Seq::empty();
    let mut copied: u64 = 0;
    let mut last: Option<u64> = None;
    while src.offset() < src.total()
        invariant
            src.wf(),
            src@.data == d,
            start <= src@.offset <= d.len(),
            concat_chunks(chunks) == d.subrange(start as int, src@.offset as int),
            dst@ == after_writes(dst0, chunks),
            copied == src@.offset - start,
            last == (if start < src@.offset {
                Some(src@.offset as u64)
            } else {
                None
            }),
            chunk_size > 0,
        decreases d.len() - src@.offset,
    {
        let ghost off = src@.offset;
        let c = src.read(chunk_size);
        let n = c.bytes.len();
        dst.write(c.bytes.as_slice());
        proof {
            let next = chunks.push(c.bytes@);
            assert(next.drop_last() == chunks);
            assert(d.subrange(start as int, src@.offset as int) == d.subrange(
                start as int,
                off as int,
            ) + d.subrange(off as int, src@.offset as int));
            chunks = next;
        }
        copied = copied + n as u64;
        last = c.progress;
    }
    proof {
        crate::sink::lemma_snapshot_is_concatenation(dst0, chunks);
        assert(received_in_chunks(dst0, dst@, d.subrange(start as int, d.len() as int)));
    }
    PumpReport { copied, last_progress: last }
}

} // verus!
