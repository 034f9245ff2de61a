//! Captured sink: an append-only buffer that keeps what one producer wrote,
//! both as raw bytes and as decoded text.

use vstd::prelude::*;

verus! {

/// What `std::str::from_utf8` gives for a byte sequence: its text when the
/// bytes are valid UTF-8, nothing otherwise.
pub uninterp spec fn utf8_decoding(b: Seq<u8>) -> Option<Seq<char>>;

/// Relies on `std::str::from_utf8`: `Ok` with the decoded text exactly when
/// the bytes are valid UTF-8; the empty sequence is valid and decodes to the
/// empty text.
#[verifier::external_body]
fn decode_utf8(b: &[u8]) -> (r: Option<&str>)
    ensures
        r is Some ==> utf8_decoding(b@) == Some(r->0@),
        r is None ==> utf8_decoding(b@) is None,
        b@.len() == 0 ==> r is Some && r->0@.len() == 0,
{
    std::str::from_utf8(b).ok()
}

/// Text appended in place of a chunk that is not valid UTF-8.
pub open spec fn not_utf8_marker() -> Seq<char> {
    "[not utf8]"@
}

/// Text that one written chunk contributes.
pub open spec fn chunk_text(chunk: Seq<u8>) -> Seq<char> {
    match utf8_decoding(chunk) {
        Some(t) => t,
        None => not_utf8_marker(),
    }
}

/// Abstract content of a [`CapturedSink`].
pub ghost struct SinkState {
    pub bytes: Seq<u8>,
    pub text: Seq<char>,
}

pub open spec fn empty_sink() -> SinkState {
    SinkState { bytes: Seq::empty(), text: Seq::empty() }
}

/// Effect of writing one chunk.
pub open spec fn write_step(s: SinkState, chunk: Seq<u8>) -> SinkState {
    SinkState { bytes: s.bytes + chunk, text: s.text + chunk_text(chunk) }
}

/// Content after writing `chunks` in order.
pub open spec fn after_writes(s: SinkState, chunks: Seq<Seq<u8>>) -> SinkState
    decreases chunks.len(),
{
    if chunks.len() == 0 {
        s
    } else {
        write_step(after_writes(s, chunks.drop_last()), chunks.last())
    }
}

/// The chunks joined end to end, in order.
pub open spec fn concat_chunks(chunks: Seq<Seq<u8>>) -> Seq<u8>
    decreases chunks.len(),
{
    if chunks.len() == 0 {
        Seq::empty()
    } else {
        concat_chunks(chunks.drop_last()) + chunks.last()
    }
}

/// Buffer filled by exactly one producer and read after it is done. The
/// producer owns it mutably while writing; readers get it afterwards, so no
/// reader can observe a write half applied.
pub struct CapturedSink {
    bytes: Vec<u8>,
    text: String,
}

impl View for CapturedSink {
    type V = SinkState;

    closed spec fn view(&self) -> SinkState {
        SinkState { bytes: self.bytes@, text: self.text@ }
    }
}

impl CapturedSink {
    /// An empty sink.
    pub fn new() -> (r: Self)
        ensures
            r@ == empty_sink(),
    {
        CapturedSink { bytes: Vec::new(), text: String::new() }
    }

    /// Appends a chunk. Always accepts the whole chunk; a chunk that is not
    /// valid UTF-8 adds the marker text instead of its decoding.
    pub fn write(&mut self, chunk: &[u8]) -> (r: usize)
        ensures
            r == chunk@.len(),
            final(self)@ == write_step(old(self)@, chunk@),
    {
        let decoded = decode_utf8(chunk);
        self.append_decoded(chunk, decoded);
        chunk.len()
    }

    /// Appends a chunk given its decoding: the decoded text, or `None` for
    /// bytes that are not valid UTF-8, which add the marker text instead.
    pub fn append_decoded(&mut self, chunk: &[u8], decoded: Option<&str>)
        ensures
            final(self)@.bytes == old(self)@.bytes + chunk@,
            final(self)@.text == old(self)@.text + (match decoded {
                Some(t) => t@,
                None => not_utf8_marker(),
            }),
    {
        let mut i: usize = 0;
        while i < chunk.len()
            invariant
                0 <= i <= chunk@.len(),
                self.bytes@ == old(self).bytes@ + chunk@.subrange(0, i as int),
                self.text@ == old(self).text@,
            decreases chunk@.len() - i,
        {
            self.bytes.push(chunk[i]);
            assert(chunk@.subrange(0, i + 1) == chunk@.subrange(0, i as int).push(chunk@[i as int]));
            i = i + 1;
        }
        assert(chunk@.subrange(0, chunk@.len() as int) == chunk@);
        match decoded {
            Some(t) => self.text.append(t),
            None => self.text.append("[not utf8]"),
        }
    }

    /// Copy of every byte written so far, in write order.
    pub fn snapshot(&self) -> (r: Vec<u8>)
        ensures
            r@ == self@.bytes,
    {
        let mut out: Vec<u8> = Vec::new();
        let mut i: usize = 0;
        while i < self.bytes.len()
            invariant
                0 <= i <= self.bytes@.len(),
                out@ == self.bytes@.subrange(0, i as int),
            decreases self.bytes@.len() - i,
        {
            out.push(self.bytes[i]);
            assert(self.bytes@.subrange(0, i + 1) == self.bytes@.subrange(0, i as int).push(
                self.bytes@[i as int],
            ));
            i = i + 1;
        }
        assert(self.bytes@.subrange(0, self.bytes@.len() as int) == self.bytes@);
        out
    }

    /// Decoded text written so far.
    pub fn text(&self) -> (r: String)
        ensures
            r@ == self@.text,
    {
        self.text.clone()
    }

    /// Number of bytes written so far.
    pub fn len(&self) -> (r: usize)
        ensures
            r == self@.bytes.len(),
    {
        self.bytes.len()
    }

    /// Whether nothing has been written.
    pub fn is_empty(&self) -> (r: bool)
        ensures
            r == (self@.bytes.len() == 0),
    {
        self.bytes.len() == 0
    }
}

/// Writing chunks one after another leaves the sink holding the exact
/// concatenation of the chunks, in write order, after what it held before.
pub proof fn lemma_snapshot_is_concatenation(s: SinkState, chunks: Seq<Seq<u8>>)
    ensures
        after_writes(s, chunks).bytes == s.bytes + concat_chunks(chunks),
    decreases chunks.len(),
{
    if chunks.len() > 0 {
        lemma_snapshot_is_concatenation(s, chunks.drop_last());
        assert(s.bytes + concat_chunks(chunks.drop_last()) + chunks.last() == s.bytes + (
        concat_chunks(chunks.drop_last()) + chunks.last()));
    } else {
        assert(s.bytes + Seq::<u8>::empty() == s.bytes);
    }
}

/// Writes each chunk in order into a fresh sink and hands the sink over.
pub fn capture_chunks(chunks: &Vec<Vec<u8>>) -> (r: CapturedSink)
    ensures
        r@ == after_writes(empty_sink(), chunks@.map_values(|c: Vec<u8>| c@)),
        r@.bytes == concat_chunks(chunks@.map_values(|c: Vec<u8>| c@)),
{
    let ghost views = chunks@.map_values(|c: Vec<u8>| c@);
    let mut sink = CapturedSink::new();
    let mut i: usize = 0;
    while i < chunks.len()
        invariant
            0 <= i <= chunks@.len(),
            views == chunks@.map_values(|c: Vec<u8>| c@),
            sink@ == after_writes(empty_sink(), views.subrange(0, i as int)),
        decreases chunks@.len() - i,
    {
        sink.write(chunks[i].as_slice());
        assert(views.subrange(0, i + 1).drop_last() == views.subrange(0, i as int));
        i = i + 1;
    }
    assert(views.subrange(0, chunks@.len() as int) == views);
    proof {
        lemma_snapshot_is_concatenation(empty_sink(), views);
        assert(empty_sink().bytes + concat_chunks(views) == concat_chunks(views));
    }
    sink
}

} // verus!
