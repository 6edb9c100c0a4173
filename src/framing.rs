//! Newline-delimited framing of an arbitrarily chunked byte stream.
//!
//! A body is read as a sequence of bytes; every `\n` closes one frame. Bytes
//! after the last `\n` wait in a pending buffer until more data arrives.
use vstd::prelude::*;

verus! {

/// The byte that closes a frame.
pub const NEWLINE: u8 = 10;

/// Framing state: the frames closed so far, and the bytes of the open frame.
pub type ScanState = (Seq<Seq<u8>>, Seq<u8>);

/// The state after one more byte.
pub open spec fn step(st: ScanState, b: u8) -> ScanState {
    if b == NEWLINE {
        (st.0.push(st.1), Seq::empty())
    } else {
        (st.0, st.1.push(b))
    }
}

/// The state after reading `s`, starting from `st`.
pub open spec fn scan_from(st: ScanState, s: Seq<u8>) -> ScanState
    decreases s.len(),
{
    if s.len() == 0 {
        st
    } else {
        step(scan_from(st, s.drop_last()), s.last())
    }
}

/// The frames and the open frame of a whole byte sequence.
pub open spec fn scan(s: Seq<u8>) -> ScanState {
    scan_from((Seq::empty(), Seq::empty()), s)
}

/// All chunks, joined in order.
pub open spec fn joined(chunks: Seq<Seq<u8>>) -> Seq<u8>
    decreases chunks.len(),
{
    if chunks.len() == 0 {
        Seq::empty()
    } else {
        joined(chunks.drop_last()) + chunks.last()
    }
}

/// The state after reading the chunks one after another.
pub open spec fn feed(st: ScanState, chunks: Seq<Seq<u8>>) -> ScanState
    decreases chunks.len(),
{
    if chunks.len() == 0 {
        st
    } else {
        scan_from(feed(st, chunks.drop_last()), chunks.last())
    }
}

/// The contents of a list of byte vectors.
pub open spec fn frames_view(v: Seq<Vec<u8>>) -> Seq<Seq<u8>> {
    v.map_values(|x: Vec<u8>| x@)
}

/// Reading `a` then `b` is reading `a + b`.
pub proof fn lemma_scan_append(st: ScanState, a: Seq<u8>, b: Seq<u8>)
    ensures
        scan_from(st, a + b) == scan_from(scan_from(st, a), b),
    decreases b.len(),
{
    if b.len() == 0 {
        assert(a + b == a);
    } else {
        assert((a + b).drop_last() == a + b.drop_last());
        lemma_scan_append(st, a, b.drop_last());
    }
}

/// The frames already closed are kept as they are; new ones follow them.
pub proof fn lemma_scan_keeps_frames(f: Seq<Seq<u8>>, p: Seq<u8>, s: Seq<u8>)
    ensures
        scan_from((f, p), s).0 == f + scan_from((Seq::empty(), p), s).0,
        scan_from((f, p), s).1 == scan_from((Seq::empty(), p), s).1,
    decreases s.len(),
{
    if s.len() > 0 {
        lemma_scan_keeps_frames(f, p, s.drop_last());
        let g = scan_from((Seq::empty(), p), s.drop_last());
        assert((f + g.0).push(g.1) == f + g.0.push(g.1));
    } else {
        assert(f + Seq::<Seq<u8>>::empty() == f);
    }
}

/// However a byte sequence is cut into chunks, reading the chunks in order
/// gives the same frames and the same open frame as reading it whole.
pub proof fn lemma_chunking_is_invisible(st: ScanState, chunks: Seq<Seq<u8>>)
    ensures
        feed(st, chunks) == scan_from(st, joined(chunks)),
    decreases chunks.len(),
{
    if chunks.len() > 0 {
        lemma_chunking_is_invisible(st, chunks.drop_last());
        lemma_scan_append(st, joined(chunks.drop_last()), chunks.last());
    }
}

/// A stream cut in two anywhere, even inside a frame, is framed as it is
/// whole: the frames that the first chunk closes, then those that the second
/// closes, are the frames of both together, and the same bytes stay open.
pub proof fn lemma_two_chunks(p: Seq<u8>, a: Seq<u8>, b: Seq<u8>)
    ensures
        ({
            let first = scan_from((Seq::empty(), p), a);
            let second = scan_from((Seq::empty(), first.1), b);
            &&& first.0 + second.0 == scan_from((Seq::empty(), p), a + b).0
            &&& second.1 == scan_from((Seq::empty(), p), a + b).1
        }),
{
    let first = scan_from((Seq::empty(), p), a);
    lemma_scan_append((Seq::empty(), p), a, b);
    lemma_scan_keeps_frames(first.0, first.1, b);
}

/// The bytes of a frame that has not been closed yet.
pub struct FrameBuffer {
    pub pending: Vec<u8>,
}

impl FrameBuffer {
    /// A buffer that holds nothing.
    pub fn new() -> (r: FrameBuffer)
        ensures
            r.pending@ == Seq::<u8>::empty(),
    {
        FrameBuffer { pending: Vec::new() }
    }

    /// Reads one chunk and returns the frames that it closes, in order, each
    /// without its `\n`; the rest waits in the buffer.
    pub fn push_chunk(&mut self, chunk: &[u8]) -> (r: Vec<Vec<u8>>)
        ensures
            scan_from((Seq::empty(), old(self).pending@), chunk@) == (
            frames_view(r@), final(self).pending@),
    {
        let ghost p0 = self.pending@;
        let mut out: Vec<Vec<u8>> = Vec::new();
        let mut i: usize = 0;
        assert(chunk@.take(0) == Seq::<u8>::empty());
        assert(frames_view(out@) == Seq::<Seq<u8>>::empty());
        while i < chunk.len()
            invariant
                0 <= i <= chunk@.len(),
                scan_from((Seq::empty(), p0), chunk@.take(i as int)) == (
                frames_view(out@), self.pending@),
            decreases chunk@.len() - i,
        {
            let b = chunk[i];
            let ghost before = out@;
            if b == NEWLINE {
                let mut frame: Vec<u8> = Vec::new();
                std::mem::swap(&mut frame, &mut self.pending);
                out.push(frame);
                assert(frames_view(out@) == frames_view(before).push(frame@));
            } else {
                self.pending.push(b);
            }
            assert(chunk@.take(i + 1).drop_last() == chunk@.take(i as int));
            i += 1;
        }
        assert(chunk@.take(i as int) == chunk@);
        out
    }

    /// Ends the stream: `Ok` when no partial frame is left, otherwise the
    /// bytes of that partial frame.
    pub fn finish(self) -> (r: Result<(), Vec<u8>>)
        ensures
            self.pending@.len() == 0 <==> r is Ok,
            r matches Err(d) ==> d@ == self.pending@,
    {
        if self.pending.len() == 0 {
            Ok(())
        } else {
            Err(self.pending)
        }
    }
}

/// Frames a whole list of chunks, read one after another: the closed frames
/// and the bytes of the open frame.
pub fn frame_chunks(chunks: &Vec<Vec<u8>>) -> (r: (Vec<Vec<u8>>, Vec<u8>))
    ensures
        (frames_view(r.0@), r.1@) == scan(joined(frames_view(chunks@))),
{
    let mut buf = FrameBuffer::new();
    let mut out: Vec<Vec<u8>> = Vec::new();
    let mut i: usize = 0;
    let ghost cs = frames_view(chunks@);
    assert(cs.take(0) == Seq::<Seq<u8>>::empty());
    while i < chunks.len()
        invariant
            0 <= i <= chunks@.len(),
            cs == frames_view(chunks@),
            feed((Seq::empty(), Seq::empty()), cs.take(i as int)) == (
            frames_view(out@), buf.pending@),
        decreases chunks@.len() - i,
    {
        let ghost before = out@;
        let ghost p = buf.pending@;
        let fresh = buf.push_chunk(chunks[i].as_slice());
        let ghost fresh_all = fresh;
        proof {
            lemma_scan_keeps_frames(frames_view(before), p, cs[i as int]);
            assert(cs.take(i + 1).drop_last() == cs.take(i as int));
        }
        let mut fresh = fresh;
        out.append(&mut fresh);
        assert(frames_view(out@) == frames_view(before) + frames_view(fresh_all@));
        i += 1;
    }
    assert(cs.take(i as int) == cs);
    proof {
        lemma_chunking_is_invisible((Seq::empty(), Seq::empty()), cs);
    }
    (out, buf.pending)
}

} // verus!
