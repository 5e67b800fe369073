//! The sink adapter: a [`Writer`] owns the destination byte buffer for a muxed
//! WebM stream. A writer is created either with positioning (seek) support or
//! without; without it, writes only append and a running byte counter stands in
//! for the stream position.

use vstd::prelude::*;

verus! {

broadcast use vstd::std_specs::vec::group_vec_axioms;

/// The abstract state of a [`Writer`]: the destination bytes, the write
/// cursor, the running count of bytes written, and whether the writer
/// supports repositioning.
pub ghost struct WriterView {
    /// The bytes of the destination buffer.
    pub dest: Seq<u8>,
    /// The current write cursor (always within the buffer).
    pub pos: int,
    /// How many bytes have been written through this writer (tracked only
    /// when `seekable` is false).
    pub written: int,
    /// Whether the writer supports repositioning.
    pub seekable: bool,
}

/// The buffer `base` with `s` written over it starting at position `p`:
/// bytes before `p` are kept, `s` replaces what follows, and whatever of
/// `base` lies beyond the end of `s` is kept too.
pub open spec fn splice_at(base: Seq<u8>, p: int, s: Seq<u8>) -> Seq<u8>
    recommends
        0 <= p <= base.len(),
{
    base.take(p) + s + if p + s.len() < base.len() {
        base.skip(p + s.len() as int)
    } else {
        Seq::empty()
    }
}

/// Writing two chunks in sequence is one write of their concatenation.
pub proof fn lemma_splice_append(base: Seq<u8>, p: int, s: Seq<u8>, t: Seq<u8>)
    requires
        0 <= p <= base.len(),
    ensures
        splice_at(splice_at(base, p, s), p + s.len(), t) == splice_at(base, p, s + t),
{
    assert(splice_at(splice_at(base, p, s), p + s.len(), t) =~= splice_at(base, p, s + t));
}

/// Seeking back into an already-written stream and overwriting a slice of it
/// yields the stream with that slice replaced.
pub proof fn lemma_splice_patch(base: Seq<u8>, p: int, s: Seq<u8>, q: int, t: Seq<u8>)
    requires
        0 <= p <= base.len(),
        0 <= q,
        q + t.len() <= s.len(),
    ensures
        splice_at(splice_at(base, p, s), p + q, t) == splice_at(
            base,
            p,
            s.take(q) + t + s.skip(q + t.len()),
        ),
{
    assert(splice_at(splice_at(base, p, s), p + q, t) =~= splice_at(
        base,
        p,
        s.take(q) + t + s.skip(q + t.len()),
    ));
}

/// Structure for writing a muxed WebM stream to an in-memory destination
/// buffer.
///
/// Create it with [`Writer::new`] for a destination with positioning (seek)
/// support, or [`Writer::new_non_seek`] for one without. Positioning support
/// allows the resulting WebM file to have things like a stream duration known
/// upfront.
///
/// Once this [`Writer`] is created, you can use it to create a
/// [`SegmentBuilder`](crate::mux::SegmentBuilder).
#[derive(Debug)]
pub struct Writer {
    dest: Vec<u8>,
    pos: usize,
    bytes_written: u64,
    seekable: bool,
}

impl View for Writer {
    type V = WriterView;

    closed spec fn view(&self) -> WriterView {
        WriterView {
            dest: self.dest@,
            pos: self.pos as int,
            written: self.bytes_written as int,
            seekable: self.seekable,
        }
    }
}

impl Writer {
    /// The writer's internal consistency: the cursor stays within the buffer,
    /// and without seek support the cursor sits at the end (writes append).
    pub closed spec fn wf(&self) -> bool {
        &&& self.pos <= self.dest@.len()
        &&& !self.seekable ==> {
            &&& self.pos == self.dest@.len()
            &&& self.bytes_written <= self.dest@.len()
        }
    }

    /// A well-formed writer's cursor lies within its buffer.
    pub proof fn lemma_wf_cursor(&self)
        requires
            self.wf(),
        ensures
            0 <= self@.pos <= self@.dest.len(),
    {
    }

    /// Creates a [`Writer`] with positioning support over `dest`, with the
    /// write cursor at the start of the buffer.
    pub fn new(dest: Vec<u8>) -> (w: Writer)
        ensures
            w.wf(),
            w@ == (WriterView { dest: dest@, pos: 0, written: 0, seekable: true }),
    {
        Writer { dest, pos: 0, bytes_written: 0, seekable: true }
    }

    /// Creates a [`Writer`] without positioning support over `dest`. Writes
    /// append to the buffer, and the position reported is the running total of
    /// bytes written so far rather than an offset into the buffer.
    pub fn new_non_seek(dest: Vec<u8>) -> (w: Writer)
        ensures
            w.wf(),
            w@ == (WriterView {
                dest: dest@,
                pos: dest@.len() as int,
                written: 0,
                seekable: false,
            }),
    {
        let pos: usize = dest.len();
        Writer { dest, pos, bytes_written: 0, seekable: false }
    }

    /// Consumes this [`Writer`], and returns the destination buffer it was
    /// created with.
    #[must_use]
    pub fn into_inner(self) -> (dest: Vec<u8>)
        ensures
            dest@ == self@.dest,
    {
        let Writer { dest, .. } = self;
        dest
    }

    /// Writes all of `buf` at the current cursor, overwriting existing bytes
    /// and extending the buffer as needed. Reports whether the whole buffer
    /// was written; for this in-memory destination that is always the case.
    pub(crate) fn write(&mut self, buf: &[u8]) -> (ok: bool)
        requires
            old(self).wf(),
        ensures
            final(self).wf(),
            ok,
            final(self)@.dest == splice_at(old(self)@.dest, old(self)@.pos, buf@),
            final(self)@.pos == old(self)@.pos + buf@.len(),
            final(self)@.seekable == old(self)@.seekable,
            final(self)@.written == if old(self)@.seekable {
                old(self)@.written
            } else {
                old(self)@.written + buf@.len()
            },
    {
        let n: usize = buf.len();
        let mut i: usize = 0;
        while i < n
            invariant
                old(self).wf(),
                i <= n == buf@.len(),
                self.pos == old(self)@.pos + i,
                self.pos <= self.dest@.len(),
                self.seekable == old(self).seekable,
                self.bytes_written == old(self).bytes_written,
                self.dest@ == splice_at(old(self)@.dest, old(self)@.pos, buf@.subrange(0, i as int)),
                !self.seekable ==> self.pos == self.dest@.len(),
            decreases n - i,
        {
            let b: u8 = buf[i];
            let len: usize = self.dest.len();
            if self.pos < len {
                self.dest[self.pos] = b;
            } else {
                self.dest.push(b);
            }
            let len2: usize = self.dest.len();
            assert(self.pos < len2);
            self.pos = self.pos + 1;
            proof {
                assert(self.dest@ =~= splice_at(
                    old(self)@.dest,
                    old(self)@.pos,
                    buf@.subrange(0, i + 1),
                ));
            }
            i = i + 1;
        }
        proof {
            assert(buf@.subrange(0, n as int) =~= buf@);
        }
        if !self.seekable {
            self.bytes_written = self.bytes_written + n as u64;
        }
        true
    }

    /// The engine-facing writer handle. The engine drives its output through
    /// this sink; in this design the writer itself is that sink, so the
    /// handle is a borrow of it.
    pub fn mkv_writer(&self) -> (r: &Writer)
        ensures
            r == self,
    {
        self
    }

    /// Whether this writer supports repositioning.
    pub(crate) fn is_seekable(&self) -> (r: bool)
        ensures
            r == self@.seekable,
    {
        self.seekable
    }

    /// The current logical write offset: the cursor for a writer with
    /// positioning support, else the running total of bytes written.
    pub(crate) fn get_position(&self) -> (r: u64)
        ensures
            r == if self@.seekable {
                self@.pos
            } else {
                self@.written
            },
    {
        if self.seekable {
            self.pos as u64
        } else {
            self.bytes_written
        }
    }

    /// Repositions the cursor for backfilling. Fails (and changes nothing)
    /// without positioning support or when `pos` lies beyond the buffer.
    pub(crate) fn set_position(&mut self, pos: u64) -> (ok: bool)
        requires
            old(self).wf(),
        ensures
            final(self).wf(),
            ok == (old(self)@.seekable && pos <= old(self)@.dest.len()),
            ok ==> final(self)@ == (WriterView { pos: pos as int, ..old(self)@ }),
            !ok ==> final(self)@ == old(self)@,
    {
        if !self.seekable {
            return false;
        }
        let len: usize = self.dest.len();
        if pos <= len as u64 {
            self.pos = pos as usize;
            true
        } else {
            false
        }
    }
}

} // verus!
