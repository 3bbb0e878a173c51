use vstd::prelude::*;

use crate::model::WriterState;
use crate::region::{ByteRegion, ReadableByteRegion};

verus! {

/// A writer that fills a fixed-size byte region from the front, never past
/// its end, and remembers whether a write ever did not fit.
pub struct SizedWriter<T: ByteRegion> {
    writer: T,
    count: usize,
    overflow: bool,
}

impl<T: ByteRegion> View for SizedWriter<T> {
    type V = WriterState;

    closed spec fn view(&self) -> WriterState {
        WriterState {
            buffer: self.writer.contents(),
            count: self.count as nat,
            overflow: self.overflow,
        }
    }
}

impl<T: ByteRegion> SizedWriter<T> {
    /// Well-formed: the cursor lies within the region. Every constructor
    /// gives a well-formed writer and every method keeps it so.
    pub open spec fn wf(&self) -> bool {
        self@.valid()
    }

    /// Puts a writer over `writer`, with the cursor at the start.
    pub fn new(writer: T) -> (r: Self)
        ensures
            r.wf(),
            r@ == WriterState::fresh(writer.contents()),
    {
        SizedWriter { writer, count: 0, overflow: false }
    }

    /// The number of bytes written since creation or the last clear.
    pub fn write_count(&self) -> (r: usize)
        requires
            self.wf(),
        ensures
            r == self@.count,
            r <= self@.capacity(),
    {
        self.count
    }

    /// Moves the cursor back to the start. The region's bytes and the
    /// overflow flag stay as they are.
    pub fn clear(&mut self)
        requires
            old(self).wf(),
        ensures
            final(self).wf(),
            final(self)@ == old(self)@.after_clear(),
    {
        self.count = 0;
    }

    /// Whether some write did not fit since the writer was made.
    pub fn overflowed(&self) -> (r: bool)
        ensures
            r == self@.overflow,
    {
        self.overflow
    }

    /// Appends as much of `bytes` as fits and returns how many bytes were
    /// copied. Raises the overflow flag when not all of `bytes` fit.
    pub fn write(&mut self, bytes: &[u8]) -> (r: usize)
        requires
            old(self).wf(),
        ensures
            final(self).wf(),
            r == old(self)@.accepted_len(bytes@),
            final(self)@ == old(self)@.after_write(bytes@),
            bytes@.len() == 0 ==> final(self)@ == old(self)@,
    {
        let cap = self.writer.region_len();
        let offset = self.count;
        let remaining = cap - offset;
        if bytes.len() > remaining {
            self.overflow = true;
        }
        let n: usize = if bytes.len() <= remaining {
            bytes.len()
        } else {
            remaining
        };
        let ghost start = self.writer.contents();
        let mut i: usize = 0;
        while i < n
            invariant
                i <= n,
                n <= bytes@.len(),
                offset + n <= cap,
                cap == start.len(),
                self.count == offset,
                self.overflow == (old(self).overflow || bytes@.len() > remaining),
                self.writer.contents() == start.take(offset as int) + bytes@.take(i as int)
                    + start.skip(offset + i),
            decreases n - i,
        {
            self.writer.store(offset + i, bytes[i]);
            proof {
                assert(self.writer.contents() =~= start.take(offset as int) + bytes@.take(
                    i + 1,
                ) + start.skip(offset + i + 1));
            }
            i += 1;
        }
        self.count = offset + n;
        proof {
            assert(self@.buffer =~= old(self)@.after_write(bytes@).buffer);
            if bytes@.len() == 0 {
                assert(self@.buffer =~= old(self)@.buffer);
            }
        }
        n
    }
}

impl<T: ReadableByteRegion> SizedWriter<T> {
    /// The bytes written since creation or the last clear.
    pub fn written_bytes(&self) -> (r: &[u8])
        requires
            self.wf(),
        ensures
            r@ == self@.written(),
    {
        let all = self.writer.as_bytes();
        &all[0..self.count]
    }
}

impl<'buf> SizedWriter<&'buf mut [u8]> {
    /// Puts a writer over a borrowed region. The caller gets the region back,
    /// holding what was written, when the writer is dropped.
    pub fn from_borrowed(b: &'buf mut [u8]) -> (r: Self)
        ensures
            r.wf(),
            r@ == WriterState::fresh(old(b)@),
    {
        SizedWriter { writer: b, count: 0, overflow: false }
    }
}

impl<const N: usize> SizedWriter<[u8; N]> {
    /// A writer that owns a zero-filled region of `N` bytes.
    pub fn with_size() -> (r: Self)
        ensures
            r.wf(),
            r@ == WriterState::fresh(Seq::new(N as nat, |i: int| 0u8)),
    {
        let buf = [0u8; N];
        proof {
            assert(buf@ =~= Seq::new(N as nat, |i: int| 0u8));
        }
        SizedWriter::new(buf)
    }

    /// A writer that owns `b`.
    pub fn from_owned(b: [u8; N]) -> (r: Self)
        ensures
            r.wf(),
            r@ == WriterState::fresh(b@),
    {
        SizedWriter::new(b)
    }

    /// Consumes the writer and hands back its region.
    pub fn into_inner(self) -> (r: [u8; N])
        ensures
            r@ == self@.buffer,
    {
        self.writer
    }
}

} // verus!
