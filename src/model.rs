use vstd::prelude::*;

verus! {

/// The inputs of a run of writes, one after another.
pub open spec fn joined(writes: Seq<Seq<u8>>) -> Seq<u8>
    decreases writes.len(),
{
    if writes.len() == 0 {
        Seq::empty()
    } else {
        joined(writes.drop_last()) + writes.last()
    }
}

/// The abstract state of a bounded writer: the bytes of its backing region,
/// the write cursor, and the sticky overflow flag.
pub ghost struct WriterState {
    pub buffer: Seq<u8>,
    pub count: nat,
    pub overflow: bool,
}

impl WriterState {
    /// A writer that has just been put over `buffer`.
    pub open spec fn fresh(buffer: Seq<u8>) -> WriterState {
        WriterState { buffer, count: 0, overflow: false }
    }

    /// The cursor never passes the end of the region.
    pub open spec fn valid(self) -> bool {
        self.count <= self.buffer.len()
    }

    pub open spec fn capacity(self) -> nat {
        self.buffer.len()
    }

    /// How many bytes still fit.
    pub open spec fn room(self) -> nat {
        (self.buffer.len() - self.count) as nat
    }

    /// The bytes written since creation or the last clear.
    pub open spec fn written(self) -> Seq<u8> {
        self.buffer.take(self.count as int)
    }

    /// How many bytes of `bytes` a write copies: as many as fit.
    pub open spec fn accepted_len(self, bytes: Seq<u8>) -> nat {
        if bytes.len() <= self.room() {
            bytes.len()
        } else {
            self.room()
        }
    }

    /// The state after writing `bytes`: the accepted prefix is copied at the
    /// cursor, the cursor moves past it, and the flag is raised when the
    /// input did not fit.
    pub open spec fn after_write(self, bytes: Seq<u8>) -> WriterState {
        let n = self.accepted_len(bytes);
        WriterState {
            buffer: self.buffer.take(self.count as int) + bytes.take(n as int) + self.buffer.skip(
                (self.count + n) as int,
            ),
            count: self.count + n,
            overflow: self.overflow || bytes.len() > self.room(),
        }
    }

    /// The state after each of `writes` in turn.
    pub open spec fn after_writes(self, writes: Seq<Seq<u8>>) -> WriterState
        decreases writes.len(),
    {
        if writes.len() == 0 {
            self
        } else {
            self.after_writes(writes.drop_last()).after_write(writes.last())
        }
    }

    /// The sum of the counts that each of `writes` returns in turn.
    pub open spec fn copied_total(self, writes: Seq<Seq<u8>>) -> nat
        decreases writes.len(),
    {
        if writes.len() == 0 {
            0
        } else {
            self.copied_total(writes.drop_last()) + self.after_writes(
                writes.drop_last(),
            ).accepted_len(writes.last())
        }
    }

    /// The state after a clear: the cursor is back at the start, the bytes
    /// and the flag are kept.
    pub open spec fn after_clear(self) -> WriterState {
        WriterState { count: 0, ..self }
    }
}

} // verus!
