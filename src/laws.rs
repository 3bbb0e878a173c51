use vstd::prelude::*;

use crate::model::{joined, WriterState};

verus! {

/// What a run of writes does to a well-formed state, summed up: the cursor
/// moves by the joined input, stopping at the end of the region; the bytes
/// before the cursor are the old ones followed by the start of the joined
/// input; the flag is raised exactly when the joined input did not fit.
proof fn lemma_run(s: WriterState, writes: Seq<Seq<u8>>)
    requires
        s.valid(),
    ensures
        ({
            let t = s.after_writes(writes);
            let total = s.count + joined(writes).len();
            &&& t.valid()
            &&& t.buffer.len() == s.buffer.len()
            &&& t.count == if total <= s.capacity() {
                total
            } else {
                s.capacity()
            }
            &&& s.copied_total(writes) == t.count - s.count
            &&& t.overflow == (s.overflow || total > s.capacity())
            &&& t.written() == s.written() + joined(writes).take(t.count - s.count)
        }),
    decreases writes.len(),
{
    if writes.len() == 0 {
        assert(s.written() + joined(writes).take(0) =~= s.written());
    } else {
        let prev = writes.drop_last();
        let last = writes.last();
        lemma_run(s, prev);
        let t = s.after_writes(prev);
        let u = t.after_write(last);
        let n = t.accepted_len(last);
        let jp = joined(prev);
        assert(joined(writes) == jp + last);
        assert(u.written() =~= t.written() + last.take(n as int));
        if s.count + jp.len() <= s.capacity() {
            assert(jp.take(t.count - s.count) =~= jp);
            assert((jp + last).take(u.count - s.count) =~= jp + last.take(n as int));
        } else {
            assert(n == 0);
            assert((jp + last).take(u.count - s.count) =~= jp.take(t.count - s.count));
            assert(last.take(0) =~= Seq::<u8>::empty());
        }
        assert(u.written() =~= s.written() + joined(writes).take(u.count - s.count));
    }
}

/// Writes that fit, on a new writer: the written bytes are the inputs one
/// after another, the flag stays down, and the count is their total length,
/// which is also the sum of the returned counts.
pub proof fn law_writes_that_fit(buffer: Seq<u8>, writes: Seq<Seq<u8>>)
    requires
        joined(writes).len() <= buffer.len(),
    ensures
        ({
            let s = WriterState::fresh(buffer);
            let t = s.after_writes(writes);
            &&& t.written() == joined(writes)
            &&& !t.overflow
            &&& t.count == joined(writes).len()
            &&& s.copied_total(writes) == joined(writes).len()
        }),
{
    let s = WriterState::fresh(buffer);
    lemma_run(s, writes);
    assert(s.written() =~= Seq::<u8>::empty());
    assert(joined(writes).take(joined(writes).len() as int) =~= joined(writes));
    assert(s.written() + joined(writes) =~= joined(writes));
}

/// Writes that do not fit, on a new writer: the returned counts sum to the
/// capacity, the region ends full and the flag ends raised.
pub proof fn law_writes_that_overflow(buffer: Seq<u8>, writes: Seq<Seq<u8>>)
    requires
        joined(writes).len() > buffer.len(),
    ensures
        ({
            let s = WriterState::fresh(buffer);
            let t = s.after_writes(writes);
            &&& s.copied_total(writes) == buffer.len()
            &&& t.count == buffer.len()
            &&& t.overflow
        }),
{
    lemma_run(WriterState::fresh(buffer), writes);
}

/// On a new writer, the flag is raised after the first `k` writes exactly
/// when their joined length passes the capacity.
pub proof fn law_overflow_point(buffer: Seq<u8>, writes: Seq<Seq<u8>>, k: int)
    requires
        0 <= k <= writes.len(),
    ensures
        WriterState::fresh(buffer).after_writes(writes.take(k)).overflow == (joined(
            writes.take(k),
        ).len() > buffer.len()),
{
    lemma_run(WriterState::fresh(buffer), writes.take(k));
}

/// Later writes never move the cursor back: after the first `k` writes it
/// stands at least where it stood after the first `j`, for `j <= k`, and a
/// raised flag stays raised.
pub proof fn law_cursor_never_falls(s: WriterState, writes: Seq<Seq<u8>>, j: int, k: int)
    requires
        s.valid(),
        0 <= j <= k <= writes.len(),
    ensures
        s.after_writes(writes.take(j)).count <= s.after_writes(writes.take(k)).count,
        s.after_writes(writes.take(j)).overflow ==> s.after_writes(writes.take(k)).overflow,
    decreases k - j,
{
    if j < k {
        law_cursor_never_falls(s, writes, j, k - 1);
        assert(writes.take(k).drop_last() =~= writes.take(k - 1));
        assert(writes.take(k).last() == writes[k - 1]);
    }
}

/// A clear keeps the flag, and a write after it fills the region from the
/// start with as much of the input as fits.
pub proof fn law_write_after_clear(s: WriterState, bytes: Seq<u8>)
    requires
        s.valid(),
    ensures
        s.after_clear().overflow == s.overflow,
        s.after_clear().count == 0,
        s.after_clear().after_write(bytes).written() == bytes.take(
            s.after_clear().accepted_len(bytes) as int,
        ),
        s.overflow ==> s.after_clear().after_write(bytes).overflow,
{
    let c = s.after_clear();
    let n = c.accepted_len(bytes);
    assert(c.after_write(bytes).written() =~= bytes.take(n as int));
}

/// On a new writer, after any run of writes, the bytes before the cursor are
/// the start of the joined inputs, in order: all of them when they fit.
pub proof fn law_written_prefix(buffer: Seq<u8>, writes: Seq<Seq<u8>>)
    ensures
        ({
            let t = WriterState::fresh(buffer).after_writes(writes);
            t.buffer.take(t.count as int) == joined(writes).take(t.count as int)
        }),
{
    let s = WriterState::fresh(buffer);
    lemma_run(s, writes);
    assert(s.written() =~= Seq::<u8>::empty());
    let t = s.after_writes(writes);
    assert(s.written() + joined(writes).take(t.count as int) =~= joined(writes).take(
        t.count as int,
    ));
}

} // verus!
