//! Whole polls of a pipe, for a side that moves bytes to or from memory.

use crate::pipe::{copy_into, smaller, Pipe};
use crate::poll::{poll_view, Poll};
use crate::ring::{min, Gate};
use std::task::Waker;
use vstd::prelude::*;

verus! {

/// Overwriting `n` more bytes of `orig`, after the first `c`, with the next
/// `n` bytes of `data` extends the overwritten front by `n`.
proof fn lemma_splice(data: Seq<u8>, orig: Seq<u8>, c: int, n: int)
    requires
        0 <= c,
        0 <= n,
        c + n <= data.len(),
        c + n <= orig.len(),
    ensures
        ({
            let filled = data.take(c) + orig.skip(c);
            filled.take(c) + data.subrange(c, c + n) + filled.skip(c + n) == data.take(c + n)
                + orig.skip(c + n)
        }),
{
    let filled = data.take(c) + orig.skip(c);
    assert(filled.take(c) + data.subrange(c, c + n) + filled.skip(c + n) =~= data.take(c + n)
        + orig.skip(c + n));
}

impl Pipe {
    /// Polls the reader: moves the oldest bytes it knows of into the front
    /// of `dest`, chunk by chunk, until `dest` is full or those bytes are
    /// used up. The writer is woken after every chunk.
    ///
    /// `Pending` comes back only from an empty, open pipe, and then `waker`
    /// is registered. `Ready(0)` comes back from an empty, closed pipe, or
    /// when `dest` has no room.
    pub fn poll_read(&mut self, waker: &Waker, dest: &mut [u8]) -> (r: Poll<usize>)
        requires
            old(self).wf(),
        ensures
            final(self).wf(),
            final(self)@ == old(self)@.poll_read(old(dest)@.len() as int).0,
            poll_view(r) == old(self)@.poll_read(old(dest)@.len() as int).1,
            final(dest)@.len() == old(dest)@.len(),
            match r {
                Poll::Ready(n) => {
                    &&& n <= old(dest)@.len()
                    &&& n <= old(self)@.data.len()
                    &&& final(dest)@ == old(self)@.data.take(n as int) + old(dest)@.skip(n as int)
                },
                Poll::Pending => final(dest)@ == old(dest)@,
            },
    {
        proof {
            old(self).lemma_wf();
            old(self)@.lemma_gates();
        }
        match self.begin_read(waker) {
            Gate::Wait => {
                return Poll::Pending;
            },
            Gate::Shut => {
                assert(dest@ =~= old(self)@.data.take(0) + old(dest)@.skip(0));
                return Poll::Ready(0);
            },
            Gate::Open => {},
        }
        let ghost start = self@;
        let space: usize = dest.len();
        let mut count: usize = 0;
        assert(dest@ =~= start.data.take(0) + old(dest)@.skip(0));
        loop
            invariant
                self.wf(),
                start.inv(),
                space == old(dest)@.len(),
                dest@.len() == space,
                count <= space,
                count + self@.seen() == start.seen(),
                self@ == start.consume(count as int),
                dest@ == start.data.take(count as int) + old(dest)@.skip(count as int),
            ensures
                self.wf(),
                dest@.len() == space,
                count == min(space as int, start.seen()),
                self@ == start.consume(count as int),
                dest@ == start.data.take(count as int) + old(dest)@.skip(count as int),
            decreases space - count,
        {
            let bytes = self.chunk();
            let n: usize = smaller(bytes.len(), space - count);
            let part = vstd::slice::slice_subrange(bytes, 0, n);
            proof {
                start.lemma_consume(count as int, n as int);
                start.lemma_consume(count + n, 0);
                self@.lemma_read_chunk();
                assert(part@ =~= self@.data.take(n as int));
                lemma_splice(start.data, old(dest)@, count as int, n as int);
            }
            copy_into(dest, count, part);
            count += n;
            if !self.consume(n) {
                break ;
            }
        }
        Poll::Ready(count)
    }

    /// Polls the writer: moves bytes from the front of `src` into the pipe,
    /// chunk by chunk, until `src` is used up or the room the writer knows
    /// of is. The reader is woken after every chunk.
    ///
    /// `Pending` comes back only from a full, open pipe, and then `waker` is
    /// registered. `Ready(0)` comes back from a closed pipe, or when `src`
    /// is empty.
    pub fn poll_write(&mut self, waker: &Waker, src: &[u8]) -> (r: Poll<usize>)
        requires
            old(self).wf(),
        ensures
            final(self).wf(),
            final(self)@ == old(self)@.poll_write(src@).0,
            poll_view(r) == old(self)@.poll_write(src@).1,
            match r {
                Poll::Ready(n) => n <= src@.len() && final(self)@.data == old(self)@.data
                    + src@.take(n as int),
                Poll::Pending => final(self)@.data == old(self)@.data,
            },
    {
        proof {
            old(self).lemma_wf();
            old(self)@.lemma_gates();
        }
        match self.begin_write(waker) {
            Gate::Wait => {
                return Poll::Pending;
            },
            Gate::Shut => {
                assert(self@.data =~= old(self)@.data + src@.take(0));
                return Poll::Ready(0);
            },
            Gate::Open => {},
        }
        let ghost start = self@;
        let total: usize = src.len();
        let mut count: usize = 0;
        assert(src@.skip(0) =~= src@);
        loop
            invariant_except_break
                self@.fill(src@.skip(count as int)) == start.fill(src@),
            invariant
                self.wf(),
                start.inv(),
                total == src@.len(),
                count <= total,
                count + self@.room() == start.room(),
            ensures
                self.wf(),
                count == min(total as int, start.room()),
                self@ == start.fill(src@),
            decreases total - count,
        {
            let ghost before = self@;
            let n: usize = smaller(self.reserve(), total - count);
            let part = vstd::slice::slice_subrange(src, count, count + n);
            proof {
                let rest = src@.skip(count as int);
                self.lemma_wf();
                before.lemma_reserve();
                before.reserve().lemma_commit(part@);
                assert(part@ =~= rest.take(n as int));
                assert(rest.skip(n as int) =~= src@.skip(count + n));
            }
            count += n;
            if !self.commit(part) {
                break ;
            }
        }
        proof {
            start.lemma_fill(src@);
        }
        Poll::Ready(count)
    }
}

} // verus!
