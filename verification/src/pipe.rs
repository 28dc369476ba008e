//! A bounded single-producer single-consumer pipe of bytes.
//!
//! A [`Pipe`] is a ring ([`Ring`]) laid out in a buffer, together with what
//! its two sides keep to themselves and the two slots they park their wakers
//! in. Its storage is claimed piece by piece as the writer gets to it, and
//! each piece is zeroed as it is claimed.
//!
//! Every operation is one step of one side and needs the pipe exclusively. A
//! host that lets two threads share a pipe takes turns at it. A side that
//! moves bytes to or from something that may block works in steps
//! (`begin_read`, `chunk`, `consume`; `begin_write`, `reserve`, `commit`)
//! and lets go of the pipe between them. A side that moves bytes to or from
//! memory does the whole poll in one go (`poll_read`, `poll_write`).

use crate::ring::{distance, min, real_index, Gate, Ring, CHUNK_MAX, ZERO_STEP};
use crate::waker::{armed, empty_slot, register, take, wake};
use futures::task::AtomicWaker;
use std::task::Waker;
use vstd::prelude::*;

mod polls;

verus! {

/// Where in the buffer the `i`-th byte in flight sits.
pub open spec fn slot(cap: int, head: int, i: int) -> int {
    let v = head + i;
    if v < cap {
        v
    } else if v < 2 * cap {
        v - cap
    } else {
        v - 2 * cap
    }
}

/// What the reader keeps to itself.
struct Reader {
    /// Always equal to the shared `head`.
    head: usize,
    /// A copy of the shared `tail` that may have fallen behind.
    tail: usize,
}

/// What the writer keeps to itself.
struct Writer {
    /// A copy of the shared `head` that may have fallen behind.
    head: usize,
    /// Always equal to the shared `tail`.
    tail: usize,
    /// How much of the buffer has been claimed and zeroed. The buffer is
    /// exactly that long; the rest of the capacity is untouched memory.
    zeroed_until: usize,
}

/// A byte ring in memory, with the private state of its two sides.
pub struct Pipe {
    /// Index of the oldest byte in flight, in `0..2*cap`.
    head: usize,
    /// Index one past the newest byte in flight, in `0..2*cap`.
    tail: usize,
    /// Where the reader parks itself.
    reader_waker: AtomicWaker,
    /// Where the writer parks itself.
    writer_waker: AtomicWaker,
    /// Set once either side has gone.
    closed: bool,
    /// The claimed prefix of the ring's storage.
    buffer: Vec<u8>,
    /// Capacity in bytes.
    cap: usize,
    reader: Reader,
    writer: Writer,
}

impl View for Pipe {
    type V = Ring;

    closed spec fn view(&self) -> Ring {
        Ring {
            cap: self.cap as int,
            head: self.head as int,
            tail: self.tail as int,
            reader_tail: self.reader.tail as int,
            writer_head: self.writer.head as int,
            zeroed: self.writer.zeroed_until as int,
            closed: self.closed,
            reader_armed: armed(self.reader_waker),
            writer_armed: armed(self.writer_waker),
            data: Seq::new(
                distance(self.cap as int, self.head as int, self.tail as int) as nat,
                |i: int| self.buffer@[slot(self.cap as int, self.head as int, i)],
            ),
        }
    }
}

fn distance_of(cap: usize, a: usize, b: usize) -> (d: usize)
    requires
        a < 2 * cap <= usize::MAX,
        b < 2 * cap,
    ensures
        d == distance(cap as int, a as int, b as int),
        d < 2 * cap,
{
    if a <= b {
        b - a
    } else {
        2 * cap - (a - b)
    }
}

fn real_index_of(cap: usize, i: usize) -> (r: usize)
    requires
        i < 2 * cap <= usize::MAX,
    ensures
        r == real_index(cap as int, i as int),
        r < cap,
{
    if i < cap {
        i
    } else {
        i - cap
    }
}

pub(crate) fn smaller(a: usize, b: usize) -> (m: usize)
    ensures
        m == min(a as int, b as int),
{
    if a <= b {
        a
    } else {
        b
    }
}

/// Writes `src` over the bytes of `dest` from position `at` on.
pub(crate) fn copy_into(dest: &mut [u8], at: usize, src: &[u8])
    requires
        at + src@.len() <= old(dest)@.len(),
    ensures
        final(dest)@.len() == old(dest)@.len(),
        final(dest)@ == old(dest)@.take(at as int) + src@ + old(dest)@.skip(at + src@.len()),
{
    let n: usize = src.len();
    let total: usize = dest.len();
    let mut j: usize = 0;
    while j < n
        invariant
            j <= n,
            n == src@.len(),
            at + n <= total,
            total == dest@.len(),
            dest@.len() == old(dest)@.len(),
            forall|i: int|
                0 <= i < dest@.len() ==> dest@[i] == if at <= i < at + j {
                    src@[i - at]
                } else {
                    old(dest)@[i]
                },
        decreases n - j,
    {
        dest[at + j] = src[j];
        j += 1;
    }
    assert(dest@ =~= old(dest)@.take(at as int) + src@ + old(dest)@.skip(at + src@.len()));
}

/// Makes a pipe of `cap` bytes: empty, open, with nothing of its storage
/// claimed yet.
pub fn pipe(cap: usize) -> (p: Pipe)
    requires
        0 < cap,
        cap * 2 <= usize::MAX,
    ensures
        p.wf(),
        p@ == Ring::fresh(cap as int),
{
    let p = Pipe {
        head: 0,
        tail: 0,
        reader_waker: empty_slot(),
        writer_waker: empty_slot(),
        closed: false,
        buffer: Vec::with_capacity(cap),
        cap,
        reader: Reader { head: 0, tail: 0 },
        writer: Writer { head: 0, tail: 0, zeroed_until: 0 },
    };
    assert(p@.data =~= Seq::<u8>::empty());
    p
}

impl Pipe {
    /// What every pipe satisfies between two steps: it is a ring in order,
    /// each side's own index is the shared one, and the buffer is the
    /// claimed prefix.
    pub closed spec fn wf(&self) -> bool {
        &&& self@.inv()
        &&& 2 * self.cap <= usize::MAX
        &&& self.reader.head == self.head
        &&& self.writer.tail == self.tail
        &&& self.buffer@.len() == self.writer.zeroed_until
    }

    /// A pipe in order is a ring in order.
    pub proof fn lemma_wf(&self)
        requires
            self.wf(),
        ensures
            self@.inv(),
            2 * self@.cap <= usize::MAX,
    {
    }

    /// The capacity the pipe was made with.
    pub fn capacity(&self) -> (cap: usize)
        requires
            self.wf(),
        ensures
            cap == self@.cap,
    {
        self.cap
    }

    /// Bytes in flight.
    pub fn len(&self) -> (n: usize)
        requires
            self.wf(),
        ensures
            n == self@.data.len(),
            n <= self@.cap,
    {
        distance_of(self.cap, self.head, self.tail)
    }

    /// Whether no byte is in flight: the two indices coincide.
    pub fn is_empty(&self) -> (b: bool)
        requires
            self.wf(),
        ensures
            b == (self@.data.len() == 0),
            b == (self@.head == self@.tail),
    {
        self.head == self.tail
    }

    /// Whether as many bytes are in flight as the pipe can hold: the two
    /// indices are the capacity apart.
    pub fn is_full(&self) -> (b: bool)
        requires
            self.wf(),
        ensures
            b == (self@.data.len() == self@.cap),
            b == (distance(self@.cap, self@.head, self@.tail) == self@.cap),
    {
        distance_of(self.cap, self.head, self.tail) == self.cap
    }

    /// Whether either side has gone.
    pub fn is_closed(&self) -> (b: bool)
        ensures
            b == self@.closed,
    {
        self.closed
    }

    /// The reader arrives at the pipe.
    ///
    /// It goes by its own copy of `tail` while that shows bytes. Otherwise
    /// it reloads the copy, and if there is still nothing it registers
    /// `waker` and only then reloads once more, so that a byte published
    /// between the first look and the registration is not slept through. A
    /// reader that finds bytes takes its waker out of the slot.
    pub fn begin_read(&mut self, waker: &Waker) -> (gate: Gate)
        requires
            old(self).wf(),
        ensures
            final(self).wf(),
            (final(self)@, gate) == old(self)@.reader_gate(),
    {
        let cap: usize = self.cap;
        if distance_of(cap, self.reader.head, self.reader.tail) == 0 {
            self.reader.tail = self.tail;
            if distance_of(cap, self.reader.head, self.reader.tail) == 0 {
                register(&mut self.reader_waker, waker);
                self.reader.tail = self.tail;
                if distance_of(cap, self.reader.head, self.reader.tail) == 0 {
                    assert(final(self)@.data =~= old(self)@.data);
                    if self.closed {
                        return Gate::Shut;
                    } else {
                        return Gate::Wait;
                    }
                }
            }
        }
        take(&mut self.reader_waker);
        assert(self@.data =~= old(self)@.data);
        Gate::Open
    }

    /// Length of the chunk that the reader may take next: the oldest bytes it
    /// knows of, as far as they lie in one piece of the buffer, and no more
    /// than `CHUNK_MAX`.
    pub fn read_chunk(&self) -> (n: usize)
        requires
            self.wf(),
        ensures
            n == self@.read_chunk(),
            n <= self@.seen(),
    {
        let cap: usize = self.cap;
        let seen: usize = distance_of(cap, self.reader.head, self.reader.tail);
        let to_end: usize = cap - real_index_of(cap, self.reader.head);
        smaller(smaller(CHUNK_MAX, seen), to_end)
    }

    /// The chunk that the reader may take next.
    pub fn chunk(&self) -> (bytes: &[u8])
        requires
            self.wf(),
        ensures
            bytes@ == self@.data.take(self@.read_chunk()),
            bytes@.len() == self@.read_chunk(),
    {
        let n: usize = self.read_chunk();
        let from: usize = real_index_of(self.cap, self.reader.head);
        let bytes = vstd::slice::slice_subrange(self.buffer.as_slice(), from, from + n);
        assert(bytes@ =~= self@.data.take(n as int));
        bytes
    }

    /// The reader has taken the `n` oldest bytes: `head` moves on, the move
    /// is published and the writer is woken. With `n == 0` nothing happens
    /// and the answer is `false`: the poll is over.
    pub fn consume(&mut self, n: usize) -> (more: bool)
        requires
            old(self).wf(),
            n <= old(self)@.read_chunk(),
        ensures
            final(self).wf(),
            final(self)@ == old(self)@.consume(n as int),
            more == (n > 0),
    {
        if n == 0 {
            return false;
        }
        let cap: usize = self.cap;
        if self.reader.head + n < 2 * cap {
            self.reader.head += n;
        } else {
            self.reader.head = 0;
        }
        self.head = self.reader.head;
        wake(&mut self.writer_waker);
        assert(self@.data =~= old(self)@.data.skip(n as int));
        true
    }

    /// The writer arrives at the pipe.
    ///
    /// A closed pipe turns it away at once. Otherwise it goes by its own
    /// copy of `head` while that shows room; when it shows none it reloads
    /// the copy, and if there is still no room it registers `waker` and
    /// only then reloads once more, so that room made between the first
    /// look and the registration is not slept through. A writer that finds
    /// room takes its waker out of the slot.
    pub fn begin_write(&mut self, waker: &Waker) -> (gate: Gate)
        requires
            old(self).wf(),
        ensures
            final(self).wf(),
            (final(self)@, gate) == old(self)@.writer_gate(),
    {
        if self.closed {
            return Gate::Shut;
        }
        let cap: usize = self.cap;
        if distance_of(cap, self.writer.head, self.writer.tail) == cap {
            self.writer.head = self.head;
            if distance_of(cap, self.writer.head, self.writer.tail) == cap {
                register(&mut self.writer_waker, waker);
                self.writer.head = self.head;
                if distance_of(cap, self.writer.head, self.writer.tail) == cap {
                    assert(final(self)@.data =~= old(self)@.data);
                    if self.closed {
                        return Gate::Shut;
                    } else {
                        return Gate::Wait;
                    }
                }
            }
        }
        take(&mut self.writer_waker);
        assert(self@.data =~= old(self)@.data);
        Gate::Open
    }

    /// The writer claims its next chunk and learns how long it is.
    ///
    /// The chunk starts where `tail` points. Whatever part of it lies beyond
    /// the claimed prefix of the buffer is claimed now, filled with zeros.
    pub fn reserve(&mut self) -> (n: usize)
        requires
            old(self).wf(),
        ensures
            final(self).wf(),
            n == old(self)@.write_chunk(),
            final(self)@ == old(self)@.reserve(),
            n <= final(self)@.committable(),
    {
        let cap: usize = self.cap;
        let zeroed: usize = self.writer.zeroed_until;
        let step: usize = if zeroed >= (CHUNK_MAX - ZERO_STEP) / 2 {
            CHUNK_MAX
        } else {
            zeroed * 2 + ZERO_STEP
        };
        let room: usize = cap - distance_of(cap, self.writer.head, self.writer.tail);
        let from: usize = real_index_of(cap, self.writer.tail);
        let n: usize = smaller(smaller(step, room), cap - from);
        let to: usize = from + n;
        if zeroed < to {
            self.buffer.resize(to, 0u8);
            self.writer.zeroed_until = to;
            assert forall|i: int| 0 <= i < old(self)@.data.len() implies self@.data[i] == old(
                self,
            )@.data[i] by {
                let at = slot(cap as int, self.head as int, i);
                assert(self.buffer@.subrange(0, zeroed as int)[at] == old(self).buffer@[at]);
            }
        }
        assert(self@.data =~= old(self)@.data);
        n
    }

    /// Most bytes that the writer may put in now.
    pub fn committable(&self) -> (n: usize)
        requires
            self.wf(),
        ensures
            n == self@.committable(),
    {
        let cap: usize = self.cap;
        let room: usize = cap - distance_of(cap, self.writer.head, self.writer.tail);
        let from: usize = real_index_of(cap, self.writer.tail);
        smaller(room, self.writer.zeroed_until - from)
    }

    /// The writer has filled the front of its chunk with `bytes`: they join
    /// the bytes in flight, `tail` moves on, the move is published and the
    /// reader is woken. With no bytes nothing happens and the answer is
    /// `false`: the poll is over.
    pub fn commit(&mut self, bytes: &[u8]) -> (more: bool)
        requires
            old(self).wf(),
            bytes@.len() <= old(self)@.committable(),
        ensures
            final(self).wf(),
            final(self)@ == old(self)@.commit(bytes@),
            more == (bytes@.len() > 0),
    {
        let n: usize = bytes.len();
        if n == 0 {
            return false;
        }
        let cap: usize = self.cap;
        let from: usize = real_index_of(cap, self.writer.tail);
        copy_into(self.buffer.as_mut_slice(), from, bytes);
        if self.writer.tail + n < 2 * cap {
            self.writer.tail += n;
        } else {
            self.writer.tail = 0;
        }
        self.tail = self.writer.tail;
        wake(&mut self.reader_waker);
        assert(self@.data =~= old(self)@.data + bytes@);
        true
    }

    /// The reader goes: the pipe is closed and the writer is woken.
    pub fn close_reader(&mut self)
        requires
            old(self).wf(),
        ensures
            final(self).wf(),
            final(self)@ == old(self)@.close_reader(),
    {
        self.closed = true;
        wake(&mut self.writer_waker);
        assert(self@.data =~= old(self)@.data);
    }

    /// The writer goes: the pipe is closed and the reader is woken. Bytes in
    /// flight stay.
    pub fn close_writer(&mut self)
        requires
            old(self).wf(),
        ensures
            final(self).wf(),
            final(self)@ == old(self)@.close_writer(),
    {
        self.closed = true;
        wake(&mut self.reader_waker);
        assert(self@.data =~= old(self)@.data);
    }
}

} // verus!
