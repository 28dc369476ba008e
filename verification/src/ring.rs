//! The mathematics of a bounded single-producer single-consumer byte ring.
//!
//! A ring of capacity `cap` keeps two indices, `head` (moved by the reader)
//! and `tail` (moved by the writer). Both run over `0..2*cap`; the byte an
//! index points at sits at the index taken modulo `cap`. Running the indices
//! over twice the capacity tells an empty ring (`head == tail`) from a full
//! one (the two are `cap` apart).
//!
//! Each side works from a copy of the other side's index and refreshes the
//! copy only when it shows nothing to do. A side that still finds nothing to
//! do registers its waker, looks once more, and waits.

use crate::poll::Poll;
use vstd::prelude::*;

verus! {

/// Most bytes moved between two wake-ups of the other side.
pub const CHUNK_MAX: usize = 131072;

/// Bytes of fresh buffer the writer may claim before it has claimed any.
pub const ZERO_STEP: usize = 4096;

/// What a side finds when it arrives at the ring.
#[derive(Debug, PartialEq, Eq, Clone, Copy)]
pub enum Gate {
    /// There is something to move.
    Open,
    /// Nothing to move, and the other side is gone.
    Shut,
    /// Nothing to move yet; the side's waker is registered.
    Wait,
}

/// Steps from index `a` forward to index `b` on the circle of `2 * cap` indices.
pub open spec fn distance(cap: int, a: int, b: int) -> int {
    if a <= b {
        b - a
    } else {
        2 * cap - (a - b)
    }
}

/// Where in the buffer the byte at index `i` sits.
pub open spec fn real_index(cap: int, i: int) -> int {
    if i < cap {
        i
    } else {
        i - cap
    }
}

/// Index `i` moved forward by `n` steps on the circle of `2 * cap` indices.
pub open spec fn wrap_add(cap: int, i: int, n: int) -> int {
    if i + n < 2 * cap {
        i + n
    } else {
        i + n - 2 * cap
    }
}

/// The smaller of two numbers.
pub open spec fn min(a: int, b: int) -> int {
    if a <= b {
        a
    } else {
        b
    }
}

/// The larger of two numbers.
pub open spec fn max(a: int, b: int) -> int {
    if a >= b {
        a
    } else {
        b
    }
}

/// The state of a ring.
pub struct Ring {
    /// Capacity in bytes.
    pub cap: int,
    /// Index of the oldest byte in flight.
    pub head: int,
    /// Index one past the newest byte in flight.
    pub tail: int,
    /// The reader's copy of `tail`.
    pub reader_tail: int,
    /// The writer's copy of `head`.
    pub writer_head: int,
    /// Length of the buffer prefix that has been claimed and zeroed.
    pub zeroed: int,
    /// Whether one side has gone.
    pub closed: bool,
    /// Whether the reader's waker is registered.
    pub reader_armed: bool,
    /// Whether the writer's waker is registered.
    pub writer_armed: bool,
    /// The bytes in flight, oldest first.
    pub data: Seq<u8>,
}

impl Ring {
    /// A ring as it is made: empty, open, nothing claimed.
    pub open spec fn fresh(cap: int) -> Ring {
        Ring {
            cap,
            head: 0,
            tail: 0,
            reader_tail: 0,
            writer_head: 0,
            zeroed: 0,
            closed: false,
            reader_armed: false,
            writer_armed: false,
            data: Seq::empty(),
        }
    }

    /// Bytes in flight.
    pub open spec fn len(self) -> int {
        distance(self.cap, self.head, self.tail)
    }

    /// Bytes in flight that the reader knows of.
    pub open spec fn seen(self) -> int {
        distance(self.cap, self.head, self.reader_tail)
    }

    /// Free bytes that the writer knows of.
    pub open spec fn room(self) -> int {
        self.cap - distance(self.cap, self.writer_head, self.tail)
    }

    /// What holds of every ring between two polls: the indices are in range
    /// and no further apart than the capacity; neither side believes in
    /// more than there is; while the buffer is not claimed to its end, the
    /// bytes in flight lie in the claimed prefix and have never gone round;
    /// and no side sleeps over work: where the reader's waker is registered
    /// the ring is empty, and where the writer's is, it is full.
    pub open spec fn inv(self) -> bool {
        &&& 0 < self.cap
        &&& 0 <= self.head < 2 * self.cap
        &&& 0 <= self.tail < 2 * self.cap
        &&& 0 <= self.reader_tail < 2 * self.cap
        &&& 0 <= self.writer_head < 2 * self.cap
        &&& self.data.len() == self.len()
        &&& self.seen() <= self.len() <= self.cap - self.room() <= self.cap
        &&& 0 <= self.zeroed <= self.cap
        &&& self.zeroed < self.cap ==> self.head <= self.tail <= self.zeroed
        &&& self.reader_armed ==> self.len() == 0
        &&& self.writer_armed ==> self.len() == self.cap
    }

    /// The reader arrives. It goes by its copy of `tail` while that shows
    /// bytes. When the copy shows none it is refreshed; when there are
    /// still none the reader's waker is registered.
    pub open spec fn reader_gate(self) -> (Ring, Gate) {
        if self.seen() > 0 {
            (Ring { reader_armed: false, ..self }, Gate::Open)
        } else if self.len() > 0 {
            (Ring { reader_tail: self.tail, reader_armed: false, ..self }, Gate::Open)
        } else {
            (
                Ring { reader_tail: self.tail, reader_armed: true, ..self },
                if self.closed {
                    Gate::Shut
                } else {
                    Gate::Wait
                },
            )
        }
    }

    /// Bytes that the reader's next chunk holds: what it knows of, cut at the
    /// end of the buffer and at `CHUNK_MAX`.
    pub open spec fn read_chunk(self) -> int {
        min(min(CHUNK_MAX as int, self.seen()), self.cap - real_index(self.cap, self.head))
    }

    /// The reader has taken the `n` oldest bytes. Taking any wakes the
    /// writer.
    pub open spec fn consume(self, n: int) -> Ring {
        if n > 0 {
            Ring {
                head: wrap_add(self.cap, self.head, n),
                data: self.data.skip(n),
                writer_armed: false,
                ..self
            }
        } else {
            self
        }
    }

    /// One poll of the reader with room for `space` bytes: the oldest bytes
    /// it knows of leave the ring, as many as there is room for.
    pub open spec fn poll_read(self, space: int) -> (Ring, Poll<int>) {
        let (ring, gate) = self.reader_gate();
        match gate {
            Gate::Wait => (ring, Poll::Pending),
            Gate::Shut => (ring, Poll::Ready(0)),
            Gate::Open => {
                let n = min(space, ring.seen());
                (ring.consume(n), Poll::Ready(n))
            },
        }
    }

    /// The writer arrives. A closed ring turns it away. Otherwise it goes by
    /// its copy of `head` while that shows room. When the copy shows none
    /// it is refreshed; when there is still none the writer's waker is
    /// registered.
    pub open spec fn writer_gate(self) -> (Ring, Gate) {
        if self.closed {
            (self, Gate::Shut)
        } else if self.room() > 0 {
            (Ring { writer_armed: false, ..self }, Gate::Open)
        } else if self.len() < self.cap {
            (Ring { writer_head: self.head, writer_armed: false, ..self }, Gate::Open)
        } else {
            (Ring { writer_head: self.head, writer_armed: true, ..self }, Gate::Wait)
        }
    }

    /// Bytes that the writer's next chunk may hold: the room it knows of, cut
    /// at the end of the buffer, at `CHUNK_MAX`, and at twice the claimed
    /// prefix plus `ZERO_STEP`.
    pub open spec fn write_chunk(self) -> int {
        min(
            min(min(CHUNK_MAX as int, self.zeroed * 2 + ZERO_STEP), self.room()),
            self.cap - real_index(self.cap, self.tail),
        )
    }

    /// The writer has claimed its next chunk: the claimed prefix reaches at
    /// least to the chunk's end.
    pub open spec fn reserve(self) -> Ring {
        Ring {
            zeroed: max(self.zeroed, real_index(self.cap, self.tail) + self.write_chunk()),
            ..self
        }
    }

    /// Most bytes that the writer may put in now: the room it knows of, as
    /// far as it lies in one piece of the claimed prefix.
    pub open spec fn committable(self) -> int {
        min(self.room(), self.zeroed - real_index(self.cap, self.tail))
    }

    /// The writer has put `bytes` behind the newest byte. Putting in any
    /// wakes the reader.
    pub open spec fn commit(self, bytes: Seq<u8>) -> Ring {
        if bytes.len() > 0 {
            Ring {
                tail: wrap_add(self.cap, self.tail, bytes.len() as int),
                data: self.data + bytes,
                reader_armed: false,
                ..self
            }
        } else {
            self
        }
    }

    /// The ring after the writer has moved in as many bytes of `src` as it
    /// knows room for, with `zeroed` bytes of the buffer claimed.
    pub open spec fn filled(self, src: Seq<u8>, zeroed: int) -> Ring {
        let n = min(src.len() as int, self.room());
        Ring {
            tail: wrap_add(self.cap, self.tail, n),
            data: self.data + src.take(n),
            reader_armed: self.reader_armed && n == 0,
            zeroed,
            ..self
        }
    }

    /// The writer moves chunk after chunk out of `src` until `src` is used
    /// up or the room it knows of is.
    pub open spec fn fill(self, src: Seq<u8>) -> Ring
        decreases src.len(),
    {
        let n = min(self.write_chunk(), src.len() as int);
        if n > 0 {
            self.reserve().commit(src.take(n)).fill(src.skip(n))
        } else {
            self.reserve()
        }
    }

    /// One poll of the writer with `src` on offer: as many bytes of `src` as
    /// the writer knows room for join the bytes in flight, in order. The
    /// claimed prefix grows as filling chunk by chunk makes it grow.
    pub open spec fn poll_write(self, src: Seq<u8>) -> (Ring, Poll<int>) {
        let (ring, gate) = self.writer_gate();
        match gate {
            Gate::Wait => (ring, Poll::Pending),
            Gate::Shut => (ring, Poll::Ready(0)),
            Gate::Open => (
                ring.filled(src, ring.fill(src).zeroed),
                Poll::Ready(min(src.len() as int, ring.room())),
            ),
        }
    }

    /// The reader has gone: the ring is closed and the writer woken.
    pub open spec fn close_reader(self) -> Ring {
        Ring { closed: true, writer_armed: false, ..self }
    }

    /// The writer has gone: the ring is closed and the reader woken.
    pub open spec fn close_writer(self) -> Ring {
        Ring { closed: true, reader_armed: false, ..self }
    }
}

/// Moving an index forward in two goes is moving it forward in one.
pub proof fn lemma_wrap_add_twice(cap: int, i: int, a: int, b: int)
    requires
        0 <= i < 2 * cap,
        0 <= a,
        0 <= b,
        a + b <= cap,
    ensures
        wrap_add(cap, wrap_add(cap, i, a), b) == wrap_add(cap, i, a + b),
        0 <= wrap_add(cap, i, a) < 2 * cap,
{
}

impl Ring {
    /// Arriving keeps a ring in order and leaves its bytes alone; an open
    /// gate has something behind it.
    pub proof fn lemma_gates(self)
        requires
            self.inv(),
        ensures
            self.reader_gate().0.inv(),
            self.reader_gate().0.data == self.data,
            self.reader_gate().0.cap == self.cap,
            self.reader_gate().0.closed == self.closed,
            self.reader_gate().1 == Gate::Open <==> self.len() > 0,
            self.reader_gate().1 == Gate::Open ==> self.reader_gate().0.seen() > 0,
            self.writer_gate().0.inv(),
            self.writer_gate().0.data == self.data,
            self.writer_gate().0.cap == self.cap,
            self.writer_gate().0.closed == self.closed,
            self.writer_gate().1 == Gate::Open <==> !self.closed && self.len() < self.cap,
            self.writer_gate().1 == Gate::Open ==> self.writer_gate().0.room() > 0,
    {
    }

    /// Claiming a chunk keeps a ring in order and changes nothing but the
    /// claimed prefix, which reaches to the chunk's end afterwards. The chunk
    /// is empty only when the writer knows of no room.
    pub proof fn lemma_reserve(self)
        requires
            self.inv(),
        ensures
            self.reserve().inv(),
            self.reserve() == (Ring { zeroed: self.reserve().zeroed, ..self }),
            self.reserve().zeroed >= self.zeroed,
            0 <= self.write_chunk() <= self.reserve().committable(),
            self.write_chunk() == 0 <==> self.room() == 0,
    {
    }

    /// Putting in no more bytes than may be put in keeps a ring in order and
    /// uses up as much room as there are bytes.
    pub proof fn lemma_commit(self, bytes: Seq<u8>)
        requires
            self.inv(),
            bytes.len() <= self.committable(),
        ensures
            self.commit(bytes).inv(),
            self.commit(bytes).room() == self.room() - bytes.len(),
            self.commit(bytes) == (Ring {
                tail: wrap_add(self.cap, self.tail, bytes.len() as int),
                data: self.data + bytes,
                reader_armed: self.reader_armed && bytes.len() == 0,
                ..self
            }),
    {
        if bytes.len() == 0 {
            assert(self.data + bytes =~= self.data);
        }
    }

    /// What filling from `src` comes to: as many bytes of `src` as the writer
    /// knows room for join the bytes in flight, in order, and nothing else
    /// changes but the claimed prefix, which can only grow.
    pub proof fn lemma_fill(self, src: Seq<u8>)
        requires
            self.inv(),
        ensures
            self.fill(src).inv(),
            self.fill(src).zeroed >= self.zeroed,
            self.fill(src) == self.filled(src, self.fill(src).zeroed),
        decreases src.len(),
    {
        let n = min(self.write_chunk(), src.len() as int);
        let claimed = self.reserve();
        self.lemma_reserve();
        if n > 0 {
            let part = src.take(n);
            let rest = src.skip(n);
            let next = claimed.commit(part);
            claimed.lemma_commit(part);
            next.lemma_fill(rest);
            let end = next.fill(rest);
            let k = min(rest.len() as int, next.room());
            assert(self.fill(src) == end);
            assert(end == next.filled(rest, end.zeroed));
            assert(next.room() == self.room() - n);
            assert(n + k == min(src.len() as int, self.room()));
            assert(end.tail == wrap_add(self.cap, self.tail, n + k)) by {
                lemma_wrap_add_twice(self.cap, self.tail, n, k);
            }
            assert(end.data == self.data + src.take(n + k)) by {
                assert(self.data + part + rest.take(k) =~= self.data + src.take(n + k));
            }
            assert(!end.reader_armed);
        } else {
            assert(self.data + src.take(0) =~= self.data);
        }
    }

    /// The reader's chunk holds no more than the reader knows of, and is
    /// empty only when the reader knows of nothing.
    pub proof fn lemma_read_chunk(self)
        requires
            self.inv(),
        ensures
            0 <= self.read_chunk() <= self.seen(),
            self.read_chunk() == 0 <==> self.seen() == 0,
    {
    }

    /// Taking no more bytes than the reader knows of keeps a ring in order,
    /// and taking `a` bytes and then `b` more is taking `a + b` at once.
    pub proof fn lemma_consume(self, a: int, b: int)
        requires
            self.inv(),
            0 <= a,
            0 <= b,
            a + b <= self.seen(),
        ensures
            self.consume(a).inv(),
            self.consume(a).seen() == self.seen() - a,
            self.consume(a).consume(b) == self.consume(a + b),
            self.consume(a).data.take(b) == self.data.subrange(a, a + b),
    {
        assert(self.data.skip(a).skip(b) =~= self.data.skip(a + b));
        assert(self.data.skip(a).take(b) =~= self.data.subrange(a, a + b));
        assert(self.data.skip(0) =~= self.data);
        assert(self.data.take(b) =~= self.data.subrange(0, b));
        lemma_wrap_add_twice(self.cap, self.head, a, b);
    }

    /// A poll of the writer keeps a ring in order, and the bytes it takes in
    /// are the first of those on offer and come behind the bytes in flight.
    pub proof fn lemma_poll_write(self, src: Seq<u8>)
        requires
            self.inv(),
        ensures
            self.poll_write(src).0.inv(),
            self.poll_write(src).0.cap == self.cap,
            self.poll_write(src).0.closed == self.closed,
            match self.poll_write(src).1 {
                Poll::Ready(n) => 0 <= n <= src.len() && self.poll_write(src).0.data == self.data
                    + src.take(n),
                Poll::Pending => self.poll_write(src).0.data == self.data,
            },
    {
        let (ring, gate) = self.writer_gate();
        self.lemma_gates();
        if gate == Gate::Open {
            ring.lemma_fill(src);
        } else {
            assert(self.data + src.take(0) =~= self.data);
        }
    }

    /// A poll of the reader keeps a ring in order, and the bytes it hands
    /// out are the oldest bytes in flight.
    pub proof fn lemma_poll_read(self, space: int)
        requires
            self.inv(),
            0 <= space,
        ensures
            self.poll_read(space).0.inv(),
            self.poll_read(space).0.cap == self.cap,
            self.poll_read(space).0.closed == self.closed,
            match self.poll_read(space).1 {
                Poll::Ready(n) => 0 <= n <= self.data.len() && n <= space && self.poll_read(
                    space,
                ).0.data == self.data.skip(n),
                Poll::Pending => self.poll_read(space).0.data == self.data,
            },
    {
        let (ring, gate) = self.reader_gate();
        self.lemma_gates();
        if gate == Gate::Open {
            ring.lemma_consume(min(space, ring.seen()), 0);
        }
        assert(self.data.skip(0) =~= self.data);
    }
}

/// One move of one side of a ring: a whole poll, or one of the steps that
/// a poll is made of.
pub enum Move {
    /// The writer polls with these bytes on offer.
    Write(Seq<u8>),
    /// The reader polls with room for that many bytes.
    Read(int),
    /// The reader arrives.
    BeginRead,
    /// The reader takes that many of the oldest bytes.
    Consume(int),
    /// The writer arrives.
    BeginWrite,
    /// The writer claims its next chunk.
    Reserve,
    /// The writer puts these bytes in.
    Commit(Seq<u8>),
    /// The reader goes.
    CloseReader,
    /// The writer goes.
    CloseWriter,
}

/// Two balances in a row make one: if `a` and what came in first are what
/// went out first and `m`, and `m` and what came in next are what went out
/// next and `e`, then `a` and all that came in are all that went out and `e`.
proof fn lemma_chain(
    a: Seq<u8>,
    in0: Seq<u8>,
    in1: Seq<u8>,
    out0: Seq<u8>,
    out1: Seq<u8>,
    m: Seq<u8>,
    e: Seq<u8>,
)
    requires
        a + in0 == out0 + m,
        m + in1 == out1 + e,
    ensures
        a + (in0 + in1) == (out0 + out1) + e,
{
    assert(a + (in0 + in1) =~= (a + in0) + in1);
    assert((out0 + m) + in1 =~= out0 + (m + in1));
    assert(out0 + (out1 + e) =~= (out0 + out1) + e);
}

impl Ring {
    /// Whether `m` can be made now: a reader offers no less than no room and
    /// takes no more than its chunk holds, and a writer puts in no more than
    /// may be put in.
    pub open spec fn allows(self, m: Move) -> bool {
        match m {
            Move::Read(space) => 0 <= space,
            Move::Consume(n) => 0 <= n <= self.read_chunk(),
            Move::Commit(bytes) => bytes.len() <= self.committable(),
            _ => true,
        }
    }

    /// The ring after `m`.
    pub open spec fn after(self, m: Move) -> Ring {
        match m {
            Move::Write(src) => self.poll_write(src).0,
            Move::Read(space) => self.poll_read(space).0,
            Move::BeginRead => self.reader_gate().0,
            Move::Consume(n) => self.consume(n),
            Move::BeginWrite => self.writer_gate().0,
            Move::Reserve => self.reserve(),
            Move::Commit(bytes) => self.commit(bytes),
            Move::CloseReader => self.close_reader(),
            Move::CloseWriter => self.close_writer(),
        }
    }

    /// The bytes that `m` puts into the ring.
    pub open spec fn taken_in(self, m: Move) -> Seq<u8> {
        match m {
            Move::Write(src) => match self.poll_write(src).1 {
                Poll::Ready(n) => src.take(n),
                Poll::Pending => Seq::empty(),
            },
            Move::Commit(bytes) => bytes,
            _ => Seq::empty(),
        }
    }

    /// The bytes that `m` hands out of the ring.
    pub open spec fn handed_out(self, m: Move) -> Seq<u8> {
        match m {
            Move::Read(space) => match self.poll_read(space).1 {
                Poll::Ready(n) => self.data.take(n),
                Poll::Pending => Seq::empty(),
            },
            Move::Consume(n) => self.data.take(n),
            _ => Seq::empty(),
        }
    }

    /// Whether `moves` can be made one after the other.
    pub open spec fn allows_all(self, moves: Seq<Move>) -> bool
        decreases moves.len(),
    {
        moves.len() == 0 || (self.allows(moves[0]) && self.after(moves[0]).allows_all(
            moves.skip(1),
        ))
    }

    /// The ring after all of `moves`, in order.
    pub open spec fn after_all(self, moves: Seq<Move>) -> Ring
        decreases moves.len(),
    {
        if moves.len() == 0 {
            self
        } else {
            self.after(moves[0]).after_all(moves.skip(1))
        }
    }

    /// All bytes that `moves` put into the ring, in order.
    pub open spec fn written(self, moves: Seq<Move>) -> Seq<u8>
        decreases moves.len(),
    {
        if moves.len() == 0 {
            Seq::empty()
        } else {
            self.taken_in(moves[0]) + self.after(moves[0]).written(moves.skip(1))
        }
    }

    /// All bytes that `moves` hand out of the ring, in order.
    pub open spec fn delivered(self, moves: Seq<Move>) -> Seq<u8>
        decreases moves.len(),
    {
        if moves.len() == 0 {
            Seq::empty()
        } else {
            self.handed_out(moves[0]) + self.after(moves[0]).delivered(moves.skip(1))
        }
    }

    /// No whole poll takes a ring out of order, and each keeps the balance.
    proof fn lemma_after_poll(self, m: Move)
        requires
            self.inv(),
            self.allows(m),
            m is Write || m is Read,
        ensures
            self.after(m).inv(),
            self.after(m).cap == self.cap,
            self.data + self.taken_in(m) == self.handed_out(m) + self.after(m).data,
    {
        let none = Seq::<u8>::empty();
        match m {
            Move::Write(src) => {
                self.lemma_poll_write(src);
                assert(self.data + self.taken_in(m) =~= none + self.after(m).data);
            },
            Move::Read(space) => {
                self.lemma_poll_read(space);
                assert(self.data + none =~= self.handed_out(m) + self.after(m).data);
            },
            _ => {},
        }
    }

    /// No move takes a ring out of order, and each keeps the balance: the
    /// bytes in flight and those put in are those handed out and those
    /// still in flight.
    pub proof fn lemma_after(self, m: Move)
        requires
            self.inv(),
            self.allows(m),
        ensures
            self.after(m).inv(),
            self.after(m).cap == self.cap,
            self.data + self.taken_in(m) == self.handed_out(m) + self.after(m).data,
    {
        let none = Seq::<u8>::empty();
        match m {
            Move::Write(_) => {
                self.lemma_after_poll(m);
            },
            Move::Read(_) => {
                self.lemma_after_poll(m);
            },
            Move::BeginRead => {
                self.lemma_gates();
                assert(self.data + none =~= none + self.data);
            },
            Move::Consume(n) => {
                self.lemma_consume(n, 0);
                assert(self.data.skip(0) =~= self.data);
                assert(self.data + none =~= self.data.take(n) + self.data.skip(n));
            },
            Move::BeginWrite => {
                self.lemma_gates();
                assert(self.data + none =~= none + self.data);
            },
            Move::Reserve => {
                self.lemma_reserve();
                assert(self.data + none =~= none + self.data);
            },
            Move::Commit(bytes) => {
                self.lemma_commit(bytes);
                assert(self.data + bytes =~= none + (self.data + bytes));
            },
            _ => {
                assert(self.data + none =~= none + self.data);
            },
        }
    }

    /// Byte fidelity. Whatever the two sides do and in whatever order, in
    /// whole polls or step by step, the bytes that were in flight followed
    /// by the bytes put in are the bytes handed out followed by the bytes
    /// still in flight. Of a ring that starts empty the bytes read are
    /// therefore the first of the bytes written, in the order they were
    /// written, and all of them once the ring is empty again.
    pub proof fn lemma_fifo(self, moves: Seq<Move>)
        requires
            self.inv(),
            self.allows_all(moves),
        ensures
            self.after_all(moves).inv(),
            self.after_all(moves).cap == self.cap,
            self.data + self.written(moves) == self.delivered(moves) + self.after_all(
                moves,
            ).data,
        decreases moves.len(),
    {
        if moves.len() == 0 {
            assert(self.data + Seq::<u8>::empty() =~= Seq::<u8>::empty() + self.data);
        } else {
            let next = self.after(moves[0]);
            let rest = moves.skip(1);
            self.lemma_after(moves[0]);
            next.lemma_fifo(rest);
            lemma_chain(
                self.data,
                self.taken_in(moves[0]),
                next.written(rest),
                self.handed_out(moves[0]),
                next.delivered(rest),
                next.data,
                next.after_all(rest).data,
            );
        }
    }

    /// Empty and full are told apart. A ring holds no byte exactly when its
    /// two indices coincide, and as many bytes as it has capacity exactly
    /// when they are that far apart; it is never both. An open ring that is
    /// empty makes the reader wait and one that is full makes the writer
    /// wait, whatever either side believed before.
    pub proof fn lemma_empty_or_full(self, src: Seq<u8>, space: int)
        requires
            self.inv(),
        ensures
            self.data.len() == 0 <==> self.head == self.tail,
            self.data.len() == self.cap <==> distance(self.cap, self.head, self.tail)
                == self.cap,
            !(self.data.len() == 0 && self.data.len() == self.cap),
            self.data.len() == 0 && !self.closed ==> self.poll_read(space).1 == Poll::<
                int,
            >::Pending,
            self.data.len() == self.cap && !self.closed ==> self.poll_write(src).1 == Poll::<
                int,
            >::Pending,
    {
    }

    /// A ring can be filled to the last byte. When the writer of an open
    /// ring knows of all the room there is and offers no fewer bytes, the
    /// ring is full afterwards and holds the bytes offered behind those it
    /// held; its indices differ although they point at the same place; the
    /// writer's next poll waits; and a reader that has used up what it knew
    /// of gets, with room enough, every byte in one poll.
    pub proof fn lemma_fills_up(self, src: Seq<u8>, more: Seq<u8>)
        requires
            self.inv(),
            !self.closed,
            self.room() == self.cap - self.data.len(),
            self.seen() == 0,
            self.cap - self.data.len() <= src.len(),
        ensures
            ({
                let (full, polled) = self.poll_write(src);
                let n = self.cap - self.data.len();
                &&& self.data.len() < self.cap ==> polled == Poll::Ready(n)
                &&& full.inv()
                &&& full.data == self.data + src.take(n)
                &&& full.data.len() == full.cap
                &&& full.head != full.tail
                &&& real_index(full.cap, full.head) == real_index(full.cap, full.tail)
                &&& full.poll_write(more).1 == Poll::<int>::Pending
                &&& full.poll_read(self.cap).1 == Poll::Ready(self.cap)
                &&& full.handed_out(Move::Read(self.cap)) == full.data
            }),
    {
        self.lemma_poll_write(src);
        let full = self.poll_write(src).0;
        assert(self.data + src.take(0) =~= self.data);
        assert(full.data.take(self.cap) =~= full.data);
    }

    /// What a poll of the reader with room can come to: at least one byte,
    /// or nothing from a ring that is empty and closed, or a wait at a ring
    /// that is empty and open, and then the reader's waker is registered.
    pub proof fn lemma_read_outcomes(self, space: int)
        requires
            self.inv(),
            0 < space,
        ensures
            match self.poll_read(space).1 {
                Poll::Ready(n) => 0 < n || (self.data.len() == 0 && self.closed),
                Poll::Pending => self.data.len() == 0 && !self.closed && self.poll_read(
                    space,
                ).0.reader_armed,
            },
    {
    }

    /// What a poll of the writer with bytes on offer can come to: at least
    /// one byte taken, or none by a ring that is closed, or a wait at a ring
    /// that is full and open, and then the writer's waker is registered. A
    /// closed ring never makes the writer wait.
    pub proof fn lemma_write_outcomes(self, src: Seq<u8>)
        requires
            self.inv(),
            0 < src.len(),
        ensures
            match self.poll_write(src).1 {
                Poll::Ready(n) => 0 < n || self.closed,
                Poll::Pending => self.data.len() == self.cap && !self.closed && self.poll_write(
                    src,
                ).0.writer_armed,
            },
    {
    }

    /// No wake-up is lost. After the reader was made to wait, the next write
    /// of at least one byte takes the reader's waker out of its slot and
    /// wakes it, and the reader's next poll gets the first of those bytes.
    pub proof fn lemma_wakeup(self, space: int, src: Seq<u8>)
        requires
            self.inv(),
            0 < space,
            0 < src.len(),
            self.poll_read(space).1 == Poll::<int>::Pending,
        ensures
            ({
                let parked = self.poll_read(space).0;
                let (woken, put) = parked.poll_write(src);
                let (end, got) = woken.poll_read(space);
                &&& parked.reader_armed
                &&& put matches Poll::Ready(n) && 0 < n
                &&& !woken.reader_armed
                &&& got matches Poll::Ready(k) && 0 < k && woken.data.take(k) == src.take(k)
            }),
    {
        let parked = self.poll_read(space).0;
        self.lemma_poll_read(space);
        parked.lemma_poll_write(src);
        let (woken, put) = parked.poll_write(src);
        assert(parked.data =~= Seq::<u8>::empty());
        assert(woken.data =~= src.take(put->Ready_0));
        woken.lemma_poll_read(space);
        let (end, got) = woken.poll_read(space);
        assert(woken.data.take(got->Ready_0) =~= src.take(got->Ready_0));
    }

    /// The bytes that `polls` polls of the reader hand out, each with room
    /// for `space` bytes, and the ring they leave.
    pub open spec fn drain(self, space: int, polls: nat) -> (Ring, Seq<u8>)
        decreases polls,
    {
        if polls == 0 {
            (self, Seq::empty())
        } else {
            let (rest, more) = self.after(Move::Read(space)).drain(space, (polls - 1) as nat);
            (rest, self.handed_out(Move::Read(space)) + more)
        }
    }

    /// Closing drains. Once the writer has gone the reader is never made to
    /// wait: polls with room hand out every byte that was in flight, in
    /// order, and from then on every poll hands out nothing.
    pub proof fn lemma_close_drains(self, space: int, polls: nat)
        requires
            self.inv(),
            self.closed,
            0 < space,
            self.data.len() <= polls,
        ensures
            ({
                let (end, bytes) = self.drain(space, polls);
                &&& bytes == self.data
                &&& end.inv()
                &&& end.closed
                &&& end.data.len() == 0
                &&& end.poll_read(space).1 == Poll::Ready(0int)
                &&& end.poll_read(space).0.data.len() == 0
            }),
        decreases polls,
    {
        if polls == 0 {
            assert(self.data =~= Seq::<u8>::empty());
        } else {
            let m = Move::Read(space);
            let next = self.after(m);
            self.lemma_poll_read(space);
            self.lemma_read_outcomes(space);
            next.lemma_close_drains(space, (polls - 1) as nat);
            let (end, more) = next.drain(space, (polls - 1) as nat);
            let handed = self.handed_out(m);
            assert(handed + more =~= self.data) by {
                let n = self.poll_read(space).1->Ready_0;
                assert(handed == self.data.take(n));
                assert(more == self.data.skip(n));
            }
        }
    }
}

impl Ring {
    /// The reader refreshes its copy of `tail`.
    pub open spec fn look(self) -> Ring {
        Ring { reader_tail: self.tail, ..self }
    }

    /// The reader registers its waker.
    pub open spec fn park(self) -> Ring {
        Ring { reader_armed: true, ..self }
    }

    /// The reader takes its waker out of the slot.
    pub open spec fn unpark(self) -> Ring {
        Ring { reader_armed: false, ..self }
    }

    /// The writer publishes `tail` after it has put `bytes` behind the
    /// newest byte.
    pub open spec fn publish(self, bytes: Seq<u8>) -> Ring {
        Ring {
            tail: wrap_add(self.cap, self.tail, bytes.len() as int),
            data: self.data + bytes,
            ..self
        }
    }

    /// The writer wakes the reader.
    pub open spec fn wake_reader(self) -> Ring {
        Ring { reader_armed: false, ..self }
    }

    /// The writer's turn between two steps of the reader. The writer
    /// publishes `bytes` after the reader's step number `p` and wakes the
    /// reader after its step number `q`; this is the turn after step number
    /// `at`. Besides the ring the answer says whether a wake-up found the
    /// reader's waker registered.
    pub open spec fn writer_turn(self, bytes: Seq<u8>, p: int, q: int, at: int) -> (Ring, bool) {
        let published = if p == at {
            self.publish(bytes)
        } else {
            self
        };
        if q == at {
            (published.wake_reader(), published.reader_armed)
        } else {
            (published, false)
        }
    }

    /// The arrival of a reader whose copy of `tail` shows nothing, with the
    /// writer taking its turns in between: the reader looks; if it sees
    /// nothing it registers its waker and looks again; if it still sees
    /// nothing it waits. The answer says what the reader finds and whether
    /// the writer's wake-up found the reader's waker registered.
    pub open spec fn arrive(self, bytes: Seq<u8>, p: int, q: int) -> (Ring, Gate, bool) {
        let (first, _) = self.writer_turn(bytes, p, q, 0).0.look().writer_turn(bytes, p, q, 1);
        if self.writer_turn(bytes, p, q, 0).0.look().seen() > 0 {
            (first, Gate::Open, false)
        } else {
            let (second, _) = first.park().writer_turn(bytes, p, q, 2);
            let looked = second.look();
            let (last, woken) = looked.writer_turn(bytes, p, q, 3);
            if looked.seen() > 0 {
                (last, Gate::Open, false)
            } else {
                (last, Gate::Wait, woken)
            }
        }
    }

    /// No wake-up is lost, wherever between the steps of an arriving reader
    /// the writer publishes its bytes and sends its wake-up. Either the
    /// reader finds the bytes, or it waits and the wake-up comes after it
    /// has registered its waker and finds the waker there.
    pub proof fn lemma_no_lost_wakeup(self, bytes: Seq<u8>, p: int, q: int)
        requires
            self.inv(),
            !self.closed,
            self.seen() == 0,
            0 < bytes.len() <= self.cap - self.len(),
            0 <= p <= q <= 3,
        ensures
            self.arrive(bytes, p, q).1 == Gate::Open || (self.arrive(bytes, p, q).1 == Gate::Wait
                && self.arrive(bytes, p, q).2),
            self.arrive(bytes, p, q).1 == Gate::Open ==> self.arrive(bytes, p, q).0.seen() > 0,
    {
    }

    /// Left alone, a reader whose copy of `tail` shows nothing arrives as
    /// `reader_gate` says: it looks, and then it either takes its waker out
    /// of the slot and goes on, or registers it, looks again and waits. And
    /// a writer that publishes and wakes in one go puts bytes in as `commit`
    /// says.
    pub proof fn lemma_steps(self, bytes: Seq<u8>)
        requires
            self.inv(),
            self.seen() == 0,
            0 < bytes.len(),
        ensures
            self.reader_gate().1 == Gate::Open ==> self.reader_gate().0 == self.look().unpark(),
            self.reader_gate().1 != Gate::Open ==> self.reader_gate().0 == self.look().park().look(),
            self.reader_gate().1 == self.arrive(bytes, 4, 4).1 || (self.closed && self.len() == 0),
            self.commit(bytes) == self.publish(bytes).wake_reader(),
    {
    }

    /// The writer refreshes its copy of `head`.
    pub open spec fn peek(self) -> Ring {
        Ring { writer_head: self.head, ..self }
    }

    /// The writer registers its waker.
    pub open spec fn park_writer(self) -> Ring {
        Ring { writer_armed: true, ..self }
    }

    /// The reader publishes `head` after it has taken the `n` oldest bytes.
    pub open spec fn release(self, n: int) -> Ring {
        Ring { head: wrap_add(self.cap, self.head, n), data: self.data.skip(n), ..self }
    }

    /// The reader wakes the writer.
    pub open spec fn wake_writer(self) -> Ring {
        Ring { writer_armed: false, ..self }
    }

    /// The reader's turn between two steps of the writer. The reader
    /// publishes that it has taken `n` bytes after the writer's step number
    /// `p` and wakes the writer after its step number `q`; this is the turn
    /// after step number `at`. Besides the ring the answer says whether a
    /// wake-up found the writer's waker registered.
    pub open spec fn reader_turn(self, n: int, p: int, q: int, at: int) -> (Ring, bool) {
        let released = if p == at {
            self.release(n)
        } else {
            self
        };
        if q == at {
            (released.wake_writer(), released.writer_armed)
        } else {
            (released, false)
        }
    }

    /// The arrival of a writer whose copy of `head` shows no room, with the
    /// reader taking its turns in between: the writer looks; if it sees no
    /// room it registers its waker and looks again; if it still sees none
    /// it waits. The answer says what the writer finds and whether the
    /// reader's wake-up found the writer's waker registered.
    pub open spec fn arrive_to_write(self, n: int, p: int, q: int) -> (Ring, Gate, bool) {
        let (first, _) = self.reader_turn(n, p, q, 0).0.peek().reader_turn(n, p, q, 1);
        if self.reader_turn(n, p, q, 0).0.peek().room() > 0 {
            (first, Gate::Open, false)
        } else {
            let (second, _) = first.park_writer().reader_turn(n, p, q, 2);
            let looked = second.peek();
            let (last, woken) = looked.reader_turn(n, p, q, 3);
            if looked.room() > 0 {
                (last, Gate::Open, false)
            } else {
                (last, Gate::Wait, woken)
            }
        }
    }

    /// No wake-up of the writer is lost either, wherever between the steps
    /// of an arriving writer the reader publishes that it has made room and
    /// sends its wake-up. Either the writer finds the room, or it waits and
    /// the wake-up comes after it has registered its waker and finds the
    /// waker there.
    pub proof fn lemma_no_lost_wakeup_of_writer(self, n: int, p: int, q: int)
        requires
            self.inv(),
            !self.closed,
            self.room() == 0,
            0 < n <= self.len(),
            0 <= p <= q <= 3,
        ensures
            self.arrive_to_write(n, p, q).1 == Gate::Open || (self.arrive_to_write(n, p, q).1
                == Gate::Wait && self.arrive_to_write(n, p, q).2),
            self.arrive_to_write(n, p, q).1 == Gate::Open ==> self.arrive_to_write(
                n,
                p,
                q,
            ).0.room() > 0,
    {
    }
}

} // verus!
