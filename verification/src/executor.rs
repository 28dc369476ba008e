//! The bookkeeping of an elastic pool of threads that run blocking work.
//!
//! [`Inner`] is what the threads of one pool share: the queue of work that
//! waits and two counters. It decides; it starts no thread, runs nothing and
//! waits for nothing. Whoever holds it exclusively hands it what happened
//! and does what it answers.

use std::collections::VecDeque;
use vstd::prelude::*;

verus! {

/// No pool has more threads than this.
pub const MAX_THREADS: usize = 500;

/// How long a thread waits for work before it gives up, in milliseconds.
pub const IDLE_TIMEOUT_MS: u64 = 500;

/// How much waiting work one idle thread is left to deal with before another
/// thread is started.
pub const BACKLOG_PER_IDLE: usize = 5;

/// The mathematical state of a pool.
pub struct Pool<R> {
    /// Threads that wait for work, or were started and have not looked yet.
    pub idle: int,
    /// All threads: those that are idle and those that run work.
    pub threads: int,
    /// Work that waits, oldest first.
    pub queue: Seq<R>,
}

/// What a worker thread reports.
#[derive(Debug, PartialEq, Eq, Clone, Copy)]
pub enum WorkerEvent {
    /// The thread has just been started.
    Started,
    /// The thread has run the work it was given.
    Ran,
    /// The thread's wait is over; the flag says whether it timed out.
    Woken(bool),
}

/// What a worker thread is told to do next.
#[derive(Debug, PartialEq, Eq)]
pub enum WorkerAction<R> {
    /// Start that many threads, each after waking all that wait, then run
    /// the work.
    Run(R, usize),
    /// Wait for a wake-up, but no longer than that many milliseconds.
    Wait(u64),
    /// Leave: the thread is no longer counted.
    Exit,
}

impl<R> Pool<R> {
    /// A pool before anything was scheduled.
    pub open spec fn empty() -> Pool<R> {
        Pool { idle: 0, threads: 0, queue: Seq::empty() }
    }

    /// What holds of every pool.
    pub open spec fn inv(self) -> bool {
        0 <= self.idle <= self.threads <= MAX_THREADS
    }

    /// Whether waiting work so outnumbers the idle threads that one more
    /// thread is started.
    pub open spec fn overloaded(self) -> bool {
        self.queue.len() > self.idle * BACKLOG_PER_IDLE && self.threads < MAX_THREADS
    }

    /// How many threads are started until the pool is no longer overloaded.
    pub open spec fn growth(self) -> int {
        let wanted = (self.queue.len() + BACKLOG_PER_IDLE - 1) / (BACKLOG_PER_IDLE as int)
            - self.idle;
        let allowed = MAX_THREADS - self.threads;
        if wanted <= 0 || allowed <= 0 {
            0
        } else if wanted <= allowed {
            wanted
        } else {
            allowed
        }
    }

    /// The pool with `n` more threads, all counted idle.
    pub open spec fn with_started(self, n: int) -> Pool<R> {
        Pool { idle: self.idle + n, threads: self.threads + n, ..self }
    }

    /// The pool after it has grown as far as its load asks.
    pub open spec fn grow(self) -> Pool<R> {
        self.with_started(self.growth())
    }

    /// New work joins the end of the queue, and the pool grows.
    pub open spec fn schedule(self, runnable: R) -> Pool<R> {
        (Pool { queue: self.queue.push(runnable), ..self }).grow()
    }

    /// A thread that counts as running looks for work: it takes the oldest
    /// and the pool grows, or there is none and it goes to wait.
    pub open spec fn pick(self) -> (Pool<R>, WorkerAction<R>) {
        if self.queue.len() > 0 {
            let rest = Pool { queue: self.queue.skip(1), ..self };
            (rest.grow(), WorkerAction::Run(self.queue[0], rest.growth() as usize))
        } else {
            (Pool { idle: self.idle + 1, ..self }, WorkerAction::Wait(IDLE_TIMEOUT_MS))
        }
    }

    /// One turn of a worker thread.
    ///
    /// A thread counts as idle from its start and while it waits. One whose
    /// wait timed out leaves if no work waits. Every other thread stops
    /// counting as idle, if it did, and looks for work.
    pub open spec fn worker(self, event: WorkerEvent) -> (Pool<R>, WorkerAction<R>) {
        match event {
            WorkerEvent::Ran => self.pick(),
            WorkerEvent::Woken(true) if self.queue.len() == 0 => (
                Pool { idle: self.idle - 1, threads: self.threads - 1, ..self },
                WorkerAction::Exit,
            ),
            _ => (Pool { idle: self.idle - 1, ..self }).pick(),
        }
    }

    /// Whether `event` can come from a thread of this pool: a thread that
    /// ran work is one that does not count as idle, any other is one that
    /// does.
    pub open spec fn admits(self, event: WorkerEvent) -> bool {
        match event {
            WorkerEvent::Ran => self.idle < self.threads,
            _ => 1 <= self.idle,
        }
    }

    /// Growth is exactly as far as the pool stays overloaded: it is
    /// overloaded with fewer threads started, and not with that many.
    pub proof fn lemma_growth(self)
        requires
            self.inv(),
        ensures
            0 <= self.growth(),
            self.grow().inv(),
            !self.grow().overloaded(),
            forall|n: int| 0 <= n < self.growth() ==> #[trigger] self.with_started(n).overloaded(),
    {
    }
}

/// Something that happens to a pool.
pub enum PoolEvent<R> {
    /// Work is scheduled.
    Schedule(R),
    /// A thread of the pool takes a turn.
    Turn(WorkerEvent),
}

impl<R> Pool<R> {
    /// Whether `event` can happen to this pool.
    pub open spec fn accepts(self, event: PoolEvent<R>) -> bool {
        match event {
            PoolEvent::Schedule(_) => true,
            PoolEvent::Turn(turn) => self.admits(turn),
        }
    }

    /// The pool after `event`.
    pub open spec fn after(self, event: PoolEvent<R>) -> Pool<R> {
        match event {
            PoolEvent::Schedule(runnable) => self.schedule(runnable),
            PoolEvent::Turn(turn) => self.worker(turn).0,
        }
    }

    /// Whether `events` can happen to this pool one after the other.
    pub open spec fn accepts_all(self, events: Seq<PoolEvent<R>>) -> bool
        decreases events.len(),
    {
        events.len() == 0 || (self.accepts(events[0]) && self.after(events[0]).accepts_all(
            events.skip(1),
        ))
    }

    /// The pool after all of `events`, in order.
    pub open spec fn after_all(self, events: Seq<PoolEvent<R>>) -> Pool<R>
        decreases events.len(),
    {
        if events.len() == 0 {
            self
        } else {
            self.after(events[0]).after_all(events.skip(1))
        }
    }

    /// As many wake-ups by timeout as given.
    pub open spec fn timeouts(n: nat) -> Seq<PoolEvent<R>> {
        Seq::new(n, |i: int| PoolEvent::Turn(WorkerEvent::Woken(true)))
    }

    /// Nothing that can happen to a pool takes it out of order.
    pub proof fn lemma_after(self, event: PoolEvent<R>)
        requires
            self.inv(),
            self.accepts(event),
        ensures
            self.after(event).inv(),
    {
        match event {
            PoolEvent::Schedule(runnable) => {
                (Pool { queue: self.queue.push(runnable), ..self }).lemma_growth();
            },
            PoolEvent::Turn(turn) => {
                let looking = if turn == WorkerEvent::Ran {
                    self
                } else {
                    Pool { idle: self.idle - 1, ..self }
                };
                (Pool { queue: looking.queue.skip(1), ..looking }).lemma_growth();
            },
        }
    }

    /// The thread cap. However much work is scheduled and whatever the
    /// threads do, at no point of the way has the pool more than
    /// `MAX_THREADS` threads, or more idle threads than threads.
    pub proof fn lemma_thread_cap(self, events: Seq<PoolEvent<R>>, upto: int)
        requires
            self.inv(),
            self.accepts_all(events),
            0 <= upto <= events.len(),
        ensures
            self.after_all(events.take(upto)).inv(),
            self.after_all(events.take(upto)).threads <= MAX_THREADS,
        decreases upto,
    {
        if upto > 0 {
            self.lemma_after(events[0]);
            assert(events.take(upto)[0] == events[0]);
            assert(events.take(upto).skip(1) =~= events.skip(1).take(upto - 1));
            self.after(events[0]).lemma_thread_cap(events.skip(1), upto - 1);
        }
    }

    /// Idle threads are given back. When no work waits and every thread
    /// waits for some, the pool has no thread left once the wait of each
    /// has timed out, and each of them was told to leave.
    pub proof fn lemma_idle_reclaim(self)
        requires
            self.inv(),
            self.queue.len() == 0,
            self.idle == self.threads,
        ensures
            self.accepts_all(Self::timeouts(self.threads as nat)),
            self.after_all(Self::timeouts(self.threads as nat)) == Self::empty(),
            self.threads > 0 ==> self.worker(WorkerEvent::Woken(true)).1 == WorkerAction::<
                R,
            >::Exit,
        decreases self.threads,
    {
        if self.threads > 0 {
            let next = self.worker(WorkerEvent::Woken(true)).0;
            next.lemma_idle_reclaim();
            assert(Self::timeouts(self.threads as nat).skip(1) =~= Self::timeouts(
                next.threads as nat,
            ));
        } else {
            assert(self.queue =~= Seq::<R>::empty());
        }
    }
}

/// A pool together with the threads that were started for it.
pub struct Crew<R> {
    /// What the threads share.
    pub pool: Pool<R>,
    /// Threads that rest: they wait for work, or they were started and have
    /// not looked for work yet.
    pub resting: int,
    /// Threads that run work.
    pub working: int,
}

/// Something that happens to a crew.
pub enum CrewEvent<R> {
    /// Work is scheduled.
    Schedule(R),
    /// A thread that rests takes its turn, because it was started or woken
    /// or because its wait timed out; the flag says whether it timed out.
    Rested(bool),
    /// A thread that works has run its work and takes its turn.
    Worked,
}

impl<R> Crew<R> {
    /// What holds of every crew: its pool is in order and counts as idle
    /// the threads that rest, and as threads those that rest or work.
    pub open spec fn inv(self) -> bool {
        &&& self.pool.inv()
        &&& self.resting == self.pool.idle
        &&& self.working == self.pool.threads - self.pool.idle
    }

    /// Whether `event` can happen: a thread that takes a turn has to be
    /// there.
    pub open spec fn can(self, event: CrewEvent<R>) -> bool {
        match event {
            CrewEvent::Schedule(_) => true,
            CrewEvent::Rested(_) => 1 <= self.resting,
            CrewEvent::Worked => 1 <= self.working,
        }
    }

    /// What the pool gets to know of `event`.
    pub open spec fn told(event: CrewEvent<R>) -> PoolEvent<R> {
        match event {
            CrewEvent::Schedule(runnable) => PoolEvent::Schedule(runnable),
            CrewEvent::Rested(timed_out) => PoolEvent::Turn(WorkerEvent::Woken(timed_out)),
            CrewEvent::Worked => PoolEvent::Turn(WorkerEvent::Ran),
        }
    }

    /// The crew after `event`: the pool is told, the threads it has counted
    /// in are started and rest, and the thread that took a turn does as it
    /// was told.
    pub open spec fn after(self, event: CrewEvent<R>) -> Crew<R> {
        let pool = self.pool.after(Self::told(event));
        match event {
            CrewEvent::Schedule(_) => Crew {
                pool,
                resting: self.resting + pool.threads - self.pool.threads,
                working: self.working,
            },
            CrewEvent::Rested(timed_out) => match self.pool.worker(WorkerEvent::Woken(timed_out)).1 {
                WorkerAction::Run(_, started) => Crew {
                    pool,
                    resting: self.resting - 1 + started,
                    working: self.working + 1,
                },
                WorkerAction::Wait(_) => Crew { pool, ..self },
                WorkerAction::Exit => Crew { pool, resting: self.resting - 1, working: self.working },
            },
            CrewEvent::Worked => match self.pool.worker(WorkerEvent::Ran).1 {
                WorkerAction::Run(_, started) => Crew {
                    pool,
                    resting: self.resting + started,
                    working: self.working,
                },
                WorkerAction::Wait(_) => Crew {
                    pool,
                    resting: self.resting + 1,
                    working: self.working - 1,
                },
                WorkerAction::Exit => Crew { pool, ..self },
            },
        }
    }

    /// A thread counts as idle exactly while it rests. Whatever happens to
    /// a crew, the pool accepts it, and afterwards its counters are again
    /// the numbers of the threads that rest and that work.
    pub proof fn lemma_crew(self, event: CrewEvent<R>)
        requires
            self.inv(),
            self.can(event),
        ensures
            self.pool.accepts(Self::told(event)),
            self.after(event).inv(),
    {
        self.pool.lemma_after(Self::told(event));
        match event {
            CrewEvent::Schedule(runnable) => {
                (Pool { queue: self.pool.queue.push(runnable), ..self.pool }).lemma_growth();
            },
            CrewEvent::Rested(_) => {
                let looking = Pool { idle: self.pool.idle - 1, ..self.pool };
                (Pool { queue: looking.queue.skip(1), ..looking }).lemma_growth();
            },
            CrewEvent::Worked => {
                (Pool { queue: self.pool.queue.skip(1), ..self.pool }).lemma_growth();
            },
        }
    }
}

/// What the threads of one pool share. `R` is a piece of work that is ready
/// to run.
pub struct Inner<R> {
    /// Number of idle threads in the pool.
    idle_count: usize,
    /// Total number of threads in the pool: idle ones and active ones.
    thread_count: usize,
    /// The queue of work that waits.
    queue: VecDeque<R>,
}

impl<R> View for Inner<R> {
    type V = Pool<R>;

    closed spec fn view(&self) -> Pool<R> {
        Pool {
            idle: self.idle_count as int,
            threads: self.thread_count as int,
            queue: self.queue@,
        }
    }
}

impl<R> Inner<R> {
    /// What every pool satisfies between two steps.
    pub open spec fn wf(&self) -> bool {
        self@.inv()
    }

    /// A pool with no thread and no work.
    pub fn new() -> (inner: Inner<R>)
        ensures
            inner.wf(),
            inner@ == Pool::<R>::empty(),
    {
        Inner { idle_count: 0, thread_count: 0, queue: VecDeque::new() }
    }

    /// Number of idle threads.
    pub fn idle_count(&self) -> (n: usize)
        ensures
            n == self@.idle,
    {
        self.idle_count
    }

    /// Number of threads.
    pub fn thread_count(&self) -> (n: usize)
        ensures
            n == self@.threads,
    {
        self.thread_count
    }

    /// Amount of work that waits.
    pub fn queue_len(&self) -> (n: usize)
        ensures
            n == self@.queue.len(),
    {
        self.queue.len()
    }

    /// Counts in as many new threads as the load asks for and says how many
    /// they are. The caller starts them, waking all waiting threads before
    /// each start.
    pub fn grow_pool(&mut self) -> (started: usize)
        requires
            old(self).wf(),
        ensures
            final(self).wf(),
            started == old(self)@.growth(),
            final(self)@ == old(self)@.grow(),
    {
        let mut started: usize = 0;
        proof {
            self@.lemma_growth();
        }
        while self.queue.len() > self.idle_count * BACKLOG_PER_IDLE && self.thread_count
            < MAX_THREADS
            invariant
                old(self)@.inv(),
                0 <= started <= old(self)@.growth(),
                self@ == old(self)@.with_started(started as int),
                self@.inv(),
            decreases MAX_THREADS - self.thread_count,
        {
            assert(started < old(self)@.growth()) by {
                old(self)@.lemma_growth();
            }
            self.idle_count += 1;
            self.thread_count += 1;
            started += 1;
        }
        assert(started == old(self)@.growth()) by {
            old(self)@.lemma_growth();
            if started < old(self)@.growth() {
                assert(old(self)@.with_started(started as int).overloaded());
            }
        }
        started
    }

    /// Puts `runnable` at the end of the queue and lets the pool grow. The
    /// caller wakes one waiting thread and starts as many threads as the
    /// answer says.
    pub fn schedule(&mut self, runnable: R) -> (started: usize)
        requires
            old(self).wf(),
        ensures
            final(self).wf(),
            final(self)@ == old(self)@.schedule(runnable),
            started == final(self)@.threads - old(self)@.threads,
    {
        self.queue.push_back(runnable);
        self.grow_pool()
    }

    /// One turn of the loop that every thread of the pool runs.
    pub fn main_loop(&mut self, event: WorkerEvent) -> (action: WorkerAction<R>)
        requires
            old(self).wf(),
            old(self)@.admits(event),
        ensures
            final(self).wf(),
            (final(self)@, action) == old(self)@.worker(event),
    {
        match event {
            WorkerEvent::Ran => {},
            WorkerEvent::Woken(true) => {
                self.idle_count -= 1;
                if self.queue.len() == 0 {
                    self.thread_count -= 1;
                    return WorkerAction::Exit;
                }
            },
            _ => {
                self.idle_count -= 1;
            },
        }
        match self.queue.pop_front() {
            Some(runnable) => {
                let started: usize = self.grow_pool();
                WorkerAction::Run(runnable, started)
            },
            None => {
                self.idle_count += 1;
                WorkerAction::Wait(IDLE_TIMEOUT_MS)
            },
        }
    }
}

} // verus!
