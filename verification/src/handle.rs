//! The state machine of a handle that owns a blocking value.
//!
//! The value is either at rest in the handle or in the hands of a task that
//! runs on a pool thread and gives it back when it ends. While a task has
//! it, the handle talks to the task through one transport: a bounded channel
//! of items, or a [`Pipe`] of which the handle keeps one side.
//!
//! The machine holds the task and the handle's side of the transport, and it
//! decides; it polls nothing and starts nothing. Its host tells it what
//! happened (an event) and does what the machine answers (an action). One
//! poll of the host's caller is a run of such turns that begins with `Enter`
//! and ends with `Return`.

use crate::pipe::{pipe, Pipe};
use crate::poll::Poll;
use crate::ring::Ring;
use vstd::prelude::*;

verus! {

/// How many items the channel between a streaming task and its handle holds.
pub const STREAM_CAPACITY: usize = 8192;

/// How many bytes the pipe between a reading or writing task and its handle
/// holds.
pub const PIPE_CAPACITY: usize = 8388608;

/// What a host keeps in a handle of a value of type `T`.
pub trait Host<T> {
    /// The join side of a task. Dropping it cancels the task.
    type Task;

    /// The receiving side of a channel of items. Dropping it closes the
    /// channel.
    type Receiver;

    /// The reading side of a pipe. Dropping it closes the pipe.
    type Reader;

    /// The writing side of a pipe. Dropping it closes the pipe.
    type Writer;
}

/// Where the value of a handle is, and what the handle holds meanwhile.
pub enum State<T, X: Host<T>> {
    /// The value is at rest in the handle, unless it was taken out.
    Idle(Option<Box<T>>),
    /// A task that was submitted as a future will yield the value.
    Task(X::Task),
    /// A task iterates the value and sends the items. The handle holds the
    /// receiver while it listens.
    Streaming(Option<X::Receiver>, X::Task),
    /// A task reads from the value into a pipe. The handle holds the pipe's
    /// reading side while it reads.
    Reading(Option<X::Reader>, X::Task),
    /// A task writes to the value out of a pipe. The handle holds the
    /// pipe's writing side while it writes.
    Writing(Option<X::Writer>, X::Task),
}

impl<T, X: Host<T>> State<T, X> {
    /// Whether no task has the value.
    pub open spec fn is_idle(self) -> bool {
        self is Idle
    }

    /// Whether the value is at rest in the handle.
    pub open spec fn has_value(self) -> bool {
        self matches State::Idle(Some(_))
    }

    /// Whether no task has the value and the handle has not got it either:
    /// it was taken out, for good or to be handed to a task that the host
    /// is about to submit.
    pub open spec fn is_vacant(self) -> bool {
        self matches State::Idle(None)
    }

    /// Whether the handle listens to a streaming task.
    pub open spec fn listens(self) -> bool {
        self matches State::Streaming(Some(_), _)
    }

    /// Whether the handle holds the reading side of a reading task's pipe.
    pub open spec fn reads(self) -> bool {
        self matches State::Reading(Some(_), _)
    }

    /// Whether the handle holds the writing side of a writing task's pipe.
    pub open spec fn writes(self) -> bool {
        self matches State::Writing(Some(_), _)
    }

    /// The same state with the handle's side of the transport dropped.
    pub open spec fn shut(self) -> State<T, X> {
        match self {
            State::Streaming(_, task) => State::Streaming(None, task),
            State::Reading(_, task) => State::Reading(None, task),
            State::Writing(_, task) => State::Writing(None, task),
            other => other,
        }
    }

    /// The same state with `task` in the place of its task.
    pub open spec fn with_task(self, task: X::Task) -> State<T, X> {
        match self {
            State::Idle(value) => State::Idle(value),
            State::Task(_) => State::Task(task),
            State::Streaming(receiver, _) => State::Streaming(receiver, task),
            State::Reading(reader, _) => State::Reading(reader, task),
            State::Writing(writer, _) => State::Writing(writer, task),
        }
    }
}

/// What polling the task came to.
pub enum TaskPoll<T, E> {
    /// The task still runs.
    Pending,
    /// The task has ended: what became of its work, and the value.
    Done(Result<(), E>, Box<T>),
}

/// What the host reports during an operation that uses no transport.
pub enum Progress<T, E> {
    /// The caller polls.
    Enter,
    /// The host has polled the task, as it was told.
    Task(TaskPoll<T, E>),
}

/// What the host reports during an operation that uses a transport. `V` is
/// what a poll of the transport yields, `S` the handle's side of the
/// transport and `K` the join side of a task.
pub enum Event<T, E, V, S, K> {
    /// The caller polls.
    Enter,
    /// The host has made the transport and submitted the task, as it was
    /// told: here are the handle's side of the transport and the join side
    /// of the task.
    Spawned(S, K),
    /// The host has polled the task, as it was told.
    Task(TaskPoll<T, E>),
    /// The host has polled the handle's side of the transport, as it was
    /// told.
    Transport(Poll<V>),
}

/// A task for the host to submit, with the value it is to work on.
pub enum Job<T> {
    /// Iterate the value and send each item through a channel that holds
    /// as many items as given, until the channel is closed or the items end.
    Stream(Box<T>, usize),
    /// Read from the value into the pipe until the pipe is closed, the
    /// value is used up or reading fails.
    Read(Box<T>, Pipe),
    /// Write to the value out of the pipe until the pipe is closed and
    /// empty or writing fails; then flush the value.
    Write(Box<T>, Pipe),
}

/// What the host is to do next. `Y` is what the caller's poll returns.
pub enum Action<T, Y> {
    /// Poll the task and report. The handle has dropped its side of the
    /// transport, if it had one, to make the task end.
    Stop,
    /// Poll the task and report. The transport has run dry, and the handle
    /// keeps its side of it.
    Join,
    /// Make the transport, submit the task, and report `Spawned`.
    Spawn(Job<T>),
    /// Poll the handle's side of the transport and report.
    Transfer,
    /// Return to the caller.
    Return(Y),
}

/// Whether `action` submits a task that iterates `value`.
pub open spec fn starts_streaming<T, Y>(action: Action<T, Y>, value: Box<T>) -> bool {
    action == Action::<T, Y>::Spawn(Job::Stream(value, STREAM_CAPACITY))
}

/// Whether `action` submits a task that reads from `value` into a new pipe.
pub open spec fn starts_reading<T, Y>(action: Action<T, Y>, value: Box<T>) -> bool {
    &&& action matches Action::Spawn(Job::Read(v, p))
    &&& v == value
    &&& p.wf()
    &&& p@ == Ring::fresh(PIPE_CAPACITY as int)
}

/// Whether `action` submits a task that writes to `value` out of a new pipe.
pub open spec fn starts_writing<T, Y>(action: Action<T, Y>, value: Box<T>) -> bool {
    &&& action matches Action::Spawn(Job::Write(v, p))
    &&& v == value
    &&& p.wf()
    &&& p@ == Ring::fresh(PIPE_CAPACITY as int)
}

/// A handle that owns a blocking value of type `T`. `X` says what its host
/// keeps in it.
pub struct Blocking<T, X: Host<T>>(State<T, X>);

impl<T, X: Host<T>> Blocking<T, X> {
    /// Where the value is.
    pub closed spec fn state(&self) -> State<T, X> {
        self.0
    }

    /// Wraps a blocking value. No task is started before the handle is used.
    pub fn new(io: T) -> (handle: Self)
        ensures
            handle.state() == State::<T, X>::Idle(Some(Box::new(io))),
    {
        Blocking(State::Idle(Some(Box::new(io))))
    }

    /// The handle of a value that a task will yield. The host has submitted
    /// the task as a future; `task` is its join side.
    pub fn spawn(task: X::Task) -> (handle: Self)
        ensures
            handle.state() == State::<T, X>::Task(task),
    {
        Blocking(State::Task(task))
    }

    /// Whether no task has the value.
    pub fn is_idle(&self) -> (b: bool)
        ensures
            b == self.state().is_idle(),
    {
        match &self.0 {
            State::Idle(_) => true,
            _ => false,
        }
    }

    /// Whether the value is at rest in the handle.
    pub fn has_value(&self) -> (b: bool)
        ensures
            b == self.state().has_value(),
    {
        match &self.0 {
            State::Idle(Some(_)) => true,
            _ => false,
        }
    }

    /// Whether the handle listens to a streaming task.
    pub fn listens(&self) -> (b: bool)
        ensures
            b == self.state().listens(),
    {
        match &self.0 {
            State::Streaming(Some(_), _) => true,
            _ => false,
        }
    }

    /// Whether the handle holds the reading side of a reading task's pipe.
    pub fn reads(&self) -> (b: bool)
        ensures
            b == self.state().reads(),
    {
        match &self.0 {
            State::Reading(Some(_), _) => true,
            _ => false,
        }
    }

    /// Whether the handle holds the writing side of a writing task's pipe.
    pub fn writes(&self) -> (b: bool)
        ensures
            b == self.state().writes(),
    {
        match &self.0 {
            State::Writing(Some(_), _) => true,
            _ => false,
        }
    }

    /// Borrows the value of a handle that has it at rest.
    pub fn get_mut(&mut self) -> (value: &mut T)
        requires
            old(self).state().has_value(),
        ensures
            old(self).state() == State::<T, X>::Idle(Some(Box::new(*value))),
            final(self).state() == State::<T, X>::Idle(Some(Box::new(*final(value)))),
    {
        match &mut self.0 {
            State::Idle(Some(value)) => &mut **value,
            _ => vstd::pervasive::unreached(),
        }
    }

    /// Takes the value out of a handle that has it at rest.
    pub fn into_inner(self) -> (value: T)
        requires
            self.state().has_value(),
        ensures
            self.state() == State::<T, X>::Idle(Some(Box::new(value))),
    {
        match self.0 {
            State::Idle(Some(value)) => *value,
            _ => vstd::pervasive::unreached(),
        }
    }

    /// Borrows the join side of the task that has the value, for the host
    /// to poll it.
    pub fn task_mut(&mut self) -> (task: &mut X::Task)
        requires
            !old(self).state().is_idle(),
        ensures
            old(self).state() == old(self).state().with_task(*task),
            final(self).state() == old(self).state().with_task(*final(task)),
    {
        match &mut self.0 {
            State::Idle(_) => vstd::pervasive::unreached(),
            State::Task(task) => task,
            State::Streaming(_, task) => task,
            State::Reading(_, task) => task,
            State::Writing(_, task) => task,
        }
    }

    /// Borrows the receiver that the handle listens with, for the host to
    /// poll it.
    pub fn receiver_mut(&mut self) -> (receiver: &mut X::Receiver)
        requires
            old(self).state().listens(),
        ensures
            old(self).state() matches State::Streaming(Some(r), task) && r == *receiver
                && final(self).state() == State::<T, X>::Streaming(Some(*final(receiver)), task),
    {
        match &mut self.0 {
            State::Streaming(Some(receiver), _) => receiver,
            _ => vstd::pervasive::unreached(),
        }
    }

    /// Borrows the reading side of the pipe that the handle reads from, for
    /// the host to poll it.
    pub fn reader_mut(&mut self) -> (reader: &mut X::Reader)
        requires
            old(self).state().reads(),
        ensures
            old(self).state() matches State::Reading(Some(r), task) && r == *reader
                && final(self).state() == State::<T, X>::Reading(Some(*final(reader)), task),
    {
        match &mut self.0 {
            State::Reading(Some(reader), _) => reader,
            _ => vstd::pervasive::unreached(),
        }
    }

    /// Borrows the writing side of the pipe that the handle writes to, for
    /// the host to poll it.
    pub fn writer_mut(&mut self) -> (writer: &mut X::Writer)
        requires
            old(self).state().writes(),
        ensures
            old(self).state() matches State::Writing(Some(w), task) && w == *writer
                && final(self).state() == State::<T, X>::Writing(Some(*final(writer)), task),
    {
        match &mut self.0 {
            State::Writing(Some(writer), _) => writer,
            _ => vstd::pervasive::unreached(),
        }
    }

    /// Drops the handle's side of the transport.
    fn shut(&mut self)
        ensures
            final(self).state() == old(self).state().shut(),
    {
        match &mut self.0 {
            State::Streaming(receiver, _) => {
                *receiver = None;
            },
            State::Reading(reader, _) => {
                *reader = None;
            },
            State::Writing(writer, _) => {
                *writer = None;
            },
            _ => {},
        }
    }

    /// Takes the value out of a handle that has it at rest.
    fn take(&mut self) -> (value: Box<T>)
        requires
            old(self).state().has_value(),
        ensures
            old(self).state() == State::<T, X>::Idle(Some(value)),
            final(self).state() == State::<T, X>::Idle(None),
    {
        match &mut self.0 {
            State::Idle(slot) => match slot.take() {
                Some(value) => value,
                None => vstd::pervasive::unreached(),
            },
            _ => vstd::pervasive::unreached(),
        }
    }

    /// Brings the handle to rest: waits for the task to end and takes the
    /// value back.
    ///
    /// A handle at rest is done at once. Any other drops its side of the
    /// transport, which tells the task to end, and has the task polled.
    /// When the task has ended its join side is dropped and the value is at
    /// rest again, and only then is an error of the task passed on.
    pub fn poll_stop<E>(&mut self, event: Progress<T, E>) -> (action: Action<
        T,
        Poll<Result<(), E>>,
    >)
        requires
            event is Task ==> !old(self).state().is_idle(),
        ensures
            match event {
                Progress::Enter => if old(self).state().is_idle() {
                    &&& final(self).state() == old(self).state()
                    &&& action == Action::<T, Poll<Result<(), E>>>::Return(Poll::Ready(Ok(())))
                } else {
                    &&& final(self).state() == old(self).state().shut()
                    &&& action == Action::<T, Poll<Result<(), E>>>::Stop
                },
                Progress::Task(TaskPoll::Pending) => {
                    &&& final(self).state() == old(self).state()
                    &&& action == Action::<T, Poll<Result<(), E>>>::Return(Poll::Pending)
                },
                Progress::Task(TaskPoll::Done(result, value)) => {
                    &&& final(self).state() == State::<T, X>::Idle(Some(value))
                    &&& action == Action::<T, Poll<Result<(), E>>>::Return(Poll::Ready(result))
                },
            },
            action is Stop || action is Return,
            action matches Action::Return(Poll::Ready(_)) ==> final(self).state().is_idle(),
            action matches Action::Return(Poll::Ready(Err(_))) ==> final(self).state().has_value(),
    {
        match event {
            Progress::Enter => {
                if self.is_idle() {
                    Action::Return(Poll::Ready(Ok(())))
                } else {
                    self.shut();
                    Action::Stop
                }
            },
            Progress::Task(TaskPoll::Pending) => Action::Return(Poll::Pending),
            Progress::Task(TaskPoll::Done(result, value)) => {
                self.0 = State::Idle(Some(value));
                Action::Return(Poll::Ready(result))
            },
        }
    }

    /// Awaits the handle: brings it to rest and takes the value out for
    /// good. An error of the task is dropped.
    pub fn poll<E>(&mut self, event: Progress<T, E>) -> (action: Action<T, Poll<T>>)
        requires
            event is Enter ==> !old(self).state().is_vacant(),
            event is Task ==> !old(self).state().is_idle(),
        ensures
            match event {
                Progress::Enter => match old(self).state() {
                    State::Idle(Some(value)) => {
                        &&& final(self).state() == State::<T, X>::Idle(None)
                        &&& action == Action::<T, Poll<T>>::Return(Poll::Ready(*value))
                    },
                    state => {
                        &&& final(self).state() == state.shut()
                        &&& action == Action::<T, Poll<T>>::Stop
                    },
                },
                Progress::Task(TaskPoll::Pending) => {
                    &&& final(self).state() == old(self).state()
                    &&& action == Action::<T, Poll<T>>::Return(Poll::Pending)
                },
                Progress::Task(TaskPoll::Done(_, value)) => {
                    &&& final(self).state() == State::<T, X>::Idle(None)
                    &&& action == Action::<T, Poll<T>>::Return(Poll::Ready(*value))
                },
            },
    {
        match event {
            Progress::Enter => {
                if self.is_idle() {
                    let value = self.take();
                    Action::Return(Poll::Ready(*value))
                } else {
                    self.shut();
                    Action::Stop
                }
            },
            Progress::Task(TaskPoll::Pending) => Action::Return(Poll::Pending),
            Progress::Task(TaskPoll::Done(_, value)) => {
                self.0 = State::Idle(None);
                Action::Return(Poll::Ready(*value))
            },
        }
    }

    /// Asks for the next item of a value that is an iterator.
    ///
    /// A handle at rest has the value handed to a new streaming task. A
    /// handle that listens to a streaming task has the channel polled; when
    /// the channel has run dry it has the task joined, so that the value
    /// comes to rest, and only then reports the end of the items. Any other
    /// handle is brought to rest first, and an error met on the way is
    /// dropped.
    pub fn poll_next<E, I>(
        &mut self,
        event: Event<T, E, Option<I>, X::Receiver, X::Task>,
    ) -> (action: Action<T, Poll<Option<I>>>)
        requires
            event is Enter ==> !old(self).state().is_vacant(),
            event is Spawned ==> old(self).state().is_vacant(),
            event is Task ==> !old(self).state().is_idle(),
            event is Transport ==> old(self).state().listens(),
        ensures
            match event {
                Event::Enter => match old(self).state() {
                    State::Streaming(Some(_), _) => {
                        &&& final(self).state() == old(self).state()
                        &&& action == Action::<T, Poll<Option<I>>>::Transfer
                    },
                    State::Idle(Some(value)) => {
                        &&& final(self).state() == State::<T, X>::Idle(None)
                        &&& starts_streaming(action, value)
                    },
                    state => {
                        &&& final(self).state() == state.shut()
                        &&& action == Action::<T, Poll<Option<I>>>::Stop
                    },
                },
                Event::Spawned(receiver, task) => {
                    &&& final(self).state() == State::<T, X>::Streaming(Some(receiver), task)
                    &&& action == Action::<T, Poll<Option<I>>>::Transfer
                },
                Event::Task(TaskPoll::Pending) => {
                    &&& final(self).state() == old(self).state()
                    &&& action == Action::<T, Poll<Option<I>>>::Return(Poll::Pending)
                },
                Event::Task(TaskPoll::Done(_, value)) => if old(self).state().listens() {
                    &&& final(self).state() == State::<T, X>::Idle(Some(value))
                    &&& action == Action::<T, Poll<Option<I>>>::Return(Poll::Ready(None))
                } else {
                    &&& final(self).state() == State::<T, X>::Idle(None)
                    &&& starts_streaming(action, value)
                },
                Event::Transport(Poll::Pending) => {
                    &&& final(self).state() == old(self).state()
                    &&& action == Action::<T, Poll<Option<I>>>::Return(Poll::Pending)
                },
                Event::Transport(Poll::Ready(Some(item))) => {
                    &&& final(self).state() == old(self).state()
                    &&& action == Action::<T, Poll<Option<I>>>::Return(Poll::Ready(Some(item)))
                },
                Event::Transport(Poll::Ready(None)) => {
                    &&& final(self).state() == old(self).state()
                    &&& action == Action::<T, Poll<Option<I>>>::Join
                },
            },
    {
        match event {
            Event::Enter => {
                if self.is_idle() {
                    let value = self.take();
                    Action::Spawn(Job::Stream(value, STREAM_CAPACITY))
                } else if self.listens() {
                    Action::Transfer
                } else {
                    self.shut();
                    Action::Stop
                }
            },
            Event::Spawned(receiver, task) => {
                self.0 = State::Streaming(Some(receiver), task);
                Action::Transfer
            },
            Event::Task(TaskPoll::Pending) => Action::Return(Poll::Pending),
            Event::Task(TaskPoll::Done(_, value)) => {
                if self.listens() {
                    self.0 = State::Idle(Some(value));
                    Action::Return(Poll::Ready(None))
                } else {
                    self.0 = State::Idle(None);
                    Action::Spawn(Job::Stream(value, STREAM_CAPACITY))
                }
            },
            Event::Transport(Poll::Pending) => Action::Return(Poll::Pending),
            Event::Transport(Poll::Ready(Some(item))) => Action::Return(Poll::Ready(Some(item))),
            Event::Transport(Poll::Ready(None)) => Action::Join,
        }
    }

    /// Asks for bytes of a value that can be read from.
    ///
    /// A handle at rest has the value handed to a new reading task, with a
    /// new pipe between them. A handle that holds the reading side of a
    /// reading task's pipe has that side polled; when it yields no byte the
    /// handle has the task joined, so that the value comes to rest, and
    /// passes on the task's error or reports the end of the bytes. Any
    /// other handle is brought to rest first, and an error met on the way
    /// is returned.
    pub fn poll_read<E>(&mut self, event: Event<T, E, usize, X::Reader, X::Task>) -> (action:
        Action<T, Poll<Result<usize, E>>>)
        requires
            event is Enter ==> !old(self).state().is_vacant(),
            event is Spawned ==> old(self).state().is_vacant(),
            event is Task ==> !old(self).state().is_idle(),
            event is Transport ==> old(self).state().reads(),
        ensures
            match event {
                Event::Enter => match old(self).state() {
                    State::Reading(Some(_), _) => {
                        &&& final(self).state() == old(self).state()
                        &&& action == Action::<T, Poll<Result<usize, E>>>::Transfer
                    },
                    State::Idle(Some(value)) => {
                        &&& final(self).state() == State::<T, X>::Idle(None)
                        &&& starts_reading(action, value)
                    },
                    state => {
                        &&& final(self).state() == state.shut()
                        &&& action == Action::<T, Poll<Result<usize, E>>>::Stop
                    },
                },
                Event::Spawned(reader, task) => {
                    &&& final(self).state() == State::<T, X>::Reading(Some(reader), task)
                    &&& action == Action::<T, Poll<Result<usize, E>>>::Transfer
                },
                Event::Task(TaskPoll::Pending) => {
                    &&& final(self).state() == old(self).state()
                    &&& action == Action::<T, Poll<Result<usize, E>>>::Return(Poll::Pending)
                },
                Event::Task(TaskPoll::Done(Err(error), value)) => {
                    &&& final(self).state() == State::<T, X>::Idle(Some(value))
                    &&& action == Action::<T, Poll<Result<usize, E>>>::Return(
                        Poll::Ready(Err(error)),
                    )
                },
                Event::Task(TaskPoll::Done(Ok(_), value)) => if old(self).state().reads() {
                    &&& final(self).state() == State::<T, X>::Idle(Some(value))
                    &&& action == Action::<T, Poll<Result<usize, E>>>::Return(Poll::Ready(Ok(0)))
                } else {
                    &&& final(self).state() == State::<T, X>::Idle(None)
                    &&& starts_reading(action, value)
                },
                Event::Transport(Poll::Pending) => {
                    &&& final(self).state() == old(self).state()
                    &&& action == Action::<T, Poll<Result<usize, E>>>::Return(Poll::Pending)
                },
                Event::Transport(Poll::Ready(n)) => {
                    &&& final(self).state() == old(self).state()
                    &&& action == if n == 0 {
                        Action::<T, Poll<Result<usize, E>>>::Join
                    } else {
                        Action::<T, Poll<Result<usize, E>>>::Return(Poll::Ready(Ok(n)))
                    }
                },
            },
            action matches Action::Return(Poll::Ready(Err(_))) ==> final(self).state().has_value(),
    {
        match event {
            Event::Enter => {
                if self.is_idle() {
                    let value = self.take();
                    Action::Spawn(Job::Read(value, pipe(PIPE_CAPACITY)))
                } else if self.reads() {
                    Action::Transfer
                } else {
                    self.shut();
                    Action::Stop
                }
            },
            Event::Spawned(reader, task) => {
                self.0 = State::Reading(Some(reader), task);
                Action::Transfer
            },
            Event::Task(TaskPoll::Pending) => Action::Return(Poll::Pending),
            Event::Task(TaskPoll::Done(Err(error), value)) => {
                self.0 = State::Idle(Some(value));
                Action::Return(Poll::Ready(Err(error)))
            },
            Event::Task(TaskPoll::Done(Ok(_), value)) => {
                if self.reads() {
                    self.0 = State::Idle(Some(value));
                    Action::Return(Poll::Ready(Ok(0)))
                } else {
                    self.0 = State::Idle(None);
                    Action::Spawn(Job::Read(value, pipe(PIPE_CAPACITY)))
                }
            },
            Event::Transport(Poll::Pending) => Action::Return(Poll::Pending),
            Event::Transport(Poll::Ready(n)) => {
                if n == 0 {
                    Action::Join
                } else {
                    Action::Return(Poll::Ready(Ok(n)))
                }
            },
        }
    }

    /// Offers bytes to a value that can be written to.
    ///
    /// A handle at rest has the value handed to a new writing task, with a
    /// new pipe between them. A handle that holds the writing side of a
    /// writing task's pipe has that side polled, and what that comes to is
    /// returned as it is. Any other handle is brought to rest first, and an
    /// error met on the way is returned.
    pub fn poll_write<E>(&mut self, event: Event<T, E, usize, X::Writer, X::Task>) -> (action:
        Action<T, Poll<Result<usize, E>>>)
        requires
            event is Enter ==> !old(self).state().is_vacant(),
            event is Spawned ==> old(self).state().is_vacant(),
            event is Task ==> !old(self).state().is_idle(),
            event is Transport ==> old(self).state().writes(),
        ensures
            match event {
                Event::Enter => match old(self).state() {
                    State::Writing(Some(_), _) => {
                        &&& final(self).state() == old(self).state()
                        &&& action == Action::<T, Poll<Result<usize, E>>>::Transfer
                    },
                    State::Idle(Some(value)) => {
                        &&& final(self).state() == State::<T, X>::Idle(None)
                        &&& starts_writing(action, value)
                    },
                    state => {
                        &&& final(self).state() == state.shut()
                        &&& action == Action::<T, Poll<Result<usize, E>>>::Stop
                    },
                },
                Event::Spawned(writer, task) => {
                    &&& final(self).state() == State::<T, X>::Writing(Some(writer), task)
                    &&& action == Action::<T, Poll<Result<usize, E>>>::Transfer
                },
                Event::Task(TaskPoll::Pending) => {
                    &&& final(self).state() == old(self).state()
                    &&& action == Action::<T, Poll<Result<usize, E>>>::Return(Poll::Pending)
                },
                Event::Task(TaskPoll::Done(Err(error), value)) => {
                    &&& final(self).state() == State::<T, X>::Idle(Some(value))
                    &&& action == Action::<T, Poll<Result<usize, E>>>::Return(
                        Poll::Ready(Err(error)),
                    )
                },
                Event::Task(TaskPoll::Done(Ok(_), value)) => {
                    &&& final(self).state() == State::<T, X>::Idle(None)
                    &&& starts_writing(action, value)
                },
                Event::Transport(Poll::Pending) => {
                    &&& final(self).state() == old(self).state()
                    &&& action == Action::<T, Poll<Result<usize, E>>>::Return(Poll::Pending)
                },
                Event::Transport(Poll::Ready(n)) => {
                    &&& final(self).state() == old(self).state()
                    &&& action == Action::<T, Poll<Result<usize, E>>>::Return(Poll::Ready(Ok(n)))
                },
            },
            action matches Action::Return(Poll::Ready(Err(_))) ==> final(self).state().has_value(),
    {
        match event {
            Event::Enter => {
                if self.is_idle() {
                    let value = self.take();
                    Action::Spawn(Job::Write(value, pipe(PIPE_CAPACITY)))
                } else if self.writes() {
                    Action::Transfer
                } else {
                    self.shut();
                    Action::Stop
                }
            },
            Event::Spawned(writer, task) => {
                self.0 = State::Writing(Some(writer), task);
                Action::Transfer
            },
            Event::Task(TaskPoll::Pending) => Action::Return(Poll::Pending),
            Event::Task(TaskPoll::Done(Err(error), value)) => {
                self.0 = State::Idle(Some(value));
                Action::Return(Poll::Ready(Err(error)))
            },
            Event::Task(TaskPoll::Done(Ok(_), value)) => {
                self.0 = State::Idle(None);
                Action::Spawn(Job::Write(value, pipe(PIPE_CAPACITY)))
            },
            Event::Transport(Poll::Pending) => Action::Return(Poll::Pending),
            Event::Transport(Poll::Ready(n)) => Action::Return(Poll::Ready(Ok(n))),
        }
    }

    /// Flushes a value that can be written to. The one way to flush is to
    /// bring the handle to rest: the writing task flushes the value before
    /// it ends.
    pub fn poll_flush<E>(&mut self, event: Progress<T, E>) -> (action: Action<
        T,
        Poll<Result<(), E>>,
    >)
        requires
            event is Task ==> !old(self).state().is_idle(),
        ensures
            match event {
                Progress::Enter => if old(self).state().is_idle() {
                    &&& final(self).state() == old(self).state()
                    &&& action == Action::<T, Poll<Result<(), E>>>::Return(Poll::Ready(Ok(())))
                } else {
                    &&& final(self).state() == old(self).state().shut()
                    &&& action == Action::<T, Poll<Result<(), E>>>::Stop
                },
                Progress::Task(TaskPoll::Pending) => {
                    &&& final(self).state() == old(self).state()
                    &&& action == Action::<T, Poll<Result<(), E>>>::Return(Poll::Pending)
                },
                Progress::Task(TaskPoll::Done(result, value)) => {
                    &&& final(self).state() == State::<T, X>::Idle(Some(value))
                    &&& action == Action::<T, Poll<Result<(), E>>>::Return(Poll::Ready(result))
                },
            },
            action is Stop || action is Return,
            action matches Action::Return(Poll::Ready(_)) ==> final(self).state().is_idle(),
            action matches Action::Return(Poll::Ready(Err(_))) ==> final(self).state().has_value(),
    {
        self.poll_stop(event)
    }

    /// Closes a value that can be written to: flushes it and then drops it.
    /// When flushing fails the value stays at rest in the handle.
    pub fn poll_close<E>(&mut self, event: Progress<T, E>) -> (action: Action<
        T,
        Poll<Result<(), E>>,
    >)
        requires
            event is Task ==> !old(self).state().is_idle(),
        ensures
            match event {
                Progress::Enter => if old(self).state().is_idle() {
                    &&& final(self).state() == State::<T, X>::Idle(None)
                    &&& action == Action::<T, Poll<Result<(), E>>>::Return(Poll::Ready(Ok(())))
                } else {
                    &&& final(self).state() == old(self).state().shut()
                    &&& action == Action::<T, Poll<Result<(), E>>>::Stop
                },
                Progress::Task(TaskPoll::Pending) => {
                    &&& final(self).state() == old(self).state()
                    &&& action == Action::<T, Poll<Result<(), E>>>::Return(Poll::Pending)
                },
                Progress::Task(TaskPoll::Done(Err(error), value)) => {
                    &&& final(self).state() == State::<T, X>::Idle(Some(value))
                    &&& action == Action::<T, Poll<Result<(), E>>>::Return(Poll::Ready(Err(error)))
                },
                Progress::Task(TaskPoll::Done(Ok(_), _)) => {
                    &&& final(self).state() == State::<T, X>::Idle(None)
                    &&& action == Action::<T, Poll<Result<(), E>>>::Return(Poll::Ready(Ok(())))
                },
            },
            action is Stop || action is Return,
            action matches Action::Return(Poll::Ready(_)) ==> final(self).state().is_idle(),
            action matches Action::Return(Poll::Ready(Err(_))) ==> final(self).state().has_value(),
    {
        match event {
            Progress::Enter => {
                if self.is_idle() {
                    self.0 = State::Idle(None);
                    Action::Return(Poll::Ready(Ok(())))
                } else {
                    self.shut();
                    Action::Stop
                }
            },
            Progress::Task(TaskPoll::Pending) => Action::Return(Poll::Pending),
            Progress::Task(TaskPoll::Done(Err(error), value)) => {
                self.0 = State::Idle(Some(value));
                Action::Return(Poll::Ready(Err(error)))
            },
            Progress::Task(TaskPoll::Done(Ok(_), _)) => {
                self.0 = State::Idle(None);
                Action::Return(Poll::Ready(Ok(())))
            },
        }
    }
}

/// What a task makes of one turn of its loop.
pub enum Turn<E> {
    /// Go round again.
    Continue,
    /// End, and report this together with the value.
    Finish(Result<(), E>),
    /// Flush the value, then end. With an error at hand report that one,
    /// whatever flushing comes to; without one report what flushing came to.
    Flush(Option<E>),
}

/// A turn of a streaming task: it has taken the next item out of the value
/// and tried to send it. The task ends when the item could not be sent,
/// which is when the handle no longer listens, and that is no failure.
pub fn stream_task_turn<X>(sent: Result<(), X>) -> (turn: Turn<X>)
    ensures
        turn == match sent {
            Ok(_) => Turn::<X>::Continue,
            Err(_) => Turn::<X>::Finish(Ok(())),
        },
{
    match sent {
        Ok(_) => Turn::Continue,
        Err(_) => Turn::Finish(Ok(())),
    }
}

/// A turn of a reading task: it has polled the writing side of its pipe with
/// the value as the source of the bytes. The task ends when no byte was
/// moved, which is when the pipe was closed or the value is used up, and
/// when reading failed.
pub fn read_task_turn<E>(moved: Result<usize, E>) -> (turn: Turn<E>)
    ensures
        turn == match moved {
            Ok(n) => if n == 0 {
                Turn::<E>::Finish(Ok(()))
            } else {
                Turn::<E>::Continue
            },
            Err(error) => Turn::<E>::Finish(Err(error)),
        },
{
    match moved {
        Ok(n) => {
            if n == 0 {
                Turn::Finish(Ok(()))
            } else {
                Turn::Continue
            }
        },
        Err(error) => Turn::Finish(Err(error)),
    }
}

/// A turn of a writing task: it has polled the reading side of its pipe with
/// the value as the sink of the bytes. The task flushes the value and ends
/// when no byte was moved, which is when the pipe was closed and empty, and
/// when writing failed.
pub fn write_task_turn<E>(moved: Result<usize, E>) -> (turn: Turn<E>)
    ensures
        turn == match moved {
            Ok(n) => if n == 0 {
                Turn::<E>::Flush(None)
            } else {
                Turn::<E>::Continue
            },
            Err(error) => Turn::<E>::Flush(Some(error)),
        },
{
    match moved {
        Ok(n) => {
            if n == 0 {
                Turn::Flush(None)
            } else {
                Turn::Continue
            }
        },
        Err(error) => Turn::Flush(Some(error)),
    }
}

/// The end of a writing task: what it reports after it has flushed the
/// value. An error of writing comes before what flushing came to.
pub fn write_task_end<E>(failed: Option<E>, flushed: Result<(), E>) -> (result: Result<(), E>)
    ensures
        result == match failed {
            Some(error) => Err(error),
            None => flushed,
        },
{
    match failed {
        Some(error) => Err(error),
        None => flushed,
    }
}

} // verus!
