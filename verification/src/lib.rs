//! Building blocks of a bridge between cooperatively scheduled code and
//! operations that block the thread they run on.
//!
//! * [`executor`]: the bookkeeping of an elastic pool of threads.
//! * [`handle`]: the state machine of a handle that owns a blocking value.
//! * [`pipe`]: a bounded single-producer single-consumer pipe of bytes.
//! * [`ring`]: the mathematics of such a pipe.
//! * [`poll`]: the outcome of a poll.
//! * [`waker`]: the slots that the two sides of a pipe park their wakers in.

pub mod executor;
pub mod handle;
pub mod pipe;
pub mod poll;
pub mod ring;
pub mod waker;
