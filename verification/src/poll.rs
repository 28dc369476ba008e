//! The outcome of a poll.

use vstd::prelude::*;

verus! {

/// What a poll came to.
#[derive(Debug, PartialEq, Eq)]
pub enum Poll<T> {
    /// Done; the value says what was achieved.
    Ready(T),
    /// Nothing could be done yet. Whoever polled will be woken.
    Pending,
}

/// A poll's outcome with its count as a mathematical integer.
pub open spec fn poll_view(p: Poll<usize>) -> Poll<int> {
    match p {
        Poll::Ready(n) => Poll::Ready(n as int),
        Poll::Pending => Poll::Pending,
    }
}

} // verus!
