//! The single-slot waker store that each side of a pipe parks itself in.
//!
//! The store is `futures::task::AtomicWaker`. The pipe owns its two slots and
//! reaches them through exclusive borrows only, so a slot is either empty or
//! holds a waker for whoever registered last. What is said of the slots
//! below is taken on trust from that type.

use vstd::prelude::*;

verus! {

/// `std::task::Waker`, carried through and never looked into.
#[verifier::external_type_specification]
#[verifier::external_body]
pub struct ExWaker(std::task::Waker);

/// `futures::task::AtomicWaker`, known only by whether it holds a waker.
#[verifier::external_type_specification]
#[verifier::external_body]
pub struct ExAtomicWaker(futures::task::AtomicWaker);

/// Whether the slot currently holds a waker.
pub uninterp spec fn armed(slot: futures::task::AtomicWaker) -> bool;

/// Calls `AtomicWaker::new`. Trusted: the new slot holds no waker.
#[verifier::external_body]
pub(crate) fn empty_slot() -> (slot: futures::task::AtomicWaker)
    ensures
        !armed(slot),
{
    futures::task::AtomicWaker::new()
}

/// Calls `AtomicWaker::register`. Trusted: with nobody else touching the
/// slot, the call stores a clone of `waker`, so the slot holds a waker
/// afterwards.
#[verifier::external_body]
pub(crate) fn register(slot: &mut futures::task::AtomicWaker, waker: &std::task::Waker)
    ensures
        armed(*final(slot)),
{
    slot.register(waker)
}

/// Calls `AtomicWaker::take` and drops what it hands out. Trusted: the
/// stored waker, if there was one, is taken out without being woken, and the
/// slot is left empty.
#[verifier::external_body]
pub(crate) fn take(slot: &mut futures::task::AtomicWaker)
    ensures
        !armed(*final(slot)),
{
    slot.take();
}

/// Calls `AtomicWaker::wake`. Trusted: the stored waker, if there was one,
/// is taken out and woken, and the slot is left empty.
#[verifier::external_body]
pub(crate) fn wake(slot: &mut futures::task::AtomicWaker)
    ensures
        !armed(*final(slot)),
{
    slot.wake()
}

} // verus!
