//! What asking a thing that may not be done yet gives.

use vstd::prelude::*;

verus! {

/// An answer, or that there is none yet.
#[derive(Debug)]
pub enum Polled<T> {
    Ready(T),
    Pending,
}

/// What a call on a socket that does not wait comes to.
pub open spec fn polled_as<T, E>(r: Result<T, E>, would_block: bool) -> Polled<Result<T, E>> {
    if r is Err && would_block {
        Polled::Pending
    } else {
        Polled::Ready(r)
    }
}

/// What shutting a socket down comes to.
pub open spec fn shut_as<E>(r: Result<(), E>, not_connected: bool) -> Result<(), E> {
    if r is Err && not_connected {
        Ok(())
    } else {
        r
    }
}

/// What a call on a socket that does not wait comes to: one that would have
/// had to wait has no answer yet. `would_block` says that a failure is that.
pub fn poll_would_block<T, E>(r: Result<T, E>, would_block: bool) -> (p: Polled<Result<T, E>>)
    ensures
        p == polled_as(r, would_block),
{
    match r {
        Err(e) => if would_block {
            Polled::Pending
        } else {
            Polled::Ready(Err(e))
        },
        Ok(v) => Polled::Ready(Ok(v)),
    }
}

/// What shutting a socket down comes to: one that is not connected any more is
/// shut down. `not_connected` says that a failure is that.
pub fn shut_down<E>(r: Result<(), E>, not_connected: bool) -> (s: Result<(), E>)
    ensures
        s == shut_as(r, not_connected),
{
    match r {
        Err(e) => if not_connected {
            Ok(())
        } else {
            Err(e)
        },
        Ok(done) => Ok(done),
    }
}

/// What succeeded is the answer, and so is a failure for any other reason; only
/// a call that would have had to wait has none yet.
pub proof fn law_only_waiting_has_no_answer<T, E>(v: T, e: E, would_block: bool)
    ensures
        polled_as(Ok::<T, E>(v), would_block) == Polled::Ready(Ok::<T, E>(v)),
        polled_as(Err::<T, E>(e), false) == Polled::Ready(Err::<T, E>(e)),
        polled_as(Err::<T, E>(e), true) is Pending,
{
}

/// A socket that is not connected any more is shut down; any other failure to
/// shut one down is handed on.
pub proof fn law_what_is_gone_is_shut_down<E>(e: E, not_connected: bool)
    ensures
        shut_as(Ok::<(), E>(()), not_connected) is Ok,
        shut_as(Err::<(), E>(e), true) is Ok,
        shut_as(Err::<(), E>(e), false) == Err::<(), E>(e),
{
}

} // verus!
