//! The decision that drives iteration over a connection: what one poll of
//! the event loop yields to the caller.

use vstd::prelude::*;

verus! {

/// What one poll of the event loop gave: an event, the end of the requests
/// (every client handle is gone), a cancellation, or another error.
pub enum Polled<T, E> {
    Event(T),
    RequestsDone,
    Cancel,
    Failed(E),
}

/// What iterating over a connection yields for one poll of its event loop:
/// the event, or the error; the end of the requests and a cancellation
/// stop the iteration.
pub fn next_item<T, E>(polled: Polled<T, E>) -> (r: Option<Result<T, E>>)
    ensures
        match polled {
            Polled::Event(v) => r == Some(Ok::<T, E>(v)),
            Polled::RequestsDone => r is None,
            Polled::Cancel => r is None,
            Polled::Failed(e) => r == Some(Err::<T, E>(e)),
        },
{
    match polled {
        Polled::Event(v) => Some(Ok(v)),
        Polled::RequestsDone => None,
        Polled::Cancel => None,
        Polled::Failed(e) => Some(Err(e)),
    }
}

} // verus!
