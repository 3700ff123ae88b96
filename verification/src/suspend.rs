//! The capability at the heart of the runtime: a computation that can be
//! polled for progress and either finishes or asks to be resumed later.

use vstd::prelude::*;

verus! {

/// The kind of readiness a computation can wait for on a descriptor.
#[derive(Clone, Copy, Debug, PartialEq, Eq, Structural)]
pub enum Interest {
    Readable,
    Writable,
}

/// What one poll of a computation asks of the runtime.
#[derive(Clone, Copy, Debug, PartialEq, Eq, Structural)]
pub enum Step {
    /// The computation is done; the task is dropped and never polled again.
    Ready,
    /// Not done; the wake handle captured during this poll is invoked at
    /// once, so the task goes straight back onto the ready queue.
    Yield,
    /// Not done; the wake handle is to be registered with the reactor for
    /// readiness of `fd`, and the task stays parked until the reactor fires.
    Wait { fd: u64, interest: Interest },
}

/// The full outcome of one poll: the scheduling request and an optional
/// piece of output emitted during this poll.
#[derive(Debug)]
pub struct Polled {
    pub step: Step,
    pub output: Option<String>,
}

/// The view of an emitted output as a mathematical value.
pub open spec fn output_view(o: Option<String>) -> Option<Seq<char>> {
    match o {
        Some(s) => Some(s@),
        None => None,
    }
}

/// A unit of work that can be polled repeatedly: each poll either reports
/// completion or suspends, exactly as the poll specification says.
pub trait Suspendable: Sized {
    /// The state after one poll.
    spec fn next_state(self) -> Self;

    /// The scheduling request made by one poll.
    spec fn next_step(self) -> Step;

    /// The output emitted by one poll, as a sequence of characters.
    spec fn next_output(self) -> Option<Seq<char>>;

    /// Attempt progress once.
    fn poll(&mut self) -> (r: Polled)
        ensures
            *final(self) == old(self).next_state(),
            r.step == old(self).next_step(),
            output_view(r.output) == old(self).next_output(),
    ;
}

} // verus!
