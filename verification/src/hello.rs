//! A three-state suspendable computation: it emits two fragments of text,
//! suspending after each, and then reports completion.

use vstd::prelude::*;
use crate::suspend::{output_view, Polled, Step, Suspendable};

verus! {

/// The suspend points of the greeting computation.
#[derive(Clone, Copy, Debug, PartialEq, Eq, Structural)]
pub enum StateHello {
    Hello,
    World,
    End,
}

/// The greeting computation itself: poll it three times and it emits
/// "Hello," then "World!" and then completes.
#[derive(Clone, Copy, Debug)]
pub struct Hello {
    pub state: StateHello,
}

impl Hello {
    /// A fresh computation, at its first suspend point.
    pub fn new() -> (h: Hello)
        ensures
            h.state is Hello,
    {
        Hello { state: StateHello::Hello }
    }
}

impl Suspendable for Hello {
    open spec fn next_state(self) -> Hello {
        match self.state {
            StateHello::Hello => Hello { state: StateHello::World },
            StateHello::World => Hello { state: StateHello::End },
            StateHello::End => self,
        }
    }

    open spec fn next_step(self) -> Step {
        match self.state {
            StateHello::End => Step::Ready,
            _ => Step::Yield,
        }
    }

    open spec fn next_output(self) -> Option<Seq<char>> {
        match self.state {
            StateHello::Hello => Some("Hello,"@),
            StateHello::World => Some("World!"@),
            StateHello::End => None,
        }
    }

    fn poll(&mut self) -> (r: Polled) {
        match self.state {
            StateHello::Hello => {
                self.state = StateHello::World;
                Polled { step: Step::Yield, output: Some("Hello,".to_owned()) }
            },
            StateHello::World => {
                self.state = StateHello::End;
                Polled { step: Step::Yield, output: Some("World!".to_owned()) }
            },
            StateHello::End => {
                Polled { step: Step::Ready, output: None }
            },
        }
    }
}

/// Convergence of the greeting: from the initial state, the first poll
/// emits "Hello," and suspends, the second emits "World!" and suspends,
/// and the third reports completion with no output; the state no longer
/// changes from then on, so a completed task polled again is a no-op.
pub proof fn lemma_hello_converges(h: Hello)
    requires
        h.state is Hello,
    ensures
        h.next_output() == Some("Hello,"@),
        h.next_step() == Step::Yield,
        h.next_state().next_output() == Some("World!"@),
        h.next_state().next_step() == Step::Yield,
        h.next_state().next_state().next_step() == Step::Ready,
        h.next_state().next_state().next_output() is None,
        h.next_state().next_state().next_state() == h.next_state().next_state(),
{
}

} // verus!
