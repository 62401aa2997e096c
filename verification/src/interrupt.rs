//! Cancellation controller: a pair of flags shared by every blocking step of
//! the pipeline. A first cancellation signal only arms the abort; a second
//! signal while armed confirms it, after which the process is expected to
//! terminate. The flags live behind one exclusive lock owned by the caller;
//! this module holds only the (verified) state transitions.

use vstd::prelude::*;

verus! {

/// The shared cancellation flag pair.
///
/// `interrupted` is set by the first cancellation signal, `confirmed_abort`
/// by any further signal while `interrupted` already holds. A confirmed
/// abort is terminal: no transition ever clears either flag.
#[derive(Clone, Copy, Debug, PartialEq, Eq, Structural)]
pub struct InterruptState {
    pub interrupted: bool,
    pub confirmed_abort: bool,
}

impl InterruptState {
    /// The state at process start: no signal received yet.
    pub open spec fn initial_spec() -> InterruptState {
        InterruptState { interrupted: false, confirmed_abort: false }
    }

    /// A confirmed abort only ever arises while the abort is armed.
    pub open spec fn wf(self) -> bool {
        self.confirmed_abort ==> self.interrupted
    }

    /// The transition taken on each cancellation signal: the first signal
    /// arms the abort, any further signal confirms it.
    pub open spec fn request_spec(self) -> InterruptState {
        if !self.interrupted {
            InterruptState { interrupted: true, confirmed_abort: self.confirmed_abort }
        } else {
            InterruptState { interrupted: true, confirmed_abort: true }
        }
    }

    pub fn new() -> (r: InterruptState)
        ensures
            r == InterruptState::initial_spec(),
            r.wf(),
    {
        InterruptState { interrupted: false, confirmed_abort: false }
    }

    /// Record one cancellation signal. Idempotent once the abort is
    /// confirmed; never blocks.
    pub fn request(&mut self)
        ensures
            *final(self) == old(self).request_spec(),
            old(self).wf() ==> final(self).wf(),
    {
        if !self.interrupted {
            self.interrupted = true;
        } else {
            self.confirmed_abort = true;
        }
    }

    /// Non-blocking read of the current flag pair.
    pub fn snapshot(&self) -> (r: InterruptState)
        ensures
            r == *self,
    {
        InterruptState { interrupted: self.interrupted, confirmed_abort: self.confirmed_abort }
    }
}

impl Default for InterruptState {
    fn default() -> (r: Self)
        ensures
            r == InterruptState::initial_spec(),
    {
        InterruptState::new()
    }
}

/// After exactly one signal the abort is armed but not confirmed; a second
/// signal confirms it; a third leaves the (terminal) state unchanged.
pub proof fn lemma_request_sequence()
    ensures
        InterruptState::initial_spec().request_spec() == (InterruptState {
            interrupted: true,
            confirmed_abort: false,
        }),
        InterruptState::initial_spec().request_spec().request_spec() == (InterruptState {
            interrupted: true,
            confirmed_abort: true,
        }),
        InterruptState::initial_spec().request_spec().request_spec().request_spec()
            == InterruptState::initial_spec().request_spec().request_spec(),
{
}

} // verus!
