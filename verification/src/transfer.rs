//! Running a script against real pins, one line operation at a time.
//!
//! The driver only says what has to happen on the bus. Whoever owns the pins
//! asks a [`Transfer`] for the next operation, carries it out, and comes
//! back with the outcome. Nothing is retried and nothing is undone: the
//! first failure ends the transfer, and whatever was already driven stays on
//! the wire, chip-select included.

use vstd::prelude::*;
use crate::wire::PinOp;

verus! {

/// A pin could not be driven. Which of the three lines failed is not kept.
#[derive(Clone, Copy, Debug, PartialEq, Eq, Structural)]
pub struct PinError;

impl From<core::convert::Infallible> for PinError {
    /// A pin that cannot fail never has anything to convert; the impl lets
    /// such a pin stand where a fallible one is expected.
    fn from(never: core::convert::Infallible) -> (error: PinError) {
        PinError
    }
}

impl vstd::std_specs::convert::FromSpecImpl<core::convert::Infallible> for PinError {
    open spec fn obeys_from_spec() -> bool {
        true
    }

    open spec fn from_spec(never: core::convert::Infallible) -> PinError {
        PinError
    }
}

/// What the owner of the pins has to do next.
#[derive(Clone, Copy, Debug, PartialEq, Eq, Structural)]
pub enum Step {
    /// Carry out this operation and report its outcome to the next step.
    Drive(PinOp),
    /// Every operation of the script went through.
    Complete,
    /// An operation failed; the rest of the script was given up.
    Aborted(PinError),
}

/// A script on its way to the pins.
pub struct Transfer {
    script: Vec<PinOp>,
    issued: usize,
    failed: bool,
}

impl Transfer {
    /// The operations of the script, in order.
    pub closed spec fn script(&self) -> Seq<PinOp> {
        self.script@
    }

    /// How many operations have been handed out so far.
    pub closed spec fn issued(&self) -> nat {
        self.issued as nat
    }

    /// Whether a failure has been reported.
    pub closed spec fn failed(&self) -> bool {
        self.failed
    }

    #[verifier::type_invariant]
    spec fn within_script(&self) -> bool {
        self.issued <= self.script@.len()
    }

    /// A transfer of `script` of which nothing has been driven yet.
    pub fn new(script: Vec<PinOp>) -> (transfer: Transfer)
        ensures
            transfer.script() == script@,
            transfer.issued() == 0,
            !transfer.failed(),
    {
        Transfer { script, issued: 0, failed: false }
    }

    /// Takes the outcome of the operation handed out last and says what
    /// comes next. The first call has nothing to report and passes `Ok`.
    ///
    /// A reported failure aborts the transfer, now and on every later call.
    /// Otherwise the next operation of the script is handed out, or the
    /// transfer is complete when none is left.
    pub fn step(&mut self, last: Result<(), PinError>) -> (next: Step)
        ensures
            final(self).script() == old(self).script(),
            final(self).failed() == (old(self).failed() || last is Err),
            final(self).issued() <= final(self).script().len(),
            final(self).failed() ==> {
                &&& next == Step::Aborted(PinError)
                &&& final(self).issued() == old(self).issued()
            },
            !final(self).failed() && old(self).issued() < old(self).script().len() ==> {
                &&& next == Step::Drive(old(self).script()[old(self).issued() as int])
                &&& final(self).issued() == old(self).issued() + 1
            },
            !final(self).failed() && old(self).issued() >= old(self).script().len() ==> {
                &&& next == Step::Complete
                &&& final(self).issued() == old(self).issued()
            },
    {
        proof {
            use_type_invariant(&*self);
        }
        if last.is_err() {
            self.failed = true;
        }
        if self.failed {
            Step::Aborted(PinError)
        } else if self.issued < self.script.len() {
            let op = self.script[self.issued];
            self.issued = self.issued + 1;
            Step::Drive(op)
        } else {
            Step::Complete
        }
    }
}

} // verus!
