//! Anonymous usage reporting: whether to report, what a report may carry,
//! and when reports go out.

pub mod consent;
pub mod device;
pub mod event;
pub mod queue;
pub mod sink;

use vstd::prelude::*;

verus! {

/// Reports held back until this many pile up.
pub const BATCH_SIZE: usize = 20;

/// How long, in seconds, a partial batch waits before going out anyway.
pub const BATCH_WAIT_SECONDS: u64 = 30;

/// What woke the sending thread.
#[derive(Debug, Clone, Copy, PartialEq, Eq, Structural)]
pub enum Signal {
    /// A report was queued.
    Woken,
    /// [`BATCH_WAIT_SECONDS`] passed without one.
    TimedOut,
    /// The app stopped reporting.
    Closed,
}

/// What the sending thread does next.
#[derive(Debug, Clone, Copy, PartialEq, Eq, Structural)]
pub enum Step {
    /// Keep waiting for more reports.
    Wait,
    /// Send what is queued, then wait again.
    Deliver,
    /// Send what is queued and stop.
    DeliverAndStop,
}

/// The sending thread's decision: a queued report only triggers a delivery
/// once a batch has piled up; a timeout sends whatever there is; a close
/// sends what is left and ends the thread.
pub fn next_step(signal: Signal, pending: usize) -> (step: Step)
    ensures
        step == match signal {
            Signal::Woken => if pending < BATCH_SIZE {
                Step::Wait
            } else {
                Step::Deliver
            },
            Signal::TimedOut => Step::Deliver,
            Signal::Closed => Step::DeliverAndStop,
        },
{
    match signal {
        Signal::Woken => if pending < BATCH_SIZE {
            Step::Wait
        } else {
            Step::Deliver
        },
        Signal::TimedOut => Step::Deliver,
        Signal::Closed => Step::DeliverAndStop,
    }
}

} // verus!
