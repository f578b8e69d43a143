//! What can go wrong in a runtime.

use vstd::prelude::*;

verus! {

/// The failures a runtime reports. None is retried inside this crate: the
/// embedding event loop decides what each one means for it.
#[derive(Clone, Copy, Debug, PartialEq, Eq, Hash, Structural)]
pub enum RuntimeError {
    /// The clock was asked to move to a point before its current one.
    ClockRegression,
    /// A deadline lies beyond what the clock can represent.
    DeadlineOverflow,
    /// The timer has handed out every future identity it has.
    TimersExhausted,
    /// A frame was asked for, and the outgoing queue holds none.
    QueueEmpty,
    /// The descriptor pool had no descriptor to give.
    PoolExhausted,
    /// A frame is longer than the descriptor's usable capacity.
    FrameTooLarge,
    /// The port did not accept exactly the one descriptor submitted.
    PartialSend,
}

} // verus!
