use vstd::prelude::*;

verus! {

/// The recoverable failures of the schedulers.
///
/// All of these are local conditions reported to the caller; none aborts a
/// scheduler. An empty registry is not an error: selection then yields no job.
#[derive(Clone, Copy, Debug, PartialEq, Eq, Structural)]
pub enum SchedulerError {
    /// A job was offered for admission with zero tickets. Such a job could
    /// never win a lottery and would force a division by zero when computing
    /// its stride, so admission rejects it eagerly.
    InvalidTickets,
    /// A job was offered for admission under an id that is already admitted.
    DuplicateId,
    /// Removal named an id that is not currently admitted.
    NotFound,
    /// Advancing a pass counter would wrap its representation. The stride
    /// scheduler keeps pass values in 64 bits and refuses the selection
    /// rather than wrap silently.
    PassOverflow,
}

} // verus!
