use vstd::prelude::*;

verus! {

/// Why a matrix operation gave no result.
#[derive(Debug, Clone, Copy, PartialEq, Eq, Structural)]
pub enum MatrixError {
    /// The matrices do not fit: the left one has a column count other than
    /// the right one's row count, or a buffer does not hold as many elements
    /// as its dimensions say.
    DimensionMismatch,
    /// A dot product was asked of two vectors of different lengths.
    VectorLengthMismatch,
    /// A task could not be handed to a worker: the worker's queue is closed,
    /// or there is no worker.
    DispatchFailure,
    /// No usable reply came for a task: its sender was dropped, or the reply
    /// names a cell outside the output.
    ReceiveFailure,
}

/// Why a counter store did not count.
#[derive(Debug, Clone, Copy, PartialEq, Eq, Structural)]
pub enum MetricsError {
    /// The store has a fixed set of counters, and the name is not one of them.
    KeyNotFound,
}

} // verus!
