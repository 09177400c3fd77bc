//! What can go wrong in memory, in a builtin runner and in a hint.

use vstd::prelude::*;

verus! {

/// A failure of a memory access, of a validation rule or of a builtin's cost
/// accounting.
#[derive(Debug, PartialEq, Eq)]
pub enum MemoryError {
    /// The segment of the address was never allocated; holds the segment's
    /// index and the number of allocated segments.
    UnallocatedSegment(isize, usize),
    /// The address lies in a temporary segment, one with a negative index.
    AddressInTemporarySegment(isize),
    /// Malformed address: an address was expected and a field element found,
    /// a cell that must hold a field element holds none, or the address
    /// asked for lies beyond what an address can name.
    AddressNotRelocatable,
    /// Malformed key: the public key cell does not hold a SEC1 encoded point.
    MalformedPublicKey,
    /// No signature was registered for the public key cell.
    MissingSignature,
    /// The registered signature does not verify the message under the key.
    SignatureMismatch,
    /// The allocated memory units of a builtin cannot be computed.
    ErrorCalculatingMemoryUnits,
    /// The used sizes of the segments are not known, or not for this segment.
    MissingSegmentUsedSizes,
    /// The run took fewer steps than the builtin needs for one component.
    InsufficientAllocatedCells,
}

/// What a [`RunnerError`] says, apart from how its text is stored.
pub enum RunnerErrorView {
    RunnerInTemporarySegment(isize),
    FinalStack,
    InvalidStopPointer(Seq<char>),
}

/// A failure while a builtin runner is set up or torn down.
#[derive(Debug, PartialEq, Eq)]
pub enum RunnerError {
    /// The runner's base is a temporary segment.
    RunnerInTemporarySegment(isize),
    /// The stack cell below the pointer holds no stop pointer, or the used
    /// instances cannot be counted.
    FinalStack,
    /// The stop pointer of the named builtin is in another segment or at
    /// another offset than the used cells end at.
    InvalidStopPointer(String),
}

impl View for RunnerError {
    type V = RunnerErrorView;

    open spec fn view(&self) -> RunnerErrorView {
        match self {
            RunnerError::RunnerInTemporarySegment(base) => RunnerErrorView::RunnerInTemporarySegment(
                *base,
            ),
            RunnerError::FinalStack => RunnerErrorView::FinalStack,
            RunnerError::InvalidStopPointer(name) => RunnerErrorView::InvalidStopPointer(name@),
        }
    }
}

/// A failure of one hint. None is retried: the hint, and with it the step of
/// the machine, fails as a whole.
#[derive(Debug, PartialEq, Eq)]
pub enum HintError {
    /// The channel between coordinator and worker broke.
    ChannelError,
    /// The identifier is not known, or does not resolve to a cell that holds
    /// a value.
    MissingIdentifier,
    /// An exit was asked for with only the main scope left.
    ScopeUnderflow,
    /// A memory access failed.
    Memory(MemoryError),
}

} // verus!
