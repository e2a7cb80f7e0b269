use vstd::prelude::*;

verus! {

/// Why a symbolic reference could not be resolved.
#[derive(Clone, Copy, Debug, PartialEq, Eq, Structural)]
pub enum ResolutionCause {
    /// The name is absent from the variable descriptors of the hint site.
    UnknownVariable,
    /// The computed address names a cell that was never written.
    UnwrittenCell,
    /// Advancing an offset left the range of its segment's offsets.
    OffsetOutOfRange,
    /// An allocation-pointer reference was compiled in another tracking
    /// group, or carries no tracking at all.
    TrackingMismatch,
    /// A scalar used as a length does not fit a native unsigned integer.
    ValueTooLarge,
}

/// A failure of a hint invocation; the machine treats every one as fatal.
#[derive(Clone, Copy, Debug, PartialEq, Eq, Structural)]
pub enum HintError {
    ResolutionError(ResolutionCause),
    /// The cell holds an address where a scalar was asked for, or the reverse.
    TypeMismatch,
    /// No callback is bound to the hint key that was met.
    UnknownHint,
}

} // verus!
