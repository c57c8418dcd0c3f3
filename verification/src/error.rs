use vstd::prelude::*;

verus! {

/// Errors reported by the library.
#[derive(Debug, Clone, Copy, PartialEq, Eq, Structural)]
pub enum Error {
    /// A STEP stream could not be parsed.
    StepReadFailed,
    /// A BRep stream (or its colour trailer) could not be parsed.
    BrepReadFailed,
    /// Writing a STEP stream failed.
    StepWriteFailed,
    /// Writing a BRep stream failed.
    BrepWriteFailed,
    /// A boolean operation produced no shape.
    BooleanOperationFailed,
    /// Unifying same-domain topology failed.
    CleanFailed,
    /// Meshing a shape failed.
    TriangulationFailed,
    /// A hex colour string was malformed.
    InvalidHexColor,
}

} // verus!
