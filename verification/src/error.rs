use vstd::prelude::*;

verus! {

/// Every way an operation at the host-guest boundary can fail.
///
/// Each variant carries the values needed to diagnose the failure: the name
/// that was looked up, or the range and the size it was checked against.
#[derive(Debug, Clone, PartialEq, Eq)]
pub enum HostError {
    /// The bytes of a module could not be obtained from their source.
    IoError { detail: String },
    /// The bytes are not a well-formed module for the execution engine.
    ValidationError { detail: String },
    /// An import of a module is not defined, or is defined with another
    /// shape than the module declares. `detail` says which, or holds the
    /// engine's own words where the engine refused.
    LinkError { namespace: String, name: String, detail: String },
    /// The range `[offset, offset + length)` does not lie inside a segment of
    /// `size` bytes.
    OutOfBounds { offset: u64, length: u64, size: u64 },
    /// Growing by `additional_pages` would leave the segment larger than
    /// `max_pages`.
    CapacityExceeded { current_pages: u32, additional_pages: u32, max_pages: u32 },
    /// The instance exports nothing under this name.
    ExportNotFound { name: String },
    /// The descriptor has no field of this name.
    UnknownField { name: String },
    /// The export exists, with another signature than the host asked for.
    SignatureMismatch { name: String },
    /// The guest faulted while it ran.
    Trap { detail: String },
}

} // verus!
