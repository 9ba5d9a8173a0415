use vstd::prelude::*;

verus! {

/// The error kinds surfaced by the memory core.
#[derive(Clone, Copy, Debug, PartialEq, Eq, Structural)]
pub enum Error {
    /// A page-table operation or a reservation failed.  Construction-time
    /// failures of this kind are fatal to the caller.
    Internal,
    /// A linear-memory growth request went past the declared maximum page
    /// count.  Recoverable: the request is refused and nothing changes.
    CapacityExceeded,
    /// A data initializer targets a global-relative base, which is
    /// unsupported; instantiation is aborted.
    InvalidInitializer,
    /// An introspection accessor was given a range outside the target
    /// buffer.
    OutOfBounds,
    /// An operation needed a permission that the flags of the target range
    /// do not grant, such as zeroing a range that is not writable.
    PermissionDenied,
}

} // verus!
