use vstd::prelude::*;

verus! {

/// The ways a filesystem operation fails.
#[derive(PartialEq, Eq, Structural, Clone, Copy, Debug)]
pub enum FsError {
    /// A path segment is absent, an index is out of range or not a number.
    NotFound,
    /// A handle is unknown or was invalidated by a reload.
    BadDescriptor,
    /// A read was attempted on a directory.
    IsDirectory,
    /// A directory listing was attempted on a file.
    NotSupported,
    /// The handle counter has reached its largest value.
    Exhausted,
}

} // verus!
