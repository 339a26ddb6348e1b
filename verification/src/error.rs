//! The ways in which resolving or installing a timezone ends without success.

use vstd::prelude::*;

verus! {

/// Why a resolution ended without a timezone.
#[derive(Clone, Copy, Debug, PartialEq, Eq, Structural)]
pub enum ResolveError {
    /// Every service gave up before any of them replied.
    AllFailed,
    /// The deadline passed before any service replied.
    TimedOut,
}

/// Why an installation ended without replacing the timezone link.
#[derive(Clone, Copy, Debug, PartialEq, Eq, Structural)]
pub enum InstallError {
    /// The timezone database of this system has no such timezone.
    UnknownTimezone,
    /// The timezone names a file outside the timezone database.
    Traversal,
    /// The link to replace has no directory around it in which a temporary
    /// entry could be made.
    NoParent,
    /// The temporary entry and the link to replace lie on different devices,
    /// so the one cannot replace the other in one step.
    CrossDevice,
    /// The filesystem refused a step.
    Io,
    /// A report came that answers no request of the installation.
    OutOfOrder,
}

} // verus!
