//! The failures that the store, the registry and the capabilities report.

use vstd::prelude::*;

verus! {

/// Every way an operation of this crate can fail.
///
/// Each operation either succeeds completely or reports one of these and
/// leaves all state as it found it.
#[derive(Debug, Clone, Copy, PartialEq, Eq, Structural)]
pub enum ManagerError {
    /// A value of that name already exists.
    DuplicateKey,
    /// The handle does not address a slot of the store, or addresses a slot
    /// whose name fingerprint differs from the one the handle carries.
    StaleHandle,
    /// The token is not the one that created the value.
    NotOwner,
    /// The value cannot be converted to the type the slot was created with.
    TypeCoercion,
    /// A live plugin already holds that name.
    DuplicateName,
    /// The plugin behind the capability has been deregistered.
    Offline,
    /// The plugin has no way to be reached, or its request queue is closed.
    Disconnected,
    /// A module's `init` entry point reported a failure.
    InitializationFailure,
}

} // verus!
