//! Network address discovery and selection engine for a dynamic-DNS updater.
//!
//! The crate enumerates the host's network adapters from a model of the
//! operating system's adapter table, decodes raw socket-address records into
//! typed IP addresses, filters and orders the candidate addresses, and tracks
//! interface identity across repeated enumeration cycles.  A separate module
//! builds the signed DNS-update request that the orchestration layer sends.

use vstd::prelude::*;

pub mod ifaddrs;
pub mod selector;
pub mod sockaddr;
pub mod table;
pub mod update;

verus! {

/// The error kinds of the engine.  An allocation failure is unrecoverable
/// for the process; an enumeration failure and a missing interface are fatal
/// for the current cycle only, and the next timer tick retries from scratch.
#[derive(Clone, Copy, Debug, PartialEq, Eq, Structural)]
pub enum OsError {
    /// The adapter-table buffer could not be allocated.
    AllocationFailure,
    /// The enumeration primitive failed with an error other than
    /// "buffer too small"; the code is the one the primitive reported.
    EnumerationFailure { code: u32 },
    /// The buffer-too-small retry allowance ran out.
    RetryLimitExceeded,
    /// Enumeration yielded no surviving adapter, or the selector was handed
    /// an empty list.
    NoInterfaceAvailable,
}

} // verus!
