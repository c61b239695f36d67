//! Syscall interception and cross-invocation reconciliation for a sandboxed
//! guest program running inside a host execution environment.
//!
//! The guest issues syscalls (log, read a sysvar, invoke a nested instruction,
//! set or get return data); this library holds the verified logic behind each
//! of them: the error taxonomy translator, the sysvar accessor, the return
//! data channel, the log relay, the cross-invocation bridge that reconciles
//! account state in both directions, and the install-once stub registry.
//!
//! The host execution environment itself (ledger, sysvar cache, call stack,
//! log collector) is reached through the explicit [`context::HostContext`]
//! state that every operation takes as an argument.

pub mod bytes;
pub mod context;
pub mod errors;
pub mod bridge;
pub mod registry;
pub mod stubs;
pub mod sysvar;

use vstd::prelude::*;

verus! {

/// Conversion between types that are not directly compatible, with an
/// explicit "no mapping exists" outcome carried in the `Err` case.
pub trait TridentTryFrom<T>: Sized {
    /// The type returned in the event of a conversion error.
    type Error;

    /// What the conversion returns, as a mathematical function of the input.
    spec fn spec_try_from_custom(value: T) -> Result<Self, Self::Error>;

    /// Performs the conversion.
    fn try_from_custom(value: T) -> (r: Result<Self, Self::Error>)
        ensures
            r == Self::spec_try_from_custom(value),
    ;
}

} // verus!
