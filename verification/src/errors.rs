//! The error taxonomy translator: a finite, explicit mapping from host-side
//! structured execution errors to the guest-visible error enumeration.
//!
//! The mapping is total over the fixed set of mappable host error kinds and
//! fails closed: a host error kind with no entry translates to `Err`, carrying
//! the untranslated value, and callers that cannot tolerate that must treat it
//! as fatal rather than invent a guest error.

use vstd::prelude::*;
use crate::TridentTryFrom;

verus! {

/// A structured error reported by the host execution environment while
/// staging or executing an instruction.
#[derive(Debug, Clone, PartialEq, Eq)]
pub enum HostError {
    /// Program-defined error with a numeric payload.
    Custom(u32),
    InvalidArgument,
    InvalidInstructionData,
    InvalidAccountData,
    AccountDataTooSmall,
    InsufficientFunds,
    IncorrectProgramId,
    MissingRequiredSignature,
    AccountAlreadyInitialized,
    UninitializedAccount,
    NotEnoughAccountKeys,
    AccountBorrowFailed,
    MaxSeedLengthExceeded,
    InvalidSeeds,
    /// I/O failure during structured decode, with its message.
    BorshIoError(String),
    AccountNotRentExempt,
    UnsupportedSysvar,
    IllegalOwner,
    MaxAccountsDataAllocationsExceeded,
    InvalidRealloc,
    MaxInstructionTraceLengthExceeded,
    BuiltinProgramsMustConsumeComputeUnits,
    InvalidAccountOwner,
    ArithmeticOverflow,
    // Host error kinds with no guest-visible mapping: translation of any of
    // these fails closed.
    GenericError,
    MissingAccount,
    CallDepth,
    PrivilegeEscalation,
    ReadonlyLamportChange,
    ReadonlyDataModified,
    ModifiedProgramId,
    AccountDataSizeChanged,
}

/// The error enumeration the guest sees.
#[derive(Debug, Clone, PartialEq, Eq)]
pub enum GuestError {
    /// Program-defined error; the numeric payload is preserved.
    Custom(u32),
    InvalidArgument,
    InvalidInstructionData,
    InvalidAccountData,
    AccountDataTooSmall,
    InsufficientFunds,
    IncorrectProgramId,
    MissingRequiredSignature,
    AccountAlreadyInitialized,
    UninitializedAccount,
    NotEnoughAccountKeys,
    AccountBorrowFailed,
    MaxSeedLengthExceeded,
    InvalidSeeds,
    /// I/O failure during structured decode; the message is preserved.
    BorshIoError(String),
    AccountNotRentExempt,
    UnsupportedSysvar,
    IllegalOwner,
    MaxAccountsDataAllocationsExceeded,
    InvalidRealloc,
    MaxInstructionTraceLengthExceeded,
    BuiltinProgramsMustConsumeComputeUnits,
    InvalidAccountOwner,
    ArithmeticOverflow,
}

/// The translation table, as a mathematical function: what
/// [`GuestError::try_from_custom`] returns for every host error value.
pub open spec fn spec_translate(e: HostError) -> Result<GuestError, HostError> {
    match e {
        HostError::Custom(c) => Ok(GuestError::Custom(c)),
        HostError::InvalidArgument => Ok(GuestError::InvalidArgument),
        HostError::InvalidInstructionData => Ok(GuestError::InvalidInstructionData),
        HostError::InvalidAccountData => Ok(GuestError::InvalidAccountData),
        HostError::AccountDataTooSmall => Ok(GuestError::AccountDataTooSmall),
        HostError::InsufficientFunds => Ok(GuestError::InsufficientFunds),
        HostError::IncorrectProgramId => Ok(GuestError::IncorrectProgramId),
        HostError::MissingRequiredSignature => Ok(GuestError::MissingRequiredSignature),
        HostError::AccountAlreadyInitialized => Ok(GuestError::AccountAlreadyInitialized),
        HostError::UninitializedAccount => Ok(GuestError::UninitializedAccount),
        HostError::NotEnoughAccountKeys => Ok(GuestError::NotEnoughAccountKeys),
        HostError::AccountBorrowFailed => Ok(GuestError::AccountBorrowFailed),
        HostError::MaxSeedLengthExceeded => Ok(GuestError::MaxSeedLengthExceeded),
        HostError::InvalidSeeds => Ok(GuestError::InvalidSeeds),
        HostError::BorshIoError(m) => Ok(GuestError::BorshIoError(m)),
        HostError::AccountNotRentExempt => Ok(GuestError::AccountNotRentExempt),
        HostError::UnsupportedSysvar => Ok(GuestError::UnsupportedSysvar),
        HostError::IllegalOwner => Ok(GuestError::IllegalOwner),
        HostError::MaxAccountsDataAllocationsExceeded => Ok(
            GuestError::MaxAccountsDataAllocationsExceeded,
        ),
        HostError::InvalidRealloc => Ok(GuestError::InvalidRealloc),
        HostError::MaxInstructionTraceLengthExceeded => Ok(
            GuestError::MaxInstructionTraceLengthExceeded,
        ),
        HostError::BuiltinProgramsMustConsumeComputeUnits => Ok(
            GuestError::BuiltinProgramsMustConsumeComputeUnits,
        ),
        HostError::InvalidAccountOwner => Ok(GuestError::InvalidAccountOwner),
        HostError::ArithmeticOverflow => Ok(GuestError::ArithmeticOverflow),
        _ => Err(e),
    }
}

/// A host error kind with an entry in the translation table.
pub open spec fn is_mappable(e: HostError) -> bool {
    !(e matches HostError::GenericError || e matches HostError::MissingAccount
        || e matches HostError::CallDepth || e matches HostError::PrivilegeEscalation
        || e matches HostError::ReadonlyLamportChange || e matches HostError::ReadonlyDataModified
        || e matches HostError::ModifiedProgramId || e matches HostError::AccountDataSizeChanged)
}

impl TridentTryFrom<HostError> for GuestError {
    type Error = HostError;

    open spec fn spec_try_from_custom(value: HostError) -> Result<GuestError, HostError> {
        spec_translate(value)
    }

    fn try_from_custom(value: HostError) -> (r: Result<GuestError, HostError>) {
        match value {
            HostError::Custom(c) => Ok(GuestError::Custom(c)),
            HostError::InvalidArgument => Ok(GuestError::InvalidArgument),
            HostError::InvalidInstructionData => Ok(GuestError::InvalidInstructionData),
            HostError::InvalidAccountData => Ok(GuestError::InvalidAccountData),
            HostError::AccountDataTooSmall => Ok(GuestError::AccountDataTooSmall),
            HostError::InsufficientFunds => Ok(GuestError::InsufficientFunds),
            HostError::IncorrectProgramId => Ok(GuestError::IncorrectProgramId),
            HostError::MissingRequiredSignature => Ok(GuestError::MissingRequiredSignature),
            HostError::AccountAlreadyInitialized => Ok(GuestError::AccountAlreadyInitialized),
            HostError::UninitializedAccount => Ok(GuestError::UninitializedAccount),
            HostError::NotEnoughAccountKeys => Ok(GuestError::NotEnoughAccountKeys),
            HostError::AccountBorrowFailed => Ok(GuestError::AccountBorrowFailed),
            HostError::MaxSeedLengthExceeded => Ok(GuestError::MaxSeedLengthExceeded),
            HostError::InvalidSeeds => Ok(GuestError::InvalidSeeds),
            HostError::BorshIoError(m) => Ok(GuestError::BorshIoError(m)),
            HostError::AccountNotRentExempt => Ok(GuestError::AccountNotRentExempt),
            HostError::UnsupportedSysvar => Ok(GuestError::UnsupportedSysvar),
            HostError::IllegalOwner => Ok(GuestError::IllegalOwner),
            HostError::MaxAccountsDataAllocationsExceeded => Ok(
                GuestError::MaxAccountsDataAllocationsExceeded,
            ),
            HostError::InvalidRealloc => Ok(GuestError::InvalidRealloc),
            HostError::MaxInstructionTraceLengthExceeded => Ok(
                GuestError::MaxInstructionTraceLengthExceeded,
            ),
            HostError::BuiltinProgramsMustConsumeComputeUnits => Ok(
                GuestError::BuiltinProgramsMustConsumeComputeUnits,
            ),
            HostError::InvalidAccountOwner => Ok(GuestError::InvalidAccountOwner),
            HostError::ArithmeticOverflow => Ok(GuestError::ArithmeticOverflow),
            other => Err(other),
        }
    }
}

/// Error totality: every mappable host error kind translates to a guest value,
/// with the numeric or textual payload preserved for the payload-carrying
/// kinds, and every other kind is reported as unmapped, never guessed.
pub proof fn lemma_translate_total()
    ensures
        forall|e: HostError| is_mappable(e) <==> (#[trigger] spec_translate(e)) is Ok,
        forall|e: HostError| !is_mappable(e) ==> #[trigger] spec_translate(e) == Err::<
            GuestError,
            HostError,
        >(e),
        forall|c: u32| spec_translate(HostError::Custom(c)) == Ok::<GuestError, HostError>(
            GuestError::Custom(c),
        ),
        forall|m: String| spec_translate(HostError::BorshIoError(m)) == Ok::<
            GuestError,
            HostError,
        >(GuestError::BorshIoError(m)),
{
}

} // verus!
