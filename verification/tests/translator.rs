use trident_syscall_stubs::errors::{GuestError, HostError};
use trident_syscall_stubs::TridentTryFrom;

#[test]
fn mapped_kinds_translate_exactly() {
    let cases = vec![
        (HostError::InvalidArgument, GuestError::InvalidArgument),
        (HostError::InvalidInstructionData, GuestError::InvalidInstructionData),
        (HostError::InvalidAccountData, GuestError::InvalidAccountData),
        (HostError::AccountDataTooSmall, GuestError::AccountDataTooSmall),
        (HostError::InsufficientFunds, GuestError::InsufficientFunds),
        (HostError::IncorrectProgramId, GuestError::IncorrectProgramId),
        (HostError::MissingRequiredSignature, GuestError::MissingRequiredSignature),
        (HostError::AccountAlreadyInitialized, GuestError::AccountAlreadyInitialized),
        (HostError::UninitializedAccount, GuestError::UninitializedAccount),
        (HostError::NotEnoughAccountKeys, GuestError::NotEnoughAccountKeys),
        (HostError::AccountBorrowFailed, GuestError::AccountBorrowFailed),
        (HostError::MaxSeedLengthExceeded, GuestError::MaxSeedLengthExceeded),
        (HostError::InvalidSeeds, GuestError::InvalidSeeds),
        (HostError::AccountNotRentExempt, GuestError::AccountNotRentExempt),
        (HostError::UnsupportedSysvar, GuestError::UnsupportedSysvar),
        (HostError::IllegalOwner, GuestError::IllegalOwner),
        (
            HostError::MaxAccountsDataAllocationsExceeded,
            GuestError::MaxAccountsDataAllocationsExceeded,
        ),
        (HostError::InvalidRealloc, GuestError::InvalidRealloc),
        (
            HostError::MaxInstructionTraceLengthExceeded,
            GuestError::MaxInstructionTraceLengthExceeded,
        ),
        (
            HostError::BuiltinProgramsMustConsumeComputeUnits,
            GuestError::BuiltinProgramsMustConsumeComputeUnits,
        ),
        (HostError::InvalidAccountOwner, GuestError::InvalidAccountOwner),
        (HostError::ArithmeticOverflow, GuestError::ArithmeticOverflow),
    ];
    for (host, guest) in cases {
        assert_eq!(GuestError::try_from_custom(host), Ok(guest));
    }
}

#[test]
fn custom_payload_preserved() {
    assert_eq!(GuestError::try_from_custom(HostError::Custom(0)), Ok(GuestError::Custom(0)));
    assert_eq!(GuestError::try_from_custom(HostError::Custom(7)), Ok(GuestError::Custom(7)));
    assert_eq!(
        GuestError::try_from_custom(HostError::Custom(u32::MAX)),
        Ok(GuestError::Custom(u32::MAX))
    );
}

#[test]
fn decode_failure_message_preserved() {
    assert_eq!(
        GuestError::try_from_custom(HostError::BorshIoError(String::from("unexpected length"))),
        Ok(GuestError::BorshIoError(String::from("unexpected length")))
    );
}

#[test]
fn unmapped_kinds_fail_closed() {
    let kinds = vec![
        HostError::GenericError,
        HostError::MissingAccount,
        HostError::CallDepth,
        HostError::PrivilegeEscalation,
        HostError::ReadonlyLamportChange,
        HostError::ReadonlyDataModified,
        HostError::ModifiedProgramId,
        HostError::AccountDataSizeChanged,
    ];
    for kind in kinds {
        assert_eq!(GuestError::try_from_custom(kind.clone()), Err(kind));
    }
}
