use trident_syscall_stubs::bridge::{
    copy_in, derive_signers, invoke_finish, invoke_prepare, AccountMeta, GuestAccount,
    Instruction, InstructionAccount, InvokeFailure,
};
use trident_syscall_stubs::context::{CallerAccountRef, HostAccount, HostContext, LogEntry};
use trident_syscall_stubs::errors::{GuestError, HostError};
use trident_syscall_stubs::stubs::TridentSyscallStubs;
use trident_syscall_stubs::sysvar::SysvarCache;

fn key(tag: u8) -> Vec<u8> {
    let mut k = vec![0u8; 32];
    k[31] = tag;
    k
}

/// A context with a program account at position 0 and one data account at
/// position 1, both in the calling program's account list.
fn context_with_account(account_key: &[u8], account: HostAccount, writable: bool) -> HostContext {
    HostContext {
        accounts: vec![
            HostAccount { lamports: 1, owner: key(100), data: Vec::new() },
            account,
        ],
        keys: vec![key(50), account_key.to_vec()],
        caller_accounts: vec![
            CallerAccountRef { index_in_transaction: 0, is_writable: false, is_signer: false },
            CallerAccountRef { index_in_transaction: 1, is_writable: writable, is_signer: false },
        ],
        stack: vec![key(200)],
        sysvars: SysvarCache::new(),
        return_data_program: vec![0u8; 32],
        return_data: Vec::new(),
        log: Some(Vec::new()),
    }
}

fn guest(account_key: &[u8], lamports: u64, data: Vec<u8>, owner: Vec<u8>, writable: bool) -> GuestAccount {
    GuestAccount {
        key: account_key.to_vec(),
        lamports,
        owner,
        data,
        is_writable: writable,
        is_signer: false,
    }
}

fn instruction_for(account_key: &[u8], writable: bool) -> Instruction {
    Instruction {
        program_id: key(50),
        accounts: vec![AccountMeta { key: account_key.to_vec(), is_signer: false, is_writable: writable }],
        data: vec![42],
    }
}

#[test]
fn writable_account_synced_back() {
    let a = key(1);
    let host_a = HostAccount { lamports: 100, owner: key(10), data: vec![0xAA; 4] };
    let mut ctx = context_with_account(&a, host_a, true);
    let mut guests = vec![guest(&a, 100, vec![0xAA; 4], key(10), true)];
    let ix = instruction_for(&a, true);

    let staged = invoke_prepare(&mut ctx, &ix, &guests, &Vec::new()).unwrap();
    // The execution engine mutates the host-side account.
    ctx.accounts[1] = HostAccount { lamports: 50, owner: key(20), data: vec![0xBB; 8] };
    invoke_finish(&mut ctx, staged, Ok(()), &mut guests).unwrap();

    assert_eq!(guests[0].lamports, 50);
    assert_eq!(guests[0].data, vec![0xBB; 8]);
    assert_eq!(guests[0].owner, key(20));
    // The invocation and its success were logged around the engine run.
    let log = ctx.log.as_ref().unwrap();
    assert_eq!(log, &vec![LogEntry::Invoke(key(50), 1), LogEntry::Success(key(50))]);
}

#[test]
fn readonly_account_left_unchanged() {
    let a = key(1);
    let host_a = HostAccount { lamports: 100, owner: key(10), data: vec![0xAA; 4] };
    let mut ctx = context_with_account(&a, host_a, true);
    let mut guests = vec![guest(&a, 100, vec![0xAA; 4], key(10), false)];
    // Read-only in the expanded instruction-account list.
    let ix = instruction_for(&a, false);

    let staged = invoke_prepare(&mut ctx, &ix, &guests, &Vec::new()).unwrap();
    assert!(staged.recorded.is_empty());
    // The engine still mutates the host-side account.
    ctx.accounts[1] = HostAccount { lamports: 50, owner: key(20), data: vec![0xBB; 8] };
    invoke_finish(&mut ctx, staged, Ok(()), &mut guests).unwrap();

    assert_eq!(guests[0].lamports, 100);
    assert_eq!(guests[0].data, vec![0xAA; 4]);
    assert_eq!(guests[0].owner, key(10));
}

#[test]
fn owner_change_applied_after_data_sync() {
    let a = key(1);
    // Host data is non-zero, so the owner is not transferable before the
    // guest's zeroed data is copied in.
    let host_a = HostAccount { lamports: 5, owner: key(10), data: vec![1, 2, 3] };
    let mut ctx = context_with_account(&a, host_a, true);
    let guests = vec![guest(&a, 5, Vec::new(), key(20), true)];
    let ix = instruction_for(&a, true);

    invoke_prepare(&mut ctx, &ix, &guests, &Vec::new()).unwrap();
    assert_eq!(ctx.accounts[1].owner, key(20));
    assert!(ctx.accounts[1].data.is_empty());
}

#[test]
fn owner_change_with_nonzero_data_is_fatal() {
    let a = key(1);
    let host_a = HostAccount { lamports: 5, owner: key(10), data: vec![1, 2, 3] };
    let mut ctx = context_with_account(&a, host_a, true);
    let guests = vec![guest(&a, 5, vec![7], key(20), true)];
    let ix = instruction_for(&a, true);

    let err = invoke_prepare(&mut ctx, &ix, &guests, &Vec::new()).unwrap_err();
    assert_eq!(err, InvokeFailure::Unmappable(HostError::ModifiedProgramId));
    // Lamports and data were synchronized before the owner was rejected.
    assert_eq!(ctx.accounts[1].data, vec![7]);
    assert_eq!(ctx.accounts[1].owner, key(10));
}

#[test]
fn readonly_data_mutation_is_fatal() {
    let a = key(1);
    let host_a = HostAccount { lamports: 5, owner: key(10), data: vec![1, 2, 3] };
    // The caller holds the account read-only.
    let mut ctx = context_with_account(&a, host_a, false);
    let guests = vec![guest(&a, 5, vec![9, 9, 9], key(10), false)];
    let ix = instruction_for(&a, false);

    let err = invoke_prepare(&mut ctx, &ix, &guests, &Vec::new()).unwrap_err();
    assert_eq!(err, InvokeFailure::ImmutableDataMismatch(HostError::ReadonlyDataModified));
}

#[test]
fn missing_guest_view_is_fatal() {
    let a = key(1);
    let host_a = HostAccount { lamports: 5, owner: key(10), data: Vec::new() };
    let mut ctx = context_with_account(&a, host_a, true);
    // No guest view carries the account's key.
    let guests = vec![guest(&key(99), 5, Vec::new(), key(10), true)];
    let ix = instruction_for(&a, true);

    let err = invoke_prepare(&mut ctx, &ix, &guests, &Vec::new()).unwrap_err();
    assert_eq!(err, InvokeFailure::Unmappable(HostError::MissingAccount));
}

#[test]
fn unknown_account_key_fails_staging() {
    let a = key(1);
    let host_a = HostAccount { lamports: 5, owner: key(10), data: Vec::new() };
    let mut ctx = context_with_account(&a, host_a, true);
    let guests = vec![guest(&a, 5, Vec::new(), key(10), true)];
    // The instruction references a key absent from the transaction table.
    let ix = instruction_for(&key(99), true);

    let err = invoke_prepare(&mut ctx, &ix, &guests, &Vec::new()).unwrap_err();
    assert_eq!(err, InvokeFailure::Unmappable(HostError::MissingAccount));
}

#[test]
fn writable_escalation_fails_staging() {
    let a = key(1);
    let host_a = HostAccount { lamports: 5, owner: key(10), data: Vec::new() };
    // The caller holds the account read-only; the nested instruction wants
    // it writable.
    let mut ctx = context_with_account(&a, host_a, false);
    let guests = vec![guest(&a, 5, Vec::new(), key(10), true)];
    let ix = instruction_for(&a, true);

    let err = invoke_prepare(&mut ctx, &ix, &guests, &Vec::new()).unwrap_err();
    assert_eq!(err, InvokeFailure::Unmappable(HostError::PrivilegeEscalation));
}

#[test]
fn engine_error_translated_for_guest() {
    let a = key(1);
    let host_a = HostAccount { lamports: 5, owner: key(10), data: Vec::new() };
    let mut ctx = context_with_account(&a, host_a, true);
    let mut guests = vec![guest(&a, 5, Vec::new(), key(10), true)];
    let ix = instruction_for(&a, true);

    let staged = invoke_prepare(&mut ctx, &ix, &guests, &Vec::new()).unwrap();
    let before = guests[0].lamports;
    let err = invoke_finish(&mut ctx, staged, Err(HostError::InsufficientFunds), &mut guests)
        .unwrap_err();
    assert_eq!(err, InvokeFailure::Guest(GuestError::InsufficientFunds));
    assert_eq!(guests[0].lamports, before);
}

#[test]
fn empty_call_stack_is_reported() {
    let a = key(1);
    let host_a = HostAccount { lamports: 5, owner: key(10), data: Vec::new() };
    let mut ctx = context_with_account(&a, host_a, true);
    ctx.stack.clear();
    let guests = vec![guest(&a, 5, Vec::new(), key(10), true)];
    let ix = instruction_for(&a, true);

    let err = invoke_prepare(&mut ctx, &ix, &guests, &Vec::new()).unwrap_err();
    assert_eq!(err, InvokeFailure::Unmappable(HostError::CallDepth));
}

#[test]
fn derived_signers_match_host_derivation() {
    let caller = key(200);
    let caller_pk = solana_program::pubkey::Pubkey::new_from_array(
        caller.as_slice().try_into().unwrap(),
    );
    let (expected, bump) =
        solana_program::pubkey::Pubkey::find_program_address(&[b"vault"], &caller_pk);
    let seed_sets = vec![vec![b"vault".to_vec(), vec![bump]]];
    let signers = derive_signers(&seed_sets, &caller).unwrap();
    assert_eq!(signers.len(), 1);
    assert_eq!(signers[0], expected.to_bytes().to_vec());
    assert_ne!(signers[0], caller);
}

#[test]
fn underivable_seeds_are_fatal() {
    let caller = key(200);
    // A seed longer than the derivation's structural limit cannot derive.
    let seed_sets = vec![vec![vec![0u8; 33]]];
    let err = derive_signers(&seed_sets, &caller).unwrap_err();
    assert_eq!(err, InvokeFailure::SignerDerivation);
}

#[test]
fn derived_signer_grants_signer_privilege() {
    let caller = key(200);
    let caller_pk = solana_program::pubkey::Pubkey::new_from_array(
        caller.as_slice().try_into().unwrap(),
    );
    let (pda, bump) =
        solana_program::pubkey::Pubkey::find_program_address(&[b"vault"], &caller_pk);
    let pda_bytes = pda.to_bytes().to_vec();

    let host_a = HostAccount { lamports: 5, owner: key(10), data: Vec::new() };
    let mut ctx = context_with_account(&pda_bytes, host_a, true);
    let guests = vec![guest(&pda_bytes, 5, Vec::new(), key(10), true)];
    // The nested instruction wants the account as a signer; the caller's
    // list does not hold it signed, so only the derived address can back it.
    let ix = Instruction {
        program_id: key(50),
        accounts: vec![AccountMeta { key: pda_bytes.clone(), is_signer: true, is_writable: true }],
        data: Vec::new(),
    };

    let without = invoke_prepare(&mut ctx, &ix, &guests, &Vec::new()).unwrap_err();
    assert_eq!(without, InvokeFailure::Unmappable(HostError::PrivilegeEscalation));

    let seed_sets = vec![vec![b"vault".to_vec(), vec![bump]]];
    invoke_prepare(&mut ctx, &ix, &guests, &seed_sets).unwrap();
}

#[test]
fn caller_signer_backs_signer_privilege() {
    let a = key(1);
    let host_a = HostAccount { lamports: 5, owner: key(10), data: Vec::new() };
    let mut ctx = context_with_account(&a, host_a, true);
    // The caller itself holds the account signed.
    ctx.caller_accounts[1].is_signer = true;
    let guests = vec![guest(&a, 5, Vec::new(), key(10), true)];
    let ix = Instruction {
        program_id: key(50),
        accounts: vec![AccountMeta { key: a.clone(), is_signer: true, is_writable: true }],
        data: Vec::new(),
    };
    invoke_prepare(&mut ctx, &ix, &guests, &Vec::new()).unwrap();
}

#[test]
fn out_of_range_borrow_is_guest_visible() {
    let a = key(1);
    let host_a = HostAccount { lamports: 5, owner: key(10), data: Vec::new() };
    let mut ctx = context_with_account(&a, host_a, true);
    let guests = vec![guest(&a, 5, Vec::new(), key(10), true)];
    // A position past the calling program's account list: the host's borrow
    // fails with an error the guest is allowed to see.
    let ias = vec![InstructionAccount {
        index_in_transaction: 1,
        index_in_caller: 99,
        is_signer: false,
        is_writable: true,
    }];
    let err = copy_in(&mut ctx, &ias, &guests).unwrap_err();
    assert_eq!(err, InvokeFailure::Guest(GuestError::NotEnoughAccountKeys));
}

#[test]
fn full_cycle_through_handler() {
    let a = key(1);
    let host_a = HostAccount { lamports: 100, owner: key(10), data: vec![0xAA; 4] };
    let mut ctx = context_with_account(&a, host_a, true);
    let mut guests = vec![guest(&a, 90, vec![0xCC; 2], key(10), true)];
    let ix = instruction_for(&a, true);

    TridentSyscallStubs
        .sol_invoke_signed(&mut ctx, &ix, &mut guests, &Vec::new(), Ok(()))
        .unwrap();
    // The guest's state was copied into the host; with a no-op engine the
    // copy-out hands the same values back.
    assert_eq!(ctx.accounts[1].lamports, 90);
    assert_eq!(ctx.accounts[1].data, vec![0xCC; 2]);
    assert_eq!(guests[0].lamports, 90);
    assert_eq!(guests[0].data, vec![0xCC; 2]);
    let log = ctx.log.as_ref().unwrap();
    assert_eq!(log, &vec![LogEntry::Invoke(key(50), 1), LogEntry::Success(key(50))]);
}
