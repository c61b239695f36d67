//! The syscall handler: the surface the guest's syscalls dispatch into once
//! the stub registry has installed it.
//!
//! Each method obtains the host execution context as an explicit argument
//! and performs the host-side work of one guest syscall. The nested
//! invocation syscall runs through [`crate::bridge::invoke_prepare`] and
//! [`crate::bridge::invoke_finish`], with the execution engine between the
//! two phases.

use vstd::prelude::*;
use crate::bridge::{
    cycle_logged, invoke_finish, invoke_logged, invoke_prepare, spec_copy_in, spec_copy_out,
    spec_derive_signers, spec_fail, spec_prepare_instruction, GuestAccount, Instruction,
    InvokeFailure,
};
use crate::context::{log_appended, HostContext, LogEntry};
use crate::errors::HostError;
use crate::sysvar::{get_sysvar, SysvarKind, SUCCESS, UNSUPPORTED_SYSVAR};

verus! {

/// The installed syscall handler.
#[derive(Clone, Copy, PartialEq, Eq, Structural, Debug)]
pub struct TridentSyscallStubs;

impl TridentSyscallStubs {
    /// Forward a guest log message to the host's log collector, verbatim
    /// and unconditionally.
    pub fn sol_log(&self, ctx: &mut HostContext, message: String)
        ensures
            log_appended(old(ctx).log, final (ctx).log, LogEntry::Message(message)),
            final (ctx).accounts == old(ctx).accounts,
            final (ctx).keys == old(ctx).keys,
            final (ctx).caller_accounts == old(ctx).caller_accounts,
            final (ctx).stack == old(ctx).stack,
            final (ctx).sysvars == old(ctx).sysvars,
            final (ctx).return_data_program == old(ctx).return_data_program,
            final (ctx).return_data == old(ctx).return_data,
    {
        ctx.log_message(message);
    }

    /// Copy the rent sysvar into the guest buffer, if cached.
    pub fn sol_get_rent_sysvar(&self, ctx: &HostContext, var_buf: &mut Vec<u8>) -> (status: u64)
        ensures
            (match ctx.sysvars.spec_get(SysvarKind::Rent) {
                Option::Some(v) => status == SUCCESS && final (var_buf)@ == v,
                Option::None => status == UNSUPPORTED_SYSVAR && final (var_buf)@ == old(var_buf)@,
            }),
    {
        get_sysvar(&ctx.sysvars, SysvarKind::Rent, var_buf)
    }

    /// Copy the clock sysvar into the guest buffer, if cached.
    pub fn sol_get_clock_sysvar(&self, ctx: &HostContext, var_buf: &mut Vec<u8>) -> (status: u64)
        ensures
            (match ctx.sysvars.spec_get(SysvarKind::Clock) {
                Option::Some(v) => status == SUCCESS && final (var_buf)@ == v,
                Option::None => status == UNSUPPORTED_SYSVAR && final (var_buf)@ == old(var_buf)@,
            }),
    {
        get_sysvar(&ctx.sysvars, SysvarKind::Clock, var_buf)
    }

    /// Copy the epoch schedule sysvar into the guest buffer, if cached.
    pub fn sol_get_epoch_schedule_sysvar(&self, ctx: &HostContext, var_buf: &mut Vec<u8>) -> (status:
        u64)
        ensures
            (match ctx.sysvars.spec_get(SysvarKind::EpochSchedule) {
                Option::Some(v) => status == SUCCESS && final (var_buf)@ == v,
                Option::None => status == UNSUPPORTED_SYSVAR && final (var_buf)@ == old(var_buf)@,
            }),
    {
        get_sysvar(&ctx.sysvars, SysvarKind::EpochSchedule, var_buf)
    }

    /// Copy the epoch rewards sysvar into the guest buffer, if cached.
    pub fn sol_get_epoch_rewards_sysvar(&self, ctx: &HostContext, var_buf: &mut Vec<u8>) -> (status:
        u64)
        ensures
            (match ctx.sysvars.spec_get(SysvarKind::EpochRewards) {
                Option::Some(v) => status == SUCCESS && final (var_buf)@ == v,
                Option::None => status == UNSUPPORTED_SYSVAR && final (var_buf)@ == old(var_buf)@,
            }),
    {
        get_sysvar(&ctx.sysvars, SysvarKind::EpochRewards, var_buf)
    }

    /// Copy the deprecated fee schedule sysvar into the guest buffer, if
    /// cached.
    pub fn sol_get_fees_sysvar(&self, ctx: &HostContext, var_buf: &mut Vec<u8>) -> (status: u64)
        ensures
            (match ctx.sysvars.spec_get(SysvarKind::Fees) {
                Option::Some(v) => status == SUCCESS && final (var_buf)@ == v,
                Option::None => status == UNSUPPORTED_SYSVAR && final (var_buf)@ == old(var_buf)@,
            }),
    {
        get_sysvar(&ctx.sysvars, SysvarKind::Fees, var_buf)
    }

    /// Copy the last-restart-slot sysvar into the guest buffer, if cached.
    pub fn sol_get_last_restart_slot(&self, ctx: &HostContext, var_buf: &mut Vec<u8>) -> (status:
        u64)
        ensures
            (match ctx.sysvars.spec_get(SysvarKind::LastRestartSlot) {
                Option::Some(v) => status == SUCCESS && final (var_buf)@ == v,
                Option::None => status == UNSUPPORTED_SYSVAR && final (var_buf)@ == old(var_buf)@,
            }),
    {
        get_sysvar(&ctx.sysvars, SysvarKind::LastRestartSlot, var_buf)
    }

    /// Read the return-data slot: a copy of (producer program id, bytes),
    /// or its initial empty value when never set.
    pub fn sol_get_return_data(&self, ctx: &HostContext) -> (r: Option<(Vec<u8>, Vec<u8>)>)
        ensures
            (r matches Option::Some(pair) && pair.0@ == ctx.return_data_program@ && pair.1@
                == ctx.return_data@),
    {
        Option::Some(ctx.get_return_data())
    }

    /// Replace the return-data slot with (current program id, copy of the
    /// given bytes); an instruction frame must be live.
    pub fn sol_set_return_data(&self, ctx: &mut HostContext, data: Vec<u8>)
        requires
            old(ctx).stack@.len() > 0,
        ensures
            final (ctx).return_data_program@ == old(ctx).stack@.last()@,
            final (ctx).return_data == data,
            final (ctx).accounts == old(ctx).accounts,
            final (ctx).keys == old(ctx).keys,
            final (ctx).caller_accounts == old(ctx).caller_accounts,
            final (ctx).stack == old(ctx).stack,
            final (ctx).sysvars == old(ctx).sysvars,
            final (ctx).log == old(ctx).log,
    {
        ctx.set_return_data(data);
    }

    /// The current call-stack depth, purely observational.
    pub fn sol_get_stack_height(&self, ctx: &HostContext) -> (h: u64)
        ensures
            h == ctx.stack@.len(),
    {
        ctx.get_stack_height() as u64
    }

    /// A full nested-invocation cycle around one engine run: derive signers,
    /// stage the instruction, copy guest account state in, hand the given
    /// engine result through, and copy the results of every writable account
    /// back out. The engine's own state transition stands between the two
    /// phases; a runtime that runs a real engine calls
    /// [`crate::bridge::invoke_prepare`] and [`crate::bridge::invoke_finish`]
    /// directly around it.
    pub fn sol_invoke_signed(
        &self,
        ctx: &mut HostContext,
        ix: &Instruction,
        guests: &mut Vec<GuestAccount>,
        signer_seed_sets: &Vec<Vec<Vec<u8>>>,
        engine_result: Result<(), HostError>,
    ) -> (r: Result<(), InvokeFailure>)
        requires
            old(ctx).wf(),
        ensures
            final (ctx).wf(),
            final (ctx).keys == old(ctx).keys,
            final (ctx).caller_accounts == old(ctx).caller_accounts,
            final (ctx).stack == old(ctx).stack,
            final (ctx).sysvars == old(ctx).sysvars,
            final (ctx).return_data_program == old(ctx).return_data_program,
            final (ctx).return_data == old(ctx).return_data,
            final (guests)@.len() == old(guests)@.len(),
            ({
                let untouched = final (ctx).accounts == old(ctx).accounts
                    && final (ctx).log == old(ctx).log && *final (guests) == *old(guests);
                if old(ctx).stack@.len() == 0 {
                    r matches Result::Err(f) && f == spec_fail(HostError::CallDepth) && untouched
                } else {
                    let caller_key = old(ctx).stack@.last()@;
                    match spec_derive_signers(
                        signer_seed_sets.deep_view(),
                        caller_key,
                        signer_seed_sets@.len() as int,
                    ) {
                        Option::None => r matches Result::Err(f) && f
                            == InvokeFailure::SignerDerivation && untouched,
                        Option::Some(signers) => match spec_prepare_instruction(
                            old(ctx).caller_accounts@,
                            old(ctx).keys.deep_view(),
                            signers,
                            ix.deep_view(),
                        ) {
                            Result::Err(e) => r matches Result::Err(f) && f == spec_fail(e)
                                && untouched,
                            Result::Ok(expanded) => {
                                let (accs, rec, fail) = spec_copy_in(
                                    old(ctx).accounts.deep_view(),
                                    old(ctx).caller_accounts@,
                                    old(ctx).keys.deep_view(),
                                    old(guests).deep_view(),
                                    expanded.0,
                                    expanded.0.len() as int,
                                );
                                final (ctx).accounts.deep_view() == accs && (match fail {
                                    Option::Some(f2) => r matches Result::Err(f) && f == f2
                                        && final (ctx).log == old(ctx).log && *final (guests)
                                        == *old(guests),
                                    Option::None => (match engine_result {
                                        Result::Err(e) => r matches Result::Err(f) && f
                                            == spec_fail(e) && *final (guests) == *old(guests)
                                            && invoke_logged(
                                            old(ctx).log,
                                            final (ctx).log,
                                            ix.program_id@,
                                            old(ctx).stack@.len() as int,
                                        ),
                                        Result::Ok(u) => {
                                            let (gs, fail2) = spec_copy_out(
                                                accs,
                                                old(ctx).caller_accounts@,
                                                old(guests).deep_view(),
                                                rec,
                                                rec.len() as int,
                                            );
                                            (match fail2 {
                                                Option::Some(f2) => r matches Result::Err(f) && f
                                                    == f2 && invoke_logged(
                                                    old(ctx).log,
                                                    final (ctx).log,
                                                    ix.program_id@,
                                                    old(ctx).stack@.len() as int,
                                                ),
                                                Option::None => r is Ok
                                                    && final (guests).deep_view() == gs
                                                    && cycle_logged(
                                                    old(ctx).log,
                                                    final (ctx).log,
                                                    ix.program_id@,
                                                    old(ctx).stack@.len() as int,
                                                ),
                                            })
                                        },
                                    }),
                                })
                            },
                        },
                    }
                }
            }),
    {
        let staged = match invoke_prepare(ctx, ix, guests, signer_seed_sets) {
            Result::Err(f) => {
                return Result::Err(f);
            },
            Result::Ok(st) => st,
        };
        let ghost mid_log = ctx.log;
        let ghost pid = ix.program_id@;
        let ghost depth = old(ctx).stack@.len() as int;
        let out = invoke_finish(ctx, staged, engine_result, guests);
        proof {
            if out is Ok {
                match old(ctx).log {
                    Option::Some(l) => {
                        let l1 = mid_log.unwrap();
                        let l2 = final (ctx).log.unwrap();
                        assert(l1@.drop_last() == l@);
                        assert(l2@.drop_last() == l1@);
                        assert(l2@.subrange(0, l@.len() as int) =~= l@) by {
                            assert(forall|i: int|
                                0 <= i < l@.len() ==> l2@[i] == l1@.drop_last()[i]);
                        }
                        assert(l2@[l@.len() as int] == l1@.last());
                    },
                    Option::None => {},
                }
            }
        }
        out
    }
}

} // verus!
