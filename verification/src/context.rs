//! The host execution context, as this layer sees it: the transaction-wide
//! account table, the calling program's account list, the call stack, the
//! sysvar cache, the return-data slot and the log collector.
//!
//! The context is explicit state handed to every operation; the ambient
//! lookup that finds it for the current thread of execution belongs to the
//! surrounding runtime, not to this library.

use vstd::prelude::*;
use crate::bytes::{copy_bytes, KEY_LEN};
use crate::sysvar::SysvarCache;

verus! {

/// One account in the host's canonical ledger state.
pub struct HostAccount {
    pub lamports: u64,
    /// Key of the owning program.
    pub owner: Vec<u8>,
    pub data: Vec<u8>,
}

/// Mathematical value of a [`HostAccount`].
pub ghost struct AccountModel {
    pub lamports: u64,
    pub owner: Seq<u8>,
    pub data: Seq<u8>,
}

impl View for HostAccount {
    type V = AccountModel;

    open spec fn view(&self) -> AccountModel {
        AccountModel { lamports: self.lamports, owner: self.owner@, data: self.data@ }
    }
}

impl DeepView for HostAccount {
    type V = AccountModel;

    open spec fn deep_view(&self) -> AccountModel {
        self.view()
    }
}

/// One entry of the calling program's account list: which transaction-wide
/// account it refers to, and the privileges the caller holds on it.
#[derive(Clone, Copy, PartialEq, Eq, Structural)]
pub struct CallerAccountRef {
    pub index_in_transaction: usize,
    pub is_writable: bool,
    pub is_signer: bool,
}

/// One record handed to the host's log collector.
#[derive(Debug, PartialEq, Eq)]
pub enum LogEntry {
    /// A guest log message, forwarded verbatim.
    Message(String),
    /// A nested invocation of the given program at the given stack height.
    Invoke(Vec<u8>, usize),
    /// Successful completion of a nested invocation of the given program.
    Success(Vec<u8>),
}

/// The host execution context for the current instruction frame.
pub struct HostContext {
    /// Transaction-wide account table, by position.
    pub accounts: Vec<HostAccount>,
    /// Public key of each account in `accounts`, by the same position.
    pub keys: Vec<Vec<u8>>,
    /// The calling program's own account list.
    pub caller_accounts: Vec<CallerAccountRef>,
    /// Program ids of the active call stack, innermost last.
    pub stack: Vec<Vec<u8>>,
    /// The host's sysvar cache.
    pub sysvars: SysvarCache,
    /// Producer program id of the return-data slot.
    pub return_data_program: Vec<u8>,
    /// Bytes of the return-data slot; overwritten, never appended.
    pub return_data: Vec<u8>,
    /// The log collector, absent when no collector is attached.
    pub log: Option<Vec<LogEntry>>,
}

/// The log collector after one record was handed to it: appended when a
/// collector is attached, still absent otherwise.
pub open spec fn log_appended(
    before: Option<Vec<LogEntry>>,
    after: Option<Vec<LogEntry>>,
    entry: LogEntry,
) -> bool {
    match before {
        Option::None => after is None,
        Option::Some(l) => after matches Option::Some(l2) && l2@ == l@.push(entry),
    }
}

impl HostContext {
    /// Well-formedness: the key table is parallel to the account table, every
    /// caller-list entry points into the account table, and every program id
    /// on the stack has key length.
    pub open spec fn wf(self) -> bool {
        &&& self.keys@.len() == self.accounts@.len()
        &&& forall|i: int|
            0 <= i < self.caller_accounts@.len() ==> (
            #[trigger] self.caller_accounts@[i]).index_in_transaction < self.accounts@.len()
        &&& forall|i: int|
            0 <= i < self.stack@.len() ==> (#[trigger] self.stack@[i])@.len() == KEY_LEN
    }

    /// Current depth of the call stack, purely observational.
    pub fn get_stack_height(&self) -> (h: usize)
        ensures
            h == self.stack@.len(),
    {
        self.stack.len()
    }

    /// Forward one guest log message to the log collector, verbatim and
    /// unconditionally; a silent no-op when no collector is attached.
    pub fn log_message(&mut self, message: String)
        ensures
            log_appended(old(self).log, final (self).log, LogEntry::Message(message)),
            final (self).accounts == old(self).accounts,
            final (self).keys == old(self).keys,
            final (self).caller_accounts == old(self).caller_accounts,
            final (self).stack == old(self).stack,
            final (self).sysvars == old(self).sysvars,
            final (self).return_data_program == old(self).return_data_program,
            final (self).return_data == old(self).return_data,
    {
        match &mut self.log {
            Option::Some(l) => l.push(LogEntry::Message(message)),
            Option::None => {},
        }
    }

    /// Hand one structured record to the log collector.
    pub fn log_entry(&mut self, entry: LogEntry)
        ensures
            log_appended(old(self).log, final (self).log, entry),
            final (self).accounts == old(self).accounts,
            final (self).keys == old(self).keys,
            final (self).caller_accounts == old(self).caller_accounts,
            final (self).stack == old(self).stack,
            final (self).sysvars == old(self).sysvars,
            final (self).return_data_program == old(self).return_data_program,
            final (self).return_data == old(self).return_data,
    {
        match &mut self.log {
            Option::Some(l) => l.push(entry),
            Option::None => {},
        }
    }

    /// Replace the return-data slot with (current program id, copy of the
    /// given bytes). The current program id is the last program on the active
    /// call stack, so an instruction frame must be live.
    pub fn set_return_data(&mut self, data: Vec<u8>)
        requires
            old(self).stack@.len() > 0,
        ensures
            final (self).return_data_program@ == old(self).stack@.last()@,
            final (self).return_data == data,
            final (self).accounts == old(self).accounts,
            final (self).keys == old(self).keys,
            final (self).caller_accounts == old(self).caller_accounts,
            final (self).stack == old(self).stack,
            final (self).sysvars == old(self).sysvars,
            final (self).log == old(self).log,
    {
        let n = self.stack.len();
        let caller = copy_bytes(&self.stack[n - 1]);
        self.return_data_program = caller;
        self.return_data = data;
    }

    /// Read the return-data slot: a copy of (producer program id, bytes).
    /// Reads are idempotent; the slot holds its initial empty value when
    /// never set.
    pub fn get_return_data(&self) -> (r: (Vec<u8>, Vec<u8>))
        ensures
            r.0@ == self.return_data_program@,
            r.1@ == self.return_data@,
    {
        (copy_bytes(&self.return_data_program), copy_bytes(&self.return_data))
    }
}

} // verus!
