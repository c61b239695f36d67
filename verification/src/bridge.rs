//! The cross-invocation bridge: execute a nested instruction on behalf of the
//! guest while enforcing the privilege and consistency rules of the host.
//!
//! The bridge stages the instruction against the host context, copies mutable
//! guest account state into the host (lamports and data strictly before the
//! owner, per account), lets the execution engine run, and copies the results
//! of every writable account back out into the guest's views.
//!
//! The execution engine itself is a collaborator this layer only brokers
//! access to: [`invoke_prepare`] carries the state up to the engine call and
//! [`invoke_finish`] reconciles afterwards, so the surrounding runtime runs
//! the engine between the two.

use vstd::prelude::*;
use crate::bytes::{all_zero, bytes_eq, copy_bytes, is_all_zero, KEY_LEN};
use crate::context::{AccountModel, CallerAccountRef, HostContext, LogEntry};
use crate::errors::{is_mappable, spec_translate, GuestError, HostError};
use crate::TridentTryFrom;

verus! {

/// One account reference of an instruction descriptor, as the guest hands
/// it in: the account's public key and the privileges the nested instruction
/// wants on it.
pub struct AccountMeta {
    pub key: Vec<u8>,
    pub is_signer: bool,
    pub is_writable: bool,
}

/// Mathematical value of an [`AccountMeta`].
pub ghost struct AccountMetaModel {
    pub key: Seq<u8>,
    pub is_signer: bool,
    pub is_writable: bool,
}

impl View for AccountMeta {
    type V = AccountMetaModel;

    open spec fn view(&self) -> AccountMetaModel {
        AccountMetaModel { key: self.key@, is_signer: self.is_signer, is_writable: self.is_writable }
    }
}

impl DeepView for AccountMeta {
    type V = AccountMetaModel;

    open spec fn deep_view(&self) -> AccountMetaModel {
        self.view()
    }
}

/// An instruction descriptor, constructed fresh for each nested invocation
/// from guest inputs.
pub struct Instruction {
    pub program_id: Vec<u8>,
    pub accounts: Vec<AccountMeta>,
    pub data: Vec<u8>,
}

/// A validated, position-tagged reference to an account within the nested
/// instruction's execution frame.
#[derive(Clone, Copy, PartialEq, Eq, Structural, Debug)]
pub struct InstructionAccount {
    /// Position in the full transaction account table.
    pub index_in_transaction: usize,
    /// Position in the calling program's own account list.
    pub index_in_caller: usize,
    pub is_signer: bool,
    pub is_writable: bool,
}

/// A caller-owned, mutable view over one account as the guest sees it.
pub struct GuestAccount {
    pub key: Vec<u8>,
    pub lamports: u64,
    pub owner: Vec<u8>,
    pub data: Vec<u8>,
    pub is_writable: bool,
    pub is_signer: bool,
}

/// Mathematical value of a [`GuestAccount`].
pub ghost struct GuestModel {
    pub key: Seq<u8>,
    pub lamports: u64,
    pub owner: Seq<u8>,
    pub data: Seq<u8>,
    pub is_writable: bool,
    pub is_signer: bool,
}

impl View for GuestAccount {
    type V = GuestModel;

    open spec fn view(&self) -> GuestModel {
        GuestModel {
            key: self.key@,
            lamports: self.lamports,
            owner: self.owner@,
            data: self.data@,
            is_writable: self.is_writable,
            is_signer: self.is_signer,
        }
    }
}

impl DeepView for GuestAccount {
    type V = GuestModel;

    open spec fn deep_view(&self) -> GuestModel {
        self.view()
    }
}

/// How a nested invocation fails, split by the two failure classes: a
/// translated, guest-visible error the guest is expected to branch on, or a
/// fatal contract violation the surrounding runtime must abort on.
#[derive(Debug, PartialEq, Eq)]
pub enum InvokeFailure {
    /// Recoverable: a host error with an entry in the translation table,
    /// returned to the guest as a call failure.
    Guest(GuestError),
    /// Fatal: a host error with no entry in the translation table; inventing
    /// a guest error would hide a real host failure.
    Unmappable(HostError),
    /// Fatal: the guest mutated account bytes the host holds immutable; the
    /// payload is the host's rejection.
    ImmutableDataMismatch(HostError),
    /// Fatal: a signer seed set does not derive an address; a programming
    /// mistake of the calling program, not a runtime condition.
    SignerDerivation,
}

/// A fatal failure: the surrounding runtime aborts on it rather than handing
/// it to the guest.
pub open spec fn is_fatal(f: InvokeFailure) -> bool {
    !(f matches InvokeFailure::Guest(_))
}

/// Route one host error through the translation table: mappable kinds become
/// recoverable guest errors, the rest are fatal.
pub open spec fn spec_fail(e: HostError) -> InvokeFailure {
    match spec_translate(e) {
        Result::Ok(g) => InvokeFailure::Guest(g),
        Result::Err(h) => InvokeFailure::Unmappable(h),
    }
}

/// A host error routed through the translation table is fatal exactly when
/// it has no entry there: the bridge never invents a guest error for an
/// unmappable host failure, and never aborts on a mappable one.
pub proof fn lemma_fatal_exactly_unmappable()
    ensures
        forall|e: HostError| is_fatal(#[trigger] spec_fail(e)) <==> !is_mappable(e),
{
}

fn fail_of(e: HostError) -> (r: InvokeFailure)
    ensures
        r == spec_fail(e),
{
    match <GuestError as TridentTryFrom<HostError>>::try_from_custom(e) {
        Result::Ok(g) => InvokeFailure::Guest(g),
        Result::Err(h) => InvokeFailure::Unmappable(h),
    }
}

/// Position of the first key equal to `key`, if any.
pub open spec fn find_key_index(keys: Seq<Seq<u8>>, key: Seq<u8>) -> Option<int>
    decreases keys.len(),
{
    if keys.len() == 0 {
        Option::None
    } else if keys.first() == key {
        Option::Some(0int)
    } else {
        match find_key_index(keys.drop_first(), key) {
            Option::None => Option::None,
            Option::Some(i) => Option::Some(i + 1),
        }
    }
}

/// `find_key_index` returns exactly the first match: nothing matches before
/// a prefix with no match, and a match at its end is the result.
pub proof fn lemma_find_key_index(keys: Seq<Seq<u8>>, key: Seq<u8>, i: int)
    requires
        0 <= i <= keys.len(),
        forall|j: int| 0 <= j < i ==> keys[j] != key,
        i < keys.len() ==> keys[i] == key,
    ensures
        find_key_index(keys, key) == if i < keys.len() {
            Option::Some(i)
        } else {
            Option::<int>::None
        },
    decreases keys.len(),
{
    if keys.len() == 0 {
    } else if keys.first() == key {
        assert(i == 0);
    } else {
        assert(keys[0] != key);
        assert(i >= 1);
        let rest = keys.drop_first();
        assert(forall|j: int| 0 <= j < i - 1 ==> rest[j] != key) by {
            assert(forall|j: int| 0 <= j < i - 1 ==> rest[j] == keys[j + 1]);
        }
        assert(i - 1 < rest.len() ==> rest[i - 1] == key);
        lemma_find_key_index(rest, key, i - 1);
    }
}

/// First position in the key table holding the given key.
pub fn find_key_position(keys: &Vec<Vec<u8>>, key: &Vec<u8>) -> (r: Option<usize>)
    ensures
        (match r {
            Option::Some(i) => i < keys@.len() && find_key_index(keys.deep_view(), key@)
                == Option::Some(i as int),
            Option::None => find_key_index(keys.deep_view(), key@) is None,
        }),
{
    let n = keys.len();
    let mut i: usize = 0;
    while i < n
        invariant
            n == keys@.len(),
            0 <= i <= n,
            forall|j: int| 0 <= j < i ==> keys.deep_view()[j] != key@,
        decreases n - i,
    {
        if bytes_eq(&keys[i], key) {
            proof {
                assert(keys.deep_view()[i as int] == key@);
                lemma_find_key_index(keys.deep_view(), key@, i as int);
            }
            return Option::Some(i);
        }
        proof {
            assert(keys.deep_view()[i as int] == keys@[i as int]@);
        }
        i += 1;
    }
    proof {
        lemma_find_key_index(keys.deep_view(), key@, n as int);
    }
    Option::None
}

/// Position of the first caller-list entry referring to transaction index
/// `t`, if any.
pub open spec fn find_caller_index(caller: Seq<CallerAccountRef>, t: int) -> Option<int>
    decreases caller.len(),
{
    if caller.len() == 0 {
        Option::None
    } else if caller.first().index_in_transaction == t {
        Option::Some(0int)
    } else {
        match find_caller_index(caller.drop_first(), t) {
            Option::None => Option::None,
            Option::Some(i) => Option::Some(i + 1),
        }
    }
}

/// `find_caller_index` returns exactly the first match.
pub proof fn lemma_find_caller_index(caller: Seq<CallerAccountRef>, t: int, i: int)
    requires
        0 <= i <= caller.len(),
        forall|j: int| 0 <= j < i ==> (#[trigger] caller[j]).index_in_transaction != t,
        i < caller.len() ==> caller[i].index_in_transaction == t,
    ensures
        find_caller_index(caller, t) == if i < caller.len() {
            Option::Some(i)
        } else {
            Option::<int>::None
        },
    decreases caller.len(),
{
    if caller.len() == 0 {
    } else if caller.first().index_in_transaction == t {
        assert(i == 0);
    } else {
        assert(i >= 1);
        let rest = caller.drop_first();
        assert(forall|j: int| 0 <= j < i - 1 ==> (#[trigger] rest[j]).index_in_transaction != t)
            by {
            assert(forall|j: int| 0 <= j < i - 1 ==> rest[j] == caller[j + 1]);
        }
        lemma_find_caller_index(rest, t, i - 1);
    }
}

/// First position in the calling program's account list referring to
/// transaction index `t`.
pub fn find_caller_position(caller: &Vec<CallerAccountRef>, t: usize) -> (r: Option<usize>)
    ensures
        (match r {
            Option::Some(i) => i < caller@.len() && find_caller_index(caller@, t as int)
                == Option::Some(i as int),
            Option::None => find_caller_index(caller@, t as int) is None,
        }),
{
    let n = caller.len();
    let mut i: usize = 0;
    while i < n
        invariant
            n == caller@.len(),
            0 <= i <= n,
            forall|j: int| 0 <= j < i ==> (#[trigger] caller@[j]).index_in_transaction != t,
        decreases n - i,
    {
        if caller[i].index_in_transaction == t {
            proof {
                lemma_find_caller_index(caller@, t as int, i as int);
            }
            return Option::Some(i);
        }
        i += 1;
    }
    proof {
        lemma_find_caller_index(caller@, t as int, n as int);
    }
    Option::None
}

/// Position of the first guest account view carrying the given key, if any.
pub open spec fn find_guest_index(guests: Seq<GuestModel>, key: Seq<u8>) -> Option<int>
    decreases guests.len(),
{
    if guests.len() == 0 {
        Option::None
    } else if guests.first().key == key {
        Option::Some(0int)
    } else {
        match find_guest_index(guests.drop_first(), key) {
            Option::None => Option::None,
            Option::Some(i) => Option::Some(i + 1),
        }
    }
}

/// `find_guest_index` returns exactly the first match.
pub proof fn lemma_find_guest_index(guests: Seq<GuestModel>, key: Seq<u8>, i: int)
    requires
        0 <= i <= guests.len(),
        forall|j: int| 0 <= j < i ==> (#[trigger] guests[j]).key != key,
        i < guests.len() ==> guests[i].key == key,
    ensures
        find_guest_index(guests, key) == if i < guests.len() {
            Option::Some(i)
        } else {
            Option::<int>::None
        },
    decreases guests.len(),
{
    if guests.len() == 0 {
    } else if guests.first().key == key {
        assert(i == 0);
    } else {
        assert(i >= 1);
        let rest = guests.drop_first();
        assert(forall|j: int| 0 <= j < i - 1 ==> (#[trigger] rest[j]).key != key) by {
            assert(forall|j: int| 0 <= j < i - 1 ==> rest[j] == guests[j + 1]);
        }
        lemma_find_guest_index(rest, key, i - 1);
    }
}

/// First position among the guest account views carrying the given key.
pub fn find_guest_position(guests: &Vec<GuestAccount>, key: &Vec<u8>) -> (r: Option<usize>)
    ensures
        (match r {
            Option::Some(i) => i < guests@.len() && find_guest_index(guests.deep_view(), key@)
                == Option::Some(i as int),
            Option::None => find_guest_index(guests.deep_view(), key@) is None,
        }),
{
    let n = guests.len();
    let mut i: usize = 0;
    while i < n
        invariant
            n == guests@.len(),
            0 <= i <= n,
            forall|j: int| 0 <= j < i ==> guests.deep_view()[j].key != key@,
        decreases n - i,
    {
        if bytes_eq(&guests[i].key, key) {
            proof {
                assert(guests.deep_view()[i as int].key == key@);
                lemma_find_guest_index(guests.deep_view(), key@, i as int);
            }
            return Option::Some(i);
        }
        proof {
            assert(guests.deep_view()[i as int].key == guests@[i as int].key@);
        }
        i += 1;
    }
    proof {
        lemma_find_guest_index(guests.deep_view(), key@, n as int);
    }
    Option::None
}

} // verus!

verus! {

/// The model host's copy-in policy for one account, in the order the
/// protocol demands: lamports first, then data, then — strictly last — the
/// owner.
///
/// Writability is the caller-list privilege on the account. The host permits
/// an owner change only on a writable account whose data is zeroed (the
/// owner-transferable state); because data is synchronized before the owner,
/// that state is judged on the guest's freshly copied bytes.
///
/// The result is the account table after the step together with the failure
/// that stopped it, if any; mutations made before the failing field stand,
/// exactly as they do in the host.
pub open spec fn spec_sync_account_in(
    accounts: Seq<AccountModel>,
    caller: Seq<CallerAccountRef>,
    ic: int,
    g: GuestModel,
) -> (Seq<AccountModel>, Option<InvokeFailure>) {
    if !(0 <= ic < caller.len()) {
        (accounts, Option::Some(spec_fail(HostError::NotEnoughAccountKeys)))
    } else {
        let cr = caller[ic];
        let t = cr.index_in_transaction as int;
        if !(t < accounts.len()) {
            (accounts, Option::Some(spec_fail(HostError::NotEnoughAccountKeys)))
        } else {
            let a = accounts[t];
            if a.lamports != g.lamports && !cr.is_writable {
                (accounts, Option::Some(spec_fail(HostError::ReadonlyLamportChange)))
            } else {
                let a1 = AccountModel { lamports: g.lamports, ..a };
                if cr.is_writable {
                    let a2 = AccountModel { data: g.data, ..a1 };
                    if a2.owner == g.owner || all_zero(g.data) {
                        (
                            accounts.update(t, AccountModel { owner: g.owner, ..a2 }),
                            Option::None,
                        )
                    } else {
                        (
                            accounts.update(t, a2),
                            Option::Some(spec_fail(HostError::ModifiedProgramId)),
                        )
                    }
                } else {
                    if a1.data != g.data {
                        (
                            accounts.update(t, a1),
                            Option::Some(
                                InvokeFailure::ImmutableDataMismatch(
                                    HostError::ReadonlyDataModified,
                                ),
                            ),
                        )
                    } else if a1.owner != g.owner {
                        (
                            accounts.update(t, a1),
                            Option::Some(spec_fail(HostError::ModifiedProgramId)),
                        )
                    } else {
                        (accounts.update(t, a1), Option::None)
                    }
                }
            }
        }
    }
}

/// Copy one guest account view into the host: acquire the account at the
/// given position in the calling program's account list and synchronize
/// lamports, then data, then owner, per [`spec_sync_account_in`]. A read-only
/// account whose bytes the guest changed is a fatal consistency violation,
/// never a silent success.
pub fn sync_account_in(
    ctx: &mut HostContext,
    index_in_caller: usize,
    guest: &GuestAccount,
) -> (r: Result<(), InvokeFailure>)
    requires
        old(ctx).wf(),
    ensures
        final (ctx).wf(),
        final (ctx).keys == old(ctx).keys,
        final (ctx).caller_accounts == old(ctx).caller_accounts,
        final (ctx).stack == old(ctx).stack,
        final (ctx).sysvars == old(ctx).sysvars,
        final (ctx).return_data_program == old(ctx).return_data_program,
        final (ctx).return_data == old(ctx).return_data,
        final (ctx).log == old(ctx).log,
        final (ctx).accounts@.len() == old(ctx).accounts@.len(),
        ({
            let (accs, fail) = spec_sync_account_in(
                old(ctx).accounts.deep_view(),
                old(ctx).caller_accounts@,
                index_in_caller as int,
                guest@,
            );
            final (ctx).accounts.deep_view() == accs && (match r {
                Result::Ok(u) => fail is None,
                Result::Err(f) => fail == Option::Some(f),
            })
        }),
{
    let ghost accounts0 = old(ctx).accounts.deep_view();
    if index_in_caller >= ctx.caller_accounts.len() {
        return Result::Err(fail_of(HostError::NotEnoughAccountKeys));
    }
    let cr = ctx.caller_accounts[index_in_caller];
    let t = cr.index_in_transaction;
    if ctx.accounts[t].lamports != guest.lamports && !cr.is_writable {
        return Result::Err(fail_of(HostError::ReadonlyLamportChange));
    }
    ctx.accounts[t].lamports = guest.lamports;
    if cr.is_writable {
        ctx.accounts[t].data = copy_bytes(&guest.data);
        let owner_differs = !bytes_eq(&ctx.accounts[t].owner, &guest.owner);
        if owner_differs && !is_all_zero(&guest.data) {
            proof {
                let (accs, fail) = spec_sync_account_in(
                    accounts0,
                    old(ctx).caller_accounts@,
                    index_in_caller as int,
                    guest@,
                );
                assert(ctx.accounts.deep_view() =~= accs);
            }
            return Result::Err(fail_of(HostError::ModifiedProgramId));
        }
        ctx.accounts[t].owner = copy_bytes(&guest.owner);
        proof {
            let (accs, fail) = spec_sync_account_in(
                accounts0,
                old(ctx).caller_accounts@,
                index_in_caller as int,
                guest@,
            );
            assert(ctx.accounts.deep_view() =~= accs);
        }
        Result::Ok(())
    } else {
        if !bytes_eq(&ctx.accounts[t].data, &guest.data) {
            proof {
                let (accs, fail) = spec_sync_account_in(
                    accounts0,
                    old(ctx).caller_accounts@,
                    index_in_caller as int,
                    guest@,
                );
                assert(ctx.accounts.deep_view() =~= accs);
            }
            return Result::Err(
                InvokeFailure::ImmutableDataMismatch(HostError::ReadonlyDataModified),
            );
        }
        let owner_differs = !bytes_eq(&ctx.accounts[t].owner, &guest.owner);
        proof {
            let (accs, fail) = spec_sync_account_in(
                accounts0,
                old(ctx).caller_accounts@,
                index_in_caller as int,
                guest@,
            );
            assert(ctx.accounts.deep_view() =~= accs);
        }
        if owner_differs {
            return Result::Err(fail_of(HostError::ModifiedProgramId));
        }
        Result::Ok(())
    }
}

/// Ordering: owner synchronization happens strictly after lamport and data
/// synchronization, per account. An owner change is accepted or rejected on
/// the guest's freshly synchronized data: zeroed guest data lets the change
/// through even though the host's old bytes were not transferable, and
/// non-zeroed guest data has it rejected with the prior field mutations
/// standing.
pub proof fn lemma_copy_in_owner_ordering(
    accounts: Seq<AccountModel>,
    caller: Seq<CallerAccountRef>,
    ic: int,
    g: GuestModel,
)
    requires
        0 <= ic < caller.len(),
        caller[ic].is_writable,
        caller[ic].index_in_transaction < accounts.len(),
        g.owner != accounts[caller[ic].index_in_transaction as int].owner,
    ensures
        all_zero(g.data) ==> ({
            let (accs, fail) = spec_sync_account_in(accounts, caller, ic, g);
            let t = caller[ic].index_in_transaction as int;
            fail is None && accs[t].owner == g.owner && accs[t].data == g.data
                && accs[t].lamports == g.lamports
        }),
        !all_zero(g.data) ==> ({
            let (accs, fail) = spec_sync_account_in(accounts, caller, ic, g);
            let t = caller[ic].index_in_transaction as int;
            fail == Option::Some(spec_fail(HostError::ModifiedProgramId)) && accs[t].owner
                == accounts[t].owner && accs[t].data == g.data && accs[t].lamports == g.lamports
        }),
{
}

} // verus!

verus! {

/// One step of the copy-in phase: resolve the instruction-account's key,
/// locate the matching guest view, synchronize it into the host, and record
/// the (position in caller's list, guest view index) pair when the account
/// is writable per the expanded instruction-account metadata.
pub open spec fn spec_copy_in_step(
    accounts: Seq<AccountModel>,
    caller: Seq<CallerAccountRef>,
    keys: Seq<Seq<u8>>,
    guests: Seq<GuestModel>,
    ia: InstructionAccount,
) -> (Seq<AccountModel>, Option<(usize, usize)>, Option<InvokeFailure>) {
    if !(ia.index_in_transaction < keys.len()) {
        (accounts, Option::None, Option::Some(spec_fail(HostError::NotEnoughAccountKeys)))
    } else {
        match find_guest_index(guests, keys[ia.index_in_transaction as int]) {
            Option::None => (
                accounts,
                Option::None,
                Option::Some(spec_fail(HostError::MissingAccount)),
            ),
            Option::Some(gi) => {
                let (accs, fail) = spec_sync_account_in(
                    accounts,
                    caller,
                    ia.index_in_caller as int,
                    guests[gi],
                );
                match fail {
                    Option::Some(f) => (accs, Option::None, Option::Some(f)),
                    Option::None => (
                        accs,
                        if ia.is_writable {
                            Option::Some((ia.index_in_caller, gi as usize))
                        } else {
                            Option::None
                        },
                        Option::None,
                    ),
                }
            },
        }
    }
}

/// The copy-in phase over the first `n` expanded instruction-accounts, in
/// list order: the host account table after them, the recorded writable
/// pairs in recorded order, and the failure that stopped the phase, if any.
pub open spec fn spec_copy_in(
    accounts: Seq<AccountModel>,
    caller: Seq<CallerAccountRef>,
    keys: Seq<Seq<u8>>,
    guests: Seq<GuestModel>,
    ias: Seq<InstructionAccount>,
    n: int,
) -> (Seq<AccountModel>, Seq<(usize, usize)>, Option<InvokeFailure>)
    decreases n,
{
    if n <= 0 {
        (accounts, Seq::<(usize, usize)>::empty(), Option::None)
    } else {
        let (accs, rec, fail) = spec_copy_in(accounts, caller, keys, guests, ias, n - 1);
        if fail is Some {
            (accs, rec, fail)
        } else {
            let (accs2, pair, fail2) = spec_copy_in_step(accs, caller, keys, guests, ias[n - 1]);
            let rec2 = match pair {
                Option::Some(p) => rec.push(p),
                Option::None => rec,
            };
            (accs2, rec2, fail2)
        }
    }
}

/// Once the copy-in phase fails, later steps change nothing.
pub proof fn lemma_copy_in_failure_persists(
    accounts: Seq<AccountModel>,
    caller: Seq<CallerAccountRef>,
    keys: Seq<Seq<u8>>,
    guests: Seq<GuestModel>,
    ias: Seq<InstructionAccount>,
    m: int,
    n: int,
)
    requires
        0 <= m <= n,
        spec_copy_in(accounts, caller, keys, guests, ias, m).2 is Some,
    ensures
        spec_copy_in(accounts, caller, keys, guests, ias, n) == spec_copy_in(
            accounts,
            caller,
            keys,
            guests,
            ias,
            m,
        ),
    decreases n - m,
{
    if m < n {
        lemma_copy_in_failure_persists(accounts, caller, keys, guests, ias, m, n - 1);
    }
}

/// Copy caller account modifications into the host context: for each account
/// referenced by the expanded instruction-account list, in list order, locate
/// the matching guest view by public key (absence is fatal), synchronize it
/// into the host, and record the writable ones for the copy-out phase.
pub fn copy_in(
    ctx: &mut HostContext,
    ias: &Vec<InstructionAccount>,
    guests: &Vec<GuestAccount>,
) -> (r: Result<Vec<(usize, usize)>, InvokeFailure>)
    requires
        old(ctx).wf(),
    ensures
        final (ctx).wf(),
        final (ctx).keys == old(ctx).keys,
        final (ctx).caller_accounts == old(ctx).caller_accounts,
        final (ctx).stack == old(ctx).stack,
        final (ctx).sysvars == old(ctx).sysvars,
        final (ctx).return_data_program == old(ctx).return_data_program,
        final (ctx).return_data == old(ctx).return_data,
        final (ctx).log == old(ctx).log,
        final (ctx).accounts@.len() == old(ctx).accounts@.len(),
        ({
            let (accs, rec, fail) = spec_copy_in(
                old(ctx).accounts.deep_view(),
                old(ctx).caller_accounts@,
                old(ctx).keys.deep_view(),
                guests.deep_view(),
                ias@,
                ias@.len() as int,
            );
            final (ctx).accounts.deep_view() == accs && (match r {
                Result::Ok(pairs) => fail is None && pairs@ == rec,
                Result::Err(f) => fail == Option::Some(f),
            })
        }),
        (match r {
            Result::Ok(pairs) => forall|k: int|
                0 <= k < pairs@.len() ==> (#[trigger] pairs@[k]).1 < guests@.len(),
            Result::Err(f) => true,
        }),
{
    let ghost accounts0 = old(ctx).accounts.deep_view();
    let ghost caller0 = old(ctx).caller_accounts@;
    let ghost keys0 = old(ctx).keys.deep_view();
    let ghost guests0 = guests.deep_view();
    let mut recorded: Vec<(usize, usize)> = Vec::new();
    let n = ias.len();
    let mut idx: usize = 0;
    while idx < n
        invariant
            n == ias@.len(),
            0 <= idx <= n,
            ctx.wf(),
            ctx.keys == old(ctx).keys,
            ctx.caller_accounts == old(ctx).caller_accounts,
            ctx.stack == old(ctx).stack,
            ctx.sysvars == old(ctx).sysvars,
            ctx.return_data_program == old(ctx).return_data_program,
            ctx.return_data == old(ctx).return_data,
            ctx.log == old(ctx).log,
            ctx.accounts@.len() == old(ctx).accounts@.len(),
            accounts0 == old(ctx).accounts.deep_view(),
            caller0 == old(ctx).caller_accounts@,
            keys0 == old(ctx).keys.deep_view(),
            guests0 == guests.deep_view(),
            forall|k: int|
                0 <= k < recorded@.len() ==> (#[trigger] recorded@[k]).1 < guests@.len(),
            ({
                let (accs, rec, fail) = spec_copy_in(
                    accounts0,
                    caller0,
                    keys0,
                    guests0,
                    ias@,
                    idx as int,
                );
                fail is None && ctx.accounts.deep_view() == accs && recorded@ == rec
            }),
        decreases n - idx,
    {
        let ia = ias[idx];
        if ia.index_in_transaction >= ctx.keys.len() {
            proof {
                let step = spec_copy_in_step(
                    ctx.accounts.deep_view(),
                    caller0,
                    keys0,
                    guests0,
                    ias@[idx as int],
                );
                assert(step.2 == Option::Some(spec_fail(HostError::NotEnoughAccountKeys)));
                assert(spec_copy_in(accounts0, caller0, keys0, guests0, ias@, idx + 1) == (
                    step.0,
                    recorded@,
                    step.2,
                ));
                lemma_copy_in_failure_persists(
                    accounts0,
                    caller0,
                    keys0,
                    guests0,
                    ias@,
                    idx + 1,
                    n as int,
                );
            }
            return Result::Err(fail_of(HostError::NotEnoughAccountKeys));
        }
        let account_key = &ctx.keys[ia.index_in_transaction];
        match find_guest_position(guests, account_key) {
            Option::None => {
                proof {
                    assert(account_key@ == keys0[ia.index_in_transaction as int]);
                    let step = spec_copy_in_step(
                        ctx.accounts.deep_view(),
                        caller0,
                        keys0,
                        guests0,
                        ias@[idx as int],
                    );
                    assert(step.2 == Option::Some(spec_fail(HostError::MissingAccount)));
                    assert(spec_copy_in(accounts0, caller0, keys0, guests0, ias@, idx + 1) == (
                        step.0,
                        recorded@,
                        step.2,
                    ));
                    lemma_copy_in_failure_persists(
                        accounts0,
                        caller0,
                        keys0,
                        guests0,
                        ias@,
                        idx + 1,
                        n as int,
                    );
                }
                return Result::Err(fail_of(HostError::MissingAccount));
            },
            Option::Some(gi) => {
                let ghost accounts_before = ctx.accounts.deep_view();
                proof {
                    assert(account_key@ == keys0[ia.index_in_transaction as int]);
                    assert(guests0[gi as int] == guests@[gi as int]@);
                }
                match sync_account_in(ctx, ia.index_in_caller, &guests[gi]) {
                    Result::Err(f) => {
                        proof {
                            let step = spec_copy_in_step(
                                accounts_before,
                                caller0,
                                keys0,
                                guests0,
                                ias@[idx as int],
                            );
                            assert(step == (
                                ctx.accounts.deep_view(),
                                Option::<(usize, usize)>::None,
                                Option::Some(f),
                            ));
                            assert(spec_copy_in(accounts0, caller0, keys0, guests0, ias@, idx + 1)
                                == (step.0, recorded@, step.2));
                            lemma_copy_in_failure_persists(
                                accounts0,
                                caller0,
                                keys0,
                                guests0,
                                ias@,
                                idx + 1,
                                n as int,
                            );
                        }
                        return Result::Err(f);
                    },
                    Result::Ok(u) => {
                        if ia.is_writable {
                            recorded.push((ia.index_in_caller, gi));
                        }
                        proof {
                            let step = spec_copy_in_step(
                                accounts_before,
                                caller0,
                                keys0,
                                guests0,
                                ias@[idx as int],
                            );
                            assert(step.2 is None);
                            assert(step.0 == ctx.accounts.deep_view());
                            assert(spec_copy_in(accounts0, caller0, keys0, guests0, ias@, idx + 1)
                                == (step.0, recorded@, step.2));
                        }
                    },
                }
            },
        }
        idx += 1;
    }
    Result::Ok(recorded)
}

/// One step of the copy-out phase: re-acquire the host account recorded at
/// the pair's caller-list position and overwrite the guest view's lamports,
/// owner and data with the host's current values. The owner is the one
/// guest-side field rewritten without a guest-issued set call: ownership can
/// change as a side effect of the nested call.
pub open spec fn spec_copy_out_step(
    accounts: Seq<AccountModel>,
    caller: Seq<CallerAccountRef>,
    guests: Seq<GuestModel>,
    pair: (usize, usize),
) -> (Seq<GuestModel>, Option<InvokeFailure>) {
    let ic = pair.0 as int;
    let gi = pair.1 as int;
    if !(ic < caller.len()) {
        (guests, Option::Some(spec_fail(HostError::NotEnoughAccountKeys)))
    } else {
        let t = caller[ic].index_in_transaction as int;
        if !(t < accounts.len() && gi < guests.len()) {
            // Unreachable under the callers' preconditions; kept so the
            // function is total.
            (guests, Option::None)
        } else {
            let a = accounts[t];
            let g = guests[gi];
            (
                guests.update(
                    gi,
                    GuestModel { lamports: a.lamports, owner: a.owner, data: a.data, ..g },
                ),
                Option::None,
            )
        }
    }
}

/// The copy-out phase over the first `n` recorded pairs, in recorded order.
pub open spec fn spec_copy_out(
    accounts: Seq<AccountModel>,
    caller: Seq<CallerAccountRef>,
    guests: Seq<GuestModel>,
    pairs: Seq<(usize, usize)>,
    n: int,
) -> (Seq<GuestModel>, Option<InvokeFailure>)
    decreases n,
{
    if n <= 0 {
        (guests, Option::None)
    } else {
        let (gs, fail) = spec_copy_out(accounts, caller, guests, pairs, n - 1);
        if fail is Some {
            (gs, fail)
        } else {
            spec_copy_out_step(accounts, caller, gs, pairs[n - 1])
        }
    }
}

/// Once the copy-out phase fails, later steps change nothing.
pub proof fn lemma_copy_out_failure_persists(
    accounts: Seq<AccountModel>,
    caller: Seq<CallerAccountRef>,
    guests: Seq<GuestModel>,
    pairs: Seq<(usize, usize)>,
    m: int,
    n: int,
)
    requires
        0 <= m <= n,
        spec_copy_out(accounts, caller, guests, pairs, m).1 is Some,
    ensures
        spec_copy_out(accounts, caller, guests, pairs, n) == spec_copy_out(
            accounts,
            caller,
            guests,
            pairs,
            m,
        ),
    decreases n - m,
{
    if m < n {
        lemma_copy_out_failure_persists(accounts, caller, guests, pairs, m, n - 1);
    }
}

/// Copy host account modifications back into the guest's views: for each
/// recorded writable pair, in recorded order, overwrite the guest view's
/// lamports, owner and data (resized to match) with the host's current
/// values. Only accounts recorded by the copy-in phase are eligible;
/// read-only accounts are never touched.
pub fn copy_out(
    ctx: &HostContext,
    pairs: &Vec<(usize, usize)>,
    guests: &mut Vec<GuestAccount>,
) -> (r: Result<(), InvokeFailure>)
    requires
        ctx.wf(),
        forall|k: int| 0 <= k < pairs@.len() ==> (#[trigger] pairs@[k]).1 < old(guests)@.len(),
    ensures
        final (guests)@.len() == old(guests)@.len(),
        ({
            let (gs, fail) = spec_copy_out(
                ctx.accounts.deep_view(),
                ctx.caller_accounts@,
                old(guests).deep_view(),
                pairs@,
                pairs@.len() as int,
            );
            final (guests).deep_view() == gs && (match r {
                Result::Ok(u) => fail is None,
                Result::Err(f) => fail == Option::Some(f),
            })
        }),
{
    let ghost guests0 = old(guests).deep_view();
    let n = pairs.len();
    let mut idx: usize = 0;
    while idx < n
        invariant
            n == pairs@.len(),
            0 <= idx <= n,
            ctx.wf(),
            forall|k: int| 0 <= k < pairs@.len() ==> (#[trigger] pairs@[k]).1 < guests@.len(),
            guests0 == old(guests).deep_view(),
            guests@.len() == guests0.len(),
            ({
                let (gs, fail) = spec_copy_out(
                    ctx.accounts.deep_view(),
                    ctx.caller_accounts@,
                    guests0,
                    pairs@,
                    idx as int,
                );
                fail is None && guests.deep_view() == gs
            }),
        decreases n - idx,
    {
        let (ic, gi) = pairs[idx];
        if ic >= ctx.caller_accounts.len() {
            proof {
                let (gs_prev, fail_prev) = spec_copy_out(
                    ctx.accounts.deep_view(),
                    ctx.caller_accounts@,
                    guests0,
                    pairs@,
                    idx as int,
                );
                let step = spec_copy_out_step(
                    ctx.accounts.deep_view(),
                    ctx.caller_accounts@,
                    gs_prev,
                    pairs@[idx as int],
                );
                assert(step == (
                    gs_prev,
                    Option::Some(spec_fail(HostError::NotEnoughAccountKeys)),
                ));
                assert(spec_copy_out(
                    ctx.accounts.deep_view(),
                    ctx.caller_accounts@,
                    guests0,
                    pairs@,
                    idx + 1,
                ) == step);
                lemma_copy_out_failure_persists(
                    ctx.accounts.deep_view(),
                    ctx.caller_accounts@,
                    guests0,
                    pairs@,
                    idx + 1,
                    n as int,
                );
            }
            return Result::Err(fail_of(HostError::NotEnoughAccountKeys));
        }
        let t = ctx.caller_accounts[ic].index_in_transaction;
        guests[gi].lamports = ctx.accounts[t].lamports;
        let owner_differs = !bytes_eq(&guests[gi].owner, &ctx.accounts[t].owner);
        if owner_differs {
            guests[gi].owner = copy_bytes(&ctx.accounts[t].owner);
        }
        guests[gi].data = copy_bytes(&ctx.accounts[t].data);
        proof {
            let (gs_prev, fail_prev) = spec_copy_out(
                ctx.accounts.deep_view(),
                ctx.caller_accounts@,
                guests0,
                pairs@,
                idx as int,
            );
            let step = spec_copy_out_step(
                ctx.accounts.deep_view(),
                ctx.caller_accounts@,
                gs_prev,
                pairs@[idx as int],
            );
            assert(spec_copy_out(
                ctx.accounts.deep_view(),
                ctx.caller_accounts@,
                guests0,
                pairs@,
                idx + 1,
            ) == step);
            assert(step.1 is None);
            assert(guests.deep_view() =~= step.0);
        }
        idx += 1;
    }
    Result::Ok(())
}

/// Round-trip: the copy-in phase records nothing when none of the expanded
/// instruction-accounts is writable, and the copy-out phase over an empty
/// record leaves every guest account view unchanged.
pub proof fn lemma_readonly_round_trip(
    accounts: Seq<AccountModel>,
    caller: Seq<CallerAccountRef>,
    keys: Seq<Seq<u8>>,
    guests: Seq<GuestModel>,
    ias: Seq<InstructionAccount>,
    n: int,
)
    requires
        0 <= n <= ias.len(),
        forall|k: int| 0 <= k < n ==> !(#[trigger] ias[k]).is_writable,
    ensures
        spec_copy_in(accounts, caller, keys, guests, ias, n).1 == Seq::<(usize, usize)>::empty(),
        spec_copy_out(accounts, caller, guests, Seq::<(usize, usize)>::empty(), 0) == (
            guests,
            Option::<InvokeFailure>::None,
        ),
    decreases n,
{
    if n > 0 {
        lemma_readonly_round_trip(accounts, caller, keys, guests, ias, n - 1);
    }
}

} // verus!

verus! {

/// Mathematical value of an [`Instruction`].
pub ghost struct InstructionModel {
    pub program_id: Seq<u8>,
    pub accounts: Seq<AccountMetaModel>,
    pub data: Seq<u8>,
}

impl View for Instruction {
    type V = InstructionModel;

    open spec fn view(&self) -> InstructionModel {
        InstructionModel {
            program_id: self.program_id@,
            accounts: self.accounts.deep_view(),
            data: self.data@,
        }
    }
}

impl DeepView for Instruction {
    type V = InstructionModel;

    open spec fn deep_view(&self) -> InstructionModel {
        self.view()
    }
}

/// Staging of one account reference: resolve its key to a transaction
/// position and to a position in the calling program's account list, then
/// check privileges. Writability must be backed by the caller's own
/// writability; signer status must be backed by the caller's signer status
/// or by a derived signer carrying the same key. Either violation is a
/// privilege escalation attempt.
pub open spec fn spec_stage_account(
    caller: Seq<CallerAccountRef>,
    keys: Seq<Seq<u8>>,
    signers: Seq<Seq<u8>>,
    meta: AccountMetaModel,
) -> Result<InstructionAccount, HostError> {
    match find_key_index(keys, meta.key) {
        Option::None => Result::Err(HostError::MissingAccount),
        Option::Some(t) => match find_caller_index(caller, t) {
            Option::None => Result::Err(HostError::MissingAccount),
            Option::Some(c) => {
                if meta.is_writable && !caller[c].is_writable {
                    Result::Err(HostError::PrivilegeEscalation)
                } else if meta.is_signer && !caller[c].is_signer && find_key_index(
                    signers,
                    meta.key,
                ) is None {
                    Result::Err(HostError::PrivilegeEscalation)
                } else {
                    Result::Ok(
                        InstructionAccount {
                            index_in_transaction: t as usize,
                            index_in_caller: c as usize,
                            is_signer: meta.is_signer,
                            is_writable: meta.is_writable,
                        },
                    )
                }
            },
        },
    }
}

/// Staging of the first `n` account references, in order; the first failure
/// stops the expansion.
pub open spec fn spec_stage_accounts(
    caller: Seq<CallerAccountRef>,
    keys: Seq<Seq<u8>>,
    signers: Seq<Seq<u8>>,
    metas: Seq<AccountMetaModel>,
    n: int,
) -> Result<Seq<InstructionAccount>, HostError>
    decreases n,
{
    if n <= 0 {
        Result::Ok(Seq::<InstructionAccount>::empty())
    } else {
        match spec_stage_accounts(caller, keys, signers, metas, n - 1) {
            Result::Err(e) => Result::Err(e),
            Result::Ok(s) => match spec_stage_account(caller, keys, signers, metas[n - 1]) {
                Result::Err(e) => Result::Err(e),
                Result::Ok(ia) => Result::Ok(s.push(ia)),
            },
        }
    }
}

/// Once staging fails, later account references change nothing.
pub proof fn lemma_stage_failure_persists(
    caller: Seq<CallerAccountRef>,
    keys: Seq<Seq<u8>>,
    signers: Seq<Seq<u8>>,
    metas: Seq<AccountMetaModel>,
    m: int,
    n: int,
)
    requires
        0 <= m <= n,
        spec_stage_accounts(caller, keys, signers, metas, m) is Err,
    ensures
        spec_stage_accounts(caller, keys, signers, metas, n) == spec_stage_accounts(
            caller,
            keys,
            signers,
            metas,
            m,
        ),
    decreases n - m,
{
    if m < n {
        lemma_stage_failure_persists(caller, keys, signers, metas, m, n - 1);
    }
}

/// Validate and expand an instruction descriptor plus derived signer set
/// into the ordered, position-tagged instruction-account list and the list
/// of program positions that will run.
pub open spec fn spec_prepare_instruction(
    caller: Seq<CallerAccountRef>,
    keys: Seq<Seq<u8>>,
    signers: Seq<Seq<u8>>,
    ix: InstructionModel,
) -> Result<(Seq<InstructionAccount>, Seq<usize>), HostError> {
    match spec_stage_accounts(caller, keys, signers, ix.accounts, ix.accounts.len() as int) {
        Result::Err(e) => Result::Err(e),
        Result::Ok(ias) => match find_key_index(keys, ix.program_id) {
            Option::None => Result::Err(HostError::MissingAccount),
            Option::Some(p) => Result::Ok((ias, seq![p as usize])),
        },
    }
}

/// Stage the nested instruction against the host context: expand each
/// account reference per [`spec_stage_account`] and resolve the target
/// program. Any validation failure is a structured host error for the
/// caller to translate.
pub fn prepare_instruction(
    ctx: &HostContext,
    ix: &Instruction,
    signers: &Vec<Vec<u8>>,
) -> (r: Result<(Vec<InstructionAccount>, Vec<usize>), HostError>)
    ensures
        ({
            let s = spec_prepare_instruction(
                ctx.caller_accounts@,
                ctx.keys.deep_view(),
                signers.deep_view(),
                ix.deep_view(),
            );
            match r {
                Result::Ok(out) => s matches Result::Ok(p) && p.0 == out.0@ && p.1 == out.1@,
                Result::Err(e) => s == Result::Err::<
                    (Seq<InstructionAccount>, Seq<usize>),
                    HostError,
                >(e),
            }
        }),
        (match r {
            Result::Ok(out) => out.0@.len() == ix.accounts@.len(),
            Result::Err(e) => true,
        }),
{
    let ghost caller0 = ctx.caller_accounts@;
    let ghost keys0 = ctx.keys.deep_view();
    let ghost signers0 = signers.deep_view();
    let ghost metas0 = ix.accounts.deep_view();
    let mut ias: Vec<InstructionAccount> = Vec::new();
    let n = ix.accounts.len();
    let mut idx: usize = 0;
    while idx < n
        invariant
            n == ix.accounts@.len(),
            0 <= idx <= n,
            caller0 == ctx.caller_accounts@,
            keys0 == ctx.keys.deep_view(),
            signers0 == signers.deep_view(),
            metas0 == ix.accounts.deep_view(),
            ias@.len() == idx,
            spec_stage_accounts(caller0, keys0, signers0, metas0, idx as int) == Result::Ok::<
                Seq<InstructionAccount>,
                HostError,
            >(ias@),
        decreases n - idx,
    {
        let meta = &ix.accounts[idx];
        proof {
            assert(metas0[idx as int] == meta@);
        }
        let staged: InstructionAccount = match find_key_position(&ctx.keys, &meta.key) {
            Option::None => {
                proof {
                    lemma_stage_failure_persists(
                        caller0,
                        keys0,
                        signers0,
                        metas0,
                        idx + 1,
                        n as int,
                    );
                }
                return Result::Err(HostError::MissingAccount);
            },
            Option::Some(t) => {
                match find_caller_position(&ctx.caller_accounts, t) {
                    Option::None => {
                        proof {
                            lemma_stage_failure_persists(
                                caller0,
                                keys0,
                                signers0,
                                metas0,
                                idx + 1,
                                n as int,
                            );
                        }
                        return Result::Err(HostError::MissingAccount);
                    },
                    Option::Some(c) => {
                        let cr = ctx.caller_accounts[c];
                        if meta.is_writable && !cr.is_writable {
                            proof {
                                lemma_stage_failure_persists(
                                    caller0,
                                    keys0,
                                    signers0,
                                    metas0,
                                    idx + 1,
                                    n as int,
                                );
                            }
                            return Result::Err(HostError::PrivilegeEscalation);
                        }
                        if meta.is_signer && !cr.is_signer {
                            let derived = find_key_position(signers, &meta.key);
                            if derived.is_none() {
                                proof {
                                    lemma_stage_failure_persists(
                                        caller0,
                                        keys0,
                                        signers0,
                                        metas0,
                                        idx + 1,
                                        n as int,
                                    );
                                }
                                return Result::Err(HostError::PrivilegeEscalation);
                            }
                        }
                        InstructionAccount {
                            index_in_transaction: t,
                            index_in_caller: c,
                            is_signer: meta.is_signer,
                            is_writable: meta.is_writable,
                        }
                    },
                }
            },
        };
        ias.push(staged);
        idx += 1;
    }
    match find_key_position(&ctx.keys, &ix.program_id) {
        Option::None => Result::Err(HostError::MissingAccount),
        Option::Some(p) => {
            let mut program_indices: Vec<usize> = Vec::new();
            program_indices.push(p);
            proof {
                assert(program_indices@ =~= seq![p]);
            }
            Result::Ok((ias, program_indices))
        },
    }
}

} // verus!

verus! {

/// The program-derived address for a seed set under a program id, when the
/// seeds admit one. The derivation is a pure function of its arguments; its
/// value is given a name rather than written out, since it runs through a
/// cryptographic hash.
pub uninterp spec fn pda_of(seeds: Seq<Seq<u8>>, program_id: Seq<u8>) -> Option<Seq<u8>>;

/// Relies on solana_program's `Pubkey::create_program_address`: the
/// derivation depends on the seeds and the program id alone, yields a
/// key-length address when it succeeds, and fails exactly when the seeds
/// violate the derivation's structural constraints.
#[verifier::external_body]
fn create_program_address(seeds: &Vec<Vec<u8>>, program_id: &Vec<u8>) -> (r: Option<Vec<u8>>)
    requires
        program_id@.len() == KEY_LEN,
    ensures
        (match r {
            Option::Some(k) => k@.len() == KEY_LEN && pda_of(seeds.deep_view(), program_id@)
                == Option::Some(k@),
            Option::None => pda_of(seeds.deep_view(), program_id@) is None,
        }),
{
    let seed_slices: Vec<&[u8]> = seeds.iter().map(|s| s.as_slice()).collect();
    let base = solana_program::pubkey::Pubkey::new_from_array(
        program_id.as_slice().try_into().unwrap(),
    );
    match solana_program::pubkey::Pubkey::create_program_address(&seed_slices, &base) {
        Ok(k) => Some(k.to_bytes().to_vec()),
        Err(_) => None,
    }
}

/// The derived signer set for the first `n` seed sets, in order, or nothing
/// if any of them fails to derive.
pub open spec fn spec_derive_signers(
    seed_sets: Seq<Seq<Seq<u8>>>,
    program_id: Seq<u8>,
    n: int,
) -> Option<Seq<Seq<u8>>>
    decreases n,
{
    if n <= 0 {
        Option::Some(Seq::<Seq<u8>>::empty())
    } else {
        match spec_derive_signers(seed_sets, program_id, n - 1) {
            Option::None => Option::None,
            Option::Some(s) => match pda_of(seed_sets[n - 1], program_id) {
                Option::None => Option::None,
                Option::Some(k) => Option::Some(s.push(k)),
            },
        }
    }
}

/// Once a seed set fails to derive, the whole signer set is nothing.
pub proof fn lemma_derive_failure_persists(
    seed_sets: Seq<Seq<Seq<u8>>>,
    program_id: Seq<u8>,
    m: int,
    n: int,
)
    requires
        0 <= m <= n,
        spec_derive_signers(seed_sets, program_id, m) is None,
    ensures
        spec_derive_signers(seed_sets, program_id, n) is None,
    decreases n - m,
{
    if m < n {
        lemma_derive_failure_persists(seed_sets, program_id, m, n - 1);
    }
}

/// Derive the signer set: one program-derived address per seed set, under
/// the calling program's id. A derivation failure is fatal — it is a
/// programming mistake of the calling program, not a condition to recover
/// from.
pub fn derive_signers(seed_sets: &Vec<Vec<Vec<u8>>>, program_id: &Vec<u8>) -> (r: Result<
    Vec<Vec<u8>>,
    InvokeFailure,
>)
    requires
        program_id@.len() == KEY_LEN,
    ensures
        (match r {
            Result::Ok(ks) => spec_derive_signers(
                seed_sets.deep_view(),
                program_id@,
                seed_sets@.len() as int,
            ) == Option::Some(ks.deep_view()),
            Result::Err(f) => f == InvokeFailure::SignerDerivation && spec_derive_signers(
                seed_sets.deep_view(),
                program_id@,
                seed_sets@.len() as int,
            ) is None,
        }),
{
    let ghost sets0 = seed_sets.deep_view();
    let mut signers: Vec<Vec<u8>> = Vec::new();
    let n = seed_sets.len();
    let mut idx: usize = 0;
    while idx < n
        invariant
            n == seed_sets@.len(),
            0 <= idx <= n,
            sets0 == seed_sets.deep_view(),
            program_id@.len() == KEY_LEN,
            spec_derive_signers(sets0, program_id@, idx as int) == Option::Some(
                signers.deep_view(),
            ),
        decreases n - idx,
    {
        proof {
            assert(sets0[idx as int] == seed_sets@[idx as int].deep_view());
        }
        match create_program_address(&seed_sets[idx], program_id) {
            Option::None => {
                proof {
                    lemma_derive_failure_persists(sets0, program_id@, idx + 1, n as int);
                }
                return Result::Err(InvokeFailure::SignerDerivation);
            },
            Option::Some(k) => {
                signers.push(k);
                proof {
                    let prev = spec_derive_signers(sets0, program_id@, idx as int);
                    let kview = signers@.last()@;
                    assert(pda_of(sets0[idx as int], program_id@) == Option::Some(kview));
                    assert(signers.deep_view() =~~= prev.unwrap().push(kview));
                    assert(spec_derive_signers(sets0, program_id@, idx + 1) == Option::Some(
                        signers.deep_view(),
                    ));
                }
            },
        }
        idx += 1;
    }
    Result::Ok(signers)
}

} // verus!

verus! {

/// What the prepare phase hands on: everything the execution engine and the
/// copy-out phase need.
#[derive(Debug)]
pub struct StagedInvoke {
    /// The nested instruction's program id.
    pub program_id: Vec<u8>,
    /// The nested instruction's opaque data, for the engine.
    pub data: Vec<u8>,
    /// The expanded, ordered instruction-account list.
    pub instruction_accounts: Vec<InstructionAccount>,
    /// Positions of the programs that will run, in execution order.
    pub program_indices: Vec<usize>,
    /// The writable (position in caller's list, guest view index) pairs, in
    /// recorded order, for the copy-out phase.
    pub recorded: Vec<(usize, usize)>,
}

/// The log collector after the invocation record: appended when a collector
/// is attached, still absent otherwise.
pub open spec fn invoke_logged(
    before: Option<Vec<LogEntry>>,
    after: Option<Vec<LogEntry>>,
    program_id: Seq<u8>,
    depth: int,
) -> bool {
    match before {
        Option::None => after is None,
        Option::Some(l) => after matches Option::Some(l2) && l2@.len() == l@.len() + 1
            && l2@.drop_last() == l@ && (l2@.last() matches LogEntry::Invoke(p, d) && p@
            == program_id && d == depth),
    }
}

/// The log collector after the success record.
pub open spec fn success_logged(
    before: Option<Vec<LogEntry>>,
    after: Option<Vec<LogEntry>>,
    program_id: Seq<u8>,
) -> bool {
    match before {
        Option::None => after is None,
        Option::Some(l) => after matches Option::Some(l2) && l2@.len() == l@.len() + 1
            && l2@.drop_last() == l@ && (l2@.last() matches LogEntry::Success(p) && p@
            == program_id),
    }
}

/// Everything of a nested invocation up to the execution engine: derive the
/// signer set under the calling program's id, stage the instruction, copy
/// guest account state into the host, and log the invocation at the current
/// stack depth. The surrounding runtime then runs the engine and hands its
/// result to [`invoke_finish`].
pub fn invoke_prepare(
    ctx: &mut HostContext,
    ix: &Instruction,
    guests: &Vec<GuestAccount>,
    signer_seed_sets: &Vec<Vec<Vec<u8>>>,
) -> (r: Result<StagedInvoke, InvokeFailure>)
    requires
        old(ctx).wf(),
    ensures
        final (ctx).wf(),
        final (ctx).keys == old(ctx).keys,
        final (ctx).caller_accounts == old(ctx).caller_accounts,
        final (ctx).stack == old(ctx).stack,
        final (ctx).sysvars == old(ctx).sysvars,
        final (ctx).return_data_program == old(ctx).return_data_program,
        final (ctx).return_data == old(ctx).return_data,
        (match r {
            Result::Ok(st) => forall|k: int|
                0 <= k < st.recorded@.len() ==> (#[trigger] st.recorded@[k]).1 < guests@.len(),
            Result::Err(f) => true,
        }),
        ({
            let unchanged = final (ctx).accounts == old(ctx).accounts
                && final (ctx).log == old(ctx).log;
            if old(ctx).stack@.len() == 0 {
                r matches Result::Err(f) && f == spec_fail(HostError::CallDepth) && unchanged
            } else {
                let caller_key = old(ctx).stack@.last()@;
                match spec_derive_signers(
                    signer_seed_sets.deep_view(),
                    caller_key,
                    signer_seed_sets@.len() as int,
                ) {
                    Option::None => r matches Result::Err(f) && f
                        == InvokeFailure::SignerDerivation && unchanged,
                    Option::Some(signers) => match spec_prepare_instruction(
                        old(ctx).caller_accounts@,
                        old(ctx).keys.deep_view(),
                        signers,
                        ix.deep_view(),
                    ) {
                        Result::Err(e) => r matches Result::Err(f) && f == spec_fail(e)
                            && unchanged,
                        Result::Ok(expanded) => {
                            let (accs, rec, fail) = spec_copy_in(
                                old(ctx).accounts.deep_view(),
                                old(ctx).caller_accounts@,
                                old(ctx).keys.deep_view(),
                                guests.deep_view(),
                                expanded.0,
                                expanded.0.len() as int,
                            );
                            final (ctx).accounts.deep_view() == accs && (match fail {
                                Option::Some(f2) => r matches Result::Err(f) && f == f2
                                    && final (ctx).log == old(ctx).log,
                                Option::None => r matches Result::Ok(st)
                                    && st.instruction_accounts@ == expanded.0
                                    && st.program_indices@ == expanded.1 && st.recorded@ == rec
                                    && st.program_id@ == ix.program_id@ && st.data@ == ix.data@
                                    && invoke_logged(
                                    old(ctx).log,
                                    final (ctx).log,
                                    ix.program_id@,
                                    old(ctx).stack@.len() as int,
                                ),
                            })
                        },
                    },
                }
            }
        }),
{
    if ctx.stack.len() == 0 {
        return Result::Err(fail_of(HostError::CallDepth));
    }
    let stack_len = ctx.stack.len();
    let caller_key = copy_bytes(&ctx.stack[stack_len - 1]);
    let signers = match derive_signers(signer_seed_sets, &caller_key) {
        Result::Err(f) => {
            return Result::Err(f);
        },
        Result::Ok(ks) => ks,
    };
    let (instruction_accounts, program_indices) = match prepare_instruction(ctx, ix, &signers) {
        Result::Err(e) => {
            return Result::Err(fail_of(e));
        },
        Result::Ok(out) => out,
    };
    let recorded = match copy_in(ctx, &instruction_accounts, guests) {
        Result::Err(f) => {
            return Result::Err(f);
        },
        Result::Ok(pairs) => pairs,
    };
    let program_id = copy_bytes(&ix.program_id);
    let height = ctx.get_stack_height();
    ctx.log_entry(LogEntry::Invoke(program_id, height));
    proof {
        match old(ctx).log {
            Option::Some(l) => {
                assert(final (ctx).log matches Option::Some(l2) && l2@.drop_last() =~= l@);
            },
            Option::None => {},
        }
    }
    Result::Ok(
        StagedInvoke {
            program_id: copy_bytes(&ix.program_id),
            data: copy_bytes(&ix.data),
            instruction_accounts,
            program_indices,
            recorded,
        },
    )
}

/// Everything of a nested invocation after the execution engine: translate
/// an engine failure for the guest, or copy host account modifications back
/// into the guest's views for every recorded writable pair and log success.
pub fn invoke_finish(
    ctx: &mut HostContext,
    staged: StagedInvoke,
    engine_result: Result<(), HostError>,
    guests: &mut Vec<GuestAccount>,
) -> (r: Result<(), InvokeFailure>)
    requires
        old(ctx).wf(),
        forall|k: int|
            0 <= k < staged.recorded@.len() ==> (#[trigger] staged.recorded@[k]).1 < old(
                guests,
            )@.len(),
    ensures
        final (ctx).wf(),
        final (ctx).accounts == old(ctx).accounts,
        final (ctx).keys == old(ctx).keys,
        final (ctx).caller_accounts == old(ctx).caller_accounts,
        final (ctx).stack == old(ctx).stack,
        final (ctx).sysvars == old(ctx).sysvars,
        final (ctx).return_data_program == old(ctx).return_data_program,
        final (ctx).return_data == old(ctx).return_data,
        final (guests)@.len() == old(guests)@.len(),
        (match engine_result {
            Result::Err(e) => r matches Result::Err(f) && f == spec_fail(e) && *final (guests)
                == *old(guests) && final (ctx).log == old(ctx).log,
            Result::Ok(u) => ({
                let (gs, fail) = spec_copy_out(
                    old(ctx).accounts.deep_view(),
                    old(ctx).caller_accounts@,
                    old(guests).deep_view(),
                    staged.recorded@,
                    staged.recorded@.len() as int,
                );
                final (guests).deep_view() == gs && (match fail {
                    Option::Some(f2) => r matches Result::Err(f) && f == f2 && final (ctx).log
                        == old(ctx).log,
                    Option::None => r is Ok && success_logged(
                        old(ctx).log,
                        final (ctx).log,
                        staged.program_id@,
                    ),
                })
            }),
        }),
{
    match engine_result {
        Result::Err(e) => {
            return Result::Err(fail_of(e));
        },
        Result::Ok(u) => {},
    }
    match copy_out(ctx, &staged.recorded, guests) {
        Result::Err(f) => {
            return Result::Err(f);
        },
        Result::Ok(u) => {},
    }
    ctx.log_entry(LogEntry::Success(staged.program_id));
    proof {
        match old(ctx).log {
            Option::Some(l) => {
                assert(final (ctx).log matches Option::Some(l2) && l2@.drop_last() =~= l@);
            },
            Option::None => {},
        }
    }
    Result::Ok(())
}

} // verus!

verus! {

/// Staging is positionally parallel to the instruction's account
/// references and preserves each reference's privileges.
pub proof fn lemma_stage_preserves_flags(
    caller: Seq<CallerAccountRef>,
    keys: Seq<Seq<u8>>,
    signers: Seq<Seq<u8>>,
    metas: Seq<AccountMetaModel>,
    n: int,
)
    requires
        0 <= n <= metas.len(),
        spec_stage_accounts(caller, keys, signers, metas, n) is Ok,
    ensures
        ({
            let s = spec_stage_accounts(caller, keys, signers, metas, n).unwrap();
            s.len() == n && forall|k: int|
                0 <= k < n ==> (#[trigger] s[k]).is_writable == metas[k].is_writable
                    && s[k].is_signer == metas[k].is_signer
        }),
    decreases n,
{
    if n > 0 {
        lemma_stage_preserves_flags(caller, keys, signers, metas, n - 1);
    }
}

/// Round-trip: when none of the nested instruction's account references is
/// writable, the copy-in phase of a successfully staged invocation records
/// nothing, so the copy-out phase leaves every guest account view unchanged.
pub proof fn lemma_readonly_instruction_round_trip(
    accounts: Seq<AccountModel>,
    caller: Seq<CallerAccountRef>,
    keys: Seq<Seq<u8>>,
    signers: Seq<Seq<u8>>,
    guests: Seq<GuestModel>,
    ix: InstructionModel,
)
    requires
        spec_prepare_instruction(caller, keys, signers, ix) is Ok,
        forall|k: int| 0 <= k < ix.accounts.len() ==> !(#[trigger] ix.accounts[k]).is_writable,
    ensures
        ({
            let expanded = spec_prepare_instruction(caller, keys, signers, ix).unwrap();
            let (accs, rec, fail) = spec_copy_in(
                accounts,
                caller,
                keys,
                guests,
                expanded.0,
                expanded.0.len() as int,
            );
            rec == Seq::<(usize, usize)>::empty()
        }),
        spec_copy_out(accounts, caller, guests, Seq::<(usize, usize)>::empty(), 0) == (
            guests,
            Option::<InvokeFailure>::None,
        ),
{
    let n = ix.accounts.len() as int;
    lemma_stage_preserves_flags(caller, keys, signers, ix.accounts, n);
    let expanded = spec_prepare_instruction(caller, keys, signers, ix).unwrap();
    assert(expanded.0 == spec_stage_accounts(caller, keys, signers, ix.accounts, n).unwrap());
    lemma_readonly_round_trip(accounts, caller, keys, guests, expanded.0, expanded.0.len() as int);
}

} // verus!

verus! {

/// The log collector after a whole successful invocation cycle: the
/// invocation record and then the success record appended, when a collector
/// is attached.
pub open spec fn cycle_logged(
    before: Option<Vec<LogEntry>>,
    after: Option<Vec<LogEntry>>,
    program_id: Seq<u8>,
    depth: int,
) -> bool {
    match before {
        Option::None => after is None,
        Option::Some(l) => after matches Option::Some(l2) && l2@.len() == l@.len() + 2
            && l2@.subrange(0, l@.len() as int) == l@ && (l2@[l@.len() as int] matches
        LogEntry::Invoke(p, d) && p@ == program_id && d == depth) && (l2@.last() matches
        LogEntry::Success(p2) && p2@ == program_id),
    }
}

} // verus!
