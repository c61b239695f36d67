//! The sysvar accessor: fetch a named host system variable from the host's
//! sysvar cache and copy it into a guest-provided buffer.
//!
//! This call family reports through status codes, never through errors: a
//! cache miss downgrades to [`UNSUPPORTED_SYSVAR`] and leaves the destination
//! buffer untouched.

use vstd::prelude::*;

verus! {

/// Status code reported to the guest on a successful sysvar fetch.
pub const SUCCESS: u64 = 0;

/// Status code reported to the guest when the requested sysvar is absent
/// from the cache (the guest ABI's builtin "unsupported sysvar" code,
/// seventeen shifted into the upper half of the word).
pub const UNSUPPORTED_SYSVAR: u64 = 0x11_0000_0000;

/// The sysvar kinds the accessor supports.
#[derive(Clone, Copy, PartialEq, Eq, Structural)]
pub enum SysvarKind {
    Rent,
    Clock,
    EpochSchedule,
    EpochRewards,
    Fees,
    LastRestartSlot,
}

/// The host's sysvar cache: per kind, either the current serialized value or
/// nothing. Population of the cache belongs to the host, not to this layer.
pub struct SysvarCache {
    pub rent: Option<Vec<u8>>,
    pub clock: Option<Vec<u8>>,
    pub epoch_schedule: Option<Vec<u8>>,
    pub epoch_rewards: Option<Vec<u8>>,
    pub fees: Option<Vec<u8>>,
    pub last_restart_slot: Option<Vec<u8>>,
}

/// The bytes held in one cache slot, if any.
pub open spec fn slot_view(o: Option<Vec<u8>>) -> Option<Seq<u8>> {
    match o {
        Option::None => Option::None,
        Option::Some(v) => Option::Some(v@),
    }
}

impl SysvarCache {
    /// The cached value of the given kind, if any.
    pub open spec fn spec_get(self, kind: SysvarKind) -> Option<Seq<u8>> {
        match kind {
            SysvarKind::Rent => slot_view(self.rent),
            SysvarKind::Clock => slot_view(self.clock),
            SysvarKind::EpochSchedule => slot_view(self.epoch_schedule),
            SysvarKind::EpochRewards => slot_view(self.epoch_rewards),
            SysvarKind::Fees => slot_view(self.fees),
            SysvarKind::LastRestartSlot => slot_view(self.last_restart_slot),
        }
    }

    /// A cache with every slot empty.
    pub fn new() -> (c: SysvarCache)
        ensures
            forall|kind: SysvarKind| c.spec_get(kind) is None,
    {
        SysvarCache {
            rent: Option::None,
            clock: Option::None,
            epoch_schedule: Option::None,
            epoch_rewards: Option::None,
            fees: Option::None,
            last_restart_slot: Option::None,
        }
    }
}

/// Fetch the sysvar of the given kind. On a hit, the destination buffer
/// becomes a value-copy of the cached bytes and the status is [`SUCCESS`];
/// on a miss, the buffer is left exactly as it was and the status is
/// [`UNSUPPORTED_SYSVAR`]. This never fails loudly: the guest ABI has no
/// error channel for this call family.
pub fn get_sysvar(cache: &SysvarCache, kind: SysvarKind, var_buf: &mut Vec<u8>) -> (status: u64)
    ensures
        (match cache.spec_get(kind) {
            Option::Some(v) => status == SUCCESS && final(var_buf)@ == v,
            Option::None => status == UNSUPPORTED_SYSVAR && final(var_buf)@ == old(var_buf)@,
        }),
{
    let slot: &Option<Vec<u8>> = match kind {
        SysvarKind::Rent => &cache.rent,
        SysvarKind::Clock => &cache.clock,
        SysvarKind::EpochSchedule => &cache.epoch_schedule,
        SysvarKind::EpochRewards => &cache.epoch_rewards,
        SysvarKind::Fees => &cache.fees,
        SysvarKind::LastRestartSlot => &cache.last_restart_slot,
    };
    match slot {
        Option::Some(value) => {
            var_buf.clear();
            let n = value.len();
            let mut i: usize = 0;
            while i < n
                invariant
                    n == value@.len(),
                    0 <= i <= n,
                    var_buf@ == value@.subrange(0, i as int),
                decreases n - i,
            {
                var_buf.push(value[i]);
                proof {
                    assert(var_buf@ =~= value@.subrange(0, i + 1 as int));
                }
                i += 1;
            }
            proof {
                assert(value@.subrange(0, n as int) =~= value@);
            }
            SUCCESS
        },
        Option::None => UNSUPPORTED_SYSVAR,
    }
}

} // verus!
