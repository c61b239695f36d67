//! The stub registry: process-wide, install-once state for the syscall
//! handler.
//!
//! The registry's lifecycle is "install once, live for the process": exactly
//! one installation ever takes effect, later install attempts are no-ops and
//! never a replacement, and no uninstall operation exists. The surrounding
//! runtime holds one registry value for the whole process behind its own
//! exactly-once initialization barrier; this module carries the state and
//! the idempotence argument.

use vstd::prelude::*;
use crate::stubs::TridentSyscallStubs;

verus! {

/// Process-scoped registration state for the syscall handler.
pub struct StubRegistry {
    /// The installed handler, absent until the first install.
    pub handler: Option<TridentSyscallStubs>,
}

impl StubRegistry {
    /// A handler is installed.
    pub open spec fn installed(self) -> bool {
        self.handler is Some
    }

    /// The registry before any installation.
    pub fn new() -> (r: StubRegistry)
        ensures
            !r.installed(),
    {
        StubRegistry { handler: Option::None }
    }
}

/// What one install attempt does to the registry: the first installs the
/// handler, every later one changes nothing.
pub open spec fn spec_install(s: StubRegistry) -> StubRegistry {
    if s.handler is Some {
        s
    } else {
        StubRegistry { handler: Option::Some(TridentSyscallStubs {  }) }
    }
}

/// The registry after `n` install attempts.
pub open spec fn spec_install_n(s: StubRegistry, n: nat) -> StubRegistry
    decreases n,
{
    if n == 0 {
        s
    } else {
        spec_install(spec_install_n(s, (n - 1) as nat))
    }
}

/// Install the syscall handler. Idempotent: the first call installs, every
/// later call is a no-op, never a replacement.
pub fn set_stubs_v1(registry: &mut StubRegistry)
    ensures
        *final (registry) == spec_install(*old(registry)),
        final (registry).installed(),
{
    if registry.handler.is_none() {
        registry.handler = Option::Some(TridentSyscallStubs {  });
    }
}

/// Idempotence: installing any number of times yields exactly the state of
/// one installation, and after the first successful install the registry is
/// invariant under further install attempts.
pub proof fn lemma_install_idempotent(s: StubRegistry, n: nat)
    requires
        n >= 1,
    ensures
        spec_install_n(s, n) == spec_install(s),
        spec_install(s).installed(),
        s.installed() ==> spec_install(s) == s,
    decreases n,
{
    if n > 1 {
        lemma_install_idempotent(s, (n - 1) as nat);
        assert(spec_install(s).handler is Some);
        assert(spec_install(spec_install(s)) == spec_install(s));
        assert(spec_install_n(s, n) == spec_install(spec_install_n(s, (n - 1) as nat)));
    }
}

} // verus!
