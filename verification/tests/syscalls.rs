use trident_syscall_stubs::context::{HostContext, LogEntry};
use trident_syscall_stubs::registry::{set_stubs_v1, StubRegistry};
use trident_syscall_stubs::stubs::TridentSyscallStubs;
use trident_syscall_stubs::sysvar::{SysvarCache, SUCCESS, UNSUPPORTED_SYSVAR};

fn key(tag: u8) -> Vec<u8> {
    let mut k = vec![0u8; 32];
    k[31] = tag;
    k
}

fn empty_context() -> HostContext {
    HostContext {
        accounts: Vec::new(),
        keys: Vec::new(),
        caller_accounts: Vec::new(),
        stack: Vec::new(),
        sysvars: SysvarCache::new(),
        return_data_program: vec![0u8; 32],
        return_data: Vec::new(),
        log: Some(Vec::new()),
    }
}

#[test]
fn install_is_idempotent() {
    let mut registry = StubRegistry::new();
    assert!(registry.handler.is_none());
    set_stubs_v1(&mut registry);
    assert!(registry.handler.is_some());
    let first = registry.handler;
    for _ in 0..10 {
        set_stubs_v1(&mut registry);
        assert_eq!(registry.handler, first);
    }
}

#[test]
fn sysvar_miss_leaves_buffer_untouched() {
    let ctx = empty_context();
    let stubs = TridentSyscallStubs;
    let mut buf = vec![9u8, 9, 9];
    let status = stubs.sol_get_clock_sysvar(&ctx, &mut buf);
    assert_eq!(status, UNSUPPORTED_SYSVAR);
    assert_eq!(buf, vec![9u8, 9, 9]);
}

#[test]
fn sysvar_hit_copies_value() {
    let mut ctx = empty_context();
    ctx.sysvars.rent = Some(vec![1, 2, 3, 4]);
    let stubs = TridentSyscallStubs;
    let mut buf = vec![0u8; 4];
    let status = stubs.sol_get_rent_sysvar(&ctx, &mut buf);
    assert_eq!(status, SUCCESS);
    assert_eq!(buf, vec![1, 2, 3, 4]);
}

#[test]
fn every_sysvar_kind_reachable() {
    let mut ctx = empty_context();
    ctx.sysvars.rent = Some(vec![1]);
    ctx.sysvars.clock = Some(vec![2]);
    ctx.sysvars.epoch_schedule = Some(vec![3]);
    ctx.sysvars.epoch_rewards = Some(vec![4]);
    ctx.sysvars.fees = Some(vec![5]);
    ctx.sysvars.last_restart_slot = Some(vec![6]);
    let stubs = TridentSyscallStubs;
    let mut buf = Vec::new();
    assert_eq!(stubs.sol_get_rent_sysvar(&ctx, &mut buf), SUCCESS);
    assert_eq!(buf, vec![1]);
    assert_eq!(stubs.sol_get_clock_sysvar(&ctx, &mut buf), SUCCESS);
    assert_eq!(buf, vec![2]);
    assert_eq!(stubs.sol_get_epoch_schedule_sysvar(&ctx, &mut buf), SUCCESS);
    assert_eq!(buf, vec![3]);
    assert_eq!(stubs.sol_get_epoch_rewards_sysvar(&ctx, &mut buf), SUCCESS);
    assert_eq!(buf, vec![4]);
    assert_eq!(stubs.sol_get_fees_sysvar(&ctx, &mut buf), SUCCESS);
    assert_eq!(buf, vec![5]);
    assert_eq!(stubs.sol_get_last_restart_slot(&ctx, &mut buf), SUCCESS);
    assert_eq!(buf, vec![6]);
}

#[test]
fn unsupported_sysvar_code_is_builtin_seventeen() {
    assert_eq!(UNSUPPORTED_SYSVAR, 17u64 << 32);
    assert_eq!(SUCCESS, 0);
}

#[test]
fn return_data_round_trip() {
    let mut ctx = empty_context();
    let program = key(9);
    ctx.stack.push(program.clone());
    let stubs = TridentSyscallStubs;
    stubs.sol_set_return_data(&mut ctx, vec![1, 2, 3]);
    let (producer, data) = stubs.sol_get_return_data(&ctx).unwrap();
    assert_eq!(producer, program);
    assert_eq!(data, vec![1, 2, 3]);
    stubs.sol_set_return_data(&mut ctx, Vec::new());
    let (producer2, data2) = stubs.sol_get_return_data(&ctx).unwrap();
    assert_eq!(producer2, program);
    assert_eq!(data2, Vec::<u8>::new());
}

#[test]
fn return_data_initially_empty() {
    let ctx = empty_context();
    let stubs = TridentSyscallStubs;
    let (producer, data) = stubs.sol_get_return_data(&ctx).unwrap();
    assert_eq!(producer, vec![0u8; 32]);
    assert!(data.is_empty());
}

#[test]
fn log_relay_appends_verbatim() {
    let mut ctx = empty_context();
    let stubs = TridentSyscallStubs;
    stubs.sol_log(&mut ctx, String::from("hello"));
    stubs.sol_log(&mut ctx, String::from("world"));
    assert_eq!(
        ctx.log,
        Some(vec![
            LogEntry::Message(String::from("hello")),
            LogEntry::Message(String::from("world")),
        ])
    );
}

#[test]
fn log_relay_without_collector_is_noop() {
    let mut ctx = empty_context();
    ctx.log = None;
    let stubs = TridentSyscallStubs;
    stubs.sol_log(&mut ctx, String::from("dropped"));
    assert_eq!(ctx.log, None);
}

#[test]
fn stack_height_is_observational() {
    let mut ctx = empty_context();
    let stubs = TridentSyscallStubs;
    assert_eq!(stubs.sol_get_stack_height(&ctx), 0);
    ctx.stack.push(key(1));
    ctx.stack.push(key(2));
    assert_eq!(stubs.sol_get_stack_height(&ctx), 2);
}
