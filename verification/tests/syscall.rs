use lib::endpoint::EndpointTable;
use lib::syscall::{
    check_write_payload, kernel_buffer_range_ok, sys_write_step, user_range_valid, Kernel, SyscallAction,
    SyscallTable, WriteStep, WRITE_CHUNK_SIZE,
};
use lib::syscall_abi::{
    abi_info_word, endpoint_recv_unpack, Errno, SYS_ABI_INFO, SYS_ENDPOINT_CALL, SYS_ENDPOINT_CREATE,
    SYS_ENDPOINT_DESTROY, SYS_ENDPOINT_RECV, SYS_ENDPOINT_REPLY, SYS_EXIT, SYS_GETPID, SYS_READ, SYS_SLEEP,
    SYS_WRITE, SYS_YIELD,
};
use lib::task::TaskTable;

const STACKS: u64 = 0x4008_0000;

fn kernel() -> Kernel {
    let mut tasks = TaskTable::new();
    tasks.init();
    let mut endpoints = EndpointTable::new();
    endpoints.init();
    let mut syscalls = SyscallTable::new();
    syscalls.init();
    Kernel { tasks, endpoints, syscalls }
}

fn ret(a: SyscallAction) -> u64 {
    match a {
        SyscallAction::Return(w) => w,
        other => panic!("expected a return word, got {:?}", other),
    }
}

#[test]
fn buffer_range_checks() {
    assert!(kernel_buffer_range_ok(0, 0));
    assert!(kernel_buffer_range_ok(0x4000_0000, 16));
    assert!(kernel_buffer_range_ok(0x47FF_FFF0, 16));
    assert!(!kernel_buffer_range_ok(0x47FF_FFF0, 17));
    assert!(!kernel_buffer_range_ok(0x3FFF_FFFF, 1));
    assert!(!kernel_buffer_range_ok(usize::MAX, 2));
    assert!(user_range_valid(0x1000, 16));
    assert!(!user_range_valid(0xdead_beef, 8));
    assert_eq!(check_write_payload(0xdead_beef, 8, false), Err(Errno::EFAULT));
    assert_eq!(check_write_payload(0xdead_beef, 0, false), Ok(()));
    assert_eq!(check_write_payload(0x7000, 8, true), Ok(()));
}

#[test]
fn write_steps_through_chunks() {
    let len = 600u64;
    let buf = 0x4000_1000u64;
    assert_eq!(
        sys_write_step(1, buf, len, 0, false),
        WriteStep::Copy { src: 0x4000_1000, len: WRITE_CHUNK_SIZE }
    );
    assert_eq!(
        sys_write_step(1, buf, len, 512, false),
        WriteStep::Copy { src: 0x4000_1200, len: 88 }
    );
    assert_eq!(sys_write_step(1, buf, len, 600, false), WriteStep::Done(600));
}

#[test]
fn write_outside_the_window_faults_before_copying() {
    // Page 0 is no user window: the first step already answers EFAULT.
    assert_eq!(sys_write_step(1, 0x10, 300, 0, true), WriteStep::Done(Errno::EFAULT.as_u64()));
    // A kernel buffer below RAM: nothing is copied either.
    assert_eq!(sys_write_step(1, 0x3FFF_FF00, 300, 0, false), WriteStep::Done(Errno::EFAULT.as_u64()));
}

#[test]
fn syscall_table_init_is_idempotent() {
    let mut table = SyscallTable::new();
    table.init();
    table.init();
    assert!(table.lookup(SYS_WRITE).is_some());
    assert!(table.lookup(SYS_ABI_INFO).is_some());
    assert_eq!(table.lookup(SYS_ABI_INFO + 1), None);
    assert_eq!(table.lookup(63), None);
    assert_eq!(table.lookup(64), None);
}

#[test]
fn write_errors() {
    assert_eq!(sys_write_step(2, 0x4000_0000, 4, 0, false), WriteStep::Done(Errno::EBADF.as_u64()));
    assert_eq!(sys_write_step(1, 0, 4, 0, false), WriteStep::Done(Errno::EINVAL.as_u64()));
    assert_eq!(sys_write_step(1, 0x4000_0000, 0, 0, false), WriteStep::Done(Errno::EINVAL.as_u64()));
    assert_eq!(sys_write_step(1, 0xdead_beef, 8, 0, false), WriteStep::Done(Errno::EFAULT.as_u64()));
    // A user task may not name kernel RAM.
    assert_eq!(sys_write_step(1, 0x4000_0000, 8, 0, true), WriteStep::Done(Errno::EFAULT.as_u64()));
}

#[test]
fn user_write_inside_the_code_window_writes_everything() {
    let mut copied = 0usize;
    loop {
        match sys_write_step(1, 0x1000, 16, copied, true) {
            WriteStep::Copy { src, len } => {
                assert_eq!(src, 0x1000 + copied);
                copied += len;
            }
            WriteStep::Done(w) => {
                assert_eq!(w, 16);
                break;
            }
        }
    }
    assert_eq!(copied, 16);
}

#[test]
fn dispatch_simple_syscalls() {
    let mut k = kernel();
    assert_eq!(ret(k.dispatch(SYS_GETPID, 0, 0, 0, 0, 0, 0)), 0);
    assert_eq!(ret(k.dispatch(SYS_ABI_INFO, 0, 0, 0, 0, 0, 0)), abi_info_word());
    assert_eq!(ret(k.dispatch(SYS_READ, 0, 0, 0, 0, 0, 0)), Errno::ENOSYS.as_u64());
    assert_eq!(ret(k.dispatch(12, 0, 0, 0, 0, 0, 0)), Errno::ENOSYS.as_u64());
    assert_eq!(ret(k.dispatch(1000, 0, 0, 0, 0, 0, 0)), Errno::ENOSYS.as_u64());
    assert_eq!(k.dispatch(SYS_SLEEP, 50, 0, 0, 0, 0, 0), SyscallAction::Sleep(50));
    assert_eq!(k.dispatch(SYS_EXIT, 3, 0, 0, 0, 0, 0), SyscallAction::Exit(3));
    assert_eq!(
        k.dispatch(SYS_WRITE, 1, 0x1000, 16, 0, 0, 0),
        SyscallAction::Write { fd: 1, buf: 0x1000, len: 16 }
    );
    assert_eq!(ret(k.dispatch(SYS_YIELD, 0, 0, 0, 0, 0, 0)), 0);
}

#[test]
fn dispatch_yield_switches_tasks() {
    let mut k = kernel();
    k.tasks.create(STACKS, 1).unwrap();
    assert_eq!(k.dispatch(SYS_YIELD, 0, 0, 0, 0, 0, 0), SyscallAction::Switch { from: 0, to: 1 });
    assert_eq!(ret(k.dispatch(SYS_GETPID, 0, 0, 0, 0, 0, 0)), 1);
}

#[test]
fn endpoint_round_trip_through_syscalls() {
    let mut k = kernel();
    k.tasks.create(STACKS, 1).unwrap(); // server, task 1
    k.tasks.create(STACKS, 1).unwrap(); // client, task 2
    // Task 1 creates an endpoint and waits for a request.
    assert_eq!(k.dispatch(SYS_YIELD, 0, 0, 0, 0, 0, 0), SyscallAction::Switch { from: 0, to: 1 });
    let ep = ret(k.dispatch(SYS_ENDPOINT_CREATE, 0, 0, 0, 0, 0, 0));
    assert_eq!(ep, 0);
    assert_eq!(k.dispatch(SYS_ENDPOINT_RECV, ep, 0, 0, 0, 0, 0), SyscallAction::BlockForMessage(ep));
    // Task 2 calls with request 42.
    assert_eq!(k.dispatch(SYS_YIELD, 0, 0, 0, 0, 0, 0), SyscallAction::Switch { from: 1, to: 2 });
    assert_eq!(k.dispatch(SYS_ENDPOINT_CALL, ep, 42, 0, 0, 0, 0), SyscallAction::BlockForReply);
    assert_eq!(k.endpoints.take_wake(), Some(lib::task::TaskId(1)));
    // Task 1 resumes and receives, then replies 43.
    assert_eq!(k.dispatch(SYS_YIELD, 0, 0, 0, 0, 0, 0), SyscallAction::Switch { from: 2, to: 0 });
    assert_eq!(k.dispatch(SYS_YIELD, 0, 0, 0, 0, 0, 0), SyscallAction::Switch { from: 0, to: 1 });
    let packed = k.finish_recv(ep);
    assert_eq!(endpoint_recv_unpack(packed), (2, 42));
    assert_eq!(ret(k.dispatch(SYS_ENDPOINT_REPLY, ep, 2, 43, 0, 0, 0)), 0);
    // A second recv finds nothing pending.
    assert_eq!(k.finish_recv(ep), Errno::EAGAIN.as_u64());
    // Task 2 resumes with the reply.
    assert_eq!(k.dispatch(SYS_YIELD, 0, 0, 0, 0, 0, 0), SyscallAction::Switch { from: 1, to: 2 });
    assert_eq!(k.finish_call(), 43);
    // Only the owner may destroy it.
    assert_eq!(ret(k.dispatch(SYS_ENDPOINT_DESTROY, ep, 0, 0, 0, 0, 0)), Errno::EPERM.as_u64());
}

#[test]
fn endpoint_create_runs_out() {
    let mut k = kernel();
    for i in 0..16u64 {
        assert_eq!(ret(k.dispatch(SYS_ENDPOINT_CREATE, 0, 0, 0, 0, 0, 0)), i);
    }
    assert_eq!(ret(k.dispatch(SYS_ENDPOINT_CREATE, 0, 0, 0, 0, 0, 0)), Errno::ENOMEM.as_u64());
    assert_eq!(ret(k.dispatch(SYS_ENDPOINT_DESTROY, 3, 0, 0, 0, 0, 0)), 0);
    assert_eq!(ret(k.dispatch(SYS_ENDPOINT_CREATE, 0, 0, 0, 0, 0, 0)), 3);
}
