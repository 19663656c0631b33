use lib::endpoint::{CallResult, EndpointTable, RecvResult, MAX_ENDPOINTS};
use lib::syscall_abi::Errno;
use lib::task::TaskId;

fn fresh_table() -> EndpointTable {
    let mut t = EndpointTable::new();
    t.init();
    t
}

fn unwrap_message(r: RecvResult) -> u64 {
    match r {
        RecvResult::Message(v) => v,
        RecvResult::Blocked => panic!("expected Message, got Blocked"),
    }
}

#[test]
fn create_allocates_until_full() {
    let mut t = fresh_table();
    for i in 0..MAX_ENDPOINTS {
        assert_eq!(t.create_with_owner(TaskId(1)), Some(i as u16));
    }
    assert_eq!(t.create_with_owner(TaskId(1)), None);
}

#[test]
fn destroy_rejects_invalid_and_missing_endpoint() {
    let mut t = fresh_table();
    assert_eq!(
        t.destroy_with_caller(MAX_ENDPOINTS as u64, TaskId(1)),
        Err(Errno::EINVAL)
    );
    assert_eq!(t.destroy_with_caller(0, TaskId(1)), Err(Errno::ENOENT));
}

#[test]
fn destroy_checks_owner_permission() {
    let mut t = fresh_table();
    let id = t.create_with_owner(TaskId(7)).unwrap();
    assert_eq!(t.destroy_with_caller(id as u64, TaskId(8)), Err(Errno::EPERM));
    assert_eq!(t.destroy_with_caller(id as u64, TaskId(7)), Ok(()));
    assert_eq!(
        t.destroy_with_caller(id as u64, TaskId(7)),
        Err(Errno::ENOENT)
    );
}

#[test]
fn call_blocks_and_recv_unblocks() {
    let mut t = fresh_table();
    let endpoint = t.create_with_owner(TaskId(1)).unwrap();

    assert!(matches!(
        t.call_with_caller(endpoint as u64, 0x1234, TaskId(2)),
        CallResult::Blocked
    ));
    assert!(t.is_caller_blocked(2));
    assert!(t.endpoint(endpoint as usize).has_pending_call);

    let packed = unwrap_message(t.recv_with_caller(endpoint as u64, TaskId(1)));
    assert_eq!(packed >> 32, 2);
    assert_eq!(packed & 0xFFFF_FFFF, 0x1234);
    assert!(!t.endpoint(endpoint as usize).has_pending_call);

    assert_eq!(
        t.reply_with_caller(endpoint as u64, 2, 0x5678, TaskId(1)),
        Ok(())
    );
    assert!(!t.is_caller_blocked(2));
    assert_eq!(t.take_reply_value(2), 0x5678);
}

#[test]
fn recv_blocks_when_no_pending_call() {
    let mut t = fresh_table();
    let endpoint = t.create_with_owner(TaskId(1)).unwrap();

    let result = t.recv_with_caller(endpoint as u64, TaskId(1));
    match result {
        RecvResult::Blocked => {}
        RecvResult::Message(v) => panic!("expected Blocked, got Message({:#x})", v),
    }
    assert_eq!(t.endpoint(endpoint as usize).blocked_receiver, TaskId(1));
}

#[test]
fn recv_gets_message_when_call_pending() {
    let mut t = fresh_table();
    let endpoint = t.create_with_owner(TaskId(1)).unwrap();

    // The pending request is posted through the table's own `call`.
    assert!(matches!(
        t.call_with_caller(endpoint as u64, 0xABCD, TaskId(2)),
        CallResult::Blocked
    ));
    let ep = t.endpoint(endpoint as usize);
    assert!(ep.has_pending_call);
    assert_eq!(ep.pending_client, TaskId(2));
    assert_eq!(ep.pending_msg, 0xABCD);

    let packed = unwrap_message(t.recv_with_caller(endpoint as u64, TaskId(1)));
    assert_eq!(packed >> 32, 2);
    assert_eq!(packed & 0xFFFF_FFFF, 0xABCD);
}

#[test]
fn call_masks_request_to_low_32_bits() {
    let mut t = fresh_table();
    let endpoint = t.create_with_owner(TaskId(1)).unwrap();
    assert!(matches!(
        t.call_with_caller(endpoint as u64, 0x1_0000_0042, TaskId(2)),
        CallResult::Blocked
    ));
    let packed = unwrap_message(t.recv_with_caller(endpoint as u64, TaskId(1)));
    assert_eq!(packed & 0xFFFF_FFFF, 0x42);
}

#[test]
fn recv_before_call_wakes_the_receiver() {
    let mut t = fresh_table();
    let endpoint = t.create_with_owner(TaskId(1)).unwrap();
    assert_eq!(t.recv_with_caller(endpoint as u64, TaskId(1)), RecvResult::Blocked);
    assert_eq!(t.take_wake(), None);
    assert_eq!(
        t.call_with_caller(endpoint as u64, 7, TaskId(3)),
        CallResult::Blocked
    );
    assert_eq!(t.take_wake(), Some(TaskId(1)));
    // The receiver, once woken, finds the request.
    let packed = unwrap_message(t.recv_with_caller(endpoint as u64, TaskId(1)));
    assert_eq!(packed, (3u64 << 32) | 7);
}

#[test]
fn call_and_recv_error_words() {
    let mut t = fresh_table();
    let endpoint = t.create_with_owner(TaskId(1)).unwrap();
    // Unknown endpoint id.
    assert_eq!(
        t.call_with_caller(MAX_ENDPOINTS as u64, 1, TaskId(2)),
        CallResult::Reply(Errno::EINVAL.as_u64())
    );
    // Free endpoint.
    assert_eq!(
        t.call_with_caller(5, 1, TaskId(2)),
        CallResult::Reply(Errno::ENOENT.as_u64())
    );
    // Only the owner receives.
    assert_eq!(
        t.recv_with_caller(endpoint as u64, TaskId(2)),
        RecvResult::Message(Errno::EPERM.as_u64())
    );
    // A second pending call is refused while one is outstanding.
    assert_eq!(
        t.call_with_caller(endpoint as u64, 1, TaskId(2)),
        CallResult::Blocked
    );
    assert_eq!(
        t.call_with_caller(endpoint as u64, 2, TaskId(3)),
        CallResult::Reply(Errno::EAGAIN.as_u64())
    );
    // Reply from someone other than the owner.
    assert_eq!(
        t.reply_with_caller(endpoint as u64, 2, 9, TaskId(3)),
        Err(Errno::EPERM)
    );
}

#[test]
fn destroy_wakes_blocked_receiver() {
    let mut t = fresh_table();
    let endpoint = t.create_with_owner(TaskId(4)).unwrap();
    assert_eq!(t.recv_with_caller(endpoint as u64, TaskId(4)), RecvResult::Blocked);
    assert_eq!(t.destroy_with_caller(endpoint as u64, TaskId(4)), Ok(()));
    assert_eq!(t.take_wake(), Some(TaskId(4)));
    assert!(!t.endpoint(endpoint as usize).in_use);
}
