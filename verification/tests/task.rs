use lib::task::{TaskId, TaskTable, MAX_TASKS, STACK_SIZE, TASK_CONTEXT_SIZE};

const STACKS: u64 = 0x4008_0000;

#[test]
fn create_fills_slots_after_the_idle_task() {
    let mut t = TaskTable::new();
    t.init();
    assert_eq!(t.current_id(), TaskId(0));
    let (id, sp) = t.create(STACKS, 1).unwrap();
    assert_eq!(id, TaskId(1));
    assert_eq!(sp, STACKS + 2 * STACK_SIZE as u64 - TASK_CONTEXT_SIZE);
    for expected in 2..MAX_TASKS {
        let (id, _) = t.create(STACKS, 3).unwrap();
        assert_eq!(id, TaskId(expected as u16));
    }
    assert_eq!(t.create(STACKS, 1), None);
}

#[test]
fn create_aligns_the_stack_top() {
    let mut t = TaskTable::new();
    t.init();
    let (_, sp) = t.create(STACKS + 8, 1).unwrap();
    assert_eq!(sp, STACKS + 2 * STACK_SIZE as u64 - TASK_CONTEXT_SIZE);
    assert_eq!(sp % 16, 0);
}

#[test]
fn yield_rotates_through_ready_tasks() {
    let mut t = TaskTable::new();
    t.init();
    assert_eq!(t.yield_now(), None);
    t.create(STACKS, 1).unwrap();
    t.create(STACKS, 1).unwrap();
    assert_eq!(t.yield_now(), Some((0, 1)));
    assert_eq!(t.current_id(), TaskId(1));
    assert_eq!(t.yield_now(), Some((1, 2)));
    assert_eq!(t.yield_now(), Some((2, 0)));
    assert_eq!(t.yield_now(), Some((0, 1)));
}

#[test]
fn an_exited_task_is_never_scheduled_again() {
    let mut t = TaskTable::new();
    t.init();
    t.create(STACKS, 1).unwrap();
    t.create(STACKS, 1).unwrap();
    assert_eq!(t.yield_now(), Some((0, 1)));
    t.exit_current();
    assert_eq!(t.yield_now(), Some((1, 2)));
    assert_eq!(t.yield_now(), Some((2, 0)));
    // Slot 1 stays Exited: the rotation skips it from now on.
    assert_eq!(t.yield_now(), Some((0, 2)));
    assert_eq!(t.yield_now(), Some((2, 0)));
}
