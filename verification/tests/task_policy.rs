use lib::task_policy::{
    pick_next_index, pick_rr_same_prio_after, sleep_wait_ticks, timer_tick_step, try_unblock,
    SchedState, TaskView, TimerSlot,
};

fn t(state: SchedState, priority: u8) -> TaskView {
    TaskView { state, priority }
}

#[test]
fn keeps_current_when_it_is_not_worse_than_ready_tasks() {
    let tasks = [
        t(SchedState::Running, 255),
        t(SchedState::Ready, 10),
        t(SchedState::Ready, 20),
        t(SchedState::Running, 5),
    ];
    assert_eq!(pick_next_index(&tasks, 3, 5), 3);
}

#[test]
fn switches_to_higher_priority_ready_task() {
    let tasks = [
        t(SchedState::Running, 255),
        t(SchedState::Ready, 3),
        t(SchedState::Ready, 10),
        t(SchedState::Running, 20),
    ];
    assert_eq!(pick_next_index(&tasks, 3, 5), 1);
}

#[test]
fn falls_back_to_idle_when_no_ready_task() {
    let tasks = [
        t(SchedState::Running, 255),
        t(SchedState::Blocked, 3),
        t(SchedState::Exited, 10),
        t(SchedState::Unused, 20),
    ];
    assert_eq!(pick_next_index(&tasks, 2, 5), 0);
}

#[test]
fn same_priority_keeps_current_while_time_slice_positive() {
    let tasks = [
        t(SchedState::Running, 255),
        t(SchedState::Running, 10),
        t(SchedState::Ready, 10),
    ];
    assert_eq!(pick_next_index(&tasks, 1, 3), 1);
}

#[test]
fn same_priority_round_robins_when_time_slice_zero() {
    let s1 = [
        t(SchedState::Running, 255),
        t(SchedState::Running, 10),
        t(SchedState::Ready, 10),
        t(SchedState::Ready, 10),
    ];
    assert_eq!(pick_next_index(&s1, 1, 0), 2);

    let s2 = [
        t(SchedState::Running, 255),
        t(SchedState::Ready, 10),
        t(SchedState::Running, 10),
        t(SchedState::Ready, 10),
    ];
    assert_eq!(pick_next_index(&s2, 2, 0), 3);

    let s3 = [
        t(SchedState::Running, 255),
        t(SchedState::Ready, 10),
        t(SchedState::Ready, 10),
        t(SchedState::Running, 10),
    ];
    assert_eq!(pick_next_index(&s3, 3, 0), 1);
}

#[test]
fn exhausted_slice_stays_current_if_no_peer_at_same_priority() {
    let tasks = [
        t(SchedState::Running, 255),
        t(SchedState::Running, 10),
        t(SchedState::Ready, 20),
    ];
    assert_eq!(pick_next_index(&tasks, 1, 0), 1);
}

#[test]
fn sleep_wait_ticks_matches_kernel_formula() {
    assert_eq!(sleep_wait_ticks(0, 10), 1);
    assert_eq!(sleep_wait_ticks(100, 10), 10);
    assert_eq!(sleep_wait_ticks(100, 0), 1);
}

#[test]
fn timer_tick_decrements_slice_and_sets_need_when_zero() {
    let mut slots = [
        TimerSlot {
            state: SchedState::Running,
            time_slice: 2,
            wake_tick: 0,
        },
        TimerSlot::zero(),
    ];
    assert!(!timer_tick_step(&mut slots, 0, 0));
    assert_eq!(slots[0].time_slice, 1);
    assert!(timer_tick_step(&mut slots, 0, 0));
    assert_eq!(slots[0].time_slice, 0);
}

#[test]
fn timer_tick_wakes_blocked_when_due() {
    let mut slots = [
        TimerSlot::zero(),
        TimerSlot {
            state: SchedState::Blocked,
            time_slice: 0,
            wake_tick: 5,
        },
    ];
    assert!(!timer_tick_step(&mut slots, 0, 4));
    assert_eq!(slots[1].state, SchedState::Blocked);
    assert!(timer_tick_step(&mut slots, 0, 5));
    assert_eq!(slots[1].state, SchedState::Ready);
    assert_eq!(slots[1].wake_tick, 0);
}

#[test]
fn timer_tick_does_not_wake_blocked_with_zero_wake_tick() {
    let mut slots = [
        TimerSlot::zero(),
        TimerSlot {
            state: SchedState::Blocked,
            time_slice: 0,
            wake_tick: 0,
        },
    ];
    assert!(!timer_tick_step(&mut slots, 0, 100));
    assert_eq!(slots[1].state, SchedState::Blocked);
}

#[test]
fn try_unblock_idle_and_non_blocked_noop() {
    let mut slots = [
        TimerSlot {
            state: SchedState::Blocked,
            time_slice: 0,
            wake_tick: 1,
        },
        TimerSlot {
            state: SchedState::Ready,
            time_slice: 0,
            wake_tick: 0,
        },
    ];
    assert!(!try_unblock(&mut slots, 0));
    assert!(!try_unblock(&mut slots, 2));
    assert!(!try_unblock(&mut slots, 1));
    assert_eq!(slots[1].state, SchedState::Ready);
}

#[test]
fn try_unblock_blocked_sets_ready() {
    let mut slots = [
        TimerSlot::zero(),
        TimerSlot {
            state: SchedState::Blocked,
            time_slice: 0,
            wake_tick: 7,
        },
    ];
    assert!(try_unblock(&mut slots, 1));
    assert_eq!(slots[1].state, SchedState::Ready);
    assert_eq!(slots[1].wake_tick, 0);
}

#[test]
fn ready_tasks_at_lowest_priority_value_are_never_elected() {
    // A Ready task with priority 255 does not beat the scan's starting bound.
    let tasks = [t(SchedState::Running, 255), t(SchedState::Ready, 255)];
    assert_eq!(pick_next_index(&tasks, 0, 0), 0);
}

#[test]
fn out_of_range_current_and_empty_table_give_idle() {
    let tasks = [t(SchedState::Ready, 1)];
    assert_eq!(pick_next_index(&tasks, 5, 0), 0);
    assert_eq!(pick_next_index(&[], 0, 0), 0);
}

#[test]
fn first_best_ready_task_wins_ties() {
    let tasks = [
        t(SchedState::Blocked, 0),
        t(SchedState::Ready, 4),
        t(SchedState::Ready, 4),
    ];
    assert_eq!(pick_next_index(&tasks, 0, 9), 1);
}

#[test]
fn round_robin_scan_wraps_and_skips_current() {
    let tasks = [
        t(SchedState::Ready, 3),
        t(SchedState::Blocked, 3),
        t(SchedState::Running, 3),
    ];
    assert_eq!(pick_rr_same_prio_after(&tasks, 2, 3), Some(0));
    assert_eq!(pick_rr_same_prio_after(&tasks, 2, 4), None);
    assert_eq!(pick_rr_same_prio_after(&[], 0, 3), None);
    // The current task itself is never the answer, even when it is Ready.
    let tasks = [t(SchedState::Ready, 10), t(SchedState::Ready, 20)];
    assert_eq!(pick_rr_same_prio_after(&tasks, 0, 10), None);
    assert_eq!(pick_rr_same_prio_after(&[t(SchedState::Ready, 1)], 0, 1), None);
}

#[test]
fn sleep_wait_ticks_rounds_down_but_never_below_one() {
    assert_eq!(sleep_wait_ticks(25, 10), 2);
    assert_eq!(sleep_wait_ticks(5, 10), 1);
}

#[test]
fn timer_tick_ignores_out_of_range_current_and_empty_slice() {
    let mut slots = [TimerSlot { state: SchedState::Running, time_slice: 0, wake_tick: 0 }];
    assert!(!timer_tick_step(&mut slots, 0, 0));
    assert_eq!(slots[0].time_slice, 0);
    assert!(!timer_tick_step(&mut slots, 3, 0));
}
