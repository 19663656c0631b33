//! Scheduling policy: choice of the next task, the timer tick step and unblocking.
//!
//! Lower `priority` values mean higher importance.
use vstd::prelude::*;

verus! {

#[derive(Clone, Copy, PartialEq, Eq, Debug, Structural)]
pub enum SchedState {
    Ready,
    Running,
    Blocked,
    Unused,
    Exited,
}

#[derive(Clone, Copy, PartialEq, Eq, Debug, Structural)]
pub struct TaskView {
    pub state: SchedState,
    pub priority: u8,
}

/// A Ready task that the scan can elect: the scan starts from priority `u8::MAX`
/// and keeps only strictly lower values.
pub open spec fn eligible(t: TaskView) -> bool {
    t.state == SchedState::Ready && t.priority < 255
}

/// `b` is the first eligible task of minimal priority.
pub open spec fn is_best(s: Seq<TaskView>, b: int) -> bool {
    &&& 0 <= b < s.len()
    &&& eligible(s[b])
    &&& forall|j: int| 0 <= j < s.len() && eligible(#[trigger] s[j]) ==> s[j].priority >= s[b].priority
    &&& forall|j: int| 0 <= j < b && eligible(#[trigger] s[j]) ==> s[j].priority > s[b].priority
}

pub open spec fn any_eligible(s: Seq<TaskView>) -> bool {
    exists|j: int| 0 <= j < s.len() && eligible(#[trigger] s[j])
}

/// The task `k` steps after `cur` (cyclically) is Ready at priority `prio`.
pub open spec fn rr_hit(s: Seq<TaskView>, cur: int, prio: u8, k: int) -> bool {
    let t = s[(cur + k) % (s.len() as int)];
    t.state == SchedState::Ready && t.priority == prio
}

/// `k` is the first step in `1..len` whose task is Ready at `prio` (step `len`
/// would come back to `cur`, which is skipped).
pub open spec fn rr_first_step(s: Seq<TaskView>, cur: int, prio: u8, k: int) -> bool {
    &&& 1 <= k < s.len()
    &&& rr_hit(s, cur, prio, k)
    &&& forall|k2: int| 1 <= k2 < k ==> !#[trigger] rr_hit(s, cur, prio, k2)
}

pub open spec fn rr_any(s: Seq<TaskView>, cur: int, prio: u8) -> bool {
    exists|k: int| 1 <= k < s.len() && #[trigger] rr_hit(s, cur, prio, k)
}

/// `r` is the next Ready task at `prio` after `cur` in cyclic index order.
pub open spec fn is_rr_next(s: Seq<TaskView>, cur: int, prio: u8, r: int) -> bool {
    exists|k: int| #[trigger] rr_first_step(s, cur, prio, k) && r == (cur + k) % (s.len() as int)
}

/// The choice of the scheduler once `b` is known to be the best Ready contender.
pub open spec fn picks_with_best(s: Seq<TaskView>, cur: int, slice: u64, b: int, r: int) -> bool {
    let ct = s[cur];
    let bp = s[b].priority;
    if ct.state != SchedState::Running {
        r == b
    } else if ct.priority < bp {
        r == cur
    } else if ct.priority > bp {
        r == b
    } else if slice > 0 {
        r == cur
    } else if rr_any(s, cur, bp) {
        is_rr_next(s, cur, bp, r)
    } else {
        r == cur
    }
}

/// What `pick_next_index` returns.
pub open spec fn pick_spec(s: Seq<TaskView>, cur: int, slice: u64, r: int) -> bool {
    if cur < 0 || cur >= s.len() || !any_eligible(s) {
        r == 0
    } else {
        forall|b: int| #[trigger] is_best(s, b) ==> picks_with_best(s, cur, slice, b, r)
    }
}

/// Choose the next runnable task index.
///
/// `current_time_slice` is the running task's remaining slice. When it is zero,
/// another Ready task at the same priority is chosen in round-robin order (cyclic
/// scan starting at `current + 1`). With no Ready contender the idle slot `0` is chosen.
pub fn pick_next_index(tasks: &[TaskView], current: usize, current_time_slice: u64) -> (r: usize)
    ensures
        pick_spec(tasks@, current as int, current_time_slice, r as int),
{
    let n = tasks.len();
    if current >= n {
        return 0;
    }
    let ct = tasks[current];
    let current_running = ct.state == SchedState::Running;
    let current_prio = ct.priority;

    let mut best_idx: Option<usize> = None;
    let mut best_prio: u8 = 255;
    let mut i: usize = 0;
    while i < n
        invariant
            n == tasks@.len(),
            0 <= i <= n,
            best_idx is None ==> best_prio == 255 && forall|j: int|
                0 <= j < i ==> !eligible(#[trigger] tasks@[j]),
            best_idx matches Some(b) ==> {
                &&& b < i
                &&& eligible(tasks@[b as int])
                &&& best_prio == tasks@[b as int].priority
                &&& forall|j: int|
                    0 <= j < i && eligible(#[trigger] tasks@[j]) ==> tasks@[j].priority >= best_prio
                &&& forall|j: int|
                    0 <= j < b && eligible(#[trigger] tasks@[j]) ==> tasks@[j].priority > best_prio
            },
        decreases n - i,
    {
        let t = tasks[i];
        if t.state == SchedState::Ready && t.priority < best_prio {
            best_prio = t.priority;
            best_idx = Some(i);
        }
        i = i + 1;
    }

    let b_idx = match best_idx {
        None => {
            return 0;
        },
        Some(b) => b,
    };
    assert(is_best(tasks@, b_idx as int));
    assert forall|b: int| #[trigger] is_best(tasks@, b) implies b == b_idx by {
        lemma_best_unique(tasks@, b, b_idx as int);
    }

    if !current_running {
        return b_idx;
    }
    if current_prio < best_prio {
        return current;
    }
    if current_prio > best_prio {
        return b_idx;
    }
    if current_time_slice > 0 {
        return current;
    }
    match pick_rr_same_prio_after(tasks, current, best_prio) {
        Some(rr) => rr,
        None => current,
    }
}

/// Next Ready task at `prio` after `current` in cyclic index order (`current` itself
/// is skipped).
pub fn pick_rr_same_prio_after(tasks: &[TaskView], current: usize, prio: u8) -> (r: Option<usize>)
    ensures
        tasks@.len() == 0 ==> r is None,
        r matches Some(i) ==> is_rr_next(tasks@, current as int, prio, i as int),
        r is None ==> !rr_any(tasks@, current as int, prio),
{
    let n = tasks.len();
    if n == 0 {
        return None;
    }
    let mut i: usize = current % n;
    let mut step: usize = 0;
    while step + 1 < n
        invariant
            n == tasks@.len(),
            n > 0,
            0 <= step < n,
            i < n,
            i as int == (current as int + step as int) % (n as int),
            forall|k: int| 1 <= k <= step ==> !#[trigger] rr_hit(tasks@, current as int, prio, k),
        decreases n - step,
    {
        proof {
            lemma_mod_succ(current as int + step as int, n as int);
        }
        i = if i + 1 == n { 0 } else { i + 1 };
        step = step + 1;
        let t = tasks[i];
        if t.state == SchedState::Ready && t.priority == prio {
            assert(rr_hit(tasks@, current as int, prio, step as int));
            assert(rr_first_step(tasks@, current as int, prio, step as int));
            return Some(i);
        }
        assert(!rr_hit(tasks@, current as int, prio, step as int));
    }
    None
}

/// Stepping one further in cyclic order.
proof fn lemma_mod_succ(a: int, n: int)
    requires
        n > 0,
        a >= 0,
    ensures
        (a + 1) % n == (if a % n + 1 == n { 0 } else { a % n + 1 }),
{
    vstd::arithmetic::div_mod::lemma_fundamental_div_mod(a, n);
    vstd::arithmetic::div_mod::lemma_mod_bound(a, n);
    let q = a / n;
    let r = a % n;
    assert(a == q * n + r) by (nonlinear_arith)
        requires a == n * q + r;
    if r + 1 < n {
        vstd::arithmetic::div_mod::lemma_fundamental_div_mod_converse(a + 1, n, q, r + 1);
    } else {
        assert(a + 1 == (q + 1) * n + 0) by (nonlinear_arith)
            requires a == q * n + r, r + 1 == n;
        vstd::arithmetic::div_mod::lemma_fundamental_div_mod_converse(a + 1, n, q + 1, 0);
    }
}

/// There is at most one best contender.
pub proof fn lemma_best_unique(s: Seq<TaskView>, b1: int, b2: int)
    requires
        is_best(s, b1),
        is_best(s, b2),
    ensures
        b1 == b2,
{
    if b1 < b2 {
        assert(eligible(s[b1]));
    } else if b2 < b1 {
        assert(eligible(s[b2]));
    }
}

/// The round-robin successor is unique.
pub proof fn lemma_rr_next_unique(s: Seq<TaskView>, cur: int, prio: u8, r1: int, r2: int)
    requires
        is_rr_next(s, cur, prio, r1),
        is_rr_next(s, cur, prio, r2),
    ensures
        r1 == r2,
{
    let k1 = choose|k: int| #[trigger] rr_first_step(s, cur, prio, k) && r1 == (cur + k) % (s.len() as int);
    let k2 = choose|k: int| #[trigger] rr_first_step(s, cur, prio, k) && r2 == (cur + k) % (s.len() as int);
    if k1 < k2 {
        assert(rr_hit(s, cur, prio, k1));
    } else if k2 < k1 {
        assert(rr_hit(s, cur, prio, k2));
    }
}

/// The choice is a valid index whenever `current` is one.
pub proof fn law_pick_in_range(s: Seq<TaskView>, cur: int, slice: u64, r: int)
    requires
        0 <= cur < s.len(),
        pick_spec(s, cur, slice, r),
    ensures
        0 <= r < s.len(),
{
    if any_eligible(s) {
        let b = lemma_best_exists(s);
        assert(picks_with_best(s, cur, slice, b, r));
        if is_rr_next(s, cur, s[b].priority, r) {
            let k = choose|k: int| #[trigger] rr_first_step(s, cur, s[b].priority, k) && r == (cur + k) % (s.len() as int);
        }
    }
}

/// The scheduler either keeps the current task, falls back to idle slot `0` when
/// nothing is Ready, or elects a Ready task whose priority no Ready contender beats.
pub proof fn law_pick_elects_best_priority(s: Seq<TaskView>, cur: int, slice: u64, r: int)
    requires
        0 <= cur < s.len(),
        pick_spec(s, cur, slice, r),
    ensures
        !any_eligible(s) ==> r == 0,
        r != cur && any_eligible(s) ==> {
            &&& s[r].state == SchedState::Ready
            &&& forall|j: int| 0 <= j < s.len() && eligible(#[trigger] s[j]) ==> s[j].priority >= s[r].priority
        },
{
    if any_eligible(s) {
        let b = lemma_best_exists(s);
        assert(picks_with_best(s, cur, slice, b, r));
        if r != cur {
            let bp = s[b].priority;
            if is_rr_next(s, cur, bp, r) && s[cur].state == SchedState::Running && s[cur].priority == bp {
                let k = choose|k: int| #[trigger] rr_first_step(s, cur, bp, k) && r == (cur + k) % (s.len() as int);
                assert(rr_hit(s, cur, bp, k));
            }
        }
    }
}

/// A running task keeps the CPU while its slice lasts, unless a Ready task of
/// strictly higher importance is waiting.
pub proof fn law_running_task_keeps_cpu(s: Seq<TaskView>, cur: int, slice: u64, r: int)
    requires
        0 <= cur < s.len(),
        s[cur].state == SchedState::Running,
        slice > 0,
        forall|j: int| 0 <= j < s.len() && eligible(#[trigger] s[j]) ==> s[j].priority >= s[cur].priority,
        any_eligible(s),
        pick_spec(s, cur, slice, r),
    ensures
        r == cur,
{
    let b = lemma_best_exists(s);
    assert(picks_with_best(s, cur, slice, b, r));
}

/// Some eligible task exists, so a best one does.
pub proof fn lemma_best_exists(s: Seq<TaskView>) -> (b: int)
    requires
        any_eligible(s),
    ensures
        is_best(s, b),
    decreases s.len(),
{
    let j0 = choose|j: int| 0 <= j < s.len() && eligible(#[trigger] s[j]);
    let last = s.len() - 1;
    let init = s.drop_last();
    if any_eligible(init) {
        let b0 = lemma_best_exists(init);
        assert forall|j: int| 0 <= j < init.len() implies #[trigger] init[j] == s[j] by {}
        if eligible(s[last]) && s[last].priority < s[b0].priority {
            assert forall|j: int| 0 <= j < s.len() && eligible(#[trigger] s[j]) implies s[j].priority >= s[last].priority by {
                if j < last {
                    assert(eligible(init[j]));
                }
            }
            assert forall|j: int| 0 <= j < last && eligible(#[trigger] s[j]) implies s[j].priority > s[last].priority by {
                assert(eligible(init[j]));
            }
            last
        } else {
            assert forall|j: int| 0 <= j < s.len() && eligible(#[trigger] s[j]) implies s[j].priority >= s[b0].priority by {
                if j < last {
                    assert(eligible(init[j]));
                }
            }
            assert forall|j: int| 0 <= j < b0 && eligible(#[trigger] s[j]) implies s[j].priority > s[b0].priority by {
                assert(eligible(init[j]));
            }
            b0
        }
    } else {
        assert(j0 == last) by {
            if j0 < last {
                assert(init[j0] == s[j0]);
            }
        }
        assert forall|j: int| 0 <= j < s.len() && eligible(#[trigger] s[j]) implies j == last by {
            if j < last {
                assert(init[j] == s[j]);
            }
        }
        last
    }
}

/// Per-task fields touched by the timer interrupt path.
#[derive(Clone, Copy, Debug, PartialEq, Eq, Structural)]
pub struct TimerSlot {
    pub state: SchedState,
    pub time_slice: u64,
    pub wake_tick: u64,
}

impl TimerSlot {
    /// An unused slot with no time slice and no wake tick.
    pub fn zero() -> (r: TimerSlot)
        ensures
            r == (TimerSlot { state: SchedState::Unused, time_slice: 0, wake_tick: 0 }),
    {
        TimerSlot { state: SchedState::Unused, time_slice: 0, wake_tick: 0 }
    }
}

/// Converts a sleep duration to a positive tick count.
pub fn sleep_wait_ticks(ms: u64, tick_ms: u64) -> (r: u64)
    ensures
        tick_ms > 0 && ms / tick_ms >= 1 ==> r == ms / tick_ms,
        tick_ms == 0 || ms / tick_ms == 0 ==> r == 1,
{
    let t = if tick_ms > 0 { ms / tick_ms } else { 1 };
    if t < 1 { 1 } else { t }
}

/// A sleeper whose wake tick is due at `now`.
pub open spec fn wakes(s: TimerSlot, now: u64) -> bool {
    s.state == SchedState::Blocked && s.wake_tick > 0 && now >= s.wake_tick
}

/// One slot after a timer tick: the current task's slice shrinks by one, a due sleeper wakes.
pub open spec fn tick_slot(s: TimerSlot, is_current: bool, now: u64) -> TimerSlot {
    let ts = if is_current && s.time_slice > 0 { (s.time_slice - 1) as u64 } else { s.time_slice };
    if wakes(s, now) {
        TimerSlot { state: SchedState::Ready, time_slice: ts, wake_tick: 0 }
    } else {
        TimerSlot { state: s.state, time_slice: ts, wake_tick: s.wake_tick }
    }
}

/// One timer interrupt step: decrement the current task's time slice and wake
/// sleepers whose `wake_tick` is due. Returns whether the scheduler should
/// reconsider the next task.
pub fn timer_tick_step(slots: &mut [TimerSlot], current: usize, now: u64) -> (need: bool)
    ensures
        final(slots)@.len() == old(slots)@.len(),
        forall|i: int| 0 <= i < old(slots)@.len() ==>
            #[trigger] final(slots)@[i] == tick_slot(old(slots)@[i], i == current, now),
        forall|i: int| 0 <= i < old(slots)@.len() && i != current ==>
            #[trigger] final(slots)@[i].time_slice == old(slots)@[i].time_slice,
        current < old(slots)@.len() && old(slots)@[current as int].time_slice > 0 ==>
            final(slots)@[current as int].time_slice + 1 == old(slots)@[current as int].time_slice,
        need == ((current < old(slots)@.len() && old(slots)@[current as int].time_slice == 1)
            || exists|i: int| 0 <= i < old(slots)@.len() && wakes(#[trigger] old(slots)@[i], now)),
{
    let mut need = false;
    let n = slots.len();
    if current < n && slots[current].time_slice > 0 {
        let mut s = slots[current];
        s.time_slice = s.time_slice - 1;
        slots[current] = s;
        if s.time_slice == 0 {
            need = true;
        }
    }
    let ghost mid = slots@;
    let mut i: usize = 0;
    while i < n
        invariant
            n == slots@.len(),
            n == old(slots)@.len(),
            mid.len() == n,
            0 <= i <= n,
            forall|j: int| 0 <= j < n ==> #[trigger] mid[j].state == old(slots)@[j].state
                && mid[j].wake_tick == old(slots)@[j].wake_tick,
            forall|j: int| 0 <= j < n ==> #[trigger] mid[j].time_slice == (if j == current && old(slots)@[j].time_slice > 0 {
                (old(slots)@[j].time_slice - 1) as u64 } else { old(slots)@[j].time_slice }),
            forall|j: int| 0 <= j < i ==> #[trigger] slots@[j] == tick_slot(old(slots)@[j], j == current, now),
            forall|j: int| i <= j < n ==> #[trigger] slots@[j] == mid[j],
            need == ((current < n && old(slots)@[current as int].time_slice == 1)
                || exists|j: int| 0 <= j < i && wakes(#[trigger] old(slots)@[j], now)),
        decreases n - i,
    {
        let s = slots[i];
        if s.state == SchedState::Blocked && s.wake_tick > 0 && now >= s.wake_tick {
            slots[i] = TimerSlot { state: SchedState::Ready, time_slice: s.time_slice, wake_tick: 0 };
            need = true;
            assert(wakes(old(slots)@[i as int], now));
        }
        i = i + 1;
    }
    need
}

/// A tick charges only the running task: every other slot keeps its slice,
/// the running one loses exactly one tick (never going below zero); a slot's
/// state and wake tick change only when a due sleeper wakes, and then it becomes
/// Ready with no wake tick.
pub proof fn law_tick_charges_only_current(s: TimerSlot, is_current: bool, now: u64)
    ensures
        !is_current ==> tick_slot(s, is_current, now).time_slice == s.time_slice,
        is_current && s.time_slice > 0 ==> tick_slot(s, is_current, now).time_slice == s.time_slice - 1,
        is_current && s.time_slice == 0 ==> tick_slot(s, is_current, now).time_slice == 0,
        !(s.state == SchedState::Blocked && s.wake_tick > 0 && now >= s.wake_tick) ==> {
            &&& tick_slot(s, is_current, now).state == s.state
            &&& tick_slot(s, is_current, now).wake_tick == s.wake_tick
        },
        s.state == SchedState::Blocked && s.wake_tick > 0 && now >= s.wake_tick ==> {
            &&& tick_slot(s, is_current, now).state == SchedState::Ready
            &&& tick_slot(s, is_current, now).wake_tick == 0
        },
{
}

/// Unblocks task `idx` (the idle slot `0` is never unblocked here).
pub fn try_unblock(slots: &mut [TimerSlot], idx: usize) -> (r: bool)
    ensures
        r == (idx != 0 && idx < old(slots)@.len() && old(slots)@[idx as int].state == SchedState::Blocked),
        r ==> final(slots)@ == old(slots)@.update(idx as int, TimerSlot {
            state: SchedState::Ready,
            time_slice: old(slots)@[idx as int].time_slice,
            wake_tick: 0,
        }),
        !r ==> final(slots)@ == old(slots)@,
{
    if idx == 0 || idx >= slots.len() {
        return false;
    }
    let s = slots[idx];
    if s.state == SchedState::Blocked {
        slots[idx] = TimerSlot { state: SchedState::Ready, time_slice: s.time_slice, wake_tick: 0 };
        true
    } else {
        false
    }
}

} // verus!
