//! Task table of the cooperative scheduler: lifecycle states, task ids, slot
//! allocation and round-robin succession.
use vstd::prelude::*;

verus! {

/// Maximum number of concurrent tasks (including the idle task 0).
pub const MAX_TASKS: usize = 8;

/// Task lifecycle states.
#[derive(Clone, Copy, PartialEq, Eq, Debug, Structural)]
pub enum TaskState {
    Unused,
    Ready,
    Running,
    Blocked,
    Exited,
}

/// Opaque task identifier (index into the task table).
#[derive(Clone, Copy, PartialEq, Eq, Debug, Structural)]
pub struct TaskId(pub u16);


/// Per-task kernel stack size in bytes.
pub const STACK_SIZE: usize = 4096;

/// Bytes of the callee-saved register frame (x19–x28, FP, LR) a context switch pops.
pub const TASK_CONTEXT_SIZE: u64 = 96;

/// Task control block.
#[derive(Clone, Copy, PartialEq, Eq, Debug, Structural)]
pub struct Task {
    pub sp: u64,
    pub state: TaskState,
    pub priority: u8,
    pub id: TaskId,
}

pub open spec fn empty_task() -> Task {
    Task { sp: 0, state: TaskState::Unused, priority: 0, id: TaskId(0) }
}

pub struct TaskTableView {
    pub tasks: Seq<Task>,
    pub current: int,
}

impl TaskTableView {
    pub open spec fn wf(self) -> bool {
        self.tasks.len() == MAX_TASKS && 0 <= self.current < MAX_TASKS
    }

    /// The current task is the only running one.
    pub open spec fn one_running(self) -> bool {
        &&& self.tasks[self.current].state == TaskState::Running
        &&& forall|i: int| 0 <= i < MAX_TASKS && i != self.current ==> (#[trigger] self.tasks[i]).state != TaskState::Running
    }
}

/// `i` is the first unused slot after the idle slot 0.
pub open spec fn first_unused(tasks: Seq<Task>, i: int) -> bool {
    &&& 1 <= i < MAX_TASKS
    &&& tasks[i].state == TaskState::Unused
    &&& forall|j: int| 1 <= j < i ==> (#[trigger] tasks[j]).state != TaskState::Unused
}

/// The task `k` steps after `cur` in cyclic order.
pub open spec fn task_after(cur: int, k: int) -> int {
    (cur + k) % (MAX_TASKS as int)
}

/// `k` is the first step in `1..=MAX_TASKS` whose task is Ready.
pub open spec fn first_ready_step(tasks: Seq<Task>, cur: int, k: int) -> bool {
    &&& 1 <= k <= MAX_TASKS
    &&& tasks[task_after(cur, k)].state == TaskState::Ready
    &&& forall|k2: int| 1 <= k2 < k ==> tasks[#[trigger] task_after(cur, k2)].state != TaskState::Ready
}

/// The state a task is left in when it yields the CPU: a Running task becomes
/// Ready; any other state (an Exited task above all) stays as it is.
pub open spec fn yielded_state(s: TaskState) -> TaskState {
    if s == TaskState::Running { TaskState::Ready } else { s }
}

/// Initial stack pointer of a new task in slot `idx`: its stack top, 16-byte
/// aligned, minus the context frame.
pub open spec fn initial_sp(stack_base: int, idx: int) -> int {
    let top = stack_base + (idx + 1) * STACK_SIZE;
    top - top % 16 - TASK_CONTEXT_SIZE
}

pub struct TaskTable {
    tasks: Vec<Task>,
    current: usize,
}

impl View for TaskTable {
    type V = TaskTableView;

    closed spec fn view(&self) -> TaskTableView {
        TaskTableView { tasks: self.tasks@, current: self.current as int }
    }
}

impl TaskTable {
    /// Every slot unused; slot 0 current.
    pub fn new() -> (r: Self)
        ensures
            r@.wf(),
            r@.tasks == Seq::new(MAX_TASKS as nat, |i: int| empty_task()),
            r@.current == 0,
    {
        let mut tasks: Vec<Task> = Vec::new();
        let mut i: usize = 0;
        while i < MAX_TASKS
            invariant
                i <= MAX_TASKS,
                tasks@ == Seq::new(i as nat, |j: int| empty_task()),
            decreases MAX_TASKS - i,
        {
            tasks.push(Task { sp: 0, state: TaskState::Unused, priority: 0, id: TaskId(0) });
            i = i + 1;
        }
        TaskTable { tasks, current: 0 }
    }

    /// Sets up slot 0 as the running idle task.
    pub fn init(&mut self)
        requires
            old(self)@.wf(),
        ensures
            final(self)@.wf(),
            final(self)@.current == 0,
            final(self)@.tasks == old(self)@.tasks.update(0, Task {
                sp: 0,
                state: TaskState::Running,
                priority: 255,
                id: TaskId(0),
            }),
    {
        self.tasks.set(0, Task { sp: 0, state: TaskState::Running, priority: 255, id: TaskId(0) });
        self.current = 0;
    }

    /// Takes the first unused slot after 0 for a new Ready task whose stacks start
    /// at `stack_base`; returns its id and the address where its initial context
    /// frame goes (also its saved stack pointer). `None` when the table is full.
    pub fn create(&mut self, stack_base: u64, priority: u8) -> (r: Option<(TaskId, u64)>)
        requires
            old(self)@.wf(),
            stack_base + MAX_TASKS * STACK_SIZE <= u64::MAX,
        ensures
            final(self)@.wf(),
            final(self)@.current == old(self)@.current,
            r is None <==> forall|j: int| 1 <= j < MAX_TASKS ==> (#[trigger] old(self)@.tasks[j]).state != TaskState::Unused,
            r is None ==> final(self)@ == old(self)@,
            r matches Some((id, sp)) ==> {
                &&& first_unused(old(self)@.tasks, id.0 as int)
                &&& sp == initial_sp(stack_base as int, id.0 as int)
                &&& final(self)@.tasks == old(self)@.tasks.update(id.0 as int, Task {
                    sp,
                    state: TaskState::Ready,
                    priority,
                    id,
                })
            },
    {
        let mut i: usize = 1;
        while i < MAX_TASKS
            invariant
                self@ == old(self)@,
                self@.wf(),
                1 <= i <= MAX_TASKS,
                stack_base + MAX_TASKS * STACK_SIZE <= u64::MAX,
                forall|j: int| 1 <= j < i ==> (#[trigger] self@.tasks[j]).state != TaskState::Unused,
            decreases MAX_TASKS - i,
        {
            if self.tasks[i].state == TaskState::Unused {
                let top = stack_base + ((i + 1) * STACK_SIZE) as u64;
                let aligned = top & !0xFu64;
                assert(aligned == top - top % 16) by (bit_vector)
                    requires aligned == top & !0xFu64;
                let sp = aligned - TASK_CONTEXT_SIZE;
                let id = TaskId(i as u16);
                self.tasks.set(i, Task { sp, state: TaskState::Ready, priority, id });
                return Some((id, sp));
            }
            i = i + 1;
        }
        None
    }

    /// The current task's id.
    pub fn current_id(&self) -> (r: TaskId)
        requires
            self@.wf(),
        ensures
            r == self@.tasks[self@.current].id,
    {
        self.tasks[self.current].id
    }

    /// Marks the current task exited (its entry function returned).
    pub fn exit_current(&mut self)
        requires
            old(self)@.wf(),
        ensures
            final(self)@.wf(),
            final(self)@.current == old(self)@.current,
            final(self)@.tasks == old(self)@.tasks.update(old(self)@.current, Task {
                state: TaskState::Exited,
                ..old(self)@.tasks[old(self)@.current]
            }),
    {
        let mut t = self.tasks[self.current];
        t.state = TaskState::Exited;
        self.tasks.set(self.current, t);
    }

    /// Cooperative yield: the first Ready task after the current one in cyclic
    /// order becomes current and Running; the previous one becomes Ready if it was
    /// Running and otherwise keeps its state (an Exited task stays Exited). Returns the
    /// slots to switch from and to; `None` (nothing changes) when no task is Ready.
    pub fn yield_now(&mut self) -> (r: Option<(usize, usize)>)
        requires
            old(self)@.wf(),
        ensures
            final(self)@.wf(),
            r is None <==> forall|k: int| 1 <= k <= MAX_TASKS ==>
                old(self)@.tasks[#[trigger] task_after(old(self)@.current, k)].state != TaskState::Ready,
            r is None ==> final(self)@ == old(self)@,
            r matches Some((from, to)) ==> {
                let cur = old(self)@.current;
                &&& from == cur
                &&& exists|k: int| #[trigger] first_ready_step(old(self)@.tasks, cur, k) && to == task_after(cur, k)
                &&& final(self)@.current == to
                &&& final(self)@.tasks == old(self)@.tasks
                    .update(cur, Task { state: yielded_state(old(self)@.tasks[cur].state), ..old(self)@.tasks[cur] })
                    .update(to as int, Task { state: TaskState::Running, ..old(self)@.tasks[to as int] })
            },
    {
        let current = self.current;
        let mut i: usize = 1;
        while i <= MAX_TASKS
            invariant
                self@ == old(self)@,
                self@.wf(),
                current == self@.current,
                1 <= i <= MAX_TASKS + 1,
                forall|k: int| 1 <= k < i ==> self@.tasks[#[trigger] task_after(current as int, k)].state != TaskState::Ready,
            decreases MAX_TASKS + 1 - i,
        {
            let candidate = (current + i) % MAX_TASKS;
            if self.tasks[candidate].state == TaskState::Ready {
                assert(first_ready_step(self@.tasks, current as int, i as int));
                let mut old_t = self.tasks[current];
                if old_t.state == TaskState::Running {
                    old_t.state = TaskState::Ready;
                }
                self.tasks.set(current, old_t);
                let mut new_t = self.tasks[candidate];
                new_t.state = TaskState::Running;
                self.tasks.set(candidate, new_t);
                self.current = candidate;
                return Some((current, candidate));
            }
            i = i + 1;
        }
        None
    }
}

/// A yield keeps the current task the only running one.
pub proof fn law_yield_keeps_one_running(v: TaskTableView, to: int)
    requires
        v.wf(),
        v.one_running(),
        0 <= to < MAX_TASKS,
        v.tasks[to].state == TaskState::Ready,
    ensures
        ({
            let cur = v.current;
            let tasks2 = v.tasks
                .update(cur, Task { state: yielded_state(v.tasks[cur].state), ..v.tasks[cur] })
                .update(to, Task { state: TaskState::Running, ..v.tasks[to] });
            (TaskTableView { tasks: tasks2, current: to }).one_running()
        }),
{
}

/// Exited is terminal: a yield leaves every Exited task Exited, and never
/// switches to one.
pub proof fn law_yield_keeps_exited(v: TaskTableView, to: int, i: int)
    requires
        v.wf(),
        0 <= to < MAX_TASKS,
        v.tasks[to].state == TaskState::Ready,
        0 <= i < MAX_TASKS,
        v.tasks[i].state == TaskState::Exited,
    ensures
        to != i,
        ({
            let cur = v.current;
            let tasks2 = v.tasks
                .update(cur, Task { state: yielded_state(v.tasks[cur].state), ..v.tasks[cur] })
                .update(to, Task { state: TaskState::Running, ..v.tasks[to] });
            tasks2[i].state == TaskState::Exited
        }),
{
}

/// Each slot's first stack pointer lies inside that slot's own stack
/// `[stack_base + idx * STACK_SIZE, stack_base + (idx + 1) * STACK_SIZE)`, 16-byte
/// aligned, with room for the context frame above it: tasks in different slots
/// never share a stack.
pub proof fn law_initial_sp_in_own_stack(stack_base: int, idx: int, other: int)
    requires
        0 <= idx < MAX_TASKS,
        0 <= other < MAX_TASKS,
        other != idx,
    ensures
        stack_base + idx * STACK_SIZE <= initial_sp(stack_base, idx),
        initial_sp(stack_base, idx) + TASK_CONTEXT_SIZE <= stack_base + (idx + 1) * STACK_SIZE,
        initial_sp(stack_base, idx) % 16 == 0,
        !(stack_base + other * STACK_SIZE <= initial_sp(stack_base, idx) < stack_base + (other + 1) * STACK_SIZE),
        initial_sp(stack_base, idx) != initial_sp(stack_base, other),
{
    let top = stack_base + (idx + 1) * 4096;
    let top2 = stack_base + (other + 1) * 4096;
    assert(0 <= top % 16 < 16);
    assert(0 <= top2 % 16 < 16);
    assert((top - top % 16) % 16 == 0) by {
        vstd::arithmetic::div_mod::lemma_fundamental_div_mod(top, 16);
        vstd::arithmetic::div_mod::lemma_mod_multiples_basic(top / 16, 16);
    }
    assert((top - top % 16 - 96) % 16 == 0) by {
        vstd::arithmetic::div_mod::lemma_mod_sub_multiples_vanish(top - top % 16, 16);
        vstd::arithmetic::div_mod::lemma_fundamental_div_mod(top, 16);
        vstd::arithmetic::div_mod::lemma_mod_multiples_basic(top / 16 - 6, 16);
    }
    if other < idx {
        assert(other + 1 <= idx);
        assert((other + 1) * 4096 <= idx * 4096) by (nonlinear_arith) requires other + 1 <= idx;
    } else {
        assert(idx + 1 <= other);
        assert((idx + 1) * 4096 <= other * 4096) by (nonlinear_arith) requires idx + 1 <= other;
    }
}

/// Creating a task keeps the current task the only running one.
pub proof fn law_create_keeps_one_running(v: TaskTableView, idx: int, t: Task)
    requires
        v.wf(),
        v.one_running(),
        first_unused(v.tasks, idx),
        t.state == TaskState::Ready,
    ensures
        (TaskTableView { tasks: v.tasks.update(idx, t), current: v.current }).one_running(),
{
}

} // verus!
