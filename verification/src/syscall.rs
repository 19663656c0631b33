//! Syscall dispatch and handlers.
//!
//! The number arrives in `x8`, arguments in `x0`–`x5`, the result goes back in
//! `x0` (a negative errno on error). A handler that needs the scheduler or the
//! console answers with an action that its caller carries out.
use vstd::prelude::*;
use crate::syscall_abi::{
    Errno, errno_word, abi_info_spec, abi_info_word, SYSCALL_DISPATCH_TABLE_LEN, SYS_WRITE, SYS_READ,
    SYS_YIELD, SYS_GETPID, SYS_EXIT, SYS_SLEEP, SYS_ENDPOINT_CREATE, SYS_ENDPOINT_DESTROY,
    SYS_ENDPOINT_CALL, SYS_ENDPOINT_RECV, SYS_ENDPOINT_REPLY, SYS_ABI_INFO,
};
use crate::user_layout::user_range_ok;
use crate::endpoint::{
    EndpointTable, TableView, CallResult, RecvResult, call_step, recv_step, reply_step, destroy_step,
    take_reply_step, first_free, table_full, empty_endpoint, Endpoint, law_call_recv_reply, MAX_ENDPOINTS,
    MAX_TASK_SLOTS,
};
use crate::task::{TaskId, TaskTable, TaskTableView, MAX_TASKS, TaskState, Task, first_ready_step, task_after, yielded_state};

verus! {

/// Bytes copied from the caller's buffer per console write.
pub const WRITE_CHUNK_SIZE: usize = 256;
/// Start of the identity-mapped kernel RAM window.
pub const KERNEL_RAM_START: usize = 0x4000_0000;
/// End (exclusive) of the identity-mapped kernel RAM window.
pub const KERNEL_RAM_END_EXCL: usize = 0x4800_0000;

/// A kernel buffer the kernel may read: empty, or inside the RAM window.
pub open spec fn kernel_range_ok(start: int, len: int) -> bool {
    len == 0 || (len > 0 && KERNEL_RAM_START <= start && start + len <= KERNEL_RAM_END_EXCL)
}

/// `true` if `[start, start + len)` lies in the kernel RAM window (an empty range is accepted).
pub fn kernel_buffer_range_ok(start: usize, len: usize) -> (r: bool)
    ensures
        r == kernel_range_ok(start as int, len as int),
{
    if len == 0 {
        return true;
    }
    let end = match start.checked_add(len) {
        Some(e) => e,
        None => {
            return false;
        },
    };
    start >= KERNEL_RAM_START && end <= KERNEL_RAM_END_EXCL && start < end
}

/// `true` if a user buffer lies wholly in the user code window or the user stack window.
pub fn user_range_valid(start: usize, len: usize) -> (r: bool)
    ensures
        r == user_range_ok(start as int, len as int),
{
    crate::user_layout::user_range_valid(start, len)
}

/// A buffer `write` may copy from a task that is (`is_user`) or is not a user task.
pub open spec fn payload_ok(src: int, len: int, is_user: bool) -> bool {
    if is_user { user_range_ok(src, len) } else { kernel_range_ok(src, len) }
}

/// Checks the source of one copy of a `write`: `EFAULT` unless the buffer lies
/// in memory the calling task may name.
pub fn check_write_payload(src: usize, len: usize, is_user: bool) -> (r: Result<(), Errno>)
    ensures
        r is Ok <==> payload_ok(src as int, len as int, is_user),
        r is Err ==> r == Err::<(), Errno>(Errno::EFAULT),
{
    if len == 0 {
        return Ok(());
    }
    if is_user {
        if !user_range_valid(src, len) {
            return Err(Errno::EFAULT);
        }
    } else {
        if !kernel_buffer_range_ok(src, len) {
            return Err(Errno::EFAULT);
        }
    }
    Ok(())
}

/// One step of `SYS_WRITE`.
#[derive(Clone, Copy, PartialEq, Eq, Debug, Structural)]
pub enum WriteStep {
    /// Copy `len` bytes from `src` and send them to the console, then take the
    /// next step with `copied` advanced by `len`.
    Copy { src: usize, len: usize },
    /// Return this word in `x0`.
    Done(u64),
}

pub open spec fn min_int(a: int, b: int) -> int {
    if a < b { a } else { b }
}

/// `a + b`, saturating at `usize::MAX`.
pub open spec fn sat_add(a: int, b: int) -> int {
    if a + b > usize::MAX { usize::MAX as int } else { a + b }
}

/// The step of `SYS_WRITE(fd, buf, len)` after `copied` bytes were written.
pub open spec fn write_step_spec(fd: u64, buf: u64, len: u64, copied: int, is_user: bool) -> WriteStep {
    let count = len as usize as int;
    if fd != 1 {
        WriteStep::Done(errno_word(Errno::EBADF) as u64)
    } else if buf == 0 || count == 0 {
        WriteStep::Done(errno_word(Errno::EINVAL) as u64)
    } else if copied >= count {
        WriteStep::Done(len)
    } else {
        let n = min_int(WRITE_CHUNK_SIZE as int, count - copied);
        let src = sat_add(buf as usize as int, copied);
        if payload_ok(src, n, is_user) {
            WriteStep::Copy { src: src as usize, len: n as usize }
        } else {
            WriteStep::Done(errno_word(Errno::EFAULT) as u64)
        }
    }
}

/// `SYS_WRITE` to stdout (`fd` 1 only): the buffer is copied and written in
/// chunks of at most `WRITE_CHUNK_SIZE` bytes; returns `len`, `EBADF` for another
/// fd, `EINVAL` for a null or empty buffer, `EFAULT` at the first chunk that lies
/// outside the memory the caller may name (earlier chunks were already written).
pub fn sys_write_step(fd: u64, buf: u64, len: u64, copied: usize, is_user: bool) -> (r: WriteStep)
    ensures
        r == write_step_spec(fd, buf, len, copied as int, is_user),
{
    if fd != 1 {
        return WriteStep::Done(Errno::EBADF.as_u64());
    }
    let count = len as usize;
    if buf == 0 || count == 0 {
        return WriteStep::Done(Errno::EINVAL.as_u64());
    }
    if copied >= count {
        return WriteStep::Done(len);
    }
    let rest = count - copied;
    let n = if WRITE_CHUNK_SIZE < rest { WRITE_CHUNK_SIZE } else { rest };
    let src = (buf as usize).saturating_add(copied);
    match check_write_payload(src, n, is_user) {
        Ok(()) => WriteStep::Copy { src, len: n },
        Err(_) => WriteStep::Done(Errno::EFAULT.as_u64()),
    }
}

/// The word `SYS_WRITE` returns when the steps are run from `copied` on.
pub open spec fn write_result(fd: u64, buf: u64, len: u64, copied: int, is_user: bool) -> u64
    decreases (len as usize) - copied,
{
    match write_step_spec(fd, buf, len, copied, is_user) {
        WriteStep::Done(w) => w,
        WriteStep::Copy { src, len: n } => if n > 0 { write_result(fd, buf, len, copied + n, is_user) } else { 0 },
    }
}

/// A `write` whose first chunk lies outside the memory the caller may name
/// copies nothing: its very first step answers `EFAULT`.
pub proof fn law_write_faults_before_copying(buf: u64, len: u64, is_user: bool)
    requires
        buf != 0,
        len as usize > 0,
        !payload_ok(buf as usize as int, min_int(WRITE_CHUNK_SIZE as int, len as usize as int), is_user),
    ensures
        write_step_spec(1, buf, len, 0, is_user) == WriteStep::Done(errno_word(Errno::EFAULT) as u64),
        write_result(1, buf, len, 0, is_user) == errno_word(Errno::EFAULT) as u64,
{
    assert(sat_add(buf as usize as int, 0) == buf as usize as int);
}

/// A `write` of a non-empty user buffer that lies wholly in one user window
/// writes every byte and returns `len`.
pub proof fn law_user_write_in_window_returns_len(buf: u64, len: u64, copied: int)
    requires
        len as usize == len,
        buf as usize == buf,
        buf != 0,
        len > 0,
        user_range_ok(buf as int, len as int),
        0 <= copied <= len,
    ensures
        write_result(1, buf, len, copied, true) == len,
    decreases len - copied,
{
    if copied < len {
        let n = min_int(WRITE_CHUNK_SIZE as int, len - copied);
        assert(sat_add(buf as int, copied) == buf + copied);
        assert(payload_ok(buf + copied, n, true));
        law_user_write_in_window_returns_len(buf, len, copied + n);
    }
}

/// The bytes the `write` steps copy when run from `copied` on.
pub open spec fn bytes_copied(fd: u64, buf: u64, len: u64, copied: int, is_user: bool) -> int
    decreases (len as usize) - copied,
{
    match write_step_spec(fd, buf, len, copied, is_user) {
        WriteStep::Done(_) => 0,
        WriteStep::Copy { src, len: n } => if n > 0 { n + bytes_copied(fd, buf, len, copied + n, is_user) } else { 0 },
    }
}

/// Every step of a `write` that has bytes left either copies the next chunk,
/// `[buf + copied, buf + copied + min(256, len - copied))`, or stops the write
/// with `EFAULT` because that chunk lies outside the caller's memory: it never
/// reports success before the last byte is copied.
pub proof fn law_write_step_copies_next_chunk(buf: u64, len: u64, copied: int, is_user: bool)
    requires
        buf != 0,
        buf as usize == buf,
        len as usize == len,
        0 <= copied < len,
        buf + len <= usize::MAX,
    ensures
        ({
            let n = if len - copied < 256 { len - copied } else { 256 };
            let step = write_step_spec(1, buf, len, copied, is_user);
            &&& payload_ok(buf + copied, n, is_user) ==> step == WriteStep::Copy {
                src: (buf + copied) as usize,
                len: n as usize,
            }
            &&& !payload_ok(buf + copied, n, is_user) ==> step == WriteStep::Done(
                0xFFFF_FFFF_FFFF_FFF2u64)
        }),
{
    assert(errno_word(Errno::EFAULT) == 0xFFFF_FFFF_FFFF_FFF2);
}

/// A `write` of a buffer the caller may name copies every byte, chunk after
/// chunk, and returns `len`.
pub proof fn law_write_copies_whole_buffer(buf: u64, len: u64, copied: int, is_user: bool)
    requires
        len as usize == len,
        buf as usize == buf,
        buf != 0,
        len > 0,
        payload_ok(buf as int, len as int, is_user),
        0 <= copied <= len,
    ensures
        bytes_copied(1, buf, len, copied, is_user) == len - copied,
        write_result(1, buf, len, copied, is_user) == len,
    decreases len - copied,
{
    if copied < len {
        let n = min_int(WRITE_CHUNK_SIZE as int, len - copied);
        assert(sat_add(buf as int, copied) == buf + copied);
        assert(payload_ok(buf + copied, n, is_user));
        law_write_copies_whole_buffer(buf, len, copied + n, is_user);
    }
}

/// The syscall handlers of the core table.
#[derive(Clone, Copy, PartialEq, Eq, Debug, Structural)]
pub enum Handler {
    Write,
    Read,
    Yield,
    GetPid,
    Exit,
    Sleep,
    EndpointCreate,
    EndpointDestroy,
    EndpointCall,
    EndpointRecv,
    EndpointReply,
    AbiInfo,
}

/// The handler the core table holds for number `nr` once initialized.
pub open spec fn core_handler(nr: int) -> Option<Handler> {
    if nr == SYS_WRITE { Some(Handler::Write) }
    else if nr == SYS_READ { Some(Handler::Read) }
    else if nr == SYS_YIELD { Some(Handler::Yield) }
    else if nr == SYS_GETPID { Some(Handler::GetPid) }
    else if nr == SYS_EXIT { Some(Handler::Exit) }
    else if nr == SYS_SLEEP { Some(Handler::Sleep) }
    else if nr == SYS_ENDPOINT_CREATE { Some(Handler::EndpointCreate) }
    else if nr == SYS_ENDPOINT_DESTROY { Some(Handler::EndpointDestroy) }
    else if nr == SYS_ENDPOINT_CALL { Some(Handler::EndpointCall) }
    else if nr == SYS_ENDPOINT_RECV { Some(Handler::EndpointRecv) }
    else if nr == SYS_ENDPOINT_REPLY { Some(Handler::EndpointReply) }
    else if nr == SYS_ABI_INFO { Some(Handler::AbiInfo) }
    else { None }
}

/// Table `t` with the core handlers installed over it.
pub open spec fn installed(t: Seq<Option<Handler>>) -> Seq<Option<Handler>> {
    Seq::new(t.len(), |i: int| if core_handler(i) is Some { core_handler(i) } else { t[i] })
}

/// The dispatch table of the core syscall numbers `0..SYSCALL_DISPATCH_TABLE_LEN`.
pub struct SyscallTable {
    slots: Vec<Option<Handler>>,
}

impl View for SyscallTable {
    type V = Seq<Option<Handler>>;

    closed spec fn view(&self) -> Seq<Option<Handler>> {
        self.slots@
    }
}

impl SyscallTable {
    /// The table always has one slot per core number.
    #[verifier::type_invariant]
    spec fn slots_len(&self) -> bool {
        self.slots@.len() == SYSCALL_DISPATCH_TABLE_LEN
    }

    /// A table with every slot empty.
    pub fn new() -> (r: Self)
        ensures
            r@ == Seq::new(SYSCALL_DISPATCH_TABLE_LEN as nat, |i: int| None::<Handler>),
    {
        let mut slots: Vec<Option<Handler>> = Vec::new();
        let mut i: usize = 0;
        while i < SYSCALL_DISPATCH_TABLE_LEN
            invariant
                i <= SYSCALL_DISPATCH_TABLE_LEN,
                slots@ == Seq::new(i as nat, |j: int| None::<Handler>),
            decreases SYSCALL_DISPATCH_TABLE_LEN - i,
        {
            slots.push(None);
            i = i + 1;
        }
        SyscallTable { slots }
    }

    /// Installs the handlers of the implemented syscalls: each core number gets
    /// its handler, every other slot keeps what it held.
    pub fn init(&mut self)
        ensures
            final(self)@.len() == SYSCALL_DISPATCH_TABLE_LEN,
            final(self)@ == installed(old(self)@),
            old(self)@ == Seq::new(SYSCALL_DISPATCH_TABLE_LEN as nat, |i: int| None::<Handler>) ==>
                final(self)@ == Seq::new(SYSCALL_DISPATCH_TABLE_LEN as nat, |i: int| core_handler(i)),
    {
        proof {
            use_type_invariant(&*self);
        }
        let spare = SyscallTable::new();
        let mut slots: Vec<Option<Handler>> = spare.slots;
        std::mem::swap(&mut slots, &mut self.slots);
        slots.set(SYS_WRITE as usize, Some(Handler::Write));
        slots.set(SYS_READ as usize, Some(Handler::Read));
        slots.set(SYS_YIELD as usize, Some(Handler::Yield));
        slots.set(SYS_GETPID as usize, Some(Handler::GetPid));
        slots.set(SYS_EXIT as usize, Some(Handler::Exit));
        slots.set(SYS_SLEEP as usize, Some(Handler::Sleep));
        slots.set(SYS_ENDPOINT_CREATE as usize, Some(Handler::EndpointCreate));
        slots.set(SYS_ENDPOINT_DESTROY as usize, Some(Handler::EndpointDestroy));
        slots.set(SYS_ENDPOINT_CALL as usize, Some(Handler::EndpointCall));
        slots.set(SYS_ENDPOINT_RECV as usize, Some(Handler::EndpointRecv));
        slots.set(SYS_ENDPOINT_REPLY as usize, Some(Handler::EndpointReply));
        slots.set(SYS_ABI_INFO as usize, Some(Handler::AbiInfo));
        self.slots = slots;
        assert(self.slots@ =~= installed(old(self)@));
        assert(old(self)@ == Seq::new(SYSCALL_DISPATCH_TABLE_LEN as nat, |i: int| None::<Handler>) ==>
            installed(old(self)@) =~= Seq::new(SYSCALL_DISPATCH_TABLE_LEN as nat, |i: int| core_handler(i)));
    }

    /// The handler for number `nr`; `None` for a number outside the table.
    pub fn lookup(&self, nr: u64) -> (r: Option<Handler>)
        ensures
            r == (if nr < SYSCALL_DISPATCH_TABLE_LEN { self@[nr as int] } else { None }),
    {
        proof {
            use_type_invariant(self);
        }
        if nr >= SYSCALL_DISPATCH_TABLE_LEN as u64 {
            return None;
        }
        self.slots[nr as usize]
    }
}

/// What the trap path does with a syscall.
#[derive(Clone, Copy, PartialEq, Eq, Debug, Structural)]
pub enum SyscallAction {
    /// Put the word in `x0` and return.
    Return(u64),
    /// Switch from task `from` to task `to`; `0` is returned once the caller runs again.
    Switch { from: usize, to: usize },
    /// Run the [`sys_write_step`] steps for this buffer.
    Write { fd: u64, buf: u64, len: u64 },
    /// Put the caller to sleep for `ms` milliseconds; `0` is returned afterwards.
    Sleep(u64),
    /// The caller exits with this code and does not return.
    Exit(u64),
    /// Block the caller until its `call` is answered, then return [`Kernel::finish_call`].
    BlockForReply,
    /// Block the caller until a request arrives on endpoint `id`, then return [`Kernel::finish_recv`].
    BlockForMessage(u64),
}

/// The kernel objects syscalls act on.
pub struct Kernel {
    pub tasks: TaskTable,
    pub endpoints: EndpointTable,
    pub syscalls: SyscallTable,
}

pub open spec fn kernel_wf(tasks: TaskTableView, eps: TableView, table: Seq<Option<Handler>>) -> bool {
    &&& tasks.wf()
    &&& eps.wf()
    &&& table.len() == SYSCALL_DISPATCH_TABLE_LEN
}

/// The outcome of `SYS_YIELD` from task table `old` to `new`: return `0` with
/// nothing changed when no task is Ready, else switch from the current task to
/// the first Ready one after it in cyclic order.
pub open spec fn yield_outcome(old: TaskTableView, new: TaskTableView, r: SyscallAction) -> bool {
    let cur = old.current;
    if forall|k: int| 1 <= k <= MAX_TASKS ==> old.tasks[#[trigger] task_after(cur, k)].state != TaskState::Ready {
        r == SyscallAction::Return(0) && new == old
    } else {
        &&& r is Switch
        &&& r->from == cur
        &&& exists|k: int| #[trigger] first_ready_step(old.tasks, cur, k) && r->to == task_after(cur, k)
        &&& new.current == r->to
        &&& new.tasks == old.tasks
            .update(cur, Task { state: yielded_state(old.tasks[cur].state), ..old.tasks[cur] })
            .update(r->to as int, Task { state: TaskState::Running, ..old.tasks[r->to as int] })
    }
}

/// The outcome of `SYS_ENDPOINT_CREATE` by `caller`: the first free endpoint
/// becomes the caller's, or `ENOMEM` when none is free.
pub open spec fn create_outcome(old: TableView, new: TableView, caller: TaskId, r: u64) -> bool {
    if table_full(old) {
        r == errno_word(Errno::ENOMEM) && new == old
    } else {
        first_free(old, r as int) && new == old.with_ep(r as int, Endpoint { in_use: true, owner: caller, ..empty_endpoint() })
    }
}

/// What `SYS_ENDPOINT_CALL` does with the endpoint's answer: return it, or block.
pub open spec fn call_action(res: CallResult) -> SyscallAction {
    match res {
        CallResult::Reply(v) => SyscallAction::Return(v),
        CallResult::Blocked => SyscallAction::BlockForReply,
    }
}

/// What `SYS_ENDPOINT_RECV(id)` does with the endpoint's answer: return it, or block.
pub open spec fn recv_action(res: RecvResult, id: u64) -> SyscallAction {
    match res {
        RecvResult::Message(v) => SyscallAction::Return(v),
        RecvResult::Blocked => SyscallAction::BlockForMessage(id),
    }
}

/// The word returned for an endpoint operation that succeeds with `()` or fails.
pub open spec fn unit_result_word(r: Result<(), Errno>) -> u64 {
    match r {
        Ok(()) => 0,
        Err(e) => errno_word(e) as u64,
    }
}

/// `SYS_READ` is reserved: always `ENOSYS`.
pub fn sys_read() -> (r: u64)
    ensures
        r == errno_word(Errno::ENOSYS),
{
    Errno::ENOSYS.as_u64()
}

/// `SYS_ABI_INFO`: version and capability bits.
pub fn sys_abi_info() -> (r: u64)
    ensures
        r == abi_info_spec(),
{
    abi_info_word()
}

/// `SYS_SLEEP(ms)`: the caller sleeps, then `0` is returned.
pub fn sys_sleep(ms: u64) -> (r: SyscallAction)
    ensures
        r == SyscallAction::Sleep(ms),
{
    SyscallAction::Sleep(ms)
}

/// `SYS_EXIT(code)`: the caller exits.
pub fn sys_exit(code: u64) -> (r: SyscallAction)
    ensures
        r == SyscallAction::Exit(code),
{
    SyscallAction::Exit(code)
}

impl Kernel {
    /// `SYS_YIELD`: switch to the next Ready task, or return `0` at once when none is Ready.
    pub fn sys_yield(&mut self) -> (r: SyscallAction)
        requires
            old(self).tasks@.wf(),
        ensures
            final(self).tasks@.wf(),
            final(self).endpoints@ == old(self).endpoints@,
            final(self).syscalls@ == old(self).syscalls@,
            yield_outcome(old(self).tasks@, final(self).tasks@, r),
    {
        match self.tasks.yield_now() {
            Some((from, to)) => SyscallAction::Switch { from, to },
            None => SyscallAction::Return(0),
        }
    }

    /// `SYS_GETPID`: the current task's id.
    pub fn sys_getpid(&self) -> (r: u64)
        requires
            self.tasks@.wf(),
        ensures
            r == self.tasks@.tasks[self.tasks@.current].id.0,
    {
        self.tasks.current_id().0 as u64
    }

    /// `SYS_ENDPOINT_CREATE`: a new endpoint owned by the caller, or `ENOMEM` when the table is full.
    pub fn sys_endpoint_create(&mut self) -> (r: u64)
        requires
            old(self).tasks@.wf(),
            old(self).endpoints@.wf(),
        ensures
            final(self).endpoints@.wf(),
            final(self).tasks@ == old(self).tasks@,
            final(self).syscalls@ == old(self).syscalls@,
            create_outcome(old(self).endpoints@, final(self).endpoints@,
                old(self).tasks@.tasks[old(self).tasks@.current].id, r),
    {
        let caller = self.tasks.current_id();
        match self.endpoints.create_with_owner(caller) {
            Some(id) => id as u64,
            None => Errno::ENOMEM.as_u64(),
        }
    }

    /// `SYS_ENDPOINT_DESTROY(id)`: `0`, or `EINVAL` / `ENOENT` / `EPERM`.
    pub fn sys_endpoint_destroy(&mut self, id: u64) -> (r: u64)
        requires
            old(self).tasks@.wf(),
            old(self).endpoints@.wf(),
        ensures
            final(self).endpoints@.wf(),
            final(self).tasks@ == old(self).tasks@,
            final(self).syscalls@ == old(self).syscalls@,
            ({
                let (t, res) = destroy_step(old(self).endpoints@, id, old(self).tasks@.tasks[old(self).tasks@.current].id);
                final(self).endpoints@ == t && r == unit_result_word(res)
            }),
    {
        let caller = self.tasks.current_id();
        match self.endpoints.destroy_with_caller(id, caller) {
            Ok(()) => 0,
            Err(e) => e.as_u64(),
        }
    }

    /// `SYS_ENDPOINT_CALL(id, msg)`: an immediate error word, or block until the reply.
    pub fn sys_endpoint_call(&mut self, id: u64, msg: u64) -> (r: SyscallAction)
        requires
            old(self).tasks@.wf(),
            old(self).endpoints@.wf(),
        ensures
            final(self).endpoints@.wf(),
            final(self).tasks@ == old(self).tasks@,
            final(self).syscalls@ == old(self).syscalls@,
            ({
                let (t, res) = call_step(old(self).endpoints@, id, msg, old(self).tasks@.tasks[old(self).tasks@.current].id);
                &&& final(self).endpoints@ == t
                &&& r == call_action(res)
            }),
    {
        let caller = self.tasks.current_id();
        match self.endpoints.call_with_caller(id, msg, caller) {
            CallResult::Reply(v) => SyscallAction::Return(v),
            CallResult::Blocked => SyscallAction::BlockForReply,
        }
    }

    /// The result of a `call` once its caller runs again: the reply delivered to it.
    pub fn finish_call(&mut self) -> (r: u64)
        requires
            old(self).tasks@.wf(),
            old(self).endpoints@.wf(),
        ensures
            final(self).endpoints@.wf(),
            final(self).tasks@ == old(self).tasks@,
            final(self).syscalls@ == old(self).syscalls@,
            ({
                let (t, v) = take_reply_step(old(self).endpoints@, old(self).tasks@.tasks[old(self).tasks@.current].id.0 as int);
                final(self).endpoints@ == t && r == v
            }),
    {
        let idx = self.tasks.current_id().0 as usize;
        self.endpoints.take_reply_value(idx)
    }

    /// `SYS_ENDPOINT_RECV(id)`: the packed request, an error word, or block until a request arrives.
    pub fn sys_endpoint_recv(&mut self, id: u64) -> (r: SyscallAction)
        requires
            old(self).tasks@.wf(),
            old(self).endpoints@.wf(),
        ensures
            final(self).endpoints@.wf(),
            final(self).tasks@ == old(self).tasks@,
            final(self).syscalls@ == old(self).syscalls@,
            ({
                let (t, res) = recv_step(old(self).endpoints@, id, old(self).tasks@.tasks[old(self).tasks@.current].id);
                &&& final(self).endpoints@ == t
                &&& r == recv_action(res, id)
            }),
    {
        let caller = self.tasks.current_id();
        match self.endpoints.recv_with_caller(id, caller) {
            RecvResult::Message(v) => SyscallAction::Return(v),
            RecvResult::Blocked => SyscallAction::BlockForMessage(id),
        }
    }

    /// The result of a blocked `recv` once its caller runs again: the request is
    /// received now, or `EAGAIN` when there still is none.
    pub fn finish_recv(&mut self, id: u64) -> (r: u64)
        requires
            old(self).tasks@.wf(),
            old(self).endpoints@.wf(),
        ensures
            final(self).endpoints@.wf(),
            final(self).tasks@ == old(self).tasks@,
            final(self).syscalls@ == old(self).syscalls@,
            ({
                let (t, res) = recv_step(old(self).endpoints@, id, old(self).tasks@.tasks[old(self).tasks@.current].id);
                &&& final(self).endpoints@ == t
                &&& r == match res {
                    RecvResult::Message(v) => v,
                    RecvResult::Blocked => errno_word(Errno::EAGAIN) as u64,
                }
            }),
    {
        let caller = self.tasks.current_id();
        match self.endpoints.recv_with_caller(id, caller) {
            RecvResult::Message(v) => v,
            RecvResult::Blocked => Errno::EAGAIN.as_u64(),
        }
    }

    /// `SYS_ENDPOINT_REPLY(id, client_id, msg)`: `0`, or `EINVAL` / `ENOENT` / `EPERM`.
    pub fn sys_endpoint_reply(&mut self, id: u64, client_id: u64, msg: u64) -> (r: u64)
        requires
            old(self).tasks@.wf(),
            old(self).endpoints@.wf(),
        ensures
            final(self).endpoints@.wf(),
            final(self).tasks@ == old(self).tasks@,
            final(self).syscalls@ == old(self).syscalls@,
            ({
                let (t, res) = reply_step(old(self).endpoints@, id, client_id, msg, old(self).tasks@.tasks[old(self).tasks@.current].id);
                final(self).endpoints@ == t && r == unit_result_word(res)
            }),
    {
        let caller = self.tasks.current_id();
        match self.endpoints.reply_with_caller(id, client_id, msg, caller) {
            Ok(()) => 0,
            Err(e) => e.as_u64(),
        }
    }

    /// Dispatches syscall `nr` with arguments `a0`–`a5` to its handler; a number
    /// outside the table or without a handler gets `ENOSYS`.
    pub fn dispatch(&mut self, nr: u64, a0: u64, a1: u64, a2: u64, a3: u64, a4: u64, a5: u64) -> (r: SyscallAction)
        requires
            kernel_wf(old(self).tasks@, old(self).endpoints@, old(self).syscalls@),
        ensures
            kernel_wf(final(self).tasks@, final(self).endpoints@, final(self).syscalls@),
            final(self).syscalls@ == old(self).syscalls@,
            ({
                let h = if nr < SYSCALL_DISPATCH_TABLE_LEN { old(self).syscalls@[nr as int] } else { None };
                let caller = old(self).tasks@.tasks[old(self).tasks@.current].id;
                match h {
                    None => r == SyscallAction::Return(errno_word(Errno::ENOSYS) as u64)
                        && final(self).tasks@ == old(self).tasks@ && final(self).endpoints@ == old(self).endpoints@,
                    Some(Handler::Write) => r == (SyscallAction::Write { fd: a0, buf: a1, len: a2 })
                        && final(self).tasks@ == old(self).tasks@ && final(self).endpoints@ == old(self).endpoints@,
                    Some(Handler::Read) => r == SyscallAction::Return(errno_word(Errno::ENOSYS) as u64)
                        && final(self).tasks@ == old(self).tasks@ && final(self).endpoints@ == old(self).endpoints@,
                    Some(Handler::Yield) => yield_outcome(old(self).tasks@, final(self).tasks@, r)
                        && final(self).endpoints@ == old(self).endpoints@,
                    Some(Handler::GetPid) => r == SyscallAction::Return(caller.0 as u64)
                        && final(self).tasks@ == old(self).tasks@ && final(self).endpoints@ == old(self).endpoints@,
                    Some(Handler::Exit) => r == SyscallAction::Exit(a0)
                        && final(self).tasks@ == old(self).tasks@ && final(self).endpoints@ == old(self).endpoints@,
                    Some(Handler::Sleep) => r == SyscallAction::Sleep(a0)
                        && final(self).tasks@ == old(self).tasks@ && final(self).endpoints@ == old(self).endpoints@,
                    Some(Handler::EndpointCreate) => final(self).tasks@ == old(self).tasks@
                        && (r matches SyscallAction::Return(w)
                            && create_outcome(old(self).endpoints@, final(self).endpoints@, caller, w)),
                    Some(Handler::EndpointDestroy) => {
                        let (t, res) = destroy_step(old(self).endpoints@, a0, caller);
                        final(self).endpoints@ == t && r == SyscallAction::Return(unit_result_word(res))
                    },
                    Some(Handler::EndpointCall) => {
                        let (t, res) = call_step(old(self).endpoints@, a0, a1, caller);
                        &&& final(self).endpoints@ == t
                        &&& r == match res {
                            CallResult::Reply(v) => SyscallAction::Return(v),
                            CallResult::Blocked => SyscallAction::BlockForReply,
                        }
                    },
                    Some(Handler::EndpointRecv) => {
                        let (t, res) = recv_step(old(self).endpoints@, a0, caller);
                        &&& final(self).endpoints@ == t
                        &&& r == match res {
                            RecvResult::Message(v) => SyscallAction::Return(v),
                            RecvResult::Blocked => SyscallAction::BlockForMessage(a0),
                        }
                    },
                    Some(Handler::EndpointReply) => {
                        let (t, res) = reply_step(old(self).endpoints@, a0, a1, a2, caller);
                        final(self).endpoints@ == t && r == SyscallAction::Return(unit_result_word(res))
                    },
                    Some(Handler::AbiInfo) => r == SyscallAction::Return(abi_info_spec())
                        && final(self).tasks@ == old(self).tasks@ && final(self).endpoints@ == old(self).endpoints@,
                }
            }),
    {
        let h = self.syscalls.lookup(nr);
        match h {
            None => SyscallAction::Return(Errno::ENOSYS.as_u64()),
            Some(Handler::Write) => SyscallAction::Write { fd: a0, buf: a1, len: a2 },
            Some(Handler::Read) => SyscallAction::Return(sys_read()),
            Some(Handler::Yield) => self.sys_yield(),
            Some(Handler::GetPid) => SyscallAction::Return(self.sys_getpid()),
            Some(Handler::Exit) => sys_exit(a0),
            Some(Handler::Sleep) => sys_sleep(a0),
            Some(Handler::EndpointCreate) => SyscallAction::Return(self.sys_endpoint_create()),
            Some(Handler::EndpointDestroy) => SyscallAction::Return(self.sys_endpoint_destroy(a0)),
            Some(Handler::EndpointCall) => self.sys_endpoint_call(a0, a1),
            Some(Handler::EndpointRecv) => self.sys_endpoint_recv(a0),
            Some(Handler::EndpointReply) => SyscallAction::Return(self.sys_endpoint_reply(a0, a1, a2)),
            Some(Handler::AbiInfo) => SyscallAction::Return(sys_abi_info()),
        }
    }
}

/// The syscall round trip on an endpoint: client `C` calls and blocks; the
/// owner `S` receives `C`'s id in the high 32 bits and the request's low 32 bits
/// in the low half, replies with `answer` and gets `0`; once `C` runs again its
/// `call` returns `answer`, the whole 64-bit word.
pub proof fn law_endpoint_syscall_round_trip(
    t: TableView, id: u64, client: TaskId, owner: TaskId, msg: u64, answer: u64,
)
    requires
        t.wf(),
        id < MAX_ENDPOINTS,
        t.eps[id as int].in_use,
        t.eps[id as int].owner == owner,
        !t.eps[id as int].has_pending_call,
        client != owner,
        client.0 < MAX_TASK_SLOTS,
    ensures
        ({
            let (t1, r1) = call_step(t, id, msg, client);
            let (t2, r2) = recv_step(t1, id, owner);
            let (t3, r3) = reply_step(t2, id, client.0 as u64, answer, owner);
            &&& call_action(r1) == SyscallAction::BlockForReply
            &&& recv_action(r2, id) == SyscallAction::Return(
                ((client.0 as u64) * 0x1_0000_0000 + msg % 0x1_0000_0000) as u64)
            &&& unit_result_word(r3) == 0
            &&& take_reply_step(t3, client.0 as int).1 == answer
        }),
{
    law_call_recv_reply(t, id, client, owner, msg, answer);
    assert((client.0 as u64) % 0x1_0000_0000 == client.0 as u64);
}

/// Once initialized, the table dispatches exactly the implemented numbers:
/// every other number, inside or outside the table, answers `ENOSYS`.
pub proof fn law_unassigned_numbers_are_enosys(nr: u64)
    requires
        nr > SYS_ABI_INFO,
    ensures
        (if nr < SYSCALL_DISPATCH_TABLE_LEN {
            Seq::new(SYSCALL_DISPATCH_TABLE_LEN as nat, |i: int| core_handler(i))[nr as int]
        } else {
            None
        }) == None::<Handler>,
{
}

} // verus!
