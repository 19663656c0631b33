//! Endpoint table for IPC with a blocking rendezvous: **call → recv → reply**.
//!
//! - `call(ep, msg)` posts a request and blocks the caller until the owner has
//!   received it and replied.
//! - `recv(ep)` consumes a pending request, or registers the owner as the blocked
//!   receiver until a request arrives.
//! - `reply(ep, client, msg)` stores the reply for the client and wakes it.
//!
//! The table does not run the scheduler: an operation that wakes a task records
//! it, and the caller of the table takes it with [`EndpointTable::take_wake`].
use vstd::prelude::*;
use crate::syscall_abi::{Errno, errno_word, recv_word, endpoint_recv_pack, ENDPOINT_INLINE_REQ_MASK};
use crate::task::TaskId;

verus! {

pub const MAX_ENDPOINTS: usize = 16;
pub const MAX_TASK_SLOTS: usize = 16;
pub const INVALID_TASK_ID: u16 = 0xFFFF;

#[derive(Clone, Copy, PartialEq, Eq, Debug, Structural)]
pub struct Endpoint {
    pub in_use: bool,
    pub owner: TaskId,
    pub has_pending_call: bool,
    pub pending_client: TaskId,
    pub pending_msg: u64,
    pub blocked_receiver: TaskId,
}

/// A free endpoint slot.
pub open spec fn empty_endpoint() -> Endpoint {
    Endpoint {
        in_use: false,
        owner: TaskId(0),
        has_pending_call: false,
        pending_client: TaskId(INVALID_TASK_ID),
        pending_msg: 0,
        blocked_receiver: TaskId(INVALID_TASK_ID),
    }
}

fn make_empty_endpoint() -> (r: Endpoint)
    ensures
        r == empty_endpoint(),
{
    Endpoint {
        in_use: false,
        owner: TaskId(0),
        has_pending_call: false,
        pending_client: TaskId(INVALID_TASK_ID),
        pending_msg: 0,
        blocked_receiver: TaskId(INVALID_TASK_ID),
    }
}

/// Outcome of a `call`: an immediate reply word (an error), or the caller must block.
#[derive(Clone, Copy, PartialEq, Eq, Debug, Structural)]
pub enum CallResult {
    Reply(u64),
    Blocked,
}

/// Outcome of a `recv`: a packed request (or an error word), or the receiver must block.
#[derive(Clone, Copy, PartialEq, Eq, Debug, Structural)]
pub enum RecvResult {
    Message(u64),
    Blocked,
}

/// The abstract state of the table.
pub struct TableView {
    pub eps: Seq<Endpoint>,
    pub blocked: Seq<bool>,
    pub replies: Seq<u64>,
    pub wake: Option<TaskId>,
}

impl TableView {
    pub open spec fn wf(self) -> bool {
        &&& self.eps.len() == MAX_ENDPOINTS
        &&& self.blocked.len() == MAX_TASK_SLOTS
        &&& self.replies.len() == MAX_TASK_SLOTS
        &&& forall|i: int| 0 <= i < MAX_ENDPOINTS && !(#[trigger] self.eps[i]).in_use ==> self.eps[i] == empty_endpoint()
    }

    pub open spec fn with_ep(self, i: int, e: Endpoint) -> TableView {
        TableView { eps: self.eps.update(i, e), ..self }
    }
}

/// `i` is the first free endpoint slot.
pub open spec fn first_free(t: TableView, i: int) -> bool {
    &&& 0 <= i < MAX_ENDPOINTS
    &&& !t.eps[i].in_use
    &&& forall|j: int| 0 <= j < i ==> (#[trigger] t.eps[j]).in_use
}

pub open spec fn table_full(t: TableView) -> bool {
    forall|j: int| 0 <= j < MAX_ENDPOINTS ==> (#[trigger] t.eps[j]).in_use
}

/// The wake slot records a receiver only when one was registered.
pub open spec fn wake_receiver(r: TaskId) -> Option<TaskId> {
    if r.0 != INVALID_TASK_ID { Some(r) } else { None }
}

/// Effect of `destroy` by `caller`.
pub open spec fn destroy_step(t: TableView, id: u64, caller: TaskId) -> (TableView, Result<(), Errno>) {
    if id >= MAX_ENDPOINTS {
        (t, Err(Errno::EINVAL))
    } else if !t.eps[id as int].in_use {
        (t, Err(Errno::ENOENT))
    } else if t.eps[id as int].owner != caller {
        (t, Err(Errno::EPERM))
    } else {
        let w = wake_receiver(t.eps[id as int].blocked_receiver);
        (TableView { wake: if w is Some { w } else { t.wake }, ..t.with_ep(id as int, empty_endpoint()) }, Ok(()))
    }
}

/// Effect of `call(id, msg)` by `caller`.
pub open spec fn call_step(t: TableView, id: u64, msg: u64, caller: TaskId) -> (TableView, CallResult) {
    if id >= MAX_ENDPOINTS || caller.0 >= MAX_TASK_SLOTS {
        (t, CallResult::Reply(errno_word(Errno::EINVAL) as u64))
    } else {
        let ep = t.eps[id as int];
        if !ep.in_use {
            (t, CallResult::Reply(errno_word(Errno::ENOENT) as u64))
        } else if ep.owner == caller {
            (t, CallResult::Reply(errno_word(Errno::EPERM) as u64))
        } else if ep.has_pending_call {
            (t, CallResult::Reply(errno_word(Errno::EAGAIN) as u64))
        } else {
            let w = wake_receiver(ep.blocked_receiver);
            let ep2 = Endpoint {
                has_pending_call: true,
                pending_client: caller,
                pending_msg: (msg % 0x1_0000_0000) as u64,
                blocked_receiver: TaskId(INVALID_TASK_ID),
                ..ep
            };
            (TableView {
                eps: t.eps.update(id as int, ep2),
                blocked: t.blocked.update(caller.0 as int, true),
                replies: t.replies,
                wake: if w is Some { w } else { t.wake },
            }, CallResult::Blocked)
        }
    }
}

/// Effect of `recv(id)` by `caller`.
pub open spec fn recv_step(t: TableView, id: u64, caller: TaskId) -> (TableView, RecvResult) {
    if id >= MAX_ENDPOINTS {
        (t, RecvResult::Message(errno_word(Errno::EINVAL) as u64))
    } else {
        let ep = t.eps[id as int];
        if !ep.in_use {
            (t, RecvResult::Message(errno_word(Errno::ENOENT) as u64))
        } else if ep.owner != caller {
            (t, RecvResult::Message(errno_word(Errno::EPERM) as u64))
        } else if ep.has_pending_call {
            (t.with_ep(id as int, Endpoint {
                has_pending_call: false,
                pending_client: TaskId(INVALID_TASK_ID),
                pending_msg: 0,
                ..ep
            }), RecvResult::Message(recv_word(ep.pending_client.0 as u64, ep.pending_msg) as u64))
        } else {
            (t.with_ep(id as int, Endpoint { blocked_receiver: caller, ..ep }), RecvResult::Blocked)
        }
    }
}

/// Effect of `reply(id, client_id, msg)` by `caller`.
pub open spec fn reply_step(t: TableView, id: u64, client_id: u64, msg: u64, caller: TaskId) -> (TableView, Result<(), Errno>) {
    if id >= MAX_ENDPOINTS || client_id >= MAX_TASK_SLOTS {
        (t, Err(Errno::EINVAL))
    } else if !t.eps[id as int].in_use {
        (t, Err(Errno::ENOENT))
    } else if t.eps[id as int].owner != caller {
        (t, Err(Errno::EPERM))
    } else {
        (TableView {
            eps: t.eps,
            blocked: t.blocked.update(client_id as int, false),
            replies: t.replies.update(client_id as int, msg),
            wake: Some(TaskId(client_id as u16)),
        }, Ok(()))
    }
}

/// Effect of `take_reply_value(task_idx)`.
pub open spec fn take_reply_step(t: TableView, task_idx: int) -> (TableView, u64) {
    if task_idx < 0 || task_idx >= MAX_TASK_SLOTS {
        (t, errno_word(Errno::EINVAL) as u64)
    } else {
        (TableView { replies: t.replies.update(task_idx, 0), ..t }, t.replies[task_idx])
    }
}

pub struct EndpointTable {
    endpoints: Vec<Endpoint>,
    caller_blocked: Vec<bool>,
    reply_value: Vec<u64>,
    wake: Option<TaskId>,
}

impl View for EndpointTable {
    type V = TableView;

    closed spec fn view(&self) -> TableView {
        TableView {
            eps: self.endpoints@,
            blocked: self.caller_blocked@,
            replies: self.reply_value@,
            wake: self.wake,
        }
    }
}

impl EndpointTable {
    /// A table with every endpoint free and no task waiting.
    pub fn new() -> (r: Self)
        ensures
            r@.wf(),
            r@.eps == Seq::new(MAX_ENDPOINTS as nat, |i: int| empty_endpoint()),
            r@.blocked == Seq::new(MAX_TASK_SLOTS as nat, |i: int| false),
            r@.replies == Seq::new(MAX_TASK_SLOTS as nat, |i: int| 0u64),
            r@.wake is None,
    {
        let mut endpoints: Vec<Endpoint> = Vec::new();
        let mut caller_blocked: Vec<bool> = Vec::new();
        let mut reply_value: Vec<u64> = Vec::new();
        let mut i: usize = 0;
        while i < MAX_ENDPOINTS
            invariant
                i <= MAX_ENDPOINTS,
                endpoints@ == Seq::new(i as nat, |j: int| empty_endpoint()),
            decreases MAX_ENDPOINTS - i,
        {
            endpoints.push(make_empty_endpoint());
            i = i + 1;
        }
        let mut i: usize = 0;
        while i < MAX_TASK_SLOTS
            invariant
                i <= MAX_TASK_SLOTS,
                caller_blocked@ == Seq::new(i as nat, |j: int| false),
                reply_value@ == Seq::new(i as nat, |j: int| 0u64),
            decreases MAX_TASK_SLOTS - i,
        {
            caller_blocked.push(false);
            reply_value.push(0);
            i = i + 1;
        }
        EndpointTable { endpoints, caller_blocked, reply_value, wake: None }
    }

    /// Resets every endpoint and every waiting flag and reply value.
    pub fn init(&mut self)
        ensures
            final(self)@.wf(),
            final(self)@.eps == Seq::new(MAX_ENDPOINTS as nat, |i: int| empty_endpoint()),
            final(self)@.blocked == Seq::new(MAX_TASK_SLOTS as nat, |i: int| false),
            final(self)@.replies == Seq::new(MAX_TASK_SLOTS as nat, |i: int| 0u64),
            final(self)@.wake is None,
    {
        *self = EndpointTable::new();
    }

    /// Takes the task that the last operations woke, if any.
    pub fn take_wake(&mut self) -> (r: Option<TaskId>)
        ensures
            r == old(self)@.wake,
            final(self)@ == (TableView { wake: None, ..old(self)@ }),
    {
        let w = self.wake;
        self.wake = None;
        w
    }

    /// The state of endpoint `id`.
    pub fn endpoint(&self, id: usize) -> (r: Endpoint)
        requires
            self@.wf(),
            id < MAX_ENDPOINTS,
        ensures
            r == self@.eps[id as int],
    {
        self.endpoints[id]
    }

    /// Allocates the first free endpoint for `owner`; `None` when the table is full.
    pub fn create_with_owner(&mut self, owner: TaskId) -> (r: Option<u16>)
        requires
            old(self)@.wf(),
        ensures
            final(self)@.wf(),
            r is None <==> table_full(old(self)@),
            r is None ==> final(self)@ == old(self)@,
            r matches Some(i) ==> first_free(old(self)@, i as int) && final(self)@ == old(self)@.with_ep(
                i as int,
                Endpoint { in_use: true, owner, ..empty_endpoint() },
            ),
    {
        let mut idx: usize = 0;
        while idx < MAX_ENDPOINTS
            invariant
                self@ == old(self)@,
                self@.wf(),
                idx <= MAX_ENDPOINTS,
                forall|j: int| 0 <= j < idx ==> (#[trigger] self@.eps[j]).in_use,
            decreases MAX_ENDPOINTS - idx,
        {
            if !self.endpoints[idx].in_use {
                let mut e = self.endpoints[idx];
                e.in_use = true;
                e.owner = owner;
                self.endpoints.set(idx, e);
                assert(self@ == old(self)@.with_ep(idx as int, Endpoint { in_use: true, owner, ..empty_endpoint() }));
                return Some(idx as u16);
            }
            idx = idx + 1;
        }
        None
    }

    /// Destroys endpoint `id` on behalf of its owner, waking a blocked receiver.
    pub fn destroy_with_caller(&mut self, id: u64, caller: TaskId) -> (r: Result<(), Errno>)
        requires
            old(self)@.wf(),
        ensures
            final(self)@.wf(),
            (final(self)@, r) == destroy_step(old(self)@, id, caller),
    {
        if id >= MAX_ENDPOINTS as u64 {
            return Err(Errno::EINVAL);
        }
        let idx = id as usize;
        let ep = self.endpoints[idx];
        if !ep.in_use {
            return Err(Errno::ENOENT);
        }
        if ep.owner != caller {
            return Err(Errno::EPERM);
        }
        if ep.blocked_receiver.0 != INVALID_TASK_ID {
            self.wake = Some(ep.blocked_receiver);
        }
        self.endpoints.set(idx, make_empty_endpoint());
        Ok(())
    }

    /// Posts request `msg` (masked to its low 32 bits) from `caller` on endpoint `id`.
    pub fn call_with_caller(&mut self, id: u64, msg: u64, caller: TaskId) -> (r: CallResult)
        requires
            old(self)@.wf(),
        ensures
            final(self)@.wf(),
            (final(self)@, r) == call_step(old(self)@, id, msg, caller),
    {
        if id >= MAX_ENDPOINTS as u64 {
            return CallResult::Reply(Errno::EINVAL.as_u64());
        }
        let idx = id as usize;
        let caller_idx = caller.0 as usize;
        if caller_idx >= MAX_TASK_SLOTS {
            return CallResult::Reply(Errno::EINVAL.as_u64());
        }
        let ep = self.endpoints[idx];
        if !ep.in_use {
            return CallResult::Reply(Errno::ENOENT.as_u64());
        }
        if ep.owner == caller {
            return CallResult::Reply(Errno::EPERM.as_u64());
        }
        if ep.has_pending_call {
            return CallResult::Reply(Errno::EAGAIN.as_u64());
        }
        let masked = msg & ENDPOINT_INLINE_REQ_MASK;
        assert(masked == msg % 0x1_0000_0000) by (bit_vector)
            requires masked == msg & 0xFFFF_FFFF;
        let mut e = ep;
        e.has_pending_call = true;
        e.pending_client = caller;
        e.pending_msg = masked;
        self.caller_blocked.set(caller_idx, true);
        if ep.blocked_receiver.0 != INVALID_TASK_ID {
            self.wake = Some(ep.blocked_receiver);
        }
        e.blocked_receiver = TaskId(INVALID_TASK_ID);
        self.endpoints.set(idx, e);
        CallResult::Blocked
    }

    /// Receives the pending request on endpoint `id`, or registers `caller` as
    /// the blocked receiver.
    pub fn recv_with_caller(&mut self, id: u64, caller: TaskId) -> (r: RecvResult)
        requires
            old(self)@.wf(),
        ensures
            final(self)@.wf(),
            (final(self)@, r) == recv_step(old(self)@, id, caller),
    {
        if id >= MAX_ENDPOINTS as u64 {
            return RecvResult::Message(Errno::EINVAL.as_u64());
        }
        let idx = id as usize;
        let ep = self.endpoints[idx];
        if !ep.in_use {
            return RecvResult::Message(Errno::ENOENT.as_u64());
        }
        if ep.owner != caller {
            return RecvResult::Message(Errno::EPERM.as_u64());
        }
        if ep.has_pending_call {
            let client = ep.pending_client.0 as u64;
            let msg = ep.pending_msg & ENDPOINT_INLINE_REQ_MASK;
            let mut e = ep;
            e.has_pending_call = false;
            e.pending_client = TaskId(INVALID_TASK_ID);
            e.pending_msg = 0;
            self.endpoints.set(idx, e);
            let packed = endpoint_recv_pack(client, msg);
            proof {
                let pm = ep.pending_msg;
                assert(msg % 0x1_0000_0000 == pm % 0x1_0000_0000) by (bit_vector)
                    requires msg == pm & 0xFFFF_FFFF;
            }
            return RecvResult::Message(packed);
        }
        let mut e = ep;
        e.blocked_receiver = caller;
        self.endpoints.set(idx, e);
        RecvResult::Blocked
    }

    /// Delivers reply `msg` to task `client_id` waiting on endpoint `id` and wakes it.
    pub fn reply_with_caller(&mut self, id: u64, client_id: u64, msg: u64, caller: TaskId) -> (r: Result<(), Errno>)
        requires
            old(self)@.wf(),
        ensures
            final(self)@.wf(),
            (final(self)@, r) == reply_step(old(self)@, id, client_id, msg, caller),
    {
        if id >= MAX_ENDPOINTS as u64 {
            return Err(Errno::EINVAL);
        }
        if client_id >= MAX_TASK_SLOTS as u64 {
            return Err(Errno::EINVAL);
        }
        let idx = id as usize;
        let client_idx = client_id as usize;
        let ep = self.endpoints[idx];
        if !ep.in_use {
            return Err(Errno::ENOENT);
        }
        if ep.owner != caller {
            return Err(Errno::EPERM);
        }
        self.reply_value.set(client_idx, msg);
        self.caller_blocked.set(client_idx, false);
        self.wake = Some(TaskId(client_id as u16));
        Ok(())
    }

    /// Whether task `task_idx` is blocked inside `call`, waiting for its reply.
    pub fn is_caller_blocked(&self, task_idx: usize) -> (r: bool)
        requires
            self@.wf(),
        ensures
            r == (task_idx < MAX_TASK_SLOTS && self@.blocked[task_idx as int]),
    {
        if task_idx >= MAX_TASK_SLOTS {
            return false;
        }
        self.caller_blocked[task_idx]
    }

    /// Takes the reply delivered to task `task_idx`, leaving `0` in its place.
    pub fn take_reply_value(&mut self, task_idx: usize) -> (r: u64)
        requires
            old(self)@.wf(),
        ensures
            final(self)@.wf(),
            (final(self)@, r) == take_reply_step(old(self)@, task_idx as int),
    {
        if task_idx >= MAX_TASK_SLOTS {
            return Errno::EINVAL.as_u64();
        }
        let v = self.reply_value[task_idx];
        self.reply_value.set(task_idx, 0);
        v
    }
}

/// The rendezvous: a client's `call` blocks it; the owner's `recv` returns the
/// client id and the request (its low 32 bits); the owner's `reply` wakes the
/// client, which then takes exactly the reply that was sent.
pub proof fn law_call_recv_reply(t: TableView, id: u64, client: TaskId, owner: TaskId, msg: u64, answer: u64)
    requires
        t.wf(),
        id < MAX_ENDPOINTS,
        t.eps[id as int].in_use,
        t.eps[id as int].owner == owner,
        !t.eps[id as int].has_pending_call,
        client != owner,
        client.0 < MAX_TASK_SLOTS,
    ensures
        ({
            let (t1, r1) = call_step(t, id, msg, client);
            let (t2, r2) = recv_step(t1, id, owner);
            let (t3, r3) = reply_step(t2, id, client.0 as u64, answer, owner);
            let (t4, r4) = take_reply_step(t3, client.0 as int);
            &&& r1 == CallResult::Blocked
            &&& t1.blocked[client.0 as int]
            &&& r2 == RecvResult::Message(recv_word(client.0 as u64, msg) as u64)
            &&& r3 == Ok::<(), Errno>(())
            &&& !t3.blocked[client.0 as int]
            &&& t3.wake == Some(client)
            &&& r4 == answer
        }),
{
    assert((msg % 0x1_0000_0000) as u64 % 0x1_0000_0000 == msg % 0x1_0000_0000);
    let (t1, r1) = call_step(t, id, msg, client);
    let (t2, r2) = recv_step(t1, id, owner);
    assert(recv_word(client.0 as u64, (msg % 0x1_0000_0000) as u64) == recv_word(client.0 as u64, msg));
}

/// A receiver that blocks on an empty endpoint is woken by the next `call`,
/// whose request it then receives.
pub proof fn law_recv_then_call_wakes_receiver(t: TableView, id: u64, client: TaskId, owner: TaskId, msg: u64)
    requires
        t.wf(),
        id < MAX_ENDPOINTS,
        t.eps[id as int].in_use,
        t.eps[id as int].owner == owner,
        !t.eps[id as int].has_pending_call,
        owner.0 != INVALID_TASK_ID,
        client != owner,
        client.0 < MAX_TASK_SLOTS,
    ensures
        ({
            let (t1, r1) = recv_step(t, id, owner);
            let (t2, r2) = call_step(t1, id, msg, client);
            let (t3, r3) = recv_step(t2, id, owner);
            &&& r1 == RecvResult::Blocked
            &&& t1.eps[id as int].blocked_receiver == owner
            &&& r2 == CallResult::Blocked
            &&& t2.wake == Some(owner)
            &&& r3 == RecvResult::Message(recv_word(client.0 as u64, msg) as u64)
        }),
{
    assert((msg % 0x1_0000_0000) as u64 % 0x1_0000_0000 == msg % 0x1_0000_0000);
    let (t1, r1) = recv_step(t, id, owner);
    let (t2, r2) = call_step(t1, id, msg, client);
    assert(recv_word(client.0 as u64, (msg % 0x1_0000_0000) as u64) == recv_word(client.0 as u64, msg));
}

/// An owner never calls its own endpoint: the call is refused with `EPERM`
/// and nothing changes, whatever the endpoint holds.
pub proof fn law_owner_call_refused(t: TableView, id: u64, msg: u64, owner: TaskId)
    requires
        id < MAX_ENDPOINTS,
        owner.0 < MAX_TASK_SLOTS,
        t.eps[id as int].in_use,
        t.eps[id as int].owner == owner,
    ensures
        call_step(t, id, msg, owner) == (t, CallResult::Reply(errno_word(Errno::EPERM) as u64)),
        errno_word(Errno::EPERM) == 0xFFFF_FFFF_FFFF_FFFF,
{
}

/// Only the owner may destroy an endpoint, and a destroyed endpoint answers
/// every later operation with `ENOENT`.
pub proof fn law_destroy_owner_only(t: TableView, id: u64, owner: TaskId, other: TaskId, msg: u64)
    requires
        t.wf(),
        id < MAX_ENDPOINTS,
        t.eps[id as int].in_use,
        t.eps[id as int].owner == owner,
        other != owner,
        other.0 < MAX_TASK_SLOTS,
    ensures
        destroy_step(t, id, other) == (t, Err::<(), Errno>(Errno::EPERM)),
        ({
            let (t1, r1) = destroy_step(t, id, owner);
            &&& r1 == Ok::<(), Errno>(())
            &&& destroy_step(t1, id, owner).1 == Err::<(), Errno>(Errno::ENOENT)
            &&& call_step(t1, id, msg, other).1 == CallResult::Reply(errno_word(Errno::ENOENT) as u64)
            &&& recv_step(t1, id, owner).1 == RecvResult::Message(errno_word(Errno::ENOENT) as u64)
        }),
{
}

} // verus!
