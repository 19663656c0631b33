//! Exception classification and the syscall path through the trap frame.
//!
//! The vector stubs pass the slot kind of the taken vector; the decisions of
//! the exception handler are made here, while reading system registers,
//! switching tasks and `eret` stay with the caller.
use vstd::prelude::*;

pub use crate::trap_frame::TrapFrame;

verus! {

/// Classification of the active vector slot.
#[derive(Clone, Copy, PartialEq, Eq, Debug, Structural)]
pub enum ExceptionKind {
    El1SyncSpx,
    El1IrqSpx,
    El1FiqSpx,
    El1SErrorSpx,
    El0SyncA64,
    El0IrqA64,
    El0FiqA64,
    El0SErrorA64,
}

/// The slot number each kind is passed as.
pub open spec fn kind_code(k: ExceptionKind) -> int {
    match k {
        ExceptionKind::El1SyncSpx => 0,
        ExceptionKind::El1IrqSpx => 1,
        ExceptionKind::El1FiqSpx => 2,
        ExceptionKind::El1SErrorSpx => 3,
        ExceptionKind::El0SyncA64 => 4,
        ExceptionKind::El0IrqA64 => 5,
        ExceptionKind::El0FiqA64 => 6,
        ExceptionKind::El0SErrorA64 => 7,
    }
}

impl ExceptionKind {
    /// The kind passed as slot number `v`; `Err(())` for a number above 7.
    pub fn try_from(v: u8) -> (r: Result<ExceptionKind, ()>)
        ensures
            v < 8 <==> r is Ok,
            r matches Ok(k) ==> kind_code(k) == v,
    {
        match v {
            0 => Ok(ExceptionKind::El1SyncSpx),
            1 => Ok(ExceptionKind::El1IrqSpx),
            2 => Ok(ExceptionKind::El1FiqSpx),
            3 => Ok(ExceptionKind::El1SErrorSpx),
            4 => Ok(ExceptionKind::El0SyncA64),
            5 => Ok(ExceptionKind::El0IrqA64),
            6 => Ok(ExceptionKind::El0FiqA64),
            7 => Ok(ExceptionKind::El0SErrorA64),
            _ => Err(()),
        }
    }
}

/// Exception class of `ESR_EL1` (bits [31:26]) that marks an `SVC` from AArch64.
pub const EC_SVC64: u64 = 0x15;

/// Exception class field of a syndrome value.
pub open spec fn esr_class(esr: u64) -> int {
    (esr as int / 0x400_0000) % 64
}

/// Exception class (bits [31:26]) of a syndrome value.
pub fn esr_ec(esr: u64) -> (r: u64)
    ensures
        r == esr_class(esr),
{
    let r = (esr >> 26) & 0x3F;
    assert(r == (esr / 0x400_0000) % 64) by (bit_vector)
        requires r == (esr >> 26) & 0x3F;
    r
}

/// Instruction-specific syndrome (bits [24:0]) of a syndrome value, as the
/// fault report shows it.
pub fn esr_iss(esr: u64) -> (r: u64)
    ensures
        r == esr % 0x200_0000,
{
    let r = esr & 0x1FF_FFFF;
    assert(r == esr % 0x200_0000) by (bit_vector)
        requires r == esr & 0x1FF_FFFF;
    r
}

/// What the exception handler does for one exception.
#[derive(Clone, Copy, PartialEq, Eq, Debug, Structural)]
pub enum ExceptionAction {
    /// An IRQ: save the user return state first when `save_user`, dispatch it,
    /// reschedule if asked to, and (for an exception from EL0) restore the user
    /// return state of the task that runs next.
    Irq { from_el0: bool, save_user: bool },
    /// An `SVC`: save the user return state first when `save_user`, run the
    /// syscall on the trap frame, and restore the user return state when `restore_user`.
    Syscall { save_user: bool, restore_user: bool },
    /// A fault or an SError: save the user return state first when `save_user`,
    /// report the exception and stop.
    Fatal { kind: ExceptionKind, save_user: bool },
    /// An unexpected slot number or a FIQ: stop.
    Hang,
}

/// The action for an exception in slot `kind` with syndrome `esr`, taken while
/// the current task is (`is_user`) or is not a user task.
pub open spec fn exception_action(kind: u64, esr: u64, is_user: bool) -> ExceptionAction {
    if kind == 1 {
        ExceptionAction::Irq { from_el0: false, save_user: false }
    } else if kind == 5 {
        ExceptionAction::Irq { from_el0: true, save_user: is_user }
    } else if kind == 4 {
        if esr_class(esr) == EC_SVC64 {
            ExceptionAction::Syscall { save_user: is_user, restore_user: is_user }
        } else {
            ExceptionAction::Fatal { kind: ExceptionKind::El0SyncA64, save_user: is_user }
        }
    } else if kind == 0 {
        if esr_class(esr) == EC_SVC64 {
            ExceptionAction::Syscall { save_user: false, restore_user: false }
        } else {
            ExceptionAction::Fatal { kind: ExceptionKind::El1SyncSpx, save_user: false }
        }
    } else if kind == 3 {
        ExceptionAction::Fatal { kind: ExceptionKind::El1SErrorSpx, save_user: false }
    } else if kind == 7 {
        ExceptionAction::Fatal { kind: ExceptionKind::El0SErrorA64, save_user: false }
    } else {
        ExceptionAction::Hang
    }
}

/// Decides how to handle an exception taken in vector slot `kind` with syndrome
/// `esr` (read only for synchronous exceptions).
pub fn classify_exception(kind: u64, esr: u64, is_user: bool) -> (r: ExceptionAction)
    ensures
        r == exception_action(kind, esr, is_user),
{
    if kind > 255 {
        return ExceptionAction::Hang;
    }
    let k = match ExceptionKind::try_from(kind as u8) {
        Ok(k) => k,
        Err(()) => {
            return ExceptionAction::Hang;
        },
    };
    match k {
        ExceptionKind::El1IrqSpx => ExceptionAction::Irq { from_el0: false, save_user: false },
        ExceptionKind::El0IrqA64 => ExceptionAction::Irq { from_el0: true, save_user: is_user },
        ExceptionKind::El0SyncA64 => {
            if esr_ec(esr) == EC_SVC64 {
                ExceptionAction::Syscall { save_user: is_user, restore_user: is_user }
            } else {
                ExceptionAction::Fatal { kind: k, save_user: is_user }
            }
        },
        ExceptionKind::El1SyncSpx => {
            if esr_ec(esr) == EC_SVC64 {
                ExceptionAction::Syscall { save_user: false, restore_user: false }
            } else {
                ExceptionAction::Fatal { kind: k, save_user: false }
            }
        },
        ExceptionKind::El1SErrorSpx | ExceptionKind::El0SErrorA64 => ExceptionAction::Fatal { kind: k, save_user: false },
        _ => ExceptionAction::Hang,
    }
}

/// The syscall request saved in a trap frame: number from `x8`, arguments from `x0`–`x5`.
pub fn syscall_request(tf: &TrapFrame) -> (r: (u64, [u64; 6]))
    ensures
        r.0 == tf.x[8],
        forall|i: int| 0 <= i < 6 ==> r.1[i] == tf.x[i],
{
    (tf.x[8], [tf.x[0], tf.x[1], tf.x[2], tf.x[3], tf.x[4], tf.x[5]])
}

/// Places a syscall's return value in `x0`, leaving every other register as it was.
pub fn set_syscall_return(tf: &mut TrapFrame, ret: u64)
    ensures
        final(tf).x[0] == ret,
        forall|i: int| 1 <= i < 31 ==> final(tf).x[i] == old(tf).x[i],
        final(tf).sp_el0 == old(tf).sp_el0,
        final(tf).elr_el1 == old(tf).elr_el1,
        final(tf).spsr_el1 == old(tf).spsr_el1,
{
    tf.x[0] = ret;
}

} // verus!
