//! Layout of the AArch64 trap frame that the exception vector stubs save.
//!
//! The stubs reserve `TRAP_FRAME_SIZE` bytes (`sub sp, sp, #272`), store x0–x30
//! and `SP_EL0` in 8-byte slots from offset 0, then `ELR_EL1` at offset 256 and
//! `SPSR_EL1` at offset 264.
use vstd::prelude::*;

verus! {

/// Saved general-purpose register state on exception entry.
pub struct TrapFrame {
    pub x: [u64; 31],
    pub sp_el0: u64,
    pub elr_el1: u64,
    pub spsr_el1: u64,
}

/// Bytes reserved on the stack per exception entry.
pub const TRAP_FRAME_SIZE: usize = 272;

/// Byte offset of `elr_el1` from the trap frame base (`str x3, [sp, #256]`).
pub const TRAP_FRAME_OFFSET_ELR_EL1: usize = 256;

/// Byte offset of `spsr_el1` from the trap frame base (`str x4, [sp, #264]`).
pub const TRAP_FRAME_OFFSET_SPSR_EL1: usize = 264;

/// Byte offset of `sp_el0`: directly after the 31 general-purpose registers.
pub const TRAP_FRAME_OFFSET_SP_EL0: usize = 248;

/// The value the 8-byte slot at byte `offset` of the frame holds.
pub open spec fn slot_value(tf: TrapFrame, offset: int) -> u64 {
    let i = offset / 8;
    if i < 31 { tf.x[i] } else if i == 31 { tf.sp_el0 } else if i == 32 { tf.elr_el1 } else { tf.spsr_el1 }
}

/// `offset` names one of the 34 slots.
pub open spec fn slot_offset_ok(offset: int) -> bool {
    0 <= offset < TRAP_FRAME_SIZE && offset % 8 == 0
}

impl TrapFrame {
    /// Reads the slot at byte `offset`, as a load `ldr xN, [sp, #offset]` of the stubs does.
    pub fn load_slot(&self, offset: usize) -> (r: u64)
        requires
            slot_offset_ok(offset as int),
        ensures
            r == slot_value(*self, offset as int),
    {
        let i = offset / 8;
        if i < 31 {
            self.x[i]
        } else if i == 31 {
            self.sp_el0
        } else if i == 32 {
            self.elr_el1
        } else {
            self.spsr_el1
        }
    }

    /// Writes the slot at byte `offset`, as a store `str xN, [sp, #offset]` of the stubs does.
    pub fn store_slot(&mut self, offset: usize, v: u64)
        requires
            slot_offset_ok(offset as int),
        ensures
            slot_value(*final(self), offset as int) == v,
            forall|o: int| slot_offset_ok(o) && o != offset ==>
                #[trigger] slot_value(*final(self), o) == slot_value(*old(self), o),
    {
        let i = offset / 8;
        if i < 31 {
            self.x[i] = v;
        } else if i == 31 {
            self.sp_el0 = v;
        } else if i == 32 {
            self.elr_el1 = v;
        } else {
            self.spsr_el1 = v;
        }
        assert forall|o: int| slot_offset_ok(o) && o != offset implies
            #[trigger] slot_value(*self, o) == slot_value(*old(self), o) by {
            assert(o / 8 != offset / 8);
        }
    }
}

/// The slots the stubs address by offset are the fields of the frame: x0–x30,
/// then `sp_el0` at 248, `elr_el1` at 256 and `spsr_el1` at 264.
pub proof fn law_slots_alias_fields(tf: TrapFrame)
    ensures
        forall|i: int| 0 <= i < 31 ==> #[trigger] slot_value(tf, i * 8) == tf.x[i],
        slot_value(tf, TRAP_FRAME_OFFSET_SP_EL0 as int) == tf.sp_el0,
        slot_value(tf, TRAP_FRAME_OFFSET_ELR_EL1 as int) == tf.elr_el1,
        slot_value(tf, TRAP_FRAME_OFFSET_SPSR_EL1 as int) == tf.spsr_el1,
        TRAP_FRAME_OFFSET_SP_EL0 + 8 == TRAP_FRAME_OFFSET_ELR_EL1,
        TRAP_FRAME_OFFSET_ELR_EL1 + 8 == TRAP_FRAME_OFFSET_SPSR_EL1,
        TRAP_FRAME_OFFSET_SPSR_EL1 + 8 == TRAP_FRAME_SIZE,
{
    assert forall|i: int| 0 <= i < 31 implies #[trigger] slot_value(tf, i * 8) == tf.x[i] by {
        assert((i * 8) / 8 == i) by (nonlinear_arith);
    }
}

} // verus!
