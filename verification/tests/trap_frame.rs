use lib::trap_frame::{
    TrapFrame, TRAP_FRAME_OFFSET_ELR_EL1, TRAP_FRAME_OFFSET_SPSR_EL1, TRAP_FRAME_OFFSET_SP_EL0,
    TRAP_FRAME_SIZE,
};
use std::mem::{align_of, size_of};

fn zeroed() -> TrapFrame {
    TrapFrame {
        x: [0u64; 31],
        sp_el0: 0,
        elr_el1: 0,
        spsr_el1: 0,
    }
}

fn assert_trap_frame_size_and_align_matches_asm() {
    assert_eq!(size_of::<TrapFrame>(), 272);
    assert_eq!(TRAP_FRAME_SIZE, 272);
    assert_eq!(align_of::<TrapFrame>(), 8);
}

fn assert_trap_frame_field_offsets_match_vector_stub() {
    let mut tf = zeroed();
    tf.store_slot(0, 7);
    assert_eq!(tf.x[0], 7);
    tf.store_slot(31 * 8, 9);
    assert_eq!(tf.sp_el0, 9);
    assert_eq!(TRAP_FRAME_OFFSET_SP_EL0, 31 * 8);
    tf.store_slot(TRAP_FRAME_OFFSET_ELR_EL1, 1);
    assert_eq!(tf.elr_el1, 1);
    tf.store_slot(TRAP_FRAME_OFFSET_SPSR_EL1, 2);
    assert_eq!(tf.spsr_el1, 2);
    assert_eq!(TRAP_FRAME_OFFSET_ELR_EL1, 256);
    assert_eq!(TRAP_FRAME_OFFSET_SPSR_EL1, 264);
    assert_eq!(
        TRAP_FRAME_OFFSET_SP_EL0 + size_of::<u64>(),
        TRAP_FRAME_OFFSET_ELR_EL1,
        "sp_el0 must be immediately before elr_el1 (asm relies on +248, +256)"
    );
}

/// `ELR_EL1` / `SPSR_EL1` live in the frame so a task that blocked inside a
/// syscall does not `eret` with another task's ELR after a context switch.
#[test]
fn trap_frame_includes_elr_spsr_for_blocking_syscall_eret() {
    assert_trap_frame_size_and_align_matches_asm();
    assert_trap_frame_field_offsets_match_vector_stub();
}

#[test]
fn trap_frame_asm_slots_alias_struct_fields() {
    let mut tf = zeroed();
    tf.store_slot(256, 0x11_22_33_44_55_66_77_88);
    tf.store_slot(264, 0xaa_bb_cc_dd_ee_ff_00_11);

    assert_eq!(tf.elr_el1, 0x11_22_33_44_55_66_77_88);
    assert_eq!(tf.spsr_el1, 0xaa_bb_cc_dd_ee_ff_00_11);
}

#[test]
fn loads_read_back_each_slot() {
    let mut tf = zeroed();
    for i in 0..31 {
        tf.x[i] = i as u64 + 100;
    }
    tf.sp_el0 = 1;
    tf.elr_el1 = 2;
    tf.spsr_el1 = 3;
    for i in 0..31 {
        assert_eq!(tf.load_slot(i * 8), i as u64 + 100);
    }
    assert_eq!(tf.load_slot(248), 1);
    assert_eq!(tf.load_slot(256), 2);
    assert_eq!(tf.load_slot(264), 3);
}
