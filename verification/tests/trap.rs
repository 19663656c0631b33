use lib::trap::{
    classify_exception, esr_ec, esr_iss, set_syscall_return, syscall_request, ExceptionAction, ExceptionKind,
    TrapFrame, EC_SVC64,
};

const ESR_SVC: u64 = 0x5600_0000; // EC 0x15, IL set
const ESR_DABT_EL1: u64 = 0x9600_0045; // EC 0x25

fn frame() -> TrapFrame {
    let mut x = [0u64; 31];
    for (i, slot) in x.iter_mut().enumerate() {
        *slot = 100 + i as u64;
    }
    TrapFrame { x, sp_el0: 0x8000, elr_el1: 0x1010, spsr_el1: 0x3c0 }
}

#[test]
fn exception_kind_from_slot_number() {
    assert_eq!(ExceptionKind::try_from(0), Ok(ExceptionKind::El1SyncSpx));
    assert_eq!(ExceptionKind::try_from(5), Ok(ExceptionKind::El0IrqA64));
    assert_eq!(ExceptionKind::try_from(7), Ok(ExceptionKind::El0SErrorA64));
    assert_eq!(ExceptionKind::try_from(8), Err(()));
    assert_eq!(ExceptionKind::try_from(255), Err(()));
}

#[test]
fn syndrome_fields() {
    assert_eq!(esr_ec(ESR_SVC), EC_SVC64);
    assert_eq!(esr_ec(ESR_DABT_EL1), 0x25);
    assert_eq!(esr_iss(ESR_DABT_EL1), 0x45);
    assert_eq!(esr_iss(0xFFFF_FFFF), 0x1FF_FFFF);
}

#[test]
fn exception_actions_per_slot() {
    assert_eq!(
        classify_exception(1, 0, true),
        ExceptionAction::Irq { from_el0: false, save_user: false }
    );
    assert_eq!(
        classify_exception(5, 0, true),
        ExceptionAction::Irq { from_el0: true, save_user: true }
    );
    assert_eq!(
        classify_exception(5, 0, false),
        ExceptionAction::Irq { from_el0: true, save_user: false }
    );
    assert_eq!(
        classify_exception(4, ESR_SVC, true),
        ExceptionAction::Syscall { save_user: true, restore_user: true }
    );
    assert_eq!(
        classify_exception(4, ESR_DABT_EL1, true),
        ExceptionAction::Fatal { kind: ExceptionKind::El0SyncA64, save_user: true }
    );
    assert_eq!(
        classify_exception(0, ESR_SVC, true),
        ExceptionAction::Syscall { save_user: false, restore_user: false }
    );
    assert_eq!(
        classify_exception(0, ESR_DABT_EL1, false),
        ExceptionAction::Fatal { kind: ExceptionKind::El1SyncSpx, save_user: false }
    );
    assert_eq!(
        classify_exception(7, 0, true),
        ExceptionAction::Fatal { kind: ExceptionKind::El0SErrorA64, save_user: false }
    );
    assert_eq!(classify_exception(2, 0, false), ExceptionAction::Hang);
    assert_eq!(classify_exception(6, 0, false), ExceptionAction::Hang);
    assert_eq!(classify_exception(8, 0, false), ExceptionAction::Hang);
    assert_eq!(classify_exception(0x1_0000_0001, 0, false), ExceptionAction::Hang);
}

#[test]
fn syscall_arguments_and_return_go_through_the_frame() {
    let mut tf = frame();
    let (nr, args) = syscall_request(&tf);
    assert_eq!(nr, 108);
    assert_eq!(args, [100, 101, 102, 103, 104, 105]);
    set_syscall_return(&mut tf, 0xFFFF_FFFF_FFFF_FFF2);
    assert_eq!(tf.x[0], 0xFFFF_FFFF_FFFF_FFF2);
    assert_eq!(tf.x[1], 101);
    assert_eq!(tf.x[30], 130);
    assert_eq!(tf.sp_el0, 0x8000);
    assert_eq!(tf.elr_el1, 0x1010);
    assert_eq!(tf.spsr_el1, 0x3c0);
}
