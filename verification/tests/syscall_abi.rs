use lib::syscall_abi::{
    abi_info_word, endpoint_recv_pack, endpoint_recv_unpack, errno_from_ret, is_error, Errno,
    ABI_CAP_EL0_USER_AS, ABI_DRAFT_LABEL, ABI_VERSION, ENDPOINT_INLINE_REQ_MASK,
    SYSCALL_DISPATCH_TABLE_LEN, SYSCALL_NR_CORE_MAX, SYS_ABI_INFO,
};

#[test]
fn abi_info_syscall_number_reserved() {
    assert_eq!(SYS_ABI_INFO, 11);
}

#[test]
fn dispatch_table_len_matches_core_range() {
    assert_eq!(SYSCALL_DISPATCH_TABLE_LEN, SYSCALL_NR_CORE_MAX as usize + 1);
}

#[test]
fn abi_draft_label_non_empty() {
    assert!(!ABI_DRAFT_LABEL.is_empty());
}

#[test]
fn abi_info_word_packing() {
    let w = abi_info_word();
    assert_eq!(w & 0xFFFF_FFFF, ABI_VERSION);
    assert_eq!(w >> 32, ABI_CAP_EL0_USER_AS);
}

#[test]
fn errno_as_u64_encodes_negative_for_errors() {
    assert_eq!(Errno::OK.as_u64(), 0);
    assert_eq!(Errno::EPERM.as_u64(), (-1i64) as u64);
    assert_eq!(Errno::EINVAL.as_u64(), (-22i64) as u64);
    assert_eq!(Errno::ENOSYS.as_u64(), (-38i64) as u64);
}

#[test]
fn is_error_checks_boundaries() {
    assert!(is_error((-1i64) as u64));
    assert!(is_error((-4095i64) as u64));
    assert!(!is_error((-4096i64) as u64));
    assert!(!is_error(0));
    assert!(!is_error(1));
}

#[test]
fn errno_from_ret_roundtrip_for_known_codes() {
    let errs = [
        Errno::EPERM,
        Errno::ENOENT,
        Errno::ENOMEM,
        Errno::EINVAL,
        Errno::ENOSYS,
    ];
    for err in errs {
        let ret = err.as_u64();
        assert_eq!(errno_from_ret(ret), Some(err));
    }
    assert_eq!(errno_from_ret((-999i64) as u64), None);
    assert_eq!(errno_from_ret(0), None);
}

#[test]
fn errno_numbers_match_posix() {
    assert_eq!(Errno::OK.as_i64(), 0);
    assert_eq!(Errno::EFAULT.as_i64(), 14);
    assert_eq!(Errno::EINVAL.as_i64(), 22);
    assert_eq!(Errno::ENOSYS.as_i64(), 38);
    assert!(Errno::OK.is_ok());
    assert!(!Errno::EAGAIN.is_ok());
}

#[test]
fn every_error_roundtrips_through_the_return_word() {
    let all = [
        Errno::EPERM, Errno::ENOENT, Errno::ESRCH, Errno::EINTR, Errno::EIO, Errno::ENXIO,
        Errno::E2BIG, Errno::ENOEXEC, Errno::EBADF, Errno::ECHILD, Errno::EAGAIN, Errno::ENOMEM,
        Errno::EACCES, Errno::EFAULT, Errno::EINVAL, Errno::ENOSYS,
    ];
    for e in all {
        assert!(is_error(e.as_u64()));
        assert_eq!(errno_from_ret(e.as_u64()), Some(e));
    }
}

#[test]
fn is_error_rejects_the_most_negative_word() {
    assert!(!is_error(0x8000_0000_0000_0000));
    assert!(!is_error(u64::MAX - 4095));
    assert!(is_error(u64::MAX));
}

#[test]
fn error_words_without_a_known_errno_decode_to_none() {
    assert_eq!(errno_from_ret((-15i64) as u64), None);
    assert_eq!(errno_from_ret((-4095i64) as u64), None);
}

#[test]
fn recv_word_packs_client_and_request() {
    let w = endpoint_recv_pack(2, 0x1234);
    assert_eq!(w, 0x2_0000_1234);
    assert_eq!(endpoint_recv_unpack(w), (2, 0x1234));
    let w = endpoint_recv_pack(0x1_0000_0007, 0xFFFF_FFFF_0000_0042);
    assert_eq!(endpoint_recv_unpack(w), (7, 0x42));
    assert_eq!(ENDPOINT_INLINE_REQ_MASK, 0xFFFF_FFFF);
}
