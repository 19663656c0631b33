//! Fixed low virtual-memory layout of an EL0 task and the validation of user buffers.
//!
//! A user buffer is accepted only when it lies entirely in the code window or
//! entirely in the stack window, never in the unmapped hole between them.
use vstd::prelude::*;

verus! {

/// Userspace mapping granularity (4 KiB pages).
pub const PAGE_SIZE: usize = 4096;

/// User text starts here.
pub const USER_CODE_BASE: usize = 0x1000;

/// Bytes of the user code region accepted by pointer validation (one page).
pub const USER_CODE_BYTES_MAX: usize = PAGE_SIZE;

/// `SP_EL0` starts here and the stack grows down toward [`USER_STACK_BOTTOM`].
pub const USER_STACK_TOP: usize = 0x8000;

/// User stack size (one page).
pub const USER_STACK_BYTES: usize = PAGE_SIZE;

/// Lowest mapped user stack address (inclusive).
pub const USER_STACK_BOTTOM: usize = USER_STACK_TOP - USER_STACK_BYTES;

/// Upper bound of the unmapped guard region directly below the stack page.
pub const USER_GUARD_HIGH: usize = USER_STACK_BOTTOM;

/// `[start, start + len)` lies inside `[lo, hi)`.
pub open spec fn within(start: int, len: int, lo: int, hi: int) -> bool {
    lo <= start && start + len <= hi
}

/// A user buffer that syscalls may read: empty, or wholly in the code window or
/// wholly in the stack window.
pub open spec fn user_range_ok(start: int, len: int) -> bool {
    len == 0 || (len > 0 && (within(start, len, USER_CODE_BASE as int, USER_CODE_BASE + USER_CODE_BYTES_MAX)
        || within(start, len, USER_STACK_BOTTOM as int, USER_STACK_TOP as int)))
}

/// `true` if `[start, start + len)` lies wholly inside the code window or wholly
/// inside the stack window (an empty range is always accepted).
pub fn user_range_valid(start: usize, len: usize) -> (r: bool)
    ensures
        r == user_range_ok(start as int, len as int),
{
    if len == 0 {
        return true;
    }
    let end = match start.checked_add(len) {
        Some(e) => e,
        None => {
            return false;
        },
    };
    if start >= end {
        return false;
    }
    let code_end = USER_CODE_BASE.saturating_add(USER_CODE_BYTES_MAX);
    let wholly_in_code = start >= USER_CODE_BASE && end <= code_end;
    let wholly_in_stack = start >= USER_STACK_BOTTOM && end <= USER_STACK_TOP;
    wholly_in_code || wholly_in_stack
}

/// Every non-empty buffer that lies wholly in the code page
/// `[0x1000, 0x2000)` or wholly in the stack page `[0x7000, 0x8000)` is
/// accepted; together with [`law_user_range_avoids_holes`] this is exactly the
/// set of buffers a syscall may read.
pub proof fn law_user_range_accepts_windows(start: int, len: int)
    requires
        len > 0,
        (0x1000 <= start && start + len <= 0x2000) || (0x7000 <= start && start + len <= 0x8000),
    ensures
        user_range_ok(start, len),
{
}

/// An accepted non-empty buffer never touches the unmapped page at address 0 nor
/// the guard hole between the code page and the stack page.
pub proof fn law_user_range_avoids_holes(start: int, len: int, addr: int)
    requires
        user_range_ok(start, len),
        len > 0,
        start <= addr < start + len,
    ensures
        addr >= USER_CODE_BASE,
        !(USER_CODE_BASE + USER_CODE_BYTES_MAX <= addr < USER_GUARD_HIGH),
        addr < USER_STACK_TOP,
{
}

} // verus!
