//! Syscall ABI shared by kernel and user space: numbers, error encoding,
//! the `SYS_ABI_INFO` word and the endpoint `recv` packing.
//!
//! On return `x0` holds the result. A value in `-4095..=-1` (two's complement)
//! is a negated [`Errno`]; every other value is a successful result.
use vstd::prelude::*;

verus! {

/// Human-readable ABI draft label.
pub const ABI_DRAFT_LABEL: &'static str = "DRAFT-1.0";

/// Bumped on any incompatible change to syscall layout or semantics.
pub const ABI_VERSION: u64 = 1;

/// Last syscall number (inclusive) of the kernel core fixed table.
pub const SYSCALL_NR_CORE_MAX: u64 = 63;

/// Length of the kernel dispatch table: `SYSCALL_NR_CORE_MAX + 1`.
pub const SYSCALL_DISPATCH_TABLE_LEN: usize = 64;

pub const SYS_WRITE: u64 = 0;
pub const SYS_READ: u64 = 1;
pub const SYS_YIELD: u64 = 2;
pub const SYS_GETPID: u64 = 3;
pub const SYS_EXIT: u64 = 4;
pub const SYS_SLEEP: u64 = 5;
pub const SYS_ENDPOINT_CREATE: u64 = 6;
pub const SYS_ENDPOINT_DESTROY: u64 = 7;
pub const SYS_ENDPOINT_CALL: u64 = 8;
pub const SYS_ENDPOINT_RECV: u64 = 9;
pub const SYS_ENDPOINT_REPLY: u64 = 10;
/// Packs [`ABI_VERSION`] (low 32 bits) and capability bits (high 32 bits); see [`abi_info_word`].
pub const SYS_ABI_INFO: u64 = 11;

/// Maximum number of scalar arguments passed in registers (`x0`–`x5`).
pub const SYSCALL_MAX_ARGS: usize = 6;

pub const MAX_ERRNO: u64 = 4095;

/// Kernel exposes per-task EL0 page tables and user-pointer validation.
pub const ABI_CAP_EL0_USER_AS: u64 = 1;

/// The request seen by `recv` is the `call` message masked with this value.
pub const ENDPOINT_INLINE_REQ_MASK: u64 = 0xFFFF_FFFF;

/// POSIX-style error numbers used by the syscall ABI.
#[derive(Clone, Copy, Debug, PartialEq, Eq, Structural)]
pub enum Errno {
    OK,
    EPERM,
    ENOENT,
    ESRCH,
    EINTR,
    EIO,
    ENXIO,
    E2BIG,
    ENOEXEC,
    EBADF,
    ECHILD,
    EAGAIN,
    ENOMEM,
    EACCES,
    EFAULT,
    EINVAL,
    ENOSYS,
}

/// The POSIX number of an error.
pub open spec fn errno_code(e: Errno) -> int {
    match e {
        Errno::OK => 0,
        Errno::EPERM => 1,
        Errno::ENOENT => 2,
        Errno::ESRCH => 3,
        Errno::EINTR => 4,
        Errno::EIO => 5,
        Errno::ENXIO => 6,
        Errno::E2BIG => 7,
        Errno::ENOEXEC => 8,
        Errno::EBADF => 9,
        Errno::ECHILD => 10,
        Errno::EAGAIN => 11,
        Errno::ENOMEM => 12,
        Errno::EACCES => 13,
        Errno::EFAULT => 14,
        Errno::EINVAL => 22,
        Errno::ENOSYS => 38,
    }
}

/// The error whose POSIX number is `code`, if the ABI defines one.
pub open spec fn errno_of_code(code: int) -> Option<Errno> {
    if code == 0 { Some(Errno::OK) }
    else if code == 1 { Some(Errno::EPERM) }
    else if code == 2 { Some(Errno::ENOENT) }
    else if code == 3 { Some(Errno::ESRCH) }
    else if code == 4 { Some(Errno::EINTR) }
    else if code == 5 { Some(Errno::EIO) }
    else if code == 6 { Some(Errno::ENXIO) }
    else if code == 7 { Some(Errno::E2BIG) }
    else if code == 8 { Some(Errno::ENOEXEC) }
    else if code == 9 { Some(Errno::EBADF) }
    else if code == 10 { Some(Errno::ECHILD) }
    else if code == 11 { Some(Errno::EAGAIN) }
    else if code == 12 { Some(Errno::ENOMEM) }
    else if code == 13 { Some(Errno::EACCES) }
    else if code == 14 { Some(Errno::EFAULT) }
    else if code == 22 { Some(Errno::EINVAL) }
    else if code == 38 { Some(Errno::ENOSYS) }
    else { None }
}

/// Two's complement encoding of `-code` in a 64-bit register.
pub open spec fn neg_word(code: int) -> int {
    if code == 0 { 0 } else { 0x1_0000_0000_0000_0000 - code }
}

/// The `x0` word a handler returns for `e`: `0` for `OK`, else `-errno`.
pub open spec fn errno_word(e: Errno) -> int {
    neg_word(errno_code(e))
}

/// A return word is an error iff, read as signed, it lies in `-MAX_ERRNO..=-1`.
pub open spec fn is_error_word(ret: u64) -> bool {
    ret >= 0x1_0000_0000_0000_0000 - MAX_ERRNO
}

/// The positive error number carried by an error word.
pub open spec fn error_code_of_word(ret: u64) -> int {
    0x1_0000_0000_0000_0000 - ret
}

impl Errno {
    /// POSIX-style errno number (positive), `0` for `OK`.
    pub fn as_i64(self) -> (r: i64)
        ensures
            r == errno_code(self),
    {
        match self {
            Errno::OK => 0,
            Errno::EPERM => 1,
            Errno::ENOENT => 2,
            Errno::ESRCH => 3,
            Errno::EINTR => 4,
            Errno::EIO => 5,
            Errno::ENXIO => 6,
            Errno::E2BIG => 7,
            Errno::ENOEXEC => 8,
            Errno::EBADF => 9,
            Errno::ECHILD => 10,
            Errno::EAGAIN => 11,
            Errno::ENOMEM => 12,
            Errno::EACCES => 13,
            Errno::EFAULT => 14,
            Errno::EINVAL => 22,
            Errno::ENOSYS => 38,
        }
    }

    /// Encodes the `x0` return value: `OK` gives `0`, an error gives `-errno`
    /// in two's complement.
    pub fn as_u64(self) -> (r: u64)
        ensures
            r == errno_word(self),
    {
        let code = self.as_i64();
        if code == 0 {
            0
        } else {
            let c: u64 = code as u64;
            u64::MAX - c + 1
        }
    }

    pub fn is_ok(self) -> (r: bool)
        ensures
            r <==> self == Errno::OK,
    {
        matches!(self, Errno::OK)
    }
}

/// `true` iff `ret`, read as a signed word, lies in `-MAX_ERRNO..=-1`.
pub fn is_error(ret: u64) -> (r: bool)
    ensures
        r == is_error_word(ret),
{
    ret >= u64::MAX - MAX_ERRNO + 1
}

/// Decodes an error return word into the error it names.
///
/// `None` when `ret` is not an error word or names no error of the ABI.
pub fn errno_from_ret(ret: u64) -> (r: Option<Errno>)
    ensures
        !is_error_word(ret) ==> r is None,
        is_error_word(ret) ==> r == errno_of_code(error_code_of_word(ret)),
{
    if !is_error(ret) {
        return None;
    }
    let code: u64 = u64::MAX - ret + 1;
    match code {
        0 => Some(Errno::OK),
        1 => Some(Errno::EPERM),
        2 => Some(Errno::ENOENT),
        3 => Some(Errno::ESRCH),
        4 => Some(Errno::EINTR),
        5 => Some(Errno::EIO),
        6 => Some(Errno::ENXIO),
        7 => Some(Errno::E2BIG),
        8 => Some(Errno::ENOEXEC),
        9 => Some(Errno::EBADF),
        10 => Some(Errno::ECHILD),
        11 => Some(Errno::EAGAIN),
        12 => Some(Errno::ENOMEM),
        13 => Some(Errno::EACCES),
        14 => Some(Errno::EFAULT),
        22 => Some(Errno::EINVAL),
        38 => Some(Errno::ENOSYS),
        _ => None,
    }
}

/// Every error other than `OK` survives encoding into a return word and decoding back.
pub proof fn lemma_errno_roundtrip(e: Errno)
    requires
        e != Errno::OK,
    ensures
        is_error_word(errno_word(e) as u64),
        errno_of_code(error_code_of_word(errno_word(e) as u64)) == Some(e),
{
}

/// `OK` encodes as `0`, which is not an error word.
pub proof fn lemma_ok_is_not_error()
    ensures
        errno_word(Errno::OK) == 0,
        !is_error_word(0),
{
}

/// The value returned by `SYS_ABI_INFO`.
pub open spec fn abi_info_spec() -> u64 {
    0x1_0000_0001
}

/// Return value for [`SYS_ABI_INFO`]: version in the low half, capability mask in the high half.
pub fn abi_info_word() -> (r: u64)
    ensures
        r == abi_info_spec(),
        r & 0xFFFF_FFFF == ABI_VERSION,
        r >> 32 == ABI_CAP_EL0_USER_AS,
{
    let w = ABI_VERSION | (ABI_CAP_EL0_USER_AS << 32);
    assert(1u64 | (1u64 << 32) == 0x1_0000_0001u64) by (bit_vector);
    assert(0x1_0000_0001u64 & 0xFFFF_FFFF == 1u64) by (bit_vector);
    assert(0x1_0000_0001u64 >> 32 == 1u64) by (bit_vector);
    w
}

/// The word a successful `recv` returns: client id in the high 32 bits, request in the low 32.
pub open spec fn recv_word(client_id: u64, request: u64) -> int {
    (client_id % 0x1_0000_0000) * 0x1_0000_0000 + request % 0x1_0000_0000
}

/// Packs a client id and a request into the word a successful `recv` returns.
pub fn endpoint_recv_pack(client_id: u64, request: u64) -> (r: u64)
    ensures
        r == recv_word(client_id, request),
{
    let hi = client_id & 0xFFFF_FFFF;
    let lo = request & 0xFFFF_FFFF;
    let r = (hi << 32) | lo;
    assert(r == (client_id % 0x1_0000_0000) * 0x1_0000_0000 + request % 0x1_0000_0000) by (bit_vector)
        requires
            hi == client_id & 0xFFFF_FFFF,
            lo == request & 0xFFFF_FFFF,
            r == (hi << 32) | lo,
    ;
    r
}

/// Splits a successful `recv` word into `(client_id, request)`.
pub fn endpoint_recv_unpack(word: u64) -> (r: (u64, u64))
    ensures
        r.0 == word / 0x1_0000_0000,
        r.1 == word % 0x1_0000_0000,
{
    let hi = word >> 32;
    let lo = word & 0xFFFF_FFFF;
    assert(hi == word / 0x1_0000_0000 && lo == word % 0x1_0000_0000) by (bit_vector)
        requires
            hi == word >> 32,
            lo == word & 0xFFFF_FFFF,
    ;
    (hi, lo)
}

/// Unpacking a packed `recv` word gives back the client id and request, each
/// taken to its low 32 bits.
pub proof fn lemma_recv_pack_unpack(client_id: u64, request: u64)
    ensures
        recv_word(client_id, request) / 0x1_0000_0000 == client_id % 0x1_0000_0000,
        recv_word(client_id, request) % 0x1_0000_0000 == request % 0x1_0000_0000,
{
    let c: int = client_id as int % 0x1_0000_0000;
    let q: int = request as int % 0x1_0000_0000;
    assert(0 <= q < 0x1_0000_0000);
    vstd::arithmetic::div_mod::lemma_fundamental_div_mod_converse(
        c * 0x1_0000_0000 + q,
        0x1_0000_0000,
        c,
        q,
    );
}

} // verus!
