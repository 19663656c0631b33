//! Values written to the translation-control system registers when the MMU is
//! switched on: `MAIR_EL1`, `TCR_EL1` and the `SCTLR_EL1` updates.
//!
//! The registers themselves are read and written by the boot code; this module
//! computes what goes into them.
use vstd::prelude::*;

verus! {

/// Bits of virtual address translated through `TTBR0_EL1`. `T0SZ = 64 - 48 = 16`
/// makes the walk start at level 0, matching the four-level tables of this kernel.
pub const VA_BITS_T0: u64 = 48;

/// `MAIR_EL1`: attribute index 0 is Normal write-back memory
/// ([`crate::mm::ATTR_NORMAL`]), index 1 is Device-nGnRE ([`crate::mm::ATTR_DEVICE`]).
pub const MAIR_EL1_BOOT: u64 = 0x0000_0000_00FF_04FF;

/// `SCTLR_EL1.WXN` (bit 19).
pub const SCTLR_EL1_WXN: u64 = 0x8_0000;
/// `SCTLR_EL1.M` (bit 0).
pub const SCTLR_EL1_M: u64 = 0x1;
/// `SCTLR_EL1.C | SCTLR_EL1.I` (bits 2 and 12).
pub const SCTLR_EL1_CI: u64 = 0x1004;

/// The fixed part of `TCR_EL1`: `T0SZ = 16`, `IRGN0 = ORGN0 = WBWA`,
/// `SH0 = Inner Shareable`, `TG0 = 4 KiB`, `EPD1 = 1` (no TTBR1 walks), `TG1 = 4 KiB`.
pub const TCR_EL1_FIXED: u64 = 0x8080_3510;

/// The `PARange` field (bits [3:0]) of `ID_AA64MMFR0_EL1`, capped at encoding 5
/// (48-bit physical addresses).
pub open spec fn capped_parange(mmfr0: u64) -> int {
    let p = mmfr0 as int % 16;
    if p < 5 { p } else { 5 }
}

/// `TCR_EL1.IPS` (bits [34:32]) for the physical address size reported in `mmfr0`.
pub open spec fn tcr_ips(mmfr0: u64) -> int {
    capped_parange(mmfr0) * 0x1_0000_0000
}

/// The whole `TCR_EL1` value used at boot.
pub open spec fn tcr_boot(mmfr0: u64) -> int {
    TCR_EL1_FIXED + tcr_ips(mmfr0)
}

/// The `TCR_EL1.IPS` field for the `ID_AA64MMFR0_EL1` value `mmfr0`.
pub fn tcr_ips_from_parange(mmfr0: u64) -> (r: u64)
    ensures
        r == tcr_ips(mmfr0),
{
    let parange: u64 = mmfr0 & 0xf;
    assert(parange == mmfr0 % 16) by (bit_vector)
        requires parange == mmfr0 & 0xf;
    let capped: u64 = if parange < 5 { parange } else { 5 };
    let r: u64 = (capped & 0x7) << 32;
    assert(r == capped * 0x1_0000_0000) by (bit_vector)
        requires r == (capped & 0x7) << 32, capped <= 5;
    r
}

/// `TCR_EL1` for the boot identity map, given `ID_AA64MMFR0_EL1`.
pub fn tcr_el1_boot(mmfr0: u64) -> (r: u64)
    ensures
        r == tcr_boot(mmfr0),
{
    let t0sz: u64 = 64 - VA_BITS_T0;
    let epd1: u64 = 1u64 << 23u64;
    let cache: u64 = (1u64 << 8u64) | (1u64 << 10u64);
    let sh: u64 = 3u64 << 12u64;
    let tg: u64 = 2u64 << 30u64;
    let ips = tcr_ips_from_parange(mmfr0);
    let ghost c: u64 = capped_parange(mmfr0) as u64;
    let r: u64 = t0sz | epd1 | cache | sh | tg | ips;
    assert(r == 0x8080_3510 + ips) by (bit_vector)
        requires
            r == t0sz | epd1 | cache | sh | tg | ips,
            t0sz == 16,
            epd1 == 1u64 << 23u64,
            cache == (1u64 << 8u64) | (1u64 << 10u64),
            sh == 3u64 << 12u64,
            tg == 2u64 << 30u64,
            ips == c * 0x1_0000_0000,
            c <= 5,
    ;
    r
}

/// `SCTLR_EL1` with the MMU switched on (`M` set) and `WXN` cleared, every other bit kept.
pub fn sctlr_with_mmu(sctlr: u64) -> (r: u64)
    ensures
        r == (sctlr | SCTLR_EL1_M) & !SCTLR_EL1_WXN,
        r & SCTLR_EL1_M == SCTLR_EL1_M,
        r & SCTLR_EL1_WXN == 0,
{
    let r = (sctlr | SCTLR_EL1_M) & !SCTLR_EL1_WXN;
    assert(r & 1 == 1 && r & 0x8_0000 == 0) by (bit_vector)
        requires r == (sctlr | 1) & !0x8_0000u64;
    r
}

/// `SCTLR_EL1` with the data and instruction caches switched on, every other bit kept.
pub fn sctlr_with_caches(sctlr: u64) -> (r: u64)
    ensures
        r == sctlr | SCTLR_EL1_CI,
        r & SCTLR_EL1_CI == SCTLR_EL1_CI,
{
    let r = sctlr | SCTLR_EL1_CI;
    assert(r & 0x1004 == 0x1004) by (bit_vector)
        requires r == sctlr | 0x1004u64;
    r
}

} // verus!
