//! GICv3 register computations for QEMU `virt`: which distributor or
//! redistributor register an operation on an interrupt writes, and with what.
//!
//! The MMIO accesses themselves are made by the caller.
use vstd::prelude::*;

verus! {

/// GIC Distributor base address.
pub const GICD_BASE: usize = 0x0800_0000;
/// GIC Redistributor RD base address (single core).
pub const GICR_BASE: usize = 0x080A_0000;
/// GIC Redistributor SGI base address: the second 64 KiB page of the redistributor.
pub const GICR_SGI_BASE: usize = GICR_BASE + 0x1_0000;

pub const GICD_CTLR: usize = GICD_BASE;
pub const GICD_TYPER: usize = GICD_BASE + 0x0004;
pub const GICD_IGROUPR: usize = GICD_BASE + 0x0080;
pub const GICD_ISENABLER: usize = GICD_BASE + 0x0100;
pub const GICD_ICENABLER: usize = GICD_BASE + 0x0180;
pub const GICD_ICPENDR: usize = GICD_BASE + 0x0280;
pub const GICD_ICACTIVER: usize = GICD_BASE + 0x0380;
pub const GICD_IPRIORITYR: usize = GICD_BASE + 0x0400;

pub const GICR_WAKER: usize = GICR_BASE + 0x0014;
pub const GICR_IGROUPR0: usize = GICR_SGI_BASE + 0x0080;
pub const GICR_ISENABLER0: usize = GICR_SGI_BASE + 0x0100;
pub const GICR_ICENABLER0: usize = GICR_SGI_BASE + 0x0180;
pub const GICR_ICPENDR0: usize = GICR_SGI_BASE + 0x0280;
pub const GICR_ICACTIVER0: usize = GICR_SGI_BASE + 0x0380;
pub const GICR_IPRIORITYR0: usize = GICR_SGI_BASE + 0x0400;

/// A 32-bit register write.
#[derive(Clone, Copy, PartialEq, Eq, Debug, Structural)]
pub struct MmioWrite32 {
    pub addr: usize,
    pub val: u32,
}

/// Highest SPI number the distributor implements, from `GICD_TYPER.ITLinesNumber`.
pub open spec fn max_spi_of(typer: u32) -> int {
    32 * (typer % 32 + 1) - 1
}

/// Highest SPI number, from the value of `GICD_TYPER`.
pub fn dist_max_spi(typer: u32) -> (r: u32)
    ensures
        r == max_spi_of(typer),
        31 <= r <= 1023,
{
    let itlines = typer & 0x1F;
    assert(itlines == typer % 32) by (bit_vector) requires itlines == typer & 0x1F;
    32 * (itlines + 1) - 1
}

/// Number of 32-interrupt registers (group, enable, pending, active) covering interrupts `0..=max_spi`.
pub fn dist_bit_regs(max_spi: u32) -> (r: usize)
    requires
        max_spi <= 1023,
    ensures
        r == (max_spi + 1) / 32,
{
    ((max_spi + 1) / 32) as usize
}

/// Number of 4-interrupt priority registers covering interrupts `0..=max_spi`.
pub fn dist_priority_regs(max_spi: u32) -> (r: usize)
    requires
        max_spi <= 1023,
    ensures
        r == (max_spi + 1) * 8 / 32,
{
    ((max_spi + 1) * 8 / 32) as usize
}

/// `GICD_CTLR.RWP`: a register write is still in progress.
pub fn ctlr_write_pending(ctlr: u32) -> (r: bool)
    ensures
        r == (ctlr >= 0x8000_0000),
{
    let r = ctlr & 0x8000_0000 != 0;
    assert((ctlr & 0x8000_0000 != 0) == (ctlr >= 0x8000_0000)) by (bit_vector);
    r
}

/// `GICR_WAKER` with `ProcessorSleep` (bit 1) cleared, every other bit kept.
pub fn waker_awake(waker: u32) -> (r: u32)
    ensures
        r == waker & !0x2u32,
        r & 0x2 == 0,
{
    let r = waker & !0x0000_0002u32;
    assert(r & 0x2 == 0) by (bit_vector) requires r == waker & !0x2u32;
    r
}

/// `GICR_WAKER.ChildrenAsleep` (bit 2): the redistributor is not ready yet.
pub fn waker_children_asleep(waker: u32) -> (r: bool)
    ensures
        r == (waker & 0x4 != 0),
{
    waker & 0x0000_0004 != 0
}

/// `n` writes of `val` to consecutive 32-bit registers from `base`.
pub open spec fn reg_fill(base: usize, n: int, val: u32) -> Seq<MmioWrite32> {
    Seq::new(n as nat, |i: int| MmioWrite32 { addr: (base + i * 4) as usize, val })
}

/// For each of `n` register pairs: deactivate, then clear pending.
pub open spec fn clear_pairs(n: int) -> Seq<MmioWrite32> {
    Seq::new((2 * n) as nat, |j: int| if j % 2 == 0 {
        MmioWrite32 { addr: (GICD_ICACTIVER + (j / 2) * 4) as usize, val: 0xFFFF_FFFF }
    } else {
        MmioWrite32 { addr: (GICD_ICPENDR + (j / 2) * 4) as usize, val: 0xFFFF_FFFF }
    })
}

/// The distributor set-up writes made between reading `GICD_TYPER` and enabling
/// the distributor: every SPI register group to Group 1 non-secure, every priority
/// to `0x80`, then each register's interrupts deactivated and their pending state cleared.
pub open spec fn dist_config_spec(max_spi: u32) -> Seq<MmioWrite32> {
    let n = (max_spi + 1) / 32;
    let m = (max_spi + 1) * 8 / 32;
    reg_fill(GICD_IGROUPR, n, 0xFFFF_FFFF) + reg_fill(GICD_IPRIORITYR, m, 0x8080_8080) + clear_pairs(n)
}

/// The writes of [`dist_config_spec`] for the highest SPI `max_spi`, in order.
pub fn dist_config_writes(max_spi: u32) -> (r: Vec<MmioWrite32>)
    requires
        max_spi <= 1023,
    ensures
        r@ == dist_config_spec(max_spi),
{
    let n = dist_bit_regs(max_spi);
    let m = dist_priority_regs(max_spi);
    let mut v: Vec<MmioWrite32> = Vec::new();
    let mut i: usize = 0;
    while i < n
        invariant
            n <= 32,
            i <= n,
            v@ =~= reg_fill(GICD_IGROUPR, i as int, 0xFFFF_FFFF),
        decreases n - i,
    {
        v.push(MmioWrite32 { addr: GICD_IGROUPR + i * 4, val: 0xFFFF_FFFF });
        i = i + 1;
    }
    let mut i: usize = 0;
    while i < m
        invariant
            n <= 32,
            m <= 256,
            i <= m,
            v@ =~= reg_fill(GICD_IGROUPR, n as int, 0xFFFF_FFFF) + reg_fill(GICD_IPRIORITYR, i as int, 0x8080_8080),
        decreases m - i,
    {
        v.push(MmioWrite32 { addr: GICD_IPRIORITYR + i * 4, val: 0x8080_8080 });
        i = i + 1;
    }
    let mut i: usize = 0;
    while i < n
        invariant
            n <= 32,
            m <= 256,
            i <= n,
            v@ =~= reg_fill(GICD_IGROUPR, n as int, 0xFFFF_FFFF) + reg_fill(GICD_IPRIORITYR, m as int, 0x8080_8080)
                + clear_pairs(i as int),
        decreases n - i,
    {
        v.push(MmioWrite32 { addr: GICD_ICACTIVER + i * 4, val: 0xFFFF_FFFF });
        v.push(MmioWrite32 { addr: GICD_ICPENDR + i * 4, val: 0xFFFF_FFFF });
        assert((2 * i) % 2 == 0 && (2 * i) / 2 == i && (2 * i + 1) % 2 == 1 && (2 * i + 1) / 2 == i);
        i = i + 1;
    }
    v
}

/// The redistributor set-up writes made once it is awake: SGIs and PPIs to
/// Group 1 non-secure, their eight priority registers to `0x80`, then all
/// deactivated and their pending state cleared.
pub open spec fn redist_config_spec() -> Seq<MmioWrite32> {
    seq![MmioWrite32 { addr: GICR_IGROUPR0, val: 0xFFFF_FFFF }]
        + reg_fill(GICR_IPRIORITYR0, 8, 0x8080_8080)
        + seq![
            MmioWrite32 { addr: GICR_ICACTIVER0, val: 0xFFFF_FFFF },
            MmioWrite32 { addr: GICR_ICPENDR0, val: 0xFFFF_FFFF },
        ]
}

/// The writes of [`redist_config_spec`], in order.
pub fn redist_config_writes() -> (r: Vec<MmioWrite32>)
    ensures
        r@ == redist_config_spec(),
{
    let mut v: Vec<MmioWrite32> = Vec::new();
    v.push(MmioWrite32 { addr: GICR_IGROUPR0, val: 0xFFFF_FFFF });
    let mut i: usize = 0;
    while i < 8
        invariant
            i <= 8,
            v@ =~= seq![MmioWrite32 { addr: GICR_IGROUPR0, val: 0xFFFF_FFFF }]
                + reg_fill(GICR_IPRIORITYR0, i as int, 0x8080_8080),
        decreases 8 - i,
    {
        v.push(MmioWrite32 { addr: GICR_IPRIORITYR0 + i * 4, val: 0x8080_8080 });
        i = i + 1;
    }
    v.push(MmioWrite32 { addr: GICR_ICACTIVER0, val: 0xFFFF_FFFF });
    v.push(MmioWrite32 { addr: GICR_ICPENDR0, val: 0xFFFF_FFFF });
    v
}

/// Distributor state: the highest implemented SPI.
pub struct Gic {
    pub max_spi: u32,
}

/// The bit of interrupt `irq` in its 32-interrupt register.
pub open spec fn irq_bit(irq: u32) -> u32 {
    (1u32 << (irq % 32)) as u32
}

impl Gic {
    /// Before the distributor is initialized no SPI is accepted.
    pub fn new() -> (r: Self)
        ensures
            r.max_spi == 0,
    {
        Gic { max_spi: 0 }
    }

    /// Records the highest SPI from `GICD_TYPER` during distributor initialization.
    pub fn init_dist(&mut self, typer: u32)
        ensures
            final(self).max_spi == max_spi_of(typer),
    {
        self.max_spi = dist_max_spi(typer);
    }

    /// The write that enables SPI `irq`; `None` unless `32 <= irq <= max_spi`.
    pub fn enable_spi(&self, irq: u32) -> (r: Option<MmioWrite32>)
        requires
            self.max_spi <= 1023,
        ensures
            r is Some <==> 32 <= irq <= self.max_spi,
            r matches Some(w) ==> w.addr == GICD_ISENABLER + (irq / 32) * 4 && w.val == irq_bit(irq),
    {
        if irq < 32 || irq > self.max_spi {
            return None;
        }
        let reg = (irq / 32) as usize * 4;
        let bit = 1u32 << (irq % 32);
        Some(MmioWrite32 { addr: GICD_ISENABLER + reg, val: bit })
    }

    /// The write that disables SPI `irq`; `None` unless `32 <= irq <= max_spi`.
    pub fn disable_spi(&self, irq: u32) -> (r: Option<MmioWrite32>)
        requires
            self.max_spi <= 1023,
        ensures
            r is Some <==> 32 <= irq <= self.max_spi,
            r matches Some(w) ==> w.addr == GICD_ICENABLER + (irq / 32) * 4 && w.val == irq_bit(irq),
    {
        if irq < 32 || irq > self.max_spi {
            return None;
        }
        let reg = (irq / 32) as usize * 4;
        let bit = 1u32 << (irq % 32);
        Some(MmioWrite32 { addr: GICD_ICENABLER + reg, val: bit })
    }

    /// Which register holds the priority byte of `irq`; `None` above `max_spi`.
    /// SGIs and PPIs (`irq < 32`) are configured in the redistributor.
    pub fn priority_register(&self, irq: u32) -> (r: Option<usize>)
        requires
            self.max_spi <= 1023,
        ensures
            r is Some <==> irq <= self.max_spi,
            r matches Some(a) ==> a == (if irq < 32 { GICR_IPRIORITYR0 } else { GICD_IPRIORITYR }) + irq / 4 * 4,
    {
        if irq > self.max_spi {
            return None;
        }
        let reg = (irq as usize * 8) / 32 * 4;
        assert((irq * 8) / 32 * 4 == irq / 4 * 4) by (nonlinear_arith);
        if irq < 32 {
            Some(GICR_IPRIORITYR0 + reg)
        } else {
            Some(GICD_IPRIORITYR + reg)
        }
    }
}

/// The write that enables PPI `irq`; `None` unless `16 <= irq < 32`.
pub fn enable_ppi(irq: u32) -> (r: Option<MmioWrite32>)
    ensures
        r is Some <==> 16 <= irq < 32,
        r matches Some(w) ==> w.addr == GICR_ISENABLER0 && w.val == irq_bit(irq),
{
    if !(16 <= irq && irq < 32) {
        return None;
    }
    Some(MmioWrite32 { addr: GICR_ISENABLER0, val: 1u32 << irq })
}

/// The write that disables PPI `irq`; `None` unless `16 <= irq < 32`.
pub fn disable_ppi(irq: u32) -> (r: Option<MmioWrite32>)
    ensures
        r is Some <==> 16 <= irq < 32,
        r matches Some(w) ==> w.addr == GICR_ICENABLER0 && w.val == irq_bit(irq),
{
    if !(16 <= irq && irq < 32) {
        return None;
    }
    Some(MmioWrite32 { addr: GICR_ICENABLER0, val: 1u32 << irq })
}

/// Byte `b` of a 32-bit register.
pub open spec fn reg_byte(v: u32, b: u32) -> u32 {
    (v >> (8 * b)) & 0xFF
}

/// The priority register value after setting the priority byte of `irq` to
/// `priority`, given its value `val` before; the other three bytes are kept.
pub fn priority_value(val: u32, irq: u32, priority: u8) -> (r: u32)
    ensures
        reg_byte(r, irq % 4) == priority,
        forall|b: u32| b < 4 && b != irq % 4 ==> #[trigger] reg_byte(r, b) == reg_byte(val, b),
{
    let i = irq % 4;
    let shift = i * 8;
    let p = priority as u32;
    let r = (val & !(0xFFu32 << shift)) | (p << shift);
    assert(((r >> (8 * i)) & 0xFF) == p
        && forall|b: u32| b < 4 && b != i ==> #[trigger] ((r >> (8 * b)) & 0xFF) == ((val >> (8 * b)) & 0xFF))
        by (bit_vector)
        requires
            r == (val & !(0xFFu32 << shift)) | (p << shift),
            shift == i * 8,
            i < 4,
            p < 256,
    ;
    r
}

/// Interrupt id acknowledged by a read of `ICC_IAR1_EL1` (bits [9:0]; 1023 = spurious).
pub fn intid_from_iar(iar: u64) -> (r: u32)
    ensures
        r == iar % 1024,
{
    let r = iar & 0x3FF;
    assert(r == iar % 1024) by (bit_vector) requires r == iar & 0x3FF;
    r as u32
}

} // verus!
