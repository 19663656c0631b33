//! The scheduling tick of the ARM Generic Timer (EL1 physical timer, PPI 30).
//!
//! Reading and writing the timer system registers is left to the caller; this
//! module keeps the frequency, the tick interval and the tick count.
use vstd::prelude::*;

verus! {

/// EL1 Physical Timer PPI interrupt number.
pub const TIMER_IRQ: u32 = 30;

/// Default tick interval in microseconds.
pub const DEFAULT_TICK_US: u64 = 10_000;

/// Frequency assumed when `CNTFRQ_EL0` reads as zero.
pub const FALLBACK_FREQ_HZ: u64 = 24_000_000;

/// Counter ticks per scheduling tick at frequency `freq`.
pub open spec fn interval_for(freq: u64) -> int {
    freq / 1_000_000 * DEFAULT_TICK_US
}

/// What the timer interrupt handler does after counting a tick.
#[derive(Clone, Copy, PartialEq, Eq, Debug, Structural)]
pub struct TickOutcome {
    /// Every 100th tick is reported.
    pub report: bool,
    /// Value for `CNTP_TVAL_EL0` to arm the next tick.
    pub tval: u32,
}

pub struct TimerState {
    pub freq: u64,
    pub interval: u64,
    pub ticks: u64,
}

/// `CNTP_TVAL_EL0` takes the low 32 bits of a counter-tick count.
pub fn tval_of(ticks: u64) -> (r: u32)
    ensures
        r == ticks % 0x1_0000_0000,
{
    let r = (ticks & 0xFFFF_FFFF) as u32;
    assert(ticks & 0xFFFF_FFFF == ticks % 0x1_0000_0000) by (bit_vector);
    r
}

impl TimerState {
    pub fn new() -> (r: Self)
        ensures
            r.freq == 0 && r.interval == 0 && r.ticks == 0,
    {
        TimerState { freq: 0, interval: 0, ticks: 0 }
    }

    /// Takes the counter frequency read from `CNTFRQ_EL0` (24 MHz when it reads
    /// zero) and derives the tick interval. Returns whether the fallback was used.
    pub fn init(&mut self, cntfrq: u64) -> (fallback: bool)
        ensures
            fallback == (cntfrq == 0),
            final(self).freq == (if cntfrq == 0 { FALLBACK_FREQ_HZ } else { cntfrq }),
            final(self).interval == interval_for(final(self).freq),
            final(self).ticks == old(self).ticks,
    {
        let fallback = cntfrq == 0;
        self.freq = if fallback { FALLBACK_FREQ_HZ } else { cntfrq };
        let per_us = self.freq / 1_000_000;
        assert(per_us * DEFAULT_TICK_US <= u64::MAX) by (nonlinear_arith)
            requires per_us == self.freq / 1_000_000;
        self.interval = per_us * DEFAULT_TICK_US;
        fallback
    }

    /// The timer interrupt: counts a tick (wrapping at `u64::MAX`) and re-arms the timer.
    pub fn handle_irq(&mut self) -> (r: TickOutcome)
        ensures
            final(self).ticks == (if old(self).ticks == u64::MAX { 0 } else { old(self).ticks + 1 }),
            final(self).freq == old(self).freq,
            final(self).interval == old(self).interval,
            r.report == (final(self).ticks % 100 == 0),
            r.tval == old(self).interval % 0x1_0000_0000,
    {
        self.ticks = self.ticks.wrapping_add(1);
        let report = self.ticks % 100 == 0;
        TickOutcome { report, tval: tval_of(self.interval) }
    }

    /// Number of timer ticks since boot.
    pub fn tick_count(&self) -> (r: u64)
        ensures
            r == self.ticks,
    {
        self.ticks
    }

    /// Counter frequency in Hz.
    pub fn frequency(&self) -> (r: u64)
        ensures
            r == self.freq,
    {
        self.freq
    }
}

} // verus!
