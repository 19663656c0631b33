use lib::gic::{
    ctlr_write_pending, disable_ppi, dist_bit_regs, dist_config_writes, dist_max_spi, dist_priority_regs,
    enable_ppi, intid_from_iar, priority_value, redist_config_writes, waker_awake, waker_children_asleep, Gic,
    MmioWrite32, GICD_ICACTIVER, GICD_ICENABLER, GICD_ICPENDR, GICD_IGROUPR, GICD_IPRIORITYR, GICD_ISENABLER,
    GICR_ICACTIVER0, GICR_ICENABLER0, GICR_ICPENDR0, GICR_IGROUPR0, GICR_IPRIORITYR0, GICR_ISENABLER0,
};
use lib::irq::{handle_irq_exception, GicOp, IrqDispatch, IrqTable, MAX_IRQ, SPURIOUS_IRQ};
use lib::mmu::{
    sctlr_with_caches, sctlr_with_mmu, tcr_el1_boot, tcr_ips_from_parange, MAIR_EL1_BOOT, TCR_EL1_FIXED,
};
use lib::pl011::{pl011, PL011_CR, PL011_DR, PL011_FBRD, PL011_IBRD, PL011_LCR_H};
use lib::timer::{tval_of, TimerState, FALLBACK_FREQ_HZ, TIMER_IRQ};

#[test]
fn tcr_ips_follows_parange_capped_at_48_bits() {
    assert_eq!(tcr_ips_from_parange(0), 0);
    assert_eq!(tcr_ips_from_parange(2), 2 << 32);
    assert_eq!(tcr_ips_from_parange(5), 5 << 32);
    assert_eq!(tcr_ips_from_parange(6), 5 << 32);
    assert_eq!(tcr_ips_from_parange(0xF), 5 << 32);
    // Only bits [3:0] are the PARange field.
    assert_eq!(tcr_ips_from_parange(0x1234_5672), 2 << 32);
}

#[test]
fn tcr_boot_value_matches_its_fields() {
    let t0sz = 16u64;
    let epd1 = 1u64 << 23;
    let cache = (1u64 << 8) | (1u64 << 10);
    let sh = 3u64 << 12;
    let tg = 2u64 << 30;
    assert_eq!(TCR_EL1_FIXED, t0sz | epd1 | cache | sh | tg);
    assert_eq!(tcr_el1_boot(5), 0x5_8080_3510);
    assert_eq!(tcr_el1_boot(1), 0x1_8080_3510);
    assert_eq!(MAIR_EL1_BOOT & 0xFF, 0xFF);
    assert_eq!((MAIR_EL1_BOOT >> 8) & 0xFF, 0x04);
}

#[test]
fn sctlr_updates_keep_other_bits() {
    assert_eq!(sctlr_with_mmu(0x0000_0000_0008_0000), 0x1);
    assert_eq!(sctlr_with_mmu(0x30D0_0800), 0x30D0_0801);
    assert_eq!(sctlr_with_caches(0x30D0_0801), 0x30D0_1805);
}

#[test]
fn pl011_setup_and_transmit_writes() {
    let uart = pl011();
    let init = uart.init_sequence();
    assert_eq!(
        init,
        vec![
            MmioWrite32 { addr: PL011_CR, val: 0 },
            MmioWrite32 { addr: PL011_IBRD, val: 1 },
            MmioWrite32 { addr: PL011_FBRD, val: 0 },
            MmioWrite32 { addr: PL011_LCR_H, val: 0x70 },
            MmioWrite32 { addr: PL011_CR, val: 0x301 },
        ]
    );
    assert_eq!(uart.tx_write(b'A'), MmioWrite32 { addr: 0x900_0000, val: 0x41 });
    let writes = uart.write_bytes(b"ok\n");
    assert_eq!(writes.len(), 3);
    assert_eq!(writes[1], MmioWrite32 { addr: PL011_DR, val: b'k' as u32 });
    assert!(uart.write_bytes(b"").is_empty());
}

#[test]
fn gic_distributor_geometry() {
    assert_eq!(dist_max_spi(0), 31);
    assert_eq!(dist_max_spi(0x7), 255);
    assert_eq!(dist_max_spi(0xFFFF_FFFF), 1023);
    assert_eq!(dist_bit_regs(255), 8);
    assert_eq!(dist_priority_regs(255), 64);
}

#[test]
fn gic_enable_and_disable_writes() {
    let mut gic = Gic::new();
    assert_eq!(gic.enable_spi(33), None);
    gic.init_dist(0x7);
    assert_eq!(gic.max_spi, 255);
    assert_eq!(gic.enable_spi(33), Some(MmioWrite32 { addr: GICD_ISENABLER + 4, val: 1 << 1 }));
    assert_eq!(gic.disable_spi(64), Some(MmioWrite32 { addr: GICD_ICENABLER + 8, val: 1 }));
    assert_eq!(gic.enable_spi(31), None);
    assert_eq!(gic.enable_spi(256), None);
    assert_eq!(enable_ppi(TIMER_IRQ), Some(MmioWrite32 { addr: GICR_ISENABLER0, val: 1 << 30 }));
    assert_eq!(disable_ppi(16), Some(MmioWrite32 { addr: GICR_ICENABLER0, val: 1 << 16 }));
    assert_eq!(enable_ppi(15), None);
    assert_eq!(enable_ppi(32), None);
}

#[test]
fn gic_priority_byte_update() {
    let mut gic = Gic::new();
    gic.init_dist(0x1);
    assert_eq!(gic.priority_register(30), Some(GICR_IPRIORITYR0 + 28));
    assert_eq!(gic.priority_register(40), Some(GICD_IPRIORITYR + 40));
    assert_eq!(gic.priority_register(64), None);
    assert_eq!(priority_value(0xAABB_CCDD, 30, 0x80), 0xAA80_CCDD);
    assert_eq!(priority_value(0xAABB_CCDD, 4, 0x10), 0xAABB_CC10);
    assert_eq!(intid_from_iar(0x1_0000_041E), 30);
    assert_eq!(intid_from_iar(0x3FF), 1023);
}

#[test]
fn irq_register_dispatch_unregister() {
    let mut table = IrqTable::new();
    table.init();
    assert_eq!(table.register(TIMER_IRQ, 7), GicOp::EnablePpi(TIMER_IRQ));
    assert_eq!(table.register(40, 8), GicOp::EnableSpi(40));
    assert_eq!(table.register(3, 9), GicOp::Nothing);
    assert_eq!(table.register(MAX_IRQ as u32, 1), GicOp::Nothing);
    assert_eq!(
        table.dispatch(TIMER_IRQ),
        IrqDispatch::Handled { irq: TIMER_IRQ, handler: Some(7) }
    );
    assert_eq!(handle_irq_exception(&table, 41), IrqDispatch::Handled { irq: 41, handler: None });
    assert_eq!(handle_irq_exception(&table, SPURIOUS_IRQ), IrqDispatch::Spurious);
    assert_eq!(table.unregister(40), GicOp::DisableSpi(40));
    assert_eq!(table.unregister(TIMER_IRQ), GicOp::DisablePpi(TIMER_IRQ));
    assert_eq!(table.unregister(3), GicOp::Nothing);
    assert_eq!(table.dispatch(40), IrqDispatch::Handled { irq: 40, handler: None });
}

#[test]
fn timer_interval_and_ticks() {
    let mut t = TimerState::new();
    assert!(t.init(0));
    assert_eq!(t.frequency(), FALLBACK_FREQ_HZ);
    assert_eq!(t.interval, 240_000);
    assert!(!t.init(62_500_000));
    assert_eq!(t.interval, 620_000);
    for _ in 0..99 {
        let o = t.handle_irq();
        assert!(!o.report);
        assert_eq!(o.tval, 620_000);
    }
    assert!(t.handle_irq().report);
    assert_eq!(t.tick_count(), 100);
    t.ticks = u64::MAX;
    t.handle_irq();
    assert_eq!(t.tick_count(), 0);
    assert_eq!(tval_of(0x1_0000_0005), 5);
}

#[test]
fn gic_distributor_setup_writes() {
    let w = dist_config_writes(63);
    assert_eq!(w.len(), 2 + 16 + 4);
    assert_eq!(w[0], MmioWrite32 { addr: GICD_IGROUPR, val: 0xFFFF_FFFF });
    assert_eq!(w[1], MmioWrite32 { addr: GICD_IGROUPR + 4, val: 0xFFFF_FFFF });
    assert_eq!(w[2], MmioWrite32 { addr: GICD_IPRIORITYR, val: 0x8080_8080 });
    assert_eq!(w[17], MmioWrite32 { addr: GICD_IPRIORITYR + 60, val: 0x8080_8080 });
    assert_eq!(w[18], MmioWrite32 { addr: GICD_ICACTIVER, val: 0xFFFF_FFFF });
    assert_eq!(w[19], MmioWrite32 { addr: GICD_ICPENDR, val: 0xFFFF_FFFF });
    assert_eq!(w[20], MmioWrite32 { addr: GICD_ICACTIVER + 4, val: 0xFFFF_FFFF });
    assert_eq!(w[21], MmioWrite32 { addr: GICD_ICPENDR + 4, val: 0xFFFF_FFFF });
    assert_eq!(dist_config_writes(1023).len(), 32 + 256 + 64);
}

#[test]
fn gic_redistributor_setup_writes() {
    let w = redist_config_writes();
    assert_eq!(w.len(), 11);
    assert_eq!(w[0], MmioWrite32 { addr: GICR_IGROUPR0, val: 0xFFFF_FFFF });
    assert_eq!(w[8], MmioWrite32 { addr: GICR_IPRIORITYR0 + 28, val: 0x8080_8080 });
    assert_eq!(w[9], MmioWrite32 { addr: GICR_ICACTIVER0, val: 0xFFFF_FFFF });
    assert_eq!(w[10], MmioWrite32 { addr: GICR_ICPENDR0, val: 0xFFFF_FFFF });
}

#[test]
fn gic_status_bits() {
    assert!(ctlr_write_pending(0x8000_0003));
    assert!(!ctlr_write_pending(0x3));
    assert_eq!(waker_awake(0x6), 0x4);
    assert_eq!(waker_awake(0x1), 0x1);
    assert!(waker_children_asleep(0x4));
    assert!(!waker_children_asleep(0x2));
}
