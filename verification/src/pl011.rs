//! The PL011 UART of QEMU `virt` at `0x0900_0000`: the register writes that set
//! it up (8n1, enabled) and that send a byte.
//!
//! The writes are performed by the caller.
use vstd::prelude::*;
use crate::gic::MmioWrite32;

verus! {

/// PL011 base on QEMU `virt` AArch64 (device tree `pl011@9000000`).
pub const PL011_BASE: usize = 0x900_0000;
/// Data register.
pub const PL011_DR: usize = PL011_BASE;
/// Integer baud rate divisor.
pub const PL011_IBRD: usize = PL011_BASE + 0x24;
/// Fractional baud rate divisor.
pub const PL011_FBRD: usize = PL011_BASE + 0x28;
/// Line control: `0x70` is 8 data bits with FIFOs enabled.
pub const PL011_LCR_H: usize = PL011_BASE + 0x2c;
/// Control: `0x301` enables the UART, the transmitter and the receiver.
pub const PL011_CR: usize = PL011_BASE + 0x30;

/// The writes that set the UART up, in order.
pub open spec fn init_writes() -> Seq<MmioWrite32> {
    seq![
        MmioWrite32 { addr: PL011_CR, val: 0 },
        MmioWrite32 { addr: PL011_IBRD, val: 1 },
        MmioWrite32 { addr: PL011_FBRD, val: 0 },
        MmioWrite32 { addr: PL011_LCR_H, val: 0x70 },
        MmioWrite32 { addr: PL011_CR, val: 0x301 },
    ]
}

/// Handle on the UART of this platform.
pub struct Pl011 {
    _private: (),
}

/// A handle on the UART.
pub fn pl011() -> (r: Pl011) {
    Pl011 { _private: () }
}

impl Pl011 {
    /// The register writes of the minimal set-up: UART off, divisors, line
    /// control, then UART, transmitter and receiver on.
    pub fn init_sequence(&self) -> (r: Vec<MmioWrite32>)
        ensures
            r@ == init_writes(),
    {
        let mut v: Vec<MmioWrite32> = Vec::new();
        v.push(MmioWrite32 { addr: PL011_CR, val: 0 });
        v.push(MmioWrite32 { addr: PL011_IBRD, val: 1 });
        v.push(MmioWrite32 { addr: PL011_FBRD, val: 0 });
        v.push(MmioWrite32 { addr: PL011_LCR_H, val: 0x70 });
        v.push(MmioWrite32 { addr: PL011_CR, val: 0x301 });
        assert(v@ =~= init_writes());
        v
    }

    /// The write that places `byte` in the transmit FIFO.
    pub fn tx_write(&self, byte: u8) -> (r: MmioWrite32)
        ensures
            r == (MmioWrite32 { addr: PL011_DR, val: byte as u32 }),
    {
        MmioWrite32 { addr: PL011_DR, val: byte as u32 }
    }

    /// The writes that send `bytes`, one data-register write per byte, in order.
    pub fn write_bytes(&self, bytes: &[u8]) -> (r: Vec<MmioWrite32>)
        ensures
            r.len() == bytes.len(),
            forall|i: int| 0 <= i < bytes.len() ==>
                #[trigger] r[i] == (MmioWrite32 { addr: PL011_DR, val: bytes[i] as u32 }),
    {
        let mut v: Vec<MmioWrite32> = Vec::new();
        let mut i: usize = 0;
        while i < bytes.len()
            invariant
                i <= bytes.len(),
                v.len() == i,
                forall|j: int| 0 <= j < i ==>
                    #[trigger] v[j] == (MmioWrite32 { addr: PL011_DR, val: bytes[j] as u32 }),
            decreases bytes.len() - i,
        {
            v.push(self.tx_write(bytes[i]));
            i = i + 1;
        }
        v
    }
}

} // verus!
