//! IRQ handler table: registration, and the routing of an acknowledged
//! interrupt to its handler.
//!
//! Handlers are named by an id chosen by the caller, which keeps the functions
//! themselves. Registration reports which GIC enable or disable it needs.
use vstd::prelude::*;

verus! {

/// Maximum number of interrupts supported by GICv3 (ids `0..1020`).
pub const MAX_IRQ: usize = 1020;

/// Spurious interrupt id.
pub const SPURIOUS_IRQ: u32 = 1023;

/// The GIC operation a (un)registration requires.
#[derive(Clone, Copy, PartialEq, Eq, Debug, Structural)]
pub enum GicOp {
    Nothing,
    EnablePpi(u32),
    EnableSpi(u32),
    DisablePpi(u32),
    DisableSpi(u32),
}

/// Routing of one acknowledged interrupt.
#[derive(Clone, Copy, PartialEq, Eq, Debug, Structural)]
pub enum IrqDispatch {
    /// Id 1023: nothing to run and no end-of-interrupt to signal.
    Spurious,
    /// Run `handler` (if one is registered), then signal end of interrupt `irq`.
    Handled { irq: u32, handler: Option<u32> },
}

pub struct IrqTable {
    handlers: Vec<Option<u32>>,
}

impl View for IrqTable {
    type V = Seq<Option<u32>>;

    closed spec fn view(&self) -> Seq<Option<u32>> {
        self.handlers@
    }
}

impl IrqTable {
    /// A table with no handler registered.
    pub fn new() -> (r: Self)
        ensures
            r@ == Seq::new(MAX_IRQ as nat, |i: int| None::<u32>),
    {
        let mut handlers: Vec<Option<u32>> = Vec::new();
        let mut i: usize = 0;
        while i < MAX_IRQ
            invariant
                i <= MAX_IRQ,
                handlers@ == Seq::new(i as nat, |j: int| None::<u32>),
            decreases MAX_IRQ - i,
        {
            handlers.push(None);
            i = i + 1;
        }
        IrqTable { handlers }
    }

    /// Clears every handler.
    pub fn init(&mut self)
        ensures
            final(self)@ == Seq::new(MAX_IRQ as nat, |i: int| None::<u32>),
    {
        *self = IrqTable::new();
    }

    /// Registers `handler` for `irq`; an id of `MAX_IRQ` or above is ignored. SGIs
    /// need no enable, PPIs (16–31) and SPIs (32 and up) are enabled in the GIC.
    pub fn register(&mut self, irq: u32, handler: u32) -> (op: GicOp)
        requires
            old(self)@.len() == MAX_IRQ,
        ensures
            irq >= MAX_IRQ ==> final(self)@ == old(self)@ && op == GicOp::Nothing,
            irq < MAX_IRQ ==> final(self)@ == old(self)@.update(irq as int, Some(handler)),
            irq < MAX_IRQ ==> op == (if irq < 16 {
                GicOp::Nothing
            } else if irq < 32 {
                GicOp::EnablePpi(irq)
            } else {
                GicOp::EnableSpi(irq)
            }),
    {
        if irq as usize >= MAX_IRQ {
            return GicOp::Nothing;
        }
        self.handlers.set(irq as usize, Some(handler));
        if irq < 16 {
            GicOp::Nothing
        } else if irq < 32 {
            GicOp::EnablePpi(irq)
        } else {
            GicOp::EnableSpi(irq)
        }
    }

    /// Removes the handler of `irq`; an id of `MAX_IRQ` or above is ignored. PPIs
    /// and SPIs are disabled in the GIC.
    pub fn unregister(&mut self, irq: u32) -> (op: GicOp)
        requires
            old(self)@.len() == MAX_IRQ,
        ensures
            irq >= MAX_IRQ ==> final(self)@ == old(self)@ && op == GicOp::Nothing,
            irq < MAX_IRQ ==> final(self)@ == old(self)@.update(irq as int, None),
            irq < MAX_IRQ ==> op == (if irq < 16 {
                GicOp::Nothing
            } else if irq < 32 {
                GicOp::DisablePpi(irq)
            } else {
                GicOp::DisableSpi(irq)
            }),
    {
        if irq as usize >= MAX_IRQ {
            return GicOp::Nothing;
        }
        self.handlers.set(irq as usize, None);
        if 16 <= irq && irq < 32 {
            GicOp::DisablePpi(irq)
        } else if irq >= 32 {
            GicOp::DisableSpi(irq)
        } else {
            GicOp::Nothing
        }
    }

    /// Routes acknowledged interrupt `irq` to its handler.
    pub fn dispatch(&self, irq: u32) -> (r: IrqDispatch)
        requires
            self@.len() == MAX_IRQ,
            irq < MAX_IRQ || irq == SPURIOUS_IRQ,
        ensures
            irq == SPURIOUS_IRQ ==> r == IrqDispatch::Spurious,
            irq < MAX_IRQ ==> r == (IrqDispatch::Handled { irq, handler: self@[irq as int] }),
    {
        if irq == SPURIOUS_IRQ {
            return IrqDispatch::Spurious;
        }
        IrqDispatch::Handled { irq, handler: self.handlers[irq as usize] }
    }
}

/// The IRQ exception path: routes the interrupt acknowledged as `irq`.
pub fn handle_irq_exception(table: &IrqTable, irq: u32) -> (r: IrqDispatch)
    requires
        table@.len() == MAX_IRQ,
        irq < MAX_IRQ || irq == SPURIOUS_IRQ,
    ensures
        irq == SPURIOUS_IRQ ==> r == IrqDispatch::Spurious,
        irq < MAX_IRQ ==> r == (IrqDispatch::Handled { irq, handler: table@[irq as int] }),
{
    table.dispatch(irq)
}

/// A registered handler is the one an acknowledged interrupt is routed to,
/// until it is unregistered.
pub proof fn law_register_then_dispatch(t: Seq<Option<u32>>, irq: u32, handler: u32)
    requires
        t.len() == MAX_IRQ,
        irq < MAX_IRQ,
    ensures
        t.update(irq as int, Some(handler))[irq as int] == Some(handler),
        t.update(irq as int, Some(handler)).update(irq as int, None)[irq as int] == None::<u32>,
{
}

} // verus!
