//! The BCM GPIO driver: routes the UART to pins 14 and 15.
use vstd::prelude::*;
use crate::driver::DeviceDriver;
use crate::mmio::{MMIODerefWrapper, declared};
use crate::regs::{
    field_value, field_bits, GPIO_GPFSEL1, GPIO_GPPUD, GPIO_GPPUDCLK0, GPIO_PUP_PDN_CNTRL_REG0,
    GPIO_LAYOUT_SIZE, FSEL_MASK, FSEL14_SHIFT, FSEL15_SHIFT, FSEL_ALTFUN, GPPUD_PUD_MASK,
    GPPUD_PUD_DISABLE, PUDCLK14_SHIFT, PUDCLK15_SHIFT, PUP_PDN_MASK, PUP_PDN14_SHIFT,
    PUP_PDN15_SHIFT, PUP_PDN_NO_RESISTOR,
};
use crate::sync::NullLock;

verus! {

/// The board revision, which fixes the peripheral addresses and the way
/// pin bias is switched.
#[derive(Clone, Copy, Debug, PartialEq, Eq, Structural)]
pub enum BoardRevision {
    /// BCM2837: bias set through the pull line and a clock pulse.
    Rpi3,
    /// BCM2711: bias set through a direct pull-control field.
    Rpi4,
}

/// Cycles to wait around the pull clock pulse.
pub const PUD_DELAY: usize = 2000;

/// Relies on `core::hint::spin_loop`: a hint to the processor, with no
/// effect on the program's state.
#[verifier::external_body]
fn relax() {
    core::hint::spin_loop()
}

/// Busy-waits for `delay` cycles.
pub fn spin_for_cycles(delay: usize) {
    let mut i: usize = 0;
    while i < delay
        invariant
            i <= delay,
        decreases delay - i,
    {
        relax();
        i = i + 1;
    }
}

/// GPFSEL1 with pins 14 and 15 in their alternate function.
pub open spec fn fsel_uart() -> u32 {
    field_bits(FSEL_MASK, FSEL14_SHIFT, FSEL_ALTFUN) | field_bits(FSEL_MASK, FSEL15_SHIFT, FSEL_ALTFUN)
}

/// GPPUD with the pull line off.
pub open spec fn pud_off() -> u32 {
    field_bits(GPPUD_PUD_MASK, 0, GPPUD_PUD_DISABLE)
}

/// GPPUDCLK0 clocking pins 14 and 15.
pub open spec fn pudclk_14_15() -> u32 {
    field_bits(1, PUDCLK14_SHIFT, 1) | field_bits(1, PUDCLK15_SHIFT, 1)
}

/// GPIO_PUP_PDN_CNTRL_REG0 with the bias of pins 14 and 15 off.
pub open spec fn pup_pdn_14_15() -> u32 {
    field_bits(PUP_PDN_MASK, PUP_PDN14_SHIFT, PUP_PDN_NO_RESISTOR) | field_bits(
        PUP_PDN_MASK,
        PUP_PDN15_SHIFT,
        PUP_PDN_NO_RESISTOR,
    )
}

/// The stores that route the UART to pins 14 and 15 on `rev`, in order.
pub open spec fn uart_pin_stores(rev: BoardRevision) -> Seq<(usize, u32)> {
    match rev {
        BoardRevision::Rpi3 => seq![
            (GPIO_GPFSEL1, fsel_uart()),
            (GPIO_GPPUD, pud_off()),
            (GPIO_GPPUDCLK0, pudclk_14_15()),
            (GPIO_GPPUD, pud_off()),
            (GPIO_GPPUDCLK0, 0u32),
        ],
        BoardRevision::Rpi4 => seq![
            (GPIO_GPFSEL1, fsel_uart()),
            (GPIO_PUP_PDN_CNTRL_REG0, pup_pdn_14_15()),
        ],
    }
}

/// The GPIO registers and the board revision they belong to.
pub struct GPIOInner {
    registers: MMIODerefWrapper,
    revision: BoardRevision,
}

impl GPIOInner {
    pub closed spec fn regs(&self) -> MMIODerefWrapper {
        self.registers
    }

    pub closed spec fn rev(&self) -> BoardRevision {
        self.revision
    }

    pub open spec fn wf(&self) -> bool {
        self.regs().size() == GPIO_LAYOUT_SIZE
    }

    pub fn new(mmio_start_addr: usize, revision: BoardRevision) -> (r: Self)
        ensures
            r.wf(),
            r.rev() == revision,
            r.regs().base() == mmio_start_addr,
            r.regs().stores() == Seq::<(usize, u32)>::empty(),
    {
        GPIOInner {
            registers: MMIODerefWrapper::new(mmio_start_addr, GPIO_LAYOUT_SIZE),
            revision,
        }
    }

    fn store(&mut self, off: usize, v: u32)
        requires
            old(self).wf(),
            declared(GPIO_LAYOUT_SIZE as nat, off as int),
        ensures
            final(self).wf(),
            final(self).rev() == old(self).rev(),
            final(self).regs().base() == old(self).regs().base(),
            final(self).regs().stores() == old(self).regs().stores().push((off, v)),
    {
        self.registers.write(off, v);
    }

    /// BCM2837: pull line off, wait, clock it into pins 14 and 15, wait,
    /// then release line and clock.
    fn disable_pud_14_15_bcm2837(&mut self)
        requires
            old(self).wf(),
        ensures
            final(self).wf(),
            final(self).rev() == old(self).rev(),
            final(self).regs().base() == old(self).regs().base(),
            final(self).regs().stores() == old(self).regs().stores() + seq![
                (GPIO_GPPUD, pud_off()),
                (GPIO_GPPUDCLK0, pudclk_14_15()),
                (GPIO_GPPUD, pud_off()),
                (GPIO_GPPUDCLK0, 0u32),
            ],
    {
        let off = field_value(GPPUD_PUD_MASK, 0, GPPUD_PUD_DISABLE);
        self.store(GPIO_GPPUD, off);
        spin_for_cycles(PUD_DELAY);
        let clk = field_value(1, PUDCLK14_SHIFT, 1) | field_value(1, PUDCLK15_SHIFT, 1);
        self.store(GPIO_GPPUDCLK0, clk);
        spin_for_cycles(PUD_DELAY);
        self.store(GPIO_GPPUD, off);
        self.store(GPIO_GPPUDCLK0, 0);
    }

    /// BCM2711: one store switching off the pull-control fields of pins 14
    /// and 15.
    fn disable_pub_14_15_bcm2711(&mut self)
        requires
            old(self).wf(),
        ensures
            final(self).wf(),
            final(self).rev() == old(self).rev(),
            final(self).regs().base() == old(self).regs().base(),
            final(self).regs().stores() == old(self).regs().stores().push(
                (GPIO_PUP_PDN_CNTRL_REG0, pup_pdn_14_15()),
            ),
    {
        let v = field_value(PUP_PDN_MASK, PUP_PDN14_SHIFT, PUP_PDN_NO_RESISTOR) | field_value(
            PUP_PDN_MASK,
            PUP_PDN15_SHIFT,
            PUP_PDN_NO_RESISTOR,
        );
        self.store(GPIO_PUP_PDN_CNTRL_REG0, v);
    }

    /// Puts pins 14 and 15 in their UART function, then switches off their
    /// bias the way the board revision asks.
    pub fn map_p1011_uart(&mut self)
        requires
            old(self).wf(),
        ensures
            final(self).wf(),
            final(self).rev() == old(self).rev(),
            final(self).regs().base() == old(self).regs().base(),
            final(self).regs().stores() == old(self).regs().stores() + uart_pin_stores(
                old(self).rev(),
            ),
    {
        let fsel = field_value(FSEL_MASK, FSEL14_SHIFT, FSEL_ALTFUN) | field_value(
            FSEL_MASK,
            FSEL15_SHIFT,
            FSEL_ALTFUN,
        );
        self.store(GPIO_GPFSEL1, fsel);
        match self.revision {
            BoardRevision::Rpi4 => self.disable_pub_14_15_bcm2711(),
            BoardRevision::Rpi3 => self.disable_pud_14_15_bcm2837(),
        }
        proof {
            assert(self.regs().stores() =~= old(self).regs().stores() + uart_pin_stores(
                old(self).rev(),
            ));
        }
    }
}

/// The GPIO driver, behind a critical section.
pub struct GPIO {
    inner: NullLock<GPIOInner>,
}

impl GPIO {
    pub const COMPATIBLE: &'static str = "BCM GPIO";

    pub closed spec fn state(&self) -> GPIOInner {
        self.inner.value()
    }

    pub open spec fn wf(&self) -> bool {
        self.state().wf()
    }

    pub fn new(mmio_start_addr: usize, revision: BoardRevision) -> (r: Self)
        ensures
            r.wf(),
            r.state().rev() == revision,
            r.state().regs().base() == mmio_start_addr,
            r.state().regs().stores() == Seq::<(usize, u32)>::empty(),
    {
        GPIO { inner: NullLock::new(GPIOInner::new(mmio_start_addr, revision)) }
    }

    pub fn map_p1011_uart(&mut self)
        requires
            old(self).wf(),
        ensures
            final(self).wf(),
            final(self).state().rev() == old(self).state().rev(),
            final(self).state().regs().base() == old(self).state().regs().base(),
            final(self).state().regs().stores() == old(self).state().regs().stores()
                + uart_pin_stores(old(self).state().rev()),
    {
        let inner = self.inner.lock();
        inner.map_p1011_uart();
    }

    /// The value of the register at byte offset `off`.
    pub fn register(&self, off: usize) -> (r: u32)
        requires
            self.wf(),
            declared(GPIO_LAYOUT_SIZE as nat, off as int),
        ensures
            r == self.state().regs().reg(off as int),
    {
        let inner = self.inner.read();
        inner.registers.read(off)
    }
}

impl DeviceDriver for GPIO {
    open spec fn name(&self) -> Seq<char> {
        "BCM GPIO"@
    }

    open spec fn well_formed(&self) -> bool {
        self.wf()
    }

    /// Nothing to program: the driver is left as it was.
    open spec fn init_effect(&self, after: &Self) -> bool {
        after.state() == self.state()
    }

    /// Nothing to program before the pins are mapped.
    open spec fn ready(&self) -> bool {
        self.wf()
    }

    fn compatible(&self) -> (r: &'static str) {
        proof {
            reveal_strlit("BCM GPIO");
        }
        Self::COMPATIBLE
    }

    open spec fn init_may_fail(&self) -> bool {
        false
    }

    fn init(&mut self) -> (r: Result<(), &'static str>) {
        Ok(())
    }
}

} // verus!
