//! The PL011 UART: its driver, and the device behind its register window.
//!
//! The device keeps the flag register in step with its two FIFOs: bytes
//! stored into the data register join the transmit FIFO and leave it one per
//! poll cycle; bytes from the line wait in the receive FIFO until the data
//! register hands them out. With loopback on, each transmitted byte also
//! arrives at the receiver.
use vstd::prelude::*;
use crate::console::{Statistics, Read, Write, All};
use crate::driver::DeviceDriver;
use crate::sync::NullLock;
use crate::mmio::{MMIODerefWrapper, declared, lemma_store_within_layout, lemma_store_keeps_other};
use crate::regs::{
    field_value, field_matches, field_bits, field_holds, UART_DR, UART_FR, UART_IBRD, UART_FBRD,
    UART_LCR_H, UART_CR, UART_ICR, UART_LAYOUT_SIZE, FR_TXFE_SHIFT, FR_TXFF_SHIFT, FR_RXFE_SHIFT,
    FR_BUSY_SHIFT, IBRD_BAUD_DIVINT_MASK, FBRD_BAUD_DIVFRAC_MASK, BAUD_DIVINT, BAUD_DIVFRAC,
    LCR_H_WLEN_MASK, LCR_H_WLEN_SHIFT, LCR_H_WLEN_EIGHT_BIT, LCR_H_FEN_SHIFT, CR_RXE_SHIFT,
    CR_TXE_SHIFT, CR_UARTEN_SHIFT, ICR_ALL_MASK,
};

verus! {

/// Depth of the transmit FIFO.
pub const TX_FIFO_DEPTH: usize = 16;

/// The flag register for the given bits, each 0 or 1.
pub open spec fn fr_of(txfe: u32, txff: u32, rxfe: u32, busy: u32) -> u32 {
    (txfe << FR_TXFE_SHIFT) | (txff << FR_TXFF_SHIFT) | (rxfe << FR_RXFE_SHIFT) | (busy << FR_BUSY_SHIFT)
}

/// 1 when `b` holds, else 0.
pub open spec fn bit(b: bool) -> u32 {
    if b { 1u32 } else { 0u32 }
}

/// Each one-bit flag of `fr_of` reads back as what was put in.
proof fn lemma_fr_flags(txfe: u32, txff: u32, rxfe: u32, busy: u32)
    requires
        txfe <= 1,
        txff <= 1,
        rxfe <= 1,
        busy <= 1,
    ensures
        field_holds(fr_of(txfe, txff, rxfe, busy), 1, 5, 1) == (txff == 1),
        field_holds(fr_of(txfe, txff, rxfe, busy), 1, 4, 1) == (rxfe == 1),
        field_holds(fr_of(txfe, txff, rxfe, busy), 1, 3, 1) == (busy == 1),
{
    let r = fr_of(txfe, txff, rxfe, busy);
    assert(((r & (1u32 << 5u32)) == ((1u32 & 1u32) << 5u32)) == (txff == 1)) by (bit_vector)
        requires
            txfe <= 1 && txff <= 1 && rxfe <= 1 && busy <= 1,
            r == (txfe << 7u32) | (txff << 5u32) | (rxfe << 4u32) | (busy << 3u32),
    ;
    assert(((r & (1u32 << 4u32)) == ((1u32 & 1u32) << 4u32)) == (rxfe == 1)) by (bit_vector)
        requires
            txfe <= 1 && txff <= 1 && rxfe <= 1 && busy <= 1,
            r == (txfe << 7u32) | (txff << 5u32) | (rxfe << 4u32) | (busy << 3u32),
    ;
    assert(((r & (1u32 << 3u32)) == ((1u32 & 1u32) << 3u32)) == (busy == 1)) by (bit_vector)
        requires
            txfe <= 1 && txff <= 1 && rxfe <= 1 && busy <= 1,
            r == (txfe << 7u32) | (txff << 5u32) | (rxfe << 4u32) | (busy << 3u32),
    ;
}

/// The stores `init` makes, in order, each with no byte left in
/// transmission: all of them come after the transmitter has drained.
pub open spec fn init_stores() -> Seq<(usize, u32, nat)> {
    seq![
        (UART_CR, 0u32, 0nat),
        (UART_ICR, field_bits(ICR_ALL_MASK, 0, 0), 0nat),
        (UART_IBRD, field_bits(IBRD_BAUD_DIVINT_MASK, 0, BAUD_DIVINT), 0nat),
        (UART_FBRD, field_bits(FBRD_BAUD_DIVFRAC_MASK, 0, BAUD_DIVFRAC), 0nat),
        (UART_LCR_H, PL1011UartInner::lcr_h_fifo_8bit(), 0nat),
        (UART_CR, PL1011UartInner::cr_enabled(), 0nat),
    ]
}

/// Whether a read waits for data or returns at once.
#[derive(Debug, PartialEq, Eq, Structural)]
pub enum BlockingMode {
    Blocking,
    NonBlocking,
}

/// The UART's registers and device state, and the driver's counters.
pub struct PL1011UartInner {
    registers: MMIODerefWrapper,
    /// Every byte stored into the data register, in order.
    tx: Vec<u8>,
    /// How many of `tx` have left the transmit shift register.
    tx_done: usize,
    /// Every byte that arrived from the line, in order.
    rx: Vec<u8>,
    /// How many of `rx` the data register has handed out.
    rx_next: usize,
    loopback: bool,
    chars_written: usize,
    chars_read: usize,
    /// The stores the driver made, in order, each as (register offset,
    /// value, bytes still in transmission at that moment). The device's own
    /// updates of its registers are not among them.
    accesses: Ghost<Seq<(usize, u32, nat)>>,
}

impl PL1011UartInner {
    pub closed spec fn regs(&self) -> MMIODerefWrapper {
        self.registers
    }

    /// The stores the driver made, in order, each with the number of bytes
    /// that were still in transmission when it was made.
    pub closed spec fn driver_log(&self) -> Seq<(usize, u32, nat)> {
        self.accesses@
    }

    /// Bytes stored into the data register so far.
    pub closed spec fn sent(&self) -> Seq<u8> {
        self.tx@
    }

    /// Bytes stored into the data register that are still in the transmit
    /// FIFO or shift register.
    pub closed spec fn in_flight(&self) -> nat {
        (self.tx@.len() - self.tx_done) as nat
    }

    /// Bytes that arrived from the line so far.
    pub closed spec fn arrived(&self) -> Seq<u8> {
        self.rx@
    }

    /// How many arrived bytes have been read out.
    pub closed spec fn taken(&self) -> nat {
        self.rx_next as nat
    }

    pub closed spec fn looped(&self) -> bool {
        self.loopback
    }

    /// The receive FIFO holds what arrived and was not yet taken.
    pub proof fn lemma_pending(&self)
        requires
            self.wf(),
        ensures
            self.taken() <= self.arrived().len(),
            self.pending().len() == self.arrived().len() - self.taken(),
    {
    }

    /// Bytes waiting in the receive FIFO.
    pub open spec fn pending(&self) -> Seq<u8> {
        self.arrived().subrange(self.taken() as int, self.arrived().len() as int)
    }

    pub closed spec fn written_count(&self) -> nat {
        self.chars_written as nat
    }

    pub closed spec fn read_count(&self) -> nat {
        self.chars_read as nat
    }

    /// The value of the register at `off`.
    pub open spec fn reg(&self, off: usize) -> u32 {
        self.regs().reg(off as int)
    }

    /// The flag register as the device state makes it.
    pub closed spec fn flags(&self) -> u32 {
        fr_of(
            bit(self.tx_done == self.tx@.len()),
            bit(self.tx@.len() - self.tx_done >= TX_FIFO_DEPTH),
            bit(self.rx_next == self.rx@.len()),
            bit(self.tx_done < self.tx@.len()),
        )
    }

    pub closed spec fn wf(&self) -> bool {
        &&& self.registers.size() == UART_LAYOUT_SIZE
        &&& self.tx_done <= self.tx@.len()
        &&& self.tx@.len() - self.tx_done <= TX_FIFO_DEPTH
        &&& self.rx_next <= self.rx@.len()
        &&& self.chars_written == self.tx@.len()
        &&& self.chars_read == self.rx_next
        &&& self.registers.reg(UART_FR as int) == self.flags()
    }

    /// The same device state, counters and mode.
    pub open spec fn same_state(&self, other: &Self) -> bool {
        &&& self.sent() == other.sent()
        &&& self.in_flight() == other.in_flight()
        &&& self.arrived() == other.arrived()
        &&& self.taken() == other.taken()
        &&& self.looped() == other.looped()
        &&& self.written_count() == other.written_count()
        &&& self.read_count() == other.read_count()
    }

    /// A UART at `mmio_start_addr` with empty FIFOs and zeroed counters.
    pub fn new(mmio_start_addr: usize) -> (r: Self)
        ensures
            r.wf(),
            r.regs().base() == mmio_start_addr,
            r.sent() == Seq::<u8>::empty(),
            r.arrived() == Seq::<u8>::empty(),
            r.taken() == 0,
            r.in_flight() == 0,
            !r.looped(),
            r.written_count() == 0,
            r.read_count() == 0,
            r.driver_log() == Seq::<(usize, u32, nat)>::empty(),
    {
        let mut r = PL1011UartInner {
            registers: MMIODerefWrapper::new(mmio_start_addr, UART_LAYOUT_SIZE),
            tx: Vec::new(),
            tx_done: 0,
            rx: Vec::new(),
            rx_next: 0,
            loopback: false,
            chars_written: 0,
            chars_read: 0,
            accesses: Ghost(Seq::empty()),
        };
        r.refresh_flags();
        r
    }

    /// The device brings the flag register up to date with its FIFOs.
    fn refresh_flags(&mut self)
        requires
            old(self).registers.size() == UART_LAYOUT_SIZE,
            old(self).tx_done <= old(self).tx@.len(),
        ensures
            final(self).registers.size() == UART_LAYOUT_SIZE,
            final(self).registers.base() == old(self).registers.base(),
            final(self).reg(UART_FR as usize) == final(self).flags(),
            forall|o: usize|
                declared(UART_LAYOUT_SIZE as nat, o as int) && o != UART_FR ==> #[trigger] final(self).reg(o) == old(self).reg(o),
            final(self).accesses == old(self).accesses,
            final(self).tx == old(self).tx,
            final(self).tx_done == old(self).tx_done,
            final(self).rx == old(self).rx,
            final(self).rx_next == old(self).rx_next,
            final(self).loopback == old(self).loopback,
            final(self).chars_written == old(self).chars_written,
            final(self).chars_read == old(self).chars_read,
    {
        let tx_len = self.tx.len();
        let txfe: u32 = if self.tx_done == tx_len { 1 } else { 0 };
        let txff: u32 = if tx_len - self.tx_done >= TX_FIFO_DEPTH { 1 } else { 0 };
        let rxfe: u32 = if self.rx_next == self.rx.len() { 1 } else { 0 };
        let busy: u32 = if self.tx_done < tx_len { 1 } else { 0 };
        let fr = (txfe << FR_TXFE_SHIFT) | (txff << FR_TXFF_SHIFT) | (rxfe << FR_RXFE_SHIFT) | (busy
            << FR_BUSY_SHIFT);
        let ghost before = self.registers.bytes();
        self.registers.write(UART_FR, fr);
        proof {
            lemma_store_within_layout(before, UART_FR as int, fr);
            assert forall|o: usize|
                declared(UART_LAYOUT_SIZE as nat, o as int) && o != UART_FR implies #[trigger] self.reg(o)
                    == old(self).reg(o) by {
                lemma_store_keeps_other(before, UART_FR as int, fr, o as int);
            }
        }
    }

    /// Stores `v` into a register that the device gives no side effect.
    fn store(&mut self, off: usize, v: u32)
        requires
            old(self).wf(),
            declared(UART_LAYOUT_SIZE as nat, off as int),
            off != UART_FR,
        ensures
            final(self).wf(),
            final(self).same_state(old(self)),
            final(self).regs().base() == old(self).regs().base(),
            final(self).reg(off) == v,
            final(self).driver_log() == old(self).driver_log().push((off, v, old(self).in_flight())),
            forall|o: usize|
                declared(UART_LAYOUT_SIZE as nat, o as int) && o != off ==> #[trigger] final(self).reg(o) == old(self).reg(o),
    {
        let ghost before = self.registers.bytes();
        self.accesses = Ghost(self.accesses@.push((off, v, self.in_flight())));
        self.registers.write(off, v);
        proof {
            lemma_store_within_layout(before, off as int, v);
            lemma_store_keeps_other(before, off as int, v, UART_FR as int);
            assert forall|o: usize|
                declared(UART_LAYOUT_SIZE as nat, o as int) && o != off implies #[trigger] self.reg(o)
                    == old(self).reg(o) by {
                lemma_store_keeps_other(before, off as int, v, o as int);
            }
        }
    }

    /// Reads the flag register and tests one of its one-bit flags.
    fn flag_set(&self, shift: u32) -> (r: bool)
        requires
            self.wf(),
            shift == FR_TXFF_SHIFT || shift == FR_RXFE_SHIFT || shift == FR_BUSY_SHIFT,
        ensures
            shift == FR_TXFF_SHIFT ==> r == (self.tx@.len() - self.tx_done >= TX_FIFO_DEPTH),
            shift == FR_RXFE_SHIFT ==> r == (self.rx_next == self.rx@.len()),
            shift == FR_BUSY_SHIFT ==> r == (self.tx_done < self.tx@.len()),
    {
        let fr = self.registers.read(UART_FR);
        proof {
            lemma_fr_flags(
                bit(self.tx_done == self.tx@.len()),
                bit(self.tx@.len() - self.tx_done >= TX_FIFO_DEPTH),
                bit(self.rx_next == self.rx@.len()),
                bit(self.tx_done < self.tx@.len()),
            );
        }
        field_matches(fr, 1, shift, 1)
    }

    /// One poll cycle passes: the transmitter puts one byte on the line if
    /// it has any.
    fn cycle(&mut self)
        requires
            old(self).wf(),
        ensures
            final(self).wf(),
            final(self).regs().base() == old(self).regs().base(),
            final(self).sent() == old(self).sent(),
            final(self).arrived() == old(self).arrived(),
            final(self).taken() == old(self).taken(),
            final(self).looped() == old(self).looped(),
            final(self).written_count() == old(self).written_count(),
            final(self).read_count() == old(self).read_count(),
            old(self).in_flight() > 0 ==> final(self).in_flight() == old(self).in_flight() - 1,
            old(self).in_flight() == 0 ==> final(self).in_flight() == 0,
            final(self).driver_log() == old(self).driver_log(),
            forall|o: usize|
                declared(UART_LAYOUT_SIZE as nat, o as int) && o != UART_FR ==> #[trigger] final(self).reg(o) == old(self).reg(o),
    {
        if self.tx_done < self.tx.len() {
            self.tx_done = self.tx_done + 1;
        }
        self.refresh_flags();
    }

    /// Waits until the transmitter has put every stored byte on the line.
    pub fn flush(&mut self)
        requires
            old(self).wf(),
        ensures
            final(self).wf(),
            final(self).regs().base() == old(self).regs().base(),
            final(self).in_flight() == 0,
            final(self).sent() == old(self).sent(),
            final(self).arrived() == old(self).arrived(),
            final(self).taken() == old(self).taken(),
            final(self).looped() == old(self).looped(),
            final(self).written_count() == old(self).written_count(),
            final(self).read_count() == old(self).read_count(),
            forall|o: usize|
                declared(UART_LAYOUT_SIZE as nat, o as int) && o != UART_FR ==> #[trigger] final(self).reg(o) == old(self).reg(o),
            final(self).driver_log() == old(self).driver_log(),
    {
        while self.flag_set(FR_BUSY_SHIFT)
            invariant
                self.wf(),
                self.driver_log() == old(self).driver_log(),
                self.regs().base() == old(self).regs().base(),
                self.sent() == old(self).sent(),
                self.arrived() == old(self).arrived(),
                self.taken() == old(self).taken(),
                self.looped() == old(self).looped(),
                self.written_count() == old(self).written_count(),
                self.read_count() == old(self).read_count(),
                forall|o: usize|
                    declared(UART_LAYOUT_SIZE as nat, o as int) && o != UART_FR ==> #[trigger] self.reg(o) == old(self).reg(o),
            decreases self.in_flight(),
        {
            self.cycle();
        }
    }

    /// The control register value with receive, transmit and UART enabled.
    pub open spec fn cr_enabled() -> u32 {
        field_bits(1, CR_RXE_SHIFT, 1) | field_bits(1, CR_TXE_SHIFT, 1) | field_bits(1, CR_UARTEN_SHIFT, 1)
    }

    /// The line control value for 8-bit words with the FIFOs on.
    pub open spec fn lcr_h_fifo_8bit() -> u32 {
        field_bits(LCR_H_WLEN_MASK, LCR_H_WLEN_SHIFT, LCR_H_WLEN_EIGHT_BIT) | field_bits(1, LCR_H_FEN_SHIFT, 1)
    }

    /// Waits for the transmitter to drain, then programs the UART: control
    /// cleared, interrupts cleared, the baud divisor, 8-bit words with the
    /// FIFOs on, and finally receive, transmit and the UART enabled.
    pub fn init(&mut self)
        requires
            old(self).wf(),
        ensures
            final(self).wf(),
            final(self).regs().base() == old(self).regs().base(),
            final(self).in_flight() == 0,
            final(self).sent() == old(self).sent(),
            final(self).arrived() == old(self).arrived(),
            final(self).taken() == old(self).taken(),
            final(self).looped() == old(self).looped(),
            final(self).written_count() == old(self).written_count(),
            final(self).read_count() == old(self).read_count(),
            final(self).reg(UART_ICR) == field_bits(ICR_ALL_MASK, 0, 0),
            final(self).reg(UART_IBRD) == field_bits(IBRD_BAUD_DIVINT_MASK, 0, BAUD_DIVINT),
            final(self).reg(UART_FBRD) == field_bits(FBRD_BAUD_DIVFRAC_MASK, 0, BAUD_DIVFRAC),
            final(self).reg(UART_LCR_H) == Self::lcr_h_fifo_8bit(),
            final(self).reg(UART_CR) == Self::cr_enabled(),
            final(self).driver_log() == old(self).driver_log() + init_stores(),
    {
        self.flush();
        self.store(UART_CR, 0);
        self.store(UART_ICR, field_value(ICR_ALL_MASK, 0, 0));
        self.store(UART_IBRD, field_value(IBRD_BAUD_DIVINT_MASK, 0, BAUD_DIVINT));
        self.store(UART_FBRD, field_value(FBRD_BAUD_DIVFRAC_MASK, 0, BAUD_DIVFRAC));
        let lcr_h = field_value(LCR_H_WLEN_MASK, LCR_H_WLEN_SHIFT, LCR_H_WLEN_EIGHT_BIT) | field_value(
            1,
            LCR_H_FEN_SHIFT,
            1,
        );
        self.store(UART_LCR_H, lcr_h);
        let cr = field_value(1, CR_RXE_SHIFT, 1) | field_value(1, CR_TXE_SHIFT, 1) | field_value(
            1,
            CR_UARTEN_SHIFT,
            1,
        );
        self.store(UART_CR, cr);
        proof {
            assert(self.driver_log() =~= old(self).driver_log() + init_stores());
        }
    }

    /// Waits while the transmit FIFO is full, then stores the character's
    /// low byte into the data register and counts it.
    pub fn write_char(&mut self, c: char)
        requires
            old(self).wf(),
            old(self).written_count() < usize::MAX,
        ensures
            final(self).wf(),
            final(self).regs().base() == old(self).regs().base(),
            final(self).sent() == old(self).sent().push(c as u8),
            final(self).arrived() == (if old(self).looped() {
                old(self).arrived().push(c as u8)
            } else {
                old(self).arrived()
            }),
            final(self).taken() == old(self).taken(),
            final(self).looped() == old(self).looped(),
            final(self).written_count() == old(self).written_count() + 1,
            final(self).read_count() == old(self).read_count(),
            final(self).driver_log().len() == old(self).driver_log().len() + 1,
            final(self).driver_log().drop_last() == old(self).driver_log(),
            final(self).driver_log().last().0 == UART_DR,
            final(self).driver_log().last().1 == c as u32,
            final(self).driver_log().last().2 < TX_FIFO_DEPTH,
    {
        while self.flag_set(FR_TXFF_SHIFT)
            invariant
                self.wf(),
                self.driver_log() == old(self).driver_log(),
                self.regs().base() == old(self).regs().base(),
                self.sent() == old(self).sent(),
                self.arrived() == old(self).arrived(),
                self.taken() == old(self).taken(),
                self.looped() == old(self).looped(),
                self.written_count() == old(self).written_count(),
                self.read_count() == old(self).read_count(),
            decreases self.in_flight(),
        {
            self.cycle();
        }
        let v = c as u32;
        self.accesses = Ghost(self.accesses@.push((UART_DR, v, self.in_flight())));
        self.registers.write(UART_DR, v);
        let b = v as u8;
        self.tx.push(b);
        if self.loopback {
            self.rx.push(b);
        }
        self.chars_written = self.chars_written + 1;
        self.refresh_flags();
        proof {
            assert(self.driver_log().drop_last() =~= old(self).driver_log());
        }
    }

    /// Takes the next received byte as a character. When the receive FIFO
    /// is empty a non-blocking read returns `None`; a blocking read would
    /// wait for the line, so it is only made while a byte is pending.
    pub fn read_char_converting(&mut self, blocking_mode: BlockingMode) -> (r: Option<char>)
        requires
            old(self).wf(),
            blocking_mode == BlockingMode::NonBlocking || old(self).pending().len() > 0,
        ensures
            final(self).wf(),
            final(self).regs().base() == old(self).regs().base(),
            final(self).sent() == old(self).sent(),
            final(self).in_flight() == old(self).in_flight(),
            final(self).arrived() == old(self).arrived(),
            final(self).looped() == old(self).looped(),
            final(self).written_count() == old(self).written_count(),
            final(self).driver_log() == old(self).driver_log(),
            old(self).pending().len() == 0 ==> r == None::<char> && final(self).taken() == old(self).taken() && final(self).read_count() == old(self).read_count(),
            old(self).pending().len() > 0 ==> r == Some(old(self).pending()[0] as char)
                && final(self).taken() == old(self).taken() + 1 && final(self).read_count() == old(self).read_count() + 1,
    {
        if self.flag_set(FR_RXFE_SHIFT) {
            // The receive FIFO is empty; a blocking read is never made here.
            return None;
        }
        // The device presents the oldest received byte in the data register.
        let rx_len = self.rx.len();
        let b = self.rx[self.rx_next];
        let ghost before = self.registers.bytes();
        self.registers.write(UART_DR, b as u32);
        proof {
            lemma_store_within_layout(before, UART_DR as int, b as u32);
            lemma_store_keeps_other(before, UART_DR as int, b as u32, UART_FR as int);
        }
        let ret = self.registers.read(UART_DR) as u8 as char;
        proof {
            assert(self.rx_next < rx_len);
        }
        self.rx_next = self.rx_next + 1;
        self.chars_read = self.chars_read + 1;
        self.refresh_flags();
        Some(ret)
    }

    /// The line delivers `b` to the receiver.
    pub fn receive_from_line(&mut self, b: u8)
        requires
            old(self).wf(),
        ensures
            final(self).wf(),
            final(self).regs().base() == old(self).regs().base(),
            final(self).arrived() == old(self).arrived().push(b),
            final(self).sent() == old(self).sent(),
            final(self).driver_log() == old(self).driver_log(),
            final(self).in_flight() == old(self).in_flight(),
            final(self).taken() == old(self).taken(),
            final(self).looped() == old(self).looped(),
            final(self).written_count() == old(self).written_count(),
            final(self).read_count() == old(self).read_count(),
    {
        self.rx.push(b);
        self.refresh_flags();
    }

    /// Routes the transmitter back into the receiver, or stops doing so.
    pub fn set_loopback(&mut self, on: bool)
        requires
            old(self).wf(),
        ensures
            final(self).wf(),
            final(self).regs().base() == old(self).regs().base(),
            final(self).looped() == on,
            final(self).sent() == old(self).sent(),
            final(self).driver_log() == old(self).driver_log(),
            final(self).in_flight() == old(self).in_flight(),
            final(self).arrived() == old(self).arrived(),
            final(self).taken() == old(self).taken(),
            final(self).written_count() == old(self).written_count(),
            final(self).read_count() == old(self).read_count(),
    {
        self.loopback = on;
    }
}

} // verus!

verus! {

/// The PL011 UART driver: the register view and device, behind a critical
/// section.
pub struct PL1011Uart {
    inner: NullLock<PL1011UartInner>,
}

impl PL1011Uart {
    pub const COMPATIBLE: &'static str = "BCM PL011 UART";

    pub closed spec fn state(&self) -> PL1011UartInner {
        self.inner.value()
    }

    pub open spec fn wf(&self) -> bool {
        self.state().wf()
    }

    /// A UART driver for the register block at `mmio_start_addr`.
    pub fn new(mmio_start_addr: usize) -> (r: Self)
        ensures
            r.wf(),
            r.state().regs().base() == mmio_start_addr,
            r.state().sent() == Seq::<u8>::empty(),
            r.state().arrived() == Seq::<u8>::empty(),
            r.state().taken() == 0,
            r.state().in_flight() == 0,
            !r.state().looped(),
            r.state().written_count() == 0,
            r.state().read_count() == 0,
    {
        PL1011Uart { inner: NullLock::new(PL1011UartInner::new(mmio_start_addr)) }
    }

    /// The line delivers `b` from the peer.
    pub fn receive_from_line(&mut self, b: u8)
        requires
            old(self).wf(),
        ensures
            final(self).wf(),
            final(self).state().arrived() == old(self).state().arrived().push(b),
            final(self).state().sent() == old(self).state().sent(),
            final(self).state().taken() == old(self).state().taken(),
            final(self).state().looped() == old(self).state().looped(),
            final(self).state().written_count() == old(self).state().written_count(),
            final(self).state().read_count() == old(self).state().read_count(),
            final(self).state().regs().base() == old(self).state().regs().base(),
    {
        let inner = self.inner.lock();
        inner.receive_from_line(b);
    }

    /// Routes the transmitter back into the receiver, or stops doing so.
    pub fn set_loopback(&mut self, on: bool)
        requires
            old(self).wf(),
        ensures
            final(self).wf(),
            final(self).state().looped() == on,
            final(self).state().arrived() == old(self).state().arrived(),
            final(self).state().sent() == old(self).state().sent(),
            final(self).state().taken() == old(self).state().taken(),
            final(self).state().written_count() == old(self).state().written_count(),
            final(self).state().read_count() == old(self).state().read_count(),
            final(self).state().regs().base() == old(self).state().regs().base(),
    {
        let inner = self.inner.lock();
        inner.set_loopback(on);
    }

    /// Whether transmitted bytes are routed back into the receiver.
    pub fn loopback(&self) -> (r: bool)
        ensures
            r == self.state().looped(),
    {
        self.inner.read().loopback
    }

    /// The bytes put on the line so far, in order.
    pub fn transmitted(&self) -> (r: Vec<u8>)
        ensures
            r@ == self.state().sent(),
    {
        let inner = self.inner.read();
        inner.sent_bytes()
    }

    /// The value of the register at byte offset `off`.
    pub fn register(&self, off: usize) -> (r: u32)
        requires
            self.wf(),
            declared(UART_LAYOUT_SIZE as nat, off as int),
        ensures
            r == self.state().reg(off),
    {
        let inner = self.inner.read();
        inner.register(off)
    }
}

impl PL1011UartInner {
    fn sent_bytes(&self) -> (r: Vec<u8>)
        ensures
            r@ == self.sent(),
    {
        let mut r: Vec<u8> = Vec::new();
        let mut i: usize = 0;
        while i < self.tx.len()
            invariant
                i <= self.tx@.len(),
                r@ == self.tx@.subrange(0, i as int),
            decreases self.tx@.len() - i,
        {
            r.push(self.tx[i]);
            i = i + 1;
        }
        proof {
            assert(self.tx@.subrange(0, self.tx@.len() as int) == self.tx@);
        }
        r
    }

    fn register(&self, off: usize) -> (r: u32)
        requires
            self.wf(),
            declared(UART_LAYOUT_SIZE as nat, off as int),
        ensures
            r == self.reg(off),
    {
        self.registers.read(off)
    }
}

impl DeviceDriver for PL1011Uart {
    open spec fn name(&self) -> Seq<char> {
        "BCM PL011 UART"@
    }

    open spec fn well_formed(&self) -> bool {
        self.wf()
    }

    /// The transmitter drained, then the registers programmed as
    /// `PL1011UartInner::init` does, the FIFOs, counters and loopback kept.
    open spec fn init_effect(&self, after: &Self) -> bool {
        let b = self.state();
        let a = after.state();
        &&& a.wf()
        &&& a.regs().base() == b.regs().base()
        &&& a.in_flight() == 0
        &&& a.sent() == b.sent()
        &&& a.arrived() == b.arrived()
        &&& a.taken() == b.taken()
        &&& a.looped() == b.looped()
        &&& a.written_count() == b.written_count()
        &&& a.read_count() == b.read_count()
        &&& a.reg(UART_ICR) == field_bits(ICR_ALL_MASK, 0, 0)
        &&& a.reg(UART_IBRD) == field_bits(IBRD_BAUD_DIVINT_MASK, 0, BAUD_DIVINT)
        &&& a.reg(UART_FBRD) == field_bits(FBRD_BAUD_DIVFRAC_MASK, 0, BAUD_DIVFRAC)
        &&& a.reg(UART_LCR_H) == PL1011UartInner::lcr_h_fifo_8bit()
        &&& a.reg(UART_CR) == PL1011UartInner::cr_enabled()
        &&& a.driver_log() == b.driver_log() + init_stores()
    }

    /// Programmed for 8-bit words at the fixed baud divisor, FIFOs on, and
    /// receive, transmit and the UART enabled.
    open spec fn ready(&self) -> bool {
        &&& self.wf()
        &&& self.state().reg(UART_CR) == PL1011UartInner::cr_enabled()
        &&& self.state().reg(UART_LCR_H) == PL1011UartInner::lcr_h_fifo_8bit()
        &&& self.state().reg(UART_IBRD) == field_bits(IBRD_BAUD_DIVINT_MASK, 0, BAUD_DIVINT)
        &&& self.state().reg(UART_FBRD) == field_bits(FBRD_BAUD_DIVFRAC_MASK, 0, BAUD_DIVFRAC)
    }

    fn compatible(&self) -> (r: &'static str) {
        proof {
            reveal_strlit("BCM PL011 UART");
        }
        Self::COMPATIBLE
    }

    open spec fn init_may_fail(&self) -> bool {
        false
    }

    fn init(&mut self) -> (r: Result<(), &'static str>) {
        let inner = self.inner.lock();
        inner.init();
        Ok(())
    }
}


impl PL1011UartInner {
    /// Reads the flag register: whether the receive FIFO is empty.
    pub fn rx_empty(&self) -> (r: bool)
        requires
            self.wf(),
        ensures
            r == (self.pending().len() == 0),
    {
        self.flag_set(FR_RXFE_SHIFT)
    }
}

impl Statistics for PL1011Uart {
    open spec fn pending(&self) -> Seq<u8> {
        self.state().pending()
    }

    open spec fn output(&self) -> Seq<u8> {
        self.state().sent()
    }

    open spec fn inert(&self) -> bool {
        false
    }

    open spec fn echoes(&self) -> bool {
        self.state().looped()
    }

    open spec fn target(&self) -> nat {
        0
    }

    open spec fn console_wf(&self) -> bool {
        self.wf()
    }

    open spec fn written_count(&self) -> nat {
        self.state().written_count()
    }

    open spec fn read_count(&self) -> nat {
        self.state().read_count()
    }

    fn chars_written(&self) -> (r: usize) {
        let inner = self.inner.read();
        inner.chars_written
    }

    fn chars_read(&self) -> (r: usize) {
        let inner = self.inner.read();
        inner.chars_read
    }
}

impl Read for PL1011Uart {
    /// A blocking read. The hardware would spin on an empty receive FIFO
    /// until the peer sends; nothing reaches this device while the driver
    /// holds it, so an empty FIFO is reported as `None`.
    fn read_char(&mut self) -> (r: Option<char>) {
        let inner = self.inner.lock();
        if inner.rx_empty() {
            return None;
        }
        let ghost before = *inner;
        let r = inner.read_char_converting(BlockingMode::Blocking);
        proof {
            assert(inner.pending() =~= before.pending().drop_first());
        }
        r
    }

    /// Reads without waiting, discarding each character, until none is left.
    fn clear_rx(&mut self) {
        let inner = self.inner.lock();
        let ghost start = *inner;
        loop
            invariant
                inner.wf(),
                inner.written_count() == start.written_count(),
                inner.read_count() + inner.pending().len() == start.read_count() + start.pending().len(),
                inner.sent() == start.sent(),
                inner.looped() == start.looped(),
            ensures
                inner.wf(),
                inner.sent() == start.sent(),
                inner.looped() == start.looped(),
                inner.written_count() == start.written_count(),
                inner.read_count() == start.read_count() + start.pending().len(),
                inner.pending().len() == 0,
            decreases inner.pending().len(),
        {
            let ghost before = *inner;
            let got = inner.read_char_converting(BlockingMode::NonBlocking);
            proof {
                if before.pending().len() > 0 {
                    assert(inner.pending() =~= before.pending().drop_first());
                }
            }
            match got {
                Some(_) => {},
                None => {
                    break;
                },
            }
        }
        proof {
            assert(inner.pending() =~= Seq::<u8>::empty());
        }
    }
}

impl Write for PL1011Uart {
    fn write_char(&mut self, c: char) {
        let inner = self.inner.lock();
        let ghost before = *inner;
        inner.write_char(c);
        proof {
            if before.looped() {
                assert(inner.pending() =~= before.pending().push(c as u8));
            } else {
                assert(inner.pending() =~= before.pending());
            }
        }
    }

    fn flush(&mut self) {
        let inner = self.inner.lock();
        inner.flush();
    }
}

impl All for PL1011Uart {

}

} // verus!
