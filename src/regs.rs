//! Register field encoding, and the register layouts of the two peripherals.
//!
//! A field is a mask of its width and the bit it starts at. Encoding a field
//! value and testing a register against one are done by `tock_registers`.
use vstd::prelude::*;
use tock_registers::fields::FieldValue;
use tock_registers::LocalRegisterCopy;

verus! {

/// The bits of `value` under a field of width `mask`, moved to bit `shift`.
pub open spec fn field_bits(mask: u32, shift: u32, value: u32) -> u32 {
    (value & mask) << shift
}

/// Whether every bit of the field in `reg` equals the field value `value`.
pub open spec fn field_holds(reg: u32, mask: u32, shift: u32, value: u32) -> bool {
    reg & (mask << shift) == field_bits(mask, shift, value)
}

/// Relies on `tock_registers::fields::FieldValue::<u32, _>::new`: the
/// field's value is `(value & mask) << shift`.
#[verifier::external_body]
pub(crate) fn field_value(mask: u32, shift: u32, value: u32) -> (r: u32)
    requires
        shift < 32,
    ensures
        r == field_bits(mask, shift, value),
{
    FieldValue::<u32, ()>::new(mask, shift as usize, value).value
}

/// Relies on `tock_registers::LocalRegisterCopy::matches_all`: true when the
/// register's bits under the field's shifted mask equal the field's value.
#[verifier::external_body]
pub(crate) fn field_matches(reg: u32, mask: u32, shift: u32, value: u32) -> (r: bool)
    requires
        shift < 32,
    ensures
        r == field_holds(reg, mask, shift, value),
{
    LocalRegisterCopy::<u32, ()>::new(reg).matches_all(FieldValue::<u32, ()>::new(mask, shift as usize, value))
}

// PL011 UART register offsets.
pub const UART_DR: usize = 0x00;
pub const UART_FR: usize = 0x18;
pub const UART_IBRD: usize = 0x24;
pub const UART_FBRD: usize = 0x28;
pub const UART_LCR_H: usize = 0x2C;
pub const UART_CR: usize = 0x30;
pub const UART_ICR: usize = 0x44;
/// Size of the PL011 register block.
pub const UART_LAYOUT_SIZE: usize = 0x48;

// FR: one-bit flags.
pub const FR_TXFE_SHIFT: u32 = 7;
pub const FR_TXFF_SHIFT: u32 = 5;
pub const FR_RXFE_SHIFT: u32 = 4;
pub const FR_BUSY_SHIFT: u32 = 3;

// IBRD / FBRD: the baud divisor, integer and fractional parts.
pub const IBRD_BAUD_DIVINT_MASK: u32 = 0xFFFF;
pub const FBRD_BAUD_DIVFRAC_MASK: u32 = 0x3F;
/// Integer part of the divisor for 921600 baud.
pub const BAUD_DIVINT: u32 = 3;
/// Fractional part of the divisor for 921600 baud.
pub const BAUD_DIVFRAC: u32 = 16;

// LCR_H: word length and FIFO enable.
pub const LCR_H_WLEN_MASK: u32 = 0b11;
pub const LCR_H_WLEN_SHIFT: u32 = 5;
pub const LCR_H_WLEN_EIGHT_BIT: u32 = 0b11;
pub const LCR_H_FEN_SHIFT: u32 = 4;

// CR: receive, transmit and UART enable.
pub const CR_RXE_SHIFT: u32 = 9;
pub const CR_TXE_SHIFT: u32 = 8;
pub const CR_UARTEN_SHIFT: u32 = 0;

// ICR: all pending interrupts at once.
pub const ICR_ALL_MASK: u32 = 0x7FF;

// BCM GPIO register offsets.
pub const GPIO_GPFSEL1: usize = 0x04;
pub const GPIO_GPPUD: usize = 0x94;
pub const GPIO_GPPUDCLK0: usize = 0x98;
pub const GPIO_PUP_PDN_CNTRL_REG0: usize = 0xE4;
/// Size of the GPIO register block.
pub const GPIO_LAYOUT_SIZE: usize = 0xE8;

// GPFSEL1: function select of pins 14 and 15.
pub const FSEL_MASK: u32 = 0b111;
pub const FSEL14_SHIFT: u32 = 12;
pub const FSEL15_SHIFT: u32 = 15;
pub const FSEL_ALTFUN: u32 = 0b100;

// GPPUD: the pull control line for all pins.
pub const GPPUD_PUD_MASK: u32 = 0b11;
pub const GPPUD_PUD_DISABLE: u32 = 0b00;

// GPPUDCLK0: pull clock of pins 14 and 15.
pub const PUDCLK14_SHIFT: u32 = 14;
pub const PUDCLK15_SHIFT: u32 = 15;

// GPIO_PUP_PDN_CNTRL_REG0: direct pull control of pins 14 and 15.
pub const PUP_PDN_MASK: u32 = 0b11;
pub const PUP_PDN14_SHIFT: u32 = 28;
pub const PUP_PDN15_SHIFT: u32 = 30;
/// Neither pull-up nor pull-down.
pub const PUP_PDN_NO_RESISTOR: u32 = 0b00;

} // verus!
