//! A serial second-stage loader for a small ARM64 board: register views, a
//! driver lifecycle, a swappable console and the serial hand-off protocol,
//! each with its contract.
//!
//! The peripherals are modelled. Each register window is a block of
//! ordinary memory that records the address it stands for but never
//! dereferences it; beside it the device's behaviour is modelled (the
//! UART's FIFOs, flag register and line, the early console's port). The
//! payload is kept as the bytes stored at the load address plus their
//! index; storing them there and entering them is left to the program that
//! runs on the board.
pub mod bsp;
pub mod console;
pub mod driver;
pub mod gpio;
pub mod loader;
pub mod mmio;
pub mod panic_wait;
pub mod regs;
pub mod sync;
pub mod uart;
