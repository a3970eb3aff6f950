use miniload::console::{register_console, console, ConsoleId, ConsoleRegistry, NullConsole, Read, Statistics, Write, write_str};
use miniload::driver::{DeviceDriver, DeviceDriverDescriptor, DeviceDriverPostInitCallback, DriverId, DriverManager};
use miniload::bsp::Devices;
use miniload::gpio::{BoardRevision, GPIO};
use miniload::mmio::MMIODerefWrapper;
use miniload::regs;
use miniload::sync::NullLock;
use miniload::uart::PL1011Uart;

#[test]
fn mmio_store_then_load_round_trips() {
    let mut m = MMIODerefWrapper::new(0x1000, 0x10);
    m.write(4, 0xDEAD_BEEF);
    assert_eq!(m.read(4), 0xDEAD_BEEF);
    assert_eq!(m.start_addr(), 0x1000);
    assert_eq!(m.layout_size(), 0x10);
}

#[test]
fn mmio_store_leaves_neighbours_alone() {
    let mut m = MMIODerefWrapper::new(0, 0x0C);
    m.write(0, 0x1111_1111);
    m.write(8, 0x3333_3333);
    m.write(4, 0xFFFF_FFFF);
    assert_eq!(m.read(0), 0x1111_1111);
    assert_eq!(m.read(4), 0xFFFF_FFFF);
    assert_eq!(m.read(8), 0x3333_3333);
}

#[test]
fn null_lock_grants_the_value() {
    let mut l = NullLock::new(5u32);
    *l.lock() += 1;
    assert_eq!(*l.read(), 6);
}

#[test]
fn uart_init_programs_registers() {
    let mut u = PL1011Uart::new(0x3F20_1000);
    assert_eq!(u.init(), Ok(()));
    assert_eq!(u.register(regs::UART_IBRD), 3);
    assert_eq!(u.register(regs::UART_FBRD), 16);
    assert_eq!(u.register(regs::UART_LCR_H), 0x70);
    assert_eq!(u.register(regs::UART_CR), 0x301);
    assert_eq!(u.register(regs::UART_ICR), 0);
    assert_eq!(u.compatible(), "BCM PL011 UART");
}

#[test]
fn uart_loopback_round_trip() {
    let mut u = PL1011Uart::new(0x3F20_1000);
    u.init().unwrap();
    u.set_loopback(true);
    u.write_char('A');
    u.write_char('B');
    assert_eq!(u.read_char(), Some('A'));
    assert_eq!(u.read_char(), Some('B'));
    assert_eq!(u.read_char(), None);
    assert_eq!(u.chars_written(), 2);
    assert_eq!(u.chars_read(), 2);
    assert_eq!(u.transmitted(), vec![b'A', b'B']);
}

#[test]
fn uart_flag_register_tracks_fifos() {
    let mut u = PL1011Uart::new(0);
    // Transmit FIFO empty, receive FIFO empty, not busy.
    assert_eq!(u.register(regs::UART_FR), 0x90);
    u.write_char('x');
    // Busy with one byte in flight.
    assert_eq!(u.register(regs::UART_FR), 0x18);
    u.flush();
    u.receive_from_line(7);
    assert_eq!(u.register(regs::UART_FR), 0x80);
}

#[test]
fn uart_writes_through_full_fifo() {
    let mut u = PL1011Uart::new(0);
    for _ in 0..40 {
        u.write_char('z');
    }
    assert_eq!(u.chars_written(), 40);
    assert_eq!(u.transmitted().len(), 40);
}

#[test]
fn uart_clear_rx_discards_pending() {
    let mut u = PL1011Uart::new(0);
    u.receive_from_line(1);
    u.receive_from_line(2);
    u.clear_rx();
    assert_eq!(u.read_char(), None);
    assert_eq!(u.chars_read(), 2);
}

#[test]
fn uart_write_str_sends_low_bytes() {
    let mut u = PL1011Uart::new(0);
    write_str(&mut u, "OK");
    assert_eq!(u.transmitted(), vec![b'O', b'K']);
}

#[test]
fn null_console_is_silent() {
    let mut n = NullConsole {};
    n.write_char('q');
    n.flush();
    n.clear_rx();
    assert_eq!(n.chars_written(), 0);
    assert_eq!(n.chars_read(), 0);
    assert_eq!(n.read_char(), None);
}

#[test]
fn registry_returns_registered_console() {
    let mut r = ConsoleRegistry::new();
    assert_eq!(console(&r), ConsoleId::Null);
    register_console(&mut r, ConsoleId::Uart);
    assert_eq!(console(&r), ConsoleId::Uart);
    assert_eq!(console(&r), ConsoleId::Uart);
    register_console(&mut r, ConsoleId::Qemu);
    assert_eq!(console(&r), ConsoleId::Qemu);
}

#[test]
fn driver_registry_refuses_past_capacity() {
    let mut m = DriverManager::new();
    for _ in 0..5 {
        assert!(m.register_driver(DeviceDriverDescriptor::new(DriverId::Gpio, None)).is_ok());
    }
    assert!(m.register_driver(DeviceDriverDescriptor::new(DriverId::Uart, None)).is_err());
    assert_eq!(m.len(), 5);
}

#[test]
fn enumerate_is_one_based_in_order() {
    let mut m = DriverManager::new();
    m.register_driver(DeviceDriverDescriptor::new(DriverId::Uart, Some(DeviceDriverPostInitCallback::RegisterUartConsole))).unwrap();
    m.register_driver(DeviceDriverDescriptor::new(DriverId::Gpio, None)).unwrap();
    let d = Devices::new(BoardRevision::Rpi3);
    assert_eq!(m.enumerate(&d), vec![(1, "BCM PL011 UART"), (2, "BCM GPIO")]);
    assert_eq!(m.descriptor(1).post_init_callback, None);
    assert_eq!(m.for_each_descriptor().len(), 2);
}

#[test]
fn gpio_maps_uart_pins_rpi3() {
    let mut g = GPIO::new(0x3F20_0000, BoardRevision::Rpi3);
    g.map_p1011_uart();
    assert_eq!(g.register(regs::GPIO_GPFSEL1), 0x24000);
    assert_eq!(g.register(regs::GPIO_GPPUD), 0);
    assert_eq!(g.register(regs::GPIO_GPPUDCLK0), 0);
    assert_eq!(g.compatible(), "BCM GPIO");
}

#[test]
fn gpio_maps_uart_pins_rpi4() {
    let mut g = GPIO::new(0xFE20_0000, BoardRevision::Rpi4);
    assert_eq!(g.init(), Ok(()));
    g.map_p1011_uart();
    assert_eq!(g.register(regs::GPIO_GPFSEL1), 0x24000);
    assert_eq!(g.register(regs::GPIO_PUP_PDN_CNTRL_REG0), 0);
}

#[test]
fn write_str_on_looped_uart_arrives_at_input() {
    let mut u = PL1011Uart::new(0);
    u.init().unwrap();
    u.set_loopback(true);
    assert!(u.loopback());
    write_str(&mut u, "hi");
    assert_eq!(u.read_char(), Some('h'));
    assert_eq!(u.read_char(), Some('i'));
    assert_eq!(u.chars_written(), 2);
}
