use miniload::bsp::{board_default_load_addr, board_name, console as early_console, driver_manager, init, kernel_init, Board, Devices, QEMUOutput};
use miniload::console::{ConsoleId, Read, Statistics, Write};
use miniload::driver::{DriverId, LifecycleEvent};
use miniload::gpio::BoardRevision;
use miniload::loader::{Loader, Phase};
use miniload::regs;

#[test]
fn board_identity() {
    assert_eq!(board_name(BoardRevision::Rpi3), "Raspberry Pi 3");
    assert_eq!(board_name(BoardRevision::Rpi4), "Raspberry Pi 4");
    assert_eq!(board_default_load_addr(), 0x8_0000);
}

#[test]
fn console_is_inert_before_registration() {
    let mut d = Devices::new(BoardRevision::Rpi3);
    assert_eq!(d.console(), ConsoleId::Null);
    d.write_char('x');
    d.flush();
    assert_eq!(d.chars_written(), 0);
    assert_eq!(d.read_char(), None);
    assert!(d.uart_driver().transmitted().is_empty());
}

#[test]
fn console_stays_registered() {
    let mut d = Devices::new(BoardRevision::Rpi3);
    d.register_console(ConsoleId::Qemu);
    for _ in 0..3 {
        assert_eq!(d.console(), ConsoleId::Qemu);
    }
    d.write_char('h');
    assert_eq!(d.chars_written(), 1);
}

#[test]
fn early_console_counts_writes() {
    let mut q = QEMUOutput::new();
    q.write_char('a');
    q.write_char('b');
    assert_eq!(q.chars_written(), 2);
    assert_eq!(q.read_char(), None);
    let mut b = Board::new(BoardRevision::Rpi3);
    early_console(&mut b).write_char('c');
    assert_eq!(early_console(&mut b).chars_written(), 1);
}

#[test]
fn lifecycle_runs_in_registration_order() {
    let mut b = Board::new(BoardRevision::Rpi3);
    assert_eq!(kernel_init(&mut b), Ok(()));
    assert_eq!(
        b.devices().lifecycle_events(),
        vec![
            LifecycleEvent::Init(DriverId::Uart),
            LifecycleEvent::PostInit(DriverId::Uart),
            LifecycleEvent::Init(DriverId::Gpio),
            LifecycleEvent::PostInit(DriverId::Gpio),
        ]
    );
    assert_eq!(b.devices().console(), ConsoleId::Uart);
    assert_eq!(b.devices().uart_driver().register(regs::UART_CR), 0x301);
    assert_eq!(b.devices().gpio_driver().register(regs::GPIO_GPFSEL1), 0x24000);
    assert_eq!(driver_manager(&b).enumerate(b.devices()), vec![(1, "BCM PL011 UART"), (2, "BCM GPIO")]);
}

#[test]
fn bring_up_runs_once() {
    let mut b = Board::new(BoardRevision::Rpi4);
    assert_eq!(init(&mut b), Ok(()));
    assert_eq!(driver_manager(&b).len(), 2);
    assert_eq!(init(&mut b), Err("Init already done"));
    assert_eq!(driver_manager(&b).len(), 2);
    assert_eq!(kernel_init(&mut b), Err("Init already done"));
}

fn booted() -> Board {
    let mut b = Board::new(BoardRevision::Rpi3);
    kernel_init(&mut b).unwrap();
    b
}

#[test]
fn transfer_scenario() {
    let mut b = booted();
    let mut l = Loader::new(board_default_load_addr());
    l.announce(b.devices_mut(), board_name(BoardRevision::Rpi3));
    let announced = b.devices().uart_driver().transmitted().len();
    // Stale input is discarded by the handshake.
    b.devices_mut().uart_driver_mut().receive_from_line(0x55);
    l.handshake(b.devices_mut());
    let sent = b.devices().uart_driver().transmitted();
    assert_eq!(&sent[announced..], &[3u8, 3, 3]);
    assert_eq!(l.receive(b.devices_mut()), None);
    assert_eq!(l.phase(), Phase::AwaitSize);
    for byte in [0x04u8, 0x00, 0x00, 0x00, 0xDE, 0xAD, 0xBE, 0xEF] {
        b.devices_mut().uart_driver_mut().receive_from_line(byte);
    }
    assert_eq!(l.receive(b.devices_mut()), Some(0x8_0000));
    assert_eq!(l.phase(), Phase::Execute);
    assert_eq!(l.image(), &vec![0xDE, 0xAD, 0xBE, 0xEF]);
    let sent = b.devices().uart_driver().transmitted();
    let reply = &sent[announced + 3..];
    assert_eq!(&reply[..2], b"OK");
    assert_eq!(&reply[2..], b"[ML] Loaded! Executing the payload now\n\n");
}

#[test]
fn transfer_in_pieces() {
    let mut b = booted();
    let mut l = Loader::new(0x8_0000);
    l.announce(b.devices_mut(), "x");
    l.handshake(b.devices_mut());
    for byte in [0x02u8, 0x00] {
        b.devices_mut().uart_driver_mut().receive_from_line(byte);
    }
    assert_eq!(l.receive(b.devices_mut()), None);
    for byte in [0x00u8, 0x00, 0x11] {
        b.devices_mut().uart_driver_mut().receive_from_line(byte);
    }
    assert_eq!(l.receive(b.devices_mut()), None);
    assert_eq!(l.phase(), Phase::ReceivePayload);
    for byte in [0x22u8, 0x33] {
        b.devices_mut().uart_driver_mut().receive_from_line(byte);
    }
    assert_eq!(l.receive(b.devices_mut()), Some(0x8_0000));
    assert_eq!(l.image(), &vec![0x11, 0x22]);
    // The byte after the payload stays unread.
    assert_eq!(b.devices_mut().read_char(), Some('\u{33}'));
}

#[test]
fn transfer_of_empty_payload() {
    let mut b = booted();
    let mut l = Loader::new(0x8_0000);
    l.announce(b.devices_mut(), "x");
    l.handshake(b.devices_mut());
    for byte in [0u8, 0, 0, 0] {
        b.devices_mut().uart_driver_mut().receive_from_line(byte);
    }
    assert_eq!(l.receive(b.devices_mut()), Some(0x8_0000));
    assert!(l.image().is_empty());
}

#[test]
fn announcement_centres_board_name() {
    let mut b = booted();
    let mut l = Loader::new(0x8_0000);
    l.announce(b.devices_mut(), board_name(BoardRevision::Rpi3));
    let text = String::from_utf8(b.devices().uart_driver().transmitted()).unwrap();
    assert!(text.starts_with("\n __  __ _"));
    assert!(text.contains("\n           Raspberry Pi 3            \n"));
    assert!(text.ends_with("\n\n[ML] Requesting binary\n"));
    assert_eq!(l.phase(), Phase::Handshake);
}

#[test]
fn transfer_length_is_little_endian() {
    let mut b = booted();
    let mut l = Loader::new(0x8_0000);
    l.announce(b.devices_mut(), "x");
    l.handshake(b.devices_mut());
    for byte in [0x01u8, 0x01, 0x00, 0x00] {
        b.devices_mut().uart_driver_mut().receive_from_line(byte);
    }
    for i in 0..256u32 {
        b.devices_mut().uart_driver_mut().receive_from_line(i as u8);
    }
    assert_eq!(l.receive(b.devices_mut()), None);
    assert_eq!(l.image().len(), 256);
    b.devices_mut().uart_driver_mut().receive_from_line(0xAA);
    assert_eq!(l.receive(b.devices_mut()), Some(0x8_0000));
    assert_eq!(l.image().len(), 257);
    assert_eq!(l.image()[255], 255);
    assert_eq!(l.image()[256], 0xAA);
}

#[test]
fn post_init_steps_follow_their_own_driver() {
    let mut d = Devices::new(BoardRevision::Rpi4);
    let mut m = miniload::driver::DriverManager::new();
    m.register_driver(miniload::driver::DeviceDriverDescriptor::new(DriverId::Gpio, None)).unwrap();
    m.register_driver(miniload::driver::DeviceDriverDescriptor::new(
        DriverId::Uart,
        Some(miniload::driver::DeviceDriverPostInitCallback::RegisterUartConsole),
    ))
    .unwrap();
    assert_eq!(m.init_drivers(&mut d), Ok(()));
    assert_eq!(
        d.lifecycle_events(),
        vec![
            LifecycleEvent::Init(DriverId::Gpio),
            LifecycleEvent::Init(DriverId::Uart),
            LifecycleEvent::PostInit(DriverId::Uart),
        ]
    );
    assert_eq!(d.console(), ConsoleId::Uart);
    // The GPIO had no post-init step: its pins were never mapped.
    assert_eq!(d.gpio_driver().register(regs::GPIO_GPFSEL1), 0);
}

#[test]
fn pin_mapping_runs_once_per_mapping_step() {
    let mut d = Devices::new(BoardRevision::Rpi3);
    let mut m = miniload::driver::DriverManager::new();
    m.register_driver(miniload::driver::DeviceDriverDescriptor::new(
        DriverId::Gpio,
        Some(miniload::driver::DeviceDriverPostInitCallback::MapUartPins),
    ))
    .unwrap();
    assert_eq!(m.init_drivers(&mut d), Ok(()));
    assert_eq!(d.gpio_driver().register(regs::GPIO_GPFSEL1), 0x24000);
    assert_eq!(d.console(), ConsoleId::Null);
    assert_eq!(
        d.lifecycle_events(),
        vec![LifecycleEvent::Init(DriverId::Gpio), LifecycleEvent::PostInit(DriverId::Gpio)]
    );
}
