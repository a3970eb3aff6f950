//! Board support: memory map, early console, the board's device set and its
//! one-shot bring-up.
use vstd::prelude::*;
use crate::console::{
    Statistics, Read, Write, All, NullConsole, ConsoleId, ConsoleRegistry, console as
    active_console, register_console,
};
use crate::driver::{
    DeviceDriver, DriverId, DeviceDriverDescriptor, DeviceDriverPostInitCallback, DriverManager,
    LifecycleEvent, lifecycle, steps_of, driver_name, NUM_DRIVERS,
};
use crate::gpio::{GPIO, BoardRevision, uart_pin_stores};
use crate::mmio::MMIODerefWrapper;
use crate::sync::NullLock;
use crate::uart::PL1011Uart;

verus! {

/// Where the loaded image is placed and entered.
pub const BOARD_DEFAULT_LOAD_ADDRESS: usize = 0x8_0000;

pub const GPIO_OFFSET: usize = 0x0020_0000;

pub const UART_OFFSET: usize = 0x0020_1000;

/// Peripheral base of the BCM2837.
pub const RPI3_MMIO_START: usize = 0x3F00_0000;

/// Peripheral base of the BCM2711.
pub const RPI4_MMIO_START: usize = 0xFE00_0000;

/// The data port that the early console writes to.
pub const QEMU_OUTPUT_PORT: usize = 0x3F20_1000;

pub open spec fn mmio_start(rev: BoardRevision) -> usize {
    match rev {
        BoardRevision::Rpi3 => RPI3_MMIO_START,
        BoardRevision::Rpi4 => RPI4_MMIO_START,
    }
}

/// Peripheral base of the board.
pub fn mmio_start_of(rev: BoardRevision) -> (r: usize)
    ensures
        r == mmio_start(rev),
{
    match rev {
        BoardRevision::Rpi3 => RPI3_MMIO_START,
        BoardRevision::Rpi4 => RPI4_MMIO_START,
    }
}

pub open spec fn board_name_of(rev: BoardRevision) -> Seq<char> {
    match rev {
        BoardRevision::Rpi3 => "Raspberry Pi 3"@,
        BoardRevision::Rpi4 => "Raspberry Pi 4"@,
    }
}

/// The board's name.
pub fn board_name(rev: BoardRevision) -> (r: &'static str)
    ensures
        r@ == board_name_of(rev),
{
    proof {
        reveal_strlit("Raspberry Pi 3");
        reveal_strlit("Raspberry Pi 4");
    }
    match rev {
        BoardRevision::Rpi3 => "Raspberry Pi 3",
        BoardRevision::Rpi4 => "Raspberry Pi 4",
    }
}

/// The address the loaded image is placed at and entered.
pub fn board_default_load_addr() -> (r: usize)
    ensures
        r == BOARD_DEFAULT_LOAD_ADDRESS,
{
    BOARD_DEFAULT_LOAD_ADDRESS
}

/// The early console's port and counter.
pub struct QEMUOutputInner {
    port: MMIODerefWrapper,
    /// Every byte the port has taken, in order.
    out: Vec<u8>,
    chars_written: usize,
}

/// The stores into the early console's port that put out `out`: one
/// 32-bit store of each byte, at the port's offset 0.
pub open spec fn port_stores(out: Seq<u8>) -> Seq<(usize, u32)> {
    out.map_values(|b: u8| (0usize, b as u32))
}

impl QEMUOutputInner {
    /// The data port the bytes are stored into.
    pub closed spec fn data_port(&self) -> MMIODerefWrapper {
        self.port
    }

    /// The bytes the port has taken, in order.
    pub closed spec fn taken(&self) -> Seq<u8> {
        self.out@
    }

    pub closed spec fn wf(&self) -> bool {
        &&& self.port.size() == 4
        &&& self.chars_written == self.out@.len()
        &&& self.port.base() == QEMU_OUTPUT_PORT
        &&& self.port.stores() == port_stores(self.out@)
    }

    pub fn new() -> (r: Self)
        ensures
            r.wf(),
            r.taken() == Seq::<u8>::empty(),
    {
        let r = QEMUOutputInner {
            port: MMIODerefWrapper::new(QEMU_OUTPUT_PORT, 4),
            out: Vec::new(),
            chars_written: 0,
        };
        proof {
            assert(port_stores(r.out@) =~= Seq::<(usize, u32)>::empty());
        }
        r
    }

    /// Stores the character's low byte into the port and counts it.
    fn write_char(&mut self, c: char)
        requires
            old(self).wf(),
            old(self).taken().len() < usize::MAX,
        ensures
            final(self).wf(),
            final(self).taken() == old(self).taken().push(c as u8),
    {
        let b = c as u32 as u8;
        self.port.write(0, b as u32);
        self.out.push(b);
        self.chars_written = self.chars_written + 1;
        proof {
            assert(port_stores(self.out@) =~= port_stores(old(self).out@).push((0usize, b as u32)));
        }
    }
}

/// The early console: output only, straight to a fixed data port.
pub struct QEMUOutput {
    inner: NullLock<QEMUOutputInner>,
}

impl QEMUOutput {
    pub closed spec fn state(&self) -> QEMUOutputInner {
        self.inner.value()
    }

    pub fn new() -> (r: Self)
        ensures
            r.console_wf(),
            r.output() == Seq::<u8>::empty(),
    {
        QEMUOutput { inner: NullLock::new(QEMUOutputInner::new()) }
    }
}

impl Statistics for QEMUOutput {
    open spec fn pending(&self) -> Seq<u8> {
        Seq::empty()
    }

    open spec fn output(&self) -> Seq<u8> {
        self.state().taken()
    }

    open spec fn inert(&self) -> bool {
        false
    }

    open spec fn echoes(&self) -> bool {
        false
    }

    open spec fn target(&self) -> nat {
        0
    }

    /// Its port is the fixed data port, and it has taken exactly one store
    /// of each byte put out.
    open spec fn console_wf(&self) -> bool {
        &&& self.state().wf()
        &&& self.state().data_port().base() == QEMU_OUTPUT_PORT
        &&& self.state().data_port().stores() == port_stores(self.output())
    }

    open spec fn written_count(&self) -> nat {
        self.state().taken().len()
    }

    open spec fn read_count(&self) -> nat {
        0
    }

    fn chars_written(&self) -> (r: usize) {
        self.inner.read().chars_written
    }

    fn chars_read(&self) -> (r: usize) {
        0
    }
}

impl Read for QEMUOutput {
    fn read_char(&mut self) -> (r: Option<char>) {
        None
    }

    fn clear_rx(&mut self) {
    }
}

impl Write for QEMUOutput {
    fn write_char(&mut self, c: char) {
        let inner = self.inner.lock();
        inner.write_char(c);
    }

    fn flush(&mut self) {
    }
}

impl All for QEMUOutput {

}

/// The board's peripherals and consoles, the active-console cell, and the
/// record of the driver lifecycle.
pub struct Devices {
    uart: PL1011Uart,
    gpio: GPIO,
    qemu: QEMUOutput,
    null: NullConsole,
    consoles: ConsoleRegistry,
    log: Vec<LifecycleEvent>,
}

impl Devices {
    pub closed spec fn uart(&self) -> PL1011Uart {
        self.uart
    }

    pub closed spec fn gpio(&self) -> GPIO {
        self.gpio
    }

    pub closed spec fn qemu(&self) -> QEMUOutput {
        self.qemu
    }

    pub closed spec fn active(&self) -> ConsoleId {
        self.consoles.active()
    }

    /// The driver lifecycle steps taken so far.
    pub closed spec fn events(&self) -> Seq<LifecycleEvent> {
        self.log@
    }

    pub open spec fn wf(&self) -> bool {
        &&& self.uart().wf()
        &&& self.gpio().wf()
        &&& self.qemu().console_wf()
    }

    /// The devices of board `rev` at its fixed addresses, with the inert
    /// console active.
    pub fn new(rev: BoardRevision) -> (r: Self)
        ensures
            r.wf(),
            r.active() == ConsoleId::Null,
            r.events() == Seq::<LifecycleEvent>::empty(),
            r.uart().state().regs().base() == mmio_start(rev) + UART_OFFSET,
            r.gpio().state().regs().base() == mmio_start(rev) + GPIO_OFFSET,
            r.gpio().state().rev() == rev,
            r.gpio().state().regs().stores() == Seq::<(usize, u32)>::empty(),
            r.uart().state().sent() == Seq::<u8>::empty(),
            r.uart().state().arrived() == Seq::<u8>::empty(),
            !r.uart().state().looped(),
            r.uart().state().taken() == 0,
            r.uart().state().in_flight() == 0,
            r.uart().state().written_count() == 0,
            r.uart().state().read_count() == 0,
            r.qemu().output() == Seq::<u8>::empty(),
    {
        let start = mmio_start_of(rev);
        Devices {
            uart: PL1011Uart::new(start + UART_OFFSET),
            gpio: GPIO::new(start + GPIO_OFFSET, rev),
            qemu: QEMUOutput::new(),
            null: NullConsole {},
            consoles: ConsoleRegistry::new(),
            log: Vec::new(),
        }
    }

    /// The UART driver.
    pub fn uart_driver(&self) -> (r: &PL1011Uart)
        ensures
            *r == self.uart(),
    {
        &self.uart
    }

    /// The UART driver, for the line side to deliver bytes or set loopback.
    pub fn uart_driver_mut(&mut self) -> (r: &mut PL1011Uart)
        ensures
            *r == old(self).uart(),
            final(self).uart() == *final(r),
            final(self).gpio() == old(self).gpio(),
            final(self).qemu() == old(self).qemu(),
            final(self).active() == old(self).active(),
            final(self).events() == old(self).events(),
    {
        &mut self.uart
    }

    /// The GPIO driver.
    pub fn gpio_driver(&self) -> (r: &GPIO)
        ensures
            *r == self.gpio(),
    {
        &self.gpio
    }

    /// The active console.
    pub fn console(&self) -> (r: ConsoleId)
        ensures
            r == self.active(),
    {
        active_console(&self.consoles)
    }

    /// Makes `id` the active console.
    pub fn register_console(&mut self, id: ConsoleId)
        ensures
            final(self).active() == id,
            final(self).uart() == old(self).uart(),
            final(self).gpio() == old(self).gpio(),
            final(self).qemu() == old(self).qemu(),
            final(self).events() == old(self).events(),
    {
        register_console(&mut self.consoles, id);
    }

    /// The driver lifecycle steps taken so far.
    pub fn lifecycle_events(&self) -> (r: Vec<LifecycleEvent>)
        ensures
            r@ == self.events(),
    {
        let mut r: Vec<LifecycleEvent> = Vec::new();
        let mut i: usize = 0;
        while i < self.log.len()
            invariant
                i <= self.log@.len(),
                r@ == self.log@.take(i as int),
            decreases self.log@.len() - i,
        {
            r.push(self.log[i]);
            proof {
                assert(self.log@.take(i + 1) =~= self.log@.take(i as int).push(self.log@[i as int]));
            }
            i = i + 1;
        }
        proof {
            assert(self.log@.take(self.log@.len() as int) =~= self.log@);
        }
        r
    }

    /// The name driver `id` reports.
    pub fn driver_compatible(&self, id: DriverId) -> (r: &'static str)
        ensures
            r@ == driver_name(id),
    {
        match id {
            DriverId::Uart => self.uart.compatible(),
            DriverId::Gpio => self.gpio.compatible(),
        }
    }

    /// Runs the `init` of driver `id`.
    fn init_driver(&mut self, id: DriverId) -> (r: Result<(), &'static str>)
        requires
            old(self).wf(),
        ensures
            final(self).wf(),
            r is Ok,
            final(self).events() == old(self).events(),
            final(self).active() == old(self).active(),
            id == DriverId::Uart ==> final(self).uart().ready() && old(self).uart().init_effect(
                &final(self).uart(),
            ) && final(self).gpio() == old(self).gpio(),
            id == DriverId::Gpio ==> final(self).uart() == old(self).uart() && final(self).gpio().state() == old(self).gpio().state(),
    {
        match id {
            DriverId::Uart => self.uart.init(),
            DriverId::Gpio => self.gpio.init(),
        }
    }

    /// Runs post-init step `cb`.
    fn run_post_init(&mut self, cb: DeviceDriverPostInitCallback) -> (r: Result<(), &'static str>)
        requires
            old(self).wf(),
        ensures
            final(self).wf(),
            r is Ok,
            final(self).events() == old(self).events(),
            final(self).uart() == old(self).uart(),
            cb == DeviceDriverPostInitCallback::RegisterUartConsole ==> final(self).active()
                == ConsoleId::Uart,
            cb == DeviceDriverPostInitCallback::MapUartPins ==> final(self).active() == old(self).active() && final(self).gpio().state().rev() == old(self).gpio().state().rev()
                && final(self).gpio().state().regs().stores() == old(self).gpio().state().regs().stores()
                + uart_pin_stores(old(self).gpio().state().rev()),
            cb == DeviceDriverPostInitCallback::RegisterUartConsole ==> final(self).gpio() == old(self).gpio(),
    {
        match cb {
            DeviceDriverPostInitCallback::RegisterUartConsole => post_init_uart(self),
            DeviceDriverPostInitCallback::MapUartPins => post_init_gpio(self),
        }
    }
}

/// The UART's post-init step: it becomes the active console.
pub fn post_init_uart(devices: &mut Devices) -> (r: Result<(), &'static str>)
    ensures
        r is Ok,
        final(devices).active() == ConsoleId::Uart,
        final(devices).uart() == old(devices).uart(),
        final(devices).gpio() == old(devices).gpio(),
        final(devices).qemu() == old(devices).qemu(),
        final(devices).events() == old(devices).events(),
{
    devices.register_console(ConsoleId::Uart);
    Ok(())
}

/// The GPIO's post-init step: the UART is routed to its pins.
pub fn post_init_gpio(devices: &mut Devices) -> (r: Result<(), &'static str>)
    requires
        old(devices).wf(),
    ensures
        r is Ok,
        final(devices).wf(),
        final(devices).gpio().state().regs().stores() == old(devices).gpio().state().regs().stores()
            + uart_pin_stores(old(devices).gpio().state().rev()),
        final(devices).gpio().state().rev() == old(devices).gpio().state().rev(),
        final(devices).active() == old(devices).active(),
        final(devices).uart() == old(devices).uart(),
        final(devices).qemu() == old(devices).qemu(),
        final(devices).events() == old(devices).events(),
{
    devices.gpio.map_p1011_uart();
    Ok(())
}

/// Whether a descriptor among `ds` registers the UART as console.
pub open spec fn has_console_step(ds: Seq<DeviceDriverDescriptor>) -> bool {
    exists|j: int|
        0 <= j < ds.len() && #[trigger] ds[j].post_init_callback == Some(
            DeviceDriverPostInitCallback::RegisterUartConsole,
        )
}

/// The GPIO stores that the post-init steps of `ds` make on board `rev`:
/// the UART pin mapping once for each mapping step, in registration order.
pub open spec fn pin_steps(ds: Seq<DeviceDriverDescriptor>, rev: BoardRevision) -> Seq<(usize, u32)>
    decreases ds.len(),
{
    if ds.len() == 0 {
        Seq::empty()
    } else if ds.last().post_init_callback == Some(DeviceDriverPostInitCallback::MapUartPins) {
        pin_steps(ds.drop_last(), rev) + uart_pin_stores(rev)
    } else {
        pin_steps(ds.drop_last(), rev)
    }
}

/// The UART's line, FIFOs, counters and loopback are the same in `a` and `b`.
pub open spec fn uart_kept(a: PL1011Uart, b: PL1011Uart) -> bool {
    &&& a.state().sent() == b.state().sent()
    &&& a.state().arrived() == b.state().arrived()
    &&& a.state().taken() == b.state().taken()
    &&& a.state().looped() == b.state().looped()
    &&& a.state().written_count() == b.state().written_count()
    &&& a.state().read_count() == b.state().read_count()
}

/// Whether a descriptor among `ds` is the UART's.
pub open spec fn has_uart(ds: Seq<DeviceDriverDescriptor>) -> bool {
    exists|j: int| 0 <= j < ds.len() && #[trigger] ds[j].device_driver == DriverId::Uart
}

impl DriverManager {
    /// The names of the registered drivers with their 1-based position, in
    /// registration order.
    pub fn enumerate(&self, devices: &Devices) -> (r: Vec<(usize, &'static str)>)
        ensures
            r@.len() == self.registered().len(),
            forall|i: int|
                0 <= i < r@.len() ==> (#[trigger] r@[i]).0 == i + 1 && r@[i].1@ == driver_name(
                    self.registered()[i].device_driver,
                ),
    {
        let ds = self.for_each_descriptor();
        let mut r: Vec<(usize, &'static str)> = Vec::new();
        let mut i: usize = 0;
        while i < ds.len()
            invariant
                i <= ds@.len(),
                ds@ == self.registered(),
                r@.len() == i,
                forall|j: int|
                    0 <= j < i ==> (#[trigger] r@[j]).0 == j + 1 && r@[j].1@ == driver_name(
                        ds@[j].device_driver,
                    ),
            decreases ds@.len() - i,
        {
            let name = devices.driver_compatible(ds[i].device_driver);
            r.push((i + 1, name));
            i = i + 1;
        }
        r
    }

    /// Runs every registered driver's `init` in registration order, each
    /// followed at once by its post-init step if it has one. The first
    /// failure stops the run and is returned.
    pub fn init_drivers(&self, devices: &mut Devices) -> (r: Result<(), &'static str>)
        requires
            self.wf(),
            old(devices).wf(),
        ensures
            final(devices).wf(),
            r is Ok,
            final(devices).events() == old(devices).events() + lifecycle(self.registered()),
            final(devices).active() == (if has_console_step(self.registered()) {
                ConsoleId::Uart
            } else {
                old(devices).active()
            }),
            has_uart(self.registered()) ==> final(devices).uart().ready(),
            uart_kept(final(devices).uart(), old(devices).uart()),
            final(devices).gpio().state().rev() == old(devices).gpio().state().rev(),
            final(devices).gpio().state().regs().stores() == old(devices).gpio().state().regs().stores()
                + pin_steps(self.registered(), old(devices).gpio().state().rev()),
    {
        let n = self.len();
        let mut i: usize = 0;
        while i < n
            invariant
                self.wf(),
                n == self.registered().len(),
                i <= n,
                devices.wf(),
                devices.events() == old(devices).events() + lifecycle(self.registered().take(i as int)),
                devices.active() == (if has_console_step(self.registered().take(i as int)) {
                    ConsoleId::Uart
                } else {
                    old(devices).active()
                }),
                has_uart(self.registered().take(i as int)) ==> devices.uart().ready(),
                uart_kept(devices.uart(), old(devices).uart()),
                devices.gpio().state().rev() == old(devices).gpio().state().rev(),
                devices.gpio().state().regs().stores() == old(devices).gpio().state().regs().stores()
                    + pin_steps(self.registered().take(i as int), old(devices).gpio().state().rev()),
            decreases n - i,
        {
            let d = self.descriptor(i);
            let id = d.device_driver;
            match devices.init_driver(id) {
                Ok(()) => {},
                Err(e) => {
                    return Err(e);
                },
            }
            devices.log.push(LifecycleEvent::Init(id));
            match d.post_init_callback {
                Some(cb) => {
                    match devices.run_post_init(cb) {
                        Ok(()) => {},
                        Err(e) => {
                            return Err(e);
                        },
                    }
                    devices.log.push(LifecycleEvent::PostInit(id));
                },
                None => {},
            }
            proof {
                let ds = self.registered();
                let t = ds.take(i + 1);
                assert(t[i as int] == ds[i as int]);
                if has_console_step(ds.take(i as int)) {
                    let j = choose|j: int|
                        0 <= j < ds.take(i as int).len() && #[trigger] ds.take(i as int)[j].post_init_callback
                            == Some(DeviceDriverPostInitCallback::RegisterUartConsole);
                    assert(t[j] == ds.take(i as int)[j]);
                }
                if has_uart(ds.take(i as int)) {
                    let j = choose|j: int|
                        0 <= j < ds.take(i as int).len() && #[trigger] ds.take(i as int)[j].device_driver
                            == DriverId::Uart;
                    assert(t[j] == ds.take(i as int)[j]);
                }
                if has_console_step(t) {
                    let j = choose|j: int|
                        0 <= j < t.len() && #[trigger] t[j].post_init_callback == Some(
                            DeviceDriverPostInitCallback::RegisterUartConsole,
                        );
                    if j < i {
                        assert(ds.take(i as int)[j] == t[j]);
                    }
                }
                if has_uart(t) {
                    let j = choose|j: int| 0 <= j < t.len() && #[trigger] t[j].device_driver == DriverId::Uart;
                    if j < i {
                        assert(ds.take(i as int)[j] == t[j]);
                    }
                }
                assert(ds.take(i + 1).drop_last() =~= ds.take(i as int));
                assert(t.last() == ds[i as int]);
                assert(devices.gpio().state().regs().stores() =~= old(devices).gpio().state().regs().stores()
                    + pin_steps(t, old(devices).gpio().state().rev()));
                assert(ds.take(i + 1).last() == ds[i as int]);
                assert(devices.events() =~= old(devices).events() + lifecycle(ds.take(i + 1)));
            }
            i = i + 1;
        }
        proof {
            assert(self.registered().take(n as int) =~= self.registered());
        }
        Ok(())
    }
}

/// The board: its devices, the driver manager, and the one-shot flag of
/// bring-up.
pub struct Board {
    devices: Devices,
    manager: DriverManager,
    init_done: bool,
}

impl Board {
    pub closed spec fn devs(&self) -> Devices {
        self.devices
    }

    pub closed spec fn drivers(&self) -> DriverManager {
        self.manager
    }

    pub closed spec fn done(&self) -> bool {
        self.init_done
    }

    pub open spec fn wf(&self) -> bool {
        &&& self.devs().wf()
        &&& self.drivers().wf()
    }

    /// Board `rev`, nothing registered, bring-up not yet done.
    pub fn new(rev: BoardRevision) -> (r: Self)
        ensures
            r.wf(),
            !r.done(),
            r.drivers().registered() == Seq::<DeviceDriverDescriptor>::empty(),
            r.devs().active() == ConsoleId::Null,
            r.devs().events() == Seq::<LifecycleEvent>::empty(),
            r.devs().gpio().state().rev() == rev,
            r.devs().gpio().state().regs().stores() == Seq::<(usize, u32)>::empty(),
            r.devs().uart().state().sent() == Seq::<u8>::empty(),
            r.devs().uart().state().arrived() == Seq::<u8>::empty(),
            !r.devs().uart().state().looped(),
            r.devs().uart().state().taken() == 0,
            r.devs().uart().state().in_flight() == 0,
            r.devs().uart().state().written_count() == 0,
            r.devs().uart().state().read_count() == 0,
            r.devs().uart().state().regs().base() == mmio_start(rev) + UART_OFFSET,
            r.devs().gpio().state().regs().base() == mmio_start(rev) + GPIO_OFFSET,
    {
        Board { devices: Devices::new(rev), manager: DriverManager::new(), init_done: false }
    }

    pub fn devices(&self) -> (r: &Devices)
        ensures
            *r == self.devs(),
    {
        &self.devices
    }

    pub fn devices_mut(&mut self) -> (r: &mut Devices)
        ensures
            *r == old(self).devs(),
            final(self).devs() == *final(r),
            final(self).drivers() == old(self).drivers(),
            final(self).done() == old(self).done(),
    {
        &mut self.devices
    }

    /// Runs the lifecycle of every registered driver.
    pub fn init_drivers(&mut self) -> (r: Result<(), &'static str>)
        requires
            old(self).wf(),
        ensures
            final(self).wf(),
            r is Ok,
            final(self).devs().events() == old(self).devs().events() + lifecycle(
                old(self).drivers().registered(),
            ),
            final(self).devs().active() == (if has_console_step(old(self).drivers().registered()) {
                ConsoleId::Uart
            } else {
                old(self).devs().active()
            }),
            has_uart(old(self).drivers().registered()) ==> final(self).devs().uart().ready(),
            uart_kept(final(self).devs().uart(), old(self).devs().uart()),
            final(self).devs().gpio().state().rev() == old(self).devs().gpio().state().rev(),
            final(self).devs().gpio().state().regs().stores() == old(self).devs().gpio().state().regs().stores()
                + pin_steps(old(self).drivers().registered(), old(self).devs().gpio().state().rev()),
            final(self).drivers() == old(self).drivers(),
            final(self).done() == old(self).done(),
    {
        self.manager.init_drivers(&mut self.devices)
    }
}

/// The board's driver manager.
pub fn driver_manager(board: &Board) -> (r: &DriverManager)
    ensures
        *r == board.drivers(),
{
    &board.manager
}

/// The board's early console.
pub fn console(board: &mut Board) -> (r: &mut QEMUOutput)
    ensures
        *r == old(board).devs().qemu(),
        final(board).devs().qemu() == *final(r),
        final(board).devs().uart() == old(board).devs().uart(),
        final(board).devs().gpio() == old(board).devs().gpio(),
        final(board).devs().active() == old(board).devs().active(),
        final(board).devs().events() == old(board).devs().events(),
        final(board).drivers() == old(board).drivers(),
        final(board).done() == old(board).done(),
{
    &mut board.devices.qemu
}

/// The UART descriptor: its post-init step makes it the active console.
pub open spec fn uart_descriptor() -> DeviceDriverDescriptor {
    DeviceDriverDescriptor {
        device_driver: DriverId::Uart,
        post_init_callback: Some(DeviceDriverPostInitCallback::RegisterUartConsole),
    }
}

/// The GPIO descriptor: its post-init step routes the UART to its pins.
pub open spec fn gpio_descriptor() -> DeviceDriverDescriptor {
    DeviceDriverDescriptor {
        device_driver: DriverId::Gpio,
        post_init_callback: Some(DeviceDriverPostInitCallback::MapUartPins),
    }
}

/// Registers the UART driver.
pub fn driver_uart(board: &mut Board) -> (r: Result<(), &'static str>)
    requires
        old(board).wf(),
    ensures
        final(board).wf(),
        final(board).devs() == old(board).devs(),
        final(board).done() == old(board).done(),
        old(board).drivers().registered().len() < NUM_DRIVERS ==> r is Ok
            && final(board).drivers().registered() == old(board).drivers().registered().push(
            uart_descriptor(),
        ),
        old(board).drivers().registered().len() >= NUM_DRIVERS ==> r is Err
            && final(board).drivers().registered() == old(board).drivers().registered(),
{
    let d = DeviceDriverDescriptor::new(
        DriverId::Uart,
        Some(DeviceDriverPostInitCallback::RegisterUartConsole),
    );
    board.manager.register_driver(d)
}

/// Registers the GPIO driver.
pub fn driver_gpio(board: &mut Board) -> (r: Result<(), &'static str>)
    requires
        old(board).wf(),
    ensures
        final(board).wf(),
        final(board).devs() == old(board).devs(),
        final(board).done() == old(board).done(),
        old(board).drivers().registered().len() < NUM_DRIVERS ==> r is Ok
            && final(board).drivers().registered() == old(board).drivers().registered().push(
            gpio_descriptor(),
        ),
        old(board).drivers().registered().len() >= NUM_DRIVERS ==> r is Err
            && final(board).drivers().registered() == old(board).drivers().registered(),
{
    let d = DeviceDriverDescriptor::new(
        DriverId::Gpio,
        Some(DeviceDriverPostInitCallback::MapUartPins),
    );
    board.manager.register_driver(d)
}

/// Brings the board up once: registers the UART, then the GPIO. A second
/// call fails with "Init already done" and changes nothing.
pub fn init(board: &mut Board) -> (r: Result<(), &'static str>)
    requires
        old(board).wf(),
    ensures
        final(board).wf(),
        final(board).devs() == old(board).devs(),
        old(board).done() ==> r == Err::<(), &'static str>("Init already done") && *final(board)
            == *old(board),
        !old(board).done() && old(board).drivers().registered().len() + 2 <= NUM_DRIVERS ==> r is Ok
            && final(board).done() && final(board).drivers().registered() == old(board).drivers().registered().push(uart_descriptor()).push(gpio_descriptor()),
        !old(board).done() && old(board).drivers().registered().len() + 2 > NUM_DRIVERS ==> r is Err
            && !final(board).done() && final(board).drivers().registered() == (if old(board).drivers().registered().len() < NUM_DRIVERS {
            old(board).drivers().registered().push(uart_descriptor())
        } else {
            old(board).drivers().registered()
        }),
{
    if board.init_done {
        return Err("Init already done");
    }
    driver_uart(board)?;
    driver_gpio(board)?;
    board.init_done = true;
    Ok(())
}

/// The active console, whichever it is: each operation goes to the console
/// that the cell holds at the time of the call.
impl Statistics for Devices {
    /// The active console.
    open spec fn target(&self) -> nat {
        match self.active() {
            ConsoleId::Null => 0,
            ConsoleId::Qemu => 1,
            ConsoleId::Uart => 2,
        }
    }

    open spec fn pending(&self) -> Seq<u8> {
        match self.active() {
            ConsoleId::Null => Seq::empty(),
            ConsoleId::Qemu => self.qemu().pending(),
            ConsoleId::Uart => self.uart().pending(),
        }
    }

    open spec fn output(&self) -> Seq<u8> {
        match self.active() {
            ConsoleId::Null => Seq::empty(),
            ConsoleId::Qemu => self.qemu().output(),
            ConsoleId::Uart => self.uart().output(),
        }
    }

    open spec fn inert(&self) -> bool {
        match self.active() {
            ConsoleId::Null => true,
            ConsoleId::Qemu => self.qemu().inert(),
            ConsoleId::Uart => self.uart().inert(),
        }
    }

    open spec fn echoes(&self) -> bool {
        match self.active() {
            ConsoleId::Null => false,
            ConsoleId::Qemu => self.qemu().echoes(),
            ConsoleId::Uart => self.uart().echoes(),
        }
    }

    open spec fn console_wf(&self) -> bool {
        self.wf()
    }

    open spec fn written_count(&self) -> nat {
        match self.active() {
            ConsoleId::Null => 0,
            ConsoleId::Qemu => self.qemu().written_count(),
            ConsoleId::Uart => self.uart().written_count(),
        }
    }

    open spec fn read_count(&self) -> nat {
        match self.active() {
            ConsoleId::Null => 0,
            ConsoleId::Qemu => self.qemu().read_count(),
            ConsoleId::Uart => self.uart().read_count(),
        }
    }

    fn chars_written(&self) -> (r: usize) {
        match self.console() {
            ConsoleId::Null => self.null.chars_written(),
            ConsoleId::Qemu => self.qemu.chars_written(),
            ConsoleId::Uart => self.uart.chars_written(),
        }
    }

    fn chars_read(&self) -> (r: usize) {
        match self.console() {
            ConsoleId::Null => self.null.chars_read(),
            ConsoleId::Qemu => self.qemu.chars_read(),
            ConsoleId::Uart => self.uart.chars_read(),
        }
    }
}

impl Read for Devices {
    fn read_char(&mut self) -> (r: Option<char>) {
        match self.console() {
            ConsoleId::Null => self.null.read_char(),
            ConsoleId::Qemu => self.qemu.read_char(),
            ConsoleId::Uart => self.uart.read_char(),
        }
    }

    fn clear_rx(&mut self) {
        match self.console() {
            ConsoleId::Null => self.null.clear_rx(),
            ConsoleId::Qemu => self.qemu.clear_rx(),
            ConsoleId::Uart => self.uart.clear_rx(),
        }
    }
}

impl Write for Devices {
    fn write_char(&mut self, c: char) {
        match self.console() {
            ConsoleId::Null => self.null.write_char(c),
            ConsoleId::Qemu => self.qemu.write_char(c),
            ConsoleId::Uart => self.uart.write_char(c),
        }
    }

    fn flush(&mut self) {
        match self.console() {
            ConsoleId::Null => self.null.flush(),
            ConsoleId::Qemu => self.qemu.flush(),
            ConsoleId::Uart => self.uart.flush(),
        }
    }
}

impl All for Devices {

}

/// Before any console is registered, the active console is inert: writes
/// and flushes leave its output and counters as they are, both counters
/// read zero, and a read finds no character.
pub proof fn lemma_inert_before_registration(d: &Devices)
    requires
        d.active() == ConsoleId::Null,
    ensures
        d.inert(),
        d.output() == Seq::<u8>::empty(),
        d.written_count() == 0,
        d.read_count() == 0,
        d.pending() == Seq::<u8>::empty(),
{
}

/// Brings the board up and runs every driver's lifecycle: on a fresh board
/// the UART is initialised and becomes the console, then the GPIO is
/// initialised and routes the UART to its pins.
pub fn kernel_init(board: &mut Board) -> (r: Result<(), &'static str>)
    requires
        old(board).wf(),
    ensures
        final(board).wf(),
        old(board).done() ==> r == Err::<(), &'static str>("Init already done") && *final(board)
            == *old(board),
        r is Err ==> final(board).devs() == old(board).devs(),
        !old(board).done() && old(board).drivers().registered().len() == 0 ==> r is Ok
            && final(board).done() && final(board).drivers().registered() == seq![
            uart_descriptor(),
            gpio_descriptor(),
        ] && final(board).devs().events() == old(board).devs().events() + seq![
            LifecycleEvent::Init(DriverId::Uart),
            LifecycleEvent::PostInit(DriverId::Uart),
            LifecycleEvent::Init(DriverId::Gpio),
            LifecycleEvent::PostInit(DriverId::Gpio),
        ] && final(board).devs().active() == ConsoleId::Uart && final(board).devs().uart().ready()
            && uart_kept(final(board).devs().uart(), old(board).devs().uart()) && final(board).devs().gpio().state().regs().stores() == old(board).devs().gpio().state().regs().stores()
            + uart_pin_stores(old(board).devs().gpio().state().rev()),
{
    init(board)?;
    let r = board.init_drivers();
    proof {
        let ds = board.drivers().registered();
        if ds.len() == 2 && ds[0] == uart_descriptor() && ds[1] == gpio_descriptor() {
            let d1 = ds.drop_last();
            assert(d1.drop_last() =~= Seq::<DeviceDriverDescriptor>::empty());
            assert(d1.last() == ds[0]);
            assert(lifecycle(d1.drop_last()) =~= Seq::<LifecycleEvent>::empty());
            assert(lifecycle(d1) =~= steps_of(ds[0]));
            assert(lifecycle(ds) == lifecycle(d1) + steps_of(ds[1]));
            assert(ds[0].post_init_callback == Some(DeviceDriverPostInitCallback::RegisterUartConsole));
            assert(has_console_step(ds));
            assert(ds[0].device_driver == DriverId::Uart);
            assert(has_uart(ds));
            let rev = board.devs().gpio().state().rev();
            assert(pin_steps(d1.drop_last(), rev) =~= Seq::<(usize, u32)>::empty());
            assert(pin_steps(d1, rev) =~= Seq::<(usize, u32)>::empty());
            assert(pin_steps(ds, rev) =~= uart_pin_stores(rev));
            assert(lifecycle(ds) =~= seq![
                LifecycleEvent::Init(DriverId::Uart),
                LifecycleEvent::PostInit(DriverId::Uart),
                LifecycleEvent::Init(DriverId::Gpio),
                LifecycleEvent::PostInit(DriverId::Gpio),
            ]);
        }
    }
    r
}

} // verus!
