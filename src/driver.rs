//! The driver capability and the driver manager's fixed-capacity registry.
use vstd::prelude::*;
use crate::sync::NullLock;

verus! {

/// A peripheral driver: a stable name, and an initialisation that may fail
/// with a short reason.
pub trait DeviceDriver {
    /// The driver's name.
    spec fn name(&self) -> Seq<char>;

    /// The driver's internal invariant.
    spec fn well_formed(&self) -> bool;

    /// Whether the device has been brought up.
    spec fn ready(&self) -> bool;

    fn compatible(&self) -> (r: &'static str)
        ensures
            r@ == self.name(),
    ;

    /// What a successful `init` does to the driver: `after` is the driver
    /// once `init` has returned `Ok` on `before`.
    spec fn init_effect(&self, after: &Self) -> bool;

    /// Whether `init` can report a failure.
    spec fn init_may_fail(&self) -> bool;

    fn init(&mut self) -> (r: Result<(), &'static str>)
        requires
            old(self).well_formed(),
        ensures
            final(self).well_formed(),
            !old(self).init_may_fail() ==> r is Ok,
            final(self).init_may_fail() == old(self).init_may_fail(),
            r is Ok ==> final(self).ready() && old(self).init_effect(final(self)),
            final(self).name() == old(self).name(),
    ;
}

/// Capacity of the driver registry.
pub const NUM_DRIVERS: usize = 5;

/// The name each driver of this board reports.
pub open spec fn driver_name(id: DriverId) -> Seq<char> {
    match id {
        DriverId::Uart => "BCM PL011 UART"@,
        DriverId::Gpio => "BCM GPIO"@,
    }
}

/// The drivers of this board.
#[derive(Clone, Copy, Debug, PartialEq, Eq, Structural)]
pub enum DriverId {
    Uart,
    Gpio,
}

/// Second-phase steps run right after a driver's own `init`.
#[derive(Clone, Copy, Debug, PartialEq, Eq, Structural)]
pub enum DeviceDriverPostInitCallback {
    /// Make the UART the active console.
    RegisterUartConsole,
    /// Route the UART to its pins.
    MapUartPins,
}

/// One step of the driver lifecycle, as it happened.
#[derive(Clone, Copy, Debug, PartialEq, Eq, Structural)]
pub enum LifecycleEvent {
    Init(DriverId),
    PostInit(DriverId),
}

/// A registered driver and its optional post-init step.
#[derive(Clone, Copy, Debug, PartialEq, Eq, Structural)]
pub struct DeviceDriverDescriptor {
    pub device_driver: DriverId,
    pub post_init_callback: Option<DeviceDriverPostInitCallback>,
}

impl DeviceDriverDescriptor {
    pub fn new(
        device_driver: DriverId,
        post_init_callback: Option<DeviceDriverPostInitCallback>,
    ) -> (r: Self)
        ensures
            r.device_driver == device_driver,
            r.post_init_callback == post_init_callback,
    {
        DeviceDriverDescriptor { device_driver, post_init_callback }
    }
}

/// The lifecycle steps of one descriptor: its driver's `init`, then its
/// post-init step if it has one.
pub open spec fn steps_of(d: DeviceDriverDescriptor) -> Seq<LifecycleEvent> {
    match d.post_init_callback {
        Some(_) => seq![LifecycleEvent::Init(d.device_driver), LifecycleEvent::PostInit(d.device_driver)],
        None => seq![LifecycleEvent::Init(d.device_driver)],
    }
}

/// The lifecycle of a registry: the steps of each descriptor in
/// registration order.
pub open spec fn lifecycle(ds: Seq<DeviceDriverDescriptor>) -> Seq<LifecycleEvent>
    decreases ds.len(),
{
    if ds.len() == 0 {
        Seq::empty()
    } else {
        lifecycle(ds.drop_last()) + steps_of(ds.last())
    }
}

/// Running the lifecycle of `n` registered drivers gives each its `init`
/// exactly at its own place in registration order, its post-init step (if
/// any) right after that `init` and before the next driver's, and nothing
/// else.
pub proof fn lemma_lifecycle_order(ds: Seq<DeviceDriverDescriptor>, i: int)
    requires
        0 <= i < ds.len(),
    ensures
        ({
            let at: int = lifecycle(ds.take(i)).len() as int;
            &&& lifecycle(ds.take(i + 1)) == lifecycle(ds.take(i)) + steps_of(ds[i])
            &&& lifecycle(ds).subrange(at, at + steps_of(ds[i]).len()) == steps_of(ds[i])
            &&& lifecycle(ds)[at] == LifecycleEvent::Init(ds[i].device_driver)
            &&& (ds[i].post_init_callback is Some ==> lifecycle(ds)[at + 1]
                == LifecycleEvent::PostInit(ds[i].device_driver))
        }),
        lifecycle(ds).len() == lifecycle(ds.take(i)).len() + steps_of(ds[i]).len() + lifecycle(
            ds.skip(i + 1),
        ).len(),
    decreases ds.len(),
{
    assert(ds.take(i + 1).drop_last() =~= ds.take(i));
    assert(ds.take(i + 1).last() == ds[i]);
    lemma_lifecycle_split(ds, i + 1);
    let at: int = lifecycle(ds.take(i)).len() as int;
    assert(lifecycle(ds) == lifecycle(ds.take(i)) + steps_of(ds[i]) + lifecycle(ds.skip(i + 1)));
    assert(lifecycle(ds).subrange(at, at + steps_of(ds[i]).len()) =~= steps_of(ds[i]));
}

/// The lifecycle of a registry splits at any point into the lifecycles of
/// the two parts.
pub proof fn lemma_lifecycle_split(ds: Seq<DeviceDriverDescriptor>, k: int)
    requires
        0 <= k <= ds.len(),
    ensures
        lifecycle(ds) == lifecycle(ds.take(k)) + lifecycle(ds.skip(k)),
    decreases ds.len(),
{
    if k == ds.len() {
        assert(ds.take(k) =~= ds);
        assert(ds.skip(k) =~= Seq::<DeviceDriverDescriptor>::empty());
        assert(lifecycle(ds) + Seq::<LifecycleEvent>::empty() =~= lifecycle(ds));
    } else {
        let front = ds.drop_last();
        lemma_lifecycle_split(front, k);
        assert(front.take(k) =~= ds.take(k));
        assert(ds.skip(k).drop_last() =~= front.skip(k));
        assert(ds.skip(k).last() == ds.last());
        assert(lifecycle(ds.skip(k)) == lifecycle(front.skip(k)) + steps_of(ds.last()));
        assert(lifecycle(ds) =~= lifecycle(ds.take(k)) + lifecycle(ds.skip(k)));
    }
}

/// The registry behind the driver manager's critical section.
pub struct DriverManagerInner {
    pub next_index: usize,
    pub descriptors: Vec<DeviceDriverDescriptor>,
}

impl DriverManagerInner {
    pub open spec fn wf(&self) -> bool {
        &&& self.descriptors@.len() <= NUM_DRIVERS
        &&& self.next_index == self.descriptors@.len()
    }

    pub fn new() -> (r: Self)
        ensures
            r.wf(),
            r.descriptors@ == Seq::<DeviceDriverDescriptor>::empty(),
    {
        DriverManagerInner { next_index: 0, descriptors: Vec::new() }
    }
}

/// The fixed-capacity, append-only registry of drivers.
pub struct DriverManager {
    inner: NullLock<DriverManagerInner>,
}

impl DriverManager {
    /// The registered descriptors, in registration order.
    pub closed spec fn registered(&self) -> Seq<DeviceDriverDescriptor> {
        self.inner.value().descriptors@
    }

    pub closed spec fn wf(&self) -> bool {
        self.inner.value().wf()
    }

    pub fn new() -> (r: Self)
        ensures
            r.wf(),
            r.registered() == Seq::<DeviceDriverDescriptor>::empty(),
    {
        DriverManager { inner: NullLock::new(DriverManagerInner::new()) }
    }

    /// Appends `descriptor`; a full registry refuses it and stays as it was.
    pub fn register_driver(&mut self, descriptor: DeviceDriverDescriptor) -> (r: Result<(), &'static str>)
        requires
            old(self).wf(),
        ensures
            final(self).wf(),
            old(self).registered().len() < NUM_DRIVERS ==> r is Ok && final(self).registered()
                == old(self).registered().push(descriptor),
            old(self).registered().len() >= NUM_DRIVERS ==> r is Err && final(self).registered()
                == old(self).registered(),
    {
        let inner = self.inner.lock();
        if inner.next_index >= NUM_DRIVERS {
            return Err("driver registry full");
        }
        inner.descriptors.push(descriptor);
        inner.next_index = inner.next_index + 1;
        Ok(())
    }

    /// The number of registered drivers.
    pub fn len(&self) -> (r: usize)
        requires
            self.wf(),
        ensures
            r == self.registered().len(),
    {
        self.inner.read().next_index
    }

    /// The registered descriptor at position `i`.
    pub fn descriptor(&self, i: usize) -> (r: DeviceDriverDescriptor)
        requires
            i < self.registered().len(),
        ensures
            r == self.registered()[i as int],
    {
        self.inner.read().descriptors[i]
    }

    /// The registered descriptors in registration order.
    pub fn for_each_descriptor(&self) -> (r: Vec<DeviceDriverDescriptor>)
        ensures
            r@ == self.registered(),
    {
        let inner = self.inner.read();
        let mut r: Vec<DeviceDriverDescriptor> = Vec::new();
        let mut i: usize = 0;
        while i < inner.descriptors.len()
            invariant
                i <= inner.descriptors@.len(),
                r@ == inner.descriptors@.take(i as int),
            decreases inner.descriptors@.len() - i,
        {
            r.push(inner.descriptors[i]);
            proof {
                assert(inner.descriptors@.take(i + 1) =~= inner.descriptors@.take(i as int).push(inner.descriptors@[i as int]));
            }
            i = i + 1;
        }
        proof {
            assert(inner.descriptors@.take(inner.descriptors@.len() as int) =~= inner.descriptors@);
        }
        r
    }

}

} // verus!
