use crate::clocks::Clock;
use vstd::prelude::*;

verus! {

/// The peripheral capability the CPU core drives: port-mapped reads and
/// writes, a per-step interrupt poll, and a display export.  A device's
/// behaviour is a function of its own state and the clock; the spec
/// functions name the answer and the successor state of each operation.
pub trait Device: Sized {
    /// Well-formedness of the device's internal state.
    spec fn inv(&self) -> bool;

    /// The byte this device answers for a read of `port`, or `None` when the
    /// port is not its own.
    spec fn read_value(&self, cycles: u64, port: u8) -> Option<u8>;

    /// Device state after it has observed a read of `port`.
    spec fn after_read(&self, cycles: u64, port: u8) -> Self;

    /// Device state after a write of `value` to `port`.
    spec fn after_write(&self, cycles: u64, port: u8, value: u8) -> Self;

    /// Whether the device reports a pending maskable interrupt.
    spec fn pending(&self, cycles: u64) -> bool;

    /// Device state after one interrupt poll.
    spec fn after_poll(&self, cycles: u64) -> Self;

    fn port_read(&mut self, clock: &Clock, port_address: u8) -> (r: Option<u8>)
        requires
            old(self).inv(),
        ensures
            final(self).inv(),
            r == old(self).read_value(clock.cycles, port_address),
            *final(self) == old(self).after_read(clock.cycles, port_address),
    ;

    fn port_write(&mut self, clock: &Clock, port_address: u8, value: u8)
        requires
            old(self).inv(),
        ensures
            final(self).inv(),
            *final(self) == old(self).after_write(clock.cycles, port_address, value),
    ;

    fn poll_interrupts(&mut self, raw_display: &mut Vec<u8>, clock: &Clock) -> (r: bool)
        requires
            old(self).inv(),
        ensures
            final(self).inv(),
            r == old(self).pending(clock.cycles),
            *final(self) == old(self).after_poll(clock.cycles),
            final(raw_display)@.len() == old(raw_display)@.len(),
    ;

    fn export(&mut self, raw_display: &mut Vec<u8>) -> (r: bool)
        requires
            old(self).inv(),
        ensures
            final(self).inv(),
            *final(self) == *old(self),
            final(raw_display)@.len() == old(raw_display)@.len(),
    ;
}

/// Relation between the device list before and after one bus read of
/// `port`: the devices are asked in order, each asked device observes the
/// read, the first that answers supplies the byte, and an unanswered read
/// yields 0.
pub open spec fn port_read_step<D: Device>(
    pre: Seq<D>,
    post: Seq<D>,
    cycles: u64,
    port: u8,
    r: u8,
    k: int,
) -> bool {
    &&& 0 <= k <= pre.len()
    &&& (forall|j: int| 0 <= j < k ==> (#[trigger] pre[j].read_value(cycles, port)) is None)
    &&& (forall|j: int| 0 <= j < k ==> (#[trigger] post[j]) == pre[j].after_read(cycles, port))
    &&& if k < pre.len() {
        &&& pre[k].read_value(cycles, port) is Some
        &&& r == pre[k].read_value(cycles, port).unwrap()
        &&& post[k] == pre[k].after_read(cycles, port)
        &&& (forall|j: int| k < j < pre.len() ==> (#[trigger] post[j]) == pre[j])
    } else {
        r == 0
    }
}

pub open spec fn port_read_rel<D: Device>(
    pre: Seq<D>,
    post: Seq<D>,
    cycles: u64,
    port: u8,
    r: u8,
) -> bool {
    post.len() == pre.len() && exists|k: int| port_read_step(pre, post, cycles, port, r, k)
}

/// Whether any device in the list reports a pending interrupt.
pub open spec fn any_pending<D: Device>(devs: Seq<D>, cycles: u64) -> bool {
    exists|j: int| 0 <= j < devs.len() && (#[trigger] devs[j]).pending(cycles)
}

/// The port bus: an ordered list of attached devices.  The CPU core owns
/// the bus but is agnostic to device identity.
pub struct Ports<D: Device> {
    pub devices: Vec<D>,
}

impl<D: Device> Ports<D> {
    /// All attached devices are well formed.
    pub open spec fn inv(&self) -> bool {
        forall|j: int| 0 <= j < self.devices@.len() ==> (#[trigger] self.devices@[j]).inv()
    }

    pub fn new() -> (r: Self)
        ensures
            r.inv(),
            r.devices@.len() == 0,
    {
        Ports { devices: Vec::new() }
    }

    pub fn add_device(&mut self, device: D)
        requires
            old(self).inv(),
            device.inv(),
        ensures
            final(self).inv(),
            final(self).devices@ == old(self).devices@.push(device),
    {
        self.devices.push(device);
    }

    /// Ask each device in turn; the first that answers the port supplies the
    /// byte, and an unanswered read yields 0.
    pub fn port_read(&mut self, clock: &Clock, port_address: u8) -> (r: u8)
        requires
            old(self).inv(),
        ensures
            final(self).inv(),
            port_read_rel(old(self).devices@, final(self).devices@, clock.cycles, port_address, r),
    {
        let ghost pre = self.devices@;
        let n: usize = self.devices.len();
        let mut i: usize = 0;
        while i < n
            invariant
                pre == old(self).devices@,
                n == pre.len(),
                self.devices@.len() == pre.len(),
                0 <= i <= n,
                self.inv(),
                forall|j: int| 0 <= j < i ==> (#[trigger] pre[j].read_value(clock.cycles, port_address)) is None,
                forall|j: int|
                    0 <= j < i ==> (#[trigger] self.devices@[j]) == pre[j].after_read(
                        clock.cycles,
                        port_address,
                    ),
                forall|j: int| i <= j < n ==> (#[trigger] self.devices@[j]) == pre[j],
            decreases n - i,
        {
            let answer = self.devices[i].port_read(clock, port_address);
            match answer {
                Option::Some(value) => {
                    assert(port_read_step(
                        pre,
                        self.devices@,
                        clock.cycles,
                        port_address,
                        value,
                        i as int,
                    ));
                    assert(port_read_rel(pre, self.devices@, clock.cycles, port_address, value));
                    return value;
                },
                Option::None => {
                    i = i + 1;
                },
            }
        }
        assert(port_read_step(pre, self.devices@, clock.cycles, port_address, 0u8, pre.len() as int));
        assert(port_read_rel(pre, self.devices@, clock.cycles, port_address, 0u8));
        0
    }

    /// Hand the written byte to every attached device.
    pub fn port_write(&mut self, clock: &Clock, port_address: u8, value: u8)
        requires
            old(self).inv(),
        ensures
            final(self).inv(),
            final(self).devices@.len() == old(self).devices@.len(),
            forall|j: int|
                0 <= j < old(self).devices@.len() ==> (#[trigger] final(self).devices@[j])
                    == old(self).devices@[j].after_write(clock.cycles, port_address, value),
    {
        let ghost pre = self.devices@;
        let n: usize = self.devices.len();
        let mut i: usize = 0;
        while i < n
            invariant
                pre == old(self).devices@,
                n == pre.len(),
                self.devices@.len() == pre.len(),
                0 <= i <= n,
                self.inv(),
                forall|j: int|
                    0 <= j < i ==> (#[trigger] self.devices@[j]) == pre[j].after_write(
                        clock.cycles,
                        port_address,
                        value,
                    ),
                forall|j: int| i <= j < n ==> (#[trigger] self.devices@[j]) == pre[j],
            decreases n - i,
        {
            self.devices[i].port_write(clock, port_address, value);
            i = i + 1;
        }
    }

    /// Poll every device once; the bus reports an interrupt when any device
    /// does.
    pub fn poll_interrupts(&mut self, raw_display: &mut Vec<u8>, clock: &Clock) -> (r: bool)
        requires
            old(self).inv(),
        ensures
            final(self).inv(),
            r == any_pending(old(self).devices@, clock.cycles),
            final(self).devices@.len() == old(self).devices@.len(),
            forall|j: int|
                0 <= j < old(self).devices@.len() ==> (#[trigger] final(self).devices@[j]) == old(
                    self,
                ).devices@[j].after_poll(clock.cycles),
            final(raw_display)@.len() == old(raw_display)@.len(),
    {
        let ghost pre = self.devices@;
        let n: usize = self.devices.len();
        let mut i: usize = 0;
        let mut interrupt: bool = false;
        while i < n
            invariant
                pre == old(self).devices@,
                n == pre.len(),
                self.devices@.len() == pre.len(),
                0 <= i <= n,
                self.inv(),
                interrupt == exists|j: int| 0 <= j < i && (#[trigger] pre[j]).pending(clock.cycles),
                forall|j: int|
                    0 <= j < i ==> (#[trigger] self.devices@[j]) == pre[j].after_poll(clock.cycles),
                forall|j: int| i <= j < n ==> (#[trigger] self.devices@[j]) == pre[j],
                raw_display@.len() == old(raw_display)@.len(),
            decreases n - i,
        {
            let polled = self.devices[i].poll_interrupts(raw_display, clock);
            interrupt = interrupt || polled;
            i = i + 1;
        }
        interrupt
    }

    /// Let every device export its frame; reports whether any did.
    pub fn export(&mut self, raw_display: &mut Vec<u8>) -> (r: bool)
        requires
            old(self).inv(),
        ensures
            final(self).inv(),
            final(self).devices@ == old(self).devices@,
            final(raw_display)@.len() == old(raw_display)@.len(),
    {
        let n: usize = self.devices.len();
        let mut i: usize = 0;
        let mut result: bool = false;
        while i < n
            invariant
                n == self.devices@.len(),
                0 <= i <= n,
                self.inv(),
                self.devices@ == old(self).devices@,
                raw_display@.len() == old(raw_display)@.len(),
            decreases n - i,
        {
            let exported = self.devices[i].export(raw_display);
            result = result || exported;
            i = i + 1;
        }
        result
    }
}

/// A minimal device for exercising the core without peripherals: it owns no
/// port, renders nothing, and reports an interrupt exactly when its flag has
/// been raised, lowering the flag once polled.
pub struct TestDevice {
    pub pending_interrupt: bool,
}

impl TestDevice {
    pub fn new() -> (r: Self)
        ensures
            r.inv(),
            !r.pending_interrupt,
    {
        TestDevice { pending_interrupt: false }
    }

    /// Raise the interrupt line; the next poll will report it.
    pub fn raise_interrupt(&mut self)
        ensures
            final(self).pending_interrupt,
    {
        self.pending_interrupt = true;
    }
}

impl Device for TestDevice {
    open spec fn inv(&self) -> bool {
        true
    }

    open spec fn read_value(&self, cycles: u64, port: u8) -> Option<u8> {
        None
    }

    open spec fn after_read(&self, cycles: u64, port: u8) -> Self {
        *self
    }

    open spec fn after_write(&self, cycles: u64, port: u8, value: u8) -> Self {
        *self
    }

    open spec fn pending(&self, cycles: u64) -> bool {
        self.pending_interrupt
    }

    open spec fn after_poll(&self, cycles: u64) -> Self {
        TestDevice { pending_interrupt: false }
    }

    fn port_read(&mut self, clock: &Clock, port_address: u8) -> (r: Option<u8>) {
        None
    }

    fn port_write(&mut self, clock: &Clock, port_address: u8, value: u8) {
    }

    fn poll_interrupts(&mut self, raw_display: &mut Vec<u8>, clock: &Clock) -> (r: bool) {
        let was_pending = self.pending_interrupt;
        self.pending_interrupt = false;
        was_pending
    }

    fn export(&mut self, raw_display: &mut Vec<u8>) -> (r: bool) {
        false
    }
}

} // verus!
