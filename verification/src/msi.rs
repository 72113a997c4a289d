//! Delivery of message signaled interrupts.
use crate::bus_range::bdf_bus;
use crate::bus_range::in_bus_range;
use crate::bus_range::AssignedBusRange;
use vstd::prelude::*;

verus! {

/// An object that can signal MSI interrupts.
pub trait SignalMsi: Sized {
    /// The object after a message was signaled.
    spec fn after(self, devid: Option<u32>, address: u64, data: u32) -> Self;

    /// Signals a message signaled interrupt.
    ///
    /// What `devid` means depends on the layer: for a device it is the BDF of a
    /// function, below an ITS it is the full ITS device identifier.
    fn signal_msi(&mut self, devid: Option<u32>, address: u64, data: u32)
        ensures
            *final(self) == old(self).after(devid, address, data),
    ;
}

/// A target that drops all messages.
#[derive(Debug, Clone, Copy, PartialEq, Eq, Structural)]
pub struct DisconnectedMsiTarget;

impl SignalMsi for DisconnectedMsiTarget {
    open spec fn after(self, devid: Option<u32>, address: u64, data: u32) -> Self {
        self
    }

    fn signal_msi(&mut self, devid: Option<u32>, address: u64, data: u32) {
    }
}

/// The requester identifier at an offset from the first function of the secondary
/// bus.
pub open spec fn requester_id(bus_range: AssignedBusRange, rid_offset: u16) -> int {
    (bus_range.secondary * 256 + rid_offset) % 0x1_0000
}

/// The identity under which a device signals MSI interrupts.
///
/// It is an offset from the first function of the secondary bus of the port that
/// owns the device, and can be had before bus numbers are assigned. The requester
/// identifier is resolved against the port's bus range, which comes with each
/// message.
#[derive(Debug, Clone, Copy, PartialEq, Eq, Structural)]
pub struct MsiTarget {
    /// The offset from the first function of the secondary bus.
    pub rid_offset: u16,
}

impl MsiTarget {
    /// Returns the identity of function 0.
    pub fn disconnected() -> (r: Self)
        ensures
            r == (MsiTarget { rid_offset: 0 }),
    {
        MsiTarget { rid_offset: 0 }
    }

    /// Another device and function number on the same secondary bus.
    pub fn with_devfn(&self, devfn: u8) -> (r: MsiTarget)
        ensures
            r == (MsiTarget { rid_offset: devfn as u16 }),
    {
        MsiTarget { rid_offset: devfn as u16 }
    }

    /// Another offset from the same secondary bus.
    pub fn with_rid_offset(&self, rid_offset: u16) -> (r: MsiTarget)
        ensures
            r == (MsiTarget { rid_offset }),
    {
        MsiTarget { rid_offset }
    }

    /// A device and function number on the secondary bus of another range, such as
    /// one that a switch owns. Messages under it come with that range.
    pub fn with_bus_range(&self, devfn: u8) -> (r: MsiTarget)
        ensures
            r == (MsiTarget { rid_offset: devfn as u16 }),
    {
        self.with_devfn(devfn)
    }

    /// Returns the requester identifier of messages that name none.
    pub fn default_bdf(&self, bus_range: &AssignedBusRange) -> (r: u32)
        ensures
            r == requester_id(*bus_range, self.rid_offset),
    {
        let (secondary, _) = bus_range.bus_range();
        (secondary as u32 * 256 + self.rid_offset as u32) % 0x1_0000
    }

    /// Signals an MSI interrupt with the default requester identifier.
    pub fn signal_msi<S: SignalMsi>(
        &self,
        bus_range: &AssignedBusRange,
        backend: &mut S,
        address: u64,
        data: u32,
    )
        ensures
            *final(backend) == signaled(*old(backend), *bus_range, *self, address, data),
    {
        let devid: u32 = self.default_bdf(bus_range);
        backend.signal_msi(Some(devid), address, data);
    }

    /// Signals an MSI interrupt with a requester identifier.
    ///
    /// The message is dropped if the bus of the identifier is outside the bus
    /// range.
    pub fn signal_msi_with_rid<S: SignalMsi>(
        &self,
        bus_range: &AssignedBusRange,
        backend: &mut S,
        rid: u16,
        address: u64,
        data: u32,
    )
        ensures
            *final(backend) == signaled_with_rid(*old(backend), *bus_range, rid, address, data),
    {
        if !bus_range.contains_bus((rid / 256) as u8) {
            return;
        }
        backend.signal_msi(Some(rid as u32), address, data);
    }
}

/// What receives messages, after one with the default requester identifier.
pub open spec fn signaled<S: SignalMsi>(
    backend: S,
    bus_range: AssignedBusRange,
    target: MsiTarget,
    address: u64,
    data: u32,
) -> S {
    backend.after(Some(requester_id(bus_range, target.rid_offset) as u32), address, data)
}

/// What receives messages, after one with a requester identifier.
pub open spec fn signaled_with_rid<S: SignalMsi>(
    backend: S,
    bus_range: AssignedBusRange,
    rid: u16,
    address: u64,
    data: u32,
) -> S {
    if in_bus_range(bus_range, bdf_bus(rid as int)) {
        backend.after(Some(rid as u32), address, data)
    } else {
        backend
    }
}

/// A connection between a device and what receives its messages.
#[derive(Debug)]
pub struct MsiConnection<S> {
    /// What receives messages; they are dropped while there is nothing.
    pub backend: Option<S>,
    /// Whether routes for direct delivery can be made.
    pub has_irqfd: bool,
    /// The identity of the device.
    pub target: MsiTarget,
}

impl<S: SignalMsi> MsiConnection<S> {
    /// Creates a connection to nothing, for a device and function number on the
    /// secondary bus of the port that owns the device.
    pub fn new(devfn: u8) -> (r: Self)
        ensures
            r.backend is None,
            !r.has_irqfd,
            r.target == (MsiTarget { rid_offset: devfn as u16 }),
    {
        MsiConnection {
            backend: None,
            has_irqfd: false,
            target: MsiTarget { rid_offset: devfn as u16 },
        }
    }

    /// Sets what receives messages.
    pub fn connect(&mut self, backend: S)
        ensures
            final(self).backend == Some(backend),
            final(self).has_irqfd == old(self).has_irqfd,
            final(self).target == old(self).target,
    {
        self.backend = Some(backend);
    }

    /// Lets routes for direct delivery be made.
    pub fn connect_irqfd(&mut self)
        ensures
            final(self).has_irqfd,
            final(self).backend == old(self).backend,
            final(self).target == old(self).target,
    {
        self.has_irqfd = true;
    }

    /// Returns the identity of the device.
    pub fn target(&self) -> (r: MsiTarget)
        ensures
            r == self.target,
    {
        self.target
    }

    /// Returns an identity for a device and function number.
    pub fn msi_target(&self, devfn: u8) -> (r: MsiTarget)
        ensures
            r == (MsiTarget { rid_offset: devfn as u16 }),
    {
        self.target.with_devfn(devfn)
    }

    /// Returns whether routes for direct delivery can be made.
    pub fn supports_direct_msi(&self) -> (r: bool)
        ensures
            r == self.has_irqfd,
    {
        self.has_irqfd
    }

    /// Makes a route for direct delivery that keeps the identity of a target.
    ///
    /// Returns `None` if no route can be made.
    pub fn new_route(&self, target: &MsiTarget) -> (r: Option<MsiRoute>)
        ensures
            r == (if self.has_irqfd {
                Some(MsiRoute { target: *target })
            } else {
                None
            }),
    {
        if self.has_irqfd {
            Some(MsiRoute { target: *target })
        } else {
            None
        }
    }

    /// Signals an MSI interrupt under the identity of a target.
    pub fn signal_msi(
        &mut self,
        bus_range: &AssignedBusRange,
        target: &MsiTarget,
        address: u64,
        data: u32,
    )
        ensures
            final(self).backend == (match old(self).backend {
                Some(b) => Some(signaled(b, *bus_range, *target, address, data)),
                None => None,
            }),
            final(self).has_irqfd == old(self).has_irqfd,
            final(self).target == old(self).target,
    {
        if let Some(mut backend) = self.backend.take() {
            target.signal_msi(bus_range, &mut backend, address, data);
            self.backend = Some(backend);
        }
    }

    /// Signals an MSI interrupt with a requester identifier, which has to be on a
    /// bus of the range.
    pub fn signal_msi_with_rid(
        &mut self,
        bus_range: &AssignedBusRange,
        target: &MsiTarget,
        rid: u16,
        address: u64,
        data: u32,
    )
        ensures
            final(self).backend == (match old(self).backend {
                Some(b) => Some(signaled_with_rid(b, *bus_range, rid, address, data)),
                None => None,
            }),
            final(self).has_irqfd == old(self).has_irqfd,
            final(self).target == old(self).target,
    {
        if let Some(mut backend) = self.backend.take() {
            target.signal_msi_with_rid(bus_range, &mut backend, rid, address, data);
            self.backend = Some(backend);
        }
    }
}

/// What is asked of a route for direct delivery.
#[derive(Debug, Clone, Copy, PartialEq, Eq)]
pub enum RouteCommand {
    /// Deliver this message when the event of the route is signaled.
    Enable {
        /// The address.
        address: u64,
        /// The data.
        data: u32,
        /// The identity of the device.
        devid: Option<u32>,
    },
    /// Deliver nothing.
    Disable,
}

/// A route for direct delivery of the messages of one vector.
#[derive(Debug, Clone, Copy)]
pub struct MsiRoute {
    /// The identity of the device.
    pub target: MsiTarget,
}

impl MsiRoute {
    /// Sets the message, with the default requester identifier.
    pub fn enable(&self, bus_range: &AssignedBusRange, address: u64, data: u32) -> (r: RouteCommand)
        ensures
            r == (RouteCommand::Enable {
                address,
                data,
                devid: Some(requester_id(*bus_range, self.target.rid_offset) as u32),
            }),
    {
        RouteCommand::Enable { address, data, devid: Some(self.target.default_bdf(bus_range)) }
    }

    /// Sets the message, with a requester identifier.
    ///
    /// The route is disabled if the bus of the identifier is outside the bus range.
    pub fn enable_with_rid(
        &self,
        bus_range: &AssignedBusRange,
        rid: u16,
        address: u64,
        data: u32,
    ) -> (r: RouteCommand)
        ensures
            r == (if in_bus_range(*bus_range, bdf_bus(rid as int)) {
                RouteCommand::Enable { address, data, devid: Some(rid as u32) }
            } else {
                RouteCommand::Disable
            }),
    {
        if !bus_range.contains_bus((rid / 256) as u8) {
            return RouteCommand::Disable;
        }
        RouteCommand::Enable { address, data, devid: Some(rid as u32) }
    }

    /// Disables the route.
    pub fn disable(&self) -> (r: RouteCommand)
        ensures
            r == RouteCommand::Disable,
    {
        RouteCommand::Disable
    }
}

/// A message with the default requester identifier of a device on the secondary
/// bus is one that a caller may send by naming that identifier.
pub proof fn law_default_is_explicit<S: SignalMsi>(
    backend: S,
    bus_range: AssignedBusRange,
    devfn: u8,
    address: u64,
    data: u32,
)
    requires
        bus_range.secondary <= bus_range.subordinate,
    ensures
        ({
            let target = MsiTarget { rid_offset: devfn as u16 };
            let rid = requester_id(bus_range, devfn as u16);
            &&& rid == bus_range.secondary * 256 + devfn
            &&& signaled_with_rid(backend, bus_range, rid as u16, address, data) == signaled(
                backend,
                bus_range,
                target,
                address,
                data,
            )
        }),
{
    let rid = requester_id(bus_range, devfn as u16);
    assert(bdf_bus(rid) == bus_range.secondary);
}

/// An offset beyond one bus carries into the bus number.
pub proof fn law_offset_carries(bus_range: AssignedBusRange, rid_offset: u16)
    requires
        bus_range.secondary + rid_offset / 256 < 256,
    ensures
        bdf_bus(requester_id(bus_range, rid_offset)) == bus_range.secondary + rid_offset / 256,
        requester_id(bus_range, rid_offset) % 256 == rid_offset as int % 256,
{
}

/// No message with a requester identifier outside the bus range gets through.
pub proof fn law_outside_dropped<S: SignalMsi>(
    backend: S,
    bus_range: AssignedBusRange,
    rid: u16,
    address: u64,
    data: u32,
)
    requires
        !in_bus_range(bus_range, bdf_bus(rid as int)),
    ensures
        signaled_with_rid(backend, bus_range, rid, address, data) == backend,
{
}

/// A message with a requester identifier gets through as it is, exactly if the bus in
/// the upper half of the identifier is one of those behind the port. One without gets
/// through with the identifier at the device's offset from the secondary bus.
pub proof fn law_delivered<S: SignalMsi>(
    backend: S,
    bus_range: AssignedBusRange,
    rid: u16,
    target: MsiTarget,
    address: u64,
    data: u32,
)
    ensures
        bus_range.secondary * 256 <= rid < (bus_range.subordinate + 1) * 256 ==> signaled_with_rid(
            backend,
            bus_range,
            rid,
            address,
            data,
        ) == backend.after(Some(rid as u32), address, data),
        rid < bus_range.secondary * 256 || (bus_range.subordinate + 1) * 256 <= rid
            ==> signaled_with_rid(backend, bus_range, rid, address, data) == backend,
        bus_range.secondary * 256 + target.rid_offset <= 0xFFFF ==> signaled(
            backend,
            bus_range,
            target,
            address,
            data,
        ) == backend.after(
            Some((bus_range.secondary * 256 + target.rid_offset) as u32),
            address,
            data,
        ),
{
}

}
