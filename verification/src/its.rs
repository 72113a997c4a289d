//! ITS device identifiers for message signaled interrupts.
use crate::bus_range::its_devid;
use crate::bus_range::AssignedBusRange;
use crate::msi::RouteCommand;
use crate::msi::SignalMsi;
use vstd::prelude::*;

verus! {

/// A [`SignalMsi`] wrapper that composes the ITS device identifier.
///
/// The bus range is lent by the port, so that the port's bus numbers are the
/// same for as long as the wrapper is there.
#[derive(Debug)]
pub struct ItsSignalMsi<'a, S> {
    /// What receives messages.
    pub inner: S,
    /// The bus range of the port that owns the device.
    pub bus_range: &'a AssignedBusRange,
    /// The segment of the root complex.
    pub segment: u16,
}

impl<'a, S: SignalMsi> ItsSignalMsi<'a, S> {
    /// Creates a wrapper.
    pub fn new(inner: S, bus_range: &'a AssignedBusRange, segment: u16) -> (r: Self)
        ensures
            r == (ItsSignalMsi { inner, bus_range, segment }),
    {
        ItsSignalMsi { inner, bus_range, segment }
    }
}

impl<'a, S: SignalMsi> SignalMsi for ItsSignalMsi<'a, S> {
    open spec fn after(self, devid: Option<u32>, address: u64, data: u32) -> Self {
        match its_devid(*self.bus_range, self.segment, devid) {
            Some(id) => ItsSignalMsi { inner: self.inner.after(Some(id), address, data), ..self },
            None => self,
        }
    }

    fn signal_msi(&mut self, devid: Option<u32>, address: u64, data: u32) {
        match self.bus_range.compose_its_devid(self.segment, devid) {
            None => {},
            Some(id) => {
                self.inner.signal_msi(Some(id), address, data);
            },
        }
    }
}

/// A wrapper for routes for direct delivery that composes the ITS device
/// identifier.
#[derive(Debug, Clone, Copy)]
pub struct ItsIrqFd {
    /// The segment of the root complex.
    pub segment: u16,
}

/// What is asked of the route below for what is asked of a wrapped route;
/// `None` if that is nothing.
pub open spec fn its_command(
    bus_range: AssignedBusRange,
    segment: u16,
    command: RouteCommand,
) -> Option<RouteCommand> {
    match command {
        RouteCommand::Enable { address, data, devid } => match its_devid(
            bus_range,
            segment,
            devid,
        ) {
            Some(id) => Some(RouteCommand::Enable { address, data, devid: Some(id) }),
            None => None,
        },
        RouteCommand::Disable => Some(RouteCommand::Disable),
    }
}

impl ItsIrqFd {
    /// Creates a wrapper.
    pub fn new(segment: u16) -> (r: Self)
        ensures
            r == (ItsIrqFd { segment }),
    {
        ItsIrqFd { segment }
    }

    /// Returns what to ask of the route below; `None` if that is nothing. The bus
    /// range is that of the port that owns the device.
    pub fn route(&self, bus_range: &AssignedBusRange, command: RouteCommand) -> (r: Option<
        RouteCommand,
    >)
        ensures
            r == its_command(*bus_range, self.segment, command),
    {
        match command {
            RouteCommand::Enable { address, data, devid } => {
                match bus_range.compose_its_devid(self.segment, devid) {
                    Some(id) => Some(RouteCommand::Enable { address, data, devid: Some(id) }),
                    None => None,
                }
            },
            RouteCommand::Disable => Some(RouteCommand::Disable),
        }
    }
}

/// While no secondary bus is assigned, no message gets to an ITS.
pub proof fn law_unassigned_dropped<'a, S: SignalMsi>(
    its: ItsSignalMsi<'a, S>,
    devid: Option<u32>,
    address: u64,
    data: u32,
)
    requires
        its.bus_range.secondary == 0,
    ensures
        its.after(devid, address, data) == its,
        its_command(*its.bus_range, its.segment, RouteCommand::Enable { address, data, devid })
            is None,
{
}

/// A message and a route of one device carry the same ITS device identifier.
pub proof fn law_same_identity<'a, S: SignalMsi>(
    its: ItsSignalMsi<'a, S>,
    devid: Option<u32>,
    address: u64,
    data: u32,
)
    ensures
        match its_command(
            *its.bus_range,
            its.segment,
            RouteCommand::Enable { address, data, devid },
        ) {
            Some(RouteCommand::Enable { address: a, data: d, devid: id }) => {
                &&& (a, d) == (address, data)
                &&& its.after(devid, address, data).inner == its.inner.after(id, address, data)
            },
            Some(RouteCommand::Disable) => false,
            None => its.after(devid, address, data).inner == its.inner,
        },
{
}

}
