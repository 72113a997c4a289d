//! Injection of errors of a device, by its bus, device and function number. The
//! port that handles the error is found on the way up from the device.
use crate::capabilities::aer::AerInjectedErrorKind;
use crate::capabilities::aer::AerInjection;
use crate::capabilities::aer::LogDwords;
use crate::pcie::port::aer_report_received;
use crate::pcie::port::child_aer;
use crate::pcie::root::with_root_port;
use crate::pcie::root::GenericPcieRootComplex;
use crate::pcie::root::RootModel;
use crate::pcie::switch::contain_upstream;
use crate::pcie::switch::decoding_port;
use crate::pcie::GenericPciBusDevice;
use crate::pcie::PcieDpcRoutingAction;
use vstd::prelude::*;

verus! {

/// An error of a device.
#[derive(Debug, Clone, Copy)]
pub struct PcieAerInjectRequest {
    /// The kind.
    pub kind: AerInjectedErrorKind,
    /// Status bits to set.
    pub status_bits: u32,
    /// Header log.
    pub header_log: LogDwords,
}

/// The error as it is handed on.
pub open spec fn to_injection_spec(request: PcieAerInjectRequest, target: u16) -> AerInjection {
    AerInjection {
        kind: request.kind,
        status_bits: request.status_bits,
        header_log: request.header_log,
        source_id: target,
    }
}

impl PcieAerInjectRequest {
    /// Returns the error as it is handed on, with its source.
    pub fn to_injection(self, target: u16) -> (r: AerInjection)
        ensures
            r == to_injection_spec(self, target),
    {
        AerInjection {
            kind: self.kind,
            status_bits: self.status_bits,
            header_log: self.header_log,
            source_id: target,
        }
    }
}

/// Why an error of a device cannot be injected.
#[derive(Debug, Clone, Copy, PartialEq, Eq, Structural)]
pub enum TargetError {
    /// No root port decodes the bus of the device.
    NoRootPort,
    /// No port on the way up from the device can contain errors.
    NoContainingPort,
}

/// The bus of a target.
pub open spec fn target_bus(target: u16) -> u8 {
    (target / 256) as u8
}

/// The device and function number of a target.
pub open spec fn target_function(target: u16) -> u8 {
    (target % 256) as u8
}

/// The root complex after an error of a device, and the result. The error is
/// recorded at the device if that can be done, and then reported to the root
/// port that decodes the device's bus.
pub open spec fn aer_reported_for<D: GenericPciBusDevice>(
    m: RootModel<D::Model>,
    target: u16,
    request: PcieAerInjectRequest,
) -> (RootModel<D::Model>, Result<(), TargetError>) {
    let e = to_injection_spec(request, target);
    match decoding_port(m.ports, target_bus(target), 0) {
        None => (m, Err(TargetError::NoRootPort)),
        Some(i) => {
            let recorded = child_aer::<D>(
                m.ports[i],
                target_bus(target),
                target_function(target),
                e,
            ).0;
            (with_root_port(m, i, aer_report_received(recorded, e)), Ok(()))
        },
    }
}

/// The root complex after an error of a device was to be contained, and the
/// result. The error is recorded at the device if one is given, and then
/// contained by the first port on the way up that can.
pub open spec fn dpc_begun_for<D: GenericPciBusDevice>(
    m: RootModel<D::Model>,
    target: u16,
    request: Option<PcieAerInjectRequest>,
) -> (RootModel<D::Model>, Result<(), TargetError>) {
    match decoding_port(m.ports, target_bus(target), 0) {
        None => (m, Err(TargetError::NoRootPort)),
        Some(i) => {
            let aer = match request {
                Some(r) => Some(to_injection_spec(r, target)),
                None => None,
            };
            let recorded = match aer {
                Some(e) => child_aer::<D>(
                    m.ports[i],
                    target_bus(target),
                    target_function(target),
                    e,
                ).0,
                None => m.ports[i],
            };
            let (port, done) = contain_upstream::<D>(
                recorded,
                target_bus(target),
                target_function(target),
                PcieDpcRoutingAction::Begin { aer },
            );
            (
                with_root_port(m, i, port),
                if done {
                    Ok(())
                } else {
                    Err(TargetError::NoContainingPort)
                },
            )
        },
    }
}

/// The root complex after the recovery for a device was marked as done, and the
/// result.
pub open spec fn dpc_completed_for<D: GenericPciBusDevice>(m: RootModel<D::Model>, target: u16) -> (
    RootModel<D::Model>,
    Result<(), TargetError>,
) {
    match decoding_port(m.ports, target_bus(target), 0) {
        None => (m, Err(TargetError::NoRootPort)),
        Some(i) => {
            let (port, done) = contain_upstream::<D>(
                m.ports[i],
                target_bus(target),
                target_function(target),
                PcieDpcRoutingAction::Complete,
            );
            (
                with_root_port(m, i, port),
                if done {
                    Ok(())
                } else {
                    Err(TargetError::NoContainingPort)
                },
            )
        },
    }
}

impl<D: GenericPciBusDevice> GenericPcieRootComplex<D> {
    /// Injects an error of a device.
    pub fn inject_aer(&mut self, target: u16, request: PcieAerInjectRequest) -> (r: Result<
        (),
        TargetError,
    >)
        ensures
            (final(self).model(), r) == aer_reported_for::<D>(old(self).model(), target, request),
    {
        let bus: u8 = (target / 256) as u8;
        let function: u8 = (target % 256) as u8;
        let e: AerInjection = request.to_injection(target);
        let ghost before = self.model();
        match self.find_root_port_for_bus(bus) {
            None => Err(TargetError::NoRootPort),
            Some(i) => {
                let _ = self.ports[i].port.inject_child_aer(bus, function, e);
                self.ports[i].port.report_aer(e);
                proof {
                    assert(self.model().ports =~= before.ports.update(
                        i as int,
                        self.ports@[i as int].port.model(),
                    ));
                }
                Ok(())
            },
        }
    }

    /// Contains an error of a device: the first phase.
    pub fn inject_dpc_begin(&mut self, target: u16, request: Option<PcieAerInjectRequest>) -> (r:
        Result<(), TargetError>)
        ensures
            (final(self).model(), r) == dpc_begun_for::<D>(old(self).model(), target, request),
    {
        let bus: u8 = (target / 256) as u8;
        let function: u8 = (target % 256) as u8;
        let aer: Option<AerInjection> = match request {
            Some(q) => Some(q.to_injection(target)),
            None => None,
        };
        let ghost before = self.model();
        match self.find_root_port_for_bus(bus) {
            None => Err(TargetError::NoRootPort),
            Some(i) => {
                if let Some(e) = aer {
                    let _ = self.ports[i].port.inject_child_aer(bus, function, e);
                }
                let done: bool = self.ports[i].port.apply_dpc_upstream(
                    bus,
                    function,
                    PcieDpcRoutingAction::Begin { aer },
                );
                proof {
                    assert(self.model().ports =~= before.ports.update(
                        i as int,
                        self.ports@[i as int].port.model(),
                    ));
                }
                if done {
                    Ok(())
                } else {
                    Err(TargetError::NoContainingPort)
                }
            },
        }
    }

    /// Marks the recovery for a device as done: the second phase.
    pub fn inject_dpc_complete(&mut self, target: u16) -> (r: Result<(), TargetError>)
        ensures
            (final(self).model(), r) == dpc_completed_for::<D>(old(self).model(), target),
    {
        let bus: u8 = (target / 256) as u8;
        let function: u8 = (target % 256) as u8;
        let ghost before = self.model();
        match self.find_root_port_for_bus(bus) {
            None => Err(TargetError::NoRootPort),
            Some(i) => {
                let done: bool = self.ports[i].port.apply_dpc_upstream(
                    bus,
                    function,
                    PcieDpcRoutingAction::Complete,
                );
                proof {
                    assert(self.model().ports =~= before.ports.update(
                        i as int,
                        self.ports@[i as int].port.model(),
                    ));
                }
                if done {
                    Ok(())
                } else {
                    Err(TargetError::NoContainingPort)
                }
            },
        }
    }
}

}
