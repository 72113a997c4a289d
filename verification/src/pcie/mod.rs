//! PCI Express ports, switches and root complexes.
use crate::capabilities::aer::AerInjection;
use crate::io::IoResult;
use vstd::prelude::*;

pub mod bar_access;
pub mod bytes;
pub mod error_inject;
pub mod error_laws;
pub mod find;
pub mod laws;
pub mod made;
pub mod names;
pub mod port;
pub mod root;
pub mod settings;
pub mod switch;
pub mod topology;

verus! {

/// Vendor identifier of the emulated ports.
pub const VENDOR_ID: u16 = 0x1414;
/// Device identifier of a root port.
pub const ROOT_PORT_DEVICE_ID: u16 = 0xC030;
/// Device identifier of an upstream switch port.
pub const UPSTREAM_SWITCH_PORT_DEVICE_ID: u16 = 0xC031;
/// Device identifier of a downstream switch port.
pub const DOWNSTREAM_SWITCH_PORT_DEVICE_ID: u16 = 0xC032;
/// Base class of bridges.
pub const CLASS_BRIDGE: u8 = 0x06;
/// Subclass of PCI-to-PCI bridges.
pub const SUBCLASS_PCI_TO_PCI: u8 = 0x04;

/// What a containing port is to do.
#[derive(Debug, Clone, Copy)]
pub enum PcieDpcRoutingAction {
    /// Start containment; if an error is given, record it too.
    Begin {
        /// The error.
        aer: Option<AerInjection>,
    },
    /// Mark the recovery as done.
    Complete,
}

/// What a config read comes to.
#[verifier::ext_equal]
pub struct CfgRead<M> {
    /// The device after the read.
    pub model: M,
    /// The result; `None` where nothing is at the address.
    pub result: Option<IoResult>,
    /// The value after the read.
    pub value: u32,
}

/// A device on a PCI Express link. A device with devices behind it is told the
/// bus that it is on itself, and the bus that is addressed.
pub trait GenericPciBusDevice: Sized {
    /// The device as a value.
    type Model;

    /// The device as a value.
    spec fn model(&self) -> Self::Model;

    /// What a config read comes to.
    spec fn read_routed(
        m: Self::Model,
        secondary_bus: u8,
        target_bus: u8,
        function: u8,
        offset: u16,
        before: u32,
    ) -> CfgRead<Self::Model>;

    /// The device after a config write, and the result.
    spec fn write_routed(
        m: Self::Model,
        secondary_bus: u8,
        target_bus: u8,
        function: u8,
        offset: u16,
        value: u32,
    ) -> (Self::Model, Option<IoResult>);

    /// The device after an error was recorded at a function, and whether it
    /// was.
    spec fn aer_routed(
        m: Self::Model,
        secondary_bus: u8,
        target_bus: u8,
        function: u8,
        injection: AerInjection,
    ) -> (Self::Model, bool);

    /// The device after a port of it was to contain an error of a function, and
    /// whether one did.
    spec fn dpc_routed(
        m: Self::Model,
        secondary_bus: u8,
        target_bus: u8,
        function: u8,
        action: PcieDpcRoutingAction,
    ) -> (Self::Model, bool);

    /// Reads config space of a function of the device, or behind it.
    fn pci_cfg_read_with_routing(
        &mut self,
        secondary_bus: u8,
        target_bus: u8,
        function: u8,
        offset: u16,
        value: &mut u32,
    ) -> (r: Option<IoResult>)
        ensures
            (CfgRead { model: final(self).model(), result: r, value: *final(value) })
                == Self::read_routed(
                old(self).model(),
                secondary_bus,
                target_bus,
                function,
                offset,
                *old(value),
            ),
    ;

    /// Writes config space of a function of the device, or behind it.
    fn pci_cfg_write_with_routing(
        &mut self,
        secondary_bus: u8,
        target_bus: u8,
        function: u8,
        offset: u16,
        value: u32,
    ) -> (r: Option<IoResult>)
        ensures
            (final(self).model(), r) == Self::write_routed(
                old(self).model(),
                secondary_bus,
                target_bus,
                function,
                offset,
                value,
            ),
    ;

    /// Records an error at a function of the device, or behind it.
    fn pci_inject_aer_with_routing(
        &mut self,
        secondary_bus: u8,
        target_bus: u8,
        function: u8,
        injection: AerInjection,
    ) -> (r: bool)
        ensures
            (final(self).model(), r) == Self::aer_routed(
                old(self).model(),
                secondary_bus,
                target_bus,
                function,
                injection,
            ),
    ;

    /// Contains an error of a function at a port of the device that is
    /// upstream of it.
    fn pci_inject_dpc_with_routing(
        &mut self,
        secondary_bus: u8,
        target_bus: u8,
        function: u8,
        action: PcieDpcRoutingAction,
    ) -> (r: bool)
        ensures
            (final(self).model(), r) == Self::dpc_routed(
                old(self).model(),
                secondary_bus,
                target_bus,
                function,
                action,
            ),
    ;
}

}
