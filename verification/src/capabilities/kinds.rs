//! The kinds of capabilities that ports and switches have.
use crate::capabilities::acs::AcsExtendedCapability;
use crate::capabilities::aer::AerExtendedCapability;
use crate::capabilities::dpc::DpcExtendedCapability;
use crate::capabilities::dvsec::DvsecExtendedCapability;
use crate::capabilities::ext_header;
use crate::capabilities::header_contract;
use crate::capabilities::msi::MsiCapability;
use crate::capabilities::pci_express::FlrRequest;
use crate::capabilities::pci_express::PciExpressCapability;
use crate::capabilities::read_only::ReadOnlyCapability;
use crate::capabilities::sriov::SriovExtendedCapability;
use crate::capabilities::PciCapability;
use crate::capabilities::PciExtendedCapability;
use crate::save_restore::RestoreError;
use vstd::prelude::*;

verus! {

/// A capability.
#[derive(Debug, Clone, Copy)]
pub enum Capability {
    /// PCI Express.
    PciExpress(PciExpressCapability<FlrRequest>),
    /// MSI.
    Msi(MsiCapability),
    /// A capability that cannot be written.
    ReadOnly(ReadOnlyCapability),
}

/// The saved state of a capability.
#[derive(Debug)]
pub enum CapabilityState {
    /// PCI Express.
    PciExpress(<PciExpressCapability<FlrRequest> as PciCapability>::Saved),
    /// MSI.
    Msi(<MsiCapability as PciCapability>::Saved),
    /// A capability that cannot be written.
    ReadOnly(<ReadOnlyCapability as PciCapability>::Saved),
}

impl PciCapability for Capability {
    type Saved = CapabilityState;

    open spec fn label_text(&self) -> Seq<char> {
        match *self {
            Capability::PciExpress(c) => c.label_text(),
            Capability::Msi(c) => c.label_text(),
            Capability::ReadOnly(c) => c.label_text(),
        }
    }

    open spec fn cap_id(&self) -> u8 {
        match *self {
            Capability::PciExpress(c) => c.cap_id(),
            Capability::Msi(c) => c.cap_id(),
            Capability::ReadOnly(c) => c.cap_id(),
        }
    }

    open spec fn cap_len(&self) -> int {
        match *self {
            Capability::PciExpress(c) => c.cap_len(),
            Capability::Msi(c) => c.cap_len(),
            Capability::ReadOnly(c) => c.cap_len(),
        }
    }

    open spec fn value(&self, offset: u16) -> u32 {
        match *self {
            Capability::PciExpress(c) => c.value(offset),
            Capability::Msi(c) => c.value(offset),
            Capability::ReadOnly(c) => c.value(offset),
        }
    }

    open spec fn written(&self, offset: u16, val: u32) -> Self {
        match *self {
            Capability::PciExpress(c) => Capability::PciExpress(c.written(offset, val)),
            Capability::Msi(c) => Capability::Msi(c.written(offset, val)),
            Capability::ReadOnly(c) => Capability::ReadOnly(c.written(offset, val)),
        }
    }

    open spec fn after_reset(&self) -> Self {
        match *self {
            Capability::PciExpress(c) => Capability::PciExpress(c.after_reset()),
            Capability::Msi(c) => Capability::Msi(c.after_reset()),
            Capability::ReadOnly(c) => Capability::ReadOnly(c.after_reset()),
        }
    }

    open spec fn saves_as(&self, state: CapabilityState) -> bool {
        match (*self, state) {
            (Capability::PciExpress(c), CapabilityState::PciExpress(s)) => c.saves_as(s),
            (Capability::Msi(c), CapabilityState::Msi(s)) => c.saves_as(s),
            (Capability::ReadOnly(c), CapabilityState::ReadOnly(s)) => c.saves_as(s),
            _ => false,
        }
    }

    open spec fn restore_error(&self, state: CapabilityState) -> Option<RestoreError> {
        match (*self, state) {
            (Capability::PciExpress(c), CapabilityState::PciExpress(s)) => c.restore_error(s),
            (Capability::Msi(c), CapabilityState::Msi(s)) => c.restore_error(s),
            (Capability::ReadOnly(c), CapabilityState::ReadOnly(s)) => c.restore_error(s),
            _ => Some(RestoreError::WrongCapabilityKind),
        }
    }

    open spec fn restored(&self, state: CapabilityState) -> Self {
        match (*self, state) {
            (Capability::PciExpress(c), CapabilityState::PciExpress(s)) => Capability::PciExpress(
                c.restored(s),
            ),
            (Capability::Msi(c), CapabilityState::Msi(s)) => Capability::Msi(c.restored(s)),
            (Capability::ReadOnly(c), CapabilityState::ReadOnly(s)) => Capability::ReadOnly(
                c.restored(s),
            ),
            _ => *self,
        }
    }

    fn label(&self) -> (r: &'static str) {
        match self {
            Capability::PciExpress(c) => c.label(),
            Capability::Msi(c) => c.label(),
            Capability::ReadOnly(c) => c.label(),
        }
    }

    fn capability_id(&self) -> (r: u8) {
        match self {
            Capability::PciExpress(c) => c.capability_id(),
            Capability::Msi(c) => c.capability_id(),
            Capability::ReadOnly(c) => c.capability_id(),
        }
    }

    fn len(&self) -> (r: usize) {
        match self {
            Capability::PciExpress(c) => c.len(),
            Capability::Msi(c) => c.len(),
            Capability::ReadOnly(c) => c.len(),
        }
    }

    fn read_u32(&self, offset: u16) -> (r: u32) {
        match self {
            Capability::PciExpress(c) => c.read_u32(offset),
            Capability::Msi(c) => c.read_u32(offset),
            Capability::ReadOnly(c) => c.read_u32(offset),
        }
    }

    fn write_u32(&mut self, offset: u16, val: u32) {
        match self {
            Capability::PciExpress(c) => c.write_u32(offset, val),
            Capability::Msi(c) => c.write_u32(offset, val),
            Capability::ReadOnly(c) => c.write_u32(offset, val),
        }
    }

    fn reset(&mut self) {
        match self {
            Capability::PciExpress(c) => c.reset(),
            Capability::Msi(c) => c.reset(),
            Capability::ReadOnly(c) => c.reset(),
        }
    }

    fn save_state(&self) -> (r: CapabilityState) {
        match self {
            Capability::PciExpress(c) => CapabilityState::PciExpress(c.save_state()),
            Capability::Msi(c) => CapabilityState::Msi(c.save_state()),
            Capability::ReadOnly(c) => CapabilityState::ReadOnly(c.save_state()),
        }
    }

    fn restore_state(&mut self, state: CapabilityState) -> (r: Result<(), RestoreError>) {
        match (self, state) {
            (Capability::PciExpress(c), CapabilityState::PciExpress(s)) => c.restore_state(s),
            (Capability::Msi(c), CapabilityState::Msi(s)) => c.restore_state(s),
            (Capability::ReadOnly(c), CapabilityState::ReadOnly(s)) => c.restore_state(s),
            _ => Err(RestoreError::WrongCapabilityKind),
        }
    }
}

/// An extended capability.
#[derive(Debug)]
pub enum ExtendedCapability {
    /// Access control services.
    Acs(AcsExtendedCapability),
    /// Advanced error reporting.
    Aer(AerExtendedCapability),
    /// Downstream port containment.
    Dpc(DpcExtendedCapability),
    /// Single root I/O virtualization.
    Sriov(SriovExtendedCapability),
    /// Designated vendor-specific registers.
    Dvsec(DvsecExtendedCapability),
}

/// The saved state of an extended capability.
#[derive(Debug)]
pub enum ExtendedCapabilityState {
    /// Access control services.
    Acs(<AcsExtendedCapability as PciExtendedCapability>::Saved),
    /// Advanced error reporting.
    Aer(<AerExtendedCapability as PciExtendedCapability>::Saved),
    /// Downstream port containment.
    Dpc(<DpcExtendedCapability as PciExtendedCapability>::Saved),
    /// Single root I/O virtualization.
    Sriov(<SriovExtendedCapability as PciExtendedCapability>::Saved),
    /// Designated vendor-specific registers.
    Dvsec(<DvsecExtendedCapability as PciExtendedCapability>::Saved),
}

impl PciExtendedCapability for ExtendedCapability {
    type Saved = ExtendedCapabilityState;

    open spec fn label_text(&self) -> Seq<char> {
        match *self {
            ExtendedCapability::Acs(c) => c.label_text(),
            ExtendedCapability::Aer(c) => c.label_text(),
            ExtendedCapability::Dpc(c) => c.label_text(),
            ExtendedCapability::Sriov(c) => c.label_text(),
            ExtendedCapability::Dvsec(c) => c.label_text(),
        }
    }

    open spec fn ext_id(&self) -> u16 {
        match *self {
            ExtendedCapability::Acs(c) => c.ext_id(),
            ExtendedCapability::Aer(c) => c.ext_id(),
            ExtendedCapability::Dpc(c) => c.ext_id(),
            ExtendedCapability::Sriov(c) => c.ext_id(),
            ExtendedCapability::Dvsec(c) => c.ext_id(),
        }
    }

    open spec fn ext_version(&self) -> u8 {
        match *self {
            ExtendedCapability::Acs(c) => c.ext_version(),
            ExtendedCapability::Aer(c) => c.ext_version(),
            ExtendedCapability::Dpc(c) => c.ext_version(),
            ExtendedCapability::Sriov(c) => c.ext_version(),
            ExtendedCapability::Dvsec(c) => c.ext_version(),
        }
    }

    open spec fn ext_len(&self) -> int {
        match *self {
            ExtendedCapability::Acs(c) => c.ext_len(),
            ExtendedCapability::Aer(c) => c.ext_len(),
            ExtendedCapability::Dpc(c) => c.ext_len(),
            ExtendedCapability::Sriov(c) => c.ext_len(),
            ExtendedCapability::Dvsec(c) => c.ext_len(),
        }
    }

    open spec fn value(&self, offset: u16) -> u32 {
        match *self {
            ExtendedCapability::Acs(c) => c.value(offset),
            ExtendedCapability::Aer(c) => c.value(offset),
            ExtendedCapability::Dpc(c) => c.value(offset),
            ExtendedCapability::Sriov(c) => c.value(offset),
            ExtendedCapability::Dvsec(c) => c.value(offset),
        }
    }

    open spec fn written(&self, offset: u16, val: u32) -> Self {
        match *self {
            ExtendedCapability::Acs(c) => ExtendedCapability::Acs(c.written(offset, val)),
            ExtendedCapability::Aer(c) => ExtendedCapability::Aer(c.written(offset, val)),
            ExtendedCapability::Dpc(c) => ExtendedCapability::Dpc(c.written(offset, val)),
            ExtendedCapability::Sriov(c) => ExtendedCapability::Sriov(c.written(offset, val)),
            ExtendedCapability::Dvsec(c) => ExtendedCapability::Dvsec(c.written(offset, val)),
        }
    }

    open spec fn after_reset(&self) -> Self {
        match *self {
            ExtendedCapability::Acs(c) => ExtendedCapability::Acs(c.after_reset()),
            ExtendedCapability::Aer(c) => ExtendedCapability::Aer(c.after_reset()),
            ExtendedCapability::Dpc(c) => ExtendedCapability::Dpc(c.after_reset()),
            ExtendedCapability::Sriov(c) => ExtendedCapability::Sriov(c.after_reset()),
            ExtendedCapability::Dvsec(c) => ExtendedCapability::Dvsec(c.after_reset()),
        }
    }

    open spec fn saves_as(&self, state: ExtendedCapabilityState) -> bool {
        match (*self, state) {
            (ExtendedCapability::Acs(c), ExtendedCapabilityState::Acs(s)) => c.saves_as(s),
            (ExtendedCapability::Aer(c), ExtendedCapabilityState::Aer(s)) => c.saves_as(s),
            (ExtendedCapability::Dpc(c), ExtendedCapabilityState::Dpc(s)) => c.saves_as(s),
            (ExtendedCapability::Sriov(c), ExtendedCapabilityState::Sriov(s)) => c.saves_as(s),
            (ExtendedCapability::Dvsec(c), ExtendedCapabilityState::Dvsec(s)) => c.saves_as(s),
            _ => false,
        }
    }

    open spec fn restore_error(&self, state: ExtendedCapabilityState) -> Option<RestoreError> {
        match (*self, state) {
            (ExtendedCapability::Acs(c), ExtendedCapabilityState::Acs(s)) => c.restore_error(s),
            (ExtendedCapability::Aer(c), ExtendedCapabilityState::Aer(s)) => c.restore_error(s),
            (ExtendedCapability::Dpc(c), ExtendedCapabilityState::Dpc(s)) => c.restore_error(s),
            (ExtendedCapability::Sriov(c), ExtendedCapabilityState::Sriov(s)) => c.restore_error(s),
            (ExtendedCapability::Dvsec(c), ExtendedCapabilityState::Dvsec(s)) => c.restore_error(s),
            _ => Some(RestoreError::WrongCapabilityKind),
        }
    }

    open spec fn restored(&self, state: ExtendedCapabilityState) -> Self {
        match (*self, state) {
            (ExtendedCapability::Acs(c), ExtendedCapabilityState::Acs(s)) => ExtendedCapability::Acs(
                c.restored(s),
            ),
            (ExtendedCapability::Aer(c), ExtendedCapabilityState::Aer(s)) => ExtendedCapability::Aer(
                c.restored(s),
            ),
            (ExtendedCapability::Dpc(c), ExtendedCapabilityState::Dpc(s)) => ExtendedCapability::Dpc(
                c.restored(s),
            ),
            (ExtendedCapability::Sriov(c), ExtendedCapabilityState::Sriov(s)) => ExtendedCapability::Sriov(
                c.restored(s),
            ),
            (ExtendedCapability::Dvsec(c), ExtendedCapabilityState::Dvsec(s)) => ExtendedCapability::Dvsec(
                c.restored(s),
            ),
            _ => *self,
        }
    }

    fn label(&self) -> (r: &'static str) {
        match self {
            ExtendedCapability::Acs(c) => c.label(),
            ExtendedCapability::Aer(c) => c.label(),
            ExtendedCapability::Dpc(c) => c.label(),
            ExtendedCapability::Sriov(c) => c.label(),
            ExtendedCapability::Dvsec(c) => c.label(),
        }
    }

    fn extended_capability_id(&self) -> (r: u16) {
        match self {
            ExtendedCapability::Acs(c) => c.extended_capability_id(),
            ExtendedCapability::Aer(c) => c.extended_capability_id(),
            ExtendedCapability::Dpc(c) => c.extended_capability_id(),
            ExtendedCapability::Sriov(c) => c.extended_capability_id(),
            ExtendedCapability::Dvsec(c) => c.extended_capability_id(),
        }
    }

    fn capability_version(&self) -> (r: u8) {
        match self {
            ExtendedCapability::Acs(c) => c.capability_version(),
            ExtendedCapability::Aer(c) => c.capability_version(),
            ExtendedCapability::Dpc(c) => c.capability_version(),
            ExtendedCapability::Sriov(c) => c.capability_version(),
            ExtendedCapability::Dvsec(c) => c.capability_version(),
        }
    }

    fn len(&self) -> (r: usize) {
        match self {
            ExtendedCapability::Acs(c) => c.len(),
            ExtendedCapability::Aer(c) => c.len(),
            ExtendedCapability::Dpc(c) => c.len(),
            ExtendedCapability::Sriov(c) => c.len(),
            ExtendedCapability::Dvsec(c) => c.len(),
        }
    }

    fn read_u32(&self, offset: u16) -> (r: u32) {
        match self {
            ExtendedCapability::Acs(c) => c.read_u32(offset),
            ExtendedCapability::Aer(c) => c.read_u32(offset),
            ExtendedCapability::Dpc(c) => c.read_u32(offset),
            ExtendedCapability::Sriov(c) => c.read_u32(offset),
            ExtendedCapability::Dvsec(c) => c.read_u32(offset),
        }
    }

    fn write_u32(&mut self, offset: u16, val: u32) {
        match self {
            ExtendedCapability::Acs(c) => c.write_u32(offset, val),
            ExtendedCapability::Aer(c) => c.write_u32(offset, val),
            ExtendedCapability::Dpc(c) => c.write_u32(offset, val),
            ExtendedCapability::Sriov(c) => c.write_u32(offset, val),
            ExtendedCapability::Dvsec(c) => c.write_u32(offset, val),
        }
    }

    fn reset(&mut self) {
        match self {
            ExtendedCapability::Acs(c) => c.reset(),
            ExtendedCapability::Aer(c) => c.reset(),
            ExtendedCapability::Dpc(c) => c.reset(),
            ExtendedCapability::Sriov(c) => c.reset(),
            ExtendedCapability::Dvsec(c) => c.reset(),
        }
    }

    fn save_state(&self) -> (r: ExtendedCapabilityState) {
        match self {
            ExtendedCapability::Acs(c) => ExtendedCapabilityState::Acs(c.save_state()),
            ExtendedCapability::Aer(c) => ExtendedCapabilityState::Aer(c.save_state()),
            ExtendedCapability::Dpc(c) => ExtendedCapabilityState::Dpc(c.save_state()),
            ExtendedCapability::Sriov(c) => ExtendedCapabilityState::Sriov(c.save_state()),
            ExtendedCapability::Dvsec(c) => ExtendedCapabilityState::Dvsec(c.save_state()),
        }
    }

    fn restore_state(&mut self, state: ExtendedCapabilityState) -> (r: Result<(), RestoreError>) {
        match (self, state) {
            (ExtendedCapability::Acs(c), ExtendedCapabilityState::Acs(s)) => c.restore_state(s),
            (ExtendedCapability::Aer(c), ExtendedCapabilityState::Aer(s)) => c.restore_state(s),
            (ExtendedCapability::Dpc(c), ExtendedCapabilityState::Dpc(s)) => c.restore_state(s),
            (ExtendedCapability::Sriov(c), ExtendedCapabilityState::Sriov(s)) => c.restore_state(s),
            (ExtendedCapability::Dvsec(c), ExtendedCapabilityState::Dvsec(s)) => c.restore_state(s),
            _ => Err(RestoreError::WrongCapabilityKind),
        }
    }
}

/// The header of every extended capability holds its identifier and version, and
/// leaves the pointer to the next one zero.
pub proof fn law_extended_headers(cap: ExtendedCapability)
    ensures
        header_contract(cap),
{
    let id = cap.ext_id();
    let version = cap.ext_version();
    let header = ext_header(id, version);
    assert(header & 0x000f_ffff == header && header & 0xfff0_0000 == 0) by (bit_vector)
        requires
            version <= 0xF,
            header == (id as u32) | ((version as u32) << 16u32),
    ;
}

}
