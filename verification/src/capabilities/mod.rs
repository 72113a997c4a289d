//! PCI capabilities.
use crate::save_restore::RestoreError;
use vstd::prelude::*;

pub mod acs;
pub mod aer;
pub mod dpc;
pub mod dvsec;
pub mod kinds;
pub mod msi;
pub mod pci_express;
pub mod read_only;
pub mod readback;
pub mod sriov;

verus! {

/// A PCI Express function or port type.
#[derive(Debug, Clone, Copy, PartialEq, Eq, Structural)]
pub enum DevicePortType {
    /// Endpoint.
    Endpoint,
    /// Root port.
    RootPort,
    /// Upstream switch port.
    UpstreamSwitchPort,
    /// Downstream switch port.
    DownstreamSwitchPort,
}

/// A PCI capability structure in config space.
pub trait PciCapability: Sized {
    /// The state that is saved.
    type Saved;

    /// The label.
    spec fn label_text(&self) -> Seq<char>;

    /// The capability identifier.
    spec fn cap_id(&self) -> u8;

    /// The length in bytes.
    spec fn cap_len(&self) -> int;

    /// What a read at an offset gives.
    spec fn value(&self, offset: u16) -> u32;

    /// The capability after a write.
    spec fn written(&self, offset: u16, val: u32) -> Self;

    /// The capability after a reset.
    spec fn after_reset(&self) -> Self;

    /// Whether a state is what is saved of the capability.
    spec fn saves_as(&self, state: Self::Saved) -> bool;

    /// Why a state cannot be restored.
    spec fn restore_error(&self, state: Self::Saved) -> Option<RestoreError>;

    /// The capability after the restore of a state.
    spec fn restored(&self, state: Self::Saved) -> Self;

    /// Returns a descriptive label.
    fn label(&self) -> (r: &'static str)
        ensures
            r@ == self.label_text(),
    ;

    /// Returns the capability identifier.
    fn capability_id(&self) -> (r: u8)
        ensures
            r == self.cap_id(),
    ;

    /// Returns the length of the structure, which fits in config space.
    fn len(&self) -> (r: usize)
        ensures
            r == self.cap_len(),
            r <= 0x1000,
    ;

    /// Reads the dword at an offset.
    fn read_u32(&self, offset: u16) -> (r: u32)
        ensures
            r == self.value(offset),
    ;

    /// Writes the dword at an offset.
    fn write_u32(&mut self, offset: u16, val: u32)
        ensures
            *final(self) == old(self).written(offset, val),
    ;

    /// Resets the capability.
    fn reset(&mut self)
        ensures
            *final(self) == old(self).after_reset(),
    ;

    /// Saves the state.
    fn save_state(&self) -> (r: Self::Saved)
        ensures
            self.saves_as(r),
    ;

    /// Restores a state.
    fn restore_state(&mut self, state: Self::Saved) -> (r: Result<(), RestoreError>)
        ensures
            *final(self) == old(self).restored(state),
            r == restore_result(old(self).restore_error(state)),
    ;
}

/// A PCIe extended capability structure in config space.
pub trait PciExtendedCapability: Sized {
    /// The state that is saved.
    type Saved;

    /// The label.
    spec fn label_text(&self) -> Seq<char>;

    /// The extended capability identifier.
    spec fn ext_id(&self) -> u16;

    /// The version of the structure.
    spec fn ext_version(&self) -> u8;

    /// The length in bytes.
    spec fn ext_len(&self) -> int;

    /// What a read at an offset gives.
    spec fn value(&self, offset: u16) -> u32;

    /// The capability after a write.
    spec fn written(&self, offset: u16, val: u32) -> Self;

    /// The capability after a reset.
    spec fn after_reset(&self) -> Self;

    /// Whether a state is what is saved of the capability.
    spec fn saves_as(&self, state: Self::Saved) -> bool;

    /// Why a state cannot be restored.
    spec fn restore_error(&self, state: Self::Saved) -> Option<RestoreError>;

    /// The capability after the restore of a state.
    spec fn restored(&self, state: Self::Saved) -> Self;

    /// Returns a descriptive label.
    fn label(&self) -> (r: &'static str)
        ensures
            r@ == self.label_text(),
    ;

    /// Returns the extended capability identifier.
    fn extended_capability_id(&self) -> (r: u16)
        ensures
            r == self.ext_id(),
    ;

    /// Returns the version of the structure.
    fn capability_version(&self) -> (r: u8)
        ensures
            r == self.ext_version(),
    ;

    /// Returns the length of the structure, a multiple of four that is not
    /// zero.
    fn len(&self) -> (r: usize)
        ensures
            r == self.ext_len(),
            0 < r <= 0x1000,
            r % 4 == 0,
    ;

    /// Reads the dword at an offset.
    fn read_u32(&self, offset: u16) -> (r: u32)
        ensures
            r == self.value(offset),
    ;

    /// Writes the dword at an offset.
    fn write_u32(&mut self, offset: u16, val: u32)
        ensures
            *final(self) == old(self).written(offset, val),
    ;

    /// Resets the capability.
    fn reset(&mut self)
        ensures
            *final(self) == old(self).after_reset(),
    ;

    /// Saves the state.
    fn save_state(&self) -> (r: Self::Saved)
        ensures
            self.saves_as(r),
    ;

    /// Restores a state.
    fn restore_state(&mut self, state: Self::Saved) -> (r: Result<(), RestoreError>)
        ensures
            *final(self) == old(self).restored(state),
            r == restore_result(old(self).restore_error(state)),
    ;
}

/// The result of a restore that fails for the given reason.
pub open spec fn restore_result(error: Option<RestoreError>) -> Result<(), RestoreError> {
    match error {
        Some(e) => Err(e),
        None => Ok(()),
    }
}

/// The header of an extended capability: identifier and version. The pointer to
/// the next capability is added where capabilities are put in order.
pub open spec fn ext_header(id: u16, version: u8) -> u32 {
    (id as u32) | ((version as u32) << 16u32)
}

/// Whether a capability's own header holds its identifier and version, and no
/// pointer.
pub open spec fn header_contract<E: PciExtendedCapability>(cap: E) -> bool {
    &&& cap.value(0) & 0x000f_ffff == ext_header(cap.ext_id(), cap.ext_version())
    &&& cap.value(0) & 0xfff0_0000 == 0
}

/// Returns whether a capability's own header holds its identifier and version,
/// and no pointer.
pub fn assert_extended_header_contract<E: PciExtendedCapability>(cap: &E) -> (ok: bool)
    ensures
        ok == header_contract(*cap),
{
    let value: u32 = cap.read_u32(0);
    let expected: u32 = (cap.extended_capability_id() as u32) | ((cap.capability_version() as u32)
        << 16u32);
    value & 0x000f_ffff == expected && value & 0xfff0_0000 == 0
}

}
