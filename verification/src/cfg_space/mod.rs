//! Emulation of PCI config space.
use crate::io::IoError;
use vstd::prelude::*;

pub mod caps;
pub mod common;
pub mod intx;
pub mod readback;
pub mod restore;
pub mod type0;
pub mod type1;

verus! {

/// The identity of a function.
#[derive(Debug, Clone, Copy, PartialEq, Eq, Structural)]
pub struct HardwareIds {
    /// Vendor.
    pub vendor_id: u16,
    /// Device.
    pub device_id: u16,
    /// Revision.
    pub revision_id: u8,
    /// Programming interface.
    pub prog_if: u8,
    /// Subclass.
    pub sub_class: u8,
    /// Base class.
    pub base_class: u8,
    /// Subsystem vendor, in type 0 headers.
    pub type0_sub_vendor_id: u16,
    /// Subsystem, in type 0 headers.
    pub type0_sub_system_id: u16,
}

/// What the common part of config space makes of an access.
#[derive(Debug, Clone, Copy, PartialEq, Eq, Structural)]
pub enum CommonHeaderResult {
    /// The access is done.
    Handled,
    /// The register is not a common one.
    Unhandled,
    /// The access failed.
    Failed(IoError),
}

/// What a read of the common part gives.
pub enum CommonRead {
    /// A value.
    Value(u32),
    /// The register is not a common one.
    Unhandled,
    /// The read failed.
    Failed(IoError),
}

/// What is returned for a read of the common part.
pub open spec fn read_result(read: CommonRead) -> CommonHeaderResult {
    match read {
        CommonRead::Value(_) => CommonHeaderResult::Handled,
        CommonRead::Unhandled => CommonHeaderResult::Unhandled,
        CommonRead::Failed(e) => CommonHeaderResult::Failed(e),
    }
}

/// What is in the value after a read of the common part.
pub open spec fn read_value(read: CommonRead, before: u32) -> u32 {
    match read {
        CommonRead::Value(v) => v,
        _ => before,
    }
}

}
