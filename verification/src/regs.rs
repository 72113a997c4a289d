//! Register offsets, capability identifiers and field masks of PCI config
//! space.
use vstd::prelude::*;

verus! {

/// Device and vendor identifiers.
pub const DEVICE_VENDOR: u16 = 0x00;
/// Status (high half) and command (low half).
pub const STATUS_COMMAND: u16 = 0x04;
/// Class code and revision.
pub const CLASS_REVISION: u16 = 0x08;
/// BIST, header type, latency timer and cache line size.
pub const BIST_HEADER: u16 = 0x0C;
/// First base address register.
pub const BAR0: u16 = 0x10;
/// Pointer to the first capability.
pub const CAP_PTR: u16 = 0x34;

/// Type 0: CardBus CIS pointer.
pub const TYPE0_CARDBUS_CIS_PTR: u16 = 0x28;
/// Type 0: subsystem identifiers.
pub const TYPE0_SUBSYSTEM_ID: u16 = 0x2C;
/// Type 0: expansion ROM base.
pub const TYPE0_EXPANSION_ROM_BASE: u16 = 0x30;
/// Type 0: reserved.
pub const TYPE0_RESERVED: u16 = 0x38;
/// Type 0: latency and interrupt.
pub const TYPE0_LATENCY_INTERRUPT: u16 = 0x3C;

/// Type 1: latency timer and bus numbers.
pub const TYPE1_LATENCY_BUS_NUMBERS: u16 = 0x18;
/// Type 1: secondary status and I/O window.
pub const TYPE1_SEC_STATUS_IO_RANGE: u16 = 0x1C;
/// Type 1: memory window.
pub const TYPE1_MEMORY_RANGE: u16 = 0x20;
/// Type 1: prefetchable memory window.
pub const TYPE1_PREFETCH_RANGE: u16 = 0x24;
/// Type 1: upper half of the prefetchable base.
pub const TYPE1_PREFETCH_BASE_UPPER: u16 = 0x28;
/// Type 1: upper half of the prefetchable limit.
pub const TYPE1_PREFETCH_LIMIT_UPPER: u16 = 0x2C;
/// Type 1: upper halves of the I/O window.
pub const TYPE1_IO_RANGE_UPPER: u16 = 0x30;
/// Type 1: expansion ROM base.
pub const TYPE1_EXPANSION_ROM_BASE: u16 = 0x38;
/// Type 1: bridge control and interrupt.
pub const TYPE1_BRIDGE_CTRL_INTERRUPT: u16 = 0x3C;

/// Address bits of the 16-bit memory window registers.
pub const MEMORY_BASE_LIMIT_ADDRESS_MASK: u16 = 0xFFF0;

/// Where standard capabilities start.
pub const CAPABILITIES_START: u16 = 0x40;
/// Where extended capabilities start.
pub const EXT_CAP_START: u16 = 0x100;
/// Size of extended config space.
pub const CONFIG_SPACE_SIZE: u16 = 0x1000;

/// Status bit: a capabilities list is present.
pub const STATUS_CAPABILITIES_LIST: u16 = 0x0010;
/// Command bit: I/O decode is enabled.
pub const COMMAND_PIO_ENABLED: u16 = 0x0001;
/// Command bit: MMIO decode is enabled.
pub const COMMAND_MMIO_ENABLED: u16 = 0x0002;
/// Command bit: INTx is disabled.
pub const COMMAND_INTX_DISABLE: u16 = 0x0400;

/// Capability identifier: MSI.
pub const CAP_ID_MSI: u8 = 0x05;
/// Capability identifier: PCI Express.
pub const CAP_ID_PCI_EXPRESS: u8 = 0x10;

/// Extended capability identifier: advanced error reporting.
pub const EXT_CAP_ID_AER: u16 = 0x0001;
/// Extended capability identifier: access control services.
pub const EXT_CAP_ID_ACS: u16 = 0x000D;
/// Extended capability identifier: alternative routing identifiers.
pub const EXT_CAP_ID_ARI: u16 = 0x000E;
/// Extended capability identifier: single root I/O virtualization.
pub const EXT_CAP_ID_SRIOV: u16 = 0x0010;
/// Extended capability identifier: downstream port containment.
pub const EXT_CAP_ID_DPC: u16 = 0x001D;
/// Extended capability identifier: designated vendor-specific.
pub const EXT_CAP_ID_DVSEC: u16 = 0x0023;
/// Extended capability identifier: scalable I/O virtualization.
pub const EXT_CAP_ID_SIOV: u16 = 0x0038;

/// ARI: capability and control.
pub const ARI_CAPABILITY_CONTROL: u16 = 0x04;
/// ARI: shift of the next function number.
pub const ARI_NEXT_FUNCTION_SHIFT: u32 = 8;

/// PCI Express: device capabilities 2.
pub const PCIE_DEVICE_CAPS_2: u16 = 0x24;
/// PCI Express: device control 2 and status 2.
pub const PCIE_DEVICE_CTL_STS_2: u16 = 0x28;
/// Device capabilities 2: ARI forwarding is supported.
pub const DEVICE_CAPS_2_ARI_FORWARDING: u32 = 0x20;
/// Device control 2: ARI forwarding is enabled.
pub const DEVICE_CTL_2_ARI_FORWARDING: u16 = 0x20;

/// SR-IOV: capabilities.
pub const SRIOV_CAPS: u16 = 0x04;
/// SR-IOV: control and status.
pub const SRIOV_CONTROL_STATUS: u16 = 0x08;
/// SR-IOV: initial VFs and total VFs.
pub const SRIOV_INITIAL_TOTAL_VFS: u16 = 0x0C;
/// SR-IOV: number of VFs and function dependency link.
pub const SRIOV_NUM_VFS: u16 = 0x10;
/// SR-IOV: first VF offset and VF stride.
pub const SRIOV_VF_OFFSET_STRIDE: u16 = 0x14;
/// SR-IOV: VF device identifier.
pub const SRIOV_VF_DEVICE_ID: u16 = 0x18;
/// SR-IOV: supported page sizes.
pub const SRIOV_SUPPORTED_PAGE_SIZES: u16 = 0x1C;
/// SR-IOV: system page size.
pub const SRIOV_SYSTEM_PAGE_SIZE: u16 = 0x20;
/// SR-IOV: first VF BAR.
pub const SRIOV_VF_BAR0: u16 = 0x24;
/// SR-IOV: VF migration state array offset.
pub const SRIOV_VF_MIGRATION: u16 = 0x3C;
/// SR-IOV control: the hierarchy is ARI capable.
pub const SRIOV_CONTROL_ARI_CAPABLE_HIERARCHY: u16 = 0x0010;

/// BAR encoding: the BAR is in I/O space.
pub const BAR_ENCODING_PIO: u32 = 0x1;
/// BAR encoding: the BAR is 64 bits wide.
pub const BAR_ENCODING_64BIT: u32 = 0x4;
/// BAR encoding: the BAR is prefetchable.
pub const BAR_ENCODING_PREFETCHABLE: u32 = 0x8;
/// BAR encoding: all bits that are not part of the address.
pub const BAR_ENCODING_MASK: u32 = 0xF;

}
