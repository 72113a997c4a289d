//! PCIe Downstream Port Containment (DPC) extended capability.
use crate::capabilities::aer::empty_log;
use crate::capabilities::aer::LogDwords;
use crate::capabilities::ext_header;
use crate::capabilities::DevicePortType;
use crate::capabilities::PciExtendedCapability;
use crate::io::all_bytes;
use crate::io::law_all_bytes;
use crate::io::merged;
use crate::io::merged_high;
use crate::io::merged_low;
use crate::io::ByteEnabledDwordWrite;
use crate::regs::EXT_CAP_ID_DPC;
use crate::save_restore::RestoreError;
use vstd::prelude::*;

verus! {

/// Offset of the header.
pub const DPC_HEADER: u16 = 0x00;
/// Offset of the capability and control registers.
pub const DPC_CAPABILITY_CONTROL: u16 = 0x04;
/// Offset of the status and error source registers.
pub const DPC_STATUS_SOURCE_ID: u16 = 0x08;
/// Offset of the RP PIO status.
pub const DPC_RP_PIO_STATUS: u16 = 0x0C;
/// Offset of the RP PIO mask.
pub const DPC_RP_PIO_MASK: u16 = 0x10;
/// Offset of the RP PIO severity.
pub const DPC_RP_PIO_SEVERITY: u16 = 0x14;
/// Offset of the RP PIO system error register.
pub const DPC_RP_PIO_SYSERROR: u16 = 0x18;
/// Offset of the RP PIO exception register.
pub const DPC_RP_PIO_EXCEPTION: u16 = 0x1C;
/// Offset of the first RP PIO header log register.
pub const DPC_RP_PIO_HEADER_LOG_0: u16 = 0x20;
/// Offset of the second RP PIO header log register.
pub const DPC_RP_PIO_HEADER_LOG_1: u16 = 0x24;
/// Offset of the third RP PIO header log register.
pub const DPC_RP_PIO_HEADER_LOG_2: u16 = 0x28;
/// Offset of the fourth RP PIO header log register.
pub const DPC_RP_PIO_HEADER_LOG_3: u16 = 0x2C;
/// Offset of the RP PIO implementation-specific log.
pub const DPC_RP_PIO_IMPSPEC_LOG: u16 = 0x30;
/// Offset of the first RP PIO TLP prefix log register.
pub const DPC_RP_PIO_TLP_PREFIX_LOG_0: u16 = 0x34;
/// Offset of the second RP PIO TLP prefix log register.
pub const DPC_RP_PIO_TLP_PREFIX_LOG_1: u16 = 0x38;
/// Offset of the third RP PIO TLP prefix log register.
pub const DPC_RP_PIO_TLP_PREFIX_LOG_2: u16 = 0x3C;
/// Offset of the fourth RP PIO TLP prefix log register.
pub const DPC_RP_PIO_TLP_PREFIX_LOG_3: u16 = 0x40;

/// Capability: interrupt message number.
pub const DPC_CAPABILITY_INTERRUPT_MESSAGE_NUMBER: u16 = 0x001F;
/// Capability: RP extensions.
pub const DPC_CAPABILITY_RP_EXTENSIONS: u16 = 0x0020;
/// Capability: blocking of poisoned TLPs.
pub const DPC_CAPABILITY_POISONED_TLP_EGRESS_BLOCKING: u16 = 0x0040;
/// Capability: software triggering.
pub const DPC_CAPABILITY_SOFTWARE_TRIGGERING: u16 = 0x0080;
/// Capability: RP PIO log size.
pub const DPC_CAPABILITY_RP_PIO_LOG_SIZE: u16 = 0x0F00;
/// Capability: signaling of an active data link by ERR_COR.
pub const DPC_CAPABILITY_DL_ACTIVE_ERR_COR: u16 = 0x1000;

/// Control: trigger enable.
pub const DPC_CONTROL_TRIGGER_ENABLE: u16 = 0x0003;
/// Control: interrupt enable.
pub const DPC_CONTROL_INTERRUPT_ENABLE: u16 = 0x0008;
/// Control: blocking of poisoned TLPs.
pub const DPC_CONTROL_POISONED_TLP_EGRESS_BLOCKING_ENABLE_BIT: u16 = 0x0020;
/// Control: software trigger.
pub const DPC_CONTROL_SOFTWARE_TRIGGER_BIT: u16 = 0x0040;
/// Control: signaling of an active data link by ERR_COR.
pub const DPC_CONTROL_DL_ACTIVE_ERR_COR_ENABLE_BIT: u16 = 0x0080;
/// Control: bits that can be written if all features are there.
pub const DPC_CONTROL_RW_MASK_BASE: u16 = 0x00FF;

/// Status: containment is active.
pub const DPC_STATUS_TRIGGER: u16 = 0x0001;
/// Status: trigger reason.
pub const DPC_STATUS_TRIGGER_REASON: u16 = 0x0006;
/// Status: interrupt status.
pub const DPC_STATUS_INTERRUPT: u16 = 0x0008;
/// Status: the root port is busy.
pub const DPC_STATUS_RP_BUSY: u16 = 0x0010;
/// Status: trigger reason extension.
pub const DPC_STATUS_TRIGGER_REASON_EXTENSION: u16 = 0x0060;
/// Status: RP PIO first error pointer.
pub const DPC_STATUS_RP_PIO_FIRST_ERROR_POINTER: u16 = 0x1F00;
/// Status: bits that are cleared by writing ones.
pub const DPC_STATUS_RW1C_MASK: u16 = 0x2009;

/// Trigger reason: an unmasked uncorrectable error.
pub const DPC_TRIGGER_REASON_UNMASKED_UNCORRECTABLE: u16 = 0;
/// Trigger reason: see the extension.
pub const DPC_TRIGGER_REASON_EXTENSION: u16 = 3;
/// Trigger reason extension: software.
pub const DPC_TRIGGER_REASON_EXTENSION_SOFTWARE_TRIGGER: u16 = 1;

/// RP PIO bits that are defined.
pub const RP_PIO_VALID_MASK: u32 = 0x0007_0707;
/// First error pointer that points at no error.
pub const RP_PIO_FIRST_ERROR_POINTER_NONE: u16 = 0x1F;
/// Size of the RP PIO log in dwords.
pub const RP_PIO_LOG_SIZE_DW: u16 = 4;

/// What a DPC capability is made with.
#[derive(Debug, Clone, Copy)]
pub struct DpcCapabilityConfig {
    /// Interrupt message number.
    pub dpc_interrupt_message_number: Option<u8>,
    /// Whether poisoned TLPs can be blocked.
    pub poisoned_tlp_egress_blocking_supported: bool,
    /// Whether software can trigger containment.
    pub dpc_software_triggering_supported: bool,
    /// Whether an active data link can be signaled by ERR_COR.
    pub dl_active_err_cor_signaling_supported: bool,
}

/// The default configuration: software triggering only.
pub open spec fn default_dpc_config() -> DpcCapabilityConfig {
    DpcCapabilityConfig {
        dpc_interrupt_message_number: None,
        poisoned_tlp_egress_blocking_supported: false,
        dpc_software_triggering_supported: true,
        dl_active_err_cor_signaling_supported: false,
    }
}

impl Default for DpcCapabilityConfig {
    fn default() -> (r: Self)
        ensures
            r == default_dpc_config(),
    {
        DpcCapabilityConfig {
            dpc_interrupt_message_number: None,
            poisoned_tlp_egress_blocking_supported: false,
            dpc_software_triggering_supported: true,
            dl_active_err_cor_signaling_supported: false,
        }
    }
}

/// What a trigger comes to.
#[derive(Debug, Clone, Copy, PartialEq, Eq, Structural)]
pub struct DpcTriggerOutcome {
    /// Whether containment was entered by it.
    pub containment_entered: bool,
    /// Whether an interrupt is to be signaled.
    pub should_interrupt: bool,
}

/// PCIe Downstream Port Containment (DPC) extended capability emulator.
#[derive(Debug, Clone, Copy)]
pub struct DpcExtendedCapability {
    /// Capability register.
    pub capability: u16,
    /// Control register.
    pub control: u16,
    /// Status register.
    pub status: u16,
    /// Error source register.
    pub error_source_id: u16,
    /// RP PIO status.
    pub rp_pio_status: u32,
    /// RP PIO mask.
    pub rp_pio_mask: u32,
    /// RP PIO severity.
    pub rp_pio_severity: u32,
    /// RP PIO system errors.
    pub rp_pio_syserror: u32,
    /// RP PIO exceptions.
    pub rp_pio_exception: u32,
    /// RP PIO header log.
    pub rp_pio_header_log: LogDwords,
    /// RP PIO implementation-specific log.
    pub rp_pio_impspec_log: u32,
    /// RP PIO TLP prefix log.
    pub rp_pio_tlp_prefix_log: LogDwords,
}

/// Saved state.
#[derive(Debug, Clone, Copy)]
pub struct DpcSavedState {
    /// Control register.
    pub control: u16,
    /// Status register.
    pub status: u16,
    /// Error source register.
    pub error_source_id: u16,
}

/// A bit if the condition holds.
pub open spec fn flag(condition: bool, bit: u16) -> u16 {
    if condition {
        bit
    } else {
        0
    }
}

/// The capability register. RP extensions, the root port's part of DPC, are for
/// root ports only.
pub open spec fn dpc_capability_value(
    port_type: DevicePortType,
    config: DpcCapabilityConfig,
) -> u16 {
    let number = match config.dpc_interrupt_message_number {
        Some(n) => n,
        None => 0,
    };
    let rp = port_type == DevicePortType::RootPort;
    ((number & 0x1f) as u16) | flag(rp, DPC_CAPABILITY_RP_EXTENSIONS) | flag(
        config.poisoned_tlp_egress_blocking_supported,
        DPC_CAPABILITY_POISONED_TLP_EGRESS_BLOCKING,
    ) | flag(config.dpc_software_triggering_supported, DPC_CAPABILITY_SOFTWARE_TRIGGERING)
        | flag(config.dl_active_err_cor_signaling_supported, DPC_CAPABILITY_DL_ACTIVE_ERR_COR)
        | flag(rp, 0x0400)
}

/// Whether the port has RP extensions.
pub open spec fn has_rp_extensions(cap: DpcExtendedCapability) -> bool {
    cap.capability & DPC_CAPABILITY_RP_EXTENSIONS != 0
}

/// The status register with no error: the first error pointer points at none.
pub open spec fn idle_status(rp: bool) -> u16 {
    flag(rp, 0x1F00)
}

/// The capability with a given capability register, and everything else at its
/// default.
pub open spec fn dpc_idle(capability: u16) -> DpcExtendedCapability {
    let rp = capability & DPC_CAPABILITY_RP_EXTENSIONS != 0;
    DpcExtendedCapability {
        capability,
        control: 0,
        status: idle_status(rp),
        error_source_id: 0,
        rp_pio_status: 0,
        rp_pio_mask: if rp {
            RP_PIO_VALID_MASK
        } else {
            0
        },
        rp_pio_severity: 0,
        rp_pio_syserror: 0,
        rp_pio_exception: 0,
        rp_pio_header_log: empty_log(),
        rp_pio_impspec_log: 0,
        rp_pio_tlp_prefix_log: empty_log(),
    }
}

/// The capability after a trigger. Containment that is active keeps its reason
/// and source; an interrupt is noted if it is enabled.
pub open spec fn dpc_triggered(
    cap: DpcExtendedCapability,
    reason: u16,
    extension: u16,
    source_id: u16,
) -> DpcExtendedCapability {
    let contained = cap.status & DPC_STATUS_TRIGGER != 0;
    let status = if contained {
        cap.status
    } else {
        (cap.status & !DPC_STATUS_TRIGGER_REASON & !DPC_STATUS_TRIGGER_REASON_EXTENSION)
            | DPC_STATUS_TRIGGER | ((reason & 0x3) << 1u16) | ((extension & 0x3) << 5u16)
    };
    DpcExtendedCapability {
        status: status | flag(cap.control & DPC_CONTROL_INTERRUPT_ENABLE != 0, DPC_STATUS_INTERRUPT),
        error_source_id: if contained {
            cap.error_source_id
        } else {
            source_id
        },
        ..cap
    }
}

/// What a trigger comes to.
pub open spec fn trigger_outcome(cap: DpcExtendedCapability) -> DpcTriggerOutcome {
    DpcTriggerOutcome {
        containment_entered: cap.status & DPC_STATUS_TRIGGER == 0,
        should_interrupt: cap.control & DPC_CONTROL_INTERRUPT_ENABLE != 0,
    }
}

/// The capability after the trigger for an uncorrectable error.
pub open spec fn uncorrectable_triggered(
    cap: DpcExtendedCapability,
    source_id: u16,
) -> DpcExtendedCapability {
    dpc_triggered(cap, DPC_TRIGGER_REASON_UNMASKED_UNCORRECTABLE, 0, source_id)
}

/// The capability with the root port busy or not, where it can be.
pub open spec fn with_rp_busy(cap: DpcExtendedCapability, busy: bool) -> DpcExtendedCapability {
    if !has_rp_extensions(cap) {
        cap
    } else if busy {
        DpcExtendedCapability { status: cap.status | DPC_STATUS_RP_BUSY, ..cap }
    } else {
        DpcExtendedCapability { status: cap.status & !DPC_STATUS_RP_BUSY, ..cap }
    }
}

/// The control bits that can be written: those of features that are there.
pub open spec fn control_writable(capability: u16) -> u16 {
    let m0 = DPC_CONTROL_RW_MASK_BASE;
    let m1 = if capability & DPC_CAPABILITY_POISONED_TLP_EGRESS_BLOCKING == 0 {
        m0 & !DPC_CONTROL_POISONED_TLP_EGRESS_BLOCKING_ENABLE_BIT
    } else {
        m0
    };
    let m2 = if capability & DPC_CAPABILITY_SOFTWARE_TRIGGERING == 0 {
        m1 & !DPC_CONTROL_SOFTWARE_TRIGGER_BIT
    } else {
        m1
    };
    if capability & DPC_CAPABILITY_DL_ACTIVE_ERR_COR == 0 {
        m2 & !DPC_CONTROL_DL_ACTIVE_ERR_COR_ENABLE_BIT
    } else {
        m2
    }
}

/// The capability after a write of the control register. A one in the software
/// trigger bit triggers containment if triggers are enabled; the bit itself
/// reads as zero.
pub open spec fn control_written(
    cap: DpcExtendedCapability,
    w: ByteEnabledDwordWrite,
) -> DpcExtendedCapability {
    let value = merged_high(w, cap.control);
    let m = control_writable(cap.capability);
    let next = DpcExtendedCapability { control: (cap.control & !m) | (value & m), ..cap };
    let after = if cap.capability & DPC_CAPABILITY_SOFTWARE_TRIGGERING != 0 && value
        & DPC_CONTROL_SOFTWARE_TRIGGER_BIT != 0 && next.control & DPC_CONTROL_TRIGGER_ENABLE != 0 {
        dpc_triggered(
            next,
            DPC_TRIGGER_REASON_EXTENSION,
            DPC_TRIGGER_REASON_EXTENSION_SOFTWARE_TRIGGER,
            0,
        )
    } else {
        next
    };
    DpcExtendedCapability { control: after.control & !DPC_CONTROL_SOFTWARE_TRIGGER_BIT, ..after }
}

/// The capability after a write of some bytes. The status is cleared by writing ones;
/// the source of the error, beside it in one dword, is read-only, and a write to it
/// alone clears nothing.
pub open spec fn dpc_written(
    cap: DpcExtendedCapability,
    offset: u16,
    w: ByteEnabledDwordWrite,
) -> DpcExtendedCapability {
    let rp = has_rp_extensions(cap);
    if offset == DPC_CAPABILITY_CONTROL {
        control_written(cap, w)
    } else if offset == DPC_STATUS_SOURCE_ID {
        DpcExtendedCapability {
            status: cap.status & !(merged_low(w, 0) & DPC_STATUS_RW1C_MASK),
            ..cap
        }
    } else if offset == DPC_RP_PIO_STATUS && rp {
        DpcExtendedCapability {
            rp_pio_status: cap.rp_pio_status & !(merged(w, 0) & RP_PIO_VALID_MASK),
            ..cap
        }
    } else if offset == DPC_RP_PIO_MASK && rp {
        DpcExtendedCapability {
            rp_pio_mask: merged(w, cap.rp_pio_mask) & RP_PIO_VALID_MASK,
            ..cap
        }
    } else if offset == DPC_RP_PIO_SEVERITY && rp {
        DpcExtendedCapability {
            rp_pio_severity: merged(w, cap.rp_pio_severity) & RP_PIO_VALID_MASK,
            ..cap
        }
    } else if offset == DPC_RP_PIO_SYSERROR && rp {
        DpcExtendedCapability {
            rp_pio_syserror: merged(w, cap.rp_pio_syserror) & RP_PIO_VALID_MASK,
            ..cap
        }
    } else if offset == DPC_RP_PIO_EXCEPTION && rp {
        DpcExtendedCapability {
            rp_pio_exception: merged(w, cap.rp_pio_exception) & RP_PIO_VALID_MASK,
            ..cap
        }
    } else {
        cap
    }
}

impl DpcExtendedCapability {
    /// Creates a DPC capability with the default configuration.
    pub fn new(port_type: &DevicePortType) -> (r: Self)
        ensures
            r == dpc_idle(dpc_capability_value(*port_type, default_dpc_config())),
    {
        Self::with_config(port_type, DpcCapabilityConfig::default())
    }

    fn bit(condition: bool, bit: u16) -> (r: u16)
        ensures
            r == flag(condition, bit),
    {
        if condition {
            bit
        } else {
            0
        }
    }

    fn idle(capability: u16) -> (r: Self)
        ensures
            r == dpc_idle(capability),
    {
        let rp: bool = capability & DPC_CAPABILITY_RP_EXTENSIONS != 0;
        DpcExtendedCapability {
            capability,
            control: 0,
            status: Self::bit(rp, 0x1F00),
            error_source_id: 0,
            rp_pio_status: 0,
            rp_pio_mask: if rp {
                RP_PIO_VALID_MASK
            } else {
                0
            },
            rp_pio_severity: 0,
            rp_pio_syserror: 0,
            rp_pio_exception: 0,
            rp_pio_header_log: LogDwords::new(),
            rp_pio_impspec_log: 0,
            rp_pio_tlp_prefix_log: LogDwords::new(),
        }
    }

    /// Creates a DPC capability.
    pub fn with_config(port_type: &DevicePortType, config: DpcCapabilityConfig) -> (r: Self)
        ensures
            r == dpc_idle(dpc_capability_value(*port_type, config)),
    {
        let rp: bool = *port_type == DevicePortType::RootPort;
        let number: u8 = match config.dpc_interrupt_message_number {
            Some(n) => n,
            None => 0,
        };
        let capability: u16 = ((number & 0x1f) as u16) | Self::bit(rp, DPC_CAPABILITY_RP_EXTENSIONS)
            | Self::bit(
            config.poisoned_tlp_egress_blocking_supported,
            DPC_CAPABILITY_POISONED_TLP_EGRESS_BLOCKING,
        ) | Self::bit(config.dpc_software_triggering_supported, DPC_CAPABILITY_SOFTWARE_TRIGGERING)
            | Self::bit(
            config.dl_active_err_cor_signaling_supported,
            DPC_CAPABILITY_DL_ACTIVE_ERR_COR,
        ) | Self::bit(rp, 0x0400);
        Self::idle(capability)
    }

    /// Returns the interrupt message number.
    pub fn interrupt_message_number(&self) -> (r: u8)
        ensures
            r == (self.capability & DPC_CAPABILITY_INTERRUPT_MESSAGE_NUMBER) as u8,
    {
        (self.capability & DPC_CAPABILITY_INTERRUPT_MESSAGE_NUMBER) as u8
    }

    /// Returns whether the port has RP extensions.
    pub fn rp_extensions(&self) -> (r: bool)
        ensures
            r == has_rp_extensions(*self),
    {
        self.capability & DPC_CAPABILITY_RP_EXTENSIONS != 0
    }

    /// Returns whether containment is active.
    pub fn containment_active(&self) -> (r: bool)
        ensures
            r == (self.status & DPC_STATUS_TRIGGER != 0),
    {
        self.status & DPC_STATUS_TRIGGER != 0
    }

    /// Returns whether an interrupt is pending.
    pub fn interrupt_pending(&self) -> (r: bool)
        ensures
            r == (self.status & DPC_STATUS_INTERRUPT != 0),
    {
        self.status & DPC_STATUS_INTERRUPT != 0
    }

    /// Triggers containment for an uncorrectable error.
    pub fn trigger_from_uncorrectable(&mut self, source_id: u16) -> (r: DpcTriggerOutcome)
        ensures
            *final(self) == uncorrectable_triggered(*old(self), source_id),
            r == trigger_outcome(*old(self)),
    {
        self.trigger(DPC_TRIGGER_REASON_UNMASKED_UNCORRECTABLE, 0, source_id)
    }

    /// Triggers containment for an uncorrectable error, and leaves a root port
    /// busy until its recovery is done.
    pub fn trigger_from_uncorrectable_begin(&mut self, source_id: u16) -> (r: DpcTriggerOutcome)
        ensures
            *final(self) == with_rp_busy(uncorrectable_triggered(*old(self), source_id), true),
            r == trigger_outcome(*old(self)),
    {
        let outcome: DpcTriggerOutcome = self.trigger_from_uncorrectable(source_id);
        if self.rp_extensions() {
            self.status = self.status | DPC_STATUS_RP_BUSY;
        }
        outcome
    }

    /// Marks the recovery of a root port as done.
    pub fn clear_rp_busy(&mut self)
        ensures
            *final(self) == with_rp_busy(*old(self), false),
    {
        if self.rp_extensions() {
            self.status = self.status & !DPC_STATUS_RP_BUSY;
        }
    }

    /// Triggers containment.
    pub fn trigger(&mut self, reason: u16, reason_extension: u16, source_id: u16) -> (r:
        DpcTriggerOutcome)
        ensures
            *final(self) == dpc_triggered(*old(self), reason, reason_extension, source_id),
            r == trigger_outcome(*old(self)),
    {
        let was_contained: bool = self.containment_active();
        if !was_contained {
            self.status = (self.status & !DPC_STATUS_TRIGGER_REASON
                & !DPC_STATUS_TRIGGER_REASON_EXTENSION) | DPC_STATUS_TRIGGER | ((reason & 0x3)
                << 1u16) | ((reason_extension & 0x3) << 5u16);
            self.error_source_id = source_id;
        }
        let should_interrupt: bool = self.control & DPC_CONTROL_INTERRUPT_ENABLE != 0;
        self.status = self.status | Self::bit(should_interrupt, DPC_STATUS_INTERRUPT);
        DpcTriggerOutcome { containment_entered: !was_contained, should_interrupt }
    }

    /// Writes the control register.
    pub fn write_control(&mut self, val: ByteEnabledDwordWrite)
        ensures
            *final(self) == control_written(*old(self), val),
    {
        let mut m: u16 = DPC_CONTROL_RW_MASK_BASE;
        if self.capability & DPC_CAPABILITY_POISONED_TLP_EGRESS_BLOCKING == 0 {
            m = m & !DPC_CONTROL_POISONED_TLP_EGRESS_BLOCKING_ENABLE_BIT;
        }
        if self.capability & DPC_CAPABILITY_SOFTWARE_TRIGGERING == 0 {
            m = m & !DPC_CONTROL_SOFTWARE_TRIGGER_BIT;
        }
        if self.capability & DPC_CAPABILITY_DL_ACTIVE_ERR_COR == 0 {
            m = m & !DPC_CONTROL_DL_ACTIVE_ERR_COR_ENABLE_BIT;
        }
        let value: u16 = val.merge_high(self.control);
        self.control = (self.control & !m) | (value & m);
        if self.capability & DPC_CAPABILITY_SOFTWARE_TRIGGERING != 0 && value
            & DPC_CONTROL_SOFTWARE_TRIGGER_BIT != 0 && self.control & DPC_CONTROL_TRIGGER_ENABLE
            != 0 {
            let _ = self.trigger(
                DPC_TRIGGER_REASON_EXTENSION,
                DPC_TRIGGER_REASON_EXTENSION_SOFTWARE_TRIGGER,
                0,
            );
        }
        self.control = self.control & !DPC_CONTROL_SOFTWARE_TRIGGER_BIT;
    }

    /// Returns the status register in the lower half and the error source in
    /// the upper half.
    pub fn read_status_source_id(&self) -> (r: u32)
        ensures
            r == (self.status as u32) | ((self.error_source_id as u32) << 16u32),
    {
        (self.status as u32) | ((self.error_source_id as u32) << 16u32)
    }

    /// Writes some bytes of a register.
    pub fn write(&mut self, offset: u16, val: ByteEnabledDwordWrite)
        ensures
            *final(self) == dpc_written(*old(self), offset, val),
    {
        match offset {
            DPC_CAPABILITY_CONTROL => self.write_control(val),
            DPC_STATUS_SOURCE_ID => {
                let clear: u16 = val.merge_low(0) & DPC_STATUS_RW1C_MASK;
                self.status = self.status & !clear;
            },
            DPC_RP_PIO_STATUS => {
                if self.rp_extensions() {
                    self.rp_pio_status = self.rp_pio_status & !(val.merge(0) & RP_PIO_VALID_MASK);
                }
            },
            DPC_RP_PIO_MASK => {
                if self.rp_extensions() {
                    self.rp_pio_mask = val.merge(self.rp_pio_mask) & RP_PIO_VALID_MASK;
                }
            },
            DPC_RP_PIO_SEVERITY => {
                if self.rp_extensions() {
                    self.rp_pio_severity = val.merge(self.rp_pio_severity) & RP_PIO_VALID_MASK;
                }
            },
            DPC_RP_PIO_SYSERROR => {
                if self.rp_extensions() {
                    self.rp_pio_syserror = val.merge(self.rp_pio_syserror) & RP_PIO_VALID_MASK;
                }
            },
            DPC_RP_PIO_EXCEPTION => {
                if self.rp_extensions() {
                    self.rp_pio_exception = val.merge(self.rp_pio_exception) & RP_PIO_VALID_MASK;
                }
            },
            // All other registers are read-only.
            _ => {},
        }
    }

    /// Saves the state.
    pub fn save(&self) -> (r: DpcSavedState)
        ensures
            r == dpc_saved(*self),
    {
        DpcSavedState {
            control: self.control,
            status: self.status,
            error_source_id: self.error_source_id,
        }
    }

    /// Restores the state.
    pub fn restore(&mut self, state: DpcSavedState)
        ensures
            *final(self) == dpc_restored(*old(self), state),
    {
        self.control = state.control;
        self.status = state.status;
        self.error_source_id = state.error_source_id;
    }
}

/// What is saved.
pub open spec fn dpc_saved(cap: DpcExtendedCapability) -> DpcSavedState {
    DpcSavedState {
        control: cap.control,
        status: cap.status,
        error_source_id: cap.error_source_id,
    }
}

/// The capability after a restore.
pub open spec fn dpc_restored(
    cap: DpcExtendedCapability,
    state: DpcSavedState,
) -> DpcExtendedCapability {
    DpcExtendedCapability {
        control: state.control,
        status: state.status,
        error_source_id: state.error_source_id,
        ..cap
    }
}

impl PciExtendedCapability for DpcExtendedCapability {
    type Saved = DpcSavedState;

    open spec fn label_text(&self) -> Seq<char> {
        "dpc"@
    }

    open spec fn saves_as(&self, state: DpcSavedState) -> bool {
        state == dpc_saved(*self)
    }

    open spec fn restore_error(&self, state: DpcSavedState) -> Option<RestoreError> {
        None
    }

    open spec fn restored(&self, state: DpcSavedState) -> Self {
        dpc_restored(*self, state)
    }

    open spec fn ext_id(&self) -> u16 {
        EXT_CAP_ID_DPC
    }

    open spec fn ext_version(&self) -> u8 {
        1
    }

    open spec fn ext_len(&self) -> int {
        0x44
    }

    open spec fn value(&self, offset: u16) -> u32 {
        if offset == DPC_HEADER {
            ext_header(EXT_CAP_ID_DPC, 1)
        } else if offset == DPC_CAPABILITY_CONTROL {
            (((self.control & !DPC_CONTROL_SOFTWARE_TRIGGER_BIT) as u32) << 16u32)
                | self.capability as u32
        } else if offset == DPC_STATUS_SOURCE_ID {
            (self.status as u32) | ((self.error_source_id as u32) << 16u32)
        } else if offset == DPC_RP_PIO_STATUS {
            self.rp_pio_status
        } else if offset == DPC_RP_PIO_MASK {
            self.rp_pio_mask
        } else if offset == DPC_RP_PIO_SEVERITY {
            self.rp_pio_severity
        } else if offset == DPC_RP_PIO_SYSERROR {
            self.rp_pio_syserror
        } else if offset == DPC_RP_PIO_EXCEPTION {
            self.rp_pio_exception
        } else if offset == DPC_RP_PIO_HEADER_LOG_0 {
            self.rp_pio_header_log.d0
        } else if offset == DPC_RP_PIO_HEADER_LOG_1 {
            self.rp_pio_header_log.d1
        } else if offset == DPC_RP_PIO_HEADER_LOG_2 {
            self.rp_pio_header_log.d2
        } else if offset == DPC_RP_PIO_HEADER_LOG_3 {
            self.rp_pio_header_log.d3
        } else if offset == DPC_RP_PIO_IMPSPEC_LOG {
            self.rp_pio_impspec_log
        } else if offset == DPC_RP_PIO_TLP_PREFIX_LOG_0 {
            self.rp_pio_tlp_prefix_log.d0
        } else if offset == DPC_RP_PIO_TLP_PREFIX_LOG_1 {
            self.rp_pio_tlp_prefix_log.d1
        } else if offset == DPC_RP_PIO_TLP_PREFIX_LOG_2 {
            self.rp_pio_tlp_prefix_log.d2
        } else if offset == DPC_RP_PIO_TLP_PREFIX_LOG_3 {
            self.rp_pio_tlp_prefix_log.d3
        } else {
            0xFFFF_FFFF
        }
    }

    open spec fn written(&self, offset: u16, val: u32) -> Self {
        dpc_written(*self, offset, all_bytes(val))
    }

    open spec fn after_reset(&self) -> Self {
        dpc_idle(self.capability)
    }

    fn label(&self) -> (r: &'static str) {
        "dpc"
    }

    fn save_state(&self) -> (r: DpcSavedState) {
        self.save()
    }

    fn restore_state(&mut self, state: DpcSavedState) -> (r: Result<(), RestoreError>) {
        self.restore(state);
        Ok(())
    }

    fn extended_capability_id(&self) -> (r: u16) {
        EXT_CAP_ID_DPC
    }

    fn capability_version(&self) -> (r: u8) {
        1
    }

    fn len(&self) -> (r: usize) {
        0x44
    }

    fn read_u32(&self, offset: u16) -> (r: u32) {
        match offset {
            DPC_HEADER => (EXT_CAP_ID_DPC as u32) | ((1u8 as u32) << 16u32),
            DPC_CAPABILITY_CONTROL => (((self.control & !DPC_CONTROL_SOFTWARE_TRIGGER_BIT) as u32)
                << 16u32) | self.capability as u32,
            DPC_STATUS_SOURCE_ID => self.read_status_source_id(),
            DPC_RP_PIO_STATUS => self.rp_pio_status,
            DPC_RP_PIO_MASK => self.rp_pio_mask,
            DPC_RP_PIO_SEVERITY => self.rp_pio_severity,
            DPC_RP_PIO_SYSERROR => self.rp_pio_syserror,
            DPC_RP_PIO_EXCEPTION => self.rp_pio_exception,
            DPC_RP_PIO_HEADER_LOG_0 => self.rp_pio_header_log.d0,
            DPC_RP_PIO_HEADER_LOG_1 => self.rp_pio_header_log.d1,
            DPC_RP_PIO_HEADER_LOG_2 => self.rp_pio_header_log.d2,
            DPC_RP_PIO_HEADER_LOG_3 => self.rp_pio_header_log.d3,
            DPC_RP_PIO_IMPSPEC_LOG => self.rp_pio_impspec_log,
            DPC_RP_PIO_TLP_PREFIX_LOG_0 => self.rp_pio_tlp_prefix_log.d0,
            DPC_RP_PIO_TLP_PREFIX_LOG_1 => self.rp_pio_tlp_prefix_log.d1,
            DPC_RP_PIO_TLP_PREFIX_LOG_2 => self.rp_pio_tlp_prefix_log.d2,
            DPC_RP_PIO_TLP_PREFIX_LOG_3 => self.rp_pio_tlp_prefix_log.d3,
            _ => 0xFFFF_FFFF,
        }
    }

    fn write_u32(&mut self, offset: u16, val: u32) {
        self.write(offset, ByteEnabledDwordWrite::with_all_bytes_enabled(val));
    }

    fn reset(&mut self) {
        *self = Self::idle(self.capability);
    }
}

/// A trigger leaves containment active.
pub proof fn law_trigger_contains(
    cap: DpcExtendedCapability,
    reason: u16,
    extension: u16,
    source_id: u16,
)
    ensures
        dpc_triggered(cap, reason, extension, source_id).status & DPC_STATUS_TRIGGER != 0,
        cap.status & DPC_STATUS_TRIGGER != 0 ==> dpc_triggered(
            cap,
            reason,
            extension,
            source_id,
        ).error_source_id == cap.error_source_id,
        cap.status & DPC_STATUS_TRIGGER == 0 ==> dpc_triggered(
            cap,
            reason,
            extension,
            source_id,
        ).error_source_id == source_id,
{
    let s = cap.status;
    let a = (reason & 0x3) << 1u16;
    let b = (extension & 0x3) << 5u16;
    let i = flag(cap.control & DPC_CONTROL_INTERRUPT_ENABLE != 0, DPC_STATUS_INTERRUPT);
    assert((((s & !0x0006u16 & !0x0060u16) | 0x0001u16 | a | b) | i) & 0x0001u16 != 0 && (s
        & 0x0001u16 != 0 ==> (s | i) & 0x0001u16 != 0)) by (bit_vector);
}

/// Whether a one is written to the trigger status bit.
pub open spec fn trigger_cleared(offset: u16, w: ByteEnabledDwordWrite) -> bool {
    offset == DPC_STATUS_SOURCE_ID && w.byte0 && w.value & 1 != 0
}

/// The bit that a write merges into nothing is a one exactly if a one is
/// written.
proof fn lemma_one_written(w: ByteEnabledDwordWrite)
    ensures
        merged_low(w, 0) & DPC_STATUS_TRIGGER != 0 <==> w.byte0 && w.value & 1 != 0,
{
    let v = w.value;
    let a = if w.byte0 {
        0xFFu32
    } else {
        0
    };
    let b = if w.byte1 {
        0xFF00u32
    } else {
        0
    };
    let c = if w.byte2 {
        0xFF_0000u32
    } else {
        0
    };
    let d = if w.byte3 {
        0xFF00_0000u32
    } else {
        0
    };
    assert(((0u16 as u32 & !(a | b | c | d)) | (v & (a | b | c | d))) as u16 & 0x0001u16 != 0
        <==> a == 0xFF && v & 1 != 0) by (bit_vector)
        requires
            a == 0 || a == 0xFF,
            b == 0 || b == 0xFF00,
            c == 0 || c == 0xFF_0000,
            d == 0 || d == 0xFF00_0000,
    ;
}

/// Containment lasts until a one is written to the trigger status bit, or the
/// capability is reset.
pub proof fn law_containment_lasts(
    cap: DpcExtendedCapability,
    offset: u16,
    w: ByteEnabledDwordWrite,
)
    requires
        cap.status & DPC_STATUS_TRIGGER != 0,
        !trigger_cleared(offset, w),
    ensures
        dpc_written(cap, offset, w).status & DPC_STATUS_TRIGGER != 0,
{
    let s = cap.status;
    let v = merged_low(w, 0);
    lemma_one_written(w);
    let i = flag(true, DPC_STATUS_INTERRUPT);
    assert(s & 0x0001u16 != 0 ==> {
        &&& v & 0x0001u16 == 0 ==> (s & !(v & 0x2009u16)) & 0x0001u16 != 0
        &&& (s | i) & 0x0001u16 != 0
        &&& (s | 0u16) & 0x0001u16 != 0
    }) by (bit_vector);
}

/// A one that is written to the trigger status bit ends containment.
pub proof fn law_containment_ends(
    cap: DpcExtendedCapability,
    offset: u16,
    w: ByteEnabledDwordWrite,
)
    requires
        trigger_cleared(offset, w),
    ensures
        dpc_written(cap, offset, w).status & DPC_STATUS_TRIGGER == 0,
{
    let s = cap.status;
    let v = merged_low(w, 0);
    lemma_one_written(w);
    assert(v & 0x0001u16 != 0 ==> (s & !(v & 0x2009u16)) & 0x0001u16 == 0) by (bit_vector);
}

/// A root port is busy from the first phase of its recovery to the second; the
/// second leaves containment as it is.
pub proof fn law_two_phases(cap: DpcExtendedCapability, source_id: u16)
    requires
        has_rp_extensions(cap),
    ensures
        ({
            let first = with_rp_busy(uncorrectable_triggered(cap, source_id), true);
            let second = with_rp_busy(first, false);
            &&& first.status & DPC_STATUS_RP_BUSY != 0
            &&& first.status & DPC_STATUS_TRIGGER != 0
            &&& second.status & DPC_STATUS_RP_BUSY == 0
            &&& second.status & DPC_STATUS_TRIGGER != 0
        }),
{
    law_trigger_contains(cap, DPC_TRIGGER_REASON_UNMASKED_UNCORRECTABLE, 0, source_id);
    let s = uncorrectable_triggered(cap, source_id).status;
    assert(s & 0x0001u16 != 0 ==> {
        &&& (s | 0x0010u16) & 0x0010u16 != 0
        &&& (s | 0x0010u16) & 0x0001u16 != 0
        &&& ((s | 0x0010u16) & !0x0010u16) & 0x0010u16 == 0
        &&& ((s | 0x0010u16) & !0x0010u16) & 0x0001u16 != 0
    }) by (bit_vector);
}

/// A restore brings back the control, status and source that were saved.
pub proof fn law_dpc_save_restore(
    cap: DpcExtendedCapability,
    other: DpcExtendedCapability,
)
    ensures
        dpc_saved(dpc_restored(other, dpc_saved(cap))) == dpc_saved(cap),
{
}

/// A trigger enters containment unless it is active. Only then it notes the reason,
/// in bits 1 and 2 and bits 5 and 6 of the status, and the source. An interrupt is to
/// be signaled exactly if bit 3 of the control register enables it, and only then bit
/// 3 of the status is set. Nothing else changes.
pub proof fn law_trigger_outcome(
    cap: DpcExtendedCapability,
    reason: u16,
    extension: u16,
    source_id: u16,
)
    ensures
        ({
            let next = dpc_triggered(cap, reason, extension, source_id);
            let outcome = trigger_outcome(cap);
            &&& outcome.containment_entered <==> cap.status & 0x0001 == 0
            &&& outcome.should_interrupt <==> cap.control & 0x0008 != 0
            &&& next.status & 0x0001 == 0x0001
            &&& cap.control & 0x0008 != 0 ==> next.status & 0x0008 == 0x0008
            &&& cap.control & 0x0008 == 0 ==> next.status & 0x0008 == cap.status & 0x0008
            &&& cap.status & 0x0001 == 0 ==> {
                &&& (next.status >> 1u16) & 0x0003 == reason & 0x0003
                &&& (next.status >> 5u16) & 0x0003 == extension & 0x0003
                &&& next.status & !0x006Fu16 == cap.status & !0x006Fu16
                &&& next.error_source_id == source_id
            }
            &&& cap.status & 0x0001 != 0 ==> {
                &&& next.status & !0x0008u16 == cap.status & !0x0008u16
                &&& next.error_source_id == cap.error_source_id
            }
            &&& next == (DpcExtendedCapability {
                status: next.status,
                error_source_id: next.error_source_id,
                ..cap
            })
        }),
{
    let s = cap.status;
    let i = flag(cap.control & 0x0008 != 0, DPC_STATUS_INTERRUPT);
    let t = (s & !0x0006u16 & !0x0060u16) | 0x0001u16 | ((reason & 0x3) << 1u16) | ((extension
        & 0x3) << 5u16);
    assert({
        &&& (t | i) & 0x0001 == 0x0001
        &&& i == 0x0008 ==> (t | i) & 0x0008 == 0x0008 && (s | i) & 0x0008 == 0x0008
        &&& i == 0 ==> (t | i) & 0x0008 == s & 0x0008 && (s | i) & 0x0008 == s & 0x0008
        &&& ((t | i) >> 1u16) & 0x0003 == reason & 0x0003
        &&& ((t | i) >> 5u16) & 0x0003 == extension & 0x0003
        &&& (t | i) & !0x006Fu16 == s & !0x006Fu16
        &&& (s | i) & !0x0008u16 == s & !0x0008u16
        &&& s & 0x0001 != 0 ==> (s | i) & 0x0001 == 0x0001
    }) by (bit_vector)
        requires
            i == 0 || i == 0x0008,
            t == (s & !0x0006u16 & !0x0060u16) | 0x0001u16 | ((reason & 0x3) << 1u16) | ((extension
                & 0x3) << 5u16),
    ;
}

/// An uncorrectable error is noted as such: as reason 0. The busy bit of a root port,
/// bit 4 of the status, is set by the first phase and cleared by the second; other
/// ports do not have it. The phases change nothing else.
pub proof fn law_uncorrectable_phases(cap: DpcExtendedCapability, source_id: u16)
    ensures
        ({
            let triggered = uncorrectable_triggered(cap, source_id);
            let first = with_rp_busy(triggered, true);
            let second = with_rp_busy(first, false);
            &&& triggered == dpc_triggered(cap, 0, 0, source_id)
            &&& cap.capability & 0x0020 != 0 ==> {
                &&& first.status & 0x0010 == 0x0010
                &&& second.status & 0x0010 == 0
            }
            &&& cap.capability & 0x0020 == 0 ==> {
                &&& first.status & 0x0010 == cap.status & 0x0010
                &&& second.status & 0x0010 == cap.status & 0x0010
            }
            &&& first.status & !0x0010u16 == triggered.status & !0x0010u16
            &&& second.status & !0x0010u16 == triggered.status & !0x0010u16
            &&& first == (DpcExtendedCapability { status: first.status, ..triggered })
            &&& second == (DpcExtendedCapability { status: second.status, ..triggered })
        }),
{
    law_trigger_outcome(cap, 0, 0, source_id);
    let s = cap.status;
    let t = uncorrectable_triggered(cap, source_id).status;
    assert({
        &&& (t | 0x0010) & 0x0010 == 0x0010
        &&& ((t | 0x0010) & !0x0010u16) & 0x0010 == 0
        &&& (t | 0x0010) & !0x0010u16 == t & !0x0010u16
        &&& ((t | 0x0010) & !0x0010u16) & !0x0010u16 == t & !0x0010u16
        &&& t & !0x006Fu16 == s & !0x006Fu16 ==> t & 0x0010 == s & 0x0010
        &&& t & !0x0008u16 == s & !0x0008u16 ==> t & 0x0010 == s & 0x0010
    }) by (bit_vector);
}

/// What a dword written to the control register does. The features that are there
/// decide which of the lower eight control bits take the upper half of the dword; bit
/// 6, the software trigger, reads as zero. It triggers, with the extended reason 1 and
/// without a source, if the port has software triggers, the bit is written and bits 0
/// and 1 enable triggers. Without such a trigger the status stays.
pub proof fn law_control_written(cap: DpcExtendedCapability, val: u32)
    ensures
        ({
            let next = cap.written(DPC_CAPABILITY_CONTROL, val);
            let v = (val >> 16u32) as u16;
            let trigger = cap.capability & 0x0080 != 0 && v & 0x0040 != 0 && v & 0x0003 != 0;
            &&& next.control & 0x001F == v & 0x001F
            &&& cap.capability & 0x0040 != 0 ==> next.control & 0x0020 == v & 0x0020
            &&& cap.capability & 0x0040 == 0 ==> next.control & 0x0020 == cap.control & 0x0020
            &&& next.control & 0x0040 == 0
            &&& cap.capability & 0x1000 != 0 ==> next.control & 0x0080 == v & 0x0080
            &&& cap.capability & 0x1000 == 0 ==> next.control & 0x0080 == cap.control & 0x0080
            &&& next.control & 0xFF00 == cap.control & 0xFF00
            &&& !trigger ==> next == (DpcExtendedCapability { control: next.control, ..cap })
            &&& trigger ==> next == (DpcExtendedCapability {
                control: next.control,
                ..dpc_triggered(
                    DpcExtendedCapability { control: next.control, ..cap },
                    3,
                    1,
                    0,
                )
            })
        }),
{
    law_all_bytes(val, cap.control as u32);
    let c = cap.control;
    let p = cap.capability;
    let v = (val >> 16u32) as u16;
    let m = control_writable(p);
    let n = (c & !m) | (v & m);
    assert(c as u32 as u16 == c);
    assert({
        &&& (n & !0x0040u16) & 0x001F == v & 0x001F
        &&& p & 0x0040 != 0 ==> (n & !0x0040u16) & 0x0020 == v & 0x0020
        &&& p & 0x0040 == 0 ==> (n & !0x0040u16) & 0x0020 == c & 0x0020
        &&& (n & !0x0040u16) & 0x0040 == 0
        &&& p & 0x1000 != 0 ==> (n & !0x0040u16) & 0x0080 == v & 0x0080
        &&& p & 0x1000 == 0 ==> (n & !0x0040u16) & 0x0080 == c & 0x0080
        &&& (n & !0x0040u16) & 0xFF00 == c & 0xFF00
        &&& n & 0x0003 == v & 0x0003
        &&& (n & !0x0040u16) & 0x0008 == n & 0x0008
    }) by (bit_vector)
        requires
            n == (c & !m) | (v & m),
            m == control_writable(p),
    ;
}

}
