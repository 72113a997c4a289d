//! PCIe Advanced Error Reporting (AER) extended capability.
use crate::capabilities::ext_header;
use crate::capabilities::DevicePortType;
use crate::capabilities::PciExtendedCapability;
use crate::io::all_bytes;
use crate::io::merged;
use crate::io::ByteEnabledDwordWrite;
use crate::regs::EXT_CAP_ID_AER;
use crate::save_restore::RestoreError;
use vstd::prelude::*;

verus! {

/// Offset of the header.
pub const AER_HEADER: u16 = 0x00;
/// Offset of the uncorrectable error status.
pub const AER_UNCORRECTABLE_ERROR_STATUS: u16 = 0x04;
/// Offset of the uncorrectable error mask.
pub const AER_UNCORRECTABLE_ERROR_MASK: u16 = 0x08;
/// Offset of the uncorrectable error severity.
pub const AER_UNCORRECTABLE_ERROR_SEVERITY: u16 = 0x0C;
/// Offset of the correctable error status.
pub const AER_CORRECTABLE_ERROR_STATUS: u16 = 0x10;
/// Offset of the correctable error mask.
pub const AER_CORRECTABLE_ERROR_MASK: u16 = 0x14;
/// Offset of the advanced error capabilities and control.
pub const AER_ADVANCED_CAPABILITIES_AND_CONTROL: u16 = 0x18;
/// Offset of the first header log register.
pub const AER_HEADER_LOG_0: u16 = 0x1C;
/// Offset of the second header log register.
pub const AER_HEADER_LOG_1: u16 = 0x20;
/// Offset of the third header log register.
pub const AER_HEADER_LOG_2: u16 = 0x24;
/// Offset of the fourth header log register.
pub const AER_HEADER_LOG_3: u16 = 0x28;
/// Offset of the root error command.
pub const AER_ROOT_ERROR_COMMAND: u16 = 0x2C;
/// Offset of the root error status.
pub const AER_ROOT_ERROR_STATUS: u16 = 0x30;
/// Offset of the error source identification.
pub const AER_ERROR_SOURCE_IDENTIFICATION: u16 = 0x34;
/// Offset of the first TLP prefix log register.
pub const AER_TLP_PREFIX_LOG_0: u16 = 0x38;
/// Offset of the second TLP prefix log register.
pub const AER_TLP_PREFIX_LOG_1: u16 = 0x3C;
/// Offset of the third TLP prefix log register.
pub const AER_TLP_PREFIX_LOG_2: u16 = 0x40;
/// Offset of the fourth TLP prefix log register.
pub const AER_TLP_PREFIX_LOG_3: u16 = 0x44;

/// Uncorrectable errors that are masked by default.
pub const DEFAULT_UNC_ERR_MASK: u32 = 0x0440_0000;
/// Uncorrectable errors that are fatal by default.
pub const DEFAULT_UNC_ERR_SEVERITY: u32 = 0x0046_2030;
/// Correctable errors that are masked by default.
pub const DEFAULT_COR_ERR_MASK: u32 = 0x0000_E000;
/// Uncorrectable error status bits, which are cleared by writing ones.
pub const UNC_ERR_STATUS_RW1C_MASK: u32 = 0xFFFF_F030;
/// Correctable error status bits, which are cleared by writing ones.
pub const COR_ERR_STATUS_RW1C_MASK: u32 = 0x0000_F1C1;
/// Root error command bits that can be written.
pub const ROOT_ERR_COMMAND_RW_MASK: u32 = 0x0000_0007;
/// Root error status bits, which are cleared by writing ones.
pub const ROOT_ERR_STATUS_RW1C_MASK: u32 = 0x0000_007F;
/// Control bits that could be written.
pub const AER_CAP_CTL_WRITABLE_MASK: u32 = 0x0000_0540;
/// Control bit: ECRC generation is enabled.
pub const AER_CAP_CTL_ECRC_GEN_ENABLE_BIT: u32 = 0x0000_0040;
/// Control bit: ECRC checking is enabled.
pub const AER_CAP_CTL_ECRC_CHK_ENABLE_BIT: u32 = 0x0000_0100;
/// Control bit: recording of several headers is enabled.
pub const AER_CAP_CTL_MULTI_HEADER_RECORDING_ENABLE_BIT: u32 = 0x0000_0400;

/// Root error status: a correctable error was received.
pub const ROOT_STATUS_ERR_COR: u32 = 0x01;
/// Root error status: several correctable errors were received.
pub const ROOT_STATUS_MULTIPLE_ERR_COR: u32 = 0x02;
/// Root error status: an uncorrectable error was received.
pub const ROOT_STATUS_ERR_UNC: u32 = 0x04;
/// Root error status: several uncorrectable errors were received.
pub const ROOT_STATUS_MULTIPLE_ERR_UNC: u32 = 0x08;
/// Root error status: the first uncorrectable error was fatal.
pub const ROOT_STATUS_FIRST_FATAL: u32 = 0x10;
/// Root error status: a non-fatal error was received.
pub const ROOT_STATUS_NONFATAL: u32 = 0x20;
/// Root error status: a fatal error was received.
pub const ROOT_STATUS_FATAL: u32 = 0x40;
/// Root error command: report correctable errors.
pub const ROOT_COMMAND_COR: u32 = 0x01;
/// Root error command: report non-fatal errors.
pub const ROOT_COMMAND_NONFATAL: u32 = 0x02;
/// Root error command: report fatal errors.
pub const ROOT_COMMAND_FATAL: u32 = 0x04;

/// Function or port class that decides how AER registers behave.
#[derive(Debug, Clone, Copy, PartialEq, Eq, Structural)]
pub enum AerPortType {
    /// Endpoint function.
    Endpoint,
    /// Root port.
    RootPort,
    /// Upstream switch port.
    UpstreamSwitchPort,
    /// Downstream switch port.
    DownstreamSwitchPort,
}

/// The AER class of a port type.
pub open spec fn aer_port_type(t: DevicePortType) -> AerPortType {
    match t {
        DevicePortType::Endpoint => AerPortType::Endpoint,
        DevicePortType::RootPort => AerPortType::RootPort,
        DevicePortType::UpstreamSwitchPort => AerPortType::UpstreamSwitchPort,
        DevicePortType::DownstreamSwitchPort => AerPortType::DownstreamSwitchPort,
    }
}

impl vstd::std_specs::convert::FromSpecImpl<DevicePortType> for AerPortType {
    open spec fn obeys_from_spec() -> bool {
        true
    }

    open spec fn from_spec(value: DevicePortType) -> Self {
        aer_port_type(value)
    }
}

impl From<DevicePortType> for AerPortType {
    fn from(value: DevicePortType) -> (r: Self) {
        match value {
            DevicePortType::Endpoint => AerPortType::Endpoint,
            DevicePortType::RootPort => AerPortType::RootPort,
            DevicePortType::UpstreamSwitchPort => AerPortType::UpstreamSwitchPort,
            DevicePortType::DownstreamSwitchPort => AerPortType::DownstreamSwitchPort,
        }
    }
}

/// Register defaults that are given when the capability is made.
#[derive(Debug, Clone, Copy)]
pub struct AerCapabilityConfig {
    /// Default of the correctable error mask.
    pub correctable_mask: Option<u32>,
    /// Default of the uncorrectable error mask.
    pub uncorrectable_mask: Option<u32>,
    /// Default of the uncorrectable error severity.
    pub uncorrectable_severity_mask: Option<u32>,
}

impl Default for AerCapabilityConfig {
    fn default() -> (r: Self)
        ensures
            r == (AerCapabilityConfig {
                correctable_mask: None,
                uncorrectable_mask: None,
                uncorrectable_severity_mask: None,
            }),
    {
        AerCapabilityConfig {
            correctable_mask: None,
            uncorrectable_mask: None,
            uncorrectable_severity_mask: None,
        }
    }
}

/// Four log registers.
#[derive(Debug, Clone, Copy, PartialEq, Eq, Structural)]
pub struct LogDwords {
    /// First register.
    pub d0: u32,
    /// Second register.
    pub d1: u32,
    /// Third register.
    pub d2: u32,
    /// Fourth register.
    pub d3: u32,
}

/// Log registers that hold nothing.
pub open spec fn empty_log() -> LogDwords {
    LogDwords { d0: 0, d1: 0, d2: 0, d3: 0 }
}

impl LogDwords {
    /// Returns log registers that hold nothing.
    pub fn new() -> (r: Self)
        ensures
            r == empty_log(),
    {
        LogDwords { d0: 0, d1: 0, d2: 0, d3: 0 }
    }
}

/// Which optional AER features there are.
#[derive(Debug, Clone, Copy)]
pub struct AerAdvancedCapabilities {
    /// ECRC generation.
    pub ecrc_generation_capable: bool,
    /// ECRC checking.
    pub ecrc_check_capable: bool,
    /// Recording of several headers.
    pub multiple_header_recording_capable: bool,
    /// TLP prefix log.
    pub tlp_prefix_log_present: bool,
    /// Completion timeout prefix and header log.
    pub completion_timeout_prefix_header_log_capable: bool,
    /// Size of the header log in dwords.
    pub header_log_size_dw: u8,
}

/// No optional feature, and a header log of four dwords.
pub open spec fn no_advanced_capabilities() -> AerAdvancedCapabilities {
    AerAdvancedCapabilities {
        ecrc_generation_capable: false,
        ecrc_check_capable: false,
        multiple_header_recording_capable: false,
        tlp_prefix_log_present: false,
        completion_timeout_prefix_header_log_capable: false,
        header_log_size_dw: 4,
    }
}

impl AerAdvancedCapabilities {
    /// Returns the features of a port: none, and a header log of four dwords.
    pub fn new(_port_type: AerPortType) -> (r: Self)
        ensures
            r == no_advanced_capabilities(),
    {
        AerAdvancedCapabilities {
            ecrc_generation_capable: false,
            ecrc_check_capable: false,
            multiple_header_recording_capable: false,
            tlp_prefix_log_present: false,
            completion_timeout_prefix_header_log_capable: false,
            header_log_size_dw: 4,
        }
    }
}

/// PCIe Advanced Error Reporting (AER) extended capability emulator.
#[derive(Debug, Clone, Copy)]
pub struct AerExtendedCapability {
    /// The class of the port.
    pub port_type: AerPortType,
    /// Uncorrectable error status.
    pub unc_err_status: u32,
    /// Uncorrectable error mask.
    pub unc_err_mask: u32,
    /// Uncorrectable error severity.
    pub unc_err_severity: u32,
    /// Correctable error status.
    pub cor_err_status: u32,
    /// Correctable error mask.
    pub cor_err_mask: u32,
    /// Enable bits of the advanced control register.
    pub aer_cap_ctl: u32,
    /// Header log.
    pub header_log: LogDwords,
    /// Root error command.
    pub root_error_command: u32,
    /// Root error status.
    pub root_error_status: u32,
    /// Error source identification.
    pub error_source_identification: u32,
    /// TLP prefix log.
    pub tlp_prefix_log: LogDwords,
    /// Optional features.
    pub advanced_capabilities: AerAdvancedCapabilities,
    /// Interrupt message number of root errors, if there is one.
    pub root_error_interrupt_message_number: Option<u8>,
}

/// Saved state.
#[derive(Debug, Clone, Copy)]
pub struct AerSavedState {
    /// Uncorrectable error status.
    pub unc_err_status: u32,
    /// Uncorrectable error mask.
    pub unc_err_mask: u32,
    /// Uncorrectable error severity.
    pub unc_err_severity: u32,
    /// Correctable error status.
    pub cor_err_status: u32,
    /// Correctable error mask.
    pub cor_err_mask: u32,
    /// Enable bits of the advanced control register.
    pub aer_cap_ctl_enable_bits: u32,
    /// Header log.
    pub header_log: LogDwords,
    /// Root error command.
    pub root_error_command: u32,
    /// Root error status.
    pub root_error_status: u32,
    /// Error source identification.
    pub error_source_identification: u32,
    /// TLP prefix log.
    pub tlp_prefix_log: LogDwords,
}

/// Kind of an error that is injected.
#[derive(Debug, Clone, Copy, PartialEq, Eq, Structural)]
pub enum AerInjectedErrorKind {
    /// A correctable error.
    Correctable,
    /// An uncorrectable error.
    Uncorrectable,
}

/// An error that is injected.
#[derive(Debug, Clone, Copy)]
pub struct AerInjection {
    /// The kind.
    pub kind: AerInjectedErrorKind,
    /// Status bits to set.
    pub status_bits: u32,
    /// Header log.
    pub header_log: LogDwords,
    /// Bus, device and function number of the source.
    pub source_id: u16,
}

/// What becomes of an injected error at a root port.
#[derive(Debug, Clone, Copy, PartialEq, Eq, Structural)]
pub struct AerInjectionOutcome {
    /// Whether an interrupt is to be signaled.
    pub should_interrupt: bool,
}

/// The value given, or else a default.
pub open spec fn given_or(value: Option<u32>, default: u32) -> u32 {
    match value {
        Some(v) => v,
        None => default,
    }
}

/// A bit if the condition holds.
pub open spec fn bit_if(condition: bool, bit: u32) -> u32 {
    if condition {
        bit
    } else {
        0
    }
}

/// The advanced capabilities and control register: what the port is capable of
/// and what of it is enabled.
pub open spec fn advanced_value(cap: AerExtendedCapability) -> u32 {
    let a = cap.advanced_capabilities;
    (cap.aer_cap_ctl & AER_CAP_CTL_WRITABLE_MASK) | bit_if(a.ecrc_generation_capable, 0x20)
        | bit_if(a.ecrc_check_capable, 0x80) | bit_if(a.multiple_header_recording_capable, 0x200)
        | bit_if(a.tlp_prefix_log_present, 0x800) | bit_if(
        a.completion_timeout_prefix_header_log_capable,
        0x1000,
    ) | (((a.header_log_size_dw & 0x1f) as u32) << 13u32)
}

/// The enable bits whose feature is there.
pub open spec fn enable_mask(a: AerAdvancedCapabilities) -> u32 {
    bit_if(a.ecrc_generation_capable, AER_CAP_CTL_ECRC_GEN_ENABLE_BIT) | bit_if(
        a.ecrc_check_capable,
        AER_CAP_CTL_ECRC_CHK_ENABLE_BIT,
    ) | bit_if(
        a.multiple_header_recording_capable,
        AER_CAP_CTL_MULTI_HEADER_RECORDING_ENABLE_BIT,
    )
}

/// A register after a write that clears the given bits where ones are written.
/// The bytes that are not enabled count as written with what they hold.
pub open spec fn write_one_to_clear(
    w: ByteEnabledDwordWrite,
    current: u32,
    clearable: u32,
) -> u32 {
    current & !(merged(w, current) & clearable)
}

/// The capability after a write of some bytes.
pub open spec fn aer_written(
    cap: AerExtendedCapability,
    offset: u16,
    w: ByteEnabledDwordWrite,
) -> AerExtendedCapability {
    let root = cap.port_type == AerPortType::RootPort;
    if offset == AER_UNCORRECTABLE_ERROR_STATUS {
        AerExtendedCapability {
            unc_err_status: write_one_to_clear(w, cap.unc_err_status, UNC_ERR_STATUS_RW1C_MASK),
            ..cap
        }
    } else if offset == AER_UNCORRECTABLE_ERROR_MASK {
        AerExtendedCapability { unc_err_mask: merged(w, cap.unc_err_mask), ..cap }
    } else if offset == AER_UNCORRECTABLE_ERROR_SEVERITY {
        AerExtendedCapability { unc_err_severity: merged(w, cap.unc_err_severity), ..cap }
    } else if offset == AER_CORRECTABLE_ERROR_STATUS {
        AerExtendedCapability {
            cor_err_status: write_one_to_clear(w, cap.cor_err_status, COR_ERR_STATUS_RW1C_MASK),
            ..cap
        }
    } else if offset == AER_CORRECTABLE_ERROR_MASK {
        AerExtendedCapability { cor_err_mask: merged(w, cap.cor_err_mask), ..cap }
    } else if offset == AER_ADVANCED_CAPABILITIES_AND_CONTROL {
        AerExtendedCapability {
            aer_cap_ctl: (cap.aer_cap_ctl & !AER_CAP_CTL_WRITABLE_MASK) | (merged(
                w,
                cap.aer_cap_ctl,
            ) & AER_CAP_CTL_WRITABLE_MASK & enable_mask(cap.advanced_capabilities)),
            ..cap
        }
    } else if offset == AER_ROOT_ERROR_COMMAND && root {
        AerExtendedCapability {
            root_error_command: merged(w, cap.root_error_command) & ROOT_ERR_COMMAND_RW_MASK,
            ..cap
        }
    } else if offset == AER_ROOT_ERROR_STATUS && root {
        AerExtendedCapability {
            root_error_status: write_one_to_clear(
                w,
                cap.root_error_status,
                ROOT_ERR_STATUS_RW1C_MASK,
            ),
            ..cap
        }
    } else {
        cap
    }
}

/// The capability as it is made.
pub open spec fn aer_initial(
    port_type: AerPortType,
    config: AerCapabilityConfig,
) -> AerExtendedCapability {
    AerExtendedCapability {
        port_type,
        unc_err_status: 0,
        unc_err_mask: given_or(config.uncorrectable_mask, DEFAULT_UNC_ERR_MASK),
        unc_err_severity: given_or(config.uncorrectable_severity_mask, DEFAULT_UNC_ERR_SEVERITY),
        cor_err_status: 0,
        cor_err_mask: given_or(config.correctable_mask, DEFAULT_COR_ERR_MASK),
        aer_cap_ctl: 0,
        header_log: empty_log(),
        root_error_command: 0,
        root_error_status: 0,
        error_source_identification: 0,
        tlp_prefix_log: empty_log(),
        advanced_capabilities: no_advanced_capabilities(),
        root_error_interrupt_message_number: None,
    }
}

/// The capability with an error recorded in its own status.
pub open spec fn aer_recorded(
    cap: AerExtendedCapability,
    e: AerInjection,
) -> AerExtendedCapability {
    match e.kind {
        AerInjectedErrorKind::Correctable => AerExtendedCapability {
            cor_err_status: cap.cor_err_status | e.status_bits,
            header_log: e.header_log,
            ..cap
        },
        AerInjectedErrorKind::Uncorrectable => AerExtendedCapability {
            unc_err_status: cap.unc_err_status | e.status_bits,
            header_log: e.header_log,
            ..cap
        },
    }
}

/// Whether an uncorrectable error is fatal, by the severity register.
pub open spec fn is_fatal(cap: AerExtendedCapability, e: AerInjection) -> bool {
    e.status_bits & cap.unc_err_severity != 0
}

/// A root port with an error message received: the root error status takes it
/// up, and the first source of each kind is kept.
pub open spec fn aer_reported(
    cap: AerExtendedCapability,
    e: AerInjection,
) -> AerExtendedCapability {
    if cap.port_type != AerPortType::RootPort {
        cap
    } else {
        match e.kind {
            AerInjectedErrorKind::Correctable => if cap.root_error_status & ROOT_STATUS_ERR_COR
                != 0 {
                AerExtendedCapability {
                    root_error_status: cap.root_error_status | ROOT_STATUS_MULTIPLE_ERR_COR,
                    ..cap
                }
            } else {
                AerExtendedCapability {
                    root_error_status: cap.root_error_status | ROOT_STATUS_ERR_COR,
                    error_source_identification: (cap.error_source_identification & 0xFFFF_0000)
                        | e.source_id as u32,
                    ..cap
                }
            },
            AerInjectedErrorKind::Uncorrectable => {
                let kind = if is_fatal(cap, e) {
                    ROOT_STATUS_FATAL
                } else {
                    ROOT_STATUS_NONFATAL
                };
                if cap.root_error_status & ROOT_STATUS_ERR_UNC != 0 {
                    AerExtendedCapability {
                        root_error_status: cap.root_error_status | ROOT_STATUS_MULTIPLE_ERR_UNC
                            | kind,
                        ..cap
                    }
                } else {
                    AerExtendedCapability {
                        root_error_status: cap.root_error_status | ROOT_STATUS_ERR_UNC | kind
                            | bit_if(is_fatal(cap, e), ROOT_STATUS_FIRST_FATAL),
                        error_source_identification: (cap.error_source_identification
                            & 0x0000_FFFF) | ((e.source_id as u32) << 16u32),
                        ..cap
                    }
                }
            },
        }
    }
}

/// What becomes of an error at a root port: an interrupt if errors of its kind
/// are reported. Other ports have no part in it.
pub open spec fn report_outcome(
    cap: AerExtendedCapability,
    e: AerInjection,
) -> Option<AerInjectionOutcome> {
    if cap.port_type != AerPortType::RootPort {
        None
    } else {
        let enable = match e.kind {
            AerInjectedErrorKind::Correctable => ROOT_COMMAND_COR,
            AerInjectedErrorKind::Uncorrectable => if is_fatal(cap, e) {
                ROOT_COMMAND_FATAL
            } else {
                ROOT_COMMAND_NONFATAL
            },
        };
        Some(AerInjectionOutcome { should_interrupt: cap.root_error_command & enable != 0 })
    }
}

/// What is saved.
pub open spec fn aer_saved(cap: AerExtendedCapability) -> AerSavedState {
    AerSavedState {
        unc_err_status: cap.unc_err_status,
        unc_err_mask: cap.unc_err_mask,
        unc_err_severity: cap.unc_err_severity,
        cor_err_status: cap.cor_err_status,
        cor_err_mask: cap.cor_err_mask,
        aer_cap_ctl_enable_bits: cap.aer_cap_ctl & AER_CAP_CTL_WRITABLE_MASK,
        header_log: cap.header_log,
        root_error_command: cap.root_error_command,
        root_error_status: cap.root_error_status,
        error_source_identification: cap.error_source_identification,
        tlp_prefix_log: cap.tlp_prefix_log,
    }
}

/// The capability after a restore.
pub open spec fn aer_restored(
    cap: AerExtendedCapability,
    state: AerSavedState,
) -> AerExtendedCapability {
    AerExtendedCapability {
        unc_err_status: state.unc_err_status,
        unc_err_mask: state.unc_err_mask,
        unc_err_severity: state.unc_err_severity,
        cor_err_status: state.cor_err_status,
        cor_err_mask: state.cor_err_mask,
        aer_cap_ctl: state.aer_cap_ctl_enable_bits & AER_CAP_CTL_WRITABLE_MASK & enable_mask(
            cap.advanced_capabilities,
        ),
        header_log: state.header_log,
        root_error_command: state.root_error_command & ROOT_ERR_COMMAND_RW_MASK,
        root_error_status: state.root_error_status,
        error_source_identification: state.error_source_identification,
        tlp_prefix_log: state.tlp_prefix_log,
        ..cap
    }
}

impl AerExtendedCapability {
    /// Creates an AER capability for a port.
    pub fn new(port_type: AerPortType) -> (r: Self)
        ensures
            r == aer_initial(
                port_type,
                AerCapabilityConfig {
                    correctable_mask: None,
                    uncorrectable_mask: None,
                    uncorrectable_severity_mask: None,
                },
            ),
    {
        Self::with_config(port_type, AerCapabilityConfig::default())
    }

    /// Creates an AER capability with the given register defaults.
    pub fn with_config(port_type: AerPortType, config: AerCapabilityConfig) -> (r: Self)
        ensures
            r == aer_initial(port_type, config),
    {
        AerExtendedCapability {
            port_type,
            unc_err_status: 0,
            unc_err_mask: match config.uncorrectable_mask {
                Some(v) => v,
                None => DEFAULT_UNC_ERR_MASK,
            },
            unc_err_severity: match config.uncorrectable_severity_mask {
                Some(v) => v,
                None => DEFAULT_UNC_ERR_SEVERITY,
            },
            cor_err_status: 0,
            cor_err_mask: match config.correctable_mask {
                Some(v) => v,
                None => DEFAULT_COR_ERR_MASK,
            },
            aer_cap_ctl: 0,
            header_log: LogDwords::new(),
            root_error_command: 0,
            root_error_status: 0,
            error_source_identification: 0,
            tlp_prefix_log: LogDwords::new(),
            advanced_capabilities: AerAdvancedCapabilities::new(port_type),
            root_error_interrupt_message_number: None,
        }
    }

    /// Returns whether the root error registers are there.
    pub fn supports_root_registers(&self) -> (r: bool)
        ensures
            r == (self.port_type == AerPortType::RootPort),
    {
        self.port_type == AerPortType::RootPort
    }

    /// Returns the interrupt message number of root errors, if there is one.
    pub fn interrupt_message_number(&self) -> (r: Option<u8>)
        ensures
            r == self.root_error_interrupt_message_number,
    {
        self.root_error_interrupt_message_number
    }

    fn bit_when(condition: bool, bit: u32) -> (r: u32)
        ensures
            r == bit_if(condition, bit),
    {
        if condition {
            bit
        } else {
            0
        }
    }

    /// Returns the advanced capabilities and control register.
    pub fn advanced_capabilities_and_control(&self) -> (r: u32)
        ensures
            r == advanced_value(*self),
    {
        let a: AerAdvancedCapabilities = self.advanced_capabilities;
        (self.aer_cap_ctl & AER_CAP_CTL_WRITABLE_MASK) | Self::bit_when(
            a.ecrc_generation_capable,
            0x20,
        ) | Self::bit_when(a.ecrc_check_capable, 0x80) | Self::bit_when(
            a.multiple_header_recording_capable,
            0x200,
        ) | Self::bit_when(a.tlp_prefix_log_present, 0x800) | Self::bit_when(
            a.completion_timeout_prefix_header_log_capable,
            0x1000,
        ) | (((a.header_log_size_dw & 0x1f) as u32) << 13u32)
    }

    /// Returns the enable bits whose feature is there.
    pub fn writable_advanced_enable_mask(&self) -> (r: u32)
        ensures
            r == enable_mask(self.advanced_capabilities),
    {
        let a: AerAdvancedCapabilities = self.advanced_capabilities;
        Self::bit_when(a.ecrc_generation_capable, AER_CAP_CTL_ECRC_GEN_ENABLE_BIT)
            | Self::bit_when(a.ecrc_check_capable, AER_CAP_CTL_ECRC_CHK_ENABLE_BIT)
            | Self::bit_when(
            a.multiple_header_recording_capable,
            AER_CAP_CTL_MULTI_HEADER_RECORDING_ENABLE_BIT,
        )
    }

    fn cleared(val: ByteEnabledDwordWrite, current: u32, clearable: u32) -> (r: u32)
        ensures
            r == write_one_to_clear(val, current, clearable),
    {
        let clear: u32 = val.merge(current) & clearable;
        current & !clear
    }

    /// Writes some bytes of a register.
    pub fn write(&mut self, offset: u16, val: ByteEnabledDwordWrite)
        ensures
            *final(self) == aer_written(*old(self), offset, val),
    {
        match offset {
            AER_UNCORRECTABLE_ERROR_STATUS => {
                self.unc_err_status = Self::cleared(
                    val,
                    self.unc_err_status,
                    UNC_ERR_STATUS_RW1C_MASK,
                );
            },
            AER_UNCORRECTABLE_ERROR_MASK => {
                self.unc_err_mask = val.merge(self.unc_err_mask);
            },
            AER_UNCORRECTABLE_ERROR_SEVERITY => {
                self.unc_err_severity = val.merge(self.unc_err_severity);
            },
            AER_CORRECTABLE_ERROR_STATUS => {
                self.cor_err_status = Self::cleared(
                    val,
                    self.cor_err_status,
                    COR_ERR_STATUS_RW1C_MASK,
                );
            },
            AER_CORRECTABLE_ERROR_MASK => {
                self.cor_err_mask = val.merge(self.cor_err_mask);
            },
            AER_ADVANCED_CAPABILITIES_AND_CONTROL => {
                let new_enable_bits: u32 = val.merge(self.aer_cap_ctl) & AER_CAP_CTL_WRITABLE_MASK
                    & self.writable_advanced_enable_mask();
                self.aer_cap_ctl = (self.aer_cap_ctl & !AER_CAP_CTL_WRITABLE_MASK)
                    | new_enable_bits;
            },
            AER_ROOT_ERROR_COMMAND => {
                if self.supports_root_registers() {
                    self.root_error_command = val.merge(self.root_error_command)
                        & ROOT_ERR_COMMAND_RW_MASK;
                }
            },
            AER_ROOT_ERROR_STATUS => {
                if self.supports_root_registers() {
                    self.root_error_status = Self::cleared(
                        val,
                        self.root_error_status,
                        ROOT_ERR_STATUS_RW1C_MASK,
                    );
                }
            },
            // All other registers are read-only.
            _ => {},
        }
    }

    /// Records an error in the capability's own status and header log.
    pub fn record(&mut self, e: AerInjection)
        ensures
            *final(self) == aer_recorded(*old(self), e),
    {
        match e.kind {
            AerInjectedErrorKind::Correctable => {
                self.cor_err_status = self.cor_err_status | e.status_bits;
            },
            AerInjectedErrorKind::Uncorrectable => {
                self.unc_err_status = self.unc_err_status | e.status_bits;
            },
        }
        self.header_log = e.header_log;
    }

    /// Reports an error message that a root port has received. Returns `None`
    /// for any other port.
    pub fn report(&mut self, e: AerInjection) -> (r: Option<AerInjectionOutcome>)
        ensures
            *final(self) == aer_reported(*old(self), e),
            r == report_outcome(*old(self), e),
    {
        if !self.supports_root_registers() {
            return None;
        }
        let enable: u32;
        match e.kind {
            AerInjectedErrorKind::Correctable => {
                enable = ROOT_COMMAND_COR;
                if self.root_error_status & ROOT_STATUS_ERR_COR != 0 {
                    self.root_error_status = self.root_error_status | ROOT_STATUS_MULTIPLE_ERR_COR;
                } else {
                    self.root_error_status = self.root_error_status | ROOT_STATUS_ERR_COR;
                    self.error_source_identification = (self.error_source_identification
                        & 0xFFFF_0000) | e.source_id as u32;
                }
            },
            AerInjectedErrorKind::Uncorrectable => {
                let fatal: bool = e.status_bits & self.unc_err_severity != 0;
                let kind: u32 = if fatal {
                    ROOT_STATUS_FATAL
                } else {
                    ROOT_STATUS_NONFATAL
                };
                enable = if fatal {
                    ROOT_COMMAND_FATAL
                } else {
                    ROOT_COMMAND_NONFATAL
                };
                if self.root_error_status & ROOT_STATUS_ERR_UNC != 0 {
                    self.root_error_status = self.root_error_status | ROOT_STATUS_MULTIPLE_ERR_UNC
                        | kind;
                } else {
                    self.root_error_status = self.root_error_status | ROOT_STATUS_ERR_UNC | kind
                        | Self::bit_when(fatal, ROOT_STATUS_FIRST_FATAL);
                    self.error_source_identification = (self.error_source_identification
                        & 0x0000_FFFF) | ((e.source_id as u32) << 16u32);
                }
            },
        }
        Some(AerInjectionOutcome { should_interrupt: self.root_error_command & enable != 0 })
    }

    /// Injects an error: it is recorded here and, at a root port, reported.
    pub fn inject(&mut self, e: AerInjection) -> (r: Option<AerInjectionOutcome>)
        ensures
            *final(self) == aer_reported(aer_recorded(*old(self), e), e),
            r == report_outcome(*old(self), e),
    {
        self.record(e);
        self.report(e)
    }

    /// Saves the state.
    pub fn save(&self) -> (r: AerSavedState)
        ensures
            r == aer_saved(*self),
    {
        AerSavedState {
            unc_err_status: self.unc_err_status,
            unc_err_mask: self.unc_err_mask,
            unc_err_severity: self.unc_err_severity,
            cor_err_status: self.cor_err_status,
            cor_err_mask: self.cor_err_mask,
            aer_cap_ctl_enable_bits: self.aer_cap_ctl & AER_CAP_CTL_WRITABLE_MASK,
            header_log: self.header_log,
            root_error_command: self.root_error_command,
            root_error_status: self.root_error_status,
            error_source_identification: self.error_source_identification,
            tlp_prefix_log: self.tlp_prefix_log,
        }
    }

    /// Restores the state.
    pub fn restore(&mut self, state: AerSavedState)
        ensures
            *final(self) == aer_restored(*old(self), state),
    {
        self.unc_err_status = state.unc_err_status;
        self.unc_err_mask = state.unc_err_mask;
        self.unc_err_severity = state.unc_err_severity;
        self.cor_err_status = state.cor_err_status;
        self.cor_err_mask = state.cor_err_mask;
        self.aer_cap_ctl = state.aer_cap_ctl_enable_bits & AER_CAP_CTL_WRITABLE_MASK
            & self.writable_advanced_enable_mask();
        self.header_log = state.header_log;
        self.root_error_command = state.root_error_command & ROOT_ERR_COMMAND_RW_MASK;
        self.root_error_status = state.root_error_status;
        self.error_source_identification = state.error_source_identification;
        self.tlp_prefix_log = state.tlp_prefix_log;
    }
}

impl PciExtendedCapability for AerExtendedCapability {
    type Saved = AerSavedState;

    open spec fn label_text(&self) -> Seq<char> {
        "aer"@
    }

    open spec fn saves_as(&self, state: AerSavedState) -> bool {
        state == aer_saved(*self)
    }

    open spec fn restore_error(&self, state: AerSavedState) -> Option<RestoreError> {
        None
    }

    open spec fn restored(&self, state: AerSavedState) -> Self {
        aer_restored(*self, state)
    }

    open spec fn ext_id(&self) -> u16 {
        EXT_CAP_ID_AER
    }

    open spec fn ext_version(&self) -> u8 {
        2
    }

    open spec fn ext_len(&self) -> int {
        0x48
    }

    open spec fn value(&self, offset: u16) -> u32 {
        let root = self.port_type == AerPortType::RootPort;
        if offset == AER_HEADER {
            ext_header(EXT_CAP_ID_AER, 2)
        } else if offset == AER_UNCORRECTABLE_ERROR_STATUS {
            self.unc_err_status
        } else if offset == AER_UNCORRECTABLE_ERROR_MASK {
            self.unc_err_mask
        } else if offset == AER_UNCORRECTABLE_ERROR_SEVERITY {
            self.unc_err_severity
        } else if offset == AER_CORRECTABLE_ERROR_STATUS {
            self.cor_err_status
        } else if offset == AER_CORRECTABLE_ERROR_MASK {
            self.cor_err_mask
        } else if offset == AER_ADVANCED_CAPABILITIES_AND_CONTROL {
            advanced_value(*self)
        } else if offset == AER_HEADER_LOG_0 {
            self.header_log.d0
        } else if offset == AER_HEADER_LOG_1 {
            self.header_log.d1
        } else if offset == AER_HEADER_LOG_2 {
            self.header_log.d2
        } else if offset == AER_HEADER_LOG_3 {
            self.header_log.d3
        } else if offset == AER_ROOT_ERROR_COMMAND {
            bit_if(root, self.root_error_command)
        } else if offset == AER_ROOT_ERROR_STATUS {
            bit_if(root, self.root_error_status)
        } else if offset == AER_ERROR_SOURCE_IDENTIFICATION {
            bit_if(root, self.error_source_identification)
        } else if offset == AER_TLP_PREFIX_LOG_0 {
            self.tlp_prefix_log.d0
        } else if offset == AER_TLP_PREFIX_LOG_1 {
            self.tlp_prefix_log.d1
        } else if offset == AER_TLP_PREFIX_LOG_2 {
            self.tlp_prefix_log.d2
        } else if offset == AER_TLP_PREFIX_LOG_3 {
            self.tlp_prefix_log.d3
        } else {
            0xFFFF_FFFF
        }
    }

    open spec fn written(&self, offset: u16, val: u32) -> Self {
        aer_written(*self, offset, all_bytes(val))
    }

    /// A reset brings back the built-in defaults.
    open spec fn after_reset(&self) -> Self {
        AerExtendedCapability {
            unc_err_status: 0,
            unc_err_mask: DEFAULT_UNC_ERR_MASK,
            unc_err_severity: DEFAULT_UNC_ERR_SEVERITY,
            cor_err_status: 0,
            cor_err_mask: DEFAULT_COR_ERR_MASK,
            aer_cap_ctl: 0,
            header_log: empty_log(),
            root_error_command: 0,
            root_error_status: 0,
            error_source_identification: 0,
            tlp_prefix_log: empty_log(),
            ..*self
        }
    }

    fn label(&self) -> (r: &'static str) {
        "aer"
    }

    fn save_state(&self) -> (r: AerSavedState) {
        self.save()
    }

    fn restore_state(&mut self, state: AerSavedState) -> (r: Result<(), RestoreError>) {
        self.restore(state);
        Ok(())
    }

    fn extended_capability_id(&self) -> (r: u16) {
        EXT_CAP_ID_AER
    }

    fn capability_version(&self) -> (r: u8) {
        2
    }

    fn len(&self) -> (r: usize) {
        0x48
    }

    fn read_u32(&self, offset: u16) -> (r: u32) {
        match offset {
            AER_HEADER => (EXT_CAP_ID_AER as u32) | ((2u8 as u32) << 16u32),
            AER_UNCORRECTABLE_ERROR_STATUS => self.unc_err_status,
            AER_UNCORRECTABLE_ERROR_MASK => self.unc_err_mask,
            AER_UNCORRECTABLE_ERROR_SEVERITY => self.unc_err_severity,
            AER_CORRECTABLE_ERROR_STATUS => self.cor_err_status,
            AER_CORRECTABLE_ERROR_MASK => self.cor_err_mask,
            AER_ADVANCED_CAPABILITIES_AND_CONTROL => self.advanced_capabilities_and_control(),
            AER_HEADER_LOG_0 => self.header_log.d0,
            AER_HEADER_LOG_1 => self.header_log.d1,
            AER_HEADER_LOG_2 => self.header_log.d2,
            AER_HEADER_LOG_3 => self.header_log.d3,
            AER_ROOT_ERROR_COMMAND => if self.supports_root_registers() {
                self.root_error_command
            } else {
                0
            },
            AER_ROOT_ERROR_STATUS => if self.supports_root_registers() {
                self.root_error_status
            } else {
                0
            },
            AER_ERROR_SOURCE_IDENTIFICATION => if self.supports_root_registers() {
                self.error_source_identification
            } else {
                0
            },
            AER_TLP_PREFIX_LOG_0 => self.tlp_prefix_log.d0,
            AER_TLP_PREFIX_LOG_1 => self.tlp_prefix_log.d1,
            AER_TLP_PREFIX_LOG_2 => self.tlp_prefix_log.d2,
            AER_TLP_PREFIX_LOG_3 => self.tlp_prefix_log.d3,
            _ => 0xFFFF_FFFF,
        }
    }

    fn write_u32(&mut self, offset: u16, val: u32) {
        self.write(offset, ByteEnabledDwordWrite::with_all_bytes_enabled(val));
    }

    fn reset(&mut self) {
        self.unc_err_status = 0;
        self.unc_err_mask = DEFAULT_UNC_ERR_MASK;
        self.unc_err_severity = DEFAULT_UNC_ERR_SEVERITY;
        self.cor_err_status = 0;
        self.cor_err_mask = DEFAULT_COR_ERR_MASK;
        self.aer_cap_ctl = 0;
        self.header_log = LogDwords::new();
        self.root_error_command = 0;
        self.root_error_status = 0;
        self.error_source_identification = 0;
        self.tlp_prefix_log = LogDwords::new();
    }
}

/// Whether only writable bits are set in the control registers.
pub open spec fn aer_wf(cap: AerExtendedCapability) -> bool {
    &&& cap.aer_cap_ctl & !(AER_CAP_CTL_WRITABLE_MASK & enable_mask(cap.advanced_capabilities))
        == 0
    &&& cap.root_error_command & !ROOT_ERR_COMMAND_RW_MASK == 0
}

proof fn lemma_masks(x: u32, y: u32, m: u32, e: u32)
    ensures
        x & !m == 0 ==> x & m == x,
        (x & m) & !m == 0,
        x & !(m & e) == 0 ==> (x & m) & m & e == x,
        x & !(m & e) == 0 ==> ((x & !m) | (y & m & e)) & !(m & e) == 0,
        0u32 & !(m & e) == 0,
        0u32 & !m == 0,
{
    assert({
        &&& x & !m == 0 ==> x & m == x
        &&& (x & m) & !m == 0
        &&& x & !(m & e) == 0 ==> (x & m) & m & e == x
        &&& x & !(m & e) == 0 ==> ((x & !m) | (y & m & e)) & !(m & e) == 0
        &&& 0u32 & !(m & e) == 0
        &&& 0u32 & !m == 0
    }) by (bit_vector);
}

/// Control bits outside the writable ones are never set, whatever is written.
pub proof fn law_aer_control_masked(
    cap: AerExtendedCapability,
    offset: u16,
    w: ByteEnabledDwordWrite,
)
    requires
        aer_wf(cap),
    ensures
        aer_wf(aer_written(cap, offset, w)),
        aer_wf(cap.after_reset()),
{
    let e = enable_mask(cap.advanced_capabilities);
    lemma_masks(cap.aer_cap_ctl, merged(w, cap.aer_cap_ctl), AER_CAP_CTL_WRITABLE_MASK, e);
    lemma_masks(merged(w, cap.root_error_command), 0, ROOT_ERR_COMMAND_RW_MASK, 0);
}

/// A restore brings back what was saved, whatever was written in between.
pub proof fn law_aer_save_restore(
    cap: AerExtendedCapability,
    offset: u16,
    w: ByteEnabledDwordWrite,
)
    requires
        aer_wf(cap),
    ensures
        aer_restored(aer_written(cap, offset, w), aer_saved(cap)) == cap,
        aer_restored(cap.after_reset(), aer_saved(cap)) == cap,
{
    let e = enable_mask(cap.advanced_capabilities);
    lemma_masks(cap.aer_cap_ctl, 0, AER_CAP_CTL_WRITABLE_MASK, e);
    lemma_masks(cap.root_error_command, 0, ROOT_ERR_COMMAND_RW_MASK, 0);
}

/// A message that a root port has received leaves the port's own status and header
/// log as they are: they are the source's.
pub proof fn law_report_keeps_own_status(cap: AerExtendedCapability, e: AerInjection)
    ensures
        aer_reported(cap, e).unc_err_status == cap.unc_err_status,
        aer_reported(cap, e).cor_err_status == cap.cor_err_status,
        aer_reported(cap, e).header_log == cap.header_log,
{
}

/// Something that changes the capability.
pub enum AerStep {
    /// A write of some bytes of a register.
    Write(u16, ByteEnabledDwordWrite),
    /// A reset.
    Reset,
    /// A restore.
    Restore(AerSavedState),
    /// An error is recorded.
    Record(AerInjection),
    /// An error message is received.
    Report(AerInjection),
}

/// The capability after a step.
pub open spec fn aer_step(cap: AerExtendedCapability, step: AerStep) -> AerExtendedCapability {
    match step {
        AerStep::Write(offset, w) => aer_written(cap, offset, w),
        AerStep::Reset => cap.after_reset(),
        AerStep::Restore(state) => aer_restored(cap, state),
        AerStep::Record(e) => aer_recorded(cap, e),
        AerStep::Report(e) => aer_reported(cap, e),
    }
}

/// The capability after any number of steps.
pub open spec fn aer_after(
    cap: AerExtendedCapability,
    steps: Seq<AerStep>,
) -> AerExtendedCapability
    decreases steps.len(),
{
    if steps.len() == 0 {
        cap
    } else {
        aer_step(aer_after(cap, steps.drop_last()), steps.last())
    }
}

/// The port keeps its class, whatever is written, reset, restored or injected.
pub proof fn law_aer_port_type_kept(cap: AerExtendedCapability, steps: Seq<AerStep>)
    ensures
        aer_after(cap, steps).port_type == cap.port_type,
    decreases steps.len(),
{
    if steps.len() > 0 {
        law_aer_port_type_kept(cap, steps.drop_last());
    }
}

/// Only a root port has root error registers. At any other port they read as
/// zero, whatever is written, reset, restored or injected.
pub proof fn law_aer_root_registers(cap: AerExtendedCapability, steps: Seq<AerStep>)
    requires
        cap.port_type != AerPortType::RootPort,
    ensures
        aer_after(cap, steps).value(AER_ROOT_ERROR_COMMAND) == 0,
        aer_after(cap, steps).value(AER_ROOT_ERROR_STATUS) == 0,
        aer_after(cap, steps).value(AER_ERROR_SOURCE_IDENTIFICATION) == 0,
{
    law_aer_port_type_kept(cap, steps);
}

/// An offset where there is no register reads as all ones, and a write there does
/// nothing.
pub proof fn law_aer_no_register(
    cap: AerExtendedCapability,
    offset: u16,
    w: ByteEnabledDwordWrite,
)
    requires
        offset % 4 != 0 || offset >= 0x48,
    ensures
        cap.value(offset) == 0xFFFF_FFFF,
        aer_written(cap, offset, w) == cap,
{
}

/// A recorded error adds its bits to the status of its kind and leaves its header in
/// the log. Nothing else changes.
pub proof fn law_error_recorded(cap: AerExtendedCapability, e: AerInjection)
    ensures
        ({
            let next = aer_recorded(cap, e);
            let correctable = e.kind == AerInjectedErrorKind::Correctable;
            &&& next.cor_err_status == cap.cor_err_status | (if correctable {
                e.status_bits
            } else {
                0
            })
            &&& next.unc_err_status == cap.unc_err_status | (if correctable {
                0
            } else {
                e.status_bits
            })
            &&& next.header_log == e.header_log
            &&& next == (AerExtendedCapability {
                cor_err_status: next.cor_err_status,
                unc_err_status: next.unc_err_status,
                header_log: next.header_log,
                ..cap
            })
        }),
{
    let c = cap.cor_err_status;
    let u = cap.unc_err_status;
    assert(c | 0 == c && u | 0 == u) by (bit_vector);
}

/// What a root port makes of an error message. It signals an interrupt exactly if the
/// command register enables it for errors of that class: bit 0 for correctable ones,
/// bit 1 for non-fatal and bit 2 for fatal ones. An uncorrectable error is fatal if
/// the severity register says so of one of its bits.
pub proof fn law_report_interrupt(cap: AerExtendedCapability, e: AerInjection)
    ensures
        cap.port_type != AerPortType::RootPort ==> report_outcome(cap, e) is None && aer_reported(
            cap,
            e,
        ) == cap,
        cap.port_type == AerPortType::RootPort ==> {
            &&& report_outcome(cap, e) is Some
            &&& report_outcome(cap, e)->0.should_interrupt <==> cap.root_error_command & (
            if e.kind == AerInjectedErrorKind::Correctable {
                1u32
            } else if e.status_bits & cap.unc_err_severity == 0 {
                2
            } else {
                4
            }) != 0
        },
{
}

/// What a root port notes of an error message. Bit 0 of the status says that there was
/// a correctable error, bit 1 that there were several; bits 2 and 3 the same of
/// uncorrectable ones, of which bit 4 says that the first was fatal and bits 5 and 6
/// that there were non-fatal and fatal ones. The source of the first correctable error
/// is in the lower half of the source register, that of the first uncorrectable one
/// in the upper half. Nothing else changes.
pub proof fn law_report_noted(cap: AerExtendedCapability, e: AerInjection)
    requires
        cap.port_type == AerPortType::RootPort,
    ensures
        ({
            let next = aer_reported(cap, e);
            let was = cap.root_error_status;
            let now = next.root_error_status;
            let from = cap.error_source_identification;
            let to = next.error_source_identification;
            let fatal = e.status_bits & cap.unc_err_severity != 0;
            &&& e.kind == AerInjectedErrorKind::Correctable ==> {
                &&& now & 0x01 == 0x01
                &&& was & 0x01 == 0 ==> {
                    &&& now & !0x01u32 == was & !0x01u32
                    &&& to & 0xFFFF == e.source_id as u32
                    &&& to & 0xFFFF_0000 == from & 0xFFFF_0000
                }
                &&& was & 0x01 != 0 ==> {
                    &&& now & 0x02 == 0x02
                    &&& now & !0x02u32 == was & !0x02u32
                    &&& to == from
                }
            }
            &&& e.kind == AerInjectedErrorKind::Uncorrectable ==> {
                &&& now & 0x04 == 0x04
                &&& fatal ==> now & 0x40 == 0x40 && now & 0x20 == was & 0x20
                &&& !fatal ==> now & 0x20 == 0x20 && now & 0x40 == was & 0x40
                &&& now & !0x7Cu32 == was & !0x7Cu32
                &&& was & 0x04 == 0 ==> {
                    &&& now & 0x08 == was & 0x08
                    &&& fatal ==> now & 0x10 == 0x10
                    &&& !fatal ==> now & 0x10 == was & 0x10
                    &&& to & 0xFFFF == from & 0xFFFF
                    &&& to & 0xFFFF_0000 == (e.source_id as u32) << 16u32
                }
                &&& was & 0x04 != 0 ==> {
                    &&& now & 0x08 == 0x08
                    &&& now & 0x10 == was & 0x10
                    &&& to == from
                }
            }
            &&& next == (AerExtendedCapability {
                root_error_status: now,
                error_source_identification: to,
                ..cap
            })
        }),
{
    let w = cap.root_error_status;
    let f = cap.error_source_identification;
    let s = e.source_id;
    let k = if e.status_bits & cap.unc_err_severity != 0 {
        0x40u32
    } else {
        0x20
    };
    let g = bit_if(e.status_bits & cap.unc_err_severity != 0, 0x10);
    assert({
        &&& (w | 1) & 0x01 == 0x01 && (w | 1) & !0x01u32 == w & !0x01u32
        &&& (w | 2) & 0x02 == 0x02 && (w | 2) & !0x02u32 == w & !0x02u32
        &&& w & 0x01 != 0 ==> (w | 2) & 0x01 == 0x01
        &&& ((f & 0xFFFF_0000) | s as u32) & 0xFFFF == s as u32
        &&& ((f & 0xFFFF_0000) | s as u32) & 0xFFFF_0000 == f & 0xFFFF_0000
        &&& ((f & 0x0000_FFFF) | ((s as u32) << 16u32)) & 0xFFFF == f & 0xFFFF
        &&& ((f & 0x0000_FFFF) | ((s as u32) << 16u32)) & 0xFFFF_0000 == (s as u32) << 16u32
        &&& (w | 4 | k | g) & 0x04 == 0x04
        &&& w & 0x04 != 0 ==> (w | 8 | k) & 0x04 == 0x04
        &&& (w | 8 | k) & 0x08 == 0x08 && (w | 4 | k | g) & 0x08 == w & 0x08
        &&& (w | 8 | k) & 0x10 == w & 0x10
        &&& g == 0x10 ==> (w | 4 | k | g) & 0x10 == 0x10
        &&& g == 0 ==> (w | 4 | k | g) & 0x10 == w & 0x10
        &&& k == 0x40 ==> (w | 4 | k | g) & 0x40 == 0x40 && (w | 8 | k) & 0x40 == 0x40
        &&& k == 0x40 ==> (w | 4 | k | g) & 0x20 == w & 0x20 && (w | 8 | k) & 0x20 == w & 0x20
        &&& k == 0x20 ==> (w | 4 | k | g) & 0x20 == 0x20 && (w | 8 | k) & 0x20 == 0x20
        &&& k == 0x20 ==> (w | 4 | k | g) & 0x40 == w & 0x40 && (w | 8 | k) & 0x40 == w & 0x40
        &&& (w | 4 | k | g) & !0x7Cu32 == w & !0x7Cu32 && (w | 8 | k) & !0x7Cu32 == w & !0x7Cu32
    }) by (bit_vector)
        requires
            k == 0x40 || k == 0x20,
            g == 0x10 || g == 0,
    ;
}

}
