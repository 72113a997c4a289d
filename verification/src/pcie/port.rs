//! A port that faces downstream: that of a root complex or of a switch.
use crate::bars::no_mappings;
use crate::bars::BarMemory;
use crate::bars::BarMemoryKind;
use crate::bars::DeviceBars;
use crate::bus_range::AssignedBusRange;
use crate::capabilities::acs::AcsExtendedCapability;
use crate::capabilities::aer::aer_initial;
use crate::capabilities::aer::aer_port_type;
use crate::capabilities::aer::aer_recorded;
use crate::capabilities::aer::aer_reported;
use crate::capabilities::aer::report_outcome;
use crate::capabilities::aer::AerCapabilityConfig;
use crate::capabilities::aer::AerExtendedCapability;
use crate::capabilities::aer::AerInjectedErrorKind;
use crate::capabilities::aer::AerInjection;
use crate::capabilities::aer::AerInjectionOutcome;
use crate::capabilities::aer::AerPortType;
use crate::capabilities::aer::LogDwords;
use crate::capabilities::dpc::dpc_capability_value;
use crate::capabilities::dpc::dpc_idle;
use crate::capabilities::dpc::trigger_outcome;
use crate::capabilities::dpc::uncorrectable_triggered;
use crate::capabilities::dpc::with_rp_busy;
use crate::capabilities::dpc::DPC_CAPABILITY_INTERRUPT_MESSAGE_NUMBER;
use crate::capabilities::dpc::DPC_STATUS_TRIGGER;
use crate::capabilities::dpc::DpcCapabilityConfig;
use crate::capabilities::dpc::DpcExtendedCapability;
use crate::capabilities::dpc::DpcTriggerOutcome;
use crate::capabilities::kinds::Capability;
use crate::capabilities::kinds::ExtendedCapability;
use crate::capabilities::msi::msi_idle;
use crate::capabilities::msi::MsiCapability;
use crate::capabilities::msi::MsiMessage;
use crate::capabilities::pci_express::hotplug_interrupt;
use crate::capabilities::pci_express::hotplug_set;
use crate::capabilities::pci_express::presence_set;
use crate::capabilities::pci_express::FlrRequest;
use crate::capabilities::pci_express::PciExpressCapability;
use crate::capabilities::pci_express::PciExpressState;
use crate::capabilities::pci_express::SLOT_CAPS_HOT_PLUG_CAPABLE;
use crate::capabilities::pci_express::Slot;
use crate::capabilities::DevicePortType;
use crate::cfg_space::common::bar0_only;
use crate::cfg_space::common::common_wf;
use crate::cfg_space::common::has_bars;
use crate::cfg_space::common::idle_header;
use crate::cfg_space::common::CommonModel;
use crate::cfg_space::type1::assigned_buses;
use crate::cfg_space::type1::idle_type1;
use crate::cfg_space::type1::ConfigSpaceType1Emulator;
use crate::cfg_space::type1::Type1Model;
use crate::cfg_space::HardwareIds;
use crate::io::IoError;
use crate::io::IoResult;
use crate::pcie::find::aer_index;
use crate::pcie::find::dpc_index;
use crate::pcie::find::find_aer;
use crate::pcie::find::find_dpc;
use crate::pcie::find::find_msi;
use crate::pcie::find::find_pcie;
use crate::pcie::find::msi_index;
use crate::pcie::find::pcie_index;
use crate::pcie::settings::acs_allowed;
use crate::pcie::settings::bar_model;
use crate::pcie::settings::bar_plan;
use crate::pcie::settings::filter_acs_capabilities_for_bridge;
use crate::pcie::settings::plan_bar;
use crate::pcie::settings::BarModel;
use crate::pcie::settings::CxlDvsecs;
use crate::pcie::settings::CxlPort;
use crate::pcie::settings::PcieAerSettings;
use crate::pcie::settings::PcieDpcSettings;
use crate::pcie::settings::PciePortSettings;
use crate::pcie::settings::PortBarDefinition;
use crate::pcie::GenericPciBusDevice;
use crate::pcie::PcieDpcRoutingAction;
use vstd::prelude::*;

verus! {

/// What is connected to a port.
#[derive(Debug)]
pub struct Link<D> {
    /// The name of the device.
    pub name: String,
    /// The device.
    pub device: D,
}

/// A port that faces downstream.
#[derive(Debug)]
pub struct PcieDownstreamPort<D> {
    /// The name of the port.
    pub name: String,
    /// Config space of the port.
    pub cfg_space: ConfigSpaceType1Emulator<Capability, ExtendedCapability>,
    /// What is connected.
    pub link: Option<Link<D>>,
    /// The BAR.
    pub bar: Option<PortBarDefinition>,
    /// CXL, as the port advertises it.
    pub cxl: Option<CxlPort>,
    /// Whether there are CXL component registers behind the BAR.
    pub component_registers: bool,
    /// Messages that the port has signaled and that nobody has delivered yet.
    pub outbox: Vec<MsiMessage>,
}

/// Config space of a port as a value.
pub type PortSpace = Type1Model<Capability, ExtendedCapability>;

/// A port as a value.
#[verifier::ext_equal]
pub struct PortModel<M> {
    /// The name of the port.
    pub name: Seq<char>,
    /// Config space of the port.
    pub cfg: PortSpace,
    /// What is connected: its name, and the device.
    pub link: Option<(Seq<char>, M)>,
    /// The BAR.
    pub bar: Option<BarModel>,
    /// CXL, as the port advertises it.
    pub cxl: Option<CxlPort>,
    /// Whether there are CXL component registers behind the BAR.
    pub component_registers: bool,
    /// Messages that the port has signaled and that nobody has delivered yet.
    pub outbox: Seq<MsiMessage>,
}

/// What is connected as a value.
pub open spec fn link_model<D: GenericPciBusDevice>(link: Option<Link<D>>) -> Option<
    (Seq<char>, D::Model),
> {
    match link {
        Some(l) => Some((l.name@, l.device.model())),
        None => None,
    }
}

/// Why a device cannot be connected or taken out.
#[derive(Debug, Clone, Copy, PartialEq, Eq, Structural)]
pub enum LinkError {
    /// The port has another name.
    NameMismatch,
    /// Something is connected already.
    Occupied,
    /// Nothing is connected.
    Empty,
    /// The port has no hotplug slot.
    NotHotplugCapable,
}

/// Why an error cannot be injected.
#[derive(Debug, Clone, Copy, PartialEq, Eq, Structural)]
pub enum InjectError {
    /// Only uncorrectable errors are contained.
    NotUncorrectable,
    /// Only root ports with an AER capability report errors.
    NotAReportingRootPort,
    /// The port has no AER capability.
    NoAerCapability,
    /// The port has no DPC capability.
    NoDpcCapability,
}

/// An error to be injected at a port.
#[derive(Debug, Clone, Copy)]
pub struct PcieAerInjectRequest {
    /// The kind.
    pub kind: AerInjectedErrorKind,
    /// Status bits to set.
    pub status_bits: u32,
    /// Header log.
    pub header_log: LogDwords,
    /// Bus, device and function number of the source.
    pub source_id: u16,
}

/// The error that a request stands for.
pub open spec fn injection_of(request: PcieAerInjectRequest) -> AerInjection {
    AerInjection {
        kind: request.kind,
        status_bits: request.status_bits,
        header_log: request.header_log,
        source_id: request.source_id,
    }
}

/// What an interrupt of a port is for.
#[derive(Debug, Clone, Copy, PartialEq, Eq, Structural)]
pub enum PortInterruptKind {
    /// Hotplug.
    Hotplug,
    /// Error reporting.
    Aer,
    /// Containment.
    Dpc,
}

/// The PCI Express capability that a port is made with.
pub open spec fn port_pcie_cap(
    port_type: DevicePortType,
    hotplug_slot_number: Option<u32>,
) -> PciExpressCapability<FlrRequest> {
    PciExpressCapability {
        port_type,
        device_capabilities: 0,
        interrupt_message_number: 0,
        state: PciExpressState { device_control: 0, device_status: 0 },
        slot: match hotplug_slot_number {
            Some(number) => Some(
                Slot {
                    capabilities: SLOT_CAPS_HOT_PLUG_CAPABLE | ((number & 0x1fff) << 19u32),
                    control: 0,
                    status: 0,
                    link_status: 0,
                },
            ),
            None => None,
        },
        flr_handler: None,
    }
}

/// The MSI capability that a port is made with: a single message.
pub open spec fn port_msi_cap() -> MsiCapability {
    MsiCapability { state: msi_idle(0, false), addr_64bit: true, per_vector_masking: false }
}

/// The AER capability that a port is made with. Only a root port has an
/// interrupt for errors.
pub open spec fn port_aer_cap(port_type: DevicePortType, s: PcieAerSettings) -> AerExtendedCapability {
    AerExtendedCapability {
        root_error_interrupt_message_number: if port_type == DevicePortType::RootPort {
            Some(0)
        } else {
            None
        },
        ..aer_initial(
            aer_port_type(port_type),
            AerCapabilityConfig {
                correctable_mask: s.correctable_mask,
                uncorrectable_mask: s.uncorrectable_mask,
                uncorrectable_severity_mask: s.uncorrectable_severity_mask,
            },
        )
    }
}

/// How the DPC capability of a port is configured.
pub open spec fn dpc_config(s: PcieDpcSettings) -> DpcCapabilityConfig {
    DpcCapabilityConfig {
        dpc_interrupt_message_number: Some(0),
        poisoned_tlp_egress_blocking_supported: s.poisoned_tlp_egress_blocking_supported,
        dpc_software_triggering_supported: s.software_trigger_supported,
        dl_active_err_cor_signaling_supported: s.dl_active_err_cor_signaling_supported,
    }
}

/// Whether a port of a kind can contain errors.
pub open spec fn can_contain(port_type: DevicePortType) -> bool {
    port_type == DevicePortType::RootPort || port_type == DevicePortType::DownstreamSwitchPort
}

/// The extended capabilities that a port is made with.
pub open spec fn port_exts(port_type: DevicePortType, settings: PciePortSettings) -> Seq<
    ExtendedCapability,
> {
    let acs = acs_allowed(port_type, settings.acs_capabilities_supported);
    let acs_caps = if acs != 0 {
        seq![
            ExtendedCapability::Acs(AcsExtendedCapability { capabilities: acs, control: 0 }),
        ]
    } else {
        Seq::empty()
    };
    let aer_caps = match settings.aer {
        Some(s) => seq![ExtendedCapability::Aer(port_aer_cap(port_type, s))],
        None => Seq::empty(),
    };
    let dpc_caps = match settings.dpc {
        Some(s) if can_contain(port_type) => seq![
            ExtendedCapability::Dpc(dpc_idle(dpc_capability_value(port_type, dpc_config(s)))),
        ],
        _ => Seq::empty(),
    };
    acs_caps + aer_caps + dpc_caps
}

/// The extended capabilities by which a port tells of CXL: first that it is a CXL
/// port, then what it advertises, then where its component registers are.
pub open spec fn cxl_exts(cxl: Option<CxlPort>, dvsecs: CxlDvsecs) -> Seq<ExtendedCapability> {
    match cxl {
        Some(c) => seq![
            ExtendedCapability::Dvsec(dvsecs.port),
            ExtendedCapability::Dvsec(dvsecs.flex_bus),
        ] + match dvsecs.locator {
            Some(l) if c.locator is Some => seq![ExtendedCapability::Dvsec(l)],
            _ => Seq::empty(),
        },
        None => Seq::empty(),
    }
}

/// The memory behind BAR 0 of a port.
pub open spec fn port_bar_memory(bar: Option<BarModel>) -> Option<BarMemory> {
    match bar {
        Some(b) => Some(BarMemory { len: b.size_bytes, kind: BarMemoryKind::Intercept }),
        None => None,
    }
}

/// Whether a port is as it was made.
pub open spec fn port_made_from<M>(
    m: PortModel<M>,
    name: Seq<char>,
    hardware_ids: HardwareIds,
    port_type: DevicePortType,
    multi_function: bool,
    hotplug_slot_number: Option<u32>,
    settings: PciePortSettings,
    bar: Option<BarModel>,
    dvsecs: CxlDvsecs,
    intercepts: bool,
) -> bool {
    let plan = bar_plan(settings, bar, dvsecs.locator is Some, intercepts);
    &&& m.name == name
    &&& m.link is None
    &&& m.bar == plan.bar
    &&& m.cxl == plan.cxl
    &&& m.component_registers == plan.component_registers
    &&& m.outbox.len() == 0
    &&& m.cfg.state == idle_type1()
    &&& m.cfg.common.state == idle_header()
    &&& m.cfg.common.hardware_ids == hardware_ids
    &&& m.cfg.common.multi_function_bit == multi_function
    &&& m.cfg.common.intx_interrupt is None
    &&& m.cfg.common.capabilities == seq![
        Capability::PciExpress(port_pcie_cap(port_type, hotplug_slot_number)),
        Capability::Msi(port_msi_cap()),
    ]
    &&& m.cfg.common.extended_capabilities == port_exts(port_type, settings) + cxl_exts(
        plan.cxl,
        dvsecs,
    )
    &&& m.cfg.common.bar_count == 2
    &&& has_bars(m.cfg.common, bar0_only(port_bar_memory(plan.bar)))
    &&& m.cfg.common.active_bars == no_mappings()
    &&& common_wf(m.cfg.common)
}

/// Whether a port contains an error.
pub open spec fn contains(cfg: PortSpace) -> bool {
    match dpc_index(cfg.common.extended_capabilities, 0) {
        Some(i) => match cfg.common.extended_capabilities[i] {
            ExtendedCapability::Dpc(dpc) => dpc.status & DPC_STATUS_TRIGGER != 0,
            _ => false,
        },
        None => false,
    }
}

/// Whether a port hands an access on a bus down: its bus numbers are assigned,
/// and the bus is one of them.
pub open spec fn decodes(cfg: PortSpace, bus: u8) -> bool {
    &&& assigned_buses(cfg.state) != (0u8, 0u8)
    &&& assigned_buses(cfg.state).0 <= bus <= assigned_buses(cfg.state).1
}

/// What a port makes of the result of what is behind it: nothing there is no
/// error.
pub open spec fn forwarded_result(r: Option<IoResult>) -> IoResult {
    match r {
        Some(Err(e)) => Err(e),
        _ => Ok(()),
    }
}

/// The port after a read is handed down, the result and the value. All ones
/// while the port contains an error.
pub open spec fn forward_read<D: GenericPciBusDevice>(
    m: PortModel<D::Model>,
    bus: u8,
    function: u8,
    offset: u16,
    before: u32,
) -> (PortModel<D::Model>, IoResult, u32) {
    if contains(m.cfg) {
        (m, Ok(()), 0xFFFF_FFFF)
    } else if !decodes(m.cfg, bus) {
        (m, Ok(()), before)
    } else {
        match m.link {
            Some((name, device)) => {
                let read = D::read_routed(
                    device,
                    assigned_buses(m.cfg.state).0,
                    bus,
                    function,
                    offset,
                    before,
                );
                (
                    PortModel { link: Some((name, read.model)), ..m },
                    forwarded_result(read.result),
                    read.value,
                )
            },
            None => (m, Ok(()), before),
        }
    }
}

/// The port after a write is handed down, and the result. Writes are dropped
/// while the port contains an error.
pub open spec fn forward_write<D: GenericPciBusDevice>(
    m: PortModel<D::Model>,
    bus: u8,
    function: u8,
    offset: u16,
    value: u32,
) -> (PortModel<D::Model>, IoResult) {
    if contains(m.cfg) || !decodes(m.cfg, bus) {
        (m, Ok(()))
    } else {
        match m.link {
            Some((name, device)) => {
                let (next, result) = D::write_routed(
                    device,
                    assigned_buses(m.cfg.state).0,
                    bus,
                    function,
                    offset,
                    value,
                );
                (PortModel { link: Some((name, next)), ..m }, forwarded_result(result))
            },
            None => (m, Ok(())),
        }
    }
}

/// A port with other config space.
pub open spec fn with_cfg<M>(m: PortModel<M>, cfg: PortSpace) -> PortModel<M> {
    PortModel { cfg, ..m }
}

/// Config space with other capabilities.
pub open spec fn with_caps(cfg: PortSpace, caps: Seq<Capability>) -> PortSpace {
    Type1Model { common: CommonModel { capabilities: caps, ..cfg.common }, ..cfg }
}

/// Config space with other extended capabilities.
pub open spec fn with_exts(cfg: PortSpace, exts: Seq<ExtendedCapability>) -> PortSpace {
    Type1Model { common: CommonModel { extended_capabilities: exts, ..cfg.common }, ..cfg }
}

/// The PCI Express capability of a port.
pub open spec fn pcie_of(cfg: PortSpace) -> Option<PciExpressCapability<FlrRequest>> {
    match pcie_index(cfg.common.capabilities, 0) {
        Some(i) => match cfg.common.capabilities[i] {
            Capability::PciExpress(c) => Some(c),
            _ => None,
        },
        None => None,
    }
}

/// Config space with another PCI Express capability.
pub open spec fn with_pcie(cfg: PortSpace, cap: PciExpressCapability<FlrRequest>) -> PortSpace {
    match pcie_index(cfg.common.capabilities, 0) {
        Some(i) => with_caps(
            cfg,
            cfg.common.capabilities.update(i, Capability::PciExpress(cap)),
        ),
        None => cfg,
    }
}

/// The AER capability of a port.
pub open spec fn aer_of(cfg: PortSpace) -> Option<AerExtendedCapability> {
    match aer_index(cfg.common.extended_capabilities, 0) {
        Some(i) => match cfg.common.extended_capabilities[i] {
            ExtendedCapability::Aer(c) => Some(c),
            _ => None,
        },
        None => None,
    }
}

/// Config space with another AER capability.
pub open spec fn with_aer(cfg: PortSpace, cap: AerExtendedCapability) -> PortSpace {
    match aer_index(cfg.common.extended_capabilities, 0) {
        Some(i) => with_exts(
            cfg,
            cfg.common.extended_capabilities.update(i, ExtendedCapability::Aer(cap)),
        ),
        None => cfg,
    }
}

/// The DPC capability of a port.
pub open spec fn dpc_of(cfg: PortSpace) -> Option<DpcExtendedCapability> {
    match dpc_index(cfg.common.extended_capabilities, 0) {
        Some(i) => match cfg.common.extended_capabilities[i] {
            ExtendedCapability::Dpc(c) => Some(c),
            _ => None,
        },
        None => None,
    }
}

/// Config space with another DPC capability.
pub open spec fn with_dpc(cfg: PortSpace, cap: DpcExtendedCapability) -> PortSpace {
    match dpc_index(cfg.common.extended_capabilities, 0) {
        Some(i) => with_exts(
            cfg,
            cfg.common.extended_capabilities.update(i, ExtendedCapability::Dpc(cap)),
        ),
        None => cfg,
    }
}

/// The message that is armed in the MSI capability of a port.
pub open spec fn armed_message(cfg: PortSpace) -> Option<MsiMessage> {
    match msi_index(cfg.common.capabilities, 0) {
        Some(i) => match cfg.common.capabilities[i] {
            Capability::Msi(c) => c.state.interrupt.armed,
            _ => None,
        },
        None => None,
    }
}

/// The message number of an interrupt of a port, if the interrupt is there and
/// can be signaled.
pub open spec fn message_number(cfg: PortSpace, kind: PortInterruptKind) -> Option<u8> {
    match kind {
        PortInterruptKind::Hotplug => match pcie_of(cfg) {
            Some(c) if hotplug_interrupt(c) => Some(c.interrupt_message_number),
            _ => None,
        },
        PortInterruptKind::Aer => match aer_of(cfg) {
            Some(c) => c.root_error_interrupt_message_number,
            None => None,
        },
        PortInterruptKind::Dpc => match dpc_of(cfg) {
            Some(c) => Some((c.capability & DPC_CAPABILITY_INTERRUPT_MESSAGE_NUMBER) as u8),
            None => None,
        },
    }
}

/// The port after an interrupt was signaled: its message goes out if it is
/// armed.
pub open spec fn fired<M>(m: PortModel<M>, kind: PortInterruptKind) -> PortModel<M> {
    match (message_number(m.cfg, kind), armed_message(m.cfg)) {
        (Some(_), Some(message)) => PortModel { outbox: m.outbox.push(message), ..m },
        _ => m,
    }
}

/// Whether a port has a hotplug slot.
pub open spec fn is_hotplug_capable(cfg: PortSpace) -> bool {
    pcie_of(cfg) is Some && pcie_of(cfg)->0.slot is Some
}

/// Config space with something in the slot, or nothing.
pub open spec fn presence(cfg: PortSpace, present: bool) -> PortSpace {
    match pcie_of(cfg) {
        Some(c) => with_pcie(cfg, presence_set(c, present)),
        None => cfg,
    }
}

/// A capability after something was plugged in or taken out.
pub open spec fn cap_hotplugged(cap: Capability, present: bool) -> Capability {
    match cap {
        Capability::PciExpress(c) => Capability::PciExpress(hotplug_set(c, present)),
        _ => cap,
    }
}

/// Config space after something was plugged in or taken out.
pub open spec fn hotplugged(cfg: PortSpace, present: bool) -> PortSpace {
    with_caps(
        cfg,
        Seq::new(
            cfg.common.capabilities.len(),
            |i: int| cap_hotplugged(cfg.common.capabilities[i], present),
        ),
    )
}

/// The port after an error was recorded in what is connected, and whether it
/// was.
pub open spec fn child_aer<D: GenericPciBusDevice>(
    m: PortModel<D::Model>,
    target_bus: u8,
    function: u8,
    injection: AerInjection,
) -> (PortModel<D::Model>, bool) {
    match m.link {
        Some((name, device)) => {
            let (next, done) = D::aer_routed(
                device,
                assigned_buses(m.cfg.state).0,
                target_bus,
                function,
                injection,
            );
            (PortModel { link: Some((name, next)), ..m }, done)
        },
        None => (m, false),
    }
}

/// The port after a port behind it was to contain an error, and whether one did.
pub open spec fn child_dpc<D: GenericPciBusDevice>(
    m: PortModel<D::Model>,
    target_bus: u8,
    function: u8,
    action: PcieDpcRoutingAction,
) -> (PortModel<D::Model>, bool) {
    match m.link {
        Some((name, device)) => {
            let (next, done) = D::dpc_routed(
                device,
                assigned_buses(m.cfg.state).0,
                target_bus,
                function,
                action,
            );
            (PortModel { link: Some((name, next)), ..m }, done)
        },
        None => (m, false),
    }
}

/// The port after an error was injected, and the result.
///
/// The error is recorded in the port's own AER capability and reported there.
/// Then it is recorded at its source, and the interrupt is signaled if it is
/// enabled.
pub open spec fn aer_injected<D: GenericPciBusDevice>(
    m: PortModel<D::Model>,
    request: PcieAerInjectRequest,
    require_root: bool,
) -> (PortModel<D::Model>, Result<(), InjectError>) {
    let e = injection_of(request);
    match aer_of(m.cfg) {
        None => (
            m,
            Err(
                if require_root {
                    InjectError::NotAReportingRootPort
                } else {
                    InjectError::NoAerCapability
                },
            ),
        ),
        Some(aer) => {
            let local = with_cfg(m, with_aer(m.cfg, aer_reported(aer_recorded(aer, e), e)));
            let outcome = report_outcome(aer, e);
            if require_root && outcome is None {
                (local, Err(InjectError::NotAReportingRootPort))
            } else {
                let routed = child_aer::<D>(
                    local,
                    (request.source_id / 256) as u8,
                    (request.source_id % 256) as u8,
                    e,
                ).0;
                if outcome is Some && outcome->0.should_interrupt {
                    (fired(routed, PortInterruptKind::Aer), Ok(()))
                } else {
                    (routed, Ok(()))
                }
            }
        },
    }
}

/// The port after it has started to contain an error of a source.
pub open spec fn dpc_begun<M>(m: PortModel<M>, source_id: u16) -> PortModel<M> {
    match dpc_of(m.cfg) {
        Some(dpc) => {
            let next = with_cfg(
                m,
                with_dpc(m.cfg, with_rp_busy(uncorrectable_triggered(dpc, source_id), true)),
            );
            if trigger_outcome(dpc).should_interrupt {
                fired(next, PortInterruptKind::Dpc)
            } else {
                next
            }
        },
        None => m,
    }
}

/// The port after its recovery is done.
pub open spec fn dpc_completed<M>(m: PortModel<M>) -> PortModel<M> {
    match dpc_of(m.cfg) {
        Some(dpc) => with_cfg(m, with_dpc(m.cfg, with_rp_busy(dpc, false))),
        None => m,
    }
}

/// The port after an error was injected that it contains, and the result.
pub open spec fn dpc_injected<D: GenericPciBusDevice>(
    m: PortModel<D::Model>,
    request: PcieAerInjectRequest,
) -> (PortModel<D::Model>, Result<(), InjectError>) {
    if request.kind != AerInjectedErrorKind::Uncorrectable {
        (m, Err(InjectError::NotUncorrectable))
    } else {
        let (next, result) = aer_injected::<D>(m, request, false);
        match result {
            Err(e) => (next, Err(e)),
            Ok(_) => if dpc_of(next.cfg) is None {
                (next, Err(InjectError::NoDpcCapability))
            } else {
                (dpc_begun(next, request.source_id), Ok(()))
            },
        }
    }
}

/// The port after an error was recorded in its own AER capability, and whether
/// there is one.
pub open spec fn local_aer<M>(m: PortModel<M>, e: AerInjection) -> (PortModel<M>, bool) {
    match aer_of(m.cfg) {
        Some(aer) => (with_cfg(m, with_aer(m.cfg, aer_reported(aer_recorded(aer, e), e))), true),
        None => (m, false),
    }
}

/// The port after an error was reported to it.
pub open spec fn aer_report_received<M>(m: PortModel<M>, e: AerInjection) -> PortModel<M> {
    match aer_of(m.cfg) {
        Some(aer) => {
            let next = with_cfg(m, with_aer(m.cfg, aer_reported(aer, e)));
            let outcome = report_outcome(aer, e);
            if outcome is Some && outcome->0.should_interrupt {
                fired(next, PortInterruptKind::Aer)
            } else {
                next
            }
        },
        None => m,
    }
}

/// The port after it was to contain an error of a source, and whether it did:
/// only a port with a DPC capability can. If an error is given, it is reported to
/// the port first.
pub open spec fn dpc_applied<M>(
    m: PortModel<M>,
    source_id: u16,
    action: PcieDpcRoutingAction,
) -> (PortModel<M>, bool) {
    if dpc_of(m.cfg) is None {
        (m, false)
    } else {
        match action {
            PcieDpcRoutingAction::Begin { aer } => {
                let reported = match aer {
                    Some(e) => aer_report_received(m, e),
                    None => m,
                };
                (dpc_begun(reported, source_id), true)
            },
            PcieDpcRoutingAction::Complete => (dpc_completed(m), true),
        }
    }
}

fn push_exts(
    port_type: DevicePortType,
    settings: &PciePortSettings,
) -> (r: Vec<ExtendedCapability>)
    ensures
        r@ == port_exts(port_type, *settings),
{
    let mut exts: Vec<ExtendedCapability> = Vec::new();
    let acs: u16 = filter_acs_capabilities_for_bridge(
        &port_type,
        settings.acs_capabilities_supported,
    );
    if acs != 0 {
        exts.push(ExtendedCapability::Acs(AcsExtendedCapability::with_capabilities(acs)));
    }
    if let Some(s) = settings.aer {
        let mut aer: AerExtendedCapability = AerExtendedCapability::with_config(
            AerPortType::from(port_type),
            AerCapabilityConfig {
                correctable_mask: s.correctable_mask,
                uncorrectable_mask: s.uncorrectable_mask,
                uncorrectable_severity_mask: s.uncorrectable_severity_mask,
            },
        );
        if port_type == DevicePortType::RootPort {
            aer.root_error_interrupt_message_number = Some(0);
        }
        exts.push(ExtendedCapability::Aer(aer));
    }
    if let Some(s) = settings.dpc {
        if port_type == DevicePortType::RootPort || port_type
            == DevicePortType::DownstreamSwitchPort {
            exts.push(
                ExtendedCapability::Dpc(
                    DpcExtendedCapability::with_config(
                        &port_type,
                        DpcCapabilityConfig {
                            dpc_interrupt_message_number: Some(0),
                            poisoned_tlp_egress_blocking_supported:
                                s.poisoned_tlp_egress_blocking_supported,
                            dpc_software_triggering_supported: s.software_trigger_supported,
                            dl_active_err_cor_signaling_supported:
                                s.dl_active_err_cor_signaling_supported,
                        },
                    ),
                ),
            );
        }
    }
    assert(exts@ =~= port_exts(port_type, *settings));
    exts
}

fn push_dvsecs(cxl: &Option<CxlPort>, dvsecs: CxlDvsecs, exts: &mut Vec<ExtendedCapability>)
    ensures
        final(exts)@ == old(exts)@ + cxl_exts(*cxl, dvsecs),
{
    if let Some(c) = cxl {
        exts.push(ExtendedCapability::Dvsec(dvsecs.port));
        exts.push(ExtendedCapability::Dvsec(dvsecs.flex_bus));
        if c.locator.is_some() {
            if let Some(l) = dvsecs.locator {
                exts.push(ExtendedCapability::Dvsec(l));
            }
        }
    }
    assert(exts@ =~= old(exts)@ + cxl_exts(*cxl, dvsecs));
}

impl<D: GenericPciBusDevice> PcieDownstreamPort<D> {
    /// The port as a value.
    pub open spec fn model(&self) -> PortModel<D::Model> {
        PortModel {
            name: self.name@,
            cfg: self.cfg_space@,
            link: link_model(self.link),
            bar: bar_model(self.bar),
            cxl: self.cxl,
            component_registers: self.component_registers,
            outbox: self.outbox@,
        }
    }

    /// Creates a port.
    ///
    /// `hotplug_slot_number` is that of a hotplug slot, if there is to be one.
    /// `dvsecs` are the registers that tell of CXL, with a register locator if one
    /// can be built for the CXL component registers of the BAR. `intercepts` says
    /// whether accesses to the BAR can be intercepted.
    pub fn new(
        name: String,
        hardware_ids: HardwareIds,
        port_type: DevicePortType,
        multi_function: bool,
        hotplug_slot_number: Option<u32>,
        settings: PciePortSettings,
        bar: Option<PortBarDefinition>,
        dvsecs: CxlDvsecs,
        intercepts: bool,
    ) -> (r: Self)
        requires
            bar matches Some(b) ==> b.size_bytes <= 0x8000_0000_0000_0000,
        ensures
            port_made_from(
                r.model(),
                name@,
                hardware_ids,
                port_type,
                multi_function,
                hotplug_slot_number,
                settings,
                bar_model(bar),
                dvsecs,
                intercepts,
            ),
    {
        let ghost plan = bar_plan(settings, bar_model(bar), dvsecs.locator is Some, intercepts);
        let (bar, cxl, component_registers) = plan_bar(
            &settings,
            bar,
            dvsecs.locator.is_some(),
            intercepts,
        );
        let mut bars: DeviceBars = DeviceBars::new();
        if let Some(b) = &bar {
            bars = bars.bar0(b.size_bytes, BarMemoryKind::Intercept);
        }
        let mut pcie: PciExpressCapability<FlrRequest> = PciExpressCapability::new(
            port_type,
            false,
            None,
        );
        if let Some(number) = hotplug_slot_number {
            pcie = pcie.with_interrupt_message_number(0).with_hotplug_support(number);
        }
        let mut caps: Vec<Capability> = Vec::new();
        caps.push(Capability::PciExpress(pcie));
        caps.push(Capability::Msi(MsiCapability::new(0, true, false)));
        let mut exts: Vec<ExtendedCapability> = push_exts(port_type, &settings);
        push_dvsecs(&cxl, dvsecs, &mut exts);
        proof {
            assert(caps@ =~= seq![
                Capability::PciExpress(port_pcie_cap(port_type, hotplug_slot_number)),
                Capability::Msi(port_msi_cap()),
            ]);
            assert(bars.bars.s0 == port_bar_memory(plan.bar));
        }
        let cfg_space: ConfigSpaceType1Emulator<Capability, ExtendedCapability> =
            ConfigSpaceType1Emulator::new_with_bars(
            hardware_ids,
            caps,
            exts,
            bars,
        ).with_multi_function_bit(multi_function);
        PcieDownstreamPort {
            name,
            cfg_space,
            link: None,
            bar,
            cxl,
            component_registers,
            outbox: Vec::new(),
        }
    }

    /// Lends the bus numbers in the registers of the port.
    pub fn bus_range(&self) -> (r: &AssignedBusRange)
        ensures
            *r == self.cfg_space.state.bus_range,
    {
        self.cfg_space.bus_range()
    }

    fn is_containing(&self) -> (r: bool)
        ensures
            r == contains(self.cfg_space@),
    {
        match find_dpc(&self.cfg_space.common.extended_capabilities) {
            Some(i) => {
                if let ExtendedCapability::Dpc(dpc) =
                    self.cfg_space.common.extended_capabilities[i] {
                    dpc.containment_active()
                } else {
                    false
                }
            },
            None => false,
        }
    }

    fn is_decoding(&self, bus: u8) -> (r: bool)
        ensures
            r == decodes(self.cfg_space@, bus),
    {
        let (first, last) = self.cfg_space.assigned_bus_range();
        !(first == 0 && last == 0) && first <= bus && bus <= last
    }

    /// Hands a config read down to what is connected.
    pub fn forward_cfg_read_with_routing(
        &mut self,
        bus: u8,
        function: u8,
        cfg_offset: u16,
        value: &mut u32,
    ) -> (r: IoResult)
        ensures
            (final(self).model(), r, *final(value)) == forward_read::<D>(
                old(self).model(),
                bus,
                function,
                cfg_offset,
                *old(value),
            ),
    {
        if self.is_containing() {
            *value = 0xFFFF_FFFF;
            return Ok(());
        }
        if !self.is_decoding(bus) {
            return Ok(());
        }
        let (secondary_bus, _) = self.cfg_space.assigned_bus_range();
        if let Some(mut link) = self.link.take() {
            let result: Option<IoResult> = link.device.pci_cfg_read_with_routing(
                secondary_bus,
                bus,
                function,
                cfg_offset,
                value,
            );
            self.link = Some(link);
            if let Some(Err(e)) = result {
                return Err(e);
            }
        }
        Ok(())
    }

    /// Hands a config write down to what is connected.
    pub fn forward_cfg_write_with_routing(
        &mut self,
        bus: u8,
        function: u8,
        cfg_offset: u16,
        value: u32,
    ) -> (r: IoResult)
        ensures
            (final(self).model(), r) == forward_write::<D>(
                old(self).model(),
                bus,
                function,
                cfg_offset,
                value,
            ),
    {
        if self.is_containing() || !self.is_decoding(bus) {
            return Ok(());
        }
        let (secondary_bus, _) = self.cfg_space.assigned_bus_range();
        if let Some(mut link) = self.link.take() {
            let result: Option<IoResult> = link.device.pci_cfg_write_with_routing(
                secondary_bus,
                bus,
                function,
                cfg_offset,
                value,
            );
            self.link = Some(link);
            if let Some(Err(e)) = result {
                return Err(e);
            }
        }
        Ok(())
    }

    fn set_presence(&mut self, present: bool)
        ensures
            final(self).model() == with_cfg(
                old(self).model(),
                presence(old(self).cfg_space@, present),
            ),
    {
        if let Some(i) = find_pcie(&self.cfg_space.common.capabilities) {
            if let Capability::PciExpress(cap) = self.cfg_space.common.capabilities[i] {
                let mut next: PciExpressCapability<FlrRequest> = cap;
                next.set_presence_detect_state(present);
                self.cfg_space.common.capabilities[i] = Capability::PciExpress(next);
            }
        }
    }

    /// Connects a device to the port with a name, which is to be this one.
    pub fn add_pcie_device(&mut self, port_name: &String, device_name: String, device: D) -> (r:
        Result<(), LinkError>)
        ensures
            port_name@ != old(self).name@ ==> r == Err::<(), LinkError>(LinkError::NameMismatch)
                && final(self).model() == old(self).model(),
            port_name@ == old(self).name@ && old(self).link is Some ==> r == Err::<(), LinkError>(
                LinkError::Occupied,
            ) && final(self).model() == old(self).model(),
            port_name@ == old(self).name@ && old(self).link is None ==> r is Ok
                && final(self).model() == (PortModel {
                link: Some((device_name@, device.model())),
                cfg: presence(old(self).cfg_space@, true),
                ..old(self).model()
            }),
    {
        if *port_name != self.name {
            return Err(LinkError::NameMismatch);
        }
        if self.link.is_some() {
            return Err(LinkError::Occupied);
        }
        self.link = Some(Link { name: device_name, device });
        self.set_presence(true);
        Ok(())
    }

    fn hotplug_capable(&self) -> (r: bool)
        ensures
            r == is_hotplug_capable(self.cfg_space@),
    {
        match find_pcie(&self.cfg_space.common.capabilities) {
            Some(i) => {
                if let Capability::PciExpress(cap) = self.cfg_space.common.capabilities[i] {
                    cap.hot_plug_capable()
                } else {
                    false
                }
            },
            None => false,
        }
    }

    fn set_hotplug(&mut self, present: bool)
        ensures
            final(self).model() == with_cfg(
                old(self).model(),
                hotplugged(old(self).cfg_space@, present),
            ),
    {
        let ghost before = self.cfg_space.common.capabilities@;
        let mut caps: Vec<Capability> = Vec::new();
        let mut i: usize = 0;
        while i < self.cfg_space.common.capabilities.len()
            invariant
                *self == *old(self),
                before == self.cfg_space.common.capabilities@,
                i <= before.len(),
                caps@.len() == i,
                forall|j: int|
                    0 <= j < i ==> #[trigger] caps@[j] == cap_hotplugged(before[j], present),
            decreases before.len() - i,
        {
            let cap: Capability = self.cfg_space.common.capabilities[i];
            match cap {
                Capability::PciExpress(c) => {
                    let mut next: PciExpressCapability<FlrRequest> = c;
                    next.set_hotplug_state(present);
                    caps.push(Capability::PciExpress(next));
                },
                _ => {
                    caps.push(cap);
                },
            }
            i = i + 1;
        }
        self.cfg_space.common.capabilities = caps;
        assert(self.cfg_space.common.capabilities@ =~= hotplugged(
            old(self).cfg_space@,
            present,
        ).common.capabilities);
    }

    /// Plugs a device into the hotplug slot, and signals it.
    pub fn hotplug_add_device(&mut self, device_name: String, device: D) -> (r: Result<
        (),
        LinkError,
    >)
        ensures
            !is_hotplug_capable(old(self).cfg_space@) ==> r == Err::<(), LinkError>(
                LinkError::NotHotplugCapable,
            ) && final(self).model() == old(self).model(),
            is_hotplug_capable(old(self).cfg_space@) && old(self).link is Some ==> r == Err::<
                (),
                LinkError,
            >(LinkError::Occupied) && final(self).model() == old(self).model(),
            is_hotplug_capable(old(self).cfg_space@) && old(self).link is None ==> r is Ok
                && final(self).model() == fired(
                (PortModel {
                    link: Some((device_name@, device.model())),
                    cfg: hotplugged(old(self).cfg_space@, true),
                    ..old(self).model()
                }),
                PortInterruptKind::Hotplug,
            ),
    {
        if !self.hotplug_capable() {
            return Err(LinkError::NotHotplugCapable);
        }
        if self.link.is_some() {
            return Err(LinkError::Occupied);
        }
        self.link = Some(Link { name: device_name, device });
        self.set_hotplug(true);
        self.fire_port_interrupt(PortInterruptKind::Hotplug);
        Ok(())
    }

    /// Takes the device out of the hotplug slot, and signals it.
    pub fn hotplug_remove_device(&mut self) -> (r: Result<(), LinkError>)
        ensures
            !is_hotplug_capable(old(self).cfg_space@) ==> r == Err::<(), LinkError>(
                LinkError::NotHotplugCapable,
            ) && final(self).model() == old(self).model(),
            is_hotplug_capable(old(self).cfg_space@) && old(self).link is None ==> r == Err::<
                (),
                LinkError,
            >(LinkError::Empty) && final(self).model() == old(self).model(),
            is_hotplug_capable(old(self).cfg_space@) && old(self).link is Some ==> r is Ok
                && final(self).model() == fired(
                (PortModel {
                    link: None,
                    cfg: hotplugged(old(self).cfg_space@, false),
                    ..old(self).model()
                }),
                PortInterruptKind::Hotplug,
            ),
    {
        if !self.hotplug_capable() {
            return Err(LinkError::NotHotplugCapable);
        }
        if self.link.is_none() {
            return Err(LinkError::Empty);
        }
        self.link = None;
        self.set_hotplug(false);
        self.fire_port_interrupt(PortInterruptKind::Hotplug);
        Ok(())
    }

    fn interrupt_message_number(&self, kind: PortInterruptKind) -> (r: Option<u8>)
        ensures
            r == message_number(self.cfg_space@, kind),
    {
        match kind {
            PortInterruptKind::Hotplug => {
                if let Some(i) = find_pcie(&self.cfg_space.common.capabilities) {
                    if let Capability::PciExpress(cap) = self.cfg_space.common.capabilities[i] {
                        if cap.hot_plug_interrupt_enabled() {
                            return Some(cap.interrupt_message_number());
                        }
                    }
                }
                None
            },
            PortInterruptKind::Aer => {
                if let Some(i) = find_aer(&self.cfg_space.common.extended_capabilities) {
                    if let ExtendedCapability::Aer(cap) =
                        self.cfg_space.common.extended_capabilities[i] {
                        return cap.interrupt_message_number();
                    }
                }
                None
            },
            PortInterruptKind::Dpc => {
                if let Some(i) = find_dpc(&self.cfg_space.common.extended_capabilities) {
                    if let ExtendedCapability::Dpc(cap) =
                        self.cfg_space.common.extended_capabilities[i] {
                        return Some(cap.interrupt_message_number());
                    }
                }
                None
            },
        }
    }

    fn fire_port_interrupt(&mut self, kind: PortInterruptKind)
        ensures
            final(self).model() == fired(old(self).model(), kind),
    {
        if self.interrupt_message_number(kind).is_none() {
            return;
        }
        if let Some(i) = find_msi(&self.cfg_space.common.capabilities) {
            if let Capability::Msi(cap) = self.cfg_space.common.capabilities[i] {
                if let Some(message) = cap.interrupt() {
                    self.outbox.push(message);
                }
            }
        }
    }

    /// Injects an error. Only a root port with an AER capability reports it.
    pub fn inject_aer(&mut self, request: PcieAerInjectRequest) -> (r: Result<(), InjectError>)
        ensures
            (final(self).model(), r) == aer_injected::<D>(old(self).model(), request, true),
    {
        self.inject_aer_internal(request, true)
    }

    fn inject_aer_internal(&mut self, request: PcieAerInjectRequest, require_root: bool) -> (r:
        Result<(), InjectError>)
        ensures
            (final(self).model(), r) == aer_injected::<D>(
                old(self).model(),
                request,
                require_root,
            ),
    {
        let e: AerInjection = AerInjection {
            kind: request.kind,
            status_bits: request.status_bits,
            header_log: request.header_log,
            source_id: request.source_id,
        };
        let mut outcome: Option<AerInjectionOutcome> = None;
        let mut found: bool = false;
        if let Some(i) = find_aer(&self.cfg_space.common.extended_capabilities) {
            if let ExtendedCapability::Aer(cap) = self.cfg_space.common.extended_capabilities[i] {
                let mut next: AerExtendedCapability = cap;
                outcome = next.inject(e);
                self.cfg_space.common.extended_capabilities[i] = ExtendedCapability::Aer(next);
                found = true;
            }
        }
        if require_root && outcome.is_none() {
            return Err(InjectError::NotAReportingRootPort);
        }
        if !require_root && !found {
            return Err(InjectError::NoAerCapability);
        }
        let _ = self.inject_child_aer(
            (request.source_id / 256) as u8,
            (request.source_id % 256) as u8,
            e,
        );
        if let Some(o) = outcome {
            if o.should_interrupt {
                self.fire_port_interrupt(PortInterruptKind::Aer);
            }
        }
        Ok(())
    }

    fn begin_dpc(&mut self, source_id: u16) -> (r: bool)
        ensures
            final(self).model() == dpc_begun(old(self).model(), source_id),
            r == dpc_of(old(self).cfg_space@) is Some,
    {
        if let Some(i) = find_dpc(&self.cfg_space.common.extended_capabilities) {
            if let ExtendedCapability::Dpc(cap) = self.cfg_space.common.extended_capabilities[i] {
                let mut next: DpcExtendedCapability = cap;
                let outcome: DpcTriggerOutcome = next.trigger_from_uncorrectable_begin(source_id);
                self.cfg_space.common.extended_capabilities[i] = ExtendedCapability::Dpc(next);
                if outcome.should_interrupt {
                    self.fire_port_interrupt(PortInterruptKind::Dpc);
                }
                return true;
            }
        }
        false
    }

    /// Injects an uncorrectable error that the port contains.
    pub fn inject_dpc_begin(&mut self, request: PcieAerInjectRequest) -> (r: Result<
        (),
        InjectError,
    >)
        ensures
            (final(self).model(), r) == dpc_injected::<D>(old(self).model(), request),
    {
        if request.kind != AerInjectedErrorKind::Uncorrectable {
            return Err(InjectError::NotUncorrectable);
        }
        let result: Result<(), InjectError> = self.inject_aer_internal(request, false);
        if let Err(e) = result {
            return Err(e);
        }
        if self.begin_dpc(request.source_id) {
            Ok(())
        } else {
            Err(InjectError::NoDpcCapability)
        }
    }

    /// Marks the recovery of the port as done.
    pub fn inject_dpc_complete(&mut self) -> (r: Result<(), InjectError>)
        ensures
            final(self).model() == dpc_completed(old(self).model()),
            r == if dpc_of(old(self).cfg_space@) is Some {
                Ok::<(), InjectError>(())
            } else {
                Err(InjectError::NoDpcCapability)
            },
    {
        if let Some(i) = find_dpc(&self.cfg_space.common.extended_capabilities) {
            if let ExtendedCapability::Dpc(cap) = self.cfg_space.common.extended_capabilities[i] {
                let mut next: DpcExtendedCapability = cap;
                next.clear_rp_busy();
                self.cfg_space.common.extended_capabilities[i] = ExtendedCapability::Dpc(next);
                return Ok(());
            }
        }
        Err(InjectError::NoDpcCapability)
    }

    /// Records an error in the port's own AER capability. Returns whether there
    /// is one.
    pub fn inject_local_aer_state(&mut self, injection: AerInjection) -> (r: bool)
        ensures
            (final(self).model(), r) == local_aer(old(self).model(), injection),
    {
        if let Some(i) = find_aer(&self.cfg_space.common.extended_capabilities) {
            if let ExtendedCapability::Aer(cap) = self.cfg_space.common.extended_capabilities[i] {
                let mut next: AerExtendedCapability = cap;
                let _ = next.inject(injection);
                self.cfg_space.common.extended_capabilities[i] = ExtendedCapability::Aer(next);
                return true;
            }
        }
        false
    }

    /// Records an error at a function behind the port. Returns whether it was
    /// recorded.
    pub fn inject_child_aer(&mut self, target_bus: u8, function: u8, injection: AerInjection) -> (r:
        bool)
        ensures
            (final(self).model(), r) == child_aer::<D>(
                old(self).model(),
                target_bus,
                function,
                injection,
            ),
    {
        let (secondary_bus, _) = self.cfg_space.assigned_bus_range();
        if let Some(mut link) = self.link.take() {
            let done: bool = link.device.pci_inject_aer_with_routing(
                secondary_bus,
                target_bus,
                function,
                injection,
            );
            self.link = Some(link);
            done
        } else {
            false
        }
    }

    /// Reports an error to the port, and signals it if that is enabled.
    pub fn report_aer(&mut self, injection: AerInjection)
        ensures
            final(self).model() == aer_report_received(old(self).model(), injection),
    {
        if let Some(i) = find_aer(&self.cfg_space.common.extended_capabilities) {
            if let ExtendedCapability::Aer(cap) = self.cfg_space.common.extended_capabilities[i] {
                let mut next: AerExtendedCapability = cap;
                let outcome: Option<AerInjectionOutcome> = next.report(injection);
                self.cfg_space.common.extended_capabilities[i] = ExtendedCapability::Aer(next);
                if let Some(o) = outcome {
                    if o.should_interrupt {
                        self.fire_port_interrupt(PortInterruptKind::Aer);
                    }
                }
            }
        }
    }

    /// Contains an error of a source at a port behind this one. Returns whether
    /// a port did.
    pub fn route_child_dpc(
        &mut self,
        target_bus: u8,
        function: u8,
        action: PcieDpcRoutingAction,
    ) -> (r: bool)
        ensures
            (final(self).model(), r) == child_dpc::<D>(
                old(self).model(),
                target_bus,
                function,
                action,
            ),
    {
        let (secondary_bus, _) = self.cfg_space.assigned_bus_range();
        if let Some(mut link) = self.link.take() {
            let done: bool = link.device.pci_inject_dpc_with_routing(
                secondary_bus,
                target_bus,
                function,
                action,
            );
            self.link = Some(link);
            done
        } else {
            false
        }
    }

    /// Contains an error of a source at this port. Returns whether the port
    /// can.
    pub fn apply_dpc_action(&mut self, source_id: u16, action: PcieDpcRoutingAction) -> (r: bool)
        ensures
            (final(self).model(), r) == dpc_applied(old(self).model(), source_id, action),
    {
        if find_dpc(&self.cfg_space.common.extended_capabilities).is_none() {
            return false;
        }
        match action {
            PcieDpcRoutingAction::Begin { aer } => {
                if let Some(e) = aer {
                    self.report_aer(e);
                }
                let _ = self.begin_dpc(source_id);
                true
            },
            PcieDpcRoutingAction::Complete => {
                let _ = self.inject_dpc_complete();
                true
            },
        }
    }
}

/// A change of another capability leaves the DPC capability where it is.
proof fn lemma_dpc_kept(exts: Seq<ExtendedCapability>, k: int, cap: ExtendedCapability, i: int)
    requires
        0 <= k < exts.len(),
        0 <= i,
        !(exts[k] is Dpc),
        !(cap is Dpc),
    ensures
        dpc_index(exts.update(k, cap), i) == dpc_index(exts, i),
    decreases exts.len() - i,
{
    if i < exts.len() {
        lemma_dpc_kept(exts, k, cap, i + 1);
    }
}

/// A change of the DPC capability leaves it where it is.
proof fn lemma_dpc_replaced(exts: Seq<ExtendedCapability>, cap: DpcExtendedCapability, i: int)
    requires
        0 <= i,
        dpc_index(exts, i) is Some,
    ensures
        i <= dpc_index(exts, i)->0 < exts.len(),
        exts[dpc_index(exts, i)->0] is Dpc,
        dpc_index(exts.update(dpc_index(exts, i)->0, ExtendedCapability::Dpc(cap)), i) == dpc_index(
            exts,
            i,
        ),
    decreases exts.len() - i,
{
    if i < exts.len() && !(exts[i] is Dpc) {
        lemma_dpc_replaced(exts, cap, i + 1);
    }
}

/// While a port contains an error, nothing behind it is reached: reads give all
/// ones, writes are dropped, and both succeed.
pub proof fn law_containment_blocks<D: GenericPciBusDevice>(
    m: PortModel<D::Model>,
    bus: u8,
    function: u8,
    offset: u16,
    value: u32,
)
    requires
        contains(m.cfg),
    ensures
        forward_read::<D>(m, bus, function, offset, value) == (m, Ok::<(), IoError>(()), 0xFFFF_FFFFu32),
        forward_write::<D>(m, bus, function, offset, value) == (m, Ok::<(), IoError>(())),
{
}

/// A port that was told to contain an error and can, contains it, and still
/// does when its recovery is done.
pub proof fn law_dpc_contains<M>(m: PortModel<M>, source_id: u16, aer: Option<AerInjection>)
    ensures
        ({
            let (begun, done) = dpc_applied(m, source_id, PcieDpcRoutingAction::Begin { aer });
            let completed = dpc_applied(begun, source_id, PcieDpcRoutingAction::Complete).0;
            done ==> contains(begun.cfg) && contains(completed.cfg)
        }),
{
    let action = PcieDpcRoutingAction::Begin { aer };
    if dpc_of(m.cfg) is Some {
        let reported = match aer {
            Some(e) => aer_report_received(m, e),
            None => m,
        };
        let exts = m.cfg.common.extended_capabilities;
        if aer is Some && aer_of(m.cfg) is Some {
            let k = aer_index(exts, 0)->0;
            crate::pcie::find::lemma_indices(m.cfg.common.capabilities, exts, 0);
            lemma_dpc_kept(
                exts,
                k,
                ExtendedCapability::Aer(aer_reported(aer_of(m.cfg)->0, aer->0)),
                0,
            );
        }
        crate::pcie::find::lemma_indices(m.cfg.common.capabilities, exts, 0);
        let before = reported.cfg.common.extended_capabilities;
        let k = dpc_index(before, 0)->0;
        let dpc = dpc_of(reported.cfg)->0;
        let triggered = uncorrectable_triggered(dpc, source_id);
        crate::capabilities::dpc::law_trigger_contains(
            dpc,
            crate::capabilities::dpc::DPC_TRIGGER_REASON_UNMASKED_UNCORRECTABLE,
            0,
            source_id,
        );
        let busy = with_rp_busy(triggered, true);
        let idle = with_rp_busy(busy, false);
        if crate::capabilities::dpc::has_rp_extensions(dpc) {
            crate::capabilities::dpc::law_two_phases(dpc, source_id);
        }
        lemma_dpc_replaced(before, busy, 0);
        let after = before.update(k, ExtendedCapability::Dpc(busy));
        lemma_dpc_replaced(after, idle, 0);
    }
}

}
