//! What ports are like when they are made, and how hotplug changes them.
use crate::capabilities::kinds::Capability;
use crate::capabilities::kinds::ExtendedCapability;
use crate::capabilities::pci_express::hotplug_set;
use crate::capabilities::pci_express::presence_set;
use crate::capabilities::DevicePortType;
use crate::cfg_space::common::lemma_no_command;
use crate::cfg_space::readback::law_identity_read;
use crate::cfg_space::type1::assigned_buses;
use crate::cfg_space::type1::memory_window;
use crate::cfg_space::type1::prefetch_window;
use crate::cfg_space::type1::type1_read;
use crate::cfg_space::HardwareIds;
use crate::io::IoError;
use crate::pcie::error_laws::signaled;
use crate::pcie::find::aer_index;
use crate::pcie::find::dpc_index;
use crate::pcie::find::pcie_index;
use crate::pcie::port::aer_of;
use crate::pcie::port::cxl_exts;
use crate::pcie::port::dpc_of;
use crate::pcie::port::fired;
use crate::pcie::port::hotplugged;
use crate::pcie::port::is_hotplug_capable;
use crate::pcie::port::pcie_of;
use crate::pcie::port::port_exts;
use crate::pcie::port::port_made_from;
use crate::pcie::port::presence;
use crate::pcie::port::PortInterruptKind;
use crate::pcie::port::PortModel;
use crate::pcie::port::PortSpace;
use crate::pcie::root::is_new_root_port;
use crate::pcie::settings::acs_allowed;
use crate::pcie::settings::bar_plan;
use crate::pcie::settings::component_index;
use crate::pcie::settings::BarModel;
use crate::pcie::settings::CxlDvsecs;
use crate::pcie::settings::PciePortSettings;
use crate::pcie::settings::PortBarSubregionKind;
use crate::pcie::switch::is_new_downstream;
use crate::pcie::switch::is_new_upstream;
use crate::pcie::switch::last_with_number;
use crate::pcie::switch::port_slots;
use vstd::prelude::*;

verus! {

proof fn lemma_aer_index(exts: Seq<ExtendedCapability>, i: int)
    requires
        0 <= i,
    ensures
        match aer_index(exts, i) {
            Some(k) => i <= k < exts.len() && exts[k] is Aer && forall|j: int|
                i <= j < k ==> !(#[trigger] exts[j] is Aer),
            None => forall|j: int| i <= j < exts.len() ==> !(#[trigger] exts[j] is Aer),
        },
    decreases exts.len() - i,
{
    if i < exts.len() && !(exts[i] is Aer) {
        lemma_aer_index(exts, i + 1);
    }
}

proof fn lemma_dpc_index(exts: Seq<ExtendedCapability>, i: int)
    requires
        0 <= i,
    ensures
        match dpc_index(exts, i) {
            Some(k) => i <= k < exts.len() && exts[k] is Dpc && forall|j: int|
                i <= j < k ==> !(#[trigger] exts[j] is Dpc),
            None => forall|j: int| i <= j < exts.len() ==> !(#[trigger] exts[j] is Dpc),
        },
    decreases exts.len() - i,
{
    if i < exts.len() && !(exts[i] is Dpc) {
        lemma_dpc_index(exts, i + 1);
    }
}

/// A new port is the bridge that it was made as, of the kind that it was made as, with
/// a slot if it was given a slot number, and nothing in it. It decodes no buses and no
/// windows.
pub proof fn law_new_port<M>(
    m: PortModel<M>,
    name: Seq<char>,
    hardware_ids: HardwareIds,
    port_type: DevicePortType,
    multi_function: bool,
    hotplug_slot_number: Option<u32>,
    settings: PciePortSettings,
    bar: Option<BarModel>,
    dvsecs: CxlDvsecs,
    intercepts: bool,
)
    requires
        port_made_from(
            m,
            name,
            hardware_ids,
            port_type,
            multi_function,
            hotplug_slot_number,
            settings,
            bar,
            dvsecs,
            intercepts,
        ),
    ensures
        m.name == name,
        m.link is None,
        type1_read(m.cfg.common, m.cfg.state, 0) matches Ok(v) && v as u16
            == hardware_ids.vendor_id && (v >> 16u32) as u16 == hardware_ids.device_id,
        type1_read(m.cfg.common, m.cfg.state, 0x0C) == Ok::<u32, IoError>(
            if multi_function {
                0x0081_0000
            } else {
                0x0001_0000
            },
        ),
        type1_read(m.cfg.common, m.cfg.state, 0x34) == Ok::<u32, IoError>(0x40),
        assigned_buses(m.cfg.state) == (0u8, 0u8),
        m.cfg.common.state.command == 0,
        memory_window(m.cfg.state, m.cfg.common.state.command) is None,
        prefetch_window(m.cfg.state, m.cfg.common.state.command) is None,
        pcie_of(m.cfg) matches Some(c) && c.port_type == port_type && (c.slot is Some
            <==> hotplug_slot_number is Some),
        is_hotplug_capable(m.cfg) <==> hotplug_slot_number is Some,
{
    law_identity_read(m.cfg.common);
    assert(m.cfg.common.capabilities[0] is PciExpress);
    lemma_no_command();
}

/// A new port reports errors if its settings ask for it, with the masks and severities
/// that they give. It contains errors if they ask for it and it has something below
/// it: a root port or the downstream port of a switch. It starts without an error.
pub proof fn law_new_port_errors<M>(
    m: PortModel<M>,
    name: Seq<char>,
    hardware_ids: HardwareIds,
    port_type: DevicePortType,
    multi_function: bool,
    hotplug_slot_number: Option<u32>,
    settings: PciePortSettings,
    bar: Option<BarModel>,
    dvsecs: CxlDvsecs,
    intercepts: bool,
)
    requires
        port_made_from(
            m,
            name,
            hardware_ids,
            port_type,
            multi_function,
            hotplug_slot_number,
            settings,
            bar,
            dvsecs,
            intercepts,
        ),
    ensures
        aer_of(m.cfg) is Some <==> settings.aer is Some,
        aer_of(m.cfg) matches Some(aer) ==> {
            &&& aer.unc_err_status == 0
            &&& aer.cor_err_status == 0
            &&& aer.root_error_status == 0
            &&& settings.aer->0.uncorrectable_mask matches Some(v) ==> aer.unc_err_mask == v
            &&& settings.aer->0.correctable_mask matches Some(v) ==> aer.cor_err_mask == v
            &&& settings.aer->0.uncorrectable_severity_mask matches Some(v)
                ==> aer.unc_err_severity == v
        },
        dpc_of(m.cfg) is Some <==> settings.dpc is Some && (port_type
            == DevicePortType::RootPort || port_type == DevicePortType::DownstreamSwitchPort),
        dpc_of(m.cfg) matches Some(dpc) ==> dpc.control == 0 && dpc.error_source_id == 0,
{
    let plan = bar_plan(settings, bar, dvsecs.locator is Some, intercepts);
    let own = port_exts(port_type, settings);
    let cxl = cxl_exts(plan.cxl, dvsecs);
    let exts = m.cfg.common.extended_capabilities;
    assert(exts == own + cxl);
    lemma_aer_index(exts, 0);
    lemma_dpc_index(exts, 0);
    let a: int = if acs_allowed(port_type, settings.acs_capabilities_supported) != 0 {
        1
    } else {
        0
    };
    let b: int = if settings.aer is Some {
        1
    } else {
        0
    };
    assert forall|k: int| 0 <= k < cxl.len() implies #[trigger] cxl[k] is Dvsec by {}
    assert forall|k: int| own.len() <= k < exts.len() implies #[trigger] exts[k] is Dvsec by {
        assert(exts[k] == cxl[k - own.len()]);
    }
    assert forall|k: int| 0 <= k < own.len() implies #[trigger] exts[k] == own[k] by {}
    if settings.aer is Some {
        assert(own[a] is Aer);
        assert(exts[a] is Aer);
    }
    if settings.dpc is Some && (port_type == DevicePortType::RootPort || port_type
        == DevicePortType::DownstreamSwitchPort) {
        assert(own[a + b] is Dpc);
        assert(exts[a + b] is Dpc);
    }
}

/// When something is plugged into a port or taken out, its slot changes as the slot of
/// its PCI Express capability does, and nothing else of its config space does.
pub proof fn law_port_hotplug(cfg: PortSpace, present: bool, i: int)
    requires
        0 <= i < cfg.common.capabilities.len(),
    ensures
        ({
            let next = hotplugged(cfg, present);
            &&& next.state == cfg.state
            &&& next.common.state == cfg.common.state
            &&& next.common.extended_capabilities == cfg.common.extended_capabilities
            &&& next.common.capabilities.len() == cfg.common.capabilities.len()
            &&& match cfg.common.capabilities[i] {
                Capability::PciExpress(c) => next.common.capabilities[i] == Capability::PciExpress(
                    hotplug_set(c, present),
                ),
                other => next.common.capabilities[i] == other,
            }
        }),
{
}

proof fn lemma_pcie_index(caps: Seq<Capability>, i: int)
    requires
        0 <= i,
    ensures
        match pcie_index(caps, i) {
            Some(k) => i <= k < caps.len() && caps[k] is PciExpress,
            None => true,
        },
    decreases caps.len() - i,
{
    if i < caps.len() && !(caps[i] is PciExpress) {
        lemma_pcie_index(caps, i + 1);
    }
}

/// Setting what is in the slot of a port changes its PCI Express capability alone.
pub proof fn law_port_presence(cfg: PortSpace, present: bool)
    ensures
        ({
            let next = presence(cfg, present);
            &&& pcie_of(cfg) matches Some(c) ==> pcie_of(next) == Some(presence_set(c, present))
            &&& pcie_of(cfg) is None ==> next == cfg
            &&& next.state == cfg.state
            &&& next.common.state == cfg.common.state
            &&& next.common.extended_capabilities == cfg.common.extended_capabilities
            &&& next.common.capabilities.len() == cfg.common.capabilities.len()
        }),
{
    let caps = cfg.common.capabilities;
    lemma_pcie_index(caps, 0);
    if let Some(k) = pcie_index(caps, 0) {
        let next = presence(cfg, present).common.capabilities;
        lemma_same_place(caps, next, 0);
    }
}

proof fn lemma_same_place(a: Seq<Capability>, b: Seq<Capability>, i: int)
    requires
        a.len() == b.len(),
        forall|k: int| 0 <= k < a.len() ==> (#[trigger] a[k] is PciExpress <==> b[k] is PciExpress),
        0 <= i,
    ensures
        pcie_index(a, i) == pcie_index(b, i),
    decreases a.len() - i,
{
    if i < a.len() {
        assert(a[i] is PciExpress <==> b[i] is PciExpress);
        lemma_same_place(a, b, i + 1);
    }
}

/// A change of a slot is signaled with the message that MSI is armed with, exactly if
/// bit 5 of the control register of the slot enables it.
pub proof fn law_hotplug_signaled<M>(m: PortModel<M>)
    ensures
        signaled(
            m,
            fired(m, PortInterruptKind::Hotplug),
            pcie_of(m.cfg) matches Some(c) && c.slot matches Some(s) && s.control & 0x0020 != 0,
        ),
        fired(m, PortInterruptKind::Hotplug).cfg == m.cfg,
        fired(m, PortInterruptKind::Hotplug).link == m.link,
{
}

/// A new root port is one: a bridge of its kind, without a slot, and not one of several
/// functions.
pub proof fn law_new_root_port<M>(m: PortModel<M>, name: Seq<char>, settings: PciePortSettings)
    requires
        is_new_root_port(m, name, settings),
    ensures
        m.name == name,
        m.link is None,
        pcie_of(m.cfg) matches Some(c) && c.port_type == DevicePortType::RootPort && c.slot is None,
        type1_read(m.cfg.common, m.cfg.state, 0x0C) == Ok::<u32, IoError>(0x0001_0000),
        m.cfg.common.hardware_ids.base_class == 6,
        m.cfg.common.hardware_ids.sub_class == 4,
        assigned_buses(m.cfg.state) == (0u8, 0u8),
{
    assert(m.cfg.common.capabilities[0] is PciExpress);
}

/// A new downstream port of a switch is one: a bridge of its kind, without a slot, and
/// one of several functions if the switch has several ports.
pub proof fn law_new_downstream<M>(
    m: PortModel<M>,
    name: Seq<char>,
    multi_function: bool,
    settings: PciePortSettings,
)
    requires
        is_new_downstream(m, name, multi_function, settings),
    ensures
        m.name == name,
        m.link is None,
        pcie_of(m.cfg) matches Some(c) && c.port_type == DevicePortType::DownstreamSwitchPort
            && c.slot is None,
        type1_read(m.cfg.common, m.cfg.state, 0x0C) == Ok::<u32, IoError>(
            if multi_function {
                0x0081_0000
            } else {
                0x0001_0000
            },
        ),
        m.cfg.common.hardware_ids.base_class == 6,
        m.cfg.common.hardware_ids.sub_class == 4,
        assigned_buses(m.cfg.state) == (0u8, 0u8),
{
    assert(m.cfg.common.capabilities[0] is PciExpress);
}

/// A new upstream port of a switch is one: a bridge of its kind, that decodes no buses
/// and neither reports nor contains errors.
pub proof fn law_new_upstream(cfg: PortSpace)
    requires
        is_new_upstream(cfg),
    ensures
        pcie_of(cfg) matches Some(c) && c.port_type == DevicePortType::UpstreamSwitchPort
            && c.slot is None,
        aer_of(cfg) is None,
        dpc_of(cfg) is None,
        cfg.common.hardware_ids.base_class == 6,
        cfg.common.hardware_ids.sub_class == 4,
        assigned_buses(cfg.state) == (0u8, 0u8),
{
    assert(cfg.common.capabilities[0] is PciExpress);
}

/// A switch with up to 256 ports has each of them, with its own number.
pub proof fn law_ports_numbered(i: int, count: int)
    requires
        0 <= i < count <= 256,
    ensures
        port_slots(count) == count,
        last_with_number(i, count) == i,
{
}

/// What becomes of the BAR that a port is given. Without CXL it stays, if it is BAR 0
/// and its accesses can be intercepted, and there are no component registers. With CXL
/// a port that is given none gets one for its component registers, from offset 0 on,
/// and has them if the locator is in order. A port whose accesses cannot be
/// intercepted has no BAR.
pub proof fn law_bar_planned(
    settings: PciePortSettings,
    bar: Option<BarModel>,
    locator_valid: bool,
    intercepts: bool,
)
    ensures
        ({
            let plan = bar_plan(settings, bar, locator_valid, intercepts);
            let cxl = settings.cxl_flex_bus_port_capability is Some && (
            settings.cxl_flex_bus_port_capability->0.cache_capable
                || settings.cxl_flex_bus_port_capability->0.mem_capable);
            &&& !intercepts ==> plan.bar is None
            &&& plan.bar is Some ==> plan.bar->0.index == 0
            &&& !cxl ==> plan.cxl is None && !plan.component_registers
            &&& !cxl && bar is None ==> plan.bar is None
            &&& !cxl && bar is Some && bar->0.index == 0 && intercepts ==> plan.bar == bar
            &&& cxl && bar is None && intercepts && locator_valid ==> {
                &&& plan.component_registers
                &&& plan.cxl is Some
                &&& plan.cxl->0.locator == Some((0u8, 0u64))
                &&& plan.bar is Some
                &&& plan.bar->0.subregions.len() == 1
                &&& plan.bar->0.subregions[0].kind == PortBarSubregionKind::CxlComponentRegisters
                &&& plan.bar->0.subregions[0].offset == 0
                &&& plan.bar->0.subregions[0].size_bytes == plan.bar->0.size_bytes
            }
        }),
{
    reveal_with_fuel(component_index, 2);
}

}
