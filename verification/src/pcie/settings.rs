//! What a port is made with.
use crate::capabilities::dvsec::DvsecExtendedCapability;
use crate::capabilities::DevicePortType;
use vstd::prelude::*;

verus! {

/// ACS features that are implemented.
pub const ACS_CAPABILITY_IMPLEMENTED_MASK: u16 = 0x00df;
/// ACS features that root and downstream switch ports can have.
pub const ACS_CAPABILITY_ALLOWED_ROOT_OR_DSP_MASK: u16 = 0x00ff;
/// ACS features that upstream switch ports can have.
pub const ACS_CAPABILITY_ALLOWED_USP_MASK: u16 = 0x0000;
/// Size of the CXL component registers.
pub const CXL_COMPONENT_REGISTERS_SIZE_BYTES: u64 = 0x1_0000;

/// AER settings of a port.
#[derive(Debug, Clone, Copy)]
pub struct PcieAerSettings {
    /// Default of the correctable error mask.
    pub correctable_mask: Option<u32>,
    /// Default of the uncorrectable error mask.
    pub uncorrectable_mask: Option<u32>,
    /// Default of the uncorrectable error severity.
    pub uncorrectable_severity_mask: Option<u32>,
}

impl Default for PcieAerSettings {
    fn default() -> (r: Self)
        ensures
            r == (PcieAerSettings {
                correctable_mask: None,
                uncorrectable_mask: None,
                uncorrectable_severity_mask: None,
            }),
    {
        PcieAerSettings {
            correctable_mask: None,
            uncorrectable_mask: None,
            uncorrectable_severity_mask: None,
        }
    }
}

/// DPC settings of a port.
#[derive(Debug, Clone, Copy)]
pub struct PcieDpcSettings {
    /// Whether software can trigger containment.
    pub software_trigger_supported: bool,
    /// Whether poisoned TLPs can be blocked.
    pub poisoned_tlp_egress_blocking_supported: bool,
    /// Whether an active data link can be signaled by ERR_COR.
    pub dl_active_err_cor_signaling_supported: bool,
}

impl Default for PcieDpcSettings {
    fn default() -> (r: Self)
        ensures
            r == (PcieDpcSettings {
                software_trigger_supported: true,
                poisoned_tlp_egress_blocking_supported: false,
                dl_active_err_cor_signaling_supported: false,
            }),
    {
        PcieDpcSettings {
            software_trigger_supported: true,
            poisoned_tlp_egress_blocking_supported: false,
            dl_active_err_cor_signaling_supported: false,
        }
    }
}

/// What a port advertises of CXL.
#[derive(Debug, Clone, Copy, PartialEq, Eq, Structural)]
pub struct CxlFlexBusPortCapability {
    /// Cache.
    pub cache_capable: bool,
    /// Memory.
    pub mem_capable: bool,
    /// 68-byte flits and virtual hierarchies.
    pub cxl_68b_flit_and_vh_capable: bool,
    /// Multiple logical devices.
    pub cxl_multi_logical_device_capable: bool,
    /// Latency-optimized 256-byte flits.
    pub cxl_latency_optimized_256b_flit_capable: bool,
    /// Port-based routing flits.
    pub cxl_pbr_flit_capable: bool,
}

/// Settings of a port.
#[derive(Debug, Clone, Copy)]
pub struct PciePortSettings {
    /// ACS features to advertise; zero for no ACS capability.
    pub acs_capabilities_supported: u16,
    /// AER, if there is to be an AER capability.
    pub aer: Option<PcieAerSettings>,
    /// DPC, if there is to be a DPC capability.
    pub dpc: Option<PcieDpcSettings>,
    /// CXL, which is on if cache or memory is.
    pub cxl_flex_bus_port_capability: Option<CxlFlexBusPortCapability>,
}

/// A port of a root complex, or a downstream port of a switch.
#[derive(Debug)]
pub struct GenericPciePortDefinition {
    /// The name of the port.
    pub name: String,
    /// The device and function number, if it is not to be the next that is free.
    pub devfn: Option<u8>,
    /// Whether devices can be added and removed at any time.
    pub hotplug: bool,
    /// Settings.
    pub settings: PciePortSettings,
}

impl Default for PciePortSettings {
    fn default() -> (r: Self)
        ensures
            r == (PciePortSettings {
                acs_capabilities_supported: 0,
                aer: None,
                dpc: None,
                cxl_flex_bus_port_capability: None,
            }),
    {
        PciePortSettings {
            acs_capabilities_supported: 0,
            aer: None,
            dpc: None,
            cxl_flex_bus_port_capability: None,
        }
    }
}

/// What a part of a BAR is.
#[derive(Debug, Clone, Copy, PartialEq, Eq, Structural)]
pub enum PortBarSubregionKind {
    /// CXL component registers.
    CxlComponentRegisters,
    /// MSI-X table.
    MsiXTable,
    /// MSI-X pending bits.
    MsiXPba,
}

/// A part of a port's BAR.
#[derive(Debug, Clone, Copy, PartialEq, Eq, Structural)]
pub struct PortBarSubregionDefinition {
    /// What it is.
    pub kind: PortBarSubregionKind,
    /// Offset in the BAR.
    pub offset: u64,
    /// Size in bytes.
    pub size_bytes: u64,
}

/// A port's BAR.
#[derive(Debug)]
pub struct PortBarDefinition {
    /// Index of the BAR.
    pub index: u8,
    /// Size in bytes.
    pub size_bytes: u64,
    /// Parts.
    pub subregions: Vec<PortBarSubregionDefinition>,
}

/// A port's BAR as a value.
#[verifier::ext_equal]
pub struct BarModel {
    /// Index of the BAR.
    pub index: u8,
    /// Size in bytes.
    pub size_bytes: u64,
    /// Parts.
    pub subregions: Seq<PortBarSubregionDefinition>,
}

impl View for PortBarDefinition {
    type V = BarModel;

    open spec fn view(&self) -> BarModel {
        BarModel {
            index: self.index,
            size_bytes: self.size_bytes,
            subregions: self.subregions@,
        }
    }
}

/// A port's BAR as a value, if there is one.
pub open spec fn bar_model(bar: Option<PortBarDefinition>) -> Option<BarModel> {
    match bar {
        Some(b) => Some(b@),
        None => None,
    }
}

/// Whether a part is that of CXL component registers.
pub open spec fn is_component(s: PortBarSubregionDefinition) -> bool {
    s.kind == PortBarSubregionKind::CxlComponentRegisters
}

/// The first part, from one on, with CXL component registers.
pub open spec fn component_index(subregions: Seq<PortBarSubregionDefinition>, i: int) -> Option<int>
    decreases subregions.len() - i,
{
    if i >= subregions.len() {
        None
    } else if is_component(subregions[i]) {
        Some(i)
    } else {
        component_index(subregions, i + 1)
    }
}

/// The parts without CXL component registers, in order.
pub open spec fn without_components(subregions: Seq<PortBarSubregionDefinition>) -> Seq<
    PortBarSubregionDefinition,
>
    decreases subregions.len(),
{
    if subregions.len() == 0 {
        Seq::empty()
    } else if is_component(subregions.last()) {
        without_components(subregions.drop_last())
    } else {
        without_components(subregions.drop_last()).push(subregions.last())
    }
}

/// Whether a BAR has CXL component registers.
pub open spec fn has_components(bar: Option<BarModel>) -> bool {
    bar is Some && component_index(bar->0.subregions, 0) is Some
}

/// Where CXL component registers are: the BAR and the offset in it. Only the six
/// BARs of a header can be named.
pub open spec fn component_locator(bar: Option<BarModel>) -> Option<(u8, u64)> {
    match bar {
        Some(b) => match component_index(b.subregions, 0) {
            Some(i) if b.index < 6 => Some((b.index, b.subregions[i].offset)),
            _ => None,
        },
        None => None,
    }
}

/// A BAR without CXL component registers; no BAR if nothing is left.
pub open spec fn components_dropped(bar: Option<BarModel>) -> Option<BarModel> {
    match bar {
        Some(b) => if without_components(b.subregions).len() == 0 {
            None
        } else {
            Some(BarModel { subregions: without_components(b.subregions), ..b })
        },
        None => None,
    }
}

/// Whether CXL is asked for.
pub open spec fn cxl_requested(settings: PciePortSettings) -> bool {
    match settings.cxl_flex_bus_port_capability {
        Some(c) => c.cache_capable || c.mem_capable,
        None => false,
    }
}

/// The BAR that a port gets if none is given: one with CXL component registers,
/// if CXL is asked for.
pub open spec fn default_bar(settings: PciePortSettings) -> Option<BarModel> {
    if cxl_requested(settings) {
        Some(
            BarModel {
                index: 0,
                size_bytes: CXL_COMPONENT_REGISTERS_SIZE_BYTES,
                subregions: seq![
                    PortBarSubregionDefinition {
                        kind: PortBarSubregionKind::CxlComponentRegisters,
                        offset: 0,
                        size_bytes: CXL_COMPONENT_REGISTERS_SIZE_BYTES,
                    },
                ],
            },
        )
    } else {
        None
    }
}

/// Returns whether a BAR has CXL component registers.
pub fn has_cxl_component_register_subregion(bar: &Option<PortBarDefinition>) -> (r: bool)
    ensures
        r == has_components(bar_model(*bar)),
{
    match bar {
        Some(b) => find_component(b).is_some(),
        None => false,
    }
}

fn find_component(bar: &PortBarDefinition) -> (r: Option<usize>)
    ensures
        match component_index(bar.subregions@, 0) {
            Some(i) => r == Some(i as usize) && 0 <= i < bar.subregions.len(),
            None => r is None,
        },
{
    let mut i: usize = 0;
    while i < bar.subregions.len()
        invariant
            i <= bar.subregions.len(),
            component_index(bar.subregions@, 0) == component_index(bar.subregions@, i as int),
        decreases bar.subregions.len() - i,
    {
        if bar.subregions[i].kind == PortBarSubregionKind::CxlComponentRegisters {
            return Some(i);
        }
        i = i + 1;
    }
    None
}

/// Returns where CXL component registers are: the BAR and the offset in it.
pub fn cxl_register_locator_from_bar(bar: &Option<PortBarDefinition>) -> (r: Option<(u8, u64)>)
    ensures
        r == component_locator(bar_model(*bar)),
{
    match bar {
        Some(b) => match find_component(b) {
            Some(i) => {
                if b.index < 6 {
                    Some((b.index, b.subregions[i].offset))
                } else {
                    None
                }
            },
            None => None,
        },
        None => None,
    }
}

/// Drops CXL component registers from a BAR, and a BAR in which nothing is left.
pub fn drop_cxl_component_register_subregions(bar: Option<PortBarDefinition>) -> (r: Option<
    PortBarDefinition,
>)
    ensures
        bar_model(r) == components_dropped(bar_model(bar)),
{
    match bar {
        None => None,
        Some(b) => {
            let mut kept: Vec<PortBarSubregionDefinition> = Vec::new();
            let mut i: usize = 0;
            while i < b.subregions.len()
                invariant
                    i <= b.subregions.len(),
                    kept@ == without_components(b.subregions@.take(i as int)),
                decreases b.subregions.len() - i,
            {
                proof {
                    let next = b.subregions@.take(i + 1);
                    assert(next.drop_last() =~= b.subregions@.take(i as int));
                    assert(next.last() == b.subregions@[i as int]);
                }
                if b.subregions[i].kind != PortBarSubregionKind::CxlComponentRegisters {
                    kept.push(b.subregions[i]);
                }
                i = i + 1;
            }
            proof {
                assert(b.subregions@.take(b.subregions.len() as int) =~= b.subregions@);
            }
            if kept.len() == 0 {
                None
            } else {
                Some(
                    PortBarDefinition {
                        index: b.index,
                        size_bytes: b.size_bytes,
                        subregions: kept,
                    },
                )
            }
        },
    }
}

fn is_cxl_requested(settings: &PciePortSettings) -> (r: bool)
    ensures
        r == cxl_requested(*settings),
{
    match settings.cxl_flex_bus_port_capability {
        Some(c) => c.cache_capable || c.mem_capable,
        None => false,
    }
}

/// Returns the BAR that a port gets if none is given.
pub fn default_bar_from_settings(settings: &PciePortSettings) -> (r: Option<PortBarDefinition>)
    ensures
        bar_model(r) == default_bar(*settings),
{
    if is_cxl_requested(settings) {
        let mut subregions: Vec<PortBarSubregionDefinition> = Vec::new();
        subregions.push(
            PortBarSubregionDefinition {
                kind: PortBarSubregionKind::CxlComponentRegisters,
                offset: 0,
                size_bytes: CXL_COMPONENT_REGISTERS_SIZE_BYTES,
            },
        );
        let bar: PortBarDefinition = PortBarDefinition {
            index: 0,
            size_bytes: CXL_COMPONENT_REGISTERS_SIZE_BYTES,
            subregions,
        };
        assert(bar@ =~= default_bar(*settings)->0);
        Some(bar)
    } else {
        None
    }
}

/// The ACS features that a port of a kind can have of those that are asked for.
pub open spec fn acs_allowed(port_type: DevicePortType, requested: u16) -> u16 {
    requested & ACS_CAPABILITY_IMPLEMENTED_MASK & match port_type {
        DevicePortType::RootPort | DevicePortType::DownstreamSwitchPort => {
            ACS_CAPABILITY_ALLOWED_ROOT_OR_DSP_MASK
        },
        DevicePortType::UpstreamSwitchPort => ACS_CAPABILITY_ALLOWED_USP_MASK,
        DevicePortType::Endpoint => 0,
    }
}

/// Filters ACS features by what is implemented and what a port of a kind can
/// have.
pub fn filter_acs_capabilities_for_bridge(port_type: &DevicePortType, requested: u16) -> (r: u16)
    ensures
        r == acs_allowed(*port_type, requested),
{
    let allowed: u16 = match port_type {
        DevicePortType::RootPort => ACS_CAPABILITY_ALLOWED_ROOT_OR_DSP_MASK,
        DevicePortType::DownstreamSwitchPort => ACS_CAPABILITY_ALLOWED_ROOT_OR_DSP_MASK,
        DevicePortType::UpstreamSwitchPort => ACS_CAPABILITY_ALLOWED_USP_MASK,
        DevicePortType::Endpoint => 0,
    };
    requested & ACS_CAPABILITY_IMPLEMENTED_MASK & allowed
}

/// CXL as a port has it: what it advertises, and where its component registers
/// are.
#[derive(Debug, Clone, Copy)]
pub struct CxlPort {
    /// What is advertised.
    pub flex_bus: CxlFlexBusPortCapability,
    /// The BAR and the offset of component registers.
    pub locator: Option<(u8, u64)>,
}

/// The registers by which a port tells of CXL. What they hold is given.
#[derive(Debug, Clone, Copy)]
pub struct CxlDvsecs {
    /// The CXL port.
    pub port: DvsecExtendedCapability,
    /// The Flex Bus port: what is advertised.
    pub flex_bus: DvsecExtendedCapability,
    /// The register locator: where component registers are. There is none if they
    /// are where it cannot say.
    pub locator: Option<DvsecExtendedCapability>,
}

/// Registers that hold nothing, for a port without CXL.
pub open spec fn no_dvsecs() -> CxlDvsecs {
    CxlDvsecs { port: no_dvsec(), flex_bus: no_dvsec(), locator: None }
}

/// A DVSEC without registers.
pub open spec fn no_dvsec() -> DvsecExtendedCapability {
    DvsecExtendedCapability {
        label: "dvsec",
        count: 0,
        registers: [0, 0, 0, 0, 0, 0, 0, 0, 0, 0, 0, 0, 0, 0, 0],
    }
}

impl CxlDvsecs {
    /// Returns registers that hold nothing, for a port without CXL.
    pub fn none() -> (r: Self)
        ensures
            r == no_dvsecs(),
    {
        let empty: DvsecExtendedCapability = DvsecExtendedCapability::new(
            "dvsec",
            0,
            [0, 0, 0, 0, 0, 0, 0, 0, 0, 0, 0, 0, 0, 0, 0],
        );
        CxlDvsecs { port: empty, flex_bus: empty, locator: None }
    }
}

/// What a port makes of its BAR and of CXL.
#[verifier::ext_equal]
pub struct BarPlan {
    /// The BAR.
    pub bar: Option<BarModel>,
    /// CXL.
    pub cxl: Option<CxlPort>,
    /// Whether there are component registers behind the BAR.
    pub component_registers: bool,
}

/// What a port makes of its BAR and of CXL.
///
/// CXL needs a locator of its component registers. Without a valid one the
/// component registers are dropped, and CXL with them. Only BAR 0 is supported,
/// and only if accesses to it can be intercepted; CXL does not stay without a
/// BAR for its component registers.
pub open spec fn bar_plan(
    settings: PciePortSettings,
    bar: Option<BarModel>,
    locator_valid: bool,
    intercepts: bool,
) -> BarPlan {
    let given = if bar is None {
        default_bar(settings)
    } else {
        bar
    };
    let requested = cxl_requested(settings) && has_components(given);
    let locator = component_locator(given);
    let located = requested && locator is Some && locator_valid;
    let enabled = cxl_requested(settings) && (requested ==> located);
    let left = if requested && !located {
        components_dropped(given)
    } else {
        given
    };
    let usable = match left {
        Some(b) if b.index == 0 && intercepts => left,
        _ => None,
    };
    let kept = enabled && !(has_components(given) && usable is None);
    BarPlan {
        bar: usable,
        cxl: if kept {
            Some(
                CxlPort {
                    flex_bus: settings.cxl_flex_bus_port_capability->0,
                    locator: if located {
                        locator
                    } else {
                        None
                    },
                },
            )
        } else {
            None
        },
        component_registers: kept && located,
    }
}

/// Works out what a port makes of its BAR and of CXL.
pub fn plan_bar(
    settings: &PciePortSettings,
    bar: Option<PortBarDefinition>,
    locator_valid: bool,
    intercepts: bool,
) -> (r: (Option<PortBarDefinition>, Option<CxlPort>, bool))
    ensures
        ({
            let plan = bar_plan(*settings, bar_model(bar), locator_valid, intercepts);
            &&& bar_model(r.0) == plan.bar
            &&& r.1 == plan.cxl
            &&& r.2 == plan.component_registers
        }),
{
    let ghost plan = bar_plan(*settings, bar_model(bar), locator_valid, intercepts);
    let mut bar: Option<PortBarDefinition> = match bar {
        Some(b) => Some(b),
        None => default_bar_from_settings(settings),
    };
    let mut enabled: bool = is_cxl_requested(settings);
    let has_components: bool = has_cxl_component_register_subregion(&bar);
    let mut locator: Option<(u8, u64)> = None;
    let mut component_registers: bool = false;
    if enabled && has_components {
        let wanted: Option<(u8, u64)> = cxl_register_locator_from_bar(&bar);
        if wanted.is_some() && locator_valid {
            locator = wanted;
            component_registers = true;
        } else {
            bar = drop_cxl_component_register_subregions(bar);
            enabled = false;
        }
    }
    let usable: bool = match &bar {
        Some(b) => b.index == 0 && intercepts,
        None => false,
    };
    if !usable {
        bar = None;
    }
    if enabled && has_components && bar.is_none() {
        enabled = false;
        locator = None;
        component_registers = false;
    }
    let cxl: Option<CxlPort> = if enabled {
        match settings.cxl_flex_bus_port_capability {
            Some(flex_bus) => Some(CxlPort { flex_bus, locator }),
            None => None,
        }
    } else {
        None
    };
    (bar, cxl, component_registers)
}

/// A port of a kind that cannot have ACS is left without it, and so is one that
/// asks only for what is not implemented.
pub proof fn law_acs_filtered(port_type: DevicePortType, requested: u16)
    ensures
        acs_allowed(port_type, requested) & !requested == 0,
        acs_allowed(port_type, requested) & !ACS_CAPABILITY_IMPLEMENTED_MASK == 0,
        port_type == DevicePortType::UpstreamSwitchPort || port_type == DevicePortType::Endpoint
            ==> acs_allowed(port_type, requested) == 0,
        port_type == DevicePortType::RootPort || port_type == DevicePortType::DownstreamSwitchPort
            ==> acs_allowed(port_type, requested) == requested & ACS_CAPABILITY_IMPLEMENTED_MASK,
{
    let r = requested;
    assert({
        &&& (r & 0x00dfu16 & 0x00ffu16) & !r == 0
        &&& (r & 0x00dfu16 & 0x0000u16) & !r == 0
        &&& (r & 0x00dfu16 & 0x00ffu16) & !0x00dfu16 == 0
        &&& (r & 0x00dfu16 & 0x0000u16) & !0x00dfu16 == 0
        &&& r & 0x00dfu16 & 0x0000u16 == 0
        &&& r & 0x00dfu16 & 0x00ffu16 == r & 0x00dfu16
    }) by (bit_vector);
}

/// Component registers are there only with CXL, a BAR that they are in, and a
/// locator that says where.
pub proof fn law_component_registers(
    settings: PciePortSettings,
    bar: Option<BarModel>,
    locator_valid: bool,
    intercepts: bool,
)
    ensures
        ({
            let plan = bar_plan(settings, bar, locator_valid, intercepts);
            plan.component_registers ==> plan.cxl is Some && plan.cxl->0.locator is Some
                && plan.bar is Some && has_components(plan.bar)
                && component_locator(plan.bar) == plan.cxl->0.locator
        }),
{
}

}
