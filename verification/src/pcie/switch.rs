//! A switch: one port that faces upstream, and ports that face downstream.
use crate::bars::no_mappings;
use crate::capabilities::aer::AerInjection;
use crate::capabilities::kinds::Capability;
use crate::capabilities::kinds::ExtendedCapability;
use crate::capabilities::pci_express::FlrRequest;
use crate::capabilities::pci_express::PciExpressCapability;
use crate::capabilities::DevicePortType;
use crate::cfg_space::common::bar0_only;
use crate::cfg_space::common::common_wf;
use crate::cfg_space::common::has_bars;
use crate::cfg_space::common::idle_header;
use crate::cfg_space::type1::assigned_buses;
use crate::cfg_space::type1::idle_type1;
use crate::cfg_space::type1::type1_read;
use crate::cfg_space::type1::type1_reset;
use crate::cfg_space::type1::type1_write_result;
use crate::cfg_space::type1::type1_written;
use crate::cfg_space::type1::ConfigSpaceType1Emulator;
use crate::cfg_space::HardwareIds;
use crate::io::IoResult;
use crate::pcie::names::downstream_name;
use crate::pcie::names::downstream_port_name;
use crate::pcie::port::child_aer;
use crate::pcie::port::child_dpc;
use crate::pcie::port::decodes;
use crate::pcie::port::dpc_applied;
use crate::pcie::port::forward_read;
use crate::pcie::port::forward_write;
use crate::pcie::port::local_aer;
use crate::pcie::port::port_made_from;
use crate::pcie::port::port_pcie_cap;
use crate::pcie::port::presence;
use crate::pcie::port::LinkError;
use crate::pcie::port::PcieDownstreamPort;
use crate::pcie::port::PortModel;
use crate::pcie::port::PortSpace;
use crate::pcie::settings::no_dvsecs;
use crate::pcie::settings::CxlDvsecs;
use crate::pcie::settings::PciePortSettings;
use crate::pcie::CLASS_BRIDGE;
use crate::pcie::CfgRead;
use crate::pcie::DOWNSTREAM_SWITCH_PORT_DEVICE_ID;
use crate::pcie::GenericPciBusDevice;
use crate::pcie::PcieDpcRoutingAction;
use crate::pcie::SUBCLASS_PCI_TO_PCI;
use crate::pcie::UPSTREAM_SWITCH_PORT_DEVICE_ID;
use crate::pcie::VENDOR_ID;
use vstd::prelude::*;

verus! {

/// The identity of a bridge.
pub open spec fn bridge_ids(device_id: u16) -> HardwareIds {
    HardwareIds {
        vendor_id: VENDOR_ID,
        device_id,
        revision_id: 0,
        prog_if: 0,
        sub_class: SUBCLASS_PCI_TO_PCI,
        base_class: CLASS_BRIDGE,
        type0_sub_vendor_id: 0,
        type0_sub_system_id: 0,
    }
}

/// Returns the identity of a bridge.
pub fn bridge_hardware_ids(device_id: u16) -> (r: HardwareIds)
    ensures
        r == bridge_ids(device_id),
{
    HardwareIds {
        vendor_id: VENDOR_ID,
        device_id,
        revision_id: 0,
        prog_if: 0,
        sub_class: SUBCLASS_PCI_TO_PCI,
        base_class: CLASS_BRIDGE,
        type0_sub_vendor_id: 0,
        type0_sub_system_id: 0,
    }
}

/// Settings without any feature.
pub open spec fn plain_settings() -> PciePortSettings {
    PciePortSettings {
        acs_capabilities_supported: 0,
        aer: None,
        dpc: None,
        cxl_flex_bus_port_capability: None,
    }
}

/// The port of a switch that faces upstream.
#[derive(Debug)]
pub struct UpstreamSwitchPort {
    /// Config space.
    pub cfg_space: ConfigSpaceType1Emulator<Capability, ExtendedCapability>,
}

/// Whether config space is that of a new upstream port.
pub open spec fn is_new_upstream(cfg: PortSpace) -> bool {
    &&& cfg.state == idle_type1()
    &&& cfg.common.state == idle_header()
    &&& cfg.common.hardware_ids == bridge_ids(UPSTREAM_SWITCH_PORT_DEVICE_ID)
    &&& !cfg.common.multi_function_bit
    &&& cfg.common.intx_interrupt is None
    &&& cfg.common.capabilities == seq![
        Capability::PciExpress(port_pcie_cap(DevicePortType::UpstreamSwitchPort, None)),
    ]
    &&& cfg.common.extended_capabilities.len() == 0
    &&& cfg.common.bar_count == 2
    &&& has_bars(cfg.common, bar0_only(None))
    &&& cfg.common.active_bars == no_mappings()
    &&& common_wf(cfg.common)
}

impl UpstreamSwitchPort {
    /// Returns the config space.
    pub fn cfg_space(&self) -> (r: &ConfigSpaceType1Emulator<Capability, ExtendedCapability>)
        ensures
            *r == self.cfg_space,
    {
        &self.cfg_space
    }

    /// Returns the config space, to be changed.
    pub fn cfg_space_mut(&mut self) -> (r: &mut ConfigSpaceType1Emulator<
        Capability,
        ExtendedCapability,
    >)
        ensures
            *r == old(self).cfg_space,
            *final(self) == (UpstreamSwitchPort { cfg_space: *final(r) }),
    {
        &mut self.cfg_space
    }

    /// Creates an upstream port.
    pub fn new() -> (r: Self)
        ensures
            is_new_upstream(r.cfg_space@),
    {
        let pcie: PciExpressCapability<FlrRequest> = PciExpressCapability::new(
            DevicePortType::UpstreamSwitchPort,
            false,
            None,
        );
        let mut caps: Vec<Capability> = Vec::new();
        caps.push(Capability::PciExpress(pcie));
        assert(caps@ =~= seq![
            Capability::PciExpress(port_pcie_cap(DevicePortType::UpstreamSwitchPort, None)),
        ]);
        UpstreamSwitchPort {
            cfg_space: ConfigSpaceType1Emulator::new(
                bridge_hardware_ids(UPSTREAM_SWITCH_PORT_DEVICE_ID),
                caps,
                Vec::new(),
            ),
        }
    }
}

/// A port of a switch that faces downstream.
#[derive(Debug)]
pub struct DownstreamSwitchPort<D> {
    /// The port.
    pub port: PcieDownstreamPort<D>,
}

/// Whether a port is a new downstream port.
pub open spec fn is_new_downstream<M>(
    m: PortModel<M>,
    name: Seq<char>,
    multi_function: bool,
    settings: PciePortSettings,
) -> bool {
    port_made_from(
        m,
        name,
        bridge_ids(DOWNSTREAM_SWITCH_PORT_DEVICE_ID),
        DevicePortType::DownstreamSwitchPort,
        multi_function,
        None,
        settings,
        None,
        no_dvsecs(),
        false,
    )
}

impl<D: GenericPciBusDevice> DownstreamSwitchPort<D> {
    /// Returns the config space.
    pub fn cfg_space(&self) -> (r: &ConfigSpaceType1Emulator<Capability, ExtendedCapability>)
        ensures
            *r == self.port.cfg_space,
    {
        &self.port.cfg_space
    }

    /// Returns the config space, to be changed.
    pub fn cfg_space_mut(&mut self) -> (r: &mut ConfigSpaceType1Emulator<
        Capability,
        ExtendedCapability,
    >)
        ensures
            *r == old(self).port.cfg_space,
            *final(self) == (DownstreamSwitchPort {
                port: PcieDownstreamPort { cfg_space: *final(r), ..old(self).port },
            }),
    {
        &mut self.port.cfg_space
    }

    /// Returns the port, to be changed.
    pub fn port_mut(&mut self) -> (r: &mut PcieDownstreamPort<D>)
        ensures
            *r == old(self).port,
            *final(self) == (DownstreamSwitchPort { port: *final(r) }),
    {
        &mut self.port
    }

    /// Creates a downstream port.
    pub fn new(name: String) -> (r: Self)
        ensures
            is_new_downstream(r.port.model(), name@, false, plain_settings()),
    {
        Self::new_with_multi_function(name, false, PciePortSettings::default())
    }

    /// Creates a downstream port, which may be one of more than one function.
    pub fn new_with_multi_function(
        name: String,
        multi_function: bool,
        settings: PciePortSettings,
    ) -> (r: Self)
        ensures
            is_new_downstream(r.port.model(), name@, multi_function, settings),
    {
        DownstreamSwitchPort {
            port: PcieDownstreamPort::new(
                name,
                bridge_hardware_ids(DOWNSTREAM_SWITCH_PORT_DEVICE_ID),
                DevicePortType::DownstreamSwitchPort,
                multi_function,
                None,
                settings,
                None,
                CxlDvsecs::none(),
                false,
            ),
        }
    }
}

/// What a switch is made with.
#[derive(Debug)]
pub struct GenericPcieSwitchDefinition {
    /// The name of the switch.
    pub name: String,
    /// The number of downstream ports.
    pub downstream_port_count: usize,
}

/// A switch. A downstream port is at the device and function number that is its
/// place in the list.
#[derive(Debug)]
pub struct GenericPcieSwitch<D> {
    /// The name of the switch.
    pub name: String,
    /// The port that faces upstream.
    pub upstream_port: UpstreamSwitchPort,
    /// The ports that face downstream.
    pub downstream_ports: Vec<DownstreamSwitchPort<D>>,
}

/// A switch as a value.
#[verifier::ext_equal]
pub struct SwitchModel<M> {
    /// The name of the switch.
    pub name: Seq<char>,
    /// The port that faces upstream.
    pub upstream: PortSpace,
    /// The ports that face downstream.
    pub ports: Seq<PortModel<M>>,
}

/// Ports as values.
pub open spec fn port_models<D: GenericPciBusDevice>(ports: Seq<DownstreamSwitchPort<D>>) -> Seq<
    PortModel<D::Model>,
> {
    Seq::new(ports.len(), |i: int| ports[i].port.model())
}

/// The number of ports that device and function numbers can be had for.
pub open spec fn port_slots(count: int) -> int {
    if count <= 256 {
        count
    } else {
        256
    }
}

/// The last port in a count that gets a device and function number: numbers
/// start again after 256 of them.
pub open spec fn last_with_number(number: int, count: int) -> int {
    number + (count - 1 - number) / 256 * 256
}

/// The first port, from one on, that decodes a bus.
pub open spec fn decoding_port<M>(ports: Seq<PortModel<M>>, bus: u8, i: int) -> Option<int>
    decreases ports.len() - i,
{
    if i >= ports.len() {
        None
    } else if decodes(ports[i].cfg, bus) {
        Some(i)
    } else {
        decoding_port(ports, bus, i + 1)
    }
}

/// What a read of config space of a port comes to: the result and the value.
pub open spec fn space_read(cfg: PortSpace, offset: u16, before: u32) -> (IoResult, u32) {
    match type1_read(cfg.common, cfg.state, offset) {
        Ok(v) => (Ok(()), v),
        Err(e) => (Err(e), before),
    }
}

/// Ports with one of them replaced.
pub open spec fn with_port<M>(m: SwitchModel<M>, i: int, port: PortModel<M>) -> SwitchModel<M> {
    SwitchModel { ports: m.ports.update(i, port), ..m }
}

/// What a read on a bus behind a switch comes to. The bus of its downstream
/// ports has those ports; other buses are behind one of them.
pub open spec fn route_read<D: GenericPciBusDevice>(
    m: SwitchModel<D::Model>,
    bus: u8,
    function: u8,
    offset: u16,
    before: u32,
) -> CfgRead<SwitchModel<D::Model>> {
    let nothing = CfgRead { model: m, result: None, value: before };
    if !decodes(m.upstream, bus) {
        nothing
    } else if bus == assigned_buses(m.upstream.state).0 {
        if function < m.ports.len() {
            let (result, value) = space_read(m.ports[function as int].cfg, offset, before);
            CfgRead { model: m, result: Some(result), value }
        } else {
            nothing
        }
    } else {
        match decoding_port(m.ports, bus, 0) {
            Some(i) => {
                let (port, result, value) = forward_read::<D>(
                    m.ports[i],
                    bus,
                    function,
                    offset,
                    before,
                );
                CfgRead { model: with_port(m, i, port), result: Some(result), value }
            },
            None => nothing,
        }
    }
}

/// The switch after a write on a bus behind it, and the result.
pub open spec fn route_write<D: GenericPciBusDevice>(
    m: SwitchModel<D::Model>,
    bus: u8,
    function: u8,
    offset: u16,
    value: u32,
) -> (SwitchModel<D::Model>, Option<IoResult>) {
    if !decodes(m.upstream, bus) {
        (m, None)
    } else if bus == assigned_buses(m.upstream.state).0 {
        if function < m.ports.len() {
            let port = m.ports[function as int];
            (
                with_port(
                    m,
                    function as int,
                    PortModel { cfg: type1_written(port.cfg, offset, value), ..port },
                ),
                Some(type1_write_result(port.cfg.common, offset)),
            )
        } else {
            (m, None)
        }
    } else {
        match decoding_port(m.ports, bus, 0) {
            Some(i) => {
                let (port, result) = forward_write::<D>(m.ports[i], bus, function, offset, value);
                (with_port(m, i, port), Some(result))
            },
            None => (m, None),
        }
    }
}

/// The switch after an error was recorded at a function on a bus behind it, and
/// whether it was.
pub open spec fn route_aer<D: GenericPciBusDevice>(
    m: SwitchModel<D::Model>,
    bus: u8,
    function: u8,
    injection: AerInjection,
) -> (SwitchModel<D::Model>, bool) {
    if !decodes(m.upstream, bus) {
        (m, false)
    } else if bus == assigned_buses(m.upstream.state).0 {
        if function < m.ports.len() {
            let (port, done) = local_aer(m.ports[function as int], injection);
            (with_port(m, function as int, port), done)
        } else {
            (m, false)
        }
    } else {
        match decoding_port(m.ports, bus, 0) {
            Some(i) => {
                let (port, done) = child_aer::<D>(m.ports[i], bus, function, injection);
                (with_port(m, i, port), done)
            },
            None => (m, false),
        }
    }
}

/// The switch after a downstream port of it, or a port behind that one, was to
/// contain an error of a function, and whether one did. Ports that are closer
/// to the function come first.
pub open spec fn route_dpc<D: GenericPciBusDevice>(
    m: SwitchModel<D::Model>,
    bus: u8,
    function: u8,
    action: PcieDpcRoutingAction,
) -> (SwitchModel<D::Model>, bool) {
    if !decodes(m.upstream, bus) || bus == assigned_buses(m.upstream.state).0 {
        (m, false)
    } else {
        match decoding_port(m.ports, bus, 0) {
            Some(i) => {
                let (port, done) = contain_upstream::<D>(m.ports[i], bus, function, action);
                (with_port(m, i, port), done)
            },
            None => (m, false),
        }
    }
}

/// The port after an error of a function behind it was to be contained, and
/// whether it was: by a port closer to the function if there is one that can,
/// else by the port itself.
pub open spec fn contain_upstream<D: GenericPciBusDevice>(
    m: PortModel<D::Model>,
    bus: u8,
    function: u8,
    action: PcieDpcRoutingAction,
) -> (PortModel<D::Model>, bool) {
    let (routed, done) = if bus != assigned_buses(m.cfg.state).0 {
        child_dpc::<D>(m, bus, function, action)
    } else {
        (m, false)
    };
    if done {
        (routed, true)
    } else {
        dpc_applied(routed, (bus * 256 + function) as u16, action)
    }
}

impl<D: GenericPciBusDevice> PcieDownstreamPort<D> {
    /// Contains an error of a function behind the port: at a port closer to the
    /// function if there is one that can, else at the port itself.
    pub fn apply_dpc_upstream(
        &mut self,
        target_bus: u8,
        function: u8,
        action: PcieDpcRoutingAction,
    ) -> (r: bool)
        ensures
            (final(self).model(), r) == contain_upstream::<D>(
                old(self).model(),
                target_bus,
                function,
                action,
            ),
    {
        let (secondary_bus, _) = self.cfg_space.assigned_bus_range();
        if target_bus != secondary_bus && self.route_child_dpc(target_bus, function, action) {
            return true;
        }
        self.apply_dpc_action(target_bus as u16 * 256 + function as u16, action)
    }
}

fn find_decoding<D: GenericPciBusDevice>(ports: &Vec<DownstreamSwitchPort<D>>, bus: u8) -> (r:
    Option<usize>)
    ensures
        match decoding_port(port_models(ports@), bus, 0) {
            Some(i) => r == Some(i as usize) && 0 <= i < ports.len(),
            None => r is None,
        },
{
    let mut i: usize = 0;
    while i < ports.len()
        invariant
            i <= ports.len(),
            decoding_port(port_models(ports@), bus, 0) == decoding_port(
                port_models(ports@),
                bus,
                i as int,
            ),
        decreases ports.len() - i,
    {
        let (first, last) = ports[i].port.cfg_space.assigned_bus_range();
        if !(first == 0 && last == 0) && first <= bus && bus <= last {
            return Some(i);
        }
        i = i + 1;
    }
    None
}

impl<D: GenericPciBusDevice> GenericPcieSwitch<D> {
    /// Returns the name.
    pub fn name(&self) -> (r: &String)
        ensures
            *r == self.name,
    {
        &self.name
    }

    /// Returns the upstream port.
    pub fn upstream_port(&self) -> (r: &UpstreamSwitchPort)
        ensures
            *r == self.upstream_port,
    {
        &self.upstream_port
    }

    /// The switch as a value.
    pub open spec fn switch_model(&self) -> SwitchModel<D::Model> {
        SwitchModel {
            name: self.name@,
            upstream: self.upstream_port.cfg_space@,
            ports: port_models(self.downstream_ports@),
        }
    }

    /// Creates a switch. Ports that are one of more than one have the
    /// multi-function flag.
    pub fn new(definition: GenericPcieSwitchDefinition) -> (r: Self)
        ensures
            r.name@ == definition.name@,
            is_new_upstream(r.upstream_port.cfg_space@),
            r.downstream_ports@.len() == port_slots(definition.downstream_port_count as int),
            forall|i: int|
                0 <= i < r.downstream_ports@.len() ==> is_new_downstream(
                    (#[trigger] r.downstream_ports@[i]).port.model(),
                    downstream_name(
                        definition.name@,
                        last_with_number(i, definition.downstream_port_count as int),
                    ),
                    definition.downstream_port_count > 1,
                    plain_settings(),
                ),
    {
        Self::with_settings(definition, PciePortSettings::default())
    }

    /// Creates a switch whose downstream ports have the given settings.
    pub fn with_settings(
        definition: GenericPcieSwitchDefinition,
        settings: PciePortSettings,
    ) -> (r: Self)
        ensures
            r.name@ == definition.name@,
            is_new_upstream(r.upstream_port.cfg_space@),
            r.downstream_ports@.len() == port_slots(definition.downstream_port_count as int),
            forall|i: int|
                0 <= i < r.downstream_ports@.len() ==> is_new_downstream(
                    (#[trigger] r.downstream_ports@[i]).port.model(),
                    downstream_name(
                        definition.name@,
                        last_with_number(i, definition.downstream_port_count as int),
                    ),
                    definition.downstream_port_count > 1,
                    settings,
                ),
    {
        let count: usize = definition.downstream_port_count;
        let multi_function: bool = count > 1;
        let slots: usize = if count <= 256 {
            count
        } else {
            256
        };
        let mut ports: Vec<DownstreamSwitchPort<D>> = Vec::new();
        let mut i: usize = 0;
        while i < slots
            invariant
                i <= slots,
                slots == port_slots(count as int),
                ports@.len() == i,
                multi_function == (count > 1),
                forall|j: int|
                    0 <= j < i ==> is_new_downstream(
                        (#[trigger] ports@[j]).port.model(),
                        downstream_name(definition.name@, last_with_number(j, count as int)),
                        count > 1,
                        settings,
                    ),
            decreases slots - i,
        {
            let last: usize = i + (count - 1 - i) / 256 * 256;
            let port_name: String = downstream_port_name(&definition.name, last);
            ports.push(
                DownstreamSwitchPort::new_with_multi_function(port_name, multi_function, settings),
            );
            i = i + 1;
        }
        GenericPcieSwitch {
            name: definition.name,
            upstream_port: UpstreamSwitchPort::new(),
            downstream_ports: ports,
        }
    }

    /// Returns the downstream ports: their numbers and names.
    pub fn downstream_ports(&self) -> (r: Vec<(u8, String)>)
        requires
            self.downstream_ports@.len() <= 256,
        ensures
            r@.len() == self.downstream_ports@.len(),
            forall|i: int|
                0 <= i < r@.len() ==> (#[trigger] r@[i]).0 == i && r@[i].1@
                    == self.downstream_ports@[i].port.name@,
    {
        let mut r: Vec<(u8, String)> = Vec::new();
        let mut i: usize = 0;
        while i < self.downstream_ports.len()
            invariant
                i <= self.downstream_ports.len() <= 256,
                r@.len() == i,
                forall|j: int|
                    0 <= j < i ==> (#[trigger] r@[j]).0 == j && r@[j].1@
                        == self.downstream_ports@[j].port.name@,
            decreases self.downstream_ports.len() - i,
        {
            r.push((i as u8, self.downstream_ports[i].port.name.clone()));
            i = i + 1;
        }
        r
    }

    fn is_decoding(&self, bus: u8) -> (r: bool)
        ensures
            r == decodes(self.upstream_port.cfg_space@, bus),
    {
        let (first, last) = self.upstream_port.cfg_space.assigned_bus_range();
        !(first == 0 && last == 0) && first <= bus && bus <= last
    }

    /// Reads config space on a bus behind the switch.
    pub fn route_cfg_read(
        &mut self,
        bus: u8,
        device_function: u8,
        cfg_offset: u16,
        value: &mut u32,
    ) -> (r: Option<IoResult>)
        ensures
            (CfgRead { model: final(self).switch_model(), result: r, value: *final(value) })
                == route_read::<D>(
                old(self).switch_model(),
                bus,
                device_function,
                cfg_offset,
                *old(value),
            ),
    {
        if !self.is_decoding(bus) {
            return None;
        }
        let (secondary_bus, _) = self.upstream_port.cfg_space.assigned_bus_range();
        if bus == secondary_bus {
            if (device_function as usize) < self.downstream_ports.len() {
                let i: usize = device_function as usize;
                let result: IoResult = self.downstream_ports[i].port.cfg_space.read_u32(
                    cfg_offset,
                    value,
                );
                return Some(result);
            }
            return None;
        }
        match find_decoding(&self.downstream_ports, bus) {
            Some(i) => {
                let result: IoResult =
                    self.downstream_ports[i].port.forward_cfg_read_with_routing(
                    bus,
                    device_function,
                    cfg_offset,
                    value,
                );
                proof {
                    assert(self.switch_model().ports =~= route_read::<D>(
                        old(self).switch_model(),
                        bus,
                        device_function,
                        cfg_offset,
                        *old(value),
                    ).model.ports);
                }
                Some(result)
            },
            None => None,
        }
    }

    /// Writes config space on a bus behind the switch.
    pub fn route_cfg_write(
        &mut self,
        bus: u8,
        device_function: u8,
        cfg_offset: u16,
        value: u32,
    ) -> (r: Option<IoResult>)
        ensures
            (final(self).switch_model(), r) == route_write::<D>(
                old(self).switch_model(),
                bus,
                device_function,
                cfg_offset,
                value,
            ),
    {
        if !self.is_decoding(bus) {
            return None;
        }
        let (secondary_bus, _) = self.upstream_port.cfg_space.assigned_bus_range();
        if bus == secondary_bus {
            if (device_function as usize) < self.downstream_ports.len() {
                let i: usize = device_function as usize;
                let result: IoResult = self.downstream_ports[i].port.cfg_space.write_u32(
                    cfg_offset,
                    value,
                );
                proof {
                    assert(self.switch_model().ports =~= route_write::<D>(
                        old(self).switch_model(),
                        bus,
                        device_function,
                        cfg_offset,
                        value,
                    ).0.ports);
                }
                return Some(result);
            }
            return None;
        }
        match find_decoding(&self.downstream_ports, bus) {
            Some(i) => {
                let result: IoResult =
                    self.downstream_ports[i].port.forward_cfg_write_with_routing(
                    bus,
                    device_function,
                    cfg_offset,
                    value,
                );
                proof {
                    assert(self.switch_model().ports =~= route_write::<D>(
                        old(self).switch_model(),
                        bus,
                        device_function,
                        cfg_offset,
                        value,
                    ).0.ports);
                }
                Some(result)
            },
            None => None,
        }
    }

    /// Connects a device to a downstream port. There has to be a port with the
    /// number, and nothing connected to it.
    pub fn add_pcie_device(&mut self, port: u8, name: String, dev: D) -> (r: Result<
        (),
        Option<LinkError>,
    >)
        ensures
            port >= old(self).downstream_ports@.len() ==> r == Err::<(), Option<LinkError>>(None)
                && final(self).switch_model() == old(self).switch_model(),
            port < old(self).downstream_ports@.len() ==> {
                let before = old(self).downstream_ports@[port as int].port;
                if before.link is Some {
                    r == Err::<(), Option<LinkError>>(Some(LinkError::Occupied))
                        && final(self).switch_model() == old(self).switch_model()
                } else {
                    r is Ok && final(self).switch_model() == with_port(
                        old(self).switch_model(),
                        port as int,
                        (PortModel {
                            link: Some((name@, dev.model())),
                            cfg: presence(before.cfg_space@, true),
                            ..before.model()
                        }),
                    )
                }
            },
    {
        if port as usize >= self.downstream_ports.len() {
            return Err(None);
        }
        let i: usize = port as usize;
        let port_name: String = self.downstream_ports[i].port.name.clone();
        let ghost before = self.switch_model();
        let result: Result<(), LinkError> = self.downstream_ports[i].port.add_pcie_device(
            &port_name,
            name,
            dev,
        );
        proof {
            let after = self.switch_model();
            assert(after.ports =~= before.ports.update(
                i as int,
                self.downstream_ports@[i as int].port.model(),
            ));
            assert(before.ports.update(i as int, before.ports[i as int]) =~= before.ports);
        }
        match result {
            Ok(()) => Ok(()),
            Err(e) => Err(Some(e)),
        }
    }

    /// Resets all ports.
    pub fn reset(&mut self)
        ensures
            final(self).name@ == old(self).name@,
            final(self).upstream_port.cfg_space@ == type1_reset(old(self).upstream_port.cfg_space@),
            final(self).downstream_ports@.len() == old(self).downstream_ports@.len(),
            forall|i: int|
                0 <= i < old(self).downstream_ports@.len() ==> (
                #[trigger] final(self).downstream_ports@[i]).port.model() == (PortModel {
                    cfg: type1_reset(old(self).downstream_ports@[i].port.cfg_space@),
                    ..old(self).downstream_ports@[i].port.model()
                }),
    {
        self.upstream_port.cfg_space.reset();
        let ghost before = self.downstream_ports@;
        let mut i: usize = 0;
        while i < self.downstream_ports.len()
            invariant
                i <= self.downstream_ports@.len(),
                before == old(self).downstream_ports@,
                self.name@ == old(self).name@,
                self.upstream_port.cfg_space@ == type1_reset(old(self).upstream_port.cfg_space@),
                self.downstream_ports@.len() == before.len(),
                forall|j: int|
                    0 <= j < before.len() ==> (#[trigger] self.downstream_ports@[j]).port.model()
                        == if j < i {
                        PortModel {
                            cfg: type1_reset(before[j].port.cfg_space@),
                            ..before[j].port.model()
                        }
                    } else {
                        before[j].port.model()
                    },
            decreases self.downstream_ports.len() - i,
        {
            assert(self.downstream_ports@[i as int].port.model() == before[i as int].port.model());
            assert(self.downstream_ports@[i as int].port.model().cfg
                == before[i as int].port.cfg_space@);
            self.downstream_ports[i].port.cfg_space.reset();
            i = i + 1;
        }
    }
}

impl<D: GenericPciBusDevice> GenericPciBusDevice for GenericPcieSwitch<D> {
    type Model = SwitchModel<D::Model>;

    open spec fn model(&self) -> SwitchModel<D::Model> {
        self.switch_model()
    }

    open spec fn read_routed(
        m: SwitchModel<D::Model>,
        secondary_bus: u8,
        target_bus: u8,
        function: u8,
        offset: u16,
        before: u32,
    ) -> CfgRead<SwitchModel<D::Model>> {
        if target_bus == secondary_bus {
            if function == 0 {
                let (result, value) = space_read(m.upstream, offset, before);
                CfgRead { model: m, result: Some(result), value }
            } else {
                CfgRead { model: m, result: None, value: before }
            }
        } else {
            route_read::<D>(m, target_bus, function, offset, before)
        }
    }

    open spec fn write_routed(
        m: SwitchModel<D::Model>,
        secondary_bus: u8,
        target_bus: u8,
        function: u8,
        offset: u16,
        value: u32,
    ) -> (SwitchModel<D::Model>, Option<IoResult>) {
        if target_bus == secondary_bus {
            if function == 0 {
                (
                    SwitchModel { upstream: type1_written(m.upstream, offset, value), ..m },
                    Some(type1_write_result(m.upstream.common, offset)),
                )
            } else {
                (m, None)
            }
        } else {
            route_write::<D>(m, target_bus, function, offset, value)
        }
    }

    open spec fn aer_routed(
        m: SwitchModel<D::Model>,
        secondary_bus: u8,
        target_bus: u8,
        function: u8,
        injection: AerInjection,
    ) -> (SwitchModel<D::Model>, bool) {
        if target_bus == secondary_bus {
            (m, false)
        } else {
            route_aer::<D>(m, target_bus, function, injection)
        }
    }

    open spec fn dpc_routed(
        m: SwitchModel<D::Model>,
        secondary_bus: u8,
        target_bus: u8,
        function: u8,
        action: PcieDpcRoutingAction,
    ) -> (SwitchModel<D::Model>, bool) {
        if target_bus == secondary_bus {
            (m, false)
        } else {
            route_dpc::<D>(m, target_bus, function, action)
        }
    }

    fn pci_cfg_read_with_routing(
        &mut self,
        secondary_bus: u8,
        target_bus: u8,
        function: u8,
        offset: u16,
        value: &mut u32,
    ) -> (r: Option<IoResult>) {
        if target_bus == secondary_bus {
            if function == 0 {
                Some(self.upstream_port.cfg_space.read_u32(offset, value))
            } else {
                None
            }
        } else {
            self.route_cfg_read(target_bus, function, offset, value)
        }
    }

    fn pci_cfg_write_with_routing(
        &mut self,
        secondary_bus: u8,
        target_bus: u8,
        function: u8,
        offset: u16,
        value: u32,
    ) -> (r: Option<IoResult>) {
        if target_bus == secondary_bus {
            if function == 0 {
                Some(self.upstream_port.cfg_space.write_u32(offset, value))
            } else {
                None
            }
        } else {
            self.route_cfg_write(target_bus, function, offset, value)
        }
    }

    fn pci_inject_aer_with_routing(
        &mut self,
        secondary_bus: u8,
        target_bus: u8,
        function: u8,
        injection: AerInjection,
    ) -> (r: bool) {
        if target_bus == secondary_bus || !self.is_decoding(target_bus) {
            return false;
        }
        let ghost before = self.switch_model();
        let (upstream_secondary, _) = self.upstream_port.cfg_space.assigned_bus_range();
        if target_bus == upstream_secondary {
            if (function as usize) < self.downstream_ports.len() {
                let i: usize = function as usize;
                let done: bool = self.downstream_ports[i].port.inject_local_aer_state(injection);
                proof {
                    assert(self.switch_model().ports =~= route_aer::<D>(
                        before,
                        target_bus,
                        function,
                        injection,
                    ).0.ports);
                }
                return done;
            }
            return false;
        }
        match find_decoding(&self.downstream_ports, target_bus) {
            Some(i) => {
                let done: bool = self.downstream_ports[i].port.inject_child_aer(
                    target_bus,
                    function,
                    injection,
                );
                proof {
                    assert(self.switch_model().ports =~= route_aer::<D>(
                        before,
                        target_bus,
                        function,
                        injection,
                    ).0.ports);
                }
                done
            },
            None => false,
        }
    }

    fn pci_inject_dpc_with_routing(
        &mut self,
        secondary_bus: u8,
        target_bus: u8,
        function: u8,
        action: PcieDpcRoutingAction,
    ) -> (r: bool) {
        let (upstream_secondary, _) = self.upstream_port.cfg_space.assigned_bus_range();
        if target_bus == secondary_bus || !self.is_decoding(target_bus) || target_bus
            == upstream_secondary {
            return false;
        }
        let ghost before = self.switch_model();
        match find_decoding(&self.downstream_ports, target_bus) {
            Some(i) => {
                let done: bool = self.downstream_ports[i].port.apply_dpc_upstream(
                    target_bus,
                    function,
                    action,
                );
                proof {
                    assert(self.switch_model().ports =~= route_dpc::<D>(
                        before,
                        target_bus,
                        function,
                        action,
                    ).0.ports);
                }
                done
            },
            None => false,
        }
    }
}

/// An access outside of the buses that a switch decodes is not answered and
/// changes nothing.
pub proof fn law_switch_outside<D: GenericPciBusDevice>(
    m: SwitchModel<D::Model>,
    bus: u8,
    function: u8,
    offset: u16,
    value: u32,
)
    requires
        !decodes(m.upstream, bus),
    ensures
        route_read::<D>(m, bus, function, offset, value) == (CfgRead {
            model: m,
            result: None::<IoResult>,
            value,
        }),
        route_write::<D>(m, bus, function, offset, value) == (m, None::<IoResult>),
{
}

}
