use pci_model::capabilities::aer::AER_HEADER_LOG_0;
use pci_model::capabilities::aer::AER_HEADER_LOG_1;
use pci_model::capabilities::aer::AER_HEADER_LOG_2;
use pci_model::capabilities::aer::AER_HEADER_LOG_3;
use pci_model::capabilities::aer::AER_UNCORRECTABLE_ERROR_STATUS;
use pci_model::capabilities::aer::AerExtendedCapability;
use pci_model::capabilities::aer::AerInjectedErrorKind;
use pci_model::capabilities::aer::AerInjection;
use pci_model::capabilities::aer::AerPortType;
use pci_model::capabilities::aer::LogDwords;
use pci_model::capabilities::dpc::DPC_CAPABILITY_CONTROL;
use pci_model::capabilities::dpc::DPC_STATUS_RP_BUSY;
use pci_model::capabilities::dpc::DPC_STATUS_SOURCE_ID;
use pci_model::capabilities::dpc::DPC_STATUS_TRIGGER;
use pci_model::capabilities::dvsec::DVSEC_DWORDS;
use pci_model::capabilities::dvsec::DvsecExtendedCapability;
use pci_model::capabilities::kinds::Capability;
use pci_model::capabilities::kinds::ExtendedCapability;
use pci_model::capabilities::msi::MsiMessage;
use pci_model::capabilities::DevicePortType;
use pci_model::capabilities::PciExtendedCapability;
use pci_model::cfg_space::type1::ConfigSpaceType1Emulator;
use pci_model::cfg_space::HardwareIds;
use pci_model::io::IoError;
use pci_model::io::IoResult;
use pci_model::pcie::bar_access::component_read_done;
use pci_model::pcie::bar_access::component_write_done;
use pci_model::pcie::bar_access::BarAccess;
use pci_model::pcie::port::InjectError;
use pci_model::pcie::port::Link;
use pci_model::pcie::port::LinkError;
use pci_model::pcie::port::PcieAerInjectRequest;
use pci_model::pcie::port::PcieDownstreamPort;
use pci_model::pcie::settings::filter_acs_capabilities_for_bridge;
use pci_model::pcie::settings::CxlDvsecs;
use pci_model::pcie::settings::CxlFlexBusPortCapability;
use pci_model::pcie::settings::PcieAerSettings;
use pci_model::pcie::settings::PcieDpcSettings;
use pci_model::pcie::settings::PciePortSettings;
use pci_model::pcie::settings::PortBarDefinition;
use pci_model::pcie::settings::PortBarSubregionDefinition;
use pci_model::pcie::settings::PortBarSubregionKind;
use pci_model::pcie::CfgRead;
use pci_model::pcie::GenericPciBusDevice;
use pci_model::pcie::PcieDpcRoutingAction;
use pci_model::regs::EXT_CAP_ID_ACS;
use pci_model::regs::EXT_CAP_ID_AER;
use pci_model::regs::EXT_CAP_ID_DPC;
use pci_model::regs::EXT_CAP_ID_DVSEC;
use pci_model::save_restore::RestoreError;

const DATA_LINK_PROTOCOL_ERROR: u32 = 0x10;

#[derive(Debug, Default, Clone)]
struct RoutingStats {
    forward_reads: Vec<(u8, u8, u16)>,
    forward_writes: Vec<(u8, u8, u16, u32)>,
}

/// A device that notes accesses, and has an AER capability at one function.
#[derive(Debug)]
struct MockDevice {
    stats: RoutingStats,
    devfn: u8,
    aer: AerExtendedCapability,
}

impl MockDevice {
    fn new() -> Self {
        MockDevice {
            stats: RoutingStats::default(),
            devfn: 0,
            aer: AerExtendedCapability::new(AerPortType::Endpoint),
        }
    }
}

impl GenericPciBusDevice for MockDevice {
    type Model = ();

    fn model(&self) {
        unreachable!()
    }

    fn read_routed(_: (), _: u8, _: u8, _: u8, _: u16, _: u32) -> CfgRead<()> {
        unreachable!()
    }

    fn write_routed(_: (), _: u8, _: u8, _: u8, _: u16, _: u32) -> ((), Option<IoResult>) {
        unreachable!()
    }

    fn aer_routed(_: (), _: u8, _: u8, _: u8, _: AerInjection) -> ((), bool) {
        unreachable!()
    }

    fn dpc_routed(_: (), _: u8, _: u8, _: u8, _: PcieDpcRoutingAction) -> ((), bool) {
        unreachable!()
    }

    fn pci_cfg_read_with_routing(
        &mut self,
        _secondary_bus: u8,
        target_bus: u8,
        function: u8,
        offset: u16,
        value: &mut u32,
    ) -> Option<IoResult> {
        self.stats
            .forward_reads
            .push((target_bus, function, offset));
        *value = 0x1234_5678;
        Some(Ok(()))
    }

    fn pci_cfg_write_with_routing(
        &mut self,
        _secondary_bus: u8,
        target_bus: u8,
        function: u8,
        offset: u16,
        value: u32,
    ) -> Option<IoResult> {
        self.stats
            .forward_writes
            .push((target_bus, function, offset, value));
        Some(Ok(()))
    }

    fn pci_inject_aer_with_routing(
        &mut self,
        secondary_bus: u8,
        target_bus: u8,
        function: u8,
        injection: AerInjection,
    ) -> bool {
        if target_bus != secondary_bus || function != self.devfn {
            return false;
        }
        let _ = self.aer.inject(injection);
        true
    }

    fn pci_inject_dpc_with_routing(
        &mut self,
        _secondary_bus: u8,
        _target_bus: u8,
        _function: u8,
        _action: PcieDpcRoutingAction,
    ) -> bool {
        false
    }
}

type Port = PcieDownstreamPort<MockDevice>;

fn hardware_ids() -> HardwareIds {
    HardwareIds {
        vendor_id: 0x1234,
        device_id: 0x5678,
        revision_id: 0,
        prog_if: 0,
        sub_class: 4,
        base_class: 6,
        type0_sub_vendor_id: 0,
        type0_sub_system_id: 0,
    }
}

fn make_port(
    name: &str,
    port_type: DevicePortType,
    hotplug_slot_number: Option<u32>,
    settings: PciePortSettings,
) -> Port {
    PcieDownstreamPort::new(
        name.to_string(),
        hardware_ids(),
        port_type,
        false,
        hotplug_slot_number,
        settings,
        None,
        CxlDvsecs::none(),
        false,
    )
}

fn with_dpc() -> PciePortSettings {
    PciePortSettings {
        dpc: Some(PcieDpcSettings::default()),
        ..Default::default()
    }
}

fn with_aer_and_dpc() -> PciePortSettings {
    PciePortSettings {
        aer: Some(PcieAerSettings::default()),
        dpc: Some(PcieDpcSettings::default()),
        ..Default::default()
    }
}

fn read(cfg: &ConfigSpaceType1Emulator<Capability, ExtendedCapability>, offset: u16) -> u32 {
    let mut value = 0;
    cfg.read_u32(offset, &mut value).unwrap();
    value
}

fn find_ext_cap_offset_type1(
    cfg: &ConfigSpaceType1Emulator<Capability, ExtendedCapability>,
    cap_id: u16,
) -> u16 {
    let mut offset = 0x100u16;
    let mut hop = 0;
    while offset != 0 && hop < 64 {
        let dword = read(cfg, offset);
        if (dword & 0xffff) as u16 == cap_id {
            return offset;
        }
        offset = ((dword >> 20) & 0xfff) as u16;
        hop += 1;
    }
    panic!("extended capability not found");
}

fn make_cxl_bar_port() -> Port {
    PcieDownstreamPort::new(
        "cxl-bar-port".to_string(),
        hardware_ids(),
        DevicePortType::RootPort,
        false,
        None,
        cxl_settings(),
        Some(cxl_bar()),
        cxl_dvsecs(),
        true,
    )
}

/// Registers with numbers that tell them apart.
fn cxl_dvsecs() -> CxlDvsecs {
    let dvsec = |label, count: usize, id: u32| {
        let mut registers = [0; DVSEC_DWORDS];
        for (i, r) in registers.iter_mut().enumerate() {
            *r = id * 0x100 + i as u32;
        }
        DvsecExtendedCapability::new(label, count, registers)
    };
    CxlDvsecs {
        port: dvsec("port", 9, 1),
        flex_bus: dvsec("flex-bus", 6, 2),
        locator: Some(dvsec("locator", 4, 3)),
    }
}

fn cxl_settings() -> PciePortSettings {
    PciePortSettings {
        acs_capabilities_supported: 0,
        aer: None,
        dpc: None,
        cxl_flex_bus_port_capability: Some(CxlFlexBusPortCapability {
            cache_capable: false,
            mem_capable: true,
            cxl_68b_flit_and_vh_capable: false,
            cxl_multi_logical_device_capable: false,
            cxl_latency_optimized_256b_flit_capable: false,
            cxl_pbr_flit_capable: false,
        }),
    }
}

fn cxl_bar() -> PortBarDefinition {
    PortBarDefinition {
        index: 0,
        size_bytes: 0x1000,
        subregions: vec![PortBarSubregionDefinition {
            kind: PortBarSubregionKind::CxlComponentRegisters,
            offset: 0,
            size_bytes: 0x1000,
        }],
    }
}

#[test]
fn test_add_pcie_device_sets_presence_detect_state() {
    // Create a port with hotplug support
    let mut port = make_port(
        "test-port",
        DevicePortType::RootPort,
        Some(1), // Enable hotplug with slot number 1
        PciePortSettings::default(),
    );

    // Initially, presence detect state should be 0
    let mut slot_status_val = 0u32;
    let result = port.cfg_space.read_u32(0x58, &mut slot_status_val); // 0x40 (cap start) + 0x18 (slot control/status)
    assert!(matches!(result, Ok(())));
    let initial_presence_detect = (slot_status_val >> 22) & 0x1; // presence_detect_state is bit 6 of slot status
    assert_eq!(
        initial_presence_detect, 0,
        "Initial presence detect state should be 0"
    );

    // Add a device to the port
    let result = port.add_pcie_device(
        &"test-port".to_string(),
        "mock-device".to_string(),
        MockDevice::new(),
    );
    assert!(result.is_ok(), "Adding device should succeed");

    // Check that presence detect state is now 1
    let result = port.cfg_space.read_u32(0x58, &mut slot_status_val);
    assert!(matches!(result, Ok(())));
    let present_presence_detect = (slot_status_val >> 22) & 0x1;
    assert_eq!(
        present_presence_detect, 1,
        "Presence detect state should be 1 after adding device"
    );
}

#[test]
fn test_add_pcie_device_without_hotplug() {
    let mut port = make_port(
        "test-port",
        DevicePortType::RootPort,
        None, // No hotplug
        PciePortSettings::default(),
    );

    let result = port.add_pcie_device(
        &"test-port".to_string(),
        "mock-device".to_string(),
        MockDevice::new(),
    );
    assert!(
        result.is_ok(),
        "Adding device should succeed even without hotplug support"
    );
}

fn port_with_device(settings: PciePortSettings) -> Port {
    let mut port = make_port("test-port", DevicePortType::RootPort, None, settings);
    port.cfg_space
        .write_u32(0x18, (1u32 << 16) | (1u32 << 8))
        .unwrap();
    port.link = Some(Link {
        name: "mf-device".to_string(),
        device: MockDevice::new(),
    });
    port
}

#[test]
fn test_direct_child_bus_reads_use_forward_for_multifunction_devices() {
    let mut port = port_with_device(PciePortSettings::default());

    let mut value = 0;
    // All accesses on the secondary bus are routed: the device itself finds the
    // function.
    assert!(matches!(
        port.forward_cfg_read_with_routing(1, 0, 0x10, &mut value),
        Ok(())
    ));
    assert!(matches!(
        port.forward_cfg_read_with_routing(1, 3, 0x14, &mut value),
        Ok(())
    ));

    let stats = port.link.unwrap().device.stats;
    assert_eq!(stats.forward_reads, vec![(1, 0, 0x10), (1, 3, 0x14)]);
}

#[test]
fn test_direct_child_bus_writes_use_forward_for_multifunction_devices() {
    let mut port = port_with_device(PciePortSettings::default());

    assert!(matches!(
        port.forward_cfg_write_with_routing(1, 0, 0x10, 0xAAAA_0000),
        Ok(())
    ));
    assert!(matches!(
        port.forward_cfg_write_with_routing(1, 2, 0x14, 0xBBBB_0000),
        Ok(())
    ));

    let stats = port.link.unwrap().device.stats;
    assert_eq!(
        stats.forward_writes,
        vec![(1, 0, 0x10, 0xAAAA_0000), (1, 2, 0x14, 0xBBBB_0000)]
    );
}

#[test]
fn test_dpc_containment_blocks_config_routing_below_port() {
    let mut port = port_with_device(with_dpc());

    // Trigger DPC containment using DPC Control (trigger enable + software trigger).
    port.cfg_space
        .write_u32(0x104, (0x1u32 | (1 << 6)) << 16)
        .unwrap();

    let mut value = 0;
    assert!(matches!(
        port.forward_cfg_read_with_routing(1, 0, 0x10, &mut value),
        Ok(())
    ));
    assert_eq!(value, !0);

    assert!(matches!(
        port.forward_cfg_write_with_routing(1, 0, 0x10, 0xAAAA_0000),
        Ok(())
    ));

    let stats = port.link.unwrap().device.stats;
    assert!(stats.forward_reads.is_empty());
    assert!(stats.forward_writes.is_empty());
}

#[test]
fn test_dpc_only_supported_on_root_or_downstream_switch_ports() {
    let root = make_port("root", DevicePortType::RootPort, None, with_dpc());
    let mut header = 0u32;
    root.cfg_space.read_u32(0x100, &mut header).unwrap();
    assert_eq!((header & 0xffff) as u16, EXT_CAP_ID_DPC);

    let downstream = make_port(
        "dsp",
        DevicePortType::DownstreamSwitchPort,
        None,
        with_dpc(),
    );
    downstream.cfg_space.read_u32(0x100, &mut header).unwrap();
    assert_eq!((header & 0xffff) as u16, EXT_CAP_ID_DPC);

    let upstream = make_port("usp", DevicePortType::UpstreamSwitchPort, None, with_dpc());
    upstream.cfg_space.read_u32(0x100, &mut header).unwrap();
    assert_ne!((header & 0xffff) as u16, EXT_CAP_ID_DPC);
}

fn request(header_log: LogDwords, source_id: u16) -> PcieAerInjectRequest {
    PcieAerInjectRequest {
        kind: AerInjectedErrorKind::Uncorrectable,
        status_bits: DATA_LINK_PROTOCOL_ERROR,
        header_log,
        source_id,
    }
}

#[test]
fn test_inject_dpc_two_phase_updates_aer_and_rp_busy() {
    let mut port = make_port("root", DevicePortType::RootPort, None, with_aer_and_dpc());

    port.inject_dpc_begin(request(
        LogDwords {
            d0: 1,
            d1: 2,
            d2: 3,
            d3: 4,
        },
        0x0100,
    ))
    .unwrap();

    let aer_off = find_ext_cap_offset_type1(&port.cfg_space, EXT_CAP_ID_AER);
    let dpc_off = find_ext_cap_offset_type1(&port.cfg_space, EXT_CAP_ID_DPC);

    let v = read(&port.cfg_space, aer_off + AER_UNCORRECTABLE_ERROR_STATUS);
    assert!(v & DATA_LINK_PROTOCOL_ERROR != 0);

    let v = read(&port.cfg_space, dpc_off + DPC_STATUS_SOURCE_ID);
    assert_eq!(v >> 16, 0x0100);
    let status = v as u16;
    assert!(status & DPC_STATUS_TRIGGER != 0);
    assert!(status & DPC_STATUS_RP_BUSY != 0);

    port.inject_dpc_complete().unwrap();
    let status = read(&port.cfg_space, dpc_off + DPC_STATUS_SOURCE_ID) as u16;
    assert!(status & DPC_STATUS_TRIGGER != 0);
    assert!(status & DPC_STATUS_RP_BUSY == 0);
}

#[test]
fn test_inject_dpc_supported_on_root_and_downstream_only() {
    let request = request(LogDwords::new(), 0x0100);

    let mut root = make_port("root", DevicePortType::RootPort, None, with_aer_and_dpc());
    assert!(root.inject_dpc_begin(request).is_ok());

    let mut downstream = make_port(
        "dsp",
        DevicePortType::DownstreamSwitchPort,
        None,
        with_aer_and_dpc(),
    );
    assert!(downstream.inject_dpc_begin(request).is_ok());

    let mut upstream = make_port(
        "usp",
        DevicePortType::UpstreamSwitchPort,
        None,
        with_aer_and_dpc(),
    );
    assert!(upstream.inject_dpc_begin(request).is_err());

    let mut no_dpc = make_port(
        "root-no-dpc",
        DevicePortType::RootPort,
        None,
        PciePortSettings {
            aer: Some(PcieAerSettings::default()),
            dpc: None,
            ..Default::default()
        },
    );
    assert!(no_dpc.inject_dpc_begin(request).is_err());
}

#[test]
fn test_inject_dpc_downstream_port_containment_updates_endpoint_and_clears_busy() {
    let mut port = make_port(
        "dsp",
        DevicePortType::DownstreamSwitchPort,
        None,
        with_aer_and_dpc(),
    );
    port.add_pcie_device(&"dsp".to_string(), "ep0".to_string(), MockDevice::new())
        .unwrap();

    let dpc_off = find_ext_cap_offset_type1(&port.cfg_space, EXT_CAP_ID_DPC);
    port.cfg_space
        .write_u32(dpc_off + DPC_CAPABILITY_CONTROL, 0x0009_0000)
        .unwrap();

    let header_log = LogDwords {
        d0: 0xdead_0001,
        d1: 0xbeef_0002,
        d2: 0xcafe_0003,
        d3: 0xfeed_0004,
    };
    port.inject_dpc_begin(request(header_log, 0)).unwrap();

    let status = read(&port.cfg_space, dpc_off + DPC_STATUS_SOURCE_ID);
    assert_eq!(status >> 16, 0);
    assert!(status as u16 & DPC_STATUS_TRIGGER != 0);
    // The busy bit is one of root ports, and reserved in switch downstream ports.
    assert!(status as u16 & DPC_STATUS_RP_BUSY == 0);

    let endpoint_aer = port.link.as_ref().unwrap().device.aer;
    assert_eq!(
        endpoint_aer.read_u32(AER_UNCORRECTABLE_ERROR_STATUS),
        DATA_LINK_PROTOCOL_ERROR
    );
    assert_eq!(endpoint_aer.read_u32(AER_HEADER_LOG_0), 0xdead_0001);
    assert_eq!(endpoint_aer.read_u32(AER_HEADER_LOG_1), 0xbeef_0002);
    assert_eq!(endpoint_aer.read_u32(AER_HEADER_LOG_2), 0xcafe_0003);
    assert_eq!(endpoint_aer.read_u32(AER_HEADER_LOG_3), 0xfeed_0004);

    port.inject_dpc_complete().unwrap();
    let status = read(&port.cfg_space, dpc_off + DPC_STATUS_SOURCE_ID) as u16;
    assert!(status & DPC_STATUS_TRIGGER != 0);
    assert!(status & DPC_STATUS_RP_BUSY == 0);
}

#[test]
fn test_port_cfg_space_save_restore() {
    let mut port = make_port(
        "test-port",
        DevicePortType::RootPort,
        None,
        PciePortSettings::default(),
    );

    // Program bridge bus numbers (Type1 register at offset 0x18).
    port.cfg_space.write_u32(0x18, 0x0012_1000).unwrap();
    assert_eq!(port.cfg_space.assigned_bus_range(), (0x10, 0x12));

    let saved = port.cfg_space.save();

    // Change state away from saved values.
    port.cfg_space.write_u32(0x18, 0x0000_0000).unwrap();
    assert_eq!(port.cfg_space.assigned_bus_range(), (0, 0));

    assert!(port.cfg_space.restore(saved).is_ok());
    assert_eq!(port.cfg_space.assigned_bus_range(), (0x10, 0x12));
}

#[test]
fn test_filter_acs_capabilities_for_bridge_type() {
    assert_eq!(
        filter_acs_capabilities_for_bridge(&DevicePortType::RootPort, 0x00ff),
        0x00df
    );
    assert_eq!(
        filter_acs_capabilities_for_bridge(&DevicePortType::DownstreamSwitchPort, 0x00ff),
        0x00df
    );
    assert_eq!(
        filter_acs_capabilities_for_bridge(&DevicePortType::UpstreamSwitchPort, 0x00ff),
        0
    );
    assert_eq!(
        filter_acs_capabilities_for_bridge(&DevicePortType::Endpoint, 0x00ff),
        0
    );
}

#[test]
fn test_root_port_adds_acs_only_when_non_zero() {
    let with_acs = make_port(
        "with-acs",
        DevicePortType::RootPort,
        None,
        PciePortSettings {
            acs_capabilities_supported: 0x005f,
            ..Default::default()
        },
    );
    let mut value = 0u32;
    with_acs.cfg_space.read_u32(0x100, &mut value).unwrap();
    assert_eq!(value & 0xffff, EXT_CAP_ID_ACS as u32);

    let without_acs = make_port(
        "without-acs",
        DevicePortType::RootPort,
        None,
        PciePortSettings::default(),
    );
    without_acs.cfg_space.read_u32(0x100, &mut value).unwrap();
    assert_eq!(value, 0);
}

#[test]
fn test_invalid_cxl_component_register_locator_disables_cxl_exposure() {
    let port: Port = PcieDownstreamPort::new(
        "test-port".to_string(),
        hardware_ids(),
        DevicePortType::RootPort,
        false,
        None,
        cxl_settings(),
        Some(cxl_bar()),
        cxl_dvsecs(),
        false,
    );

    let mut value = 0u32;
    port.cfg_space.read_u32(0x100, &mut value).unwrap();
    assert_eq!(
        value, 0,
        "CXL DVSECs should be absent when CXL component-register BAR backing is invalid"
    );
    assert!(port.cxl.is_none());
    assert!(
        !port.component_registers,
        "component-register backing should not be allocated"
    );
}

#[test]
fn cxl_registers_are_in_config_space() {
    let mut port = make_cxl_bar_port();
    // Three of them, one behind the other, each with its registers.
    for (offset, next, id, dwords) in [
        (0x100, 0x128, 1, 9),
        (0x128, 0x144, 2, 6),
        (0x144, 0, 3, 4),
    ] {
        let header = read(&port.cfg_space, offset);
        assert_eq!(header & 0xffff, EXT_CAP_ID_DVSEC as u32);
        assert_eq!(header >> 20, next);
        for i in 0..dwords {
            let at = offset + 4 + 4 * i as u16;
            assert_eq!(read(&port.cfg_space, at), id * 0x100 + i);
        }
    }
    port.cfg_space.write_u32(0x104, 0).unwrap();
    assert_eq!(read(&port.cfg_space, 0x104), 0x100);

    // Without a locator for component registers there is no CXL.
    let unlocated: Port = PcieDownstreamPort::new(
        "test-port".to_string(),
        hardware_ids(),
        DevicePortType::RootPort,
        false,
        None,
        cxl_settings(),
        Some(cxl_bar()),
        CxlDvsecs {
            locator: None,
            ..cxl_dvsecs()
        },
        true,
    );
    assert!(unlocated.cxl.is_none());
    assert_eq!(read(&unlocated.cfg_space, 0x100), 0);
}

#[test]
fn test_cxl_component_register_bar_rejects_1_or_2_byte_reads() {
    let port = make_cxl_bar_port();

    let mut read1 = [0u8; 1];
    assert!(matches!(
        port.bar_mmio_read(0, 0, &mut read1),
        BarAccess::Failed(IoError::InvalidAccessSize)
    ));

    let mut read2 = [0u8; 2];
    assert!(matches!(
        port.bar_mmio_read(0, 0, &mut read2),
        BarAccess::Failed(IoError::InvalidAccessSize)
    ));
}

#[test]
fn test_cxl_component_register_bar_rejects_1_or_2_byte_writes() {
    let port = make_cxl_bar_port();

    let write1 = [0u8; 1];
    assert!(matches!(
        port.bar_mmio_write(0, 0, &write1),
        BarAccess::Failed(IoError::InvalidAccessSize)
    ));

    let write2 = [0u8; 2];
    assert!(matches!(
        port.bar_mmio_write(0, 0, &write2),
        BarAccess::Failed(IoError::InvalidAccessSize)
    ));
}

#[test]
fn component_registers_are_reached() {
    let port = make_cxl_bar_port();
    assert!(port.component_registers);
    let mut data = [0u8; 8];
    assert_eq!(
        port.bar_mmio_read(0, 0x10, &mut data),
        BarAccess::Component(0x10)
    );
    assert_eq!(
        port.bar_mmio_read(0, 0x14, &mut data),
        BarAccess::Failed(IoError::UnalignedAccess)
    );
    // Beyond what is there, reads give zeros; where there is no BAR, ones.
    assert_eq!(
        port.bar_mmio_read(0, 0x1000, &mut data),
        BarAccess::Filled(0)
    );
    assert_eq!(data, [0; 8]);
    assert_eq!(
        port.bar_mmio_read(2, 0, &mut data),
        BarAccess::Filled(0xff)
    );
    assert_eq!(data, [0xff; 8]);
    // Registers that are not there read as zeros, and ignore writes.
    let mut data = [1u8; 4];
    assert_eq!(
        component_read_done(Err(IoError::InvalidRegister), &mut data),
        Ok(())
    );
    assert_eq!(data, [0; 4]);
    assert_eq!(component_write_done(Err(IoError::InvalidRegister)), Ok(()));
    assert_eq!(
        component_write_done(Err(IoError::InvalidAccessSize)),
        Err(IoError::InvalidAccessSize)
    );
}

#[test]
fn the_state_of_component_registers() {
    let with = make_cxl_bar_port();
    let without = make_port(
        "p",
        DevicePortType::RootPort,
        None,
        PciePortSettings::default(),
    );
    assert_eq!(with.save_cxl_component_registers_state(7), Some(7));
    assert_eq!(without.save_cxl_component_registers_state(7), None);
    assert!(matches!(
        with.restore_cxl_component_registers_state(Some(7)),
        Ok(Some(7))
    ));
    assert!(matches!(
        with.restore_cxl_component_registers_state::<u32>(None),
        Err(RestoreError::MissingComponentRegisters)
    ));
    assert!(matches!(
        without.restore_cxl_component_registers_state(Some(7)),
        Err(RestoreError::UnexpectedComponentRegisters)
    ));
}

#[test]
fn links() {
    let mut port = make_port(
        "p",
        DevicePortType::RootPort,
        None,
        PciePortSettings::default(),
    );
    assert_eq!(
        port.add_pcie_device(&"q".to_string(), "d".to_string(), MockDevice::new()),
        Err(LinkError::NameMismatch)
    );
    assert_eq!(
        port.hotplug_add_device("d".to_string(), MockDevice::new()),
        Err(LinkError::NotHotplugCapable)
    );
    assert!(port
        .add_pcie_device(&"p".to_string(), "d".to_string(), MockDevice::new())
        .is_ok());
    assert_eq!(
        port.add_pcie_device(&"p".to_string(), "d".to_string(), MockDevice::new()),
        Err(LinkError::Occupied)
    );
}

#[test]
fn hotplug_signals_the_guest() {
    let mut port = make_port(
        "p",
        DevicePortType::RootPort,
        Some(1),
        PciePortSettings::default(),
    );
    assert_eq!(port.hotplug_remove_device(), Err(LinkError::Empty));
    // The PCI Express capability is at 0x40 and has 0x1c bytes; MSI follows.
    port.cfg_space.write_u32(0x5c + 4, 0xfee0_0000).unwrap();
    port.cfg_space.write_u32(0x5c + 12, 0x40).unwrap();
    port.cfg_space.write_u32(0x5c, 0x0001_0000).unwrap();
    // Enable the hotplug interrupt in the slot control register.
    port.cfg_space.write_u32(0x58, 0x20).unwrap();
    port.hotplug_add_device("d".to_string(), MockDevice::new())
        .unwrap();
    assert_eq!(read(&port.cfg_space, 0x58) >> 22 & 1, 1);
    assert_eq!(
        port.outbox,
        vec![MsiMessage {
            address: 0xfee0_0000,
            data: 0x40,
        }]
    );
    assert_eq!(
        port.hotplug_add_device("d".to_string(), MockDevice::new()),
        Err(LinkError::Occupied)
    );
    port.hotplug_remove_device().unwrap();
    assert_eq!(read(&port.cfg_space, 0x58) >> 22 & 1, 0);
}

#[test]
fn errors_that_cannot_be_injected() {
    let mut port = make_port(
        "p",
        DevicePortType::RootPort,
        None,
        PciePortSettings::default(),
    );
    assert_eq!(
        port.inject_aer(request(LogDwords::new(), 0)),
        Err(InjectError::NotAReportingRootPort)
    );
    assert_eq!(
        port.inject_dpc_begin(request(LogDwords::new(), 0)),
        Err(InjectError::NoAerCapability)
    );
    assert_eq!(
        port.inject_dpc_complete(),
        Err(InjectError::NoDpcCapability)
    );
    let mut port = make_port("p", DevicePortType::RootPort, None, with_aer_and_dpc());
    let correctable = PcieAerInjectRequest {
        kind: AerInjectedErrorKind::Correctable,
        ..request(LogDwords::new(), 0)
    };
    assert_eq!(
        port.inject_dpc_begin(correctable),
        Err(InjectError::NotUncorrectable)
    );
    assert_eq!(port.inject_aer(correctable), Ok(()));
}
