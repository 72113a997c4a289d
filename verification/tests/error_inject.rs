use pci_model::capabilities::aer::AER_CORRECTABLE_ERROR_STATUS;
use pci_model::capabilities::aer::AER_ERROR_SOURCE_IDENTIFICATION;
use pci_model::capabilities::aer::AER_HEADER_LOG_0;
use pci_model::capabilities::aer::AER_HEADER_LOG_1;
use pci_model::capabilities::aer::AER_HEADER_LOG_2;
use pci_model::capabilities::aer::AER_HEADER_LOG_3;
use pci_model::capabilities::aer::AER_ROOT_ERROR_COMMAND;
use pci_model::capabilities::aer::AER_ROOT_ERROR_STATUS;
use pci_model::capabilities::aer::AER_UNCORRECTABLE_ERROR_STATUS;
use pci_model::capabilities::aer::AerExtendedCapability;
use pci_model::capabilities::aer::AerInjectedErrorKind;
use pci_model::capabilities::aer::AerInjection;
use pci_model::capabilities::aer::AerPortType;
use pci_model::capabilities::aer::LogDwords;
use pci_model::capabilities::aer::ROOT_COMMAND_COR;
use pci_model::capabilities::aer::ROOT_STATUS_ERR_COR;
use pci_model::capabilities::aer::ROOT_STATUS_ERR_UNC;
use pci_model::capabilities::dpc::DPC_CAPABILITY_CONTROL;
use pci_model::capabilities::dpc::DPC_CONTROL_INTERRUPT_ENABLE;
use pci_model::capabilities::dpc::DPC_STATUS_RP_BUSY;
use pci_model::capabilities::dpc::DPC_STATUS_SOURCE_ID;
use pci_model::capabilities::dpc::DPC_STATUS_TRIGGER;
use pci_model::capabilities::kinds::Capability;
use pci_model::capabilities::kinds::ExtendedCapability;
use pci_model::capabilities::DevicePortType;
use pci_model::capabilities::PciExtendedCapability;
use pci_model::cfg_space::type1::ConfigSpaceType1Emulator;
use pci_model::cfg_space::HardwareIds;
use pci_model::io::IoResult;
use pci_model::pcie::error_inject::PcieAerInjectRequest;
use pci_model::pcie::error_inject::TargetError;
use pci_model::pcie::port::PcieDownstreamPort;
use pci_model::pcie::root::GenericPcieRootComplex;
use pci_model::pcie::root::GenericPcieRootPortDefinition;
use pci_model::pcie::settings::CxlDvsecs;
use pci_model::pcie::settings::PcieAerSettings;
use pci_model::pcie::settings::PcieDpcSettings;
use pci_model::pcie::settings::PciePortSettings;
use pci_model::pcie::switch::GenericPcieSwitch;
use pci_model::pcie::switch::GenericPcieSwitchDefinition;
use pci_model::pcie::CfgRead;
use pci_model::pcie::GenericPciBusDevice;
use pci_model::pcie::PcieDpcRoutingAction;
use pci_model::regs::CAP_ID_MSI;
use pci_model::regs::EXT_CAP_ID_AER;
use pci_model::regs::EXT_CAP_ID_DPC;

const DATA_LINK_PROTOCOL_ERROR: u32 = 0x10;
const RECEIVER_ERROR: u32 = 0x1;

/// A device with an AER capability at one function.
#[derive(Debug)]
struct TestAerEndpoint {
    devfn: u8,
    aer: AerExtendedCapability,
}

impl TestAerEndpoint {
    fn new(devfn: u8) -> Self {
        TestAerEndpoint {
            devfn,
            aer: AerExtendedCapability::new(AerPortType::Endpoint),
        }
    }
}

impl GenericPciBusDevice for TestAerEndpoint {
    type Model = ();

    fn model(&self) {
        unreachable!()
    }

    fn read_routed(_: (), _: u8, _: u8, _: u8, _: u16, _: u32) -> CfgRead<()> {
        unreachable!()
    }

    fn write_routed(_: (), _: u8, _: u8, _: u8, _: u16, _: u32) -> ((), Option<IoResult>) {
        unreachable!()
    }

    fn aer_routed(_: (), _: u8, _: u8, _: u8, _: AerInjection) -> ((), bool) {
        unreachable!()
    }

    fn dpc_routed(_: (), _: u8, _: u8, _: u8, _: PcieDpcRoutingAction) -> ((), bool) {
        unreachable!()
    }

    fn pci_cfg_read_with_routing(
        &mut self,
        _secondary_bus: u8,
        _target_bus: u8,
        _function: u8,
        _offset: u16,
        value: &mut u32,
    ) -> Option<IoResult> {
        *value = !0;
        Some(Ok(()))
    }

    fn pci_cfg_write_with_routing(
        &mut self,
        _secondary_bus: u8,
        _target_bus: u8,
        _function: u8,
        _offset: u16,
        _value: u32,
    ) -> Option<IoResult> {
        Some(Ok(()))
    }

    fn pci_inject_aer_with_routing(
        &mut self,
        secondary_bus: u8,
        target_bus: u8,
        function: u8,
        injection: AerInjection,
    ) -> bool {
        if target_bus != secondary_bus || function != self.devfn {
            return false;
        }
        let _ = self.aer.inject(injection);
        true
    }

    fn pci_inject_dpc_with_routing(
        &mut self,
        _secondary_bus: u8,
        _target_bus: u8,
        _function: u8,
        _action: PcieDpcRoutingAction,
    ) -> bool {
        false
    }
}

type Switch = GenericPcieSwitch<TestAerEndpoint>;
type Root = GenericPcieRootComplex<Switch>;
type Cfg = ConfigSpaceType1Emulator<Capability, ExtendedCapability>;

fn bridge_hardware_ids() -> HardwareIds {
    HardwareIds {
        vendor_id: 0x1234,
        device_id: 0x5678,
        revision_id: 0,
        prog_if: 0,
        sub_class: 4,
        base_class: 6,
        type0_sub_vendor_id: 0,
        type0_sub_system_id: 0,
    }
}

fn make_port(
    name: &str,
    port_type: DevicePortType,
    aer: bool,
    dpc: bool,
) -> PcieDownstreamPort<TestAerEndpoint> {
    PcieDownstreamPort::new(
        name.to_string(),
        bridge_hardware_ids(),
        port_type,
        false,
        None,
        settings(aer, dpc),
        None,
        CxlDvsecs::none(),
        false,
    )
}

fn settings(aer: bool, dpc: bool) -> PciePortSettings {
    PciePortSettings {
        aer: if aer {
            Some(PcieAerSettings::default())
        } else {
            None
        },
        dpc: if dpc {
            Some(PcieDpcSettings::default())
        } else {
            None
        },
        ..Default::default()
    }
}

fn read(cfg: &Cfg, offset: u16) -> u32 {
    let mut value = 0;
    cfg.read_u32(offset, &mut value).unwrap();
    value
}

fn find_cap_offset_type1(cfg: &Cfg, cap_id: u8) -> u16 {
    let mut ptr = (read(cfg, 0x34) & 0xff) as u16;
    let mut hop = 0;
    while ptr != 0 && hop < 48 {
        let dword = read(cfg, ptr);
        if (dword & 0xff) as u8 == cap_id {
            return ptr;
        }
        ptr = ((dword >> 8) & 0xff) as u16;
        hop += 1;
    }
    panic!("capability not found");
}

fn find_ext_cap_offset_type1(cfg: &Cfg, cap_id: u16) -> u16 {
    let mut offset = 0x100u16;
    let mut hop = 0;
    while offset != 0 && hop < 64 {
        let dword = read(cfg, offset);
        if (dword & 0xffff) as u16 == cap_id {
            return offset;
        }
        offset = ((dword >> 20) & 0xfff) as u16;
        hop += 1;
    }
    panic!("extended capability not found");
}

fn injection(header_log: LogDwords, source_id: u16) -> AerInjection {
    AerInjection {
        kind: AerInjectedErrorKind::Uncorrectable,
        status_bits: DATA_LINK_PROTOCOL_ERROR,
        header_log,
        source_id,
    }
}

#[test]
fn test_apply_dpc_action_two_phase_updates_aer_and_rp_busy() {
    let mut port = make_port("root", DevicePortType::RootPort, true, true);

    let injection = injection(
        LogDwords {
            d0: 1,
            d1: 2,
            d2: 3,
            d3: 4,
        },
        0x0100,
    );
    assert!(port.apply_dpc_action(
        0x0100,
        PcieDpcRoutingAction::Begin {
            aer: Some(injection)
        }
    ));

    let aer_off = find_ext_cap_offset_type1(&port.cfg_space, EXT_CAP_ID_AER);
    let dpc_off = find_ext_cap_offset_type1(&port.cfg_space, EXT_CAP_ID_DPC);

    let v = read(&port.cfg_space, aer_off + AER_UNCORRECTABLE_ERROR_STATUS);
    // The handler port's own status is not set; only its root error status
    // aggregates the received message.
    assert!(v & DATA_LINK_PROTOCOL_ERROR == 0);

    let v = read(&port.cfg_space, aer_off + AER_ROOT_ERROR_STATUS);
    assert!(v & ROOT_STATUS_ERR_UNC != 0);

    let status = read(&port.cfg_space, dpc_off + DPC_STATUS_SOURCE_ID) as u16;
    assert!(status & DPC_STATUS_TRIGGER != 0);
    assert!(status & DPC_STATUS_RP_BUSY != 0);

    assert!(port.apply_dpc_action(0x0100, PcieDpcRoutingAction::Complete));
    let status = read(&port.cfg_space, dpc_off + DPC_STATUS_SOURCE_ID) as u16;
    assert!(status & DPC_STATUS_TRIGGER != 0);
    assert!(status & DPC_STATUS_RP_BUSY == 0);
}

#[test]
fn test_apply_dpc_action_supported_on_root_and_downstream_only() {
    let injection = injection(LogDwords::new(), 0x0100);
    let action = PcieDpcRoutingAction::Begin {
        aer: Some(injection),
    };

    let mut root = make_port("root", DevicePortType::RootPort, true, true);
    assert!(root.apply_dpc_action(0x0100, action));

    let mut downstream = make_port("dsp", DevicePortType::DownstreamSwitchPort, true, true);
    assert!(downstream.apply_dpc_action(0x0100, action));

    let mut upstream = make_port("usp", DevicePortType::UpstreamSwitchPort, true, true);
    assert!(!upstream.apply_dpc_action(0x0100, action));

    let mut no_dpc = make_port("root-no-dpc", DevicePortType::RootPort, true, false);
    assert!(!no_dpc.apply_dpc_action(0x0100, action));
}

#[test]
fn test_apply_dpc_action_downstream_port_updates_endpoint_and_clears_busy() {
    let mut port = make_port("dsp", DevicePortType::DownstreamSwitchPort, true, true);
    port.add_pcie_device(
        &"dsp".to_string(),
        "ep0".to_string(),
        TestAerEndpoint::new(0),
    )
    .unwrap();

    let header_log = LogDwords {
        d0: 0xdead_0001,
        d1: 0xbeef_0002,
        d2: 0xcafe_0003,
        d3: 0xfeed_0004,
    };
    let injection = injection(header_log, 0);
    assert!(port.inject_child_aer(0, 0, injection));
    assert!(port.apply_dpc_action(
        0,
        PcieDpcRoutingAction::Begin {
            aer: Some(injection)
        }
    ));

    let dpc_off = find_ext_cap_offset_type1(&port.cfg_space, EXT_CAP_ID_DPC);
    let v = read(&port.cfg_space, dpc_off + DPC_STATUS_SOURCE_ID);
    assert_eq!(v >> 16, 0);
    assert!(v as u16 & DPC_STATUS_TRIGGER != 0);
    // The busy bit is one of root ports, and reserved in switch downstream ports.
    assert!(v as u16 & DPC_STATUS_RP_BUSY == 0);

    let endpoint_aer = port.link.as_ref().unwrap().device.aer;
    assert_eq!(
        endpoint_aer.read_u32(AER_UNCORRECTABLE_ERROR_STATUS),
        DATA_LINK_PROTOCOL_ERROR
    );
    assert_eq!(endpoint_aer.read_u32(AER_HEADER_LOG_0), header_log.d0);
    assert_eq!(endpoint_aer.read_u32(AER_HEADER_LOG_1), header_log.d1);
    assert_eq!(endpoint_aer.read_u32(AER_HEADER_LOG_2), header_log.d2);
    assert_eq!(endpoint_aer.read_u32(AER_HEADER_LOG_3), header_log.d3);

    assert!(port.apply_dpc_action(0, PcieDpcRoutingAction::Complete));
    let v = read(&port.cfg_space, dpc_off + DPC_STATUS_SOURCE_ID);
    assert!(v as u16 & DPC_STATUS_TRIGGER != 0);
    assert!(v as u16 & DPC_STATUS_RP_BUSY == 0);
}

fn root_complex(aer: bool, dpc: bool) -> Root {
    let mut rc = GenericPcieRootComplex::new(
        0,
        5,
        0,
        vec![GenericPcieRootPortDefinition {
            name: "root-port".to_string(),
            settings: settings(aer, dpc),
        }],
    );
    // Root Port decodes bus 1..=5.
    rc.ports[0]
        .port
        .cfg_space
        .write_u32(0x18, (5u32 << 16) | (1u32 << 8))
        .unwrap();
    rc
}

/// Root bus 1, switch upstream bus 2, switch downstream bus 3, endpoint function 0.
fn connect_switch(rc: &mut Root, aer: bool, dpc: bool) {
    let mut switch: Switch = GenericPcieSwitch::with_settings(
        GenericPcieSwitchDefinition {
            name: "sw".to_string(),
            downstream_port_count: 1,
        },
        settings(aer, dpc),
    );
    switch
        .upstream_port
        .cfg_space_mut()
        .write_u32(0x18, (4u32 << 16) | (2u32 << 8) | 1)
        .unwrap();
    switch
        .pci_cfg_write_with_routing(1, 2, 0, 0x18, (3u32 << 16) | (3u32 << 8) | 2)
        .unwrap()
        .unwrap();
    switch
        .add_pcie_device(0, "ep0".to_string(), TestAerEndpoint::new(0))
        .unwrap();
    rc.add_pcie_device(0, "switch".to_string(), switch).unwrap();
}

fn endpoint_aer(rc: &Root) -> AerExtendedCapability {
    let switch = &rc.ports[0].port.link.as_ref().unwrap().device;
    switch.downstream_ports[0]
        .port
        .link
        .as_ref()
        .unwrap()
        .device
        .aer
}

#[test]
fn test_inject_aer_root_switch_endpoint_propagates_state_and_interrupt() {
    let mut rc = root_complex(true, false);
    let root_aer_off;
    {
        let root_port = &mut rc.ports[0].port;

        // Enable MSI on the root port.
        let msi_off = find_cap_offset_type1(&root_port.cfg_space, CAP_ID_MSI);
        root_port
            .cfg_space
            .write_u32(msi_off + 0x04, 0xfee0_0000)
            .unwrap();
        root_port.cfg_space.write_u32(msi_off + 0x08, 0).unwrap();
        root_port
            .cfg_space
            .write_u32(msi_off + 0x0c, 0x0040)
            .unwrap();
        root_port.cfg_space.write_u32(msi_off, 1u32 << 16).unwrap();

        // Enable root correctable-error reporting in AER Root Error Command.
        root_aer_off = find_ext_cap_offset_type1(&root_port.cfg_space, EXT_CAP_ID_AER);
        root_port
            .cfg_space
            .write_u32(root_aer_off + AER_ROOT_ERROR_COMMAND, ROOT_COMMAND_COR)
            .unwrap();
    }

    connect_switch(&mut rc, true, false);

    let source_id = 3u16 << 8;
    let header_log = LogDwords {
        d0: 0x1111_1111,
        d1: 0x2222_2222,
        d2: 0x3333_3333,
        d3: 0x4444_4444,
    };

    rc.inject_aer(
        source_id,
        PcieAerInjectRequest {
            kind: AerInjectedErrorKind::Correctable,
            status_bits: RECEIVER_ERROR,
            header_log,
        },
    )
    .unwrap();

    // The root port aggregates the message that it has received. Its own status
    // and header log are not set: that state is with the source.
    let root_port = &rc.ports[0].port;
    let v = read(
        &root_port.cfg_space,
        root_aer_off + AER_CORRECTABLE_ERROR_STATUS,
    );
    assert!(v & RECEIVER_ERROR == 0);

    let v = read(&root_port.cfg_space, root_aer_off + AER_HEADER_LOG_0);
    assert_eq!(v, 0);

    let v = read(&root_port.cfg_space, root_aer_off + AER_ROOT_ERROR_STATUS);
    assert!(v & ROOT_STATUS_ERR_COR != 0);

    let v = read(
        &root_port.cfg_space,
        root_aer_off + AER_ERROR_SOURCE_IDENTIFICATION,
    );
    assert_eq!((v & 0xffff) as u16, source_id);

    // The endpoint has the error.
    let endpoint_aer = endpoint_aer(&rc);
    assert!(endpoint_aer.read_u32(AER_CORRECTABLE_ERROR_STATUS) & RECEIVER_ERROR != 0);
    assert_eq!(endpoint_aer.read_u32(AER_HEADER_LOG_0), header_log.d0);
    assert_eq!(endpoint_aer.read_u32(AER_HEADER_LOG_1), header_log.d1);
    assert_eq!(endpoint_aer.read_u32(AER_HEADER_LOG_2), header_log.d2);
    assert_eq!(endpoint_aer.read_u32(AER_HEADER_LOG_3), header_log.d3);

    // Correctable root reporting was enabled, so an MSI should be signaled.
    let msi = rc.ports[0]
        .port
        .outbox
        .pop()
        .expect("expected one MSI for root AER event");
    assert_eq!(msi.address, 0xfee0_0000);
    assert_eq!(msi.data & 0xffff, 0x0040);
}

#[test]
fn test_inject_dpc_root_switch_endpoint_containment_at_root_port() {
    let mut rc = root_complex(true, true);
    let root_aer_off;
    let root_dpc_off;
    {
        let root_port = &mut rc.ports[0].port;
        root_aer_off = find_ext_cap_offset_type1(&root_port.cfg_space, EXT_CAP_ID_AER);
        root_dpc_off = find_ext_cap_offset_type1(&root_port.cfg_space, EXT_CAP_ID_DPC);

        // Enable DPC trigger + interrupt.
        root_port
            .cfg_space
            .write_u32(
                root_dpc_off + DPC_CAPABILITY_CONTROL,
                ((1 | DPC_CONTROL_INTERRUPT_ENABLE) as u32) << 16,
            )
            .unwrap();
    }

    // No DPC on the switch downstream port, so containment walks upstream to the
    // root port.
    connect_switch(&mut rc, true, false);

    let source_id = 3u16 << 8;
    let header_log = LogDwords {
        d0: 0xaaaa_0001,
        d1: 0xbbbb_0002,
        d2: 0xcccc_0003,
        d3: 0xdddd_0004,
    };

    rc.inject_dpc_begin(
        source_id,
        Some(PcieAerInjectRequest {
            kind: AerInjectedErrorKind::Uncorrectable,
            status_bits: DATA_LINK_PROTOCOL_ERROR,
            header_log,
        }),
    )
    .unwrap();

    let cfg = &rc.ports[0].port.cfg_space;
    let v = read(cfg, root_aer_off + AER_UNCORRECTABLE_ERROR_STATUS);
    // The containing port's own status is not set; the error is with the endpoint.
    // Its root error status aggregates the received message.
    assert!(v & DATA_LINK_PROTOCOL_ERROR == 0);

    let v = read(cfg, root_aer_off + AER_ROOT_ERROR_STATUS);
    assert!(v & ROOT_STATUS_ERR_UNC != 0);

    let v = read(cfg, root_dpc_off + DPC_STATUS_SOURCE_ID);
    assert_eq!((v >> 16) as u16, source_id);
    assert!(v as u16 & DPC_STATUS_TRIGGER != 0);
    assert!(v as u16 & DPC_STATUS_RP_BUSY != 0);

    let endpoint_aer = endpoint_aer(&rc);
    assert!(endpoint_aer.read_u32(AER_UNCORRECTABLE_ERROR_STATUS) & DATA_LINK_PROTOCOL_ERROR != 0);
    assert_eq!(endpoint_aer.read_u32(AER_HEADER_LOG_0), header_log.d0);
    assert_eq!(endpoint_aer.read_u32(AER_HEADER_LOG_1), header_log.d1);
    assert_eq!(endpoint_aer.read_u32(AER_HEADER_LOG_2), header_log.d2);
    assert_eq!(endpoint_aer.read_u32(AER_HEADER_LOG_3), header_log.d3);

    rc.inject_dpc_complete(source_id).unwrap();

    let v = read(
        &rc.ports[0].port.cfg_space,
        root_dpc_off + DPC_STATUS_SOURCE_ID,
    );
    assert!(v as u16 & DPC_STATUS_TRIGGER != 0);
    assert!(v as u16 & DPC_STATUS_RP_BUSY == 0);
}

#[test]
fn test_inject_dpc_contains_at_closest_dsp() {
    let mut rc = root_complex(true, true);
    let root_dpc_off =
        find_ext_cap_offset_type1(&rc.ports[0].port.cfg_space, EXT_CAP_ID_DPC);
    connect_switch(&mut rc, true, true);

    let source_id = 3u16 << 8;
    let request = PcieAerInjectRequest {
        kind: AerInjectedErrorKind::Uncorrectable,
        status_bits: DATA_LINK_PROTOCOL_ERROR,
        header_log: LogDwords {
            d0: 0x0a0a_0001,
            d1: 0x0b0b_0002,
            d2: 0x0c0c_0003,
            d3: 0x0d0d_0004,
        },
    };
    rc.inject_dpc_begin(source_id, Some(request)).unwrap();

    // The downstream switch port (bus 2, dev 0, fn 0) contained the error.
    let dsp_dpc_status_addr =
        ((2u64 << 8) << 12) + root_dpc_off as u64 + DPC_STATUS_SOURCE_ID as u64;
    let mut data = [0; 4];
    rc.mmio_read(dsp_dpc_status_addr, &mut data).unwrap();
    let v = u32::from_le_bytes(data);
    assert_eq!((v >> 16) as u16, source_id);
    assert!(v as u16 & DPC_STATUS_TRIGGER != 0);
    // The busy bit is one of root ports, and reserved in switch downstream ports.
    assert!(v as u16 & DPC_STATUS_RP_BUSY == 0);

    // The root port did not.
    let v = read(
        &rc.ports[0].port.cfg_space,
        root_dpc_off + DPC_STATUS_SOURCE_ID,
    );
    assert!(v as u16 & DPC_STATUS_TRIGGER == 0);

    // The endpoint has the error.
    assert!(
        endpoint_aer(&rc).read_u32(AER_UNCORRECTABLE_ERROR_STATUS) & DATA_LINK_PROTOCOL_ERROR != 0
    );

    rc.inject_dpc_complete(source_id).unwrap();
    rc.mmio_read(dsp_dpc_status_addr, &mut data).unwrap();
    let v = u32::from_le_bytes(data);
    assert!(v as u16 & DPC_STATUS_TRIGGER != 0);
    assert!(v as u16 & DPC_STATUS_RP_BUSY == 0);
}

#[test]
fn targets_that_no_port_handles() {
    let mut rc = root_complex(true, false);
    let request = PcieAerInjectRequest {
        kind: AerInjectedErrorKind::Uncorrectable,
        status_bits: DATA_LINK_PROTOCOL_ERROR,
        header_log: LogDwords::new(),
    };
    assert_eq!(rc.inject_aer(0x0600, request), Err(TargetError::NoRootPort));
    assert_eq!(
        rc.inject_dpc_begin(0x0600, None),
        Err(TargetError::NoRootPort)
    );
    assert_eq!(
        rc.inject_dpc_begin(0x0100, None),
        Err(TargetError::NoContainingPort)
    );
    assert_eq!(
        rc.inject_dpc_complete(0x0100),
        Err(TargetError::NoContainingPort)
    );
}
