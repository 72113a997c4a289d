use pci_model::capabilities::aer::AerInjection;
use pci_model::io::IoError;
use pci_model::io::IoResult;
use pci_model::pcie::root::DecodedEcamAccess;
use pci_model::pcie::root::GenericPcieRootComplex;
use pci_model::pcie::root::GenericPcieRootPortDefinition;
use pci_model::pcie::root::RootPort;
use pci_model::pcie::settings::PciePortSettings;
use pci_model::pcie::CfgRead;
use pci_model::pcie::GenericPciBusDevice;
use pci_model::pcie::PcieDpcRoutingAction;

/// A device whose config space is two functions.
#[derive(Debug)]
struct TestPcieEndpoint {
    cfg_read: fn(u16, &mut u32) -> Option<IoResult>,
    cfg_write: fn(u16, u32) -> Option<IoResult>,
}

impl TestPcieEndpoint {
    fn new(
        cfg_read: fn(u16, &mut u32) -> Option<IoResult>,
        cfg_write: fn(u16, u32) -> Option<IoResult>,
    ) -> Self {
        Self {
            cfg_read,
            cfg_write,
        }
    }
}

impl GenericPciBusDevice for TestPcieEndpoint {
    type Model = ();

    fn model(&self) {
        unreachable!()
    }

    fn read_routed(_: (), _: u8, _: u8, _: u8, _: u16, _: u32) -> CfgRead<()> {
        unreachable!()
    }

    fn write_routed(_: (), _: u8, _: u8, _: u8, _: u16, _: u32) -> ((), Option<IoResult>) {
        unreachable!()
    }

    fn aer_routed(_: (), _: u8, _: u8, _: u8, _: AerInjection) -> ((), bool) {
        unreachable!()
    }

    fn dpc_routed(_: (), _: u8, _: u8, _: u8, _: PcieDpcRoutingAction) -> ((), bool) {
        unreachable!()
    }

    fn pci_cfg_read_with_routing(
        &mut self,
        secondary_bus: u8,
        target_bus: u8,
        function: u8,
        offset: u16,
        value: &mut u32,
    ) -> Option<IoResult> {
        if target_bus == secondary_bus && function == 0 {
            (self.cfg_read)(offset, value)
        } else {
            None
        }
    }

    fn pci_cfg_write_with_routing(
        &mut self,
        secondary_bus: u8,
        target_bus: u8,
        function: u8,
        offset: u16,
        value: u32,
    ) -> Option<IoResult> {
        if target_bus == secondary_bus && function == 0 {
            (self.cfg_write)(offset, value)
        } else {
            None
        }
    }

    fn pci_inject_aer_with_routing(
        &mut self,
        _secondary_bus: u8,
        _target_bus: u8,
        _function: u8,
        _injection: AerInjection,
    ) -> bool {
        false
    }

    fn pci_inject_dpc_with_routing(
        &mut self,
        _secondary_bus: u8,
        _target_bus: u8,
        _function: u8,
        _action: PcieDpcRoutingAction,
    ) -> bool {
        false
    }
}

/// A number that can be read.
trait Readable {
    fn set(&mut self, bytes: &[u8]);
    const LEN: usize;
}

impl Readable for u8 {
    fn set(&mut self, bytes: &[u8]) {
        *self = bytes[0];
    }
    const LEN: usize = 1;
}

impl Readable for u16 {
    fn set(&mut self, bytes: &[u8]) {
        *self = u16::from_le_bytes([bytes[0], bytes[1]]);
    }
    const LEN: usize = 2;
}

impl Readable for u32 {
    fn set(&mut self, bytes: &[u8]) {
        *self = u32::from_le_bytes([bytes[0], bytes[1], bytes[2], bytes[3]]);
    }
    const LEN: usize = 4;
}

fn read_into<T: Readable>(
    rc: &mut GenericPcieRootComplex<TestPcieEndpoint>,
    addr: u64,
    value: &mut T,
) {
    let mut data = vec![0; T::LEN];
    rc.mmio_read(addr, &mut data).unwrap();
    value.set(&data);
}

fn instantiate_root_complex(
    start_bus: u8,
    end_bus: u8,
    port_count: u8,
) -> GenericPcieRootComplex<TestPcieEndpoint> {
    let port_defs = (0..port_count)
        .map(|i| GenericPcieRootPortDefinition {
            name: format!("test-port-{}", i),
            settings: PciePortSettings::default(),
        })
        .collect();

    GenericPcieRootComplex::new(start_bus, end_bus, 0, port_defs)
}

#[test]
fn test_create() {
    assert_eq!(
        instantiate_root_complex(0, 0, 1).downstream_ports().len(),
        1
    );
    assert_eq!(
        instantiate_root_complex(0, 1, 1).downstream_ports().len(),
        1
    );
    assert_eq!(
        instantiate_root_complex(1, 1, 1).downstream_ports().len(),
        1
    );
    assert_eq!(
        instantiate_root_complex(255, 255, 1)
            .downstream_ports()
            .len(),
        1
    );

    assert_eq!(
        instantiate_root_complex(0, 0, 4).downstream_ports().len(),
        4
    );

    assert_eq!(
        instantiate_root_complex(0, 255, 32)
            .downstream_ports()
            .len(),
        32
    );
    assert_eq!(
        instantiate_root_complex(32, 32, 32)
            .downstream_ports()
            .len(),
        32
    );
    assert_eq!(
        instantiate_root_complex(255, 255, 32)
            .downstream_ports()
            .len(),
        32
    );
}

#[test]
fn test_ecam_size() {
    // Single bus
    assert_eq!(instantiate_root_complex(0, 0, 0).ecam_size(), 0x10_0000);
    assert_eq!(instantiate_root_complex(32, 32, 0).ecam_size(), 0x10_0000);
    assert_eq!(instantiate_root_complex(255, 255, 0).ecam_size(), 0x10_0000);

    // Two bus
    assert_eq!(instantiate_root_complex(0, 1, 0).ecam_size(), 0x20_0000);
    assert_eq!(instantiate_root_complex(32, 33, 0).ecam_size(), 0x20_0000);
    assert_eq!(instantiate_root_complex(254, 255, 0).ecam_size(), 0x20_0000);

    // Everything
    assert_eq!(instantiate_root_complex(0, 255, 0).ecam_size(), 0x1000_0000);
}

#[test]
fn test_probe_ports_via_config_space() {
    let mut rc = instantiate_root_complex(0, 255, 4);
    for device_number in 0..4 {
        let mut vendor_device: u32 = 0;
        read_into(&mut rc, (device_number << 3) * 4096, &mut vendor_device);
        assert_eq!(vendor_device, 0xC030_1414);

        let mut value_16: u16 = 0;
        read_into(&mut rc, (device_number << 3) * 4096, &mut value_16);
        assert_eq!(value_16, 0x1414);

        read_into(&mut rc, (device_number << 3) * 4096 + 2, &mut value_16);
        assert_eq!(value_16, 0xC030);
    }

    for device_number in 4..10 {
        let mut value_32: u32 = 0;
        read_into(&mut rc, (device_number << 3) * 4096, &mut value_32);
        assert_eq!(value_32, 0xFFFF_FFFF);

        let mut value_16: u16 = 0;
        read_into(&mut rc, (device_number << 3) * 4096, &mut value_16);
        assert_eq!(value_16, 0xFFFF);
        read_into(&mut rc, (device_number << 3) * 4096 + 2, &mut value_16);
        assert_eq!(value_16, 0xFFFF);
    }
}

#[test]
fn test_add_downstream_device_to_port() {
    let mut rc = instantiate_root_complex(0, 0, 1);

    let endpoint1 = TestPcieEndpoint::new(
        |offset, value| match offset {
            0x0 => {
                *value = 0xAAAA_AAAA;
                Some(Ok(()))
            }
            _ => Some(Err(IoError::InvalidRegister)),
        },
        |_, _| Some(Err(IoError::InvalidRegister)),
    );

    let endpoint2 = TestPcieEndpoint::new(
        |_, _| Some(Err(IoError::InvalidRegister)),
        |_, _| Some(Err(IoError::InvalidRegister)),
    );

    rc.add_pcie_device(0, "ep1".to_string(), endpoint1).unwrap();

    match rc.add_pcie_device(0, "ep2".to_string(), endpoint2) {
        Ok(()) => panic!("should have failed"),
        Err(name) => {
            assert_eq!(name, "ep1");
        }
    }
}

#[test]
fn test_root_port_cfg_forwarding() {
    const SECONDARY_BUS_NUM_REG: u64 = 0x19;
    const SUBOORDINATE_BUS_NUM_REG: u64 = 0x1A;

    let mut rc = instantiate_root_complex(0, 255, 1);

    // Pre-bus number assignment, random accesses return 1s.
    let mut value_32: u32 = 0;
    read_into(&mut rc, 256 * 4096, &mut value_32);
    assert_eq!(value_32, 0xFFFF_FFFF);

    // Secondary and suboordinate bus number registers are both
    // read / write, defaulting to 0.
    let mut bus_number: u8 = 0xFF;
    read_into(&mut rc, SECONDARY_BUS_NUM_REG, &mut bus_number);
    assert_eq!(bus_number, 0);
    read_into(&mut rc, SUBOORDINATE_BUS_NUM_REG, &mut bus_number);
    assert_eq!(bus_number, 0);

    rc.mmio_write(SECONDARY_BUS_NUM_REG, &[1]).unwrap();
    read_into(&mut rc, SECONDARY_BUS_NUM_REG, &mut bus_number);
    assert_eq!(bus_number, 1);

    rc.mmio_write(SUBOORDINATE_BUS_NUM_REG, &[2]).unwrap();
    read_into(&mut rc, SUBOORDINATE_BUS_NUM_REG, &mut bus_number);
    assert_eq!(bus_number, 2);

    // Bus numbers assigned, but no endpoint attached yet.
    read_into(&mut rc, 256 * 4096, &mut value_32);
    assert_eq!(value_32, 0xFFFF_FFFF);

    let endpoint = TestPcieEndpoint::new(
        |offset, value| match offset {
            0x0 => {
                *value = 0xDEAD_BEEF;
                Some(Ok(()))
            }
            _ => Some(Err(IoError::InvalidRegister)),
        },
        |_, _| Some(Err(IoError::InvalidRegister)),
    );

    rc.add_pcie_device(0, "test-ep".to_string(), endpoint)
        .unwrap();

    // The secondary bus behind root port 0 has been assigned bus number
    // 1, so now the attached endpoint is accessible.
    read_into(&mut rc, 256 * 4096, &mut value_32);
    assert_eq!(value_32, 0xDEAD_BEEF);

    // Reassign the secondary bus number to 2.
    rc.mmio_write(SECONDARY_BUS_NUM_REG, &[2]).unwrap();
    read_into(&mut rc, SECONDARY_BUS_NUM_REG, &mut bus_number);
    assert_eq!(bus_number, 2);

    // The endpoint is no longer accessible at bus number 1, and is now
    // accessible at bus number 2.
    read_into(&mut rc, 256 * 4096, &mut value_32);
    assert_eq!(value_32, 0xFFFF_FFFF);
    read_into(&mut rc, 2 * 256 * 4096, &mut value_32);
    assert_eq!(value_32, 0xDEAD_BEEF);
}

#[test]
fn test_reset() {
    const COMMAND_REG: u64 = 0x4;
    const COMMAND_REG_VALUE: u16 = 0x0004;
    const PORT0_ECAM: u64 = 0;
    const PORT1_ECAM: u64 = (1 << 3) * 4096;

    let mut rc = instantiate_root_complex(0, 255, 2);
    let mut value_16: u16 = 0;

    // Write the command register of both ports with a reasonable value.
    rc.mmio_write(PORT0_ECAM + COMMAND_REG, &COMMAND_REG_VALUE.to_le_bytes())
        .unwrap();
    rc.mmio_write(PORT1_ECAM + COMMAND_REG, &COMMAND_REG_VALUE.to_le_bytes())
        .unwrap();
    read_into(&mut rc, PORT0_ECAM + COMMAND_REG, &mut value_16);
    assert_eq!(value_16, COMMAND_REG_VALUE);
    read_into(&mut rc, PORT1_ECAM + COMMAND_REG, &mut value_16);
    assert_eq!(value_16, COMMAND_REG_VALUE);

    // Reset the emulator, and ensure programming was cleared.
    rc.reset();
    read_into(&mut rc, PORT0_ECAM + COMMAND_REG, &mut value_16);
    assert_eq!(value_16, 0);
    read_into(&mut rc, PORT1_ECAM + COMMAND_REG, &mut value_16);
    assert_eq!(value_16, 0);

    // Re-write the command register of both ports after reset.
    rc.mmio_write(PORT0_ECAM + COMMAND_REG, &COMMAND_REG_VALUE.to_le_bytes())
        .unwrap();
    rc.mmio_write(PORT1_ECAM + COMMAND_REG, &COMMAND_REG_VALUE.to_le_bytes())
        .unwrap();
    read_into(&mut rc, PORT0_ECAM + COMMAND_REG, &mut value_16);
    assert_eq!(value_16, COMMAND_REG_VALUE);
    read_into(&mut rc, PORT1_ECAM + COMMAND_REG, &mut value_16);
    assert_eq!(value_16, COMMAND_REG_VALUE);
}

#[test]
fn test_root_port_invalid_bus_range_handling() {
    let mut root_port = RootPort::<TestPcieEndpoint>::new("test-port".to_string());

    // Don't configure bus numbers, so the range should be 0..=0 (invalid)
    let bus_range = root_port.port.cfg_space.assigned_bus_range();
    assert_eq!(bus_range, (0, 0));

    // Test that forwarding returns Ok but doesn't crash when bus range is invalid
    let mut value = 0u32;
    let result = root_port
        .port
        .forward_cfg_read_with_routing(1, 0, 0x0, &mut value);
    assert!(matches!(result, Ok(())));

    let result = root_port
        .port
        .forward_cfg_write_with_routing(1, 0, 0x0, value);
    assert!(matches!(result, Ok(())));
}

#[test]
fn ecam_addresses() {
    let mut rc = instantiate_root_complex(2, 5, 2);
    assert_eq!(
        rc.decode_ecam_access((1 << 3) * 4096 + 0x10),
        DecodedEcamAccess::InternalBus {
            port: 1,
            offset: 0x10,
        }
    );
    assert_eq!(
        rc.decode_ecam_access(4 * 256 * 4096),
        DecodedEcamAccess::UnexpectedIntercept
    );
    assert_eq!(
        rc.decode_ecam_access(256 * 4096),
        DecodedEcamAccess::Unroutable
    );
    rc.mmio_write(0x18, &[2, 3, 4, 0]).unwrap();
    assert_eq!(rc.find_root_port_for_bus(4), Some(0));
    assert_eq!(
        rc.decode_ecam_access(2 * 256 * 4096 + 4096 + 4),
        DecodedEcamAccess::DownstreamPort {
            port: 0,
            bus: 4,
            device_function: 1,
            offset: 4,
        }
    );
}

#[test]
fn accesses_stay_in_a_dword() {
    let mut rc = instantiate_root_complex(0, 0, 1);
    let mut data = [0; 4];
    assert_eq!(rc.mmio_read(2, &mut data), Err(IoError::UnalignedAccess));
    let mut data = [0; 8];
    assert_eq!(rc.mmio_read(0, &mut data), Err(IoError::InvalidAccessSize));
}
