use pci_model::capabilities::aer::AerInjection;
use pci_model::io::IoError;
use pci_model::io::IoResult;
use pci_model::pcie::switch::DownstreamSwitchPort;
use pci_model::pcie::switch::GenericPcieSwitch;
use pci_model::pcie::switch::GenericPcieSwitchDefinition;
use pci_model::pcie::switch::UpstreamSwitchPort;
use pci_model::pcie::CfgRead;
use pci_model::pcie::GenericPciBusDevice;
use pci_model::pcie::PcieDpcRoutingAction;
use pci_model::pcie::DOWNSTREAM_SWITCH_PORT_DEVICE_ID;
use pci_model::pcie::UPSTREAM_SWITCH_PORT_DEVICE_ID;
use pci_model::pcie::VENDOR_ID;
use std::collections::HashSet;

/// A device whose config space is two functions.
#[derive(Debug)]
struct TestPcieEndpoint {
    cfg_read: fn(u16, &mut u32) -> Option<IoResult>,
    cfg_write: fn(u16, u32) -> Option<IoResult>,
}

impl TestPcieEndpoint {
    fn new(
        cfg_read: fn(u16, &mut u32) -> Option<IoResult>,
        cfg_write: fn(u16, u32) -> Option<IoResult>,
    ) -> Self {
        Self {
            cfg_read,
            cfg_write,
        }
    }
}

impl GenericPciBusDevice for TestPcieEndpoint {
    type Model = ();

    fn model(&self) {
        unreachable!()
    }

    fn read_routed(_: (), _: u8, _: u8, _: u8, _: u16, _: u32) -> CfgRead<()> {
        unreachable!()
    }

    fn write_routed(_: (), _: u8, _: u8, _: u8, _: u16, _: u32) -> ((), Option<IoResult>) {
        unreachable!()
    }

    fn aer_routed(_: (), _: u8, _: u8, _: u8, _: AerInjection) -> ((), bool) {
        unreachable!()
    }

    fn dpc_routed(_: (), _: u8, _: u8, _: u8, _: PcieDpcRoutingAction) -> ((), bool) {
        unreachable!()
    }

    fn pci_cfg_read_with_routing(
        &mut self,
        secondary_bus: u8,
        target_bus: u8,
        function: u8,
        offset: u16,
        value: &mut u32,
    ) -> Option<IoResult> {
        if target_bus == secondary_bus && function == 0 {
            (self.cfg_read)(offset, value)
        } else {
            None
        }
    }

    fn pci_cfg_write_with_routing(
        &mut self,
        secondary_bus: u8,
        target_bus: u8,
        function: u8,
        offset: u16,
        value: u32,
    ) -> Option<IoResult> {
        if target_bus == secondary_bus && function == 0 {
            (self.cfg_write)(offset, value)
        } else {
            None
        }
    }

    fn pci_inject_aer_with_routing(
        &mut self,
        _secondary_bus: u8,
        _target_bus: u8,
        _function: u8,
        _injection: AerInjection,
    ) -> bool {
        false
    }

    fn pci_inject_dpc_with_routing(
        &mut self,
        _secondary_bus: u8,
        _target_bus: u8,
        _function: u8,
        _action: PcieDpcRoutingAction,
    ) -> bool {
        false
    }
}

type TestSwitch = GenericPcieSwitch<TestPcieEndpoint>;

#[test]
fn test_upstream_switch_port_creation() {
    let port = UpstreamSwitchPort::new();

    // Verify that we can read the vendor/device ID from config space
    let mut vendor_device_id: u32 = 0;
    port.cfg_space.read_u32(0x0, &mut vendor_device_id).unwrap();
    let expected = (UPSTREAM_SWITCH_PORT_DEVICE_ID as u32) << 16 | (VENDOR_ID as u32);
    assert_eq!(vendor_device_id, expected);
}

#[test]
fn test_downstream_switch_port_creation() {
    let port = DownstreamSwitchPort::<TestPcieEndpoint>::new("test-downstream-port".to_string());
    assert!(port.port.link.is_none());

    // Verify that we can read the vendor/device ID from config space
    let mut vendor_device_id: u32 = 0;
    port.port
        .cfg_space
        .read_u32(0x0, &mut vendor_device_id)
        .unwrap();
    let expected = (DOWNSTREAM_SWITCH_PORT_DEVICE_ID as u32) << 16 | (VENDOR_ID as u32);
    assert_eq!(vendor_device_id, expected);
}

#[test]
fn test_switch_creation() {
    let definition = GenericPcieSwitchDefinition {
        name: "test-switch".into(),
        downstream_port_count: 3,
    };
    let switch = TestSwitch::new(definition);

    assert_eq!(switch.name(), "test-switch");
    assert_eq!(switch.downstream_ports().len(), 3);

    // Verify downstream port names
    let ports = switch.downstream_ports();
    let port_names: HashSet<_> = ports.iter().map(|(_, name)| name.as_str()).collect();
    assert!(port_names.contains("test-switch-downstream-0"));
    assert!(port_names.contains("test-switch-downstream-1"));
    assert!(port_names.contains("test-switch-downstream-2"));

    // Verify port numbers
    let port_numbers: HashSet<_> = ports.iter().map(|(num, _)| *num).collect();
    assert!(port_numbers.contains(&0));
    assert!(port_numbers.contains(&1));
    assert!(port_numbers.contains(&2));
}

#[test]
fn test_switch_device_connections() {

    let definition = GenericPcieSwitchDefinition {
        name: "test-switch".into(),
        downstream_port_count: 2,
    };
    let mut switch = TestSwitch::new(definition);

    let downstream_device = TestPcieEndpoint::new(
        |offset, value| match offset {
            0x0 => {
                *value = 0xABCD_EF01;
                Some(Ok(()))
            }
            _ => Some(Err(IoError::InvalidRegister)),
        },
        |_, _| Some(Err(IoError::InvalidRegister)),
    );

    // Connect downstream device to port 0
    assert!(
        switch
            .add_pcie_device(
                0, // Port number instead of port name
                "downstream-dev".to_string(),
                downstream_device
            )
            .is_ok()
    );

    // Try to connect to invalid port
    let invalid_device = TestPcieEndpoint::new(
        |_, _| Some(Err(IoError::InvalidRegister)),
        |_, _| Some(Err(IoError::InvalidRegister)),
    );
    let result = switch.add_pcie_device(99, "invalid-dev".to_string(), invalid_device); // Use invalid port number
    assert!(result.is_err());
    assert!(result.is_err());
}

#[test]
fn test_switch_routing_functionality() {

    let definition = GenericPcieSwitchDefinition {
        name: "test-switch".into(),
        downstream_port_count: 2,
    };
    let mut switch = TestSwitch::new(definition);

    // Verify that Switch implements routing functionality by testing add_pcie_device method
    // This tests that the switch can accept device connections (routing capability)
    let test_device =
        TestPcieEndpoint::new(|_, _| Some(Ok(())), |_, _| Some(Ok(())));
    let add_result = switch.add_pcie_device(0, "test-device".to_string(), test_device);
    // Should succeed for port 0 (first downstream port)
    assert!(add_result.is_ok());

    // Test basic configuration space access through the PCI interface
    let mut value = 0u32;
    let result = switch
        .upstream_port
        .cfg_space_mut()
        .read_u32(0x0, &mut value);
    assert!(matches!(result, Ok(())));

    // Verify vendor/device ID is from the upstream port
    let expected = (UPSTREAM_SWITCH_PORT_DEVICE_ID as u32) << 16 | (VENDOR_ID as u32);
    assert_eq!(value, expected);
}

#[test]
fn test_switch_chipset_device() {

    let definition = GenericPcieSwitchDefinition {
        name: "test-switch".into(),
        downstream_port_count: 4,
    };
    let mut switch = TestSwitch::new(definition);

    // Test config space
    let mut value = 0u32;
    let result = switch.pci_cfg_read_with_routing(0, 0, 0, 0x0, &mut value);
    assert!(matches!(result, Some(Ok(()))));

    // Verify we get the expected vendor/device ID
    let expected = (UPSTREAM_SWITCH_PORT_DEVICE_ID as u32) << 16 | (VENDOR_ID as u32);
    assert_eq!(value, expected);

    // Test write operation
    let result = switch.pci_cfg_write_with_routing(0, 0, 0, 0x4, 0x12345678);
    assert!(matches!(result, Some(Ok(()))));
}

#[test]
fn test_switch_default() {
    let definition = GenericPcieSwitchDefinition {
        name: "default-switch".into(),
        downstream_port_count: 4,
    };
    let switch = TestSwitch::new(definition);
    assert_eq!(switch.name(), "default-switch");
    assert_eq!(switch.downstream_ports().len(), 4);
}

#[test]
fn test_switch_large_downstream_port_count() {
    let definition = GenericPcieSwitchDefinition {
        name: "test-switch".into(),
        downstream_port_count: 16,
    };
    let switch = TestSwitch::new(definition);
    assert_eq!(switch.downstream_ports().len(), 16);
}

#[test]
fn test_switch_downstream_port_direct_access() {
    let definition = GenericPcieSwitchDefinition {
        name: "test-switch".into(),
        downstream_port_count: 3,
    };
    let mut switch = TestSwitch::new(definition);

    // Simulate the switch's internal bus being assigned as bus 1
    let secondary_bus = 1u8;
    // Set secondary bus number (offset 0x18) - bits 8-15 of the 32-bit value at 0x18
    let bus_config = (10u32 << 24) | ((secondary_bus as u32) << 16); // subordinate | secondary
    switch
        .upstream_port
        .cfg_space_mut()
        .write_u32(0x18, bus_config)
        .unwrap();

    let bus_range = switch.upstream_port.cfg_space().assigned_bus_range();
    let switch_internal_bus = bus_range.0; // This is the secondary bus

    // Test direct access to downstream port 0 using device_function = 0
    let mut value = 0u32;
    let result = switch.route_cfg_read(switch_internal_bus, 0, 0x0, &mut value);
    assert!(result.is_some());

    // Verify we got the downstream switch port's vendor/device ID
    let expected = (DOWNSTREAM_SWITCH_PORT_DEVICE_ID as u32) << 16 | (VENDOR_ID as u32);
    assert_eq!(value, expected);

    // Test direct access to downstream port 2 using device_function = 2
    let mut value2 = 0u32;
    let result2 = switch.route_cfg_read(switch_internal_bus, 2, 0x0, &mut value2);
    assert!(result2.is_some());
    assert_eq!(value2, expected);

    // Test access to non-existent downstream port using device_function = 5
    let mut value3 = 0u32;
    let result3 = switch.route_cfg_read(switch_internal_bus, 5, 0x0, &mut value3);
    assert!(result3.is_none());
}

#[test]
fn test_switch_invalid_bus_range_handling() {
    let definition = GenericPcieSwitchDefinition {
        name: "test-switch".into(),
        downstream_port_count: 2,
    };
    let mut switch = TestSwitch::new(definition);

    // Don't configure bus numbers, so the range should be 0..=0 (invalid)
    let bus_range = switch.upstream_port.cfg_space().assigned_bus_range();
    assert_eq!(bus_range, (0, 0));

    // Test that any access returns None when bus range is invalid
    let mut value = 0u32;
    let result = switch.route_cfg_read(0, 0, 0x0, &mut value);
    assert!(result.is_none());

    let result2 = switch.route_cfg_read(1, 0, 0x0, &mut value);
    assert!(result2.is_none());

    let result3 = switch.route_cfg_write(0, 0, 0x0, value);
    assert!(result3.is_none());
}

#[test]
fn test_switch_downstream_port_invalid_bus_range_skipping() {
    let definition = GenericPcieSwitchDefinition {
        name: "test-switch".into(),
        downstream_port_count: 2,
    };
    let mut switch = TestSwitch::new(definition);

    // Configure the upstream port with a valid bus range
    let secondary_bus = 1u8;
    let subordinate_bus = 10u8;
    let primary_bus = 0u8;
    let bus_config =
        ((subordinate_bus as u32) << 16) | ((secondary_bus as u32) << 8) | (primary_bus as u32); // subordinate | secondary | primary
    switch
        .upstream_port
        .cfg_space_mut()
        .write_u32(0x18, bus_config)
        .unwrap();

    // Downstream ports still have invalid bus ranges (0..=0 by default)
    // so any access to buses beyond the secondary bus should return None
    let mut value = 0u32;

    // Access to bus 2 should return None since no downstream port has a valid bus range
    let result = switch.route_cfg_read(2, 0, 0x0, &mut value);
    assert!(result.is_none());

    // Access to bus 5 should also return None
    let result2 = switch.route_cfg_read(5, 0, 0x0, &mut value);
    assert!(result2.is_none());

    // Access to the secondary bus (switch internal) should still work for downstream port config
    let result3 = switch.route_cfg_read(secondary_bus, 0, 0x0, &mut value);
    assert!(result3.is_some());
}

#[test]
fn test_switch_multi_function_bit() {
    // Test that switches with multiple downstream ports set the multi-function bit
    let multi_port_definition = GenericPcieSwitchDefinition {
        name: "multi-port-switch".into(),
        downstream_port_count: 3,
    };
    let multi_port_switch = TestSwitch::new(multi_port_definition);

    // Verify each downstream port has the multi-function bit set
    for (port_num, _) in multi_port_switch.downstream_ports() {
        if let Some(downstream_port) = multi_port_switch.downstream_ports.get(port_num as usize) {
            let mut header_type_value: u32 = 0;
            downstream_port
                .cfg_space()
                .read_u32(0x0C, &mut header_type_value)
                .unwrap();

            // Extract the header type field (bits 16-23, with multi-function bit at bit 23)
            let header_type_field = (header_type_value >> 16) & 0xFF;

            // Multi-function bit should be set (bit 7 of header type field = bit 23 of dword)
            assert_eq!(
                header_type_field & 0x80,
                0x80,
                "Multi-function bit should be set for downstream port {} in multi-port switch",
                port_num
            );

            // Base header type should still be 01 (bridge)
            assert_eq!(
                header_type_field & 0x7F,
                0x01,
                "Header type should be 01 (bridge) for downstream port {}",
                port_num
            );
        }
    }

    // Test that switches with single downstream port do NOT set the multi-function bit
    let single_port_definition = GenericPcieSwitchDefinition {
        name: "single-port-switch".into(),
        downstream_port_count: 1,
    };
    let single_port_switch = TestSwitch::new(single_port_definition);

    // Verify the single downstream port does NOT have the multi-function bit set
    for (port_num, _) in single_port_switch.downstream_ports() {
        if let Some(downstream_port) = single_port_switch.downstream_ports.get(port_num as usize) {
            let mut header_type_value: u32 = 0;
            downstream_port
                .cfg_space()
                .read_u32(0x0C, &mut header_type_value)
                .unwrap();

            // Extract the header type field (bits 16-23)
            let header_type_field = (header_type_value >> 16) & 0xFF;

            // Multi-function bit should NOT be set
            assert_eq!(
                header_type_field & 0x80,
                0x00,
                "Multi-function bit should NOT be set for downstream port {} in single-port switch",
                port_num
            );

            // Base header type should still be 01 (bridge)
            assert_eq!(
                header_type_field & 0x7F,
                0x01,
                "Header type should be 01 (bridge) for downstream port {}",
                port_num
            );
        }
    }
}

#[test]
fn a_device_behind_a_switch() {
    let mut switch = TestSwitch::new(GenericPcieSwitchDefinition {
        name: "sw".into(),
        downstream_port_count: 2,
    });
    let device = TestPcieEndpoint::new(
        |offset, value| {
            *value = 0x1000_0000 | offset as u32;
            Some(Ok(()))
        },
        |_, _| Some(Err(IoError::InvalidRegister)),
    );
    switch
        .add_pcie_device(1, "dev".to_string(), device)
        .unwrap();
    switch
        .upstream_port
        .cfg_space_mut()
        .write_u32(0x18, 0x0004_0100)
        .unwrap();
    switch.downstream_ports[1]
        .cfg_space_mut()
        .write_u32(0x18, 0x0003_0301)
        .unwrap();
    let mut value = 0;
    assert!(matches!(
        switch.route_cfg_read(3, 0, 0x10, &mut value),
        Some(Ok(()))
    ));
    assert_eq!(value, 0x1000_0010);
    assert!(matches!(
        switch.route_cfg_write(3, 0, 0x10, 0),
        Some(Err(IoError::InvalidRegister))
    ));
    // Nothing answers outside of the buses of the switch.
    assert!(switch.route_cfg_read(5, 0, 0x10, &mut value).is_none());
    switch.reset();
    assert!(switch.route_cfg_read(3, 0, 0x10, &mut value).is_none());
}
