//! Enumeration and assignment against emulated devices.
use pci_model::bars::BarMemoryKind;
use pci_model::bars::DeviceBars;
use pci_model::capabilities::acs::AcsExtendedCapability;
use pci_model::capabilities::assert_extended_header_contract;
use pci_model::capabilities::kinds::Capability;
use pci_model::capabilities::kinds::ExtendedCapability;
use pci_model::capabilities::pci_express::PciExpressCapability;
use pci_model::capabilities::DevicePortType;
use pci_model::cfg_space::caps::read_ext;
use pci_model::cfg_space::type0::ConfigSpaceType0Emulator;
use pci_model::cfg_space::type1::ConfigSpaceType1Emulator;
use pci_model::cfg_space::HardwareIds;
use pci_model::resource::feasible::try_assign_addresses;
use pci_model::resource::params::AssignmentParams;
use pci_model::resource::params::MmioAperture;
use pci_model::resource::program::program_assignments;
use pci_model::resource::scan::enumerate_and_probe;
use pci_model::resource::scan::Enumeration;
use pci_model::resource::session::ConfigAccess;

fn ids(device_id: u16) -> HardwareIds {
    HardwareIds {
        vendor_id: 0x1414,
        device_id,
        revision_id: 0,
        prog_if: 0,
        sub_class: 0,
        base_class: 0,
        type0_sub_vendor_id: 0,
        type0_sub_system_id: 0,
    }
}

/// A bridge at 00:00.0 with an endpoint behind it.
struct Machine {
    bridge: ConfigSpaceType1Emulator<Capability, ExtendedCapability>,
    endpoint: ConfigSpaceType0Emulator<Capability, ExtendedCapability>,
}

impl Machine {
    fn new() -> Self {
        Machine {
            bridge: ConfigSpaceType1Emulator::new(ids(1), vec![], vec![]),
            endpoint: ConfigSpaceType0Emulator::new(
                ids(2),
                vec![],
                vec![],
                DeviceBars::new()
                    .bar0(0x3000, BarMemoryKind::Dummy)
                    .bar2(0x10, BarMemoryKind::Dummy),
            ),
        }
    }

    fn read(&self, bus: u8, devfn: u8, offset: u16) -> u32 {
        let mut value = !0;
        if bus == 0 && devfn == 0 {
            let _ = self.bridge.read_u32(offset, &mut value);
        } else if bus != 0 && bus == self.bridge.assigned_bus_range().0 && devfn == 0 {
            let _ = self.endpoint.read_u32(offset, &mut value);
        }
        value
    }

    fn write(&mut self, bus: u8, devfn: u8, offset: u16, value: u32) {
        if bus == 0 && devfn == 0 {
            let _ = self.bridge.write_u32(offset, value);
        } else if bus != 0 && bus == self.bridge.assigned_bus_range().0 && devfn == 0 {
            let _ = self.endpoint.write_u32(offset, value);
        }
    }

    fn perform(&mut self, accesses: &[ConfigAccess]) -> Option<u32> {
        let mut last = None;
        for access in accesses {
            last = match *access {
                ConfigAccess::Read { bus, devfn, offset } => Some(self.read(bus, devfn, offset)),
                ConfigAccess::Write { bus, devfn, offset, value } => {
                    self.write(bus, devfn, offset, value);
                    None
                }
            };
        }
        last
    }
}

#[test]
fn emulated_devices_are_found_placed_and_decoded() {
    let params = AssignmentParams {
        start_bus: 0,
        end_bus: 8,
        low_mmio: Some(MmioAperture { base: 0xc000_0000, len: 0x1000_0000 }),
        high_mmio: None,
        preserve_bars: false,
    };
    let mut machine = Machine::new();
    let mut responses = vec![];
    let mut made = 0;
    let mut devices = loop {
        match enumerate_and_probe(&params, responses.clone()) {
            Enumeration::Access(log) => {
                let response = machine.perform(&log[made..]).unwrap();
                made = log.len();
                responses.push(response);
            }
            Enumeration::Done(log, result) => {
                machine.perform(&log[made..]);
                break result.unwrap();
            }
        }
    };
    assert_eq!(devices.len(), 1);
    assert!(devices[0].is_bridge);
    assert_eq!(machine.bridge.assigned_bus_range(), (1, 1));
    // Sizes are rounded up to powers of two of at least a page.
    let found = &devices[0].children[0].bars;
    assert_eq!(found.len(), 2);
    assert_eq!((found[0].index, found[0].size, found[0].is_64bit), (0, 0x4000, true));
    assert_eq!((found[1].index, found[1].size, found[1].is_64bit), (2, 0x1000, true));

    assert!(matches!(try_assign_addresses(&mut devices, &params), Some(Ok(()))));
    for w in program_assignments(&devices) {
        machine.write(w.bus, w.devfn, w.offset, w.value);
    }
    machine.write(0, 0, 0x04, 2);
    machine.write(1, 0, 0x04, 2);
    assert_eq!(machine.bridge.assigned_memory_range(), Some((0xc000_0000, 0xc00f_ffff)));
    assert_eq!(machine.bridge.assigned_prefetch_range(), None);
    assert_eq!(machine.endpoint.find_bar(0xc000_0008), Some((0, 8)));
    assert_eq!(machine.endpoint.find_bar(0xc000_4010), Some((2, 0x10)));
    assert_eq!(machine.endpoint.find_bar(0xc000_5000), None);
}

#[test]
fn extended_capabilities_point_to_each_other() {
    let acs = || ExtendedCapability::Acs(AcsExtendedCapability::with_capabilities(0x1));
    let caps = vec![acs(), acs()];
    assert!(assert_extended_header_contract(&caps[0]));
    assert_eq!(read_ext(&caps, 0x100), 0x10c1_000d);
    assert_eq!(read_ext(&caps, 0x10c), 0x0001_000d);
    assert_eq!(read_ext(&caps, 0x118), 0xffff_ffff);
}

#[test]
fn prefetchable_window_is_decoded_as_programmed() {
    let pcie = Capability::PciExpress(PciExpressCapability::new(
        DevicePortType::RootPort,
        false,
        None,
    ));
    let mut bridge: ConfigSpaceType1Emulator<Capability, ExtendedCapability> =
        ConfigSpaceType1Emulator::new(ids(1), vec![pcie], vec![]);
    bridge.write_u32(0x2c, 0x12).unwrap();
    bridge.write_u32(0x24, 0x3ff1_1001).unwrap();
    bridge.write_u32(0x28, 0x12).unwrap();
    assert_eq!(bridge.assigned_prefetch_range(), None);
    bridge.write_u32(0x04, 2).unwrap();
    assert_eq!(bridge.assigned_prefetch_range(), Some((0x12_1000_0000, 0x12_3fff_ffff)));
    assert_eq!(bridge.assigned_memory_range(), Some((0, 0x000f_ffff)));
}
