use pci_model::bars::BarMemoryKind;
use pci_model::bars::DeviceBars;
use pci_model::capabilities::kinds::Capability;
use pci_model::capabilities::kinds::ExtendedCapability;
use pci_model::capabilities::pci_express::FlrRequest;
use pci_model::capabilities::pci_express::PciExpressCapability;
use pci_model::capabilities::read_only::ReadOnlyCapability;
use pci_model::capabilities::DevicePortType;
use pci_model::capabilities::PciCapability;
use pci_model::cfg_space::common::ConfigSpaceCommonHeaderEmulator;
use pci_model::cfg_space::common::ConfigSpaceCommonHeaderEmulatorType0;
use pci_model::cfg_space::common::ConfigSpaceCommonHeaderEmulatorType1;
use pci_model::cfg_space::type0::ConfigSpaceType0Emulator;
use pci_model::cfg_space::type1::ConfigSpaceType1Emulator;
use pci_model::cfg_space::CommonHeaderResult;
use pci_model::cfg_space::HardwareIds;
use pci_model::io::IoError;
use pci_model::regs::CAP_ID_PCI_EXPRESS;

const VENDOR_SPECIFIC: u8 = 0x09;

fn read_only(label: &'static str) -> Capability {
    Capability::ReadOnly(ReadOnlyCapability::new(label, VENDOR_SPECIFIC, 0))
}

fn pci_express(port_type: DevicePortType) -> Capability {
    Capability::PciExpress(PciExpressCapability::new(port_type, false, None))
}

fn create_type1_emulator(caps: Vec<Capability>) -> ConfigSpaceType1Emulator<Capability, ExtendedCapability> {
    ConfigSpaceType1Emulator::new(
        HardwareIds {
            vendor_id: 0x1111,
            device_id: 0x2222,
            revision_id: 1,
            prog_if: 0,
            sub_class: 4,
            base_class: 6,
            type0_sub_vendor_id: 0,
            type0_sub_system_id: 0,
        },
        caps,
        vec![],
    )
}

fn read_cfg(emulator: &ConfigSpaceType1Emulator<Capability, ExtendedCapability>, offset: u16) -> u32 {
    let mut val = 0;
    emulator.read_u32(offset, &mut val).unwrap();
    val
}

#[test]
fn test_type1_probe() {
    let emu = create_type1_emulator(vec![]);
    assert_eq!(read_cfg(&emu, 0), 0x2222_1111);
    assert_eq!(read_cfg(&emu, 4) & 0x10_0000, 0); // Capabilities pointer

    let emu = create_type1_emulator(vec![read_only("foo")]);
    assert_eq!(read_cfg(&emu, 0), 0x2222_1111);
    assert_eq!(read_cfg(&emu, 4) & 0x10_0000, 0x10_0000); // Capabilities pointer
}

#[test]
fn test_type1_bus_number_assignment() {
    let mut emu = create_type1_emulator(vec![]);

    // The bus number (and latency timer) registers are
    // all default 0.
    assert_eq!(read_cfg(&emu, 0x18), 0);
    assert_eq!(emu.assigned_bus_range(), (0, 0));

    // The bus numbers can be programmed one by one,
    // and the range may not be valid during the middle
    // of allocation.
    emu.write_u32(0x18, 0x0000_1000).unwrap();
    assert_eq!(read_cfg(&emu, 0x18), 0x0000_1000);
    assert_eq!(emu.assigned_bus_range(), (0, 0));
    emu.write_u32(0x18, 0x0012_1000).unwrap();
    assert_eq!(read_cfg(&emu, 0x18), 0x0012_1000);
    assert_eq!(emu.assigned_bus_range(), (0x10, 0x12));

    // The primary bus number register is read/write for compatability
    // but unused.
    emu.write_u32(0x18, 0x0012_1033).unwrap();
    assert_eq!(read_cfg(&emu, 0x18), 0x0012_1033);
    assert_eq!(emu.assigned_bus_range(), (0x10, 0x12));

    // Software can also just write the entire 4byte value at once
    emu.write_u32(0x18, 0x0047_4411).unwrap();
    assert_eq!(read_cfg(&emu, 0x18), 0x0047_4411);
    assert_eq!(emu.assigned_bus_range(), (0x44, 0x47));

    // The subordinate bus number can equal the secondary bus number...
    emu.write_u32(0x18, 0x0088_8800).unwrap();
    assert_eq!(emu.assigned_bus_range(), (0x88, 0x88));

    // ... but it cannot be less, that's a confused guest OS.
    emu.write_u32(0x18, 0x0087_8800).unwrap();
    assert_eq!(emu.assigned_bus_range(), (0, 0));
}

#[test]
fn test_type1_memory_assignment() {
    const MMIO_ENABLED: u32 = 0x0000_0002;
    const MMIO_DISABLED: u32 = 0x0000_0000;

    let mut emu = create_type1_emulator(vec![]);
    assert!(emu.assigned_memory_range().is_none());

    // The guest can write whatever it wants while MMIO
    // is disabled.
    emu.write_u32(0x20, 0xDEAD_BEEF).unwrap();
    assert!(emu.assigned_memory_range().is_none());

    // The guest can program a valid resource assignment...
    emu.write_u32(0x20, 0xFFF0_FF00).unwrap();
    assert!(emu.assigned_memory_range().is_none());
    // ... enable memory decoding...
    emu.write_u32(0x4, MMIO_ENABLED).unwrap();
    assert_eq!(emu.assigned_memory_range(), Some((0xFF00_0000, 0xFFFF_FFFF)));
    // ... then disable memory decoding it.
    emu.write_u32(0x4, MMIO_DISABLED).unwrap();
    assert!(emu.assigned_memory_range().is_none());

    // Setting memory base equal to memory limit is a valid 1MB range.
    emu.write_u32(0x20, 0xBBB0_BBB0).unwrap();
    emu.write_u32(0x4, MMIO_ENABLED).unwrap();
    assert_eq!(emu.assigned_memory_range(), Some((0xBBB0_0000, 0xBBBF_FFFF)));
    emu.write_u32(0x4, MMIO_DISABLED).unwrap();
    assert!(emu.assigned_memory_range().is_none());

    // The guest can try to program an invalid assignment (base > limit), we
    // just won't decode it.
    emu.write_u32(0x20, 0xAA00_BB00).unwrap();
    assert!(emu.assigned_memory_range().is_none());
    emu.write_u32(0x4, MMIO_ENABLED).unwrap();
    assert!(emu.assigned_memory_range().is_none());
    emu.write_u32(0x4, MMIO_DISABLED).unwrap();
    assert!(emu.assigned_memory_range().is_none());
}

#[test]
fn test_type1_prefetch_assignment() {
    const MMIO_ENABLED: u32 = 0x0000_0002;
    const MMIO_DISABLED: u32 = 0x0000_0000;

    let mut emu = create_type1_emulator(vec![]);
    assert!(emu.assigned_prefetch_range().is_none());

    // The guest can program a valid prefetch range...
    emu.write_u32(0x24, 0xFFF0_FF00).unwrap(); // limit + base
    emu.write_u32(0x28, 0x00AA_BBCC).unwrap(); // base upper
    emu.write_u32(0x2C, 0x00DD_EEFF).unwrap(); // limit upper
    assert!(emu.assigned_prefetch_range().is_none());
    // ... enable memory decoding...
    emu.write_u32(0x4, MMIO_ENABLED).unwrap();
    assert_eq!(
        emu.assigned_prefetch_range(),
        Some((0x00AA_BBCC_FF00_0000, 0x00DD_EEFF_FFFF_FFFF))
    );
    // ... then disable memory decoding it.
    emu.write_u32(0x4, MMIO_DISABLED).unwrap();
    assert!(emu.assigned_prefetch_range().is_none());

    // The validity of the assignment is determined using the combined 64-bit
    // address, not the lower bits or the upper bits in isolation.

    // Lower bits of the limit are greater than the lower bits of the
    // base, but the upper bits make that valid.
    emu.write_u32(0x24, 0xFF00_FFF0).unwrap(); // limit + base
    emu.write_u32(0x28, 0x00AA_BBCC).unwrap(); // base upper
    emu.write_u32(0x2C, 0x00DD_EEFF).unwrap(); // limit upper
    assert!(emu.assigned_prefetch_range().is_none());
    emu.write_u32(0x4, MMIO_ENABLED).unwrap();
    assert_eq!(
        emu.assigned_prefetch_range(),
        Some((0x00AA_BBCC_FFF0_0000, 0x00DD_EEFF_FF0F_FFFF))
    );
    emu.write_u32(0x4, MMIO_DISABLED).unwrap();
    assert!(emu.assigned_prefetch_range().is_none());

    // The base can equal the limit, which is a valid 1MB range.
    emu.write_u32(0x24, 0xDD00_DD00).unwrap(); // limit + base
    emu.write_u32(0x28, 0x00AA_BBCC).unwrap(); // base upper
    emu.write_u32(0x2C, 0x00AA_BBCC).unwrap(); // limit upper
    assert!(emu.assigned_prefetch_range().is_none());
    emu.write_u32(0x4, MMIO_ENABLED).unwrap();
    assert_eq!(
        emu.assigned_prefetch_range(),
        Some((0x00AA_BBCC_DD00_0000, 0x00AA_BBCC_DD0F_FFFF))
    );
    emu.write_u32(0x4, MMIO_DISABLED).unwrap();
    assert!(emu.assigned_prefetch_range().is_none());
}

#[test]
fn test_type1_is_pcie_device() {
    // Test Type 1 device without PCIe capability
    let emu = create_type1_emulator(vec![read_only("foo")]);
    assert!(!emu.is_pcie_device());

    // Test Type 1 device with PCIe capability
    let emu = create_type1_emulator(vec![pci_express(DevicePortType::RootPort)]);
    assert!(emu.is_pcie_device());

    // Test Type 1 device with multiple capabilities including PCIe
    let emu = create_type1_emulator(vec![
        read_only("foo"),
        pci_express(DevicePortType::Endpoint),
        read_only("bar"),
    ]);
    assert!(emu.is_pcie_device());
}

#[test]
fn test_type0_is_pcie_device() {
    // Test Type 0 device without PCIe capability
    let emu = ConfigSpaceType0Emulator::<Capability, ExtendedCapability>::new(
        HardwareIds {
            vendor_id: 0x1111,
            device_id: 0x2222,
            revision_id: 1,
            prog_if: 0,
            sub_class: 0,
            base_class: 0,
            type0_sub_vendor_id: 0,
            type0_sub_system_id: 0,
        },
        vec![read_only("foo")],
        vec![],
        DeviceBars::new(),
    );
    assert!(!emu.is_pcie_device());

    // Test Type 0 device with PCIe capability
    let emu = ConfigSpaceType0Emulator::<Capability, ExtendedCapability>::new(
        HardwareIds {
            vendor_id: 0x1111,
            device_id: 0x2222,
            revision_id: 1,
            prog_if: 0,
            sub_class: 0,
            base_class: 0,
            type0_sub_vendor_id: 0,
            type0_sub_system_id: 0,
        },
        vec![pci_express(DevicePortType::Endpoint)],
        vec![],
        DeviceBars::new(),
    );
    assert!(emu.is_pcie_device());

    // Test Type 0 device with multiple capabilities including PCIe
    let emu = ConfigSpaceType0Emulator::<Capability, ExtendedCapability>::new(
        HardwareIds {
            vendor_id: 0x1111,
            device_id: 0x2222,
            revision_id: 1,
            prog_if: 0,
            sub_class: 0,
            base_class: 0,
            type0_sub_vendor_id: 0,
            type0_sub_system_id: 0,
        },
        vec![
            read_only("foo"),
            pci_express(DevicePortType::Endpoint),
            read_only("bar"),
        ],
        vec![],
        DeviceBars::new(),
    );
    assert!(emu.is_pcie_device());

    // Test Type 0 device with no capabilities
    let emu = ConfigSpaceType0Emulator::<Capability, ExtendedCapability>::new(
        HardwareIds {
            vendor_id: 0x1111,
            device_id: 0x2222,
            revision_id: 1,
            prog_if: 0,
            sub_class: 0,
            base_class: 0,
            type0_sub_vendor_id: 0,
            type0_sub_system_id: 0,
        },
        vec![],
        vec![],
        DeviceBars::new(),
    );
    assert!(!emu.is_pcie_device());
}

#[test]
fn test_capability_ids() {
    // Test that capabilities return the correct capability IDs
    let pcie_cap = PciExpressCapability::<FlrRequest>::new(DevicePortType::Endpoint, false, None);
    assert_eq!(pcie_cap.capability_id(), CAP_ID_PCI_EXPRESS);

    let read_only_cap = ReadOnlyCapability::new("test", VENDOR_SPECIFIC, 0u32);
    assert_eq!(read_only_cap.capability_id(), VENDOR_SPECIFIC);
}

#[test]
fn test_common_header_emulator_type0() {
    // Test the common header emulator with Type 0 configuration (6 BARs)
    let hardware_ids = HardwareIds {
        vendor_id: 0x1111,
        device_id: 0x2222,
        revision_id: 1,
        prog_if: 0,
        sub_class: 0,
        base_class: 0,
        type0_sub_vendor_id: 0,
        type0_sub_system_id: 0,
    };

    let bars = DeviceBars::new().bar0(4096, BarMemoryKind::Dummy);

    let common_emu: ConfigSpaceCommonHeaderEmulatorType0<Capability, ExtendedCapability> =
        ConfigSpaceCommonHeaderEmulator::new(hardware_ids, vec![], vec![], bars);

    assert_eq!(common_emu.hardware_ids().vendor_id, 0x1111);
    assert_eq!(common_emu.hardware_ids().device_id, 0x2222);
    assert!(!common_emu.multi_function_bit());
    assert!(!common_emu.is_pcie_device());
    assert_ne!(common_emu.bar_masks()[0], 0); // Should have a mask for BAR0
}

#[test]
fn test_common_header_emulator_type1() {
    // Test the common header emulator with Type 1 configuration (2 BARs)
    let hardware_ids = HardwareIds {
        vendor_id: 0x3333,
        device_id: 0x4444,
        revision_id: 1,
        prog_if: 0,
        sub_class: 4,
        base_class: 6,
        type0_sub_vendor_id: 0,
        type0_sub_system_id: 0,
    };

    let bars = DeviceBars::new().bar0(4096, BarMemoryKind::Dummy);

    let mut common_emu: ConfigSpaceCommonHeaderEmulatorType1<Capability, ExtendedCapability> =
        ConfigSpaceCommonHeaderEmulator::new(
            hardware_ids,
            vec![pci_express(DevicePortType::RootPort)],
            vec![],
            bars,
        )
        .with_multi_function_bit(true);

    assert_eq!(common_emu.hardware_ids().vendor_id, 0x3333);
    assert_eq!(common_emu.hardware_ids().device_id, 0x4444);
    assert!(common_emu.multi_function_bit());
    assert!(common_emu.is_pcie_device());
    assert_ne!(common_emu.bar_masks()[0], 0); // Should have a mask for BAR0
    assert_eq!(common_emu.bar_masks().len(), 2);

    // Test reset functionality
    common_emu.reset();
    assert_eq!(common_emu.capabilities().len(), 1); // capabilities should still be there
}

#[test]
fn test_common_header_emulator_no_bars() {
    // Test the common header emulator with no BARs configured
    let hardware_ids = HardwareIds {
        vendor_id: 0x5555,
        device_id: 0x6666,
        revision_id: 1,
        prog_if: 0,
        sub_class: 0,
        base_class: 0,
        type0_sub_vendor_id: 0,
        type0_sub_system_id: 0,
    };

    // Create bars with no BARs configured
    let bars = DeviceBars::new();

    let common_emu: ConfigSpaceCommonHeaderEmulatorType0<Capability, ExtendedCapability> =
        ConfigSpaceCommonHeaderEmulator::new(hardware_ids, vec![], vec![], bars);

    assert_eq!(common_emu.hardware_ids().vendor_id, 0x5555);
    assert_eq!(common_emu.hardware_ids().device_id, 0x6666);

    // All BAR masks should be 0 when no BARs are configured
    for mask in common_emu.bar_masks() {
        assert_eq!(mask, 0);
    }
}

#[test]
fn test_common_header_emulator_type1_ignores_extra_bars() {
    // Test that Type 1 emulator ignores BARs beyond index 1 (only supports 2 BARs)
    let hardware_ids = HardwareIds {
        vendor_id: 0x7777,
        device_id: 0x8888,
        revision_id: 1,
        prog_if: 0,
        sub_class: 4,
        base_class: 6,
        type0_sub_vendor_id: 0,
        type0_sub_system_id: 0,
    };

    // Configure BARs 0, 2, and 4 - Type 1 should only use BAR0 (and BAR1 as upper 32 bits)
    let bars = DeviceBars::new()
        .bar0(4096, BarMemoryKind::Dummy)
        .bar2(8192, BarMemoryKind::Dummy)
        .bar4(16384, BarMemoryKind::Dummy);

    let common_emu: ConfigSpaceCommonHeaderEmulatorType1<Capability, ExtendedCapability> =
        ConfigSpaceCommonHeaderEmulator::new(hardware_ids, vec![], vec![], bars);

    assert_eq!(common_emu.hardware_ids().vendor_id, 0x7777);
    assert_eq!(common_emu.hardware_ids().device_id, 0x8888);

    // Should have a mask for BAR0, and BAR1 should be the upper 32 bits (64-bit BAR)
    assert_ne!(common_emu.bar_masks()[0], 0); // BAR0 should be configured
    assert_ne!(common_emu.bar_masks()[1], 0); // BAR1 should be upper 32 bits of BAR0
    assert_eq!(common_emu.bar_masks().len(), 2); // Type 1 only has 2 BARs

    // BAR2 and higher should be ignored (not accessible in Type 1 with N=2)
    // This demonstrates that extra BARs in DeviceBars are properly ignored
}

#[test]
fn test_common_header_extended_capabilities() {
    // Test common header emulator extended capabilities
    let mut common_emu_no_pcie = ConfigSpaceCommonHeaderEmulatorType0::<Capability, ExtendedCapability>::new(
        HardwareIds {
            vendor_id: 0x1111,
            device_id: 0x2222,
            revision_id: 1,
            prog_if: 0,
            sub_class: 0,
            base_class: 0,
            type0_sub_vendor_id: 0,
            type0_sub_system_id: 0,
        },
        vec![read_only("foo")],
        vec![],
        DeviceBars::new(),
    );
    assert!(!common_emu_no_pcie.is_pcie_device());

    let mut common_emu_pcie = ConfigSpaceCommonHeaderEmulatorType0::<Capability, ExtendedCapability>::new(
        HardwareIds {
            vendor_id: 0x1111,
            device_id: 0x2222,
            revision_id: 1,
            prog_if: 0,
            sub_class: 0,
            base_class: 0,
            type0_sub_vendor_id: 0,
            type0_sub_system_id: 0,
        },
        vec![pci_express(DevicePortType::Endpoint)],
        vec![],
        DeviceBars::new(),
    );
    assert!(common_emu_pcie.is_pcie_device());

    // Test reading extended capabilities - non-PCIe device should return error
    let mut value = 0;
    assert!(matches!(
        common_emu_no_pcie.read_extended_capabilities(0x100, &mut value),
        CommonHeaderResult::Failed(IoError::InvalidRegister)
    ));

    // Test reading extended capabilities - PCIe device should return 0xffffffff
    let mut value = 0;
    assert!(matches!(
        common_emu_pcie.read_extended_capabilities(0x100, &mut value),
        CommonHeaderResult::Handled
    ));
    assert_eq!(value, 0xffffffff);

    // Test writing extended capabilities - non-PCIe device should return error
    assert!(matches!(
        common_emu_no_pcie.write_extended_capabilities(0x100, 0x1234),
        CommonHeaderResult::Failed(IoError::InvalidRegister)
    ));

    // Test writing extended capabilities - PCIe device should accept writes
    assert!(matches!(
        common_emu_pcie.write_extended_capabilities(0x100, 0x1234),
        CommonHeaderResult::Handled
    ));

    // Test invalid offset ranges
    let mut value = 0;
    assert!(matches!(
        common_emu_pcie.read_extended_capabilities(0x99, &mut value),
        CommonHeaderResult::Failed(IoError::InvalidRegister)
    ));
    assert!(matches!(
        common_emu_pcie.read_extended_capabilities(0x1000, &mut value),
        CommonHeaderResult::Failed(IoError::InvalidRegister)
    ));
}

#[test]
fn test_common_header_emulator_save_restore() {

    // Test Type 0 common header emulator save/restore
    let hardware_ids = HardwareIds {
        vendor_id: 0x1111,
        device_id: 0x2222,
        revision_id: 1,
        prog_if: 0,
        sub_class: 0,
        base_class: 0,
        type0_sub_vendor_id: 0,
        type0_sub_system_id: 0,
    };

    let bars = DeviceBars::new().bar0(4096, BarMemoryKind::Dummy);

    let mut common_emu: ConfigSpaceCommonHeaderEmulatorType0<Capability, ExtendedCapability> =
        ConfigSpaceCommonHeaderEmulator::new(hardware_ids, vec![], vec![], bars);

    // Modify some state
    let mut test_val = 0u32;
    let result = common_emu.write_u32(0x04, 0x0007); // Enable some command bits
    assert_eq!(result, CommonHeaderResult::Handled);
    let result = common_emu.read_u32(0x04, &mut test_val);
    assert_eq!(result, CommonHeaderResult::Handled);
    assert_eq!(test_val & 0x0007, 0x0007);

    // Save the state
    let saved_state = common_emu.save();

    // Reset the emulator
    common_emu.reset();
    let result = common_emu.read_u32(0x04, &mut test_val);
    assert_eq!(result, CommonHeaderResult::Handled);
    assert_eq!(test_val & 0x0007, 0x0000); // Should be reset

    // Restore the state
    assert!(common_emu.restore(saved_state).is_ok());
    let result = common_emu.read_u32(0x04, &mut test_val);
    assert_eq!(result, CommonHeaderResult::Handled);
    assert_eq!(test_val & 0x0007, 0x0007); // Should be restored

    // Test Type 1 common header emulator save/restore
    let hardware_ids = HardwareIds {
        vendor_id: 0x3333,
        device_id: 0x4444,
        revision_id: 1,
        prog_if: 0,
        sub_class: 4,
        base_class: 6,
        type0_sub_vendor_id: 0,
        type0_sub_system_id: 0,
    };

    let bars = DeviceBars::new(); // No BARs for Type 1

    let mut common_emu_type1: ConfigSpaceCommonHeaderEmulatorType1<Capability, ExtendedCapability> =
        ConfigSpaceCommonHeaderEmulator::new(hardware_ids, vec![], vec![], bars);

    // Modify some state
    let result = common_emu_type1.write_u32(0x04, 0x0003); // Enable some command bits
    assert_eq!(result, CommonHeaderResult::Handled);
    let result = common_emu_type1.read_u32(0x04, &mut test_val);
    assert_eq!(result, CommonHeaderResult::Handled);
    assert_eq!(test_val & 0x0003, 0x0003);

    // Save the state
    let saved_state = common_emu_type1.save();

    // Reset the emulator
    common_emu_type1.reset();
    let result = common_emu_type1.read_u32(0x04, &mut test_val);
    assert_eq!(result, CommonHeaderResult::Handled);
    assert_eq!(test_val & 0x0003, 0x0000); // Should be reset

    // Restore the state
    assert!(common_emu_type1.restore(saved_state).is_ok());
    let result = common_emu_type1.read_u32(0x04, &mut test_val);
    assert_eq!(result, CommonHeaderResult::Handled);
    assert_eq!(test_val & 0x0003, 0x0003); // Should be restored
}
