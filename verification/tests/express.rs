//! PCI Express capability, type 0 headers and legacy interrupts.
use pci_model::bars::BarMemoryKind;
use pci_model::bars::DeviceBars;
use pci_model::capabilities::kinds::Capability;
use pci_model::capabilities::kinds::ExtendedCapability;
use pci_model::capabilities::pci_express::FlrRequest;
use pci_model::capabilities::pci_express::PciExpressCapability;
use pci_model::capabilities::read_only::ReadOnlyCapability;
use pci_model::capabilities::DevicePortType;
use pci_model::capabilities::PciCapability;
use pci_model::cfg_space::intx::IntxInterrupt;
use pci_model::cfg_space::intx::PciInterruptPin;
use pci_model::cfg_space::type0::ConfigSpaceType0Emulator;
use pci_model::cfg_space::HardwareIds;
use pci_model::io::IoError;

type Express = PciExpressCapability<FlrRequest>;
type Type0 = ConfigSpaceType0Emulator<Capability, ExtendedCapability>;

fn with_flr() -> Express {
    PciExpressCapability::new(
        DevicePortType::Endpoint,
        true,
        Some(FlrRequest { requested: false }),
    )
}

fn type0(caps: Vec<Capability>) -> Type0 {
    ConfigSpaceType0Emulator::new(
        HardwareIds {
            vendor_id: 0x1414,
            device_id: 0xc03e,
            revision_id: 2,
            prog_if: 1,
            sub_class: 8,
            base_class: 1,
            type0_sub_vendor_id: 0x1234,
            type0_sub_system_id: 0x5678,
        },
        caps,
        vec![],
        DeviceBars::new().bar0(0x1000, BarMemoryKind::Dummy),
    )
}

fn read(emu: &Type0, offset: u16) -> u32 {
    let mut v = 0;
    emu.read_u32(offset, &mut v).unwrap();
    v
}

#[test]
fn express_capability_registers() {
    let cap = with_flr();
    assert_eq!(cap.len(), 12);
    assert_eq!(cap.label(), "pci-express");
    assert_eq!(cap.read_u32(0), 0x0002_0010);
    assert_eq!(cap.read_u32(4), 0x1000_0000);
    assert_eq!(cap.read_u32(8), 0);
    assert_eq!(cap.read_u32(0x14), 0);
    let plain: Express = PciExpressCapability::new(DevicePortType::RootPort, false, None);
    assert_eq!(plain.read_u32(0), 0x0042_0010);
    assert_eq!(plain.read_u32(4), 0);
    let numbered = plain.with_interrupt_message_number(3);
    assert_eq!(numbered.interrupt_message_number(), 3);
    assert_eq!(numbered.read_u32(0), 0x0642_0010);
}

#[test]
fn function_level_reset_is_started_once_written() {
    let mut cap = with_flr();
    cap.write_u32(8, 0x0007);
    assert_eq!(cap.flr_handler, Some(FlrRequest { requested: false }));
    assert_eq!(cap.read_u32(8), 0x0007);
    cap.write_u32(8, 0x8007);
    assert_eq!(cap.flr_handler, Some(FlrRequest { requested: true }));
    // The bit clears itself.
    assert_eq!(cap.read_u32(8), 0x0007);
}

#[test]
fn device_status_errors_are_cleared_by_ones() {
    let mut cap = with_flr();
    cap.state.device_status = 0x003f;
    cap.write_u32(8, 0x0005_0000);
    assert_eq!(cap.read_u32(8) >> 16, 0x003a);
    cap.write_u32(8, 0xffff_0000);
    assert_eq!(cap.read_u32(8) >> 16, 0x0030);
}

#[test]
fn express_registers_without_effect() {
    let mut cap = with_flr();
    cap.write_u32(0, 0xffff_ffff);
    cap.write_u32(4, 0xffff_ffff);
    assert_eq!(cap.read_u32(0), 0x0002_0010);
    assert_eq!(cap.read_u32(4), 0x1000_0000);
}

#[test]
fn express_save_reset_restore() {
    let mut cap = with_flr();
    cap.write_u32(8, 0x1234);
    cap.state.device_status = 3;
    let saved = cap.save_state();
    cap.reset();
    assert_eq!(cap.read_u32(8), 0);
    cap.restore_state(saved).unwrap();
    assert_eq!(cap.read_u32(8), 0x0003_1234);
}

#[test]
fn hotplug_slot_notes_changes() {
    let mut cap: Express = PciExpressCapability::new(DevicePortType::RootPort, false, None)
        .with_hotplug_support(5);
    assert!(cap.hot_plug_capable());
    assert_eq!(cap.len(), 0x1c);
    assert_eq!(cap.read_u32(0), 0x0142_0010);
    assert_eq!(cap.read_u32(0x14), (5 << 19) | 0x40);
    assert!(!cap.hot_plug_interrupt_enabled());
    cap.write_u32(0x18, 0x20);
    assert!(cap.hot_plug_interrupt_enabled());

    cap.set_hotplug_state(true);
    assert_eq!(cap.read_u32(0x18) >> 16, 0x0148);
    assert_eq!(cap.read_u32(0x10) >> 16, 0x2000);
    // Changes are cleared by ones; presence stays.
    cap.write_u32(0x18, 0x0108_0020);
    assert_eq!(cap.read_u32(0x18), 0x0040_0020);
    cap.set_hotplug_state(false);
    assert_eq!(cap.read_u32(0x18) >> 16, 0x0108);
    assert_eq!(cap.read_u32(0x10) >> 16, 0);
    cap.set_presence_detect_state(true);
    assert_eq!(cap.read_u32(0x18) >> 16, 0x0148);

    let mut plain: Express = PciExpressCapability::new(DevicePortType::RootPort, false, None);
    plain.set_hotplug_state(true);
    assert!(!plain.hot_plug_capable());
    assert_eq!(plain.read_u32(0x18), 0);
}

#[test]
fn type0_header_registers() {
    let emu = type0(vec![]);
    assert_eq!(read(&emu, 0x00), 0xc03e_1414);
    assert_eq!(read(&emu, 0x08), 0x0108_0102);
    assert_eq!(read(&emu, 0x2c), 0x5678_1234);
    assert_eq!(read(&emu, 0x28), 0);
    assert_eq!(read(&emu, 0x30), 0);
    assert_eq!(read(&emu, 0x34), 0);
    assert_eq!(read(&emu, 0x38), 0);
    assert_eq!(read(&emu, 0x3c), 0);
    assert_eq!(read(&emu, 0x0c), 0);
    let cap = Capability::ReadOnly(ReadOnlyCapability::new("foo", 9, 0));
    let emu = type0(vec![cap]).with_multi_function_bit(true);
    assert_eq!(read(&emu, 0x34), 0x40);
    assert_eq!(read(&emu, 0x0c), 0x0080_0000);
    assert_eq!(read(&emu, 0x04) & 0x0010_0000, 0x0010_0000);
}

#[test]
fn type0_writes() {
    let mut emu = type0(vec![]);
    emu.write_u32(0x0c, 0x0000_4000).unwrap();
    // The latency timer cannot be written.
    assert_eq!(read(&emu, 0x0c), 0);
    assert_eq!(emu.save().latency_timer, 0);
    emu.write_u32(0x3c, 0x1234_56ab).unwrap();
    assert_eq!(read(&emu, 0x3c), 0xab);
    // Registers without effect take writes.
    emu.write_u32(0x00, 0xffff_ffff).unwrap();
    assert_eq!(read(&emu, 0x00), 0xc03e_1414);
    assert_eq!(emu.write_u32(0x40, 0), Err(IoError::InvalidRegister));
    let mut v = 7;
    assert_eq!(emu.read_u32(0x40, &mut v), Err(IoError::InvalidRegister));
    assert_eq!(v, 7);
    emu.reset();
    assert_eq!(read(&emu, 0x0c), 0);
    assert_eq!(read(&emu, 0x3c), 0);
}

#[test]
fn type0_bar_is_found_once_memory_is_enabled() {
    let mut emu = type0(vec![]);
    emu.write_u32(0x10, 0xffff_ffff).unwrap();
    assert_eq!(read(&emu, 0x10) & !0xf, 0xffff_f000);
    emu.write_u32(0x10, 0x2000_0000).unwrap();
    emu.write_u32(0x14, 1).unwrap();
    assert_eq!(emu.find_bar(0x1_2000_0010), None);
    emu.write_u32(0x04, 2).unwrap();
    assert_eq!(emu.find_bar(0x1_2000_0010), Some((0, 0x10)));
    assert_eq!(emu.find_bar(0x1_2000_1000), None);
}

#[test]
fn type0_save_restore() {
    let mut emu = type0(vec![]);
    emu.write_u32(0x10, 0x2000_0000).unwrap();
    emu.write_u32(0x04, 2).unwrap();
    let mut saved = emu.save();
    saved.latency_timer = 0x40;
    emu.reset();
    assert_eq!(emu.find_bar(0x2000_0000), None);
    emu.restore(saved).unwrap();
    assert_eq!(emu.find_bar(0x2000_0000), Some((0, 0)));
    assert_eq!(emu.save().latency_timer, 0x40);
    assert_eq!(read(&emu, 0x0c), 0);
    assert_eq!(read(&emu, 0x04) & 0xffff, 2);
}

#[test]
fn interrupt_line_follows_status_and_disable() {
    let mut intx = IntxInterrupt::new(PciInterruptPin::IntB);
    assert!(!intx.line);
    intx.set_level(true);
    assert!(intx.line);
    intx.set_disabled(true);
    assert!(!intx.line);
    assert!(intx.interrupt_status);
    intx.set_disabled(false);
    assert!(intx.line);
    intx.set_disabled(true);
    intx.set_level(false);
    intx.set_disabled(false);
    assert!(!intx.line);
    assert_eq!(intx.pin, PciInterruptPin::IntB);
}

#[test]
fn command_register_disables_the_legacy_interrupt() {
    let mut emu = type0(vec![]);
    emu.set_interrupt_pin(PciInterruptPin::IntA);
    let mut intx = emu.common.intx_interrupt.unwrap();
    intx.set_level(true);
    emu.common.intx_interrupt = Some(intx);
    assert_eq!(read(&emu, 0x04) & 0x0008_0000, 0x0008_0000);
    emu.write_u32(0x04, 0x0400).unwrap();
    assert!(!emu.common.intx_interrupt.unwrap().line);
    emu.write_u32(0x04, 0).unwrap();
    assert!(emu.common.intx_interrupt.unwrap().line);
}
