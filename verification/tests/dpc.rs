use pci_model::capabilities::assert_extended_header_contract;
use pci_model::capabilities::dpc::DPC_CAPABILITY_CONTROL;
use pci_model::capabilities::dpc::DPC_CAPABILITY_RP_EXTENSIONS;
use pci_model::capabilities::dpc::DPC_CAPABILITY_RP_PIO_LOG_SIZE;
use pci_model::capabilities::dpc::DPC_CONTROL_INTERRUPT_ENABLE;
use pci_model::capabilities::dpc::DPC_CONTROL_SOFTWARE_TRIGGER_BIT;
use pci_model::capabilities::dpc::DPC_RP_PIO_HEADER_LOG_0;
use pci_model::capabilities::dpc::DPC_RP_PIO_MASK;
use pci_model::capabilities::dpc::DPC_RP_PIO_SEVERITY;
use pci_model::capabilities::dpc::DPC_RP_PIO_STATUS;
use pci_model::capabilities::dpc::DPC_STATUS_RP_BUSY;
use pci_model::capabilities::dpc::DPC_STATUS_SOURCE_ID;
use pci_model::capabilities::dpc::DPC_STATUS_TRIGGER;
use pci_model::capabilities::dpc::DpcCapabilityConfig;
use pci_model::capabilities::dpc::DpcExtendedCapability;
use pci_model::capabilities::dpc::RP_PIO_LOG_SIZE_DW;
use pci_model::capabilities::dpc::RP_PIO_VALID_MASK;
use pci_model::capabilities::DevicePortType;
use pci_model::capabilities::PciExtendedCapability;
use pci_model::io::ByteEnabledDwordWrite;
use pci_model::regs::EXT_CAP_ID_DPC;

#[test]
fn test_dpc_defaults() {
    let cap = DpcExtendedCapability::new(&DevicePortType::RootPort);

    assert_eq!(cap.label(), "dpc");
    assert_eq!(cap.extended_capability_id(), EXT_CAP_ID_DPC);
    assert_eq!(cap.capability_version(), 1);
    assert_eq!(cap.len(), 0x44);
    assert!(assert_extended_header_contract(&cap));
    assert!(!cap.containment_active());
    // Root ports have the root port extensions, with a log of four dwords.
    assert!(cap.capability & DPC_CAPABILITY_RP_EXTENSIONS != 0);
    assert_eq!(
        (cap.capability & DPC_CAPABILITY_RP_PIO_LOG_SIZE) >> 8,
        RP_PIO_LOG_SIZE_DW
    );
}

#[test]
fn test_dpc_software_trigger_sets_containment() {
    let mut cap = DpcExtendedCapability::with_config(
        &DevicePortType::RootPort,
        DpcCapabilityConfig {
            dpc_software_triggering_supported: true,
            ..Default::default()
        },
    );

    let control: u16 = 1 | DPC_CONTROL_SOFTWARE_TRIGGER_BIT;

    cap.write_u32(DPC_CAPABILITY_CONTROL, (control as u32) << 16);

    let status = (cap.read_u32(DPC_STATUS_SOURCE_ID) & 0xffff) as u16;
    assert!(status & DPC_STATUS_TRIGGER != 0);
    assert!(cap.containment_active());
    // A software trigger has one phase and never asserts the busy bit, which is
    // for recovery from uncorrectable errors.
    assert!(status & DPC_STATUS_RP_BUSY == 0);
}

#[test]
fn test_dpc_status_rw1c_clears_trigger_status() {
    let mut cap = DpcExtendedCapability::new(&DevicePortType::RootPort);
    let _ = cap.trigger_from_uncorrectable(0x1234);
    assert!(cap.containment_active());

    cap.write_u32(DPC_STATUS_SOURCE_ID, DPC_STATUS_TRIGGER as u32);

    assert!(!cap.containment_active());
}

#[test]
fn test_dpc_two_phase_rp_busy() {
    // An uncorrectable error asserts the busy bit. Firmware clears it, not the
    // operating system.
    let mut cap = DpcExtendedCapability::new(&DevicePortType::RootPort);

    let _ = cap.trigger_from_uncorrectable_begin(0x1234);
    let status = (cap.read_u32(DPC_STATUS_SOURCE_ID) & 0xffff) as u16;
    assert!(status & DPC_STATUS_TRIGGER != 0);
    assert!(status & DPC_STATUS_RP_BUSY != 0);

    cap.clear_rp_busy();
    let status = (cap.read_u32(DPC_STATUS_SOURCE_ID) & 0xffff) as u16;
    assert!(status & DPC_STATUS_TRIGGER != 0);
    assert!(status & DPC_STATUS_RP_BUSY == 0);
}

#[test]
fn test_rp_pio_registers_root_port() {
    let mut cap = DpcExtendedCapability::new(&DevicePortType::RootPort);

    // All errors are masked at first.
    assert_eq!(cap.read_u32(DPC_RP_PIO_MASK), RP_PIO_VALID_MASK);

    // The status is cleared by ones.
    cap.rp_pio_status = RP_PIO_VALID_MASK;
    cap.write_u32(DPC_RP_PIO_STATUS, 0x0000_0001);
    assert_eq!(
        cap.read_u32(DPC_RP_PIO_STATUS),
        RP_PIO_VALID_MASK & !0x0000_0001
    );

    // The severity takes all bits but the reserved ones.
    cap.write_u32(DPC_RP_PIO_SEVERITY, 0xffff_ffff);
    assert_eq!(cap.read_u32(DPC_RP_PIO_SEVERITY), RP_PIO_VALID_MASK);

    // The header log is read-only.
    cap.write_u32(DPC_RP_PIO_HEADER_LOG_0, 0xdead_beef);
    assert_eq!(cap.read_u32(DPC_RP_PIO_HEADER_LOG_0), 0);
}

#[test]
fn test_rp_pio_reserved_for_downstream_switch_port() {
    let mut cap = DpcExtendedCapability::new(&DevicePortType::DownstreamSwitchPort);

    // Downstream ports of switches do not have the root port extensions.
    assert!(cap.capability & DPC_CAPABILITY_RP_EXTENSIONS == 0);

    // The registers read as zero and ignore writes.
    assert_eq!(cap.read_u32(DPC_RP_PIO_MASK), 0);
    cap.write_u32(DPC_RP_PIO_MASK, 0xffff_ffff);
    assert_eq!(cap.read_u32(DPC_RP_PIO_MASK), 0);
}

#[test]
fn dpc_keeps_the_source_of_the_error() {
    let mut cap = DpcExtendedCapability::new(&DevicePortType::RootPort);
    cap.write_u32(
        DPC_CAPABILITY_CONTROL,
        ((1 | DPC_CONTROL_INTERRUPT_ENABLE) as u32) << 16,
    );
    let outcome = cap.trigger_from_uncorrectable(0x1234);
    assert!(outcome.containment_entered);
    assert!(outcome.should_interrupt);
    assert!(cap.interrupt_pending());
    assert_eq!(cap.read_u32(DPC_STATUS_SOURCE_ID) >> 16, 0x1234);
    // Containment is entered once.
    let again = cap.trigger_from_uncorrectable(0x5678);
    assert!(!again.containment_entered);
}

#[test]
fn dpc_save_restore() {
    let mut cap = DpcExtendedCapability::new(&DevicePortType::RootPort);
    let _ = cap.trigger_from_uncorrectable(0x1234);
    let saved = cap.save();
    cap.reset();
    assert!(!cap.containment_active());
    cap.restore(saved);
    assert!(cap.containment_active());
    assert_eq!(cap.read_u32(DPC_STATUS_SOURCE_ID) >> 16, 0x1234);
}

#[test]
fn a_write_of_the_source_clears_no_status() {
    let mut cap = DpcExtendedCapability::new(&DevicePortType::RootPort);
    cap.trigger_from_uncorrectable(0x1234);
    let before = cap.read_u32(DPC_STATUS_SOURCE_ID);
    let high = |value| ByteEnabledDwordWrite {
        value,
        byte0: false,
        byte1: false,
        byte2: true,
        byte3: true,
    };
    cap.write(DPC_STATUS_SOURCE_ID, high(0));
    assert_eq!(cap.read_u32(DPC_STATUS_SOURCE_ID), before);
    cap.write(DPC_STATUS_SOURCE_ID, high(0xffff_ffff));
    assert_eq!(cap.read_u32(DPC_STATUS_SOURCE_ID), before);
    assert!(cap.containment_active());
    cap.write(
        DPC_STATUS_SOURCE_ID,
        ByteEnabledDwordWrite {
            value: DPC_STATUS_TRIGGER as u32,
            byte0: true,
            byte1: false,
            byte2: false,
            byte3: false,
        },
    );
    assert!(!cap.containment_active());
}
