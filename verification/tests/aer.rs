use pci_model::capabilities::aer::AER_ADVANCED_CAPABILITIES_AND_CONTROL;
use pci_model::capabilities::aer::AER_CAP_CTL_WRITABLE_MASK;
use pci_model::capabilities::aer::AER_CORRECTABLE_ERROR_MASK;
use pci_model::capabilities::aer::AER_CORRECTABLE_ERROR_STATUS;
use pci_model::capabilities::aer::AER_ERROR_SOURCE_IDENTIFICATION;
use pci_model::capabilities::aer::AER_HEADER_LOG_0;
use pci_model::capabilities::aer::AER_ROOT_ERROR_COMMAND;
use pci_model::capabilities::aer::AER_ROOT_ERROR_STATUS;
use pci_model::capabilities::aer::AER_UNCORRECTABLE_ERROR_MASK;
use pci_model::capabilities::aer::AER_UNCORRECTABLE_ERROR_SEVERITY;
use pci_model::capabilities::aer::AER_UNCORRECTABLE_ERROR_STATUS;
use pci_model::capabilities::aer::AerCapabilityConfig;
use pci_model::capabilities::aer::AerExtendedCapability;
use pci_model::capabilities::aer::AerInjectedErrorKind;
use pci_model::capabilities::aer::AerInjection;
use pci_model::capabilities::aer::AerPortType;
use pci_model::capabilities::aer::DEFAULT_COR_ERR_MASK;
use pci_model::capabilities::aer::DEFAULT_UNC_ERR_MASK;
use pci_model::capabilities::aer::DEFAULT_UNC_ERR_SEVERITY;
use pci_model::capabilities::aer::LogDwords;
use pci_model::capabilities::aer::ROOT_ERR_COMMAND_RW_MASK;
use pci_model::capabilities::assert_extended_header_contract;
use pci_model::capabilities::DevicePortType;
use pci_model::capabilities::PciExtendedCapability;
use pci_model::io::ByteEnabledDwordWrite;
use pci_model::regs::EXT_CAP_ID_AER;

#[test]
fn test_aer_defaults_and_header_contract() {
    let cap = AerExtendedCapability::new(AerPortType::Endpoint);

    assert_eq!(cap.label(), "aer");
    assert_eq!(cap.extended_capability_id(), EXT_CAP_ID_AER);
    assert_eq!(cap.capability_version(), 2);
    assert_eq!(cap.len(), 0x48);
    assert!(assert_extended_header_contract(&cap));

    assert_eq!(
        cap.read_u32(AER_UNCORRECTABLE_ERROR_MASK),
        DEFAULT_UNC_ERR_MASK
    );
    assert_eq!(
        cap.read_u32(AER_UNCORRECTABLE_ERROR_SEVERITY),
        DEFAULT_UNC_ERR_SEVERITY
    );
    assert_eq!(
        cap.read_u32(AER_CORRECTABLE_ERROR_MASK),
        DEFAULT_COR_ERR_MASK
    );
}

#[test]
fn test_aer_endpoint_drops_root_register_writes() {
    let mut cap = AerExtendedCapability::new(AerPortType::Endpoint);

    cap.write_u32(AER_ROOT_ERROR_COMMAND, 0x7);
    cap.write_u32(AER_ROOT_ERROR_STATUS, 0xffff_ffff);

    assert_eq!(cap.read_u32(AER_ROOT_ERROR_COMMAND), 0);
    assert_eq!(cap.read_u32(AER_ROOT_ERROR_STATUS), 0);
}

#[test]
fn test_aer_root_port_root_command_writable() {
    let mut cap = AerExtendedCapability::new(AerPortType::RootPort);

    cap.write_u32(AER_ROOT_ERROR_COMMAND, 0xffff_ffff);

    assert_eq!(
        cap.read_u32(AER_ROOT_ERROR_COMMAND),
        ROOT_ERR_COMMAND_RW_MASK
    );
}

#[test]
fn test_aer_advanced_cap_control_masks_unsupported_bits() {
    let mut cap = AerExtendedCapability::new(AerPortType::RootPort);

    cap.write_u32(AER_ADVANCED_CAPABILITIES_AND_CONTROL, 0xffff_ffff);

    assert_eq!(
        cap.read_u32(AER_ADVANCED_CAPABILITIES_AND_CONTROL) & AER_CAP_CTL_WRITABLE_MASK,
        0
    );
}

#[test]
fn test_aer_reset_restores_defaults() {
    let mut cap = AerExtendedCapability::new(AerPortType::RootPort);

    cap.write_u32(AER_UNCORRECTABLE_ERROR_MASK, 0);
    cap.write_u32(AER_CORRECTABLE_ERROR_MASK, 0);
    cap.write_u32(AER_ROOT_ERROR_COMMAND, 0x7);

    cap.reset();

    assert_eq!(
        cap.read_u32(AER_UNCORRECTABLE_ERROR_MASK),
        DEFAULT_UNC_ERR_MASK
    );
    assert_eq!(
        cap.read_u32(AER_CORRECTABLE_ERROR_MASK),
        DEFAULT_COR_ERR_MASK
    );
    assert_eq!(cap.read_u32(AER_ROOT_ERROR_COMMAND), 0);
}

#[test]
fn test_aer_save_restore_roundtrip() {
    let mut cap = AerExtendedCapability::new(AerPortType::RootPort);

    cap.write_u32(AER_UNCORRECTABLE_ERROR_MASK, 0x0000_1234);
    cap.write_u32(AER_ROOT_ERROR_COMMAND, 0x7);

    let saved = cap.save();

    cap.reset();
    assert_eq!(cap.read_u32(AER_ROOT_ERROR_COMMAND), 0);

    cap.restore(saved);

    assert_eq!(cap.read_u32(AER_UNCORRECTABLE_ERROR_MASK), 0x0000_1234);
    assert_eq!(cap.read_u32(AER_ROOT_ERROR_COMMAND), 0x7);
}

#[test]
fn test_aer_switch_port_shape_uses_non_root_behavior() {
    let mut cap = AerExtendedCapability::new(AerPortType::DownstreamSwitchPort);

    cap.write_u32(AER_ROOT_ERROR_COMMAND, 0x7);
    assert_eq!(cap.read_u32(AER_ROOT_ERROR_COMMAND), 0);
}

#[test]
fn test_aer_with_config_overrides_default_masks() {
    let cap = AerExtendedCapability::with_config(
        AerPortType::RootPort,
        AerCapabilityConfig {
            correctable_mask: Some(0x0000_0021),
            uncorrectable_mask: Some(0x0400_0000),
            uncorrectable_severity_mask: Some(0x0001_3000),
        },
    );

    assert_eq!(cap.read_u32(AER_UNCORRECTABLE_ERROR_MASK), 0x0400_0000);
    assert_eq!(cap.read_u32(AER_CORRECTABLE_ERROR_MASK), 0x0000_0021);
    assert_eq!(cap.read_u32(AER_UNCORRECTABLE_ERROR_SEVERITY), 0x0001_3000);
}

fn log() -> LogDwords {
    LogDwords {
        d0: 0x1111_1111,
        d1: 0x2222_2222,
        d2: 0x3333_3333,
        d3: 0x4444_4444,
    }
}

#[test]
fn aer_status_is_cleared_by_ones() {
    let mut cap = AerExtendedCapability::new(AerPortType::Endpoint);
    cap.record(AerInjection {
        kind: AerInjectedErrorKind::Uncorrectable,
        status_bits: 0x0000_5000,
        header_log: log(),
        source_id: 0x0100,
    });
    assert_eq!(cap.read_u32(AER_UNCORRECTABLE_ERROR_STATUS), 0x0000_5000);
    assert_eq!(cap.read_u32(AER_HEADER_LOG_0), 0x1111_1111);
    cap.write_u32(AER_UNCORRECTABLE_ERROR_STATUS, 0x0000_1000);
    assert_eq!(cap.read_u32(AER_UNCORRECTABLE_ERROR_STATUS), 0x0000_4000);
}

#[test]
fn aer_root_port_reports_a_correctable_error() {
    let mut cap = AerExtendedCapability::new(AerPortType::RootPort);
    cap.write_u32(AER_ROOT_ERROR_COMMAND, 0x1);
    let outcome = cap.inject(AerInjection {
        kind: AerInjectedErrorKind::Correctable,
        status_bits: 0x0000_0001,
        header_log: log(),
        source_id: 0x0208,
    });
    assert!(outcome.unwrap().should_interrupt);
    assert_eq!(cap.read_u32(AER_CORRECTABLE_ERROR_STATUS), 0x1);
    assert_eq!(cap.read_u32(AER_ROOT_ERROR_STATUS) & 0x7f, 0x1);
    assert_eq!(cap.read_u32(AER_ERROR_SOURCE_IDENTIFICATION), 0x0208);
}

#[test]
fn aer_port_type_of_a_device() {
    assert!(matches!(
        AerPortType::from(DevicePortType::RootPort),
        AerPortType::RootPort
    ));
    assert!(matches!(
        AerPortType::from(DevicePortType::Endpoint),
        AerPortType::Endpoint
    ));
}

#[test]
fn aer_bytes_that_are_not_enabled_are_written_as_they_are() {
    let mut cap = AerExtendedCapability::new(AerPortType::Endpoint);
    cap.record(AerInjection {
        kind: AerInjectedErrorKind::Uncorrectable,
        status_bits: 0x0010_5000,
        header_log: log(),
        source_id: 0x0100,
    });
    cap.write(
        AER_UNCORRECTABLE_ERROR_STATUS,
        ByteEnabledDwordWrite {
            value: 0xffff_ffff,
            byte0: true,
            byte1: false,
            byte2: true,
            byte3: true,
        },
    );
    assert_eq!(cap.read_u32(AER_UNCORRECTABLE_ERROR_STATUS), 0);
    cap.write(
        AER_UNCORRECTABLE_ERROR_MASK,
        ByteEnabledDwordWrite {
            value: 0x1234_5678,
            byte0: false,
            byte1: true,
            byte2: false,
            byte3: false,
        },
    );
    assert_eq!(
        cap.read_u32(AER_UNCORRECTABLE_ERROR_MASK),
        (DEFAULT_UNC_ERR_MASK & 0xffff_00ff) | 0x5600
    );
}

#[test]
fn aer_root_registers_are_only_at_root_ports() {
    let root = [
        AER_ROOT_ERROR_COMMAND,
        AER_ROOT_ERROR_STATUS,
        AER_ERROR_SOURCE_IDENTIFICATION,
    ];
    let mut port = AerExtendedCapability::new(AerPortType::RootPort);
    port.write_u32(AER_ROOT_ERROR_COMMAND, 0xffff_ffff);
    port.report(AerInjection {
        kind: AerInjectedErrorKind::Correctable,
        status_bits: 1,
        header_log: log(),
        source_id: 0x0203,
    });
    assert_eq!(port.read_u32(AER_ROOT_ERROR_COMMAND), 7);
    assert_eq!(port.read_u32(AER_ROOT_ERROR_STATUS), 1);
    assert_eq!(port.read_u32(AER_ERROR_SOURCE_IDENTIFICATION), 0x0203);
    let saved = port.save();
    for port_type in [
        AerPortType::Endpoint,
        AerPortType::UpstreamSwitchPort,
        AerPortType::DownstreamSwitchPort,
    ] {
        let mut cap = AerExtendedCapability::new(port_type);
        for offset in root {
            cap.write_u32(offset, 0xffff_ffff);
        }
        cap.restore(saved);
        for offset in root {
            assert_eq!(cap.read_u32(offset), 0);
        }
        cap.reset();
        assert_eq!(cap.port_type, port_type);
        assert!(!cap.supports_root_registers());
        for offset in [0x48, 0x4c, 0x02, 0x31, 0xffff] {
            assert_eq!(cap.read_u32(offset), 0xffff_ffff);
        }
    }
}
