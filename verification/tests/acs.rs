use pci_model::capabilities::acs::AcsExtendedCapability;
use pci_model::capabilities::acs::ACS_CAPS_CONTROL;
use pci_model::capabilities::acs::ACS_EGRESS_CONTROL_VECTOR;
use pci_model::capabilities::acs::DEFAULT_ACS_CAP_MASK;
use pci_model::capabilities::assert_extended_header_contract;
use pci_model::capabilities::PciExtendedCapability;
use pci_model::regs::EXT_CAP_ID_ACS;

#[test]
fn test_acs_defaults() {
    let cap = AcsExtendedCapability::new();

    assert_eq!(cap.label(), "acs");
    assert_eq!(cap.extended_capability_id(), EXT_CAP_ID_ACS);
    assert_eq!(cap.capability_version(), 1);
    assert_eq!(cap.len(), 12);
    assert!(assert_extended_header_contract(&cap));

    let caps_ctl = cap.read_u32(ACS_CAPS_CONTROL);
    assert_eq!(caps_ctl as u16, DEFAULT_ACS_CAP_MASK);
    assert_eq!((caps_ctl >> 16) as u16, 0);
}

#[test]
fn test_acs_control_write_masks_unsupported_bits() {
    let mut cap = AcsExtendedCapability::new();

    cap.write_u32(ACS_CAPS_CONTROL, 0xffff_0000);
    let caps_ctl = cap.read_u32(ACS_CAPS_CONTROL);

    assert_eq!((caps_ctl >> 16) as u16, DEFAULT_ACS_CAP_MASK);
}

#[test]
fn test_acs_reset_clears_control() {
    let mut cap = AcsExtendedCapability::new();

    cap.write_u32(ACS_CAPS_CONTROL, 0xffff_0000);
    cap.reset();

    let caps_ctl = cap.read_u32(ACS_CAPS_CONTROL);
    assert_eq!((caps_ctl >> 16) as u16, 0);
}

#[test]
fn test_acs_save_restore() {
    let mut cap = AcsExtendedCapability::new();
    cap.write_u32(ACS_CAPS_CONTROL, 0xffff_0000);

    let saved = cap.save();

    cap.reset();
    assert_eq!((cap.read_u32(ACS_CAPS_CONTROL) >> 16) as u16, 0);

    cap.restore(saved);
    assert_eq!(
        (cap.read_u32(ACS_CAPS_CONTROL) >> 16) as u16,
        DEFAULT_ACS_CAP_MASK
    );
}

#[test]
fn acs_of_some_features() {
    let mut cap = AcsExtendedCapability::with_capabilities(0x0005);
    assert_eq!(cap.read_u32(ACS_CAPS_CONTROL), 0x0000_0005);
    cap.write_u32(ACS_CAPS_CONTROL, 0xffff_ffff);
    assert_eq!(cap.read_u32(ACS_CAPS_CONTROL), 0x0005_0005);
    cap.write_u32(ACS_EGRESS_CONTROL_VECTOR, 0xffff_ffff);
    assert_eq!(cap.read_u32(ACS_EGRESS_CONTROL_VECTOR), 0);
    assert_eq!(cap.read_u32(0), 0x0001_000d);
}

#[test]
fn acs_state_through_the_trait() {
    let mut cap = AcsExtendedCapability::new();
    cap.write_u32(ACS_CAPS_CONTROL, 0x0003_0000);
    let state = cap.save_state();
    cap.reset();
    assert!(cap.restore_state(state).is_ok());
    assert_eq!(cap.read_u32(ACS_CAPS_CONTROL) >> 16, 0x0003);
}
