use pci_model::capabilities::msi::MsiCapability;
use pci_model::capabilities::msi::MsiMessage;
use pci_model::capabilities::msi::MsiSavedState;
use pci_model::capabilities::PciCapability;
use pci_model::save_restore::RestoreError;

#[test]
fn msi_check() {
    let mut cap = MsiCapability::new(2, true, false); // 4 messages max, 64-bit, no masking

    // Check initial capabilities register
    // Capability ID (0x05) + MMC=2 (4 messages) + 64-bit capable
    assert_eq!(cap.read_u32(0), 0x00840005); // 0x05 (ID) | (0x84 << 16) where 0x84 = MMC=2(<<1) + 64bit(<<7)

    // Check initial address registers
    assert_eq!(cap.read_u32(4), 0); // Address low
    assert_eq!(cap.read_u32(8), 0); // Address high
    assert_eq!(cap.read_u32(12), 0); // Data

    // Write address and data
    cap.write_u32(4, 0x12345678);
    cap.write_u32(8, 0x9abcdef0);
    cap.write_u32(12, 0x1234);

    assert_eq!(cap.read_u32(4), 0x12345678);
    assert_eq!(cap.read_u32(8), 0x9abcdef0);
    assert_eq!(cap.read_u32(12), 0x1234);

    // Enable MSI with 2 messages (MME=1)
    cap.write_u32(0, 0x00110005); // Enable + MME=1 (bits 0 and 4-6)
    assert_eq!(cap.read_u32(0), 0x00950005); // Should show enabled with all capability bits

    // Test reset
    cap.reset();
    assert_eq!(cap.read_u32(0), 0x00840005); // Back to disabled
    assert_eq!(cap.read_u32(4), 0);
    assert_eq!(cap.read_u32(8), 0);
    assert_eq!(cap.read_u32(12), 0);
}

#[test]
fn msi_32bit_check() {
    let mut cap = MsiCapability::new(1, false, false); // 2 messages max, 32-bit, no masking

    // Check initial capabilities register (no 64-bit bit set)
    assert_eq!(cap.read_u32(0), 0x00020005); // MMC=1 (2 messages) + Capability ID

    // For 32-bit, data is at offset 8, not 12
    cap.write_u32(4, 0x12345678); // Address
    cap.write_u32(8, 0x1234);     // Data

    assert_eq!(cap.read_u32(4), 0x12345678);
    assert_eq!(cap.read_u32(8), 0x1234);
}

#[test]
fn an_enabled_capability_is_armed() {
    let mut cap = MsiCapability::new(0, true, true);
    assert_eq!(cap.label(), "msi");
    assert_eq!(cap.len(), 24);
    cap.write_u32(4, 0xfee0_0000);
    cap.write_u32(8, 0x1);
    cap.write_u32(12, 0x41);
    assert_eq!(cap.interrupt(), None);
    cap.write_u32(0, 0x0001_0000);
    assert_eq!(
        cap.interrupt(),
        Some(MsiMessage {
            address: 0x1_fee0_0000,
            data: 0x41,
        })
    );
    cap.write_u32(0, 0);
    assert_eq!(cap.interrupt(), None);
}

#[test]
fn the_state_of_an_msi_capability() {
    let mut cap = MsiCapability::new(2, true, false);
    cap.write_u32(4, 0xfee0_0000);
    cap.write_u32(12, 0x41);
    cap.write_u32(0, 0x0011_0000);
    let state = cap.save_state();
    cap.reset();
    assert!(cap.restore_state(state).is_ok());
    assert_eq!(cap.read_u32(0), 0x00950005);
    assert_eq!(cap.interrupt().map(|m| m.data), Some(0x41));
}

#[test]
fn a_state_with_too_many_messages_is_refused() {
    let mut cap = MsiCapability::new(2, true, false);
    let state = MsiSavedState {
        enabled: true,
        multiple_message_enable: 6,
        address: 0,
        data: 0,
        mask_bits: 0,
        pending_bits: 0,
    };
    assert!(matches!(
        cap.restore_state(state),
        Err(RestoreError::InvalidMultipleMessageEnable(6))
    ));
}
