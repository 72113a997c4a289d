use pci_model::bars::BarMemoryKind;
use pci_model::capabilities::assert_extended_header_contract;
use pci_model::capabilities::sriov::SriovConfig;
use pci_model::capabilities::sriov::SriovExtendedCapability;
use pci_model::capabilities::sriov::SriovSavedState;
use pci_model::capabilities::sriov::VfBarConfig;
use pci_model::capabilities::sriov::SRIOV_CAP_LEN;
use pci_model::capabilities::sriov::SRIOV_CONTROL_VF_ENABLE;
use pci_model::capabilities::sriov::SRIOV_CONTROL_VF_MSE;
use pci_model::capabilities::PciExtendedCapability;
use pci_model::regs::EXT_CAP_ID_SRIOV;
use pci_model::regs::SRIOV_CONTROL_STATUS;
use pci_model::regs::SRIOV_INITIAL_TOTAL_VFS;
use pci_model::regs::SRIOV_NUM_VFS;
use pci_model::regs::SRIOV_SYSTEM_PAGE_SIZE;
use pci_model::regs::SRIOV_VF_BAR0;
use pci_model::regs::SRIOV_VF_DEVICE_ID;
use pci_model::regs::SRIOV_VF_OFFSET_STRIDE;
use pci_model::save_restore::RestoreError;

fn test_config() -> SriovConfig {
    let mut vf_bars = [None; 6];
    vf_bars[0] = Some(VfBarConfig {
        size: 16384, // 16 KiB
        is_64bit: true,
        prefetchable: true,
    });
    // BAR 1 consumed by 64-bit BAR 0.
    SriovConfig {
        total_vfs: 4,
        vf_device_id: 0x1234,
        first_vf_offset: 1,
        vf_stride: 1,
        vf_bars,
    }
}

fn new_test_cap(config: SriovConfig) -> SriovExtendedCapability {
    let mut vf_bars = [None; 6];
    for bar_idx in 0..6 {
        if config.vf_bars[bar_idx].is_some() {
            vf_bars[bar_idx] = Some(BarMemoryKind::Dummy);
        }
    }
    SriovExtendedCapability::new(config, vf_bars)
}

#[test]
fn test_sriov_defaults() {
    let cap = new_test_cap(test_config());

    assert_eq!(cap.label(), "sriov");
    assert_eq!(cap.extended_capability_id(), EXT_CAP_ID_SRIOV);
    assert_eq!(cap.capability_version(), 1);
    assert_eq!(cap.len(), SRIOV_CAP_LEN);
    assert!(assert_extended_header_contract(&cap));
}

#[test]
fn test_sriov_read_initial_total_vfs() {
    let cap = new_test_cap(test_config());
    let val = cap.read_u32(SRIOV_INITIAL_TOTAL_VFS);
    assert_eq!(val as u16, 4); // InitialVFs
    assert_eq!((val >> 16) as u16, 4); // TotalVFs
}

#[test]
fn test_sriov_read_vf_device_id() {
    let cap = new_test_cap(test_config());
    let val = cap.read_u32(SRIOV_VF_DEVICE_ID);
    assert_eq!((val >> 16) as u16, 0x1234);
}

#[test]
fn test_sriov_read_offset_stride() {
    let cap = new_test_cap(test_config());
    let val = cap.read_u32(SRIOV_VF_OFFSET_STRIDE);
    assert_eq!(val as u16, 1); // first_vf_offset
    assert_eq!((val >> 16) as u16, 1); // vf_stride
}

#[test]
fn test_sriov_numvfs_write() {
    let mut cap = new_test_cap(test_config());

    // Write NumVFs = 3.
    cap.write_u32(SRIOV_NUM_VFS, 3);
    let val = cap.read_u32(SRIOV_NUM_VFS);
    assert_eq!(val as u16, 3);
}

#[test]
fn test_sriov_numvfs_clamped_to_total() {
    let mut cap = new_test_cap(test_config());

    // Write NumVFs = 100 (exceeds total_vfs=4).
    cap.write_u32(SRIOV_NUM_VFS, 100);
    let val = cap.read_u32(SRIOV_NUM_VFS);
    assert_eq!(val as u16, 4); // Clamped to total_vfs.
}

#[test]
fn test_sriov_numvfs_readonly_when_enabled() {
    let mut cap = new_test_cap(test_config());

    // Set NumVFs first.
    cap.write_u32(SRIOV_NUM_VFS, 2);
    // Enable VFs.
    cap.write_u32(
        SRIOV_CONTROL_STATUS,
        SRIOV_CONTROL_VF_ENABLE as u32,
    );
    // Try to change NumVFs — should be ignored.
    cap.write_u32(SRIOV_NUM_VFS, 4);
    let val = cap.read_u32(SRIOV_NUM_VFS);
    assert_eq!(val as u16, 2); // Unchanged.
}

#[test]
fn test_sriov_vf_enable_pending() {
    let mut cap = new_test_cap(test_config());

    cap.write_u32(SRIOV_NUM_VFS, 2);
    cap.write_u32(
        SRIOV_CONTROL_STATUS,
        SRIOV_CONTROL_VF_ENABLE as u32,
    );
    let change = cap
        .decode
        .take_pending_vf_change()
        .expect("should have pending change");
    assert!(change.enabled);
    assert_eq!(change.num_vfs, 2);

    cap.write_u32(SRIOV_CONTROL_STATUS, 0);
    let change = cap
        .decode
        .take_pending_vf_change()
        .expect("should have pending change");
    assert!(!change.enabled);
}

#[test]
fn test_sriov_vf_bar_probe() {
    let mut cap = new_test_cap(test_config());

    // Write all 1s to VF BAR0 to probe size.
    cap.write_vf_bar(0, 0xFFFF_FFFF);
    let val = cap.read_vf_bar(0);
    // BAR0 is 16 KiB (0x4000), so size mask is 0xFFFF_C000.
    // Plus type bits: 64-bit (0b100) | prefetchable (0b1000) = 0xC.
    assert_eq!(val, 0xFFFF_C00C);
}

#[test]
fn test_sriov_system_page_size() {
    let mut cap = new_test_cap(test_config());

    // Default is 4K (bit 0).
    let val = cap.read_u32(SRIOV_SYSTEM_PAGE_SIZE);
    assert_eq!(val, 1);

    // Can't set unsupported page size.
    cap.write_u32(SRIOV_SYSTEM_PAGE_SIZE, 0x4);
    let val = cap.read_u32(SRIOV_SYSTEM_PAGE_SIZE);
    assert_eq!(val, 1); // Unchanged — 0x4 not in supported_page_sizes.

    // Can't set multiple bits.
    cap.write_u32(SRIOV_SYSTEM_PAGE_SIZE, 0x3);
    let val = cap.read_u32(SRIOV_SYSTEM_PAGE_SIZE);
    assert_eq!(val, 1); // Unchanged.
}

#[test]
fn test_sriov_reset_clears_state() {
    let mut cap = new_test_cap(test_config());

    cap.write_u32(SRIOV_NUM_VFS, 3);
    cap.write_u32(
        SRIOV_CONTROL_STATUS,
        SRIOV_CONTROL_VF_ENABLE as u32,
    );

    cap.reset();

    let ctl = cap.read_u32(SRIOV_CONTROL_STATUS);
    assert_eq!(ctl, 0);
    let num = cap.read_u32(SRIOV_NUM_VFS);
    assert_eq!(num as u16, 0);
}

#[test]
fn test_sriov_save_restore() {
    let mut cap = new_test_cap(test_config());

    cap.write_u32(SRIOV_NUM_VFS, 2);
    cap.write_u32(
        SRIOV_CONTROL_STATUS,
        (SRIOV_CONTROL_VF_ENABLE | SRIOV_CONTROL_VF_MSE) as u32,
    );

    let saved = cap.save_state();

    cap.reset();
    assert_eq!(
        cap.read_u32(SRIOV_CONTROL_STATUS),
        0
    );

    assert!(cap.restore_state(saved).is_ok());
    let ctl = cap.read_u32(SRIOV_CONTROL_STATUS);
    let control = ctl as u16;
    assert!(control & SRIOV_CONTROL_VF_ENABLE != 0);
    assert!(control & SRIOV_CONTROL_VF_MSE != 0);
    assert_eq!(cap.num_vfs(), 2);
}

#[test]
fn vf_memory_is_decoded_while_it_is_enabled() {
    let mut cap = new_test_cap(test_config());
    cap.write_u32(SRIOV_NUM_VFS, 3);
    cap.write_u32(SRIOV_VF_BAR0, 0xe000_0000);
    cap.write_u32(SRIOV_VF_BAR0 + 4, 0x1);
    assert_eq!(cap.decode.decode(0, 0x1_e000_0000), None);
    cap.write_u32(
        SRIOV_CONTROL_STATUS,
        (SRIOV_CONTROL_VF_ENABLE | SRIOV_CONTROL_VF_MSE) as u32,
    );
    assert!(cap.vf_enabled());
    assert_eq!(cap.vf_bar_size(0), 0x4000);
    assert_eq!(cap.vf_bar_address(2, 0), Some(0x1_e000_8000));
    assert_eq!(cap.vf_bar_address(0, 2), None);
    assert_eq!(cap.vf_mapping(0), Some(0x1_e000_0000));
    // The second VF is one BAR size further on.
    assert_eq!(cap.decode.decode(0, 0x1_e000_4010), Some((1, 0x10)));
    // Nothing is decoded below the first VF and beyond the last.
    let end = 0x1_e000_0000 + 0x4000 * cap.total_vfs as u64;
    assert_eq!(cap.decode.decode(0, 0x1_dfff_ffff), None);
    assert_eq!(
        cap.decode.decode(0, end - 1),
        Some((cap.total_vfs as usize - 1, 0x3fff))
    );
    assert_eq!(cap.decode.decode(0, end), None);
    assert_eq!(cap.decode.decode(0, u64::MAX), None);
}

#[test]
fn a_state_with_too_few_vf_bars_is_refused() {
    let mut cap = new_test_cap(test_config());
    let state = SriovSavedState {
        control: 0,
        status: 0,
        num_vfs: 0,
        system_page_size: 1,
        vf_bar_regs: vec![0; 5],
    };
    assert!(matches!(
        cap.restore_state(state),
        Err(RestoreError::InvalidVfBarCount(5))
    ));
}
