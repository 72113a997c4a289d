//! Byte-enabled writes, bytes of dwords, slots and port names.
use pci_model::bus_range::AssignedBusRange;
use pci_model::io::ByteEnabledDwordWrite;
use pci_model::pcie::bytes::get_byte;
use pci_model::pcie::bytes::set_bytes;
use pci_model::slots::Slots;

#[test]
fn enabled_bytes_are_new_and_the_others_stay() {
    let w = ByteEnabledDwordWrite {
        value: 0x1122_3344,
        byte0: true,
        byte1: false,
        byte2: false,
        byte3: true,
    };
    assert_eq!(w.merge(0xaabb_ccdd), 0x11bb_cc44);
    assert_eq!(w.merge_low(0xccdd), 0xcc44);
    assert_eq!(w.merge_high(0xaabb), 0x11bb);
    let all = ByteEnabledDwordWrite::with_all_bytes_enabled(0x1122_3344);
    assert_eq!(all.merge(0xaabb_ccdd), 0x1122_3344);
}

#[test]
fn bytes_of_dwords() {
    assert_eq!(get_byte(0x1122_3344, 0), 0x44);
    assert_eq!(get_byte(0x1122_3344, 3), 0x11);
    assert_eq!(set_bytes(0x1122_3344, 1, &[0xaa, 0xbb]), 0x11bb_aa44);
    assert_eq!(set_bytes(0x1122_3344, 4, &[]), 0x1122_3344);
}

#[test]
fn slots_hold_six_values() {
    let mut s = Slots::all(7u32);
    s.set(5, 9);
    s.set(0, 1);
    assert_eq!(s.to_vec(), vec![1, 7, 7, 7, 7, 9]);
    assert_eq!(s.get(5), 9);
    assert_eq!(Slots::from_array(&[1, 2, 3, 4, 5, 6]).get(3), 4);
}

#[test]
fn bus_range_is_inclusive() {
    let mut r = AssignedBusRange::default();
    assert_eq!(r.bus_range(), (0, 0));
    assert!(!r.contains_bus(1));
    r.set_bus_range(3, 5);
    assert_eq!(r.bus_range(), (3, 5));
    assert!(!r.contains_bus(2));
    assert!(r.contains_bus(3));
    assert!(r.contains_bus(5));
    assert!(!r.contains_bus(6));
}
