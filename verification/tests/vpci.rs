//! Registers of a virtual PCI bus and accesses through them.
use pci_model::io::IoError;
use pci_model::vpci::chunks::chunk_offsets;
use pci_model::vpci::chunks::chunks_of;
use pci_model::vpci::chunks::read_bytes;
use pci_model::vpci::chunks::Chunk;
use pci_model::vpci::deferred::Completion;
use pci_model::vpci::deferred::TokenStatus;
use pci_model::vpci::tdisp::CommandTooLong;
use pci_model::vpci::tdisp::VpciTdispTransport;
use pci_model::vpci::CreateBusError;
use pci_model::vpci::NotPciDevice;
use pci_model::vpci::Register;
use pci_model::vpci::VpciBus;
use pci_model::vpci::VpciBusDevice;
use pci_model::vpci::VpciRead;
use pci_model::vpci::VpciWrite;

const BASE: u64 = 0x1000_0000;

fn bus() -> VpciBusDevice {
    let mut bus = VpciBusDevice::new(true, None).unwrap();
    bus.set_config_base(Some(BASE));
    bus
}

#[test]
fn only_pci_devices_get_a_bus() {
    assert!(matches!(VpciBusDevice::new(false, None), Err(NotPciDevice)));
    assert!(matches!(
        VpciBus::new(false, None, Ok(())),
        Err(CreateBusError::NotPci(NotPciDevice))
    ));
    match VpciBus::new(true, None, Err("no channel".to_string())) {
        Err(CreateBusError::Offer(e)) => assert_eq!(e, "no channel"),
        other => panic!("{:?}", other),
    }
    let bus = VpciBus::new(true, Some(1 << 40), Ok(())).unwrap().bus_device;
    assert_eq!(bus.current_slot, 0);
    assert_eq!(bus.config_base, None);
    assert_eq!(bus.vtom, Some(1 << 40));
}

#[test]
fn registers_are_found_by_page() {
    let b = bus();
    assert_eq!(b.register(BASE, 4), Ok(Register::SlotNumber));
    assert_eq!(b.register(BASE, 2), Err(IoError::InvalidAccessSize));
    assert_eq!(b.register(BASE + 4, 4), Err(IoError::InvalidRegister));
    assert_eq!(b.register(BASE + 0x1000, 4), Ok(Register::ConfigSpace(0)));
    // An access ends before the page does.
    assert_eq!(b.register(BASE + 0x1ffb, 4), Ok(Register::ConfigSpace(0xffb)));
    assert_eq!(b.register(BASE + 0x1ffc, 4), Err(IoError::InvalidAccessSize));
    assert_eq!(b.register(BASE + 0x2000, 4), Err(IoError::InvalidRegister));
    assert_eq!(b.register(BASE - 4, 1), Err(IoError::InvalidRegister));
    let unmapped = VpciBusDevice::new(true, None).unwrap();
    assert_eq!(unmapped.register(BASE, 4), Err(IoError::InvalidRegister));
}

#[test]
fn optional_address_bit_is_ignored() {
    let mut b = VpciBusDevice::new(true, Some(1 << 46)).unwrap();
    b.set_config_base(Some(BASE));
    for addr in [BASE + 0x1004, (BASE + 0x1004) | 1 << 46] {
        match b.mmio_read(addr, 4) {
            Ok(VpciRead::Config { offset, offsets }) => {
                assert_eq!(offset, 4);
                assert_eq!(offsets, vec![4]);
            }
            other => panic!("{:?}", other),
        }
    }
}

#[test]
fn slot_number_is_written_and_not_read() {
    let mut b = bus();
    assert!(matches!(b.mmio_read(BASE, 4), Err(IoError::InvalidRegister)));
    assert!(matches!(b.mmio_write(BASE, &[1, 2, 3, 4]), Ok(VpciWrite::Done)));
    assert_eq!(b.current_slot, 0x0403_0201);
    // No device is there: reads give ones, writes do nothing.
    assert!(matches!(b.mmio_read(BASE + 0x1000, 4), Ok(VpciRead::AllOnes)));
    assert!(matches!(b.mmio_write(BASE + 0x1000, &[0; 4]), Ok(VpciWrite::Done)));
    assert!(matches!(b.mmio_write(BASE, &[0; 4]), Ok(VpciWrite::Done)));
    assert!(matches!(b.mmio_write(BASE + 0x1000, &[0; 4]), Ok(VpciWrite::Config { .. })));
}

#[test]
fn accesses_are_split_into_dwords() {
    assert_eq!(
        chunks_of(0x3e, 8),
        vec![
            Chunk { offset: 0x3c, first: 2, count: 2, start: 0 },
            Chunk { offset: 0x40, first: 0, count: 4, start: 2 },
            Chunk { offset: 0x44, first: 0, count: 2, start: 6 },
        ]
    );
    assert_eq!(chunk_offsets(0x3e, 8), vec![0x3c, 0x40, 0x44]);
    assert_eq!(chunks_of(0x3d, 2), vec![Chunk { offset: 0x3c, first: 1, count: 2, start: 0 }]);
    assert!(chunks_of(0x10, 0).is_empty());
}

#[test]
fn bytes_are_read_from_dwords() {
    assert_eq!(
        read_bytes(0x3e, 8, &vec![0x4433_2211, 0x8877_6655, 0xccbb_aa99]),
        vec![0x33, 0x44, 0x55, 0x66, 0x77, 0x88, 0x99, 0xaa]
    );
    assert_eq!(read_bytes(0x10, 4, &vec![0x4433_2211]), vec![0x11, 0x22, 0x33, 0x44]);
}

#[test]
fn partial_dwords_keep_their_other_bytes() {
    let data = [0xa1, 0xa2, 0xa3, 0xa4, 0xa5, 0xa6, 0xa7, 0xa8];
    let chunks = chunks_of(0x3e, 8);
    assert!(chunks[0].needs_read());
    assert!(!chunks[1].needs_read());
    assert!(chunks[2].needs_read());
    assert_eq!(chunks[0].value(&data, 0x4433_2211), 0xa2a1_2211);
    assert_eq!(chunks[1].value(&data, 0x4433_2211), 0xa6a5_a4a3);
    assert_eq!(chunks[2].value(&data, 0x4433_2211), 0x4433_a8a7);
}

#[test]
fn what_is_written_is_read_back() {
    let data = [9u8, 8, 7, 6, 5, 4, 3, 2, 1];
    let mut space = [0x1111_1111u32; 8];
    for c in chunks_of(5, data.len()) {
        let at = c.offset as usize / 4;
        space[at] = c.value(&data, space[at]);
    }
    let values: Vec<u32> =
        chunk_offsets(5, data.len()).iter().map(|o| space[*o as usize / 4]).collect();
    assert_eq!(read_bytes(5, data.len(), &values), data.to_vec());
    assert_eq!(space[1], 0x0708_0911);
    assert_eq!(space[3], 0x1111_0102);
}

#[test]
fn deferred_writes_wait_for_all_their_parts() {
    let mut b = bus();
    b.enqueue_deferred_write(vec![1, 2, 3], 100);
    b.enqueue_deferred_write(vec![4], 200);
    let over = b.poll_device(&vec![
        vec![TokenStatus::Ready, TokenStatus::Pending],
        vec![TokenStatus::Ready],
    ]);
    assert_eq!(over, vec![Completion { outer_token: 200, result: Ok(()) }]);
    assert_eq!(b.pending_writes.len(), 1);
    assert_eq!(b.pending_writes[0].inner_tokens, vec![2, 3]);
    assert_eq!(b.pending_writes[0].outer_token, 100);
    let over = b.poll_device(&vec![vec![TokenStatus::Ready, TokenStatus::Ready]]);
    assert_eq!(over, vec![Completion { outer_token: 100, result: Ok(()) }]);
    assert!(b.pending_writes.is_empty());
}

#[test]
fn failed_part_ends_a_deferred_write() {
    let mut b = bus();
    b.enqueue_deferred_write(vec![1, 2, 3], 100);
    let over = b.poll_device(&vec![vec![
        TokenStatus::Ready,
        TokenStatus::Failed(IoError::NoResponse),
        TokenStatus::Pending,
    ]]);
    assert_eq!(
        over,
        vec![Completion { outer_token: 100, result: Err(IoError::NoResponse) }]
    );
    assert!(b.pending_writes.is_empty());
}

#[test]
fn commands_are_packed_for_their_slot() {
    let t = VpciTdispTransport::new(0x5_0000_0102, 4);
    assert_eq!(t.bus_device_id(), 0x5_0000_0102);
    let p = t.send_command(vec![1, 2, 3, 4]).unwrap();
    assert_eq!(p.slot, 0x102);
    assert_eq!(p.data_length, 4);
    assert_eq!(p.data, vec![1, 2, 3, 4]);
    assert_eq!(
        t.send_command(vec![0; 5]).unwrap_err(),
        CommandTooLong { len: 5, max: 4 }
    );
}
