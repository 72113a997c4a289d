use pci_model::bus_range::AssignedBusRange;
use pci_model::dma::DmaPassthrough;
use pci_model::dma::DmaTarget;
use pci_model::dma::DmaTargetIommu;
use pci_model::msi::MsiConnection;
use pci_model::msi::SignalMsi;
use std::cell::RefCell;

/// Records the requester identifiers of messages.
struct RecordingSignalMsi {
    calls: Vec<Option<u32>>,
}

impl RecordingSignalMsi {
    fn new() -> Self {
        Self { calls: Vec::new() }
    }
}

impl SignalMsi for RecordingSignalMsi {
    fn after(self, _: Option<u32>, _: u64, _: u32) -> Self {
        unreachable!()
    }

    fn signal_msi(&mut self, devid: Option<u32>, _address: u64, _data: u32) {
        self.calls.push(devid);
    }
}

/// Guest memory: the number of an allocation.
type Memory = u32;

const IOMMU_MEMORY: Memory = 0x2000;

/// Records the offsets that memory is asked for.
struct RecordingIommu {
    rid_offset_calls: RefCell<Vec<u16>>,
}

impl RecordingIommu {
    fn new() -> Self {
        Self {
            rid_offset_calls: RefCell::new(Vec::new()),
        }
    }
}

impl<'a> DmaTargetIommu<Memory> for &'a RecordingIommu {
    fn memory(self, _: u16) -> Memory {
        unreachable!()
    }

    fn guest_memory_for_rid_offset(&self, rid_offset: u16) -> Memory {
        self.rid_offset_calls.borrow_mut().push(rid_offset);
        IOMMU_MEMORY + rid_offset as u32
    }
}

/// An opaque nesting context behind the handle of a nested IOMMU.
#[derive(Debug, PartialEq, Clone, Copy)]
struct FakeNestingContext {
    id: u32,
}

type Target<'a> = DmaTarget<Memory, &'a RecordingIommu, FakeNestingContext>;

fn range(secondary: u8, subordinate: u8) -> AssignedBusRange {
    let mut bus_range = AssignedBusRange::new();
    bus_range.set_bus_range(secondary, subordinate);
    bus_range
}

fn connection() -> MsiConnection<RecordingSignalMsi> {
    let mut msi_conn = MsiConnection::new(0);
    msi_conn.connect(RecordingSignalMsi::new());
    msi_conn
}

fn signal(
    msi_conn: &mut MsiConnection<RecordingSignalMsi>,
    bus_range: &AssignedBusRange,
    target: &Target<'_>,
) -> Option<u32> {
    msi_conn.signal_msi(bus_range, &target.msi_target(), 0xFEE0_0000, 0);
    msi_conn.backend.as_mut().unwrap().calls.pop().flatten()
}

#[test]
fn new_has_no_iommu() {
    let msi_conn = connection();
    let target: Target<'_> = DmaTarget::new(0, 0, &msi_conn);
    assert!(matches!(target.passthrough(), DmaPassthrough::Allowed));
    assert!(target.iommu.is_none());
}

#[test]
fn with_rid_offset_no_iommu_shares_memory_and_updates_msi() {
    let bus_range = range(5, 10);
    let mut msi_conn = connection();

    let gm: Memory = 0x1000;
    let target: Target<'_> = DmaTarget::new(0, gm, &msi_conn);

    let derived = target.with_rid_offset(0x18); // function 0x18 on the secondary bus

    // Without an IOMMU, the memory is shared.
    assert_eq!(target.guest_memory(), derived.guest_memory());

    // The MSI identity is derived from the offset: bus 5 (secondary) | offset.
    assert!(matches!(derived.passthrough(), DmaPassthrough::Allowed));
    assert_eq!(signal(&mut msi_conn, &bus_range, &derived).unwrap(), (5 << 8) | 0x18);
}

#[test]
fn with_rid_offset_stacks() {
    let bus_range = range(5, 10);
    let mut msi_conn = connection();

    let target: Target<'_> = DmaTarget::new(0, 0, &msi_conn);

    // Offsets accumulate: 0x10 and 0x08 lead to 0x18.
    let derived = target.with_rid_offset(0x10).with_rid_offset(0x08);
    assert_eq!(signal(&mut msi_conn, &bus_range, &derived).unwrap(), (5 << 8) | 0x18);
}

#[test]
fn with_rid_offset_iommu_derives_memory_and_msi_together() {
    let bus_range = range(5, 10);
    let mut msi_conn = connection();

    let iommu = RecordingIommu::new();
    let target: Target<'_> = DmaTarget::with_iommu(0, &iommu, &msi_conn);
    assert!(matches!(
        target.passthrough(),
        DmaPassthrough::SoftwareBlocked
    ));

    let derived = target.with_rid_offset(0x18);

    // The base target asked for offset 0 (devfn 0); deriving offset 0x18 asks for
    // that offset.
    assert_eq!(*iommu.rid_offset_calls.borrow(), vec![0, 0x18]);
    // The derived target uses the memory of the IOMMU.
    assert_eq!(*derived.guest_memory(), IOMMU_MEMORY + 0x18);
    assert!(matches!(
        derived.passthrough(),
        DmaPassthrough::SoftwareBlocked
    ));

    assert_eq!(signal(&mut msi_conn, &bus_range, &derived).unwrap(), (5 << 8) | 0x18);
}

#[test]
fn with_rid_offset_iommu_cross_bus() {
    let bus_range = range(5, 10);
    let mut msi_conn = connection();

    let iommu = RecordingIommu::new();
    let target: Target<'_> = DmaTarget::with_iommu(0, &iommu, &msi_conn);

    // Offset (2 << 8) | 0x0A is on bus 7 (secondary 5 + 2), devfn 0x0A.
    let offset: u16 = (2 << 8) | 0x0A;
    let derived = target.with_rid_offset(offset);

    // The base construction asked for offset 0 first, and the VF for its offset.
    assert_eq!(*iommu.rid_offset_calls.borrow(), vec![0, offset]);
    assert_eq!(*derived.guest_memory(), IOMMU_MEMORY + offset as u32);
    assert!(matches!(
        derived.passthrough(),
        DmaPassthrough::SoftwareBlocked
    ));

    assert_eq!(signal(&mut msi_conn, &bus_range, &derived).unwrap(), (7 << 8) | 0x0A);
}

#[test]
fn with_nestable_iommu_exposes_downcastable_handle() {
    let msi_conn = connection();

    let iommu = RecordingIommu::new();
    let target: Target<'_> = DmaTarget::with_nestable_iommu(
        0,
        &iommu,
        FakeNestingContext { id: 0x1234 },
        &msi_conn,
    );

    // The base target accepts passthrough and hands back the context.
    match target.passthrough() {
        DmaPassthrough::HardwareNestable(ctx) => {
            assert_eq!(ctx, FakeNestingContext { id: 0x1234 });
        }
        _ => panic!("expected HardwareNestable"),
    }

    // The handle survives the derivation of a VF.
    let derived = target.with_rid_offset(0x18);
    match derived.passthrough() {
        DmaPassthrough::HardwareNestable(ctx) => {
            assert_eq!(ctx.id, 0x1234);
        }
        _ => panic!("expected HardwareNestable on derived target"),
    }
}

#[test]
fn offsets_wrap_around() {
    let bus_range = range(5, 10);
    let mut msi_conn = connection();
    let target: Target<'_> = DmaTarget::new(1, 0, &msi_conn);
    let derived = target.with_rid_offset(0xffff);
    assert_eq!(derived.rid_offset, 0);
    assert_eq!(signal(&mut msi_conn, &bus_range, &derived), Some(5 << 8));
}
