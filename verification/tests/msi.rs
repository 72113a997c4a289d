use pci_model::bus_range::AssignedBusRange;
use pci_model::capabilities::kinds::Capability;
use pci_model::capabilities::kinds::ExtendedCapability;
use pci_model::cfg_space::type1::ConfigSpaceType1Emulator;
use pci_model::cfg_space::HardwareIds;
use pci_model::its::ItsIrqFd;
use pci_model::its::ItsSignalMsi;
use pci_model::msi::DisconnectedMsiTarget;
use pci_model::msi::MsiConnection;
use pci_model::msi::MsiTarget;
use pci_model::msi::RouteCommand;
use pci_model::msi::SignalMsi;

/// Records the messages that it gets.
struct RecordingSignalMsi {
    calls: Vec<(Option<u32>, u64, u32)>,
}

impl RecordingSignalMsi {
    fn new() -> Self {
        Self { calls: Vec::new() }
    }
}

impl SignalMsi for RecordingSignalMsi {
    fn after(self, _: Option<u32>, _: u64, _: u32) -> Self {
        unreachable!()
    }

    fn signal_msi(&mut self, devid: Option<u32>, address: u64, data: u32) {
        self.calls.push((devid, address, data));
    }
}

fn ids() -> HardwareIds {
    HardwareIds {
        vendor_id: 0x1414,
        device_id: 1,
        revision_id: 0,
        prog_if: 0,
        sub_class: 4,
        base_class: 6,
        type0_sub_vendor_id: 0,
        type0_sub_system_id: 0,
    }
}

fn range(secondary: u8, subordinate: u8) -> AssignedBusRange {
    let mut bus_range = AssignedBusRange::new();
    bus_range.set_bus_range(secondary, subordinate);
    bus_range
}

fn connected(devfn: u8) -> MsiConnection<RecordingSignalMsi> {
    let mut msi_conn = MsiConnection::new(devfn);
    msi_conn.connect(RecordingSignalMsi::new());
    msi_conn
}

fn pop(msi_conn: &mut MsiConnection<RecordingSignalMsi>) -> Option<(Option<u32>, u64, u32)> {
    msi_conn.backend.as_mut().unwrap().calls.pop()
}

#[test]
fn signal_msi_resolves_default_bdf() {
    let bus_range = range(5, 10);
    let mut msi_conn = connected(0x18); // devfn = dev 3, fn 0

    let target = msi_conn.target();
    msi_conn.signal_msi(&bus_range, &target, 0xFEE0_0000, 42);

    let (devid, addr, data) = pop(&mut msi_conn).unwrap();
    assert_eq!(devid, Some((5 << 8) | 0x18));
    assert_eq!(addr, 0xFEE0_0000);
    assert_eq!(data, 42);
}

#[test]
fn signal_msi_with_rid_accepts_bus_in_range() {
    let bus_range = range(5, 10);
    let mut msi_conn = connected(0);

    // RID with bus=7, devfn=0x0A, within [5, 10]
    let rid: u16 = (7 << 8) | 0x0A;
    let target = msi_conn.target();
    msi_conn.signal_msi_with_rid(&bus_range, &target, rid, 0xABCD, 99);

    let (devid, addr, data) = pop(&mut msi_conn).unwrap();
    assert_eq!(devid, Some(rid as u32));
    assert_eq!(addr, 0xABCD);
    assert_eq!(data, 99);
}

#[test]
fn signal_msi_with_rid_drops_bus_outside_range() {
    let bus_range = range(5, 10);
    let mut msi_conn = connected(0);
    let target = msi_conn.target();

    // bus=11, above subordinate=10
    let rid_above: u16 = 11 << 8;
    msi_conn.signal_msi_with_rid(&bus_range, &target, rid_above, 0xABCD, 1);
    assert!(pop(&mut msi_conn).is_none());

    // bus=4, below secondary=5
    let rid_below: u16 = 4 << 8;
    msi_conn.signal_msi_with_rid(&bus_range, &target, rid_below, 0xABCD, 2);
    assert!(pop(&mut msi_conn).is_none());
}

#[test]
fn signal_msi_with_rid_accepts_boundary_buses() {
    let bus_range = range(5, 10);
    let mut msi_conn = connected(0);
    let target = msi_conn.target();

    // Exactly at secondary bus (5)
    msi_conn.signal_msi_with_rid(&bus_range, &target, 5 << 8, 0x1000, 10);
    assert!(pop(&mut msi_conn).is_some());

    // Exactly at subordinate bus (10)
    msi_conn.signal_msi_with_rid(&bus_range, &target, 10 << 8, 0x2000, 20);
    assert!(pop(&mut msi_conn).is_some());
}

#[test]
fn route_enable_resolves_default_bdf() {
    let bus_range = range(3, 8);
    let mut msi_conn: MsiConnection<DisconnectedMsiTarget> = MsiConnection::new(0x10); // devfn = dev 2, fn 0
    msi_conn.connect_irqfd();

    let route = msi_conn.new_route(&msi_conn.target()).unwrap();
    let log = vec![route.enable(&bus_range, 0xFEE0_0000, 55)];

    assert_eq!(log.len(), 1);
    assert_eq!(
        log[0],
        RouteCommand::Enable {
            address: 0xFEE0_0000,
            data: 55,
            devid: Some((3 << 8) | 0x10),
        }
    );
}

#[test]
fn route_enable_with_rid_accepts_bus_in_range() {
    let bus_range = range(5, 10);
    let mut msi_conn: MsiConnection<DisconnectedMsiTarget> = MsiConnection::new(0);
    msi_conn.connect_irqfd();

    let route = msi_conn.new_route(&msi_conn.target()).unwrap();
    let rid: u16 = (7 << 8) | 0x0A;
    let log = vec![route.enable_with_rid(&bus_range, rid, 0xBEEF, 77)];

    assert_eq!(log.len(), 1);
    assert_eq!(
        log[0],
        RouteCommand::Enable {
            address: 0xBEEF,
            data: 77,
            devid: Some(rid as u32),
        }
    );
}

#[test]
fn route_enable_with_rid_disables_when_bus_outside_range() {
    let bus_range = range(5, 10);
    let mut msi_conn: MsiConnection<DisconnectedMsiTarget> = MsiConnection::new(0);
    msi_conn.connect_irqfd();

    let route = msi_conn.new_route(&msi_conn.target()).unwrap();
    // bus=11, above subordinate
    let rid: u16 = 11 << 8;
    let log = vec![route.enable_with_rid(&bus_range, rid, 0xBEEF, 77)];

    assert_eq!(log.len(), 1);
    assert_eq!(log[0], RouteCommand::Disable);
}

#[test]
fn with_devfn_derives_target_with_new_devfn() {
    let bus_range = range(2, 5);
    let mut msi_conn = connected(0);

    let derived = msi_conn.target().with_devfn(0x18); // dev 3, fn 0
    msi_conn.signal_msi(&bus_range, &derived, 0x1000, 1);

    let (devid, _, _) = pop(&mut msi_conn).unwrap();
    assert_eq!(devid, Some((2 << 8) | 0x18));
}

#[test]
fn with_bus_range_derives_target_with_new_range() {
    let parent_range = range(1, 20);
    let mut msi_conn = connected(0);

    let child_range = range(10, 15);
    let derived = msi_conn.target().with_bus_range(0x08);
    msi_conn.signal_msi(&child_range, &derived, 0x2000, 2);

    let (devid, _, _) = pop(&mut msi_conn).unwrap();
    // secondary=10, devfn=0x08
    assert_eq!(devid, Some((10 << 8) | 0x08));

    // The range of the child counts, not that of the parent.
    assert!(parent_range.contains_bus(16));
    msi_conn.signal_msi_with_rid(&child_range, &derived, 16 << 8, 0x3000, 3);
    assert!(pop(&mut msi_conn).is_none()); // bus 16 > subordinate 15
}

#[test]
fn nothing_is_delivered_without_a_connection() {
    let bus_range = range(5, 10);
    let mut msi_conn: MsiConnection<RecordingSignalMsi> = MsiConnection::new(0);
    let target = msi_conn.target();
    msi_conn.signal_msi(&bus_range, &target, 0x1000, 1);
    assert!(msi_conn.backend.is_none());
    assert!(!msi_conn.supports_direct_msi());
    assert!(msi_conn.new_route(&target).is_none());
    assert_eq!(MsiTarget::disconnected().default_bdf(&AssignedBusRange::new()), 0);
}

#[test]
fn a_target_follows_the_bus_range() {
    let mut bus_range = AssignedBusRange::new();
    let mut msi_conn = connected(0x08);
    msi_conn.connect_irqfd();
    let target = msi_conn.target();
    let route = msi_conn.new_route(&target).unwrap();
    assert_eq!(target.default_bdf(&bus_range), 0x08);
    bus_range.set_bus_range(9, 9);
    msi_conn.signal_msi(&bus_range, &target, 0x1000, 1);
    assert_eq!(pop(&mut msi_conn).unwrap().0, Some((9 << 8) | 0x08));
    assert_eq!(
        route.enable(&bus_range, 0x1000, 1),
        RouteCommand::Enable {
            address: 0x1000,
            data: 1,
            devid: Some((9 << 8) | 0x08),
        }
    );
}

#[test]
fn an_identity_follows_the_registers_of_the_port() {
    let mut bridge: ConfigSpaceType1Emulator<Capability, ExtendedCapability> =
        ConfigSpaceType1Emulator::new(ids(), vec![], vec![]);
    let mut msi_conn = connected(0x08);
    // The identity is there before a bus is assigned.
    let target = msi_conn.target();
    assert_eq!(bridge.bus_range().compose_its_devid(1, None), None);
    for (secondary, subordinate) in [(3u32, 4u32), (7, 9)] {
        bridge
            .write_u32(0x18, (subordinate << 16) | (secondary << 8))
            .unwrap();
        msi_conn.signal_msi(bridge.bus_range(), &target, 0x1000, 1);
        assert_eq!(pop(&mut msi_conn).unwrap().0, Some((secondary << 8) | 0x08));
        let mut its = ItsSignalMsi::new(RecordingSignalMsi::new(), bridge.bus_range(), 1);
        its.signal_msi(None, 0x1000, 1);
        assert_eq!(its.inner.calls[0].0, Some(0x1_0000 | (secondary << 8)));
    }
    bridge.reset();
    assert_eq!(bridge.bus_range().bus_range(), (0, 0));
    assert_eq!(bridge.bus_range().compose_its_devid(1, None), None);
}

#[test]
fn its_identifiers() {
    let bus_range = range(5, 10);
    let mut its = ItsSignalMsi::new(RecordingSignalMsi::new(), &bus_range, 2);
    // Function 0 of the secondary bus, by default.
    its.signal_msi(None, 0x1000, 1);
    assert_eq!(its.inner.calls.pop(), Some((Some(0x2_0500), 0x1000, 1)));
    its.signal_msi(Some(0x0708), 0x1000, 2);
    assert_eq!(its.inner.calls.pop(), Some((Some(0x2_0708), 0x1000, 2)));
    its.signal_msi(Some(0x0b00), 0x1000, 3);
    assert_eq!(its.inner.calls.pop(), None);
    let zeros = AssignedBusRange::new();
    let mut unassigned = ItsSignalMsi::new(RecordingSignalMsi::new(), &zeros, 2);
    unassigned.signal_msi(None, 0x1000, 1);
    assert!(unassigned.inner.calls.is_empty());
}

#[test]
fn its_routes() {
    let bus_range = range(5, 10);
    let irqfd = ItsIrqFd::new(1);
    let enable = |devid| RouteCommand::Enable {
        address: 0x1000,
        data: 7,
        devid,
    };
    assert_eq!(irqfd.route(&bus_range, enable(Some(0x0600))), Some(enable(Some(0x1_0600))));
    assert_eq!(irqfd.route(&bus_range, enable(None)), Some(enable(Some(0x1_0500))));
    assert_eq!(irqfd.route(&bus_range, enable(Some(0x0400))), None);
    assert_eq!(irqfd.route(&bus_range, RouteCommand::Disable), Some(RouteCommand::Disable));
}

#[test]
fn bus_ranges() {
    let mut bus_range = AssignedBusRange::default();
    assert_eq!(bus_range.bus_range(), (0, 0));
    bus_range.set_bus_range(5, 10);
    assert_eq!(bus_range.bus_range(), (5, 10));
    assert!(bus_range.contains_bus(10));
    assert!(!bus_range.contains_bus(11));
    assert_eq!(bus_range.compose_its_devid(1, Some(0x0600)), Some(0x1_0600));
    assert_eq!(bus_range.compose_its_devid(1, Some(0x0b00)), None);
}
