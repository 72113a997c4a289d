//! Assignment of addresses to trees that are given, and its parts.
use pci_model::resource::align::align_down;
use pci_model::resource::align::align_up;
use pci_model::resource::assign::assert_bar_in_aperture;
use pci_model::resource::assign::assign_addresses;
use pci_model::resource::assign::validate_assignments;
use pci_model::resource::device::is_mem64_bar;
use pci_model::resource::device::DiscoveredBar;
use pci_model::resource::device::DiscoveredDevice;
use pci_model::resource::device::DiscoveredSriov;
use pci_model::resource::enumerate::decode_header;
use pci_model::resource::feasible::can_assign;
use pci_model::resource::feasible::try_assign_addresses;
use pci_model::resource::gaps::allocate_from_gaps;
use pci_model::resource::gaps::build_gap_list;
use pci_model::resource::gaps::Region;
use pci_model::resource::params::AssignmentError;
use pci_model::resource::params::AssignmentParams;
use pci_model::resource::params::MmioAperture;
use pci_model::resource::probe::decode_narrow_bar;
use pci_model::resource::probe::decode_wide_bar;
use pci_model::resource::probe::max_vf_bus;
use pci_model::resource::probe::probe_bar_range;
use pci_model::resource::program::devfn;
use pci_model::resource::program::program_assignments;
use pci_model::resource::program::ConfigWrite;
use pci_model::resource::scan::reserve_buses;
use pci_model::resource::session::ConfigAccess;
use pci_model::resource::session::ConfigSession;
use pci_model::resource::walk::find_ext_cap;
use pci_model::resource::walk::find_pcie_cap;

const MB: u64 = 0x10_0000;

fn params(low: (u64, u64), high: Option<(u64, u64)>) -> AssignmentParams {
    AssignmentParams {
        start_bus: 0,
        end_bus: 255,
        low_mmio: Some(MmioAperture { base: low.0, len: low.1 }),
        high_mmio: high.map(|(base, len)| MmioAperture { base, len }),
        preserve_bars: true,
    }
}

fn usual() -> AssignmentParams {
    params((0x1000_0000, 0x1000_0000), Some((0x1_0000_0000, 0x1_0000_0000)))
}

fn bar(index: u8, size: u64, mem64: bool, pinned_address: Option<u64>) -> DiscoveredBar {
    DiscoveredBar {
        index,
        size,
        is_64bit: mem64,
        is_prefetchable: mem64,
        address: None,
        pinned_address,
    }
}

fn endpoint(device: u8, bars: Vec<DiscoveredBar>) -> DiscoveredDevice {
    DiscoveredDevice {
        bus: 0,
        device,
        function: 0,
        is_bridge: false,
        bars,
        children: vec![],
        secondary_bus: None,
        subordinate_bus: None,
        sriov: None,
        subtree_req: None,
    }
}

fn bridge(device: u8, children: Vec<DiscoveredDevice>) -> DiscoveredDevice {
    DiscoveredDevice {
        is_bridge: true,
        children,
        secondary_bus: Some(1),
        subordinate_bus: Some(1),
        ..endpoint(device, vec![])
    }
}

fn window(dev: &DiscoveredDevice) -> Option<(u64, u64)> {
    dev.subtree_req.as_ref().unwrap().memory_window
}

#[test]
fn addresses_and_windows_of_a_small_tree() {
    let mut devices = vec![
        endpoint(0, vec![bar(0, 0x1000, false, None)]),
        bridge(
            1,
            vec![
                endpoint(0, vec![bar(0, 0x2000, false, None), bar(2, 0x40_0000, true, None)]),
                endpoint(1, vec![bar(0, 0x1000, false, None)]),
            ],
        ),
    ];
    assert!(can_assign(&devices, &usual()));
    assert!(matches!(try_assign_addresses(&mut devices, &usual()), Some(Ok(()))));
    // The window has the larger alignment and comes first.
    assert_eq!(window(&devices[1]), Some((0x1000_0000, 0x100f_ffff)));
    assert_eq!(devices[1].children[0].bars[0].address, Some(0x1000_0000));
    assert_eq!(devices[1].children[1].bars[0].address, Some(0x1000_2000));
    assert_eq!(devices[0].bars[0].address, Some(0x1010_0000));
    assert_eq!(
        devices[1].subtree_req.as_ref().unwrap().prefetchable_window,
        Some((0x1_0000_0000, 0x1_003f_ffff))
    );
    assert_eq!(devices[1].children[0].bars[1].address, Some(0x1_0000_0000));
    assert!(validate_assignments(&devices, &usual()));
}

#[test]
fn exhausted_apertures_are_named() {
    let mut devices = vec![endpoint(0, vec![bar(0, 0x2000_0000, false, None)])];
    match assign_addresses(&mut devices, &usual()) {
        Err(AssignmentError::MmioExhaustion { required, available, aperture }) => {
            assert_eq!(required, 0x2000_0000);
            // The range can only start at the end of the aperture.
            assert_eq!(available, 0);
            assert_eq!(aperture, "low_mmio");
        }
        other => panic!("{:?}", other),
    }
    let mut devices = vec![endpoint(0, vec![bar(0, 0x2_0000_0000, true, None)])];
    match assign_addresses(&mut devices, &usual()) {
        Err(AssignmentError::MmioExhaustion { required, available, aperture }) => {
            assert_eq!(required, 0x2_0000_0000);
            assert_eq!(available, 0);
            assert_eq!(aperture, "high_mmio");
        }
        other => panic!("{:?}", other),
    }
    let mut devices = vec![endpoint(0, vec![bar(0, 0x1000, false, None)])];
    let none = AssignmentParams { low_mmio: None, ..usual() };
    assert!(matches!(
        assign_addresses(&mut devices, &none),
        Err(AssignmentError::MmioExhaustion { required: 0x1000, available: 0, .. })
    ));
}

#[test]
fn misaligned_pins_are_refused() {
    let mut devices = vec![endpoint(3, vec![bar(1, 0x2000, false, Some(0x1000_1000))])];
    match assign_addresses(&mut devices, &usual()) {
        Err(AssignmentError::PinnedBarMisaligned {
            bus,
            device,
            function,
            bar_index,
            address,
            required_alignment,
        }) => {
            assert_eq!((bus, device, function, bar_index), (0, 3, 0, 1));
            assert_eq!(address, 0x1000_1000);
            assert_eq!(required_alignment, 0x2000);
        }
        other => panic!("{:?}", other),
    }
}

#[test]
fn overlapping_pins_are_refused() {
    let mut devices = vec![
        endpoint(0, vec![bar(0, 0x2000, false, Some(0x1000_2000))]),
        endpoint(1, vec![bar(0, 0x1000, false, Some(0x1000_3000))]),
    ];
    match assign_addresses(&mut devices, &usual()) {
        Err(AssignmentError::PinnedBarOverlap {
            first_address,
            first_end,
            second_address,
            second_end,
        }) => {
            assert_eq!((first_address, first_end), (0x1000_2000, 0x1000_4000));
            assert_eq!((second_address, second_end), (0x1000_3000, 0x1000_4000));
        }
        other => panic!("{:?}", other),
    }
}

#[test]
fn pins_outside_the_aperture_are_refused() {
    let mut devices = vec![endpoint(2, vec![bar(0, 0x1000, false, Some(0x2000_0000))])];
    match assign_addresses(&mut devices, &usual()) {
        Err(AssignmentError::PinnedBarOutOfAperture { device, address, size, aperture, .. }) => {
            assert_eq!((device, address, size), (2, 0x2000_0000, 0x1000));
            assert_eq!(aperture, "low_mmio");
        }
        other => panic!("{:?}", other),
    }
}

#[test]
fn pin_behind_a_bridge_fixes_its_window() {
    let mut devices = vec![
        endpoint(0, vec![bar(0, 0x1000, false, None)]),
        bridge(
            1,
            vec![
                endpoint(0, vec![bar(0, 0x1000, false, Some(0x1020_0000))]),
                endpoint(1, vec![bar(0, 0x1000, false, None)]),
            ],
        ),
    ];
    assert!(matches!(try_assign_addresses(&mut devices, &usual()), Some(Ok(()))));
    assert_eq!(window(&devices[1]), Some((0x1020_0000, 0x102f_ffff)));
    assert_eq!(devices[1].children[0].bars[0].address, Some(0x1020_0000));
    assert_eq!(devices[1].children[1].bars[0].address, Some(0x1020_1000));
}

#[test]
fn a_bar_is_placed_behind_pins_that_miss_its_alignment() {
    let mut devices = vec![endpoint(
        0,
        vec![
            bar(0, MB, false, Some(0x1010_0000)),
            bar(1, MB, false, Some(0x1040_0000)),
            bar(2, 4 * MB, false, None),
        ],
    )];
    let low_only = params((0x1000_0000, 0x1000_0000), None);
    assert!(matches!(try_assign_addresses(&mut devices, &low_only), Some(Ok(()))));
    let addresses: Vec<_> = devices[0].bars.iter().map(|b| b.address).collect();
    assert_eq!(addresses, vec![Some(0x1010_0000), Some(0x1040_0000), Some(0x1080_0000)]);

    // The same behind a bridge, whose window gets larger.
    let mut devices = vec![bridge(
        0,
        vec![
            endpoint(0, vec![bar(0, MB, false, Some(0x1010_0000))]),
            endpoint(1, vec![bar(0, MB, false, Some(0x1020_0000))]),
            endpoint(2, vec![bar(0, 2 * MB, false, None)]),
        ],
    )];
    assert!(matches!(try_assign_addresses(&mut devices, &usual()), Some(Ok(()))));
    assert_eq!(devices[0].children[2].bars[0].address, Some(0x1040_0000));
    assert_eq!(window(&devices[0]), Some((0x1010_0000, 0x105f_ffff)));

    // Where the aperture ends before that, there is no room.
    let mut devices = vec![
        endpoint(0, vec![bar(0, MB, false, Some(0x1010_0000))]),
        endpoint(1, vec![bar(0, MB, false, Some(0x1020_0000))]),
        endpoint(2, vec![bar(0, 2 * MB, false, None)]),
    ];
    assert!(matches!(
        try_assign_addresses(&mut devices, &params((0x1000_0000, 0x50_0000), None)),
        Some(Err(AssignmentError::MmioExhaustion {
            required: 0x50_0000,
            available: 0x40_0000,
            aperture: "low_mmio",
        }))
    ));
}

#[test]
fn windows_of_bridges_beside_each_other_lie_apart() {
    let leaf = |device| endpoint(device, vec![bar(0, 0x1000, false, None)]);
    let mut devices = vec![
        bridge(0, vec![bridge(0, vec![leaf(0)]), bridge(1, vec![leaf(0), leaf(1)])]),
        bridge(1, vec![leaf(0)]),
        bridge(2, vec![]),
    ];
    assert!(matches!(try_assign_addresses(&mut devices, &usual()), Some(Ok(()))));
    assert_eq!(window(&devices[0]), Some((0x1000_0000, 0x101f_ffff)));
    assert_eq!(window(&devices[0].children[0]), Some((0x1000_0000, 0x100f_ffff)));
    assert_eq!(window(&devices[0].children[1]), Some((0x1010_0000, 0x101f_ffff)));
    assert_eq!(window(&devices[1]), Some((0x1020_0000, 0x102f_ffff)));
    assert_eq!(window(&devices[2]), None);
}

#[test]
fn bridges_have_windows_only_where_they_are_needed() {
    let prefetchable =
        |dev: &DiscoveredDevice| dev.subtree_req.as_ref().unwrap().prefetchable_window;
    let mut devices = vec![
        bridge(0, vec![endpoint(0, vec![bar(0, 0x1000, false, None)])]),
        bridge(1, vec![endpoint(0, vec![bar(0, 0x1000, true, None)])]),
        bridge(2, vec![bridge(0, vec![endpoint(0, vec![])])]),
    ];
    assert!(matches!(try_assign_addresses(&mut devices, &usual()), Some(Ok(()))));
    assert_eq!(window(&devices[0]), Some((0x1000_0000, 0x100f_ffff)));
    assert_eq!(prefetchable(&devices[0]), None);
    assert_eq!(window(&devices[1]), None);
    assert_eq!(prefetchable(&devices[1]), Some((0x1_0000_0000, 0x1_000f_ffff)));
    for dev in [&devices[2], &devices[2].children[0]] {
        assert_eq!(window(dev), None);
        assert_eq!(prefetchable(dev), None);
    }
}

#[test]
fn pins_on_one_level_lie_apart() {
    let pinned = |device, at| endpoint(device, vec![bar(0, 0x1000, false, Some(at))]);
    let tree = |at| {
        vec![
            bridge(0, vec![pinned(0, 0x1000_2000), pinned(1, at), pinned(2, 0x1000_0000)]),
            endpoint(1, vec![bar(0, 0x10_0000, false, None)]),
        ]
    };
    let mut devices = tree(0x1000_1000);
    assert!(matches!(try_assign_addresses(&mut devices, &usual()), Some(Ok(()))));
    assert_eq!(window(&devices[0]), Some((0x1000_0000, 0x100f_ffff)));
    assert_eq!(devices[0].children[0].bars[0].address, Some(0x1000_2000));
    assert_eq!(devices[0].children[1].bars[0].address, Some(0x1000_1000));
    assert_eq!(devices[0].children[2].bars[0].address, Some(0x1000_0000));
    assert_eq!(devices[1].bars[0].address, Some(0x1010_0000));
    // Two pins at one address overlap.
    let mut devices = tree(0x1000_0000);
    assert!(matches!(
        try_assign_addresses(&mut devices, &usual()),
        Some(Err(AssignmentError::PinnedBarOverlap {
            first_address: 0x1000_0000,
            first_end: 0x1000_1000,
            second_address: 0x1000_0000,
            second_end: 0x1000_1000,
        }))
    ));
}

#[test]
fn pools_without_pins_share_the_low_aperture() {
    let low = params((0x1000_0000, 0x1000_0000), None);
    let mut devices = vec![
        endpoint(0, vec![bar(0, 0x1000, false, None)]),
        endpoint(1, vec![bar(0, 0x1000, true, None)]),
    ];
    assert!(matches!(try_assign_addresses(&mut devices, &low), Some(Ok(()))));
    let a = devices[0].bars[0].address.unwrap();
    let b = devices[1].bars[0].address.unwrap();
    assert!(a + 0x1000 <= b);
    assert_eq!(a, 0x1000_0000);
}

#[test]
fn ranges_of_any_number_of_bars_are_probed() {
    // Eight registers up to the end of the offsets, of which the last is a BAR.
    let mut s = ConfigSession::new(vec![0, 0, 0, 0, 0, 0, 0, 0xffff_f000]);
    let bars = probe_bar_range(&mut s, 0, 8, 0xffe0, 8, false).unwrap();
    assert_eq!(bars.len(), 1);
    assert_eq!(bars[0].index, 7);
    assert_eq!(bars[0].size, 0x1000);
    assert_eq!(
        s.log[s.log.len() - 1],
        ConfigAccess::Read { bus: 0, devfn: 8, offset: 0xfffc }
    );
    let mut s = ConfigSession::new(vec![]);
    assert!(probe_bar_range(&mut s, 0, 8, 0x10, 0, true).unwrap().is_empty());
}

#[test]
fn sizes_are_counted_from_zero_where_that_is_enough() {
    // One megabyte more than the BARs take, for the alignment of the second.
    let mut devices = vec![bridge(
        0,
        vec![
            endpoint(0, vec![bar(0, MB, false, Some(0x1010_0000))]),
            endpoint(1, vec![bar(0, 2 * MB, false, None)]),
        ],
    )];
    assert!(matches!(try_assign_addresses(&mut devices, &usual()), Some(Ok(()))));
    assert_eq!(devices[0].children[1].bars[0].address, Some(0x1020_0000));
    assert_eq!(window(&devices[0]), Some((0x1010_0000, 0x104f_ffff)));
}

#[test]
fn nothing_is_placed_below_the_aperture() {
    // The range of the pin starts at a megabyte, the aperture does not.
    let narrow = params((0x1000_8000, 0x1000_0000), None);
    let pin = || endpoint(0, vec![bar(0, 0x1000, false, Some(0x1001_0000))]);
    let mut devices = vec![pin(), endpoint(1, vec![bar(0, 0x1000, false, None)])];
    assert!(matches!(
        try_assign_addresses(&mut devices, &narrow),
        Some(Err(AssignmentError::PinnedRangeBelowAperture {
            range_base: 0x1000_0000,
            aperture_base: 0x1000_8000,
            aperture: "low_mmio",
        }))
    ));
    let mut devices = vec![pin()];
    assert!(matches!(try_assign_addresses(&mut devices, &narrow), Some(Ok(()))));
}

#[test]
fn trees_that_cannot_be_worked_out() {
    // A size that is no power of two.
    let mut odd = vec![endpoint(0, vec![bar(0, 0x3000, false, None)])];
    assert!(!can_assign(&odd, &usual()));
    assert!(try_assign_addresses(&mut odd, &usual()).is_none());
    assert_eq!(odd[0].bars[0].address, None);
    // Two BARs with one index.
    let twice = vec![endpoint(0, vec![bar(0, 0x1000, false, None), bar(0, 0x1000, false, None)])];
    assert!(!can_assign(&twice, &usual()));
    // Sizes beyond what can be counted.
    let huge = vec![
        endpoint(0, vec![bar(0, 1 << 63, true, None)]),
        endpoint(1, vec![bar(0, 1 << 63, true, None)]),
    ];
    assert!(!can_assign(&huge, &usual()));
    // An aperture beyond the end of the address space.
    let fine = vec![endpoint(0, vec![bar(0, 0x1000, false, None)])];
    assert!(can_assign(&fine, &usual()));
    assert!(!can_assign(&fine, &params((u64::MAX, 2), None)));
    // A device behind one that is no bridge.
    let mut behind = vec![endpoint(0, vec![])];
    behind[0].children.push(endpoint(0, vec![]));
    assert!(!can_assign(&behind, &usual()));
}

#[test]
fn vf_bars_are_counted_for_all_vfs() {
    let mut devices = vec![endpoint(0, vec![])];
    devices[0].sriov = Some(DiscoveredSriov {
        cap_offset: 0x160,
        total_vfs: 3,
        vf_bars: vec![bar(0, 0x1000, false, None)],
    });
    devices.push(endpoint(1, vec![bar(0, 0x1000, false, None)]));
    assert!(matches!(try_assign_addresses(&mut devices, &usual()), Some(Ok(()))));
    let vf = devices[0].sriov.as_ref().unwrap().vf_bars[0].address;
    assert_eq!(vf, Some(0x1000_0000));
    assert_eq!(devices[1].bars[0].address, Some(0x1000_3000));
    devices[0].sriov.as_mut().unwrap().total_vfs = 0;
    assert!(!can_assign(&devices, &usual()));
}

#[test]
fn assignments_outside_the_apertures_are_not_valid() {
    let mut devices = vec![endpoint(0, vec![bar(0, 0x1000, false, None)])];
    assert!(!validate_assignments(&devices, &usual()));
    devices[0].bars[0].address = Some(0x3000_0000);
    assert!(!validate_assignments(&devices, &usual()));
    devices[0].bars[0].address = Some(0x1fff_f000);
    assert!(validate_assignments(&devices, &usual()));
    assert!(assert_bar_in_aperture(0x1_0000_0000, 0x1000, &usual()));
    assert!(!assert_bar_in_aperture(0x1fff_f000, 0x2000, &usual()));
}

#[test]
fn programmed_registers() {
    let mut devices = vec![
        endpoint(2, vec![bar(0, 0x1000, true, None)]),
        bridge(3, vec![endpoint(0, vec![bar(1, 0x1000, false, None)])]),
        bridge(4, vec![]),
    ];
    devices[1].children[0].bus = 1;
    assert!(matches!(try_assign_addresses(&mut devices, &usual()), Some(Ok(()))));
    let w = |bus: u8, devfn: u8, offset: u16, value: u32| ConfigWrite { bus, devfn, offset, value };
    assert_eq!(
        program_assignments(&devices),
        vec![
            w(0, 0x10, 0x10, 0),
            w(0, 0x10, 0x14, 1),
            w(0, 0x18, 0x1c, 0xf0),
            w(0, 0x18, 0x20, 0x1000_1000),
            w(0, 0x18, 0x2c, 0),
            w(0, 0x18, 0x24, 0xfff0),
            w(0, 0x18, 0x28, 0xffff_ffff),
            w(1, 0, 0x14, 0x1000_0000),
            w(0, 0x20, 0x1c, 0xf0),
            w(0, 0x20, 0x20, 0xfff0),
            w(0, 0x20, 0x2c, 0),
            w(0, 0x20, 0x24, 0xfff0),
            w(0, 0x20, 0x28, 0xffff_ffff),
        ]
    );
    assert_eq!(devfn(3, 2), 0x1a);
}

#[test]
fn gaps_between_regions() {
    let regions = vec![
        Region { addr: 0x1000, size: 0x1000 },
        Region { addr: 0x4000, size: 0x1000 },
    ];
    let mut gaps = build_gap_list(0, 0x8000, &regions);
    assert_eq!(gaps, vec![(0, 0x1000), (0x2000, 0x4000), (0x5000, 0x8000)]);
    // The first gap that fits, at its first aligned address.
    assert_eq!(allocate_from_gaps(&mut gaps, 0x1000, 0x2000), Some(0));
    assert_eq!(gaps, vec![(0x2000, 0x4000), (0x5000, 0x8000)]);
    assert_eq!(allocate_from_gaps(&mut gaps, 0x2000, 0x2000), Some(0x2000));
    assert_eq!(allocate_from_gaps(&mut gaps, 0x1000, 0x2000), Some(0x6000));
    assert_eq!(gaps, vec![(0x5000, 0x6000), (0x7000, 0x8000)]);
    assert_eq!(allocate_from_gaps(&mut gaps, 0x2000, 0x1000), None);
    assert_eq!(gaps, vec![(0x5000, 0x6000), (0x7000, 0x8000)]);
}

#[test]
fn alignment() {
    assert_eq!(align_up(0x1001, 0x1000), 0x2000);
    assert_eq!(align_up(0x1000, 0x1000), 0x1000);
    assert_eq!(align_down(0x1fff, 0x1000), 0x1000);
    assert_eq!(align_down(0x1000, 0x1000), 0x1000);
}

#[test]
fn pools_of_bars() {
    let mut b = bar(0, 0x1000, true, None);
    assert!(is_mem64_bar(&b));
    b.is_prefetchable = false;
    assert!(!is_mem64_bar(&b));
}

#[test]
fn headers_and_size_masks() {
    assert_eq!(decode_header(0x0081_0000), (1, true));
    assert_eq!(decode_header(0x0000_0000), (0, false));
    let b = decode_narrow_bar(2, 0xffff_f008, 0x1234_5008, true).unwrap();
    assert_eq!((b.index, b.size, b.is_64bit, b.is_prefetchable), (2, 0x1000, false, true));
    assert_eq!(b.pinned_address, Some(0x1234_5000));
    assert_eq!(decode_narrow_bar(2, 0xffff_f000, 0x1234_5000, false).unwrap().pinned_address, None);
    assert!(decode_narrow_bar(2, 0x8, 0, false).is_none());
    let b = decode_wide_bar(0, 0x0000_000c, 0xffff_fffe, 0xc, 3, true).unwrap();
    assert_eq!((b.size, b.is_64bit), (0x2_0000_0000, true));
    assert_eq!(b.pinned_address, Some(0x3_0000_0000));
}

#[test]
fn buses_of_vfs() {
    assert_eq!(max_vf_bus(1, 0, 1, 1, 1), Some(1));
    assert_eq!(max_vf_bus(1, 0, 256, 1, 1), Some(2));
    assert_eq!(max_vf_bus(255, 0, 256, 1, 1), None);
    assert!(matches!(reserve_buses(1, 0, 0, 255, 1, 2), Ok(2)));
    assert!(matches!(reserve_buses(1, 0, 0, 255, 3, 2), Ok(4)));
    assert!(matches!(
        reserve_buses(1, 2, 3, 2, 3, 2),
        Err(AssignmentError::BusExhaustion { bus: 1, device: 2, function: 3 })
    ));
    assert!(matches!(
        reserve_buses(1, 2, 3, 255, 3, 5),
        Err(AssignmentError::SriovBusConflict {
            bus: 1,
            device: 2,
            function: 3,
            max_vf_bus: 3,
            next_bus: 5
        })
    ));
}

#[test]
fn capability_lists_are_followed() {
    let mut s = ConfigSession::new(vec![0x1401_0001, 0x0001_0010]);
    assert_eq!(find_ext_cap(&mut s, 0, 8, 0x0010), Some(Some(0x140)));
    assert_eq!(
        s.log,
        vec![
            ConfigAccess::Read { bus: 0, devfn: 8, offset: 0x100 },
            ConfigAccess::Read { bus: 0, devfn: 8, offset: 0x140 },
        ]
    );
    // A list that leads back ends.
    let mut s = ConfigSession::new(vec![0x1401_0001, 0x1001_0002]);
    assert_eq!(find_ext_cap(&mut s, 0, 8, 0x0010), Some(None));
    // No response yet.
    let mut s = ConfigSession::new(vec![0x1401_0001]);
    assert_eq!(find_ext_cap(&mut s, 0, 8, 0x0010), None);
    let mut s = ConfigSession::new(vec![]);
    assert_eq!(find_pcie_cap(&mut s, 0, 8), None);
}
