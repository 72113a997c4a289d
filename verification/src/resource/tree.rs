//! What holds of a whole device tree once its addresses are assigned.
use crate::resource::align::is_pow2;
use crate::resource::demand::demands_valid;
use crate::resource::demand::lemma_valid_align;
use crate::resource::demand::BRIDGE_WINDOW_ALIGN;
use crate::resource::demand::Demand;
use crate::resource::device::bar_mem64;
use crate::resource::device::device_ok;
use crate::resource::device::mem64_kind;
use crate::resource::device::tree_ok;
use crate::resource::device::DiscoveredDevice;
use crate::resource::fit::gaps_suit;
use crate::resource::fit::lemma_address;
use crate::resource::fit::lemma_child_suits;
use crate::resource::gaps::scan_cursor;
use crate::resource::geometry::apart;
use crate::resource::geometry::lemma_level_geometry;
use crate::resource::levels::demand_of;
use crate::resource::levels::lemma_sorted_cover;
use crate::resource::placement::address_of;
use crate::resource::placement::holds_address;
use crate::resource::placement::placed;
use crate::resource::placement::unneeded_unset;
use crate::resource::placement::window_gaps;
use crate::resource::placement::window_of;
use crate::resource::sizing::bar_demand;
use crate::resource::sizing::is_dynamic;
use crate::resource::sizing::lemma_cursor;
use crate::resource::sizing::lemma_level_demands;
use crate::resource::sizing::lemma_pool_model;
use crate::resource::sizing::lemma_pool_pins;
use crate::resource::sizing::lemma_sizing;
use crate::resource::sizing::lemma_sorted_valid;
use crate::resource::sizing::level_demands;
use crate::resource::sizing::pool_model;
use crate::resource::sizing::pool_pins;
use crate::resource::sizing::sizing;
use crate::resource::sizing::sizing_start;
use crate::resource::sizing::subtree_model;
use crate::resource::sizing::vf_bytes;
use crate::resource::sizing::vf_demand;
use crate::resource::sizing::window_demand;
use crate::resource::sizing::windows_fit;
use crate::resource::sizing::Sizing;
use vstd::prelude::*;

verus! {

/// Whether an address is set and its range lies between `lo` and `hi`.
pub open spec fn held(address: Option<u64>, size: int, lo: int, hi: int) -> bool {
    address matches Some(a) && lo <= a && a + size <= hi
}

/// Whether no BAR or VF BAR of a device tree is in the pool.
pub open spec fn unused(devices: Seq<DiscoveredDevice>, mem64: bool) -> bool
    decreases devices,
{
    forall|i: int|
        #![trigger devices[i]]
        0 <= i < devices.len() ==> {
            &&& forall|j: int|
                #![trigger devices[i].bars@[j]]
                0 <= j < devices[i].bars@.len() ==> bar_mem64(devices[i].bars@[j]) != mem64
            &&& devices[i].sriov is Some ==> forall|j: int|
                #![trigger devices[i].sriov->0.vf_bars@[j]]
                0 <= j < devices[i].sriov->0.vf_bars@.len() ==> mem64_kind(
                    devices[i].sriov->0.vf_bars@[j],
                ) != mem64
            &&& devices[i].is_bridge ==> unused(devices[i].children@, mem64)
        }
}

/// Whether every BAR, VF BAR and window of the pool has an address between
/// `lo` and `hi`, and whatever lies behind a bridge an address within its
/// window.
pub open spec fn within(
    devices: Seq<DiscoveredDevice>,
    mem64: bool,
    lo: int,
    hi: int,
) -> bool
    decreases devices,
{
    forall|i: int|
        #![trigger devices[i]]
        0 <= i < devices.len() ==> {
            &&& forall|j: int|
                #![trigger devices[i].bars@[j]]
                0 <= j < devices[i].bars@.len() && bar_mem64(devices[i].bars@[j]) == mem64 ==> held(
                    devices[i].bars@[j].address,
                    devices[i].bars@[j].size as int,
                    lo,
                    hi,
                )
            &&& devices[i].sriov is Some ==> forall|j: int|
                #![trigger devices[i].sriov->0.vf_bars@[j]]
                0 <= j < devices[i].sriov->0.vf_bars@.len() && mem64_kind(
                    devices[i].sriov->0.vf_bars@[j],
                ) == mem64 ==> held(
                    devices[i].sriov->0.vf_bars@[j].address,
                    vf_bytes(
                        devices[i].sriov->0.vf_bars@[j].size,
                        devices[i].sriov->0.total_vfs,
                    ),
                    lo,
                    hi,
                )
            &&& devices[i].is_bridge ==> match window_of(devices[i].subtree_req->0, mem64) {
                Some((base, limit)) => lo <= base <= limit < hi && within(
                    devices[i].children@,
                    mem64,
                    base as int,
                    limit + 1,
                ),
                None => unused(devices[i].children@, mem64),
            }
        }
}

proof fn lemma_sizing_positive(s: Sizing, demands: Seq<Demand>, mem64: bool, k: int)
    requires
        demands_valid(demands),
        s.gaps.len() == 0,
        s.mem >= 0,
        is_pow2(s.align),
        0 <= k < demands.len(),
        is_dynamic(demands[k], mem64),
    ensures
        sizing(s, demands, mem64).mem > 0,
    decreases demands.len(),
{
    let init = demands.drop_last();
    let n = demands.len() - 1;
    assert(demands_valid(init)) by {
        assert forall|i: int| 0 <= i < init.len() implies (#[trigger] init[i]).valid() by {
            assert(init[i] == demands[i]);
        }
    }
    lemma_sizing(s, init, mem64);
    lemma_sizing(s, demands, mem64);
    assert(demands.take(n) =~= init);
    if k < n {
        assert(init[k] == demands[k]);
        lemma_sizing_positive(s, init, mem64, k);
        assert(sizing(s, demands.take(n), mem64).mem <= sizing(s, demands, mem64).mem);
    } else {
        lemma_no_gaps(s, init, mem64);
        lemma_valid_align(demands[n]);
        assert(demands[n].valid());
        let s0 = sizing(s, init, mem64);
        crate::resource::align::lemma_aligned_up(s0.origin + s0.mem, demands[n].align());
        if crate::resource::gaps::place(s0.gaps, demands[n].bytes(), demands[n].align()) is Some {
            let i = crate::resource::gaps::first_fit(
                s0.gaps,
                demands[n].bytes(),
                demands[n].align(),
            )->0;
            assert(crate::resource::gaps::is_first_fit(
                s0.gaps,
                demands[n].bytes(),
                demands[n].align(),
                i,
            ));
        }
    }
}

proof fn lemma_no_gaps(s: Sizing, demands: Seq<Demand>, mem64: bool)
    requires
        s.gaps.len() == 0,
    ensures
        sizing(s, demands, mem64).gaps.len() == 0,
    decreases demands.len(),
{
    if demands.len() > 0 {
        lemma_no_gaps(s, demands.drop_last(), mem64);
        let s0 = sizing(s, demands.drop_last(), mem64);
        let d = demands.last();
        if crate::resource::gaps::first_fit(s0.gaps, d.bytes(), d.align()) is Some {
            let i = crate::resource::gaps::first_fit(s0.gaps, d.bytes(), d.align())->0;
            assert(crate::resource::gaps::is_first_fit(s0.gaps, d.bytes(), d.align(), i));
        }
    }
}

/// A pool with a demand needs some bytes.
pub proof fn lemma_pool_positive(demands: Seq<Demand>, mem64: bool, k: int)
    requires
        demands_valid(demands),
        0 <= k < demands.len(),
        demands[k].mem64() == mem64,
    ensures
        pool_model(demands, mem64).mem > 0,
{
    let pins = pool_pins(demands, mem64);
    let start = sizing_start(pins);
    lemma_pool_pins(demands, mem64);
    lemma_pool_model(demands, mem64);
    crate::resource::align::lemma_window_align_pow2();
    if pins.len() > 0 {
        let base = crate::resource::sizing::pool_base(pins)->0 as int;
        lemma_cursor(base, pins);
        assert(pins[0].addr + pins[0].size <= scan_cursor(base, pins));
        assert(start.mem > 0);
    } else {
        if demands[k].fixed() is Some {
            assert(pins.contains(demands[k].region()));
        }
        crate::resource::sizing::lemma_origin_unpinned(demands, mem64);
        lemma_sizing_positive(start, demands, mem64, k);
    }
}

/// A pool that needs no bytes is not used.
pub proof fn lemma_unused(devices: Seq<DiscoveredDevice>, mem64: bool)
    requires
        tree_ok(devices),
        windows_fit(devices),
        devices.len() <= usize::MAX,
        subtree_model(devices).pool(mem64).mem <= 0,
    ensures
        unused(devices, mem64),
    decreases devices,
{
    let m = subtree_model(devices);
    let demands = m.demands;
    lemma_sorted_cover(devices);
    lemma_level_demands(devices);
    lemma_sorted_valid(level_demands(devices));
    assert forall|k: int| 0 <= k < demands.len() implies (#[trigger] demands[k]).mem64()
        != mem64 by {
        if demands[k].mem64() == mem64 {
            lemma_pool_positive(demands, mem64, k);
        }
    }
    assert forall|i: int| #![trigger devices[i]] 0 <= i < devices.len() implies {
        &&& forall|j: int|
            #![trigger devices[i].bars@[j]]
            0 <= j < devices[i].bars@.len() ==> bar_mem64(devices[i].bars@[j]) != mem64
        &&& devices[i].sriov is Some ==> forall|j: int|
            #![trigger devices[i].sriov->0.vf_bars@[j]]
            0 <= j < devices[i].sriov->0.vf_bars@.len() ==> mem64_kind(
                devices[i].sriov->0.vf_bars@[j],
            ) != mem64
        &&& devices[i].is_bridge ==> unused(devices[i].children@, mem64)
    } by {
        assert forall|j: int|
            #![trigger devices[i].bars@[j]]
            0 <= j < devices[i].bars@.len() implies bar_mem64(devices[i].bars@[j]) != mem64 by {
            let d = bar_demand(devices[i].bars@[j], i);
            assert(demands.contains(d));
            let k = choose|k: int| 0 <= k < demands.len() && demands[k] == d;
            assert(demands[k].mem64() != mem64);
        }
        if devices[i].sriov is Some {
            assert forall|j: int|
                #![trigger devices[i].sriov->0.vf_bars@[j]]
                0 <= j < devices[i].sriov->0.vf_bars@.len() implies mem64_kind(
                devices[i].sriov->0.vf_bars@[j],
            ) != mem64 by {
                let d = vf_demand(
                    devices[i].sriov->0.vf_bars@[j],
                    devices[i].sriov->0.total_vfs,
                    i,
                );
                assert(demands.contains(d));
                let k = choose|k: int| 0 <= k < demands.len() && demands[k] == d;
                assert(demands[k].mem64() != mem64);
            }
        }
        if devices[i].is_bridge {
            let c = subtree_model(devices[i].children@);
            if c.pool(mem64).mem > 0 {
                let d = window_demand(c.pool(mem64), i, mem64)[0];
                assert(demands.contains(d));
                let k = choose|k: int| 0 <= k < demands.len() && demands[k] == d;
                assert(demands[k].mem64() != mem64);
            }
            assert(devices[i].children.len() <= usize::MAX);
            assert(device_ok(devices[i]) && tree_ok(devices[i].children@));
            lemma_unused(devices[i].children@, mem64);
        }
    }
}

/// The place in the sorted demands of a level that belongs to a BAR.
pub proof fn lemma_bar_place(
    devices: Seq<DiscoveredDevice>,
    mem64: bool,
    gaps: Seq<(u64, u64)>,
    i: int,
    j: int,
) -> (k: int)
    requires
        tree_ok(devices),
        devices.len() <= usize::MAX,
        placed(devices, mem64, gaps),
        0 <= i < devices.len(),
        0 <= j < devices[i].bars@.len(),
        bar_mem64(devices[i].bars@[j]) == mem64,
    ensures
        0 <= k < subtree_model(devices).demands.len(),
        subtree_model(devices).demands[k] == bar_demand(devices[i].bars@[j], i),
        address_of(gaps, subtree_model(devices).demands, mem64, k) matches Some(addr)
            && devices[i].bars@[j].address == Some(addr as u64),
{
    lemma_sorted_cover(devices);
    let demands = subtree_model(devices).demands;
    let d = bar_demand(devices[i].bars@[j], i);
    assert(demands.contains(d));
    let k = choose|k: int| 0 <= k < demands.len() && demands[k] == d;
    let addr = address_of(gaps, demands, mem64, k)->0;
    assert(holds_address(devices, demands[k], mem64, addr));
    k
}

/// The place in the sorted demands of a level that belongs to a VF BAR.
pub proof fn lemma_vf_place(
    devices: Seq<DiscoveredDevice>,
    mem64: bool,
    gaps: Seq<(u64, u64)>,
    i: int,
    j: int,
) -> (k: int)
    requires
        tree_ok(devices),
        devices.len() <= usize::MAX,
        placed(devices, mem64, gaps),
        0 <= i < devices.len(),
        devices[i].sriov is Some,
        0 <= j < devices[i].sriov->0.vf_bars@.len(),
        mem64_kind(devices[i].sriov->0.vf_bars@[j]) == mem64,
    ensures
        0 <= k < subtree_model(devices).demands.len(),
        subtree_model(devices).demands[k] == vf_demand(
            devices[i].sriov->0.vf_bars@[j],
            devices[i].sriov->0.total_vfs,
            i,
        ),
        address_of(gaps, subtree_model(devices).demands, mem64, k) matches Some(addr)
            && devices[i].sriov->0.vf_bars@[j].address == Some(addr as u64),
{
    lemma_sorted_cover(devices);
    let demands = subtree_model(devices).demands;
    let d = vf_demand(devices[i].sriov->0.vf_bars@[j], devices[i].sriov->0.total_vfs, i);
    assert(demands.contains(d));
    let k = choose|k: int| 0 <= k < demands.len() && demands[k] == d;
    let addr = address_of(gaps, demands, mem64, k)->0;
    assert(holds_address(devices, demands[k], mem64, addr));
    k
}

/// The place in the sorted demands of a level that belongs to a window.
pub proof fn lemma_window_place(
    devices: Seq<DiscoveredDevice>,
    mem64: bool,
    gaps: Seq<(u64, u64)>,
    i: int,
) -> (k: int)
    requires
        tree_ok(devices),
        windows_fit(devices),
        devices.len() <= usize::MAX,
        placed(devices, mem64, gaps),
        0 <= i < devices.len(),
        devices[i].is_bridge,
        subtree_model(devices[i].children@).pool(mem64).mem > 0,
    ensures
        0 <= k < subtree_model(devices).demands.len(),
        subtree_model(devices).demands[k] is BridgeSubtree,
        subtree_model(devices).demands[k].owner() == i,
        subtree_model(devices).demands[k].mem64() == mem64,
        ({
            let d = subtree_model(devices).demands[k];
            let kids = devices[i].children@;
            let addr = address_of(gaps, subtree_model(devices).demands, mem64, k)->0;
            &&& address_of(gaps, subtree_model(devices).demands, mem64, k) is Some
            &&& devices[i].subtree_req is Some
            &&& window_of(devices[i].subtree_req->0, mem64) == Some(
                (addr as u64, (addr + d.bytes() - 1) as u64),
            )
            &&& 0 <= addr
            &&& d.bytes() > 0
            &&& addr + d.bytes() <= u64::MAX
            &&& addr % (BRIDGE_WINDOW_ALIGN as int) == 0
            &&& d.bytes() % (BRIDGE_WINDOW_ALIGN as int) == 0
            &&& tree_ok(kids)
            &&& windows_fit(kids)
            &&& kids.len() <= usize::MAX
            &&& gaps_suit(
                kids,
                mem64,
                window_gaps(subtree_model(kids), mem64, addr, d.bytes()),
                addr,
                addr + d.bytes(),
            )
            &&& placed(kids, mem64, window_gaps(subtree_model(kids), mem64, addr, d.bytes()))
        }),
{
    lemma_sorted_cover(devices);
    let demands = subtree_model(devices).demands;
    let c = subtree_model(devices[i].children@);
    let d = window_demand(c.pool(mem64), i, mem64)[0];
    assert(demands.contains(d));
    let k = choose|k: int| 0 <= k < demands.len() && demands[k] == d;
    let addr = address_of(gaps, demands, mem64, k)->0;
    assert(holds_address(devices, demands[k], mem64, addr));
    lemma_child_suits(devices, mem64, gaps, k);
    k
}

/// Every address of a placed level has a value.
pub proof fn lemma_placed_some(
    devices: Seq<DiscoveredDevice>,
    mem64: bool,
    gaps: Seq<(u64, u64)>,
)
    requires
        placed(devices, mem64, gaps),
    ensures
        forall|k: int|
            #![trigger subtree_model(devices).demands[k]]
            0 <= k < subtree_model(devices).demands.len() && subtree_model(
                devices,
            ).demands[k].mem64() == mem64 ==> address_of(
                gaps,
                subtree_model(devices).demands,
                mem64,
                k,
            ) is Some,
{
}

/// What is placed lies within the range that its level has, and whatever is
/// behind a bridge within the bridge's window.
#[verifier::spinoff_prover]
#[verifier::rlimit(90)]
pub proof fn lemma_within(
    devices: Seq<DiscoveredDevice>,
    mem64: bool,
    gaps: Seq<(u64, u64)>,
    lo: int,
    hi: int,
    floor: int,
)
    requires
        tree_ok(devices),
        windows_fit(devices),
        devices.len() <= usize::MAX,
        placed(devices, mem64, gaps),
        unneeded_unset(devices, mem64),
        gaps_suit(devices, mem64, gaps, lo, hi),
        forall|k: int|
            #![trigger subtree_model(devices).demands[k]]
            0 <= k < subtree_model(devices).demands.len() && subtree_model(
                devices,
            ).demands[k].mem64() == mem64 ==> address_of(
                gaps,
                subtree_model(devices).demands,
                mem64,
                k,
            )->0 >= floor,
    ensures
        within(devices, mem64, floor, hi),
    decreases devices,
{
    let demands = subtree_model(devices).demands;
    lemma_placed_some(devices, mem64, gaps);
    lemma_level_geometry(devices, mem64, gaps, lo, hi);
    lemma_level_demands(devices);
    lemma_sorted_valid(level_demands(devices));
    assert forall|i: int| #![trigger devices[i]] 0 <= i < devices.len() implies {
        &&& forall|j: int|
            #![trigger devices[i].bars@[j]]
            0 <= j < devices[i].bars@.len() && bar_mem64(devices[i].bars@[j]) == mem64 ==> held(
                devices[i].bars@[j].address,
                devices[i].bars@[j].size as int,
                floor,
                hi,
            )
        &&& devices[i].sriov is Some ==> forall|j: int|
            #![trigger devices[i].sriov->0.vf_bars@[j]]
            0 <= j < devices[i].sriov->0.vf_bars@.len() && mem64_kind(
                devices[i].sriov->0.vf_bars@[j],
            ) == mem64 ==> held(
                devices[i].sriov->0.vf_bars@[j].address,
                vf_bytes(devices[i].sriov->0.vf_bars@[j].size, devices[i].sriov->0.total_vfs),
                floor,
                hi,
            )
        &&& devices[i].is_bridge ==> match window_of(devices[i].subtree_req->0, mem64) {
            Some((base, limit)) => floor <= base <= limit < hi && within(
                devices[i].children@,
                mem64,
                base as int,
                limit + 1,
            ),
            None => unused(devices[i].children@, mem64),
        }
    } by {
        assert forall|j: int|
            #![trigger devices[i].bars@[j]]
            0 <= j < devices[i].bars@.len() && bar_mem64(devices[i].bars@[j])
                == mem64 implies held(
            devices[i].bars@[j].address,
            devices[i].bars@[j].size as int,
            floor,
            hi,
        ) by {
            let k = lemma_bar_place(devices, mem64, gaps, i, j);
            assert(demands[k].mem64() == mem64);
            lemma_address(gaps, demands, mem64, k);
        }
        if devices[i].sriov is Some {
            assert forall|j: int|
                #![trigger devices[i].sriov->0.vf_bars@[j]]
                0 <= j < devices[i].sriov->0.vf_bars@.len() && mem64_kind(
                    devices[i].sriov->0.vf_bars@[j],
                ) == mem64 implies held(
                devices[i].sriov->0.vf_bars@[j].address,
                vf_bytes(devices[i].sriov->0.vf_bars@[j].size, devices[i].sriov->0.total_vfs),
                floor,
                hi,
            ) by {
                let k = lemma_vf_place(devices, mem64, gaps, i, j);
                assert(demands[k].mem64() == mem64);
                lemma_address(gaps, demands, mem64, k);
            }
        }
        if devices[i].is_bridge {
            let kids = devices[i].children@;
            assert(device_ok(devices[i]) && tree_ok(kids));
            assert(devices[i].children.len() <= usize::MAX);
            if subtree_model(kids).pool(mem64).mem > 0 {
                let k = lemma_window_place(devices, mem64, gaps, i);
                assert(demands[k].mem64() == mem64);
                let addr = address_of(gaps, demands, mem64, k)->0;
                let size = demands[k].bytes();
                let g = window_gaps(subtree_model(kids), mem64, addr, size);
                lemma_placed_some(kids, mem64, g);
                lemma_level_geometry(kids, mem64, g, addr, addr + size);
                lemma_within(kids, mem64, g, addr, addr + size, addr);
            } else {
                lemma_unused(kids, mem64);
            }
        }
    }
}

/// Whether every BAR and VF BAR of the pool has an address that is a multiple
/// of its size, and every window a base and an end that are multiples of the
/// bridge granularity.
pub open spec fn aligned(devices: Seq<DiscoveredDevice>, mem64: bool) -> bool
    decreases devices,
{
    forall|i: int|
        #![trigger devices[i]]
        0 <= i < devices.len() ==> {
            &&& forall|j: int|
                #![trigger devices[i].bars@[j]]
                0 <= j < devices[i].bars@.len() && bar_mem64(devices[i].bars@[j]) == mem64 ==> (
                devices[i].bars@[j].address matches Some(a) && a % devices[i].bars@[j].size == 0)
            &&& devices[i].sriov is Some ==> forall|j: int|
                #![trigger devices[i].sriov->0.vf_bars@[j]]
                0 <= j < devices[i].sriov->0.vf_bars@.len() && mem64_kind(
                    devices[i].sriov->0.vf_bars@[j],
                ) == mem64 ==> (devices[i].sriov->0.vf_bars@[j].address matches Some(a) && a
                    % devices[i].sriov->0.vf_bars@[j].size == 0)
            &&& devices[i].is_bridge ==> match window_of(devices[i].subtree_req->0, mem64) {
                Some((base, limit)) => {
                    &&& base % BRIDGE_WINDOW_ALIGN == 0
                    &&& (limit + 1) % (BRIDGE_WINDOW_ALIGN as int) == 0
                    &&& aligned(devices[i].children@, mem64)
                },
                None => unused(devices[i].children@, mem64),
            }
        }
}

/// Whether each pinned BAR, here and behind each bridge, is naturally aligned.
pub open spec fn pins_aligned(devices: Seq<DiscoveredDevice>) -> bool
    decreases devices,
{
    forall|i: int|
        #![trigger devices[i]]
        0 <= i < devices.len() ==> {
            &&& forall|j: int|
                #![trigger devices[i].bars@[j]]
                0 <= j < devices[i].bars@.len() ==> (devices[i].bars@[j].pinned_address matches Some(
                    a,
                ) ==> a % devices[i].bars@[j].size == 0)
            &&& pins_aligned(devices[i].children@)
        }
}

/// What is placed is naturally aligned.
pub proof fn lemma_aligned(
    devices: Seq<DiscoveredDevice>,
    mem64: bool,
    gaps: Seq<(u64, u64)>,
    lo: int,
    hi: int,
)
    requires
        tree_ok(devices),
        windows_fit(devices),
        devices.len() <= usize::MAX,
        placed(devices, mem64, gaps),
        unneeded_unset(devices, mem64),
        gaps_suit(devices, mem64, gaps, lo, hi),
        pins_aligned(devices),
    ensures
        aligned(devices, mem64),
    decreases devices,
{
    let demands = subtree_model(devices).demands;
    lemma_placed_some(devices, mem64, gaps);
    lemma_level_demands(devices);
    lemma_sorted_valid(level_demands(devices));
    assert forall|i: int| #![trigger devices[i]] 0 <= i < devices.len() implies {
        &&& forall|j: int|
            #![trigger devices[i].bars@[j]]
            0 <= j < devices[i].bars@.len() && bar_mem64(devices[i].bars@[j]) == mem64 ==> (
            devices[i].bars@[j].address matches Some(a) && a % devices[i].bars@[j].size == 0)
        &&& devices[i].sriov is Some ==> forall|j: int|
            #![trigger devices[i].sriov->0.vf_bars@[j]]
            0 <= j < devices[i].sriov->0.vf_bars@.len() && mem64_kind(
                devices[i].sriov->0.vf_bars@[j],
            ) == mem64 ==> (devices[i].sriov->0.vf_bars@[j].address matches Some(a) && a
                % devices[i].sriov->0.vf_bars@[j].size == 0)
        &&& devices[i].is_bridge ==> match window_of(devices[i].subtree_req->0, mem64) {
            Some((base, limit)) => {
                &&& base % BRIDGE_WINDOW_ALIGN == 0
                &&& (limit + 1) % (BRIDGE_WINDOW_ALIGN as int) == 0
                &&& aligned(devices[i].children@, mem64)
            },
            None => unused(devices[i].children@, mem64),
        }
    } by {
        assert(device_ok(devices[i]));
        assert forall|j: int|
            #![trigger devices[i].bars@[j]]
            0 <= j < devices[i].bars@.len() && bar_mem64(devices[i].bars@[j]) == mem64 implies (
        devices[i].bars@[j].address matches Some(a) && a % devices[i].bars@[j].size == 0) by {
            let k = lemma_bar_place(devices, mem64, gaps, i, j);
            assert(demands[k].mem64() == mem64);
            lemma_address(gaps, demands, mem64, k);
        }
        if devices[i].sriov is Some {
            assert forall|j: int|
                #![trigger devices[i].sriov->0.vf_bars@[j]]
                0 <= j < devices[i].sriov->0.vf_bars@.len() && mem64_kind(
                    devices[i].sriov->0.vf_bars@[j],
                ) == mem64 implies (devices[i].sriov->0.vf_bars@[j].address matches Some(a) && a
                % devices[i].sriov->0.vf_bars@[j].size == 0) by {
                let k = lemma_vf_place(devices, mem64, gaps, i, j);
                assert(demands[k].mem64() == mem64);
                lemma_address(gaps, demands, mem64, k);
            }
        }
        if devices[i].is_bridge {
            let kids = devices[i].children@;
            assert(device_ok(devices[i]) && tree_ok(kids));
            assert(devices[i].children.len() <= usize::MAX);
            if subtree_model(kids).pool(mem64).mem > 0 {
                let k = lemma_window_place(devices, mem64, gaps, i);
                assert(demands[k].mem64() == mem64);
                let addr = address_of(gaps, demands, mem64, k)->0;
                let size = demands[k].bytes();
                let g = window_gaps(subtree_model(kids), mem64, addr, size);
                crate::resource::align::lemma_multiple_sum(
                    addr,
                    size,
                    BRIDGE_WINDOW_ALIGN as int,
                );
                lemma_aligned(kids, mem64, g, addr, addr + size);
            } else {
                lemma_unused(kids, mem64);
            }
        }
    }
}

/// One of a device's address registers.
pub enum Slot {
    /// BAR number `j` of the device's list.
    Bar(int),
    /// VF BAR number `j` of the device's list.
    VfBar(int),
}

/// The range of the pool that a device's BAR or VF BAR takes, as
/// `(address, size)`.
pub open spec fn slot_range(dev: DiscoveredDevice, slot: Slot, mem64: bool) -> Option<(int, int)> {
    match slot {
        Slot::Bar(j) => if 0 <= j < dev.bars@.len() && bar_mem64(dev.bars@[j]) == mem64
            && dev.bars@[j].address is Some {
            Some((dev.bars@[j].address->0 as int, dev.bars@[j].size as int))
        } else {
            None
        },
        Slot::VfBar(j) => if dev.sriov is Some && 0 <= j < dev.sriov->0.vf_bars@.len()
            && mem64_kind(dev.sriov->0.vf_bars@[j]) == mem64
            && dev.sriov->0.vf_bars@[j].address is Some {
            Some(
                (
                    dev.sriov->0.vf_bars@[j].address->0 as int,
                    vf_bytes(dev.sriov->0.vf_bars@[j].size, dev.sriov->0.total_vfs),
                ),
            )
        } else {
            None
        },
    }
}

/// The range that the BAR or VF BAR of a device somewhere in the tree takes.
/// `path` leads to the device: an index into the root level, then one into
/// each list of children.
pub open spec fn range_at(
    devices: Seq<DiscoveredDevice>,
    path: Seq<int>,
    slot: Slot,
    mem64: bool,
) -> Option<(int, int)>
    decreases path.len(),
{
    if path.len() == 0 || !(0 <= path[0] < devices.len()) {
        None
    } else if path.len() == 1 {
        slot_range(devices[path[0]], slot, mem64)
    } else if devices[path[0]].is_bridge {
        range_at(devices[path[0]].children@, path.skip(1), slot, mem64)
    } else {
        None
    }
}

/// Whether the fixed positions of each level, here and behind each bridge, lie
/// apart. They do wherever the windows that hold pinned BARs lie apart from each
/// other and from the pinned BARs beside them.
pub open spec fn fixed_apart(devices: Seq<DiscoveredDevice>, mem64: bool) -> bool
    decreases devices,
{
    let demands = subtree_model(devices).demands;
    &&& forall|j: int, k: int|
        #![trigger demands[j], demands[k]]
        0 <= j < k < demands.len() && demands[j].mem64() == mem64 && demands[k].mem64() == mem64
            && demands[j].fixed() is Some && demands[k].fixed() is Some ==> apart(
            demands[j].fixed()->0 as int,
            demands[j].bytes(),
            demands[k].fixed()->0 as int,
            demands[k].bytes(),
        )
    &&& forall|i: int|
        #![trigger devices[i]]
        0 <= i < devices.len() && devices[i].is_bridge ==> fixed_apart(devices[i].children@, mem64)
}

/// The demand of the level that the range at a path lies in.
pub proof fn lemma_path_demand(
    devices: Seq<DiscoveredDevice>,
    mem64: bool,
    gaps: Seq<(u64, u64)>,
    path: Seq<int>,
    slot: Slot,
) -> (k: int)
    requires
        tree_ok(devices),
        windows_fit(devices),
        devices.len() <= usize::MAX,
        placed(devices, mem64, gaps),
        unneeded_unset(devices, mem64),
        range_at(devices, path, slot, mem64) is Some,
    ensures
        0 <= k < subtree_model(devices).demands.len(),
        subtree_model(devices).demands[k].mem64() == mem64,
        subtree_model(devices).demands[k].owner() == path[0],
        path.len() > 1 <==> subtree_model(devices).demands[k] is BridgeSubtree,
        path.len() == 1 ==> (slot is Bar <==> subtree_model(devices).demands[k] is Bar),
        path.len() == 1 && slot is Bar ==> subtree_model(devices).demands[k] == bar_demand(
            devices[path[0]].bars@[slot->Bar_0],
            path[0],
        ),
        path.len() == 1 && slot is VfBar ==> subtree_model(devices).demands[k] == vf_demand(
            devices[path[0]].sriov->0.vf_bars@[slot->VfBar_0],
            devices[path[0]].sriov->0.total_vfs,
            path[0],
        ),
        ({
            let d = subtree_model(devices).demands[k];
            let addr = address_of(gaps, subtree_model(devices).demands, mem64, k)->0;
            let r = range_at(devices, path, slot, mem64)->0;
            &&& addr <= r.0
            &&& r.0 + r.1 <= addr + d.bytes()
        }),
    decreases path.len(),
{
    let demands = subtree_model(devices).demands;
    let i = path[0];
    lemma_level_demands(devices);
    lemma_sorted_valid(level_demands(devices));
    if path.len() == 1 {
        match slot {
            Slot::Bar(j) => {
                let k = lemma_bar_place(devices, mem64, gaps, i, j);
                lemma_address(gaps, demands, mem64, k);
                k
            },
            Slot::VfBar(j) => {
                let k = lemma_vf_place(devices, mem64, gaps, i, j);
                lemma_address(gaps, demands, mem64, k);
                k
            },
        }
    } else {
        let kids = devices[i].children@;
        assert(device_ok(devices[i]) && tree_ok(kids));
        assert(devices[i].children.len() <= usize::MAX);
        if subtree_model(kids).pool(mem64).mem <= 0 {
            lemma_unused(kids, mem64);
            lemma_unused_range(kids, mem64, path.skip(1), slot);
        }
        let k = lemma_window_place(devices, mem64, gaps, i);
        let addr = address_of(gaps, demands, mem64, k)->0;
        let size = demands[k].bytes();
        let g = window_gaps(subtree_model(kids), mem64, addr, size);
        let c = lemma_path_demand(kids, mem64, g, path.skip(1), slot);
        lemma_placed_some(kids, mem64, g);
        lemma_level_geometry(kids, mem64, g, addr, addr + size);
        assert(subtree_model(kids).demands[c].mem64() == mem64);
        k
    }
}

pub proof fn lemma_unused_range(
    devices: Seq<DiscoveredDevice>,
    mem64: bool,
    path: Seq<int>,
    slot: Slot,
)
    requires
        unused(devices, mem64),
    ensures
        range_at(devices, path, slot, mem64) is None,
    decreases path.len(),
{
    if path.len() > 0 && 0 <= path[0] < devices.len() {
        let dev = devices[path[0]];
        if path.len() > 1 && dev.is_bridge {
            lemma_unused_range(dev.children@, mem64, path.skip(1), slot);
        } else if path.len() == 1 {
            match slot {
                Slot::Bar(j) => {
                    if 0 <= j < dev.bars@.len() {
                        assert(bar_mem64(devices[path[0]].bars@[j]) != mem64);
                    }
                },
                Slot::VfBar(j) => {
                    if dev.sriov is Some && 0 <= j < dev.sriov->0.vf_bars@.len() {
                        assert(mem64_kind(devices[path[0]].sriov->0.vf_bars@[j]) != mem64);
                    }
                },
            }
        }
    }
}

/// Two demands of a level lie apart.
pub(crate) proof fn lemma_demands_apart(
    devices: Seq<DiscoveredDevice>,
    mem64: bool,
    gaps: Seq<(u64, u64)>,
    lo: int,
    hi: int,
    j: int,
    k: int,
)
    requires
        tree_ok(devices),
        windows_fit(devices),
        devices.len() <= usize::MAX,
        placed(devices, mem64, gaps),
        gaps_suit(devices, mem64, gaps, lo, hi),
        fixed_apart(devices, mem64),
        0 <= j < subtree_model(devices).demands.len(),
        0 <= k < subtree_model(devices).demands.len(),
        j != k,
        subtree_model(devices).demands[j].mem64() == mem64,
        subtree_model(devices).demands[k].mem64() == mem64,
    ensures
        apart(
            address_of(gaps, subtree_model(devices).demands, mem64, j)->0,
            subtree_model(devices).demands[j].bytes(),
            address_of(gaps, subtree_model(devices).demands, mem64, k)->0,
            subtree_model(devices).demands[k].bytes(),
        ),
{
    let demands = subtree_model(devices).demands;
    lemma_placed_some(devices, mem64, gaps);
    lemma_level_geometry(devices, mem64, gaps, lo, hi);
    assert(demands[j] == demands[j] && demands[k] == demands[k]);
}

/// A device's own ranges belong to different demands.
proof fn lemma_slots_differ(
    dev: DiscoveredDevice,
    mem64: bool,
    i: int,
    s: Slot,
    t: Slot,
    d: Demand,
)
    requires
        device_ok(dev),
        slot_range(dev, s, mem64) is Some,
        slot_range(dev, t, mem64) is Some,
        d == match s {
            Slot::Bar(x) => bar_demand(dev.bars@[x], i),
            Slot::VfBar(x) => vf_demand(dev.sriov->0.vf_bars@[x], dev.sriov->0.total_vfs, i),
        },
        d == match t {
            Slot::Bar(x) => bar_demand(dev.bars@[x], i),
            Slot::VfBar(x) => vf_demand(dev.sriov->0.vf_bars@[x], dev.sriov->0.total_vfs, i),
        },
    ensures
        s == t,
{
    match (s, t) {
        (Slot::Bar(x), Slot::Bar(y)) => {
            assert(dev.bars@[x].index == dev.bars@[y].index);
        },
        (Slot::VfBar(x), Slot::VfBar(y)) => {
            let v = dev.sriov->0.vf_bars@;
            assert(v[x].index == v[y].index);
        },
        _ => {},
    }
}

/// Whether two ranges, as `(address, size)`, share no byte.
pub open spec fn ranges_apart(a: (int, int), b: (int, int)) -> bool {
    apart(a.0, a.1, b.0, b.1)
}

/// What has to hold of a level for its ranges to lie apart.
#[verifier::opaque]
pub open spec fn level_settled(
    devices: Seq<DiscoveredDevice>,
    mem64: bool,
    gaps: Seq<(u64, u64)>,
    lo: int,
    hi: int,
) -> bool {
    &&& tree_ok(devices)
    &&& windows_fit(devices)
    &&& devices.len() <= usize::MAX
    &&& placed(devices, mem64, gaps)
    &&& unneeded_unset(devices, mem64)
    &&& gaps_suit(devices, mem64, gaps, lo, hi)
    &&& fixed_apart(devices, mem64)
}

/// Two ranges lie apart, or they are behind one bridge.
#[verifier::spinoff_prover]
#[verifier::rlimit(40)]
proof fn lemma_apart_or_behind(
    devices: Seq<DiscoveredDevice>,
    mem64: bool,
    gaps: Seq<(u64, u64)>,
    lo: int,
    hi: int,
    p: Seq<int>,
    s: Slot,
    q: Seq<int>,
    t: Slot,
)
    requires
        level_settled(devices, mem64, gaps, lo, hi),
        p != q || s != t,
        range_at(devices, p, s, mem64) is Some,
        range_at(devices, q, t, mem64) is Some,
    ensures
        ranges_apart(
            range_at(devices, p, s, mem64)->0,
            range_at(devices, q, t, mem64)->0,
        ) || {
            &&& p.len() > 1
            &&& q.len() > 1
            &&& p[0] == q[0]
            &&& subtree_model(devices[p[0]].children@).pool(mem64).mem > 0
        },
{
    reveal(level_settled);
    let demands = subtree_model(devices).demands;
    let j = lemma_path_demand(devices, mem64, gaps, p, s);
    let k = lemma_path_demand(devices, mem64, gaps, q, t);
    if j != k {
        lemma_demands_apart(devices, mem64, gaps, lo, hi, j, k);
    } else if p.len() > 1 {
        lemma_sorted_cover(devices);
        assert(demand_of(devices, demands[j]));
    } else {
        assert(p =~= q);
        assert(device_ok(devices[p[0]]));
        lemma_slots_differ(devices[p[0]], mem64, p[0], s, t, demands[j]);
    }
}

/// What holds of a level holds behind each bridge. Gives the gaps and the range of
/// the bridge's window.
pub(crate) proof fn lemma_settled_behind(
    devices: Seq<DiscoveredDevice>,
    mem64: bool,
    gaps: Seq<(u64, u64)>,
    lo: int,
    hi: int,
    i: int,
) -> (r: (Seq<(u64, u64)>, int, int))
    requires
        level_settled(devices, mem64, gaps, lo, hi),
        0 <= i < devices.len(),
        devices[i].is_bridge,
        subtree_model(devices[i].children@).pool(mem64).mem > 0,
    ensures
        level_settled(devices[i].children@, mem64, r.0, r.1, r.2),
{
    reveal(level_settled);
    let kids = devices[i].children@;
    let demands = subtree_model(devices).demands;
    let w = lemma_window_place(devices, mem64, gaps, i);
    let addr = address_of(gaps, demands, mem64, w)->0;
    let size = demands[w].bytes();
    assert(unneeded_unset(kids, mem64));
    assert(fixed_apart(kids, mem64));
    (window_gaps(subtree_model(kids), mem64, addr, size), addr, addr + size)
}

/// No two BARs or VF BARs of the pool share a byte, wherever in the tree they
/// are.
pub proof fn lemma_ranges_apart(
    devices: Seq<DiscoveredDevice>,
    mem64: bool,
    gaps: Seq<(u64, u64)>,
    lo: int,
    hi: int,
    p: Seq<int>,
    s: Slot,
    q: Seq<int>,
    t: Slot,
)
    requires
        level_settled(devices, mem64, gaps, lo, hi),
        p != q || s != t,
        range_at(devices, p, s, mem64) is Some,
        range_at(devices, q, t, mem64) is Some,
    ensures
        ranges_apart(
            range_at(devices, p, s, mem64)->0,
            range_at(devices, q, t, mem64)->0,
        ),
    decreases p.len(),
{
    lemma_apart_or_behind(devices, mem64, gaps, lo, hi, p, s, q, t);
    if p.len() > 1 && q.len() > 1 && p[0] == q[0] && subtree_model(
        devices[p[0]].children@,
    ).pool(mem64).mem > 0 {
        let (g, base, end) = lemma_settled_behind(devices, mem64, gaps, lo, hi, p[0]);
        if p.skip(1) =~= q.skip(1) {
            assert(p =~= q) by {
                assert forall|x: int| 0 <= x < p.len() implies p[x] == q[x] by {
                    if x > 0 {
                        assert(p.skip(1)[x - 1] == q.skip(1)[x - 1]);
                    }
                }
            }
        }
        lemma_ranges_apart(
            devices[p[0]].children@,
            mem64,
            g,
            base,
            end,
            p.skip(1),
            s,
            q.skip(1),
            t,
        );
    }
}

}
