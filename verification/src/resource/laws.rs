//! Laws of the address assignment as a whole.
use crate::resource::align::lemma_aligned_up;
use crate::resource::assign::assigned;
use crate::resource::assign::assignments_valid;
use crate::resource::assign::device_valid;
use crate::resource::assign::floor_error;
use crate::resource::assign::in_some_aperture;
use crate::resource::assign::lemma_root_suits;
use crate::resource::assign::pool_error;
use crate::resource::assign::root_base;
use crate::resource::assign::root_base32;
use crate::resource::assign::root_gaps;
use crate::resource::assign::vfs_countable;
use crate::resource::assign::window_nested;
use crate::resource::demand::Demand;
use crate::resource::device::bar_mem64;
use crate::resource::device::device_ok;
use crate::resource::device::mem64_kind;
use crate::resource::device::tree_ok;
use crate::resource::device::DiscoveredBar;
use crate::resource::device::DiscoveredDevice;
use crate::resource::geometry::lemma_level_geometry;
use crate::resource::params::aperture_end;
use crate::resource::params::in_aperture;
use crate::resource::params::params_ok;
use crate::resource::params::pool_aperture;
use crate::resource::params::AssignmentParams;
use crate::resource::pinned::lemma_own_pinned_in;
use crate::resource::pinned::lemma_pinned_fine;
use crate::resource::pinned::lemma_pinned_in;
use crate::resource::pinned::own_pinned;
use crate::resource::pinned::pinned_bar;
use crate::resource::pinned::pinned_bars;
use crate::resource::pinned::pinned_error;
use crate::resource::pinned::PinnedBar;
use crate::resource::placement::address_of;
use crate::resource::placement::placed;
use crate::resource::placement::unneeded_unset;
use crate::resource::placement::window_gaps;
use crate::resource::placement::window_of;
use crate::resource::sizing::lemma_level_demands;
use crate::resource::sizing::lemma_pool_model;
use crate::resource::sizing::lemma_pool_pins;
use crate::resource::sizing::lemma_sorted_valid;
use crate::resource::sizing::level_demands;
use crate::resource::sizing::pool_pins;
use crate::resource::sizing::sizes_fit;
use crate::resource::sizing::subtree_model;
use crate::resource::sizing::windows_fit;
use crate::resource::tree::aligned;
use crate::resource::tree::fixed_apart;
use crate::resource::tree::held;
use crate::resource::tree::lemma_aligned;
use crate::resource::tree::lemma_demands_apart;
use crate::resource::tree::lemma_path_demand;
use crate::resource::tree::lemma_placed_some;
use crate::resource::tree::lemma_ranges_apart;
use crate::resource::tree::lemma_settled_behind;
use crate::resource::tree::lemma_unused;
use crate::resource::tree::lemma_unused_range;
use crate::resource::tree::lemma_window_place;
use crate::resource::tree::lemma_within;
use crate::resource::tree::level_settled;
use crate::resource::tree::pins_aligned;
use crate::resource::tree::range_at;
use crate::resource::tree::ranges_apart;
use crate::resource::tree::unused;
use crate::resource::tree::within;
use crate::resource::tree::Slot;
use vstd::prelude::*;

verus! {

/// Whether a successful assignment was made: the devices are in order, nothing
/// stood in the way, and everything has its place.
pub open spec fn settled(devices: Seq<DiscoveredDevice>, params: AssignmentParams) -> bool {
    &&& tree_ok(devices)
    &&& sizes_fit(devices)
    &&& devices.len() <= usize::MAX
    &&& params_ok(params)
    &&& pinned_error(pinned_bars(devices), params) is None
    &&& pool_error(subtree_model(devices), params, false) is None
    &&& pool_error(subtree_model(devices), params, true) is None
    &&& floor_error(subtree_model(devices), params, false) is None
    &&& floor_error(subtree_model(devices), params, true) is None
    &&& assigned(devices, params)
}

/// The lowest address that the root level of a pool is given is not below the
/// pool's aperture.
proof fn lemma_root_floor(
    devices: Seq<DiscoveredDevice>,
    params: AssignmentParams,
    mem64: bool,
)
    requires
        settled(devices, params),
        subtree_model(devices).pool(mem64).mem > 0,
    ensures
        pool_aperture(params, mem64) is Some,
        forall|k: int|
            #![trigger subtree_model(devices).demands[k]]
            0 <= k < subtree_model(devices).demands.len() && subtree_model(
                devices,
            ).demands[k].mem64() == mem64 ==> address_of(
                root_gaps(subtree_model(devices), params, mem64),
                subtree_model(devices).demands,
                mem64,
                k,
            )->0 >= pool_aperture(params, mem64)->0.base,
        subtree_model(devices).pool(mem64).base is None ==> root_base(
            subtree_model(devices),
            params,
            mem64,
        ) >= pool_aperture(params, mem64)->0.base,
{
    let m = subtree_model(devices);
    let demands = m.demands;
    lemma_root_suits(devices, params, mem64);
    let a = pool_aperture(params, mem64)->0;
    lemma_level_demands(devices);
    lemma_sorted_valid(level_demands(devices));
    lemma_pool_model(demands, false);
    lemma_pool_model(demands, true);
    let g = root_gaps(m, params, mem64);
    let base = root_base(m, params, mem64);
    lemma_placed_some(devices, mem64, g);
    if m.pool(mem64).base is None {
        if mem64 && params.high_mmio is None && m.pool32.mem > 0 {
            lemma_aligned_up(root_base32(m, params) + m.pool32.mem, m.pool64.align);
            lemma_aligned_up(params.low_mmio->0.base as int, m.pool32.align);
            if m.pool32.base is Some {
                // Some pinned demand of the mem32 pool lies in the aperture.
                let pins = pool_pins(demands, false);
                lemma_pool_pins(demands, false);
                crate::resource::demand::lemma_fixed_regions(demands, false);
                let r = crate::resource::demand::fixed_regions(demands, false)[0];
                let k = choose|k: int|
                    #![trigger demands[k]]
                    0 <= k < demands.len() && demands[k].mem64() == false && demands[k].fixed()
                        == Some(r.addr) && demands[k].bytes() == r.size;
                let g32 = root_gaps(m, params, false);
                lemma_root_suits(devices, params, false);
                lemma_placed_some(devices, false, g32);
                lemma_level_geometry(
                    devices,
                    false,
                    g32,
                    root_base(m, params, false),
                    aperture_end(params.low_mmio->0),
                );
                assert(demands[k].mem64() == false);
                assert(address_of(g32, demands, false, k)->0 >= params.low_mmio->0.base);
            }
        } else {
            lemma_aligned_up(a.base as int, m.pool(mem64).align);
        }
        lemma_level_geometry(devices, mem64, g, base, aperture_end(a));
        assert forall|k: int|
            #![trigger demands[k]]
            0 <= k < demands.len() && demands[k].mem64() == mem64 implies address_of(
            g,
            demands,
            mem64,
            k,
        )->0 >= a.base by {
            assert(base <= address_of(g, demands, mem64, k)->0);
        }
    }
}

/// Every BAR, VF BAR and window of a pool lies in the pool's aperture, and
/// whatever is behind a bridge in the bridge's window.
pub proof fn law_within_aperture(
    devices: Seq<DiscoveredDevice>,
    params: AssignmentParams,
    mem64: bool,
)
    requires
        settled(devices, params),
    ensures
        match pool_aperture(params, mem64) {
            Some(a) if subtree_model(devices).pool(mem64).mem > 0 => within(
                devices,
                mem64,
                a.base as int,
                aperture_end(a),
            ),
            _ => unused(devices, mem64),
        },
{
    let m = subtree_model(devices);
    if m.pool(mem64).mem > 0 {
        let a = pool_aperture(params, mem64)->0;
        lemma_root_suits(devices, params, mem64);
        lemma_root_floor(devices, params, mem64);
        lemma_within(
            devices,
            mem64,
            root_gaps(m, params, mem64),
            root_base(m, params, mem64),
            aperture_end(a),
            a.base as int,
        );
    } else {
        lemma_unused(devices, mem64);
    }
}

/// Whether the pool's ranges lie between the bounds, or the pool is not used.
pub open spec fn bounded(
    devices: Seq<DiscoveredDevice>,
    mem64: bool,
    lo: int,
    hi: int,
) -> bool {
    within(devices, mem64, lo, hi) || unused(devices, mem64)
}

proof fn lemma_valid(
    devices: Seq<DiscoveredDevice>,
    params: AssignmentParams,
    lo32: int,
    hi32: int,
    lo64: int,
    hi64: int,
)
    requires
        tree_ok(devices),
        vfs_countable(devices),
        crate::resource::sizing::states_ok(devices),
        bounded(devices, false, lo32, hi32),
        bounded(devices, true, lo64, hi64),
        unneeded_unset(devices, false),
        unneeded_unset(devices, true),
        windows_fit(devices),
        devices.len() <= usize::MAX,
        lo32 < hi32 ==> in_aperture(params.low_mmio, lo32, hi32 - lo32),
        lo64 < hi64 ==> in_some_aperture(params, lo64, hi64 - lo64),
    ensures
        assignments_valid(devices, params),
    decreases devices,
{
    assert forall|i: int| #![trigger devices[i]] 0 <= i < devices.len() implies device_valid(
        devices[i],
        params,
    ) && assignments_valid(devices[i].children@, params) by {
        let dev = devices[i];
        assert(device_ok(dev) && tree_ok(dev.children@));
        assert(vfs_countable(dev.children@));
        assert(dev.children.len() <= usize::MAX);
        lemma_own_valid(devices, params, lo32, hi32, lo64, hi64, i);
        if dev.is_bridge {
            let kids = dev.children@;
            let req = dev.subtree_req->0;
            let (a32, b32) = match req.memory_window {
                Some((b, l)) => (b as int, l + 1),
                None => (0, 0),
            };
            let (a64, b64) = match req.prefetchable_window {
                Some((b, l)) => (b as int, l + 1),
                None => (0, 0),
            };
            if req.memory_window is None {
                if !unused(kids, false) {
                    assert(window_of(devices[i].subtree_req->0, false) is None);
                }
            }
            if unused(devices, false) {
                assert(unused(kids, false));
            }
            if unused(devices, true) {
                assert(unused(kids, true));
            }
            assert(bounded(kids, false, a32, b32));
            assert(bounded(kids, true, a64, b64));
            lemma_valid(kids, params, a32, b32, a64, b64);
        } else {
            assert(dev.children@.len() == 0);
        }
    }
}

/// A pool that is not used has no windows.
proof fn lemma_unused_mem(devices: Seq<DiscoveredDevice>, mem64: bool)
    requires
        tree_ok(devices),
        windows_fit(devices),
        devices.len() <= usize::MAX,
        unused(devices, mem64),
    ensures
        subtree_model(devices).pool(mem64).mem <= 0,
    decreases devices,
{
    let m = subtree_model(devices);
    let demands = m.demands;
    lemma_level_demands(devices);
    lemma_sorted_valid(level_demands(devices));
    crate::resource::levels::lemma_sorted_cover(devices);
    assert forall|k: int| 0 <= k < demands.len() implies (#[trigger] demands[k]).mem64()
        != mem64 by {
        let d = demands[k];
        let o = d.owner();
        assert(crate::resource::levels::demand_of(devices, d));
        match d {
            Demand::Bar { .. } => {
                let j = choose|j: int|
                    #![trigger devices[o].bars@[j]]
                    0 <= j < devices[o].bars@.len() && d == crate::resource::sizing::bar_demand(
                        devices[o].bars@[j],
                        o,
                    );
                assert(bar_mem64(devices[o].bars@[j]) != mem64);
            },
            Demand::SriovVfBars { .. } => {
                let sr = devices[o].sriov->0;
                let j = choose|j: int|
                    #![trigger sr.vf_bars@[j]]
                    0 <= j < sr.vf_bars@.len() && d == crate::resource::sizing::vf_demand(
                        sr.vf_bars@[j],
                        sr.total_vfs,
                        o,
                    );
                assert(mem64_kind(devices[o].sriov->0.vf_bars@[j]) != mem64);
            },
            Demand::BridgeSubtree { is_mem64, .. } => {
                if is_mem64 == mem64 {
                    assert(device_ok(devices[o]) && tree_ok(devices[o].children@));
                    assert(devices[o].children.len() <= usize::MAX);
                    lemma_unused_mem(devices[o].children@, mem64);
                }
            },
        }
    }
    lemma_empty_pool(demands, mem64);
}

proof fn lemma_empty_pool(demands: Seq<Demand>, mem64: bool)
    requires
        forall|k: int| 0 <= k < demands.len() ==> (#[trigger] demands[k]).mem64() != mem64,
    ensures
        crate::resource::sizing::pool_model(demands, mem64).mem == 0,
{
    lemma_no_fixed(demands, mem64);
    crate::resource::sort::lemma_sorted_by_key(
        crate::resource::demand::fixed_regions(demands, mem64),
    );
    let start = crate::resource::sizing::sizing_start(pool_pins(demands, mem64));
    crate::resource::sizing::lemma_origin_unpinned(demands, mem64);
    lemma_no_sizing(start, demands, mem64);
}

proof fn lemma_no_fixed(demands: Seq<Demand>, mem64: bool)
    requires
        forall|k: int| 0 <= k < demands.len() ==> (#[trigger] demands[k]).mem64() != mem64,
    ensures
        crate::resource::demand::fixed_regions(demands, mem64).len() == 0,
    decreases demands.len(),
{
    if demands.len() > 0 {
        let init = demands.drop_last();
        assert(demands[demands.len() - 1].mem64() != mem64);
        assert forall|k: int| 0 <= k < init.len() implies (#[trigger] init[k]).mem64() != mem64 by {
            assert(init[k] == demands[k]);
        }
        lemma_no_fixed(init, mem64);
    }
}

proof fn lemma_no_sizing(
    s: crate::resource::sizing::Sizing,
    demands: Seq<Demand>,
    mem64: bool,
)
    requires
        forall|k: int| 0 <= k < demands.len() ==> (#[trigger] demands[k]).mem64() != mem64,
    ensures
        crate::resource::sizing::sizing(s, demands, mem64) == s,
    decreases demands.len(),
{
    if demands.len() > 0 {
        let init = demands.drop_last();
        assert(demands[demands.len() - 1].mem64() != mem64);
        assert forall|k: int| 0 <= k < init.len() implies (#[trigger] init[k]).mem64() != mem64 by {
            assert(init[k] == demands[k]);
        }
        lemma_no_sizing(s, init, mem64);
    }
}

/// The window of a bridge lies between the bounds of its level, and the
/// windows of its children within it.
proof fn lemma_window_bounds(
    devices: Seq<DiscoveredDevice>,
    mem64: bool,
    lo: int,
    hi: int,
    i: int,
)
    requires
        tree_ok(devices),
        crate::resource::sizing::states_ok(devices),
        bounded(devices, mem64, lo, hi),
        unneeded_unset(devices, mem64),
        windows_fit(devices),
        devices.len() <= usize::MAX,
        0 <= i < devices.len(),
        devices[i].is_bridge,
    ensures
        devices[i].subtree_req is Some,
        window_of(devices[i].subtree_req->0, mem64) matches Some((base, limit)) ==> lo <= base
            <= limit < hi,
        window_of(devices[i].subtree_req->0, mem64) matches Some((base, limit)) ==> within(
            devices[i].children@,
            mem64,
            base as int,
            limit + 1,
        ),
        window_of(devices[i].subtree_req->0, mem64) is None ==> unused(
            devices[i].children@,
            mem64,
        ),
{
    let kids = devices[i].children@;
    assert(device_ok(devices[i]) && tree_ok(kids));
    assert(devices[i].children.len() <= usize::MAX);
    if !within(devices, mem64, lo, hi) {
        assert(unused(kids, mem64));
        lemma_unused_mem(kids, mem64);
        assert(window_of(devices[i].subtree_req->0, mem64) is None);
    }
}

proof fn lemma_children_nested(
    devices: Seq<DiscoveredDevice>,
    mem64: bool,
    lo: int,
    hi: int,
    i: int,
    c: int,
)
    requires
        tree_ok(devices),
        crate::resource::sizing::states_ok(devices),
        bounded(devices, mem64, lo, hi),
        unneeded_unset(devices, mem64),
        windows_fit(devices),
        devices.len() <= usize::MAX,
        0 <= i < devices.len(),
        devices[i].is_bridge,
        0 <= c < devices[i].children@.len(),
        devices[i].children@[c].subtree_req is Some,
    ensures
        window_nested(
            window_of(devices[i].children@[c].subtree_req->0, mem64),
            window_of(devices[i].subtree_req->0, mem64),
        ),
{
    lemma_window_bounds(devices, mem64, lo, hi, i);
    let kids = devices[i].children@;
    assert(device_ok(devices[i]) && tree_ok(kids));
    assert(devices[i].children.len() <= usize::MAX);
    assert(device_ok(kids[c]));
    if let Some((base, limit)) = window_of(devices[i].subtree_req->0, mem64) {
        lemma_window_bounds(kids, mem64, base as int, limit + 1, c);
    }
}

proof fn lemma_own_valid(
    devices: Seq<DiscoveredDevice>,
    params: AssignmentParams,
    lo32: int,
    hi32: int,
    lo64: int,
    hi64: int,
    i: int,
)
    requires
        tree_ok(devices),
        vfs_countable(devices),
        crate::resource::sizing::states_ok(devices),
        bounded(devices, false, lo32, hi32),
        bounded(devices, true, lo64, hi64),
        unneeded_unset(devices, false),
        unneeded_unset(devices, true),
        windows_fit(devices),
        devices.len() <= usize::MAX,
        lo32 < hi32 ==> in_aperture(params.low_mmio, lo32, hi32 - lo32),
        lo64 < hi64 ==> in_some_aperture(params, lo64, hi64 - lo64),
        0 <= i < devices.len(),
    ensures
        device_valid(devices[i], params),
        devices[i].is_bridge ==> {
            &&& devices[i].subtree_req is Some
            &&& match devices[i].subtree_req->0.memory_window {
                Some((b, l)) => b <= l && in_aperture(params.low_mmio, b as int, l - b + 1)
                    && within(devices[i].children@, false, b as int, l + 1),
                None => unused(devices[i].children@, false),
            }
            &&& match devices[i].subtree_req->0.prefetchable_window {
                Some((b, l)) => b <= l && in_some_aperture(params, b as int, l - b + 1) && within(
                    devices[i].children@,
                    true,
                    b as int,
                    l + 1,
                ),
                None => unused(devices[i].children@, true),
            }
        },
{
    let dev = devices[i];
    assert(device_ok(dev));
    assert forall|j: int|
        #![trigger dev.bars@[j]]
        0 <= j < dev.bars@.len() implies (dev.bars@[j].address matches Some(a)
        && in_some_aperture(params, a as int, dev.bars@[j].size as int)) by {
        let bar = devices[i].bars@[j];
        assert(crate::resource::device::bar_ok(bar));
        if bar.pinned_address is None {
            crate::resource::align::lemma_pow2_positive(bar.size as int);
        }
        if bar_mem64(bar) {
            assert(held(devices[i].bars@[j].address, bar.size as int, lo64, hi64));
        } else {
            assert(held(devices[i].bars@[j].address, bar.size as int, lo32, hi32));
        }
    }
    if dev.sriov is Some {
        assert forall|j: int|
            #![trigger dev.sriov->0.vf_bars@[j]]
            0 <= j < dev.sriov->0.vf_bars@.len() implies (
        dev.sriov->0.vf_bars@[j].address matches Some(a) && in_some_aperture(
            params,
            a as int,
            dev.sriov->0.vf_bars@[j].size * dev.sriov->0.total_vfs,
        )) by {
            let bar = devices[i].sriov->0.vf_bars@[j];
            let n = devices[i].sriov->0.total_vfs;
            crate::resource::align::lemma_pow2_positive(bar.size as int);
            assert(bar.size * n > 0) by (nonlinear_arith)
                requires
                    bar.size > 0,
                    n > 0,
            ;
            let b = crate::resource::sizing::vf_bytes(bar.size, n);
            assert(b == bar.size * n);
            if mem64_kind(bar) {
                assert(held(devices[i].sriov->0.vf_bars@[j].address, b, lo64, hi64));
            } else {
                assert(held(devices[i].sriov->0.vf_bars@[j].address, b, lo32, hi32));
            }
        }
    }
    if dev.is_bridge {
        lemma_window_bounds(devices, false, lo32, hi32, i);
        lemma_window_bounds(devices, true, lo64, hi64, i);
        assert forall|c: int|
            #![trigger dev.children@[c]]
            0 <= c < dev.children@.len() && dev.children@[c].subtree_req is Some implies {
            &&& window_nested(
                dev.children@[c].subtree_req->0.memory_window,
                dev.subtree_req->0.memory_window,
            )
            &&& window_nested(
                dev.children@[c].subtree_req->0.prefetchable_window,
                dev.subtree_req->0.prefetchable_window,
            )
        } by {
            lemma_children_nested(devices, false, lo32, hi32, i, c);
            lemma_children_nested(devices, true, lo64, hi64, i, c);
        }
    }
}

/// After a successful assignment every address and window is valid.
pub proof fn law_assignments_valid(
    devices: Seq<DiscoveredDevice>,
    params: AssignmentParams,
)
    requires
        settled(devices, params),
        vfs_countable(devices),
    ensures
        assignments_valid(devices, params),
{
    law_within_aperture(devices, params, false);
    law_within_aperture(devices, params, true);
    let m = subtree_model(devices);
    let (lo32, hi32) = if m.pool32.mem > 0 {
        (params.low_mmio->0.base as int, aperture_end(params.low_mmio->0))
    } else {
        (0, 0)
    };
    let (lo64, hi64) = if m.pool64.mem > 0 {
        (
            pool_aperture(params, true)->0.base as int,
            aperture_end(pool_aperture(params, true)->0),
        )
    } else {
        (0, 0)
    };
    assert(m.pool(false) == m.pool32 && m.pool(true) == m.pool64);
    lemma_valid(devices, params, lo32, hi32, lo64, hi64);
}

proof fn lemma_pins_aligned(devices: Seq<DiscoveredDevice>, all: Seq<PinnedBar>)
    requires
        forall|k: int| #![trigger all[k]] 0 <= k < all.len() ==> all[k].address % all[k].size == 0,
        forall|x: PinnedBar| #[trigger] pinned_bars(devices).contains(x) ==> all.contains(x),
    ensures
        pins_aligned(devices),
    decreases devices,
{
    assert forall|i: int| #![trigger devices[i]] 0 <= i < devices.len() implies {
        &&& forall|j: int|
            #![trigger devices[i].bars@[j]]
            0 <= j < devices[i].bars@.len() ==> (devices[i].bars@[j].pinned_address matches Some(
                a,
            ) ==> a % devices[i].bars@[j].size == 0)
        &&& pins_aligned(devices[i].children@)
    } by {
        assert forall|j: int|
            #![trigger devices[i].bars@[j]]
            0 <= j < devices[i].bars@.len() implies (
        devices[i].bars@[j].pinned_address matches Some(a) ==> a % devices[i].bars@[j].size
            == 0) by {
            if devices[i].bars@[j].pinned_address is Some {
                let x = pinned_bar(devices[i], devices[i].bars@[j]);
                lemma_own_pinned_in(devices[i], devices[i].bars@, j);
                lemma_pinned_in(devices, i, x);
                assert(all.contains(x));
                let k = choose|k: int| 0 <= k < all.len() && all[k] == x;
                assert(all[k].address % all[k].size == 0);
            }
        }
        assert forall|x: PinnedBar| #[trigger]
            pinned_bars(devices[i].children@).contains(x) implies all.contains(x) by {
            lemma_pinned_in(devices, i, x);
            assert(pinned_bars(devices).contains(x));
        }
        lemma_pins_aligned(devices[i].children@, all);
    }
}

/// Every BAR and VF BAR is naturally aligned; every window starts and ends at
/// a multiple of the bridge granularity.
pub proof fn law_aligned(devices: Seq<DiscoveredDevice>, params: AssignmentParams, mem64: bool)
    requires
        settled(devices, params),
    ensures
        subtree_model(devices).pool(mem64).mem > 0 ==> aligned(devices, mem64),
        subtree_model(devices).pool(mem64).mem <= 0 ==> unused(devices, mem64),
{
    let m = subtree_model(devices);
    if m.pool(mem64).mem > 0 {
        lemma_root_suits(devices, params, mem64);
        lemma_pinned_fine(pinned_bars(devices), params);
        lemma_pins_aligned(devices, pinned_bars(devices));
        lemma_aligned(
            devices,
            mem64,
            root_gaps(m, params, mem64),
            root_base(m, params, mem64),
            aperture_end(pool_aperture(params, mem64)->0),
        );
    } else {
        lemma_unused(devices, mem64);
    }
}

/// No two BARs or VF BARs of a pool share a byte, wherever in the tree they
/// are, if the fixed positions lie apart.
pub proof fn law_ranges_apart(
    devices: Seq<DiscoveredDevice>,
    params: AssignmentParams,
    mem64: bool,
    p: Seq<int>,
    s: Slot,
    q: Seq<int>,
    t: Slot,
)
    requires
        settled(devices, params),
        fixed_apart(devices, mem64),
        p != q || s != t,
        range_at(devices, p, s, mem64) is Some,
        range_at(devices, q, t, mem64) is Some,
    ensures
        ranges_apart(
            range_at(devices, p, s, mem64)->0,
            range_at(devices, q, t, mem64)->0,
        ),
{
    let m = subtree_model(devices);
    if m.pool(mem64).mem <= 0 {
        lemma_unused(devices, mem64);
        lemma_unused_range(devices, mem64, p, s);
    }
    lemma_root_suits(devices, params, mem64);
    reveal(level_settled);
    lemma_ranges_apart(
        devices,
        mem64,
        root_gaps(m, params, mem64),
        root_base(m, params, mem64),
        aperture_end(pool_aperture(params, mem64)->0),
        p,
        s,
        q,
        t,
    );
}

/// Whether no two windows of bridges beside each other, here and behind each
/// bridge, share a byte.
pub open spec fn windows_apart(devices: Seq<DiscoveredDevice>, mem64: bool) -> bool
    decreases devices,
{
    &&& forall|i: int, j: int|
        #![trigger devices[i], devices[j]]
        0 <= i < j < devices.len() && devices[i].is_bridge && devices[j].is_bridge ==> match (
            window_of(devices[i].subtree_req->0, mem64),
            window_of(devices[j].subtree_req->0, mem64),
        ) {
            (Some((base, limit)), Some((other_base, other_limit))) => limit < other_base
                || other_limit < base,
            _ => true,
        }
    &&& forall|i: int|
        #![trigger devices[i]]
        0 <= i < devices.len() && devices[i].is_bridge ==> windows_apart(
            devices[i].children@,
            mem64,
        )
}

proof fn lemma_no_windows(devices: Seq<DiscoveredDevice>, mem64: bool)
    requires
        tree_ok(devices),
        windows_fit(devices),
        devices.len() <= usize::MAX,
        unused(devices, mem64),
        unneeded_unset(devices, mem64),
    ensures
        windows_apart(devices, mem64),
    decreases devices,
{
    assert forall|i: int|
        #![trigger devices[i]]
        0 <= i < devices.len() && devices[i].is_bridge implies window_of(
        devices[i].subtree_req->0,
        mem64,
    ) is None && windows_apart(devices[i].children@, mem64) by {
        assert(tree_ok(devices[i].children@) && windows_fit(devices[i].children@));
        assert(devices[i].children.len() <= usize::MAX);
        assert(unused(devices[i].children@, mem64));
        lemma_unused_mem(devices[i].children@, mem64);
        lemma_no_windows(devices[i].children@, mem64);
    }
}

proof fn lemma_windows_apart(
    devices: Seq<DiscoveredDevice>,
    mem64: bool,
    gaps: Seq<(u64, u64)>,
    lo: int,
    hi: int,
)
    requires
        level_settled(devices, mem64, gaps, lo, hi),
    ensures
        windows_apart(devices, mem64),
    decreases devices,
{
    reveal(level_settled);
    assert forall|i: int, j: int|
        #![trigger devices[i], devices[j]]
        0 <= i < j < devices.len() && devices[i].is_bridge && devices[j].is_bridge implies match (
        window_of(devices[i].subtree_req->0, mem64),
        window_of(devices[j].subtree_req->0, mem64),
    ) {
        (Some((base, limit)), Some((other_base, other_limit))) => limit < other_base || other_limit
            < base,
        _ => true,
    } by {
        if subtree_model(devices[i].children@).pool(mem64).mem > 0 && subtree_model(
            devices[j].children@,
        ).pool(mem64).mem > 0 {
            let a = lemma_window_place(devices, mem64, gaps, i);
            let b = lemma_window_place(devices, mem64, gaps, j);
            lemma_demands_apart(devices, mem64, gaps, lo, hi, a, b);
        }
    }
    assert forall|i: int|
        #![trigger devices[i]]
        0 <= i < devices.len() && devices[i].is_bridge implies windows_apart(
        devices[i].children@,
        mem64,
    ) by {
        assert(decreases_to!(devices => devices[i].children@));
        if subtree_model(devices[i].children@).pool(mem64).mem > 0 {
            let (g, base, end) = lemma_settled_behind(devices, mem64, gaps, lo, hi, i);
            lemma_windows_apart(devices[i].children@, mem64, g, base, end);
        } else {
            assert(tree_ok(devices[i].children@) && windows_fit(devices[i].children@));
            assert(devices[i].children.len() <= usize::MAX);
            lemma_unused(devices[i].children@, mem64);
            lemma_no_windows(devices[i].children@, mem64);
        }
    }
}

/// No two windows of bridges beside each other share a byte, at the root and
/// behind each bridge, if the fixed positions lie apart.
pub proof fn law_windows_apart(
    devices: Seq<DiscoveredDevice>,
    params: AssignmentParams,
    mem64: bool,
)
    requires
        settled(devices, params),
        fixed_apart(devices, mem64),
    ensures
        windows_apart(devices, mem64),
{
    let m = subtree_model(devices);
    if m.pool(mem64).mem <= 0 {
        lemma_unused(devices, mem64);
        lemma_no_windows(devices, mem64);
    } else {
        lemma_root_suits(devices, params, mem64);
        reveal(level_settled);
        lemma_windows_apart(
            devices,
            mem64,
            root_gaps(m, params, mem64),
            root_base(m, params, mem64),
            aperture_end(pool_aperture(params, mem64)->0),
        );
    }
}

/// A level needs something of a pool exactly where a BAR or VF BAR of the level, or
/// of what lies behind it, is in the pool.
pub proof fn law_pool_used(devices: Seq<DiscoveredDevice>, mem64: bool)
    requires
        tree_ok(devices),
        windows_fit(devices),
        devices.len() <= usize::MAX,
    ensures
        subtree_model(devices).pool(mem64).mem > 0 <==> !unused(devices, mem64),
{
    if unused(devices, mem64) {
        lemma_unused_mem(devices, mem64);
    } else if subtree_model(devices).pool(mem64).mem <= 0 {
        lemma_unused(devices, mem64);
    }
}

/// Whether each bridge, here and behind another, has a window of the pool exactly
/// where a BAR or VF BAR of the pool lies behind it.
pub open spec fn windows_where_needed(devices: Seq<DiscoveredDevice>, mem64: bool) -> bool
    decreases devices,
{
    forall|i: int|
        #![trigger devices[i]]
        0 <= i < devices.len() && devices[i].is_bridge ==> {
            &&& window_of(devices[i].subtree_req->0, mem64) is Some <==> !unused(
                devices[i].children@,
                mem64,
            )
            &&& windows_where_needed(devices[i].children@, mem64)
        }
}

proof fn lemma_windows_needed(devices: Seq<DiscoveredDevice>, mem64: bool, lo: int, hi: int)
    requires
        tree_ok(devices),
        windows_fit(devices),
        devices.len() <= usize::MAX,
        bounded(devices, mem64, lo, hi),
        unneeded_unset(devices, mem64),
    ensures
        windows_where_needed(devices, mem64),
    decreases devices,
{
    assert forall|i: int|
        #![trigger devices[i]]
        0 <= i < devices.len() && devices[i].is_bridge implies {
        &&& window_of(devices[i].subtree_req->0, mem64) is Some <==> !unused(
            devices[i].children@,
            mem64,
        )
        &&& windows_where_needed(devices[i].children@, mem64)
    } by {
        let kids = devices[i].children@;
        assert(tree_ok(kids) && windows_fit(kids) && unneeded_unset(kids, mem64));
        assert(devices[i].children.len() <= usize::MAX);
        law_pool_used(kids, mem64);
        if unused(devices, mem64) {
            assert(unused(kids, mem64));
        }
        match window_of(devices[i].subtree_req->0, mem64) {
            Some((base, limit)) => {
                lemma_windows_needed(kids, mem64, base as int, limit + 1);
            },
            None => {
                assert(unused(kids, mem64));
                lemma_windows_needed(kids, mem64, 0, 0);
            },
        }
    }
}

/// A bridge has a window of a pool exactly where a BAR or VF BAR of the pool lies
/// behind it.
pub proof fn law_windows_where_needed(
    devices: Seq<DiscoveredDevice>,
    params: AssignmentParams,
    mem64: bool,
)
    requires
        settled(devices, params),
    ensures
        windows_where_needed(devices, mem64),
{
    law_within_aperture(devices, params, mem64);
    match pool_aperture(params, mem64) {
        Some(a) => {
            lemma_windows_needed(devices, mem64, a.base as int, aperture_end(a));
        },
        None => {
            lemma_windows_needed(devices, mem64, 0, 0);
        },
    }
}

/// Everything that a pool places lies in the bytes that sizing has counted,
/// from the start of the pool on.
pub proof fn law_range_counted(
    devices: Seq<DiscoveredDevice>,
    params: AssignmentParams,
    mem64: bool,
    p: Seq<int>,
    s: Slot,
)
    requires
        settled(devices, params),
        range_at(devices, p, s, mem64) is Some,
    ensures
        ({
            let m = subtree_model(devices);
            let a = range_at(devices, p, s, mem64)->0;
            &&& root_base(m, params, mem64) <= a.0
            &&& a.0 + a.1 <= root_base(m, params, mem64) + m.pool(mem64).mem
        }),
{
    let m = subtree_model(devices);
    if m.pool(mem64).mem <= 0 {
        lemma_unused(devices, mem64);
        lemma_unused_range(devices, mem64, p, s);
    }
    lemma_root_suits(devices, params, mem64);
    let g = root_gaps(m, params, mem64);
    let k = lemma_path_demand(devices, mem64, g, p, s);
    lemma_placed_some(devices, mem64, g);
    lemma_level_geometry(
        devices,
        mem64,
        g,
        root_base(m, params, mem64),
        aperture_end(pool_aperture(params, mem64)->0),
    );
    assert(m.demands[k].mem64() == mem64);
}

/// Where both pools share the low aperture and no mem64 BAR is pinned, the two
/// pools share no byte.
pub proof fn law_pools_apart(
    devices: Seq<DiscoveredDevice>,
    params: AssignmentParams,
    p: Seq<int>,
    s: Slot,
    q: Seq<int>,
    t: Slot,
)
    requires
        settled(devices, params),
        params.high_mmio is None,
        subtree_model(devices).pool64.base is None,
        range_at(devices, p, s, false) is Some,
        range_at(devices, q, t, true) is Some,
    ensures
        ({
            let a = range_at(devices, p, s, false)->0;
            let b = range_at(devices, q, t, true)->0;
            a.0 + a.1 <= b.0
        }),
{
    let m = subtree_model(devices);
    law_range_counted(devices, params, false, p, s);
    law_range_counted(devices, params, true, q, t);
    if m.pool32.mem <= 0 {
        assert(m.pool(false).mem <= 0);
        lemma_unused(devices, false);
        lemma_unused_range(devices, false, p, s);
    }
    lemma_level_demands(devices);
    lemma_sorted_valid(level_demands(devices));
    lemma_pool_model(m.demands, true);
    lemma_aligned_up(root_base32(m, params) + m.pool32.mem, m.pool64.align);
}

/// The device that a path leads to.
pub open spec fn device_at(devices: Seq<DiscoveredDevice>, path: Seq<int>) -> DiscoveredDevice
    decreases path.len(),
{
    if path.len() <= 1 {
        devices[path[0]]
    } else {
        device_at(devices[path[0]].children@, path.skip(1))
    }
}

proof fn lemma_pinned_kept(
    devices: Seq<DiscoveredDevice>,
    mem64: bool,
    gaps: Seq<(u64, u64)>,
    p: Seq<int>,
    j: int,
)
    requires
        tree_ok(devices),
        windows_fit(devices),
        devices.len() <= usize::MAX,
        placed(devices, mem64, gaps),
        range_at(devices, p, Slot::Bar(j), mem64) is Some,
        device_at(devices, p).bars@[j].pinned_address is Some,
    ensures
        device_at(devices, p).bars@[j].address == device_at(devices, p).bars@[j].pinned_address,
    decreases p.len(),
{
    let i = p[0];
    if p.len() == 1 {
        let k = crate::resource::tree::lemma_bar_place(devices, mem64, gaps, i, j);
    } else {
        let kids = devices[i].children@;
        assert(device_ok(devices[i]) && tree_ok(kids));
        assert(devices[i].children.len() <= usize::MAX);
        if subtree_model(kids).pool(mem64).mem <= 0 {
            lemma_unused(kids, mem64);
            lemma_unused_range(kids, mem64, p.skip(1), Slot::Bar(j));
        }
        let k = lemma_window_place(devices, mem64, gaps, i);
        let addr = address_of(gaps, subtree_model(devices).demands, mem64, k)->0;
        let size = subtree_model(devices).demands[k].bytes();
        lemma_pinned_kept(
            kids,
            mem64,
            window_gaps(subtree_model(kids), mem64, addr, size),
            p.skip(1),
            j,
        );
    }
}

/// A pinned BAR keeps its address.
pub proof fn law_pinned_kept(
    devices: Seq<DiscoveredDevice>,
    params: AssignmentParams,
    mem64: bool,
    p: Seq<int>,
    j: int,
)
    requires
        settled(devices, params),
        range_at(devices, p, Slot::Bar(j), mem64) is Some,
        device_at(devices, p).bars@[j].pinned_address is Some,
    ensures
        device_at(devices, p).bars@[j].address == device_at(devices, p).bars@[j].pinned_address,
{
    let m = subtree_model(devices);
    if m.pool(mem64).mem <= 0 {
        lemma_unused(devices, mem64);
        lemma_unused_range(devices, mem64, p, Slot::Bar(j));
    }
    lemma_pinned_kept(devices, mem64, root_gaps(m, params, mem64), p, j);
}

/// Whether no BAR of the tree is pinned.
pub open spec fn no_pins(devices: Seq<DiscoveredDevice>) -> bool
    decreases devices,
{
    forall|i: int|
        #![trigger devices[i]]
        0 <= i < devices.len() ==> {
            &&& forall|j: int|
                #![trigger devices[i].bars@[j]]
                0 <= j < devices[i].bars@.len() ==> devices[i].bars@[j].pinned_address is None
            &&& no_pins(devices[i].children@)
        }
}

/// Where no BAR is pinned, no demand has a fixed address.
pub proof fn lemma_no_pins_level(devices: Seq<DiscoveredDevice>, mem64: bool)
    requires
        tree_ok(devices),
        devices.len() <= usize::MAX,
        no_pins(devices),
    ensures
        subtree_model(devices).pool(mem64).base is None,
        forall|k: int|
            #![trigger subtree_model(devices).demands[k]]
            0 <= k < subtree_model(devices).demands.len() ==> subtree_model(
                devices,
            ).demands[k].fixed() is None,
        fixed_apart(devices, mem64),
        pinned_bars(devices).len() == 0,
    decreases devices,
{
    let m = subtree_model(devices);
    let demands = m.demands;
    crate::resource::levels::lemma_sorted_cover(devices);
    assert forall|i: int|
        #![trigger devices[i]]
        0 <= i < devices.len() implies subtree_model(devices[i].children@).pool32.base is None
        && subtree_model(devices[i].children@).pool64.base is None && fixed_apart(
        devices[i].children@,
        mem64,
    ) && pinned_bars(devices[i].children@).len() == 0 by {
        assert(device_ok(devices[i]) && tree_ok(devices[i].children@));
        assert(no_pins(devices[i].children@));
        assert(devices[i].children.len() <= usize::MAX);
        lemma_no_pins_level(devices[i].children@, mem64);
        lemma_no_pins_level(devices[i].children@, !mem64);
    }
    assert forall|k: int| #![trigger demands[k]] 0 <= k < demands.len() implies demands[k].fixed()
        is None by {
        let d = demands[k];
        let o = d.owner();
        assert(crate::resource::levels::demand_of(devices, d));
        match d {
            Demand::Bar { .. } => {
                let j = choose|j: int|
                    #![trigger devices[o].bars@[j]]
                    0 <= j < devices[o].bars@.len() && d == crate::resource::sizing::bar_demand(
                        devices[o].bars@[j],
                        o,
                    );
                assert(devices[o].bars@[j].pinned_address is None);
            },
            Demand::BridgeSubtree { .. } => {
                assert(subtree_model(devices[o].children@).pool32.base is None);
            },
            _ => {},
        }
    }
    crate::resource::sort::lemma_sorted_by_key(
        crate::resource::demand::fixed_regions(demands, mem64),
    );
    crate::resource::demand::lemma_fixed_regions(demands, mem64);
    if crate::resource::demand::fixed_regions(demands, mem64).len() > 0 {
        let r = crate::resource::demand::fixed_regions(demands, mem64)[0];
        let k = choose|k: int|
            #![trigger demands[k]]
            0 <= k < demands.len() && demands[k].mem64() == mem64 && demands[k].fixed() == Some(
                r.addr,
            ) && demands[k].bytes() == r.size;
        assert(demands[k].fixed() is None);
    }
    lemma_no_pinned_bars(devices);
}

proof fn lemma_no_pinned_bars(devices: Seq<DiscoveredDevice>)
    requires
        no_pins(devices),
    ensures
        pinned_bars(devices).len() == 0,
    decreases devices,
{
    if devices.len() > 0 {
        let init = devices.drop_last();
        let n = devices.len() - 1;
        assert(no_pins(init)) by {
            assert forall|i: int| #![trigger init[i]] 0 <= i < init.len() implies init[i]
                == devices[i] by {}
        }
        lemma_no_pinned_bars(init);
        assert(no_pins(devices[n].children@));
        assert(decreases_to!(devices => devices[n].children@));
        lemma_no_pinned_bars(devices[n].children@);
        assert forall|j: int| 0 <= j < devices[n].bars@.len() implies (
        #[trigger] devices[n].bars@[j]).pinned_address is None by {}
        lemma_no_own_pinned(devices[n], devices[n].bars@);
    }
}

proof fn lemma_no_own_pinned(dev: DiscoveredDevice, bars: Seq<DiscoveredBar>)
    requires
        forall|j: int| 0 <= j < bars.len() ==> (#[trigger] bars[j]).pinned_address is None,
    ensures
        own_pinned(dev, bars).len() == 0,
    decreases bars.len(),
{
    if bars.len() > 0 {
        let init = bars.drop_last();
        assert(bars[bars.len() - 1].pinned_address is None);
        assert forall|j: int| 0 <= j < init.len() implies (
        #[trigger] init[j]).pinned_address is None by {
            assert(init[j] == bars[j]);
        }
        lemma_no_own_pinned(dev, init);
    }
}

/// Without pinned BARs nothing is asked of them: no error comes from them, they
/// stand in no one's way, no two of them overlap, and they say of no pool where it
/// starts.
pub proof fn law_no_pins(devices: Seq<DiscoveredDevice>, params: AssignmentParams, mem64: bool)
    requires
        tree_ok(devices),
        devices.len() <= usize::MAX,
        no_pins(devices),
    ensures
        pinned_error(pinned_bars(devices), params) is None,
        floor_error(subtree_model(devices), params, mem64) is None,
        fixed_apart(devices, mem64),
        subtree_model(devices).pool(mem64).base is None,
{
    lemma_no_pins_level(devices, mem64);
    let pins = pinned_bars(devices);
    assert(crate::resource::pinned::pool_of(pins, false).len() == 0);
    assert(crate::resource::pinned::pool_of(pins, true).len() == 0);
    crate::resource::sort::lemma_sorted_by_key(crate::resource::pinned::pool_of(pins, false));
    crate::resource::sort::lemma_sorted_by_key(crate::resource::pinned::pool_of(pins, true));
}

}
