//! Top-down placement: where the demands of each level go.
use crate::resource::demand::Demand;
use crate::resource::device::bar_agrees;
use crate::resource::device::bar_mem64;
use crate::resource::device::device_agrees;
use crate::resource::device::device_ok;
use crate::resource::device::mem64_kind;
use crate::resource::device::pool_scope;
use crate::resource::device::tree_agrees;
use crate::resource::device::tree_ok;
use crate::resource::device::DiscoveredDevice;
use crate::resource::device::SubtreeState;
use crate::resource::gaps::place;
use crate::resource::gaps::place_rest;
use crate::resource::levels::demand_of;
use crate::resource::levels::lemma_sorted_cover;
use crate::resource::sizing::bar_demand;
use crate::resource::sizing::is_dynamic;
use crate::resource::sizing::lemma_subtree_model_agrees;
use crate::resource::sizing::states_ok;
use crate::resource::sizing::subtree_model;
use crate::resource::sizing::vf_demand;
use crate::resource::sizing::windows_fit;
use crate::resource::sizing::windows_unset;
use crate::resource::sizing::SubtreeModel;
use vstd::prelude::*;

verus! {

/// The gaps that are left after the pool's dynamic demands have been placed
/// in order.
pub open spec fn gaps_after(
    gaps: Seq<(u64, u64)>,
    demands: Seq<Demand>,
    mem64: bool,
) -> Seq<(u64, u64)>
    decreases demands.len(),
{
    if demands.len() == 0 {
        gaps
    } else {
        let g = gaps_after(gaps, demands.drop_last(), mem64);
        let d = demands.last();
        if is_dynamic(d, mem64) {
            place_rest(g, d.bytes(), d.align())
        } else {
            g
        }
    }
}

/// The address of demand `k`: its fixed one, or else the first that fits when
/// those before it have been placed.
pub open spec fn address_of(
    gaps: Seq<(u64, u64)>,
    demands: Seq<Demand>,
    mem64: bool,
    k: int,
) -> Option<int> {
    match demands[k].fixed() {
        Some(addr) => Some(addr as int),
        None => place(
            gaps_after(gaps, demands.take(k), mem64),
            demands[k].bytes(),
            demands[k].align(),
        ),
    }
}

/// Whether all of a pool's demands get an address out of the gaps, none of them
/// below a floor.
pub open spec fn settles(
    gaps: Seq<(u64, u64)>,
    demands: Seq<Demand>,
    mem64: bool,
    floor: int,
) -> bool {
    forall|k: int|
        #![trigger demands[k]]
        0 <= k < demands.len() && demands[k].mem64() == mem64 ==> {
            &&& address_of(gaps, demands, mem64, k) is Some
            &&& address_of(gaps, demands, mem64, k)->0 >= floor
        }
}

/// The gaps that the children of a bridge are placed into, when its window has
/// the given base and size.
pub open spec fn window_gaps(m: SubtreeModel, mem64: bool, base: int, size: int) -> Seq<
    (u64, u64),
> {
    match m.pool(mem64).base {
        Some(_) => m.pool(mem64).gaps,
        None => seq![(base as u64, (base + size) as u64)],
    }
}

/// Whether every demand of the pool, here and behind each bridge, finds a
/// place.
pub open spec fn placeable(
    devices: Seq<DiscoveredDevice>,
    mem64: bool,
    gaps: Seq<(u64, u64)>,
) -> bool
    decreases devices,
{
    let demands = subtree_model(devices).demands;
    forall|k: int|
        #![trigger demands[k]]
        0 <= k < demands.len() && demands[k].mem64() == mem64 ==> {
            &&& address_of(gaps, demands, mem64, k) is Some
            &&& demands[k] is BridgeSubtree && 0 <= demands[k].owner() < devices.len()
                ==> placeable(
                devices[demands[k].owner()].children@,
                mem64,
                window_gaps(
                    subtree_model(devices[demands[k].owner()].children@),
                    mem64,
                    address_of(gaps, demands, mem64, k)->0,
                    demands[k].bytes(),
                ),
            )
        }
}

/// The window of one pool.
pub open spec fn window_of(req: SubtreeState, mem64: bool) -> Option<(u64, u64)> {
    if mem64 {
        req.prefetchable_window
    } else {
        req.memory_window
    }
}

/// Whether the devices hold the address of a demand.
pub open spec fn holds_address(
    devices: Seq<DiscoveredDevice>,
    d: Demand,
    mem64: bool,
    addr: int,
) -> bool {
    match d {
        Demand::Bar { dev_idx, bar_index, .. } => forall|j: int|
            #![trigger devices[dev_idx as int].bars@[j]]
            0 <= j < devices[dev_idx as int].bars@.len() && devices[dev_idx as int].bars@[j].index
                == bar_index ==> devices[dev_idx as int].bars@[j].address == Some(addr as u64),
        Demand::SriovVfBars { dev_idx, bar_index, .. } => forall|j: int|
            #![trigger devices[dev_idx as int].sriov->0.vf_bars@[j]]
            0 <= j < devices[dev_idx as int].sriov->0.vf_bars@.len()
                && devices[dev_idx as int].sriov->0.vf_bars@[j].index == bar_index
                ==> devices[dev_idx as int].sriov->0.vf_bars@[j].address == Some(addr as u64),
        Demand::BridgeSubtree { dev_idx, size, .. } => {
            devices[dev_idx as int].subtree_req matches Some(req) && window_of(req, mem64) == Some(
                (addr as u64, (addr + size - 1) as u64),
            )
        },
    }
}

/// Whether every BAR, VF BAR and window of the pool, here and behind each
/// bridge, has its place.
pub open spec fn placed(
    devices: Seq<DiscoveredDevice>,
    mem64: bool,
    gaps: Seq<(u64, u64)>,
) -> bool
    decreases devices,
{
    let demands = subtree_model(devices).demands;
    forall|k: int|
        #![trigger demands[k]]
        0 <= k < demands.len() && demands[k].mem64() == mem64 ==> {
            &&& address_of(gaps, demands, mem64, k) matches Some(addr) && holds_address(
                devices,
                demands[k],
                mem64,
                addr,
            )
            &&& demands[k] is BridgeSubtree && 0 <= demands[k].owner() < devices.len() ==> placed(
                devices[demands[k].owner()].children@,
                mem64,
                window_gaps(
                    subtree_model(devices[demands[k].owner()].children@),
                    mem64,
                    address_of(gaps, demands, mem64, k)->0,
                    demands[k].bytes(),
                ),
            )
        }
}

/// Stored sizing stays in place whatever the assignment of a pool changes.
pub proof fn lemma_states_agree(
    a: Seq<DiscoveredDevice>,
    b: Seq<DiscoveredDevice>,
    mem64: bool,
)
    requires
        states_ok(a),
        tree_agrees(a, b, pool_scope(mem64)),
    ensures
        states_ok(b),
    decreases a,
{
    let s = pool_scope(mem64);
    assert forall|i: int|
        #![trigger b[i]]
        0 <= i < b.len() && b[i].is_bridge implies {
        &&& b[i].subtree_req matches Some(req) && req.matches_model(subtree_model(b[i].children@))
        &&& states_ok(b[i].children@)
    } by {
        assert(device_agrees(a[i], b[i], s));
        assert(tree_agrees(a[i].children@, b[i].children@, s));
        lemma_states_agree(a[i].children@, b[i].children@, mem64);
        lemma_subtree_model_agrees(a[i].children@, b[i].children@, s);
    }
}

/// The windows of a tree that can be counted still can.
pub proof fn lemma_windows_fit_agree(
    a: Seq<DiscoveredDevice>,
    b: Seq<DiscoveredDevice>,
    s: crate::resource::device::Scope,
)
    requires
        windows_fit(a),
        tree_agrees(a, b, s),
    ensures
        windows_fit(b),
    decreases a,
{
    assert forall|i: int|
        #![trigger b[i]]
        0 <= i < b.len() && b[i].is_bridge implies {
        &&& windows_fit(b[i].children@)
        &&& crate::resource::sizing::window_fits(subtree_model(b[i].children@).pool32)
        &&& crate::resource::sizing::window_fits(subtree_model(b[i].children@).pool64)
    } by {
        assert(device_agrees(a[i], b[i], s));
        assert(tree_agrees(a[i].children@, b[i].children@, s));
        lemma_windows_fit_agree(a[i].children@, b[i].children@, s);
        lemma_subtree_model_agrees(a[i].children@, b[i].children@, s);
    }
}

/// The window that a bridge gets ends within the address space.
pub proof fn lemma_window_end(
    demands: Seq<Demand>,
    mem64: bool,
    gaps: Seq<(u64, u64)>,
    k: int,
    addr: int,
)
    requires
        0 <= k < demands.len(),
        demands[k].valid(),
        address_of(gaps, demands, mem64, k) == Some(addr),
    ensures
        addr + demands[k].bytes() <= u64::MAX,
        demands[k].bytes() > 0,
{
    if demands[k].fixed() is None {
        let g = gaps_after(gaps, demands.take(k), mem64);
        let i = crate::resource::gaps::first_fit(g, demands[k].bytes(), demands[k].align())->0;
        assert(crate::resource::gaps::is_first_fit(g, demands[k].bytes(), demands[k].align(), i));
    }
}

/// Whether no bridge, here or behind another, has a window of the pool that
/// its children do not need.
pub open spec fn unneeded_unset(devices: Seq<DiscoveredDevice>, mem64: bool) -> bool
    decreases devices,
{
    forall|i: int|
        #![trigger devices[i]]
        0 <= i < devices.len() && devices[i].is_bridge ==> {
            &&& subtree_model(devices[i].children@).pool(mem64).mem <= 0 ==> (
            devices[i].subtree_req matches Some(req) && window_of(req, mem64) is None)
            &&& unneeded_unset(devices[i].children@, mem64)
        }
}

/// Before anything is assigned no bridge has a window at all.
pub proof fn lemma_unset(devices: Seq<DiscoveredDevice>, mem64: bool)
    requires
        windows_unset(devices),
    ensures
        unneeded_unset(devices, mem64),
    decreases devices,
{
    assert forall|i: int|
        #![trigger devices[i]]
        0 <= i < devices.len() && devices[i].is_bridge implies {
        &&& subtree_model(devices[i].children@).pool(mem64).mem <= 0 ==> (
        devices[i].subtree_req matches Some(req) && window_of(req, mem64) is None)
        &&& unneeded_unset(devices[i].children@, mem64)
    } by {
        lemma_unset(devices[i].children@, mem64);
    }
}

/// The assignment of one pool leaves the windows of the other.
pub proof fn lemma_unset_other(
    a: Seq<DiscoveredDevice>,
    b: Seq<DiscoveredDevice>,
    mem64: bool,
)
    requires
        unneeded_unset(a, !mem64),
        tree_agrees(a, b, pool_scope(mem64)),
    ensures
        unneeded_unset(b, !mem64),
    decreases a,
{
    let s = pool_scope(mem64);
    assert forall|i: int|
        #![trigger b[i]]
        0 <= i < b.len() && b[i].is_bridge implies {
        &&& subtree_model(b[i].children@).pool(!mem64).mem <= 0 ==> (
        b[i].subtree_req matches Some(req) && window_of(req, !mem64) is None)
        &&& unneeded_unset(b[i].children@, !mem64)
    } by {
        assert(device_agrees(a[i], b[i], s));
        assert(tree_agrees(a[i].children@, b[i].children@, s));
        lemma_unset_other(a[i].children@, b[i].children@, mem64);
        lemma_subtree_model_agrees(a[i].children@, b[i].children@, s);
    }
}

/// What the assignment of one pool has placed, the assignment of the other
/// leaves in place.
pub proof fn lemma_placed_other(
    a: Seq<DiscoveredDevice>,
    b: Seq<DiscoveredDevice>,
    mem64: bool,
    gaps: Seq<(u64, u64)>,
)
    requires
        tree_ok(a),
        a.len() <= usize::MAX,
        placed(a, !mem64, gaps),
        tree_agrees(a, b, pool_scope(mem64)),
    ensures
        placed(b, !mem64, gaps),
    decreases a,
{
    let s = pool_scope(mem64);
    let p = !mem64;
    lemma_subtree_model_agrees(a, b, s);
    lemma_sorted_cover(a);
    let demands = subtree_model(b).demands;
    assert forall|k: int| #![trigger demands[k]] 0 <= k < demands.len() && demands[k].mem64()
        == p implies {
        &&& address_of(gaps, demands, p, k) matches Some(addr) && holds_address(
            b,
            demands[k],
            p,
            addr,
        )
        &&& demands[k] is BridgeSubtree && 0 <= demands[k].owner() < b.len() ==> placed(
            b[demands[k].owner()].children@,
            p,
            window_gaps(
                subtree_model(b[demands[k].owner()].children@),
                p,
                address_of(gaps, demands, p, k)->0,
                demands[k].bytes(),
            ),
        )
    } by {
        assert(demands[k] == subtree_model(a).demands[k]);
        let o = demands[k].owner();
        assert(demand_of(a, demands[k]));
        assert(device_agrees(a[o], b[o], s));
        assert(device_ok(a[o]));
        assert(tree_agrees(a[o].children@, b[o].children@, s));
        let addr = address_of(gaps, demands, p, k)->0;
        assert(holds_address(a, demands[k], p, addr));
        match demands[k] {
            Demand::Bar { bar_index, .. } => {
                let y = choose|y: int|
                    #![trigger a[o].bars@[y]]
                    0 <= y < a[o].bars@.len() && demands[k] == bar_demand(a[o].bars@[y], o);
                assert forall|j: int|
                    #![trigger b[o].bars@[j]]
                    0 <= j < b[o].bars@.len() && b[o].bars@[j].index
                        == bar_index implies b[o].bars@[j].address == Some(addr as u64) by {
                    assert(bar_agrees(a[o].bars@[j], b[o].bars@[j], bar_mem64(a[o].bars@[j]), s));
                    let u = crate::resource::device::bar_shape(a[o].bars@[j]);
                    let v = crate::resource::device::bar_shape(b[o].bars@[j]);
                    assert(u.index == v.index);
                    if j != y {
                        assert(a[o].bars@[j].index != a[o].bars@[y].index);
                    }
                    assert(bar_mem64(a[o].bars@[j]) == p);
                }
            },
            Demand::SriovVfBars { bar_index, .. } => {
                let av = a[o].sriov->0.vf_bars@;
                let bv = b[o].sriov->0.vf_bars@;
                let sr = a[o].sriov->0;
                let y = choose|y: int|
                    #![trigger sr.vf_bars@[y]]
                    0 <= y < sr.vf_bars@.len() && demands[k] == vf_demand(
                        sr.vf_bars@[y],
                        sr.total_vfs,
                        o,
                    );
                assert forall|j: int|
                    #![trigger b[o].sriov->0.vf_bars@[j]]
                    0 <= j < bv.len() && b[o].sriov->0.vf_bars@[j].index
                        == bar_index implies b[o].sriov->0.vf_bars@[j].address == Some(
                    addr as u64,
                ) by {
                    assert(bar_agrees(av[j], bv[j], mem64_kind(av[j]), s));
                    let u = crate::resource::device::bar_shape(av[j]);
                    let v = crate::resource::device::bar_shape(bv[j]);
                    assert(u.index == v.index);
                    if j != y {
                        assert(av[j].index != av[y].index);
                    }
                    assert(mem64_kind(av[j]) == p);
                    assert(a[o].sriov->0.vf_bars@[j].address == Some(addr as u64));
                }
            },
            Demand::BridgeSubtree { .. } => {
                assert(a[o].children.len() <= usize::MAX);
                lemma_subtree_model_agrees(a[o].children@, b[o].children@, s);
                lemma_placed_other(
                    a[o].children@,
                    b[o].children@,
                    mem64,
                    window_gaps(subtree_model(a[o].children@), p, addr, demands[k].bytes()),
                );
            },
        }
    }
}

}
