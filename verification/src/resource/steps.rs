//! What each step of placing the demands of a level keeps.
use crate::resource::demand::demands_valid;
use crate::resource::demand::Demand;
use crate::resource::device::bar_agrees;
use crate::resource::device::bar_mem64;
use crate::resource::device::bars_agree;
use crate::resource::device::device_agrees;
use crate::resource::device::device_ok;
use crate::resource::device::lemma_tree_agrees_refl;
use crate::resource::device::lemma_tree_agrees_trans;
use crate::resource::device::lemma_tree_ok_agrees;
use crate::resource::device::mem64_kind;
use crate::resource::device::pool_scope;
use crate::resource::device::tree_agrees;
use crate::resource::device::tree_ok;
use crate::resource::device::DiscoveredBar;
use crate::resource::device::DiscoveredDevice;
use crate::resource::levels::demand_of;
use crate::resource::levels::demands_cover;
use crate::resource::levels::lemma_sorted_cover;
use crate::resource::levels::target;
use crate::resource::placement::address_of;
use crate::resource::placement::holds_address;
use crate::resource::placement::lemma_states_agree;
use crate::resource::placement::lemma_window_end;
use crate::resource::placement::placeable;
use crate::resource::placement::placed;
use crate::resource::placement::unneeded_unset;
use crate::resource::placement::window_gaps;
use crate::resource::placement::window_of;
use crate::resource::sizing::bar_demand;
use crate::resource::sizing::lemma_level_demands;
use crate::resource::sizing::lemma_sorted_valid;
use crate::resource::sizing::lemma_subtree_model_agrees;
use crate::resource::sizing::level_demands;
use crate::resource::sizing::states_ok;
use crate::resource::sizing::subtree_model;
use crate::resource::sizing::vf_demand;
use crate::resource::sizing::windows_fit;
use vstd::prelude::*;

verus! {

/// Whether two lists of devices are the same but for one of them.
pub open spec fn same_elsewhere(a: Seq<DiscoveredDevice>, b: Seq<DiscoveredDevice>, i: int) -> bool {
    &&& a.len() == b.len()
    &&& forall|j: int|
        #![trigger a[j]]
        #![trigger b[j]]
        0 <= j < a.len() && j != i ==> a[j] == b[j]
}

pub proof fn lemma_one_device_agrees(
    a: Seq<DiscoveredDevice>,
    b: Seq<DiscoveredDevice>,
    i: int,
    mem64: bool,
)
    requires
        same_elsewhere(a, b, i),
        0 <= i < a.len(),
        device_agrees(a[i], b[i], pool_scope(mem64)),
        tree_agrees(a[i].children@, b[i].children@, pool_scope(mem64)),
    ensures
        tree_agrees(a, b, pool_scope(mem64)),
{
    let s = pool_scope(mem64);
    assert forall|j: int| #![trigger a[j]] 0 <= j < a.len() implies device_agrees(a[j], b[j], s)
        && tree_agrees(a[j].children@, b[j].children@, s) by {
        if j != i {
            lemma_tree_agrees_refl(a, s);
            assert(a[j] == b[j]);
        }
    }
}

/// Whether demand `k` has been placed.
pub open spec fn done(
    devices: Seq<DiscoveredDevice>,
    demands: Seq<Demand>,
    mem64: bool,
    gaps: Seq<(u64, u64)>,
    k: int,
) -> bool {
    demands[k].mem64() == mem64 ==> {
        &&& address_of(gaps, demands, mem64, k) matches Some(addr) && holds_address(
            devices,
            demands[k],
            mem64,
            addr,
        )
        &&& demands[k] is BridgeSubtree ==> placed(
            devices[demands[k].owner()].children@,
            mem64,
            window_gaps(
                subtree_model(devices[demands[k].owner()].children@),
                mem64,
                address_of(gaps, demands, mem64, k)->0,
                demands[k].bytes(),
            ),
        )
    }
}

/// Placing the BAR of one demand leaves what is placed for others.
pub proof fn lemma_bar_keeps_done(
    a: Seq<DiscoveredDevice>,
    b: Seq<DiscoveredDevice>,
    demands: Seq<Demand>,
    mem64: bool,
    gaps: Seq<(u64, u64)>,
    k: int,
    j: int,
)
    requires
        same_elsewhere(a, b, demands[k].owner()),
        0 <= demands[k].owner() < a.len(),
        0 <= demands[j].owner() < a.len(),
        target(demands[j]) != target(demands[k]),
        done(a, demands, mem64, gaps, j),
        b[demands[k].owner()].children == a[demands[k].owner()].children,
        b[demands[k].owner()].subtree_req == a[demands[k].owner()].subtree_req,
        demands[k] is Bar ==> {
            &&& b[demands[k].owner()].sriov == a[demands[k].owner()].sriov
            &&& b[demands[k].owner()].bars@.len() == a[demands[k].owner()].bars@.len()
            &&& forall|x: int|
                #![trigger b[demands[k].owner()].bars@[x]]
                0 <= x < b[demands[k].owner()].bars@.len()
                    && a[demands[k].owner()].bars@[x].index != demands[k]->Bar_bar_index
                    ==> b[demands[k].owner()].bars@[x] == a[demands[k].owner()].bars@[x]
            &&& forall|x: int|
                #![trigger b[demands[k].owner()].bars@[x]]
                0 <= x < b[demands[k].owner()].bars@.len()
                    ==> b[demands[k].owner()].bars@[x].index
                    == a[demands[k].owner()].bars@[x].index
        },
        demands[k] is SriovVfBars ==> {
            &&& b[demands[k].owner()].bars == a[demands[k].owner()].bars
            &&& b[demands[k].owner()].sriov is Some
            &&& a[demands[k].owner()].sriov is Some
            &&& b[demands[k].owner()].sriov->0.vf_bars@.len()
                == a[demands[k].owner()].sriov->0.vf_bars@.len()
            &&& forall|x: int|
                #![trigger b[demands[k].owner()].sriov->0.vf_bars@[x]]
                0 <= x < b[demands[k].owner()].sriov->0.vf_bars@.len()
                    && a[demands[k].owner()].sriov->0.vf_bars@[x].index
                    != demands[k]->SriovVfBars_bar_index
                    ==> b[demands[k].owner()].sriov->0.vf_bars@[x]
                    == a[demands[k].owner()].sriov->0.vf_bars@[x]
            &&& forall|x: int|
                #![trigger b[demands[k].owner()].sriov->0.vf_bars@[x]]
                0 <= x < b[demands[k].owner()].sriov->0.vf_bars@.len()
                    ==> b[demands[k].owner()].sriov->0.vf_bars@[x].index
                    == a[demands[k].owner()].sriov->0.vf_bars@[x].index
        },
        !(demands[k] is BridgeSubtree),
    ensures
        done(b, demands, mem64, gaps, j),
{
    if demands[j].mem64() == mem64 && demands[j].owner() == demands[k].owner() {
        let o = demands[k].owner();
        let addr = address_of(gaps, demands, mem64, j)->0;
        assert(holds_address(a, demands[j], mem64, addr));
        match demands[j] {
            Demand::Bar { dev_idx, bar_index, .. } => {
                assert forall|x: int|
                    #![trigger b[dev_idx as int].bars@[x]]
                    0 <= x < b[dev_idx as int].bars@.len() && b[dev_idx as int].bars@[x].index
                        == bar_index implies b[dev_idx as int].bars@[x].address == Some(
                    addr as u64,
                ) by {
                    assert(a[dev_idx as int].bars@[x].index == bar_index);
                    assert(a[dev_idx as int].bars@[x].address == Some(addr as u64));
                }
            },
            Demand::SriovVfBars { dev_idx, bar_index, .. } => {
                assert forall|x: int|
                    #![trigger b[dev_idx as int].sriov->0.vf_bars@[x]]
                    0 <= x < b[dev_idx as int].sriov->0.vf_bars@.len()
                        && b[dev_idx as int].sriov->0.vf_bars@[x].index
                        == bar_index implies b[dev_idx as int].sriov->0.vf_bars@[x].address == Some(
                    addr as u64,
                ) by {
                    assert(a[dev_idx as int].sriov->0.vf_bars@[x].index == bar_index);
                    assert(a[dev_idx as int].sriov->0.vf_bars@[x].address == Some(addr as u64));
                }
            },
            _ => {},
        }
    }
}

/// Placing one window, and what lies behind it, leaves what is placed for
/// others.
pub proof fn lemma_window_keeps_done(
    a: Seq<DiscoveredDevice>,
    b: Seq<DiscoveredDevice>,
    demands: Seq<Demand>,
    mem64: bool,
    gaps: Seq<(u64, u64)>,
    k: int,
    j: int,
)
    requires
        same_elsewhere(a, b, demands[k].owner()),
        0 <= demands[k].owner() < a.len(),
        0 <= demands[j].owner() < a.len(),
        target(demands[j]) != target(demands[k]),
        done(a, demands, mem64, gaps, j),
        demands[k] is BridgeSubtree,
        demands[k].mem64() == mem64,
        b[demands[k].owner()].bars == a[demands[k].owner()].bars,
        b[demands[k].owner()].sriov == a[demands[k].owner()].sriov,
    ensures
        done(b, demands, mem64, gaps, j),
{
    if demands[j].mem64() == mem64 {
        let addr = address_of(gaps, demands, mem64, j)->0;
        assert(holds_address(a, demands[j], mem64, addr));
        if demands[j] is BridgeSubtree {
            assert(demands[j].owner() != demands[k].owner());
        }
        match demands[j] {
            Demand::Bar { dev_idx, bar_index, .. } => {
                assert(b[dev_idx as int].bars@ == a[dev_idx as int].bars@);
                assert forall|x: int|
                    #![trigger b[dev_idx as int].bars@[x]]
                    0 <= x < b[dev_idx as int].bars@.len() && b[dev_idx as int].bars@[x].index
                        == bar_index implies b[dev_idx as int].bars@[x].address == Some(
                    addr as u64,
                ) by {
                    assert(a[dev_idx as int].bars@[x].index == bar_index);
                }
            },
            Demand::SriovVfBars { dev_idx, bar_index, .. } => {
                assert(b[dev_idx as int].sriov == a[dev_idx as int].sriov);
                assert forall|x: int|
                    #![trigger b[dev_idx as int].sriov->0.vf_bars@[x]]
                    0 <= x < b[dev_idx as int].sriov->0.vf_bars@.len()
                        && b[dev_idx as int].sriov->0.vf_bars@[x].index
                        == bar_index implies b[dev_idx as int].sriov->0.vf_bars@[x].address == Some(
                    addr as u64,
                ) by {
                    assert(a[dev_idx as int].sriov->0.vf_bars@[x].index == bar_index);
                }
            },
            _ => {},
        }
    }
}

/// Whether the window of bridge `i` is among the first `k` demands.
pub open spec fn visited(demands: Seq<Demand>, mem64: bool, k: int, i: int) -> bool {
    exists|j: int|
        #![trigger demands[j]]
        0 <= j < k && demands[j] is BridgeSubtree && demands[j].mem64() == mem64
            && demands[j].owner() == i
}

/// What the assignment of one pool has reached after `k` demands.
#[verifier::opaque]
pub open spec fn progress(
    before: Seq<DiscoveredDevice>,
    devices: Seq<DiscoveredDevice>,
    demands: Seq<Demand>,
    mem64: bool,
    gaps: Seq<(u64, u64)>,
    k: int,
) -> bool {
    &&& tree_agrees(before, devices, pool_scope(mem64))
    &&& forall|j: int|
        #![trigger demands[j]]
        0 <= j < k ==> done(devices, demands, mem64, gaps, j)
    &&& forall|i: int|
        #![trigger devices[i]]
        #![trigger before[i]]
        0 <= i < before.len() ==> if visited(demands, mem64, k, i) {
            unneeded_unset(devices[i].children@, mem64)
        } else {
            devices[i].children@ == before[i].children@ && devices[i].subtree_req
                == before[i].subtree_req
        }
}

/// Setting the address of a BAR stays within the scope of its pool.
proof fn lemma_bar_device(
    x: DiscoveredDevice,
    p: DiscoveredDevice,
    q: DiscoveredDevice,
    d: Demand,
    o: int,
    y: int,
    addr: int,
)
    requires
        device_ok(x),
        device_agrees(x, p, pool_scope(d.mem64())),
        0 <= y < x.bars@.len(),
        d == bar_demand(x.bars@[y], o),
        q.children == p.children,
        q.subtree_req == p.subtree_req,
        q.sriov == p.sriov,
        q.bus == p.bus && q.device == p.device && q.function == p.function,
        q.is_bridge == p.is_bridge && q.secondary_bus == p.secondary_bus && q.subordinate_bus
            == p.subordinate_bus,
        q.bars@.len() == p.bars@.len(),
        forall|z: int|
            #![trigger q.bars@[z]]
            0 <= z < p.bars@.len() ==> q.bars@[z] == if p.bars@[z].index == d->Bar_bar_index {
                DiscoveredBar { address: Some(addr as u64), ..p.bars@[z] }
            } else {
                p.bars@[z]
            },
    ensures
        device_agrees(p, q, pool_scope(d.mem64())),
{
    let s = pool_scope(d.mem64());
    assert forall|z: int| #![trigger p.bars@[z]] 0 <= z < p.bars@.len() implies bar_agrees(
        p.bars@[z],
        q.bars@[z],
        bar_mem64(p.bars@[z]),
        s,
    ) by {
        assert(bar_agrees(x.bars@[z], p.bars@[z], bar_mem64(x.bars@[z]), s));
        let u = crate::resource::device::bar_shape(x.bars@[z]);
        let v = crate::resource::device::bar_shape(p.bars@[z]);
        assert(u.index == v.index && u.is_64bit == v.is_64bit && u.is_prefetchable
            == v.is_prefetchable && u.pinned_address == v.pinned_address);
        if p.bars@[z].index == d->Bar_bar_index {
            if z != y {
                assert(x.bars@[z].index != x.bars@[y].index);
            }
            assert(bar_mem64(p.bars@[z]) == d.mem64());
        }
    }
    assert(bars_agree(p.bars@, q.bars@, s));
}

/// Setting the address of a VF BAR stays within the scope of its pool.
proof fn lemma_vf_device(
    x: DiscoveredDevice,
    p: DiscoveredDevice,
    q: DiscoveredDevice,
    d: Demand,
    o: int,
    y: int,
    addr: int,
)
    requires
        device_ok(x),
        device_agrees(x, p, pool_scope(d.mem64())),
        x.sriov is Some,
        0 <= y < x.sriov->0.vf_bars@.len(),
        d == vf_demand(x.sriov->0.vf_bars@[y], x.sriov->0.total_vfs, o),
        q.children == p.children,
        q.subtree_req == p.subtree_req,
        q.bars == p.bars,
        q.bus == p.bus && q.device == p.device && q.function == p.function,
        q.is_bridge == p.is_bridge && q.secondary_bus == p.secondary_bus && q.subordinate_bus
            == p.subordinate_bus,
        p.sriov is Some && q.sriov is Some,
        q.sriov->0.cap_offset == p.sriov->0.cap_offset,
        q.sriov->0.total_vfs == p.sriov->0.total_vfs,
        q.sriov->0.vf_bars@.len() == p.sriov->0.vf_bars@.len(),
        forall|z: int|
            #![trigger q.sriov->0.vf_bars@[z]]
            0 <= z < p.sriov->0.vf_bars@.len() ==> q.sriov->0.vf_bars@[z]
                == if p.sriov->0.vf_bars@[z].index == d->SriovVfBars_bar_index {
                DiscoveredBar { address: Some(addr as u64), ..p.sriov->0.vf_bars@[z] }
            } else {
                p.sriov->0.vf_bars@[z]
            },
    ensures
        device_agrees(p, q, pool_scope(d.mem64())),
{
    let s = pool_scope(d.mem64());
    let xv = x.sriov->0.vf_bars@;
    let pv = p.sriov->0.vf_bars@;
    let qv = q.sriov->0.vf_bars@;
    assert forall|z: int| #![trigger pv[z]] 0 <= z < pv.len() implies bar_agrees(
        pv[z],
        qv[z],
        mem64_kind(pv[z]),
        s,
    ) by {
        assert(bar_agrees(xv[z], pv[z], mem64_kind(xv[z]), s));
        let u = crate::resource::device::bar_shape(xv[z]);
        let v = crate::resource::device::bar_shape(pv[z]);
        assert(u.index == v.index && u.is_64bit == v.is_64bit && u.is_prefetchable
            == v.is_prefetchable);
        if pv[z].index == d->SriovVfBars_bar_index {
            if z != y {
                assert(xv[z].index != xv[y].index);
            }
            assert(mem64_kind(pv[z]) == d.mem64());
        }
    }
    assert(crate::resource::device::vf_bars_agree(pv, qv, s));
    lemma_tree_agrees_refl(p.children@, s);
}

/// A step that places demand `k` and keeps the others is progress.
proof fn lemma_finish_step(
    before: Seq<DiscoveredDevice>,
    a: Seq<DiscoveredDevice>,
    b: Seq<DiscoveredDevice>,
    demands: Seq<Demand>,
    mem64: bool,
    gaps: Seq<(u64, u64)>,
    k: int,
)
    requires
        progress(before, a, demands, mem64, gaps, k),
        0 <= k < demands.len(),
        0 <= demands[k].owner() < a.len(),
        demands[k].mem64() == mem64,
        same_elsewhere(a, b, demands[k].owner()),
        device_agrees(a[demands[k].owner()], b[demands[k].owner()], pool_scope(mem64)),
        tree_agrees(
            a[demands[k].owner()].children@,
            b[demands[k].owner()].children@,
            pool_scope(mem64),
        ),
        if demands[k] is BridgeSubtree {
            unneeded_unset(b[demands[k].owner()].children@, mem64)
        } else {
            &&& b[demands[k].owner()].children@ == a[demands[k].owner()].children@
            &&& b[demands[k].owner()].subtree_req == a[demands[k].owner()].subtree_req
        },
        forall|j: int|
            #![trigger demands[j]]
            0 <= j <= k ==> done(b, demands, mem64, gaps, j),
    ensures
        progress(before, b, demands, mem64, gaps, k + 1),
{
    reveal(progress);
    let o = demands[k].owner();
    let s = pool_scope(mem64);
    lemma_one_device_agrees(a, b, o, mem64);
    lemma_tree_agrees_trans(before, a, b, s);
    assert forall|i: int|
        #![trigger b[i]]
        0 <= i < before.len() implies if visited(demands, mem64, k + 1, i) {
        unneeded_unset(b[i].children@, mem64)
    } else {
        b[i].children@ == before[i].children@ && b[i].subtree_req == before[i].subtree_req
    } by {
        lemma_visited(demands, mem64, k, i);
        assert(a[i] == a[i]);
    }
}

/// What is known of the demands when one of them is placed.
proof fn lemma_step_start(
    before: Seq<DiscoveredDevice>,
    a: Seq<DiscoveredDevice>,
    demands: Seq<Demand>,
    mem64: bool,
    gaps: Seq<(u64, u64)>,
    k: int,
)
    requires
        level_ready(before, demands, mem64, gaps),
        progress(before, a, demands, mem64, gaps, k),
        0 <= k < demands.len(),
    ensures
        demand_of(before, demands[k]),
        a.len() == before.len(),
        device_ok(before[demands[k].owner()]),
        device_agrees(before[demands[k].owner()], a[demands[k].owner()], pool_scope(mem64)),
        forall|j: int|
            #![trigger demands[j]]
            0 <= j < k ==> {
                &&& 0 <= demands[j].owner() < a.len()
                &&& target(demands[j]) != target(demands[k])
                &&& done(a, demands, mem64, gaps, j)
            },
{
    reveal(level_ready);
    reveal(progress);
    assert(demand_of(before, demands[k]));
    assert(device_ok(before[demands[k].owner()]));
    assert forall|j: int| #![trigger demands[j]] 0 <= j < k implies {
        &&& 0 <= demands[j].owner() < a.len()
        &&& target(demands[j]) != target(demands[k])
        &&& done(a, demands, mem64, gaps, j)
    } by {
        assert(demand_of(before, demands[j]));
    }
}

pub proof fn lemma_bar_step(
    before: Seq<DiscoveredDevice>,
    a: Seq<DiscoveredDevice>,
    b: Seq<DiscoveredDevice>,
    demands: Seq<Demand>,
    mem64: bool,
    gaps: Seq<(u64, u64)>,
    k: int,
    addr: int,
)
    requires
        level_ready(before, demands, mem64, gaps),
        0 <= k < demands.len(),
        demands[k] is Bar,
        progress(before, a, demands, mem64, gaps, k),
        demands[k].mem64() == mem64,
        address_of(gaps, demands, mem64, k) == Some(addr),
        same_elsewhere(a, b, demands[k].owner()),
        ({
            let o = demands[k].owner();
            &&& b[o].children == a[o].children
            &&& b[o].subtree_req == a[o].subtree_req
            &&& b[o].sriov == a[o].sriov
            &&& b[o].bus == a[o].bus && b[o].device == a[o].device && b[o].function
                == a[o].function
            &&& b[o].is_bridge == a[o].is_bridge && b[o].secondary_bus == a[o].secondary_bus
                && b[o].subordinate_bus == a[o].subordinate_bus
            &&& b[o].bars@.len() == a[o].bars@.len()
            &&& forall|x: int|
                #![trigger b[o].bars@[x]]
                0 <= x < a[o].bars@.len() ==> b[o].bars@[x] == if a[o].bars@[x].index
                    == demands[k]->Bar_bar_index {
                    DiscoveredBar { address: Some(addr as u64), ..a[o].bars@[x] }
                } else {
                    a[o].bars@[x]
                }
        }),
    ensures
        progress(before, b, demands, mem64, gaps, k + 1),
{
    let o = demands[k].owner();
    let s = pool_scope(mem64);
    lemma_step_start(before, a, demands, mem64, gaps, k);
    let y = choose|y: int|
        #![trigger before[o].bars@[y]]
        0 <= y < before[o].bars@.len() && demands[k] == bar_demand(before[o].bars@[y], o);
    lemma_bar_device(before[o], a[o], b[o], demands[k], o, y, addr);
    lemma_tree_agrees_refl(a[o].children@, s);
    assert forall|j: int| #![trigger demands[j]] 0 <= j <= k implies done(
        b,
        demands,
        mem64,
        gaps,
        j,
    ) by {
        if j < k {
            lemma_bar_keeps_done(a, b, demands, mem64, gaps, k, j);
        }
    }
    lemma_finish_step(before, a, b, demands, mem64, gaps, k);
}

pub proof fn lemma_vf_step(
    before: Seq<DiscoveredDevice>,
    a: Seq<DiscoveredDevice>,
    b: Seq<DiscoveredDevice>,
    demands: Seq<Demand>,
    mem64: bool,
    gaps: Seq<(u64, u64)>,
    k: int,
    addr: int,
)
    requires
        level_ready(before, demands, mem64, gaps),
        0 <= k < demands.len(),
        demands[k] is SriovVfBars,
        progress(before, a, demands, mem64, gaps, k),
        demands[k].mem64() == mem64,
        address_of(gaps, demands, mem64, k) == Some(addr),
        same_elsewhere(a, b, demands[k].owner()),
        ({
            let o = demands[k].owner();
            &&& b[o].children == a[o].children
            &&& b[o].subtree_req == a[o].subtree_req
            &&& b[o].bars == a[o].bars
            &&& b[o].bus == a[o].bus && b[o].device == a[o].device && b[o].function
                == a[o].function
            &&& b[o].is_bridge == a[o].is_bridge && b[o].secondary_bus == a[o].secondary_bus
                && b[o].subordinate_bus == a[o].subordinate_bus
            &&& a[o].sriov is Some && b[o].sriov is Some
            &&& b[o].sriov->0.cap_offset == a[o].sriov->0.cap_offset
            &&& b[o].sriov->0.total_vfs == a[o].sriov->0.total_vfs
            &&& b[o].sriov->0.vf_bars@.len() == a[o].sriov->0.vf_bars@.len()
            &&& forall|x: int|
                #![trigger b[o].sriov->0.vf_bars@[x]]
                0 <= x < a[o].sriov->0.vf_bars@.len() ==> b[o].sriov->0.vf_bars@[x]
                    == if a[o].sriov->0.vf_bars@[x].index == demands[k]->SriovVfBars_bar_index {
                    DiscoveredBar { address: Some(addr as u64), ..a[o].sriov->0.vf_bars@[x] }
                } else {
                    a[o].sriov->0.vf_bars@[x]
                }
        }),
    ensures
        progress(before, b, demands, mem64, gaps, k + 1),
{
    let o = demands[k].owner();
    let s = pool_scope(mem64);
    lemma_step_start(before, a, demands, mem64, gaps, k);
    let sr = before[o].sriov->0;
    let y = choose|y: int|
        #![trigger sr.vf_bars@[y]]
        0 <= y < sr.vf_bars@.len() && demands[k] == vf_demand(sr.vf_bars@[y], sr.total_vfs, o);
    lemma_vf_device(before[o], a[o], b[o], demands[k], o, y, addr);
    lemma_tree_agrees_refl(a[o].children@, s);
    assert forall|j: int| #![trigger demands[j]] 0 <= j <= k implies done(
        b,
        demands,
        mem64,
        gaps,
        j,
    ) by {
        if j < k {
            lemma_bar_keeps_done(a, b, demands, mem64, gaps, k, j);
        }
    }
    lemma_finish_step(before, a, b, demands, mem64, gaps, k);
}

pub proof fn lemma_visited(demands: Seq<Demand>, mem64: bool, k: int, i: int)
    requires
        0 <= k,
    ensures
        visited(demands, mem64, k + 1, i) <==> visited(demands, mem64, k, i) || (
        demands[k] is BridgeSubtree && demands[k].mem64() == mem64 && demands[k].owner() == i),
{
    if visited(demands, mem64, k, i) {
        let j = choose|j: int|
            #![trigger demands[j]]
            0 <= j < k && demands[j] is BridgeSubtree && demands[j].mem64() == mem64
                && demands[j].owner() == i;
        assert(demands[j].owner() == i);
    }
    if visited(demands, mem64, k + 1, i) && !visited(demands, mem64, k, i) {
        let j = choose|j: int|
            #![trigger demands[j]]
            0 <= j < k + 1 && demands[j] is BridgeSubtree && demands[j].mem64() == mem64
                && demands[j].owner() == i;
        assert(j == k);
    }
}

pub proof fn lemma_window_step(
    before: Seq<DiscoveredDevice>,
    a: Seq<DiscoveredDevice>,
    b: Seq<DiscoveredDevice>,
    demands: Seq<Demand>,
    mem64: bool,
    gaps: Seq<(u64, u64)>,
    k: int,
    addr: int,
)
    requires
        level_ready(before, demands, mem64, gaps),
        0 <= k < demands.len(),
        demands[k] is BridgeSubtree,
        progress(before, a, demands, mem64, gaps, k),
        demands[k].mem64() == mem64,
        address_of(gaps, demands, mem64, k) == Some(addr),
        same_elsewhere(a, b, demands[k].owner()),
        ({
            let o = demands[k].owner();
            &&& device_agrees(a[o], b[o], pool_scope(mem64))
            &&& tree_agrees(a[o].children@, b[o].children@, pool_scope(mem64))
            &&& b[o].bars == a[o].bars
            &&& b[o].sriov == a[o].sriov
            &&& b[o].subtree_req matches Some(req) && window_of(req, mem64) == Some(
                (addr as u64, (addr + demands[k].bytes() - 1) as u64),
            )
            &&& placed(
                b[o].children@,
                mem64,
                window_gaps(subtree_model(a[o].children@), mem64, addr, demands[k].bytes()),
            )
            &&& unneeded_unset(b[o].children@, mem64)
        }),
    ensures
        progress(before, b, demands, mem64, gaps, k + 1),
{
    let o = demands[k].owner();
    lemma_step_start(before, a, demands, mem64, gaps, k);
    lemma_subtree_model_agrees(a[o].children@, b[o].children@, pool_scope(mem64));
    assert forall|j: int| #![trigger demands[j]] 0 <= j <= k implies done(
        b,
        demands,
        mem64,
        gaps,
        j,
    ) by {
        if j < k {
            lemma_window_keeps_done(a, b, demands, mem64, gaps, k, j);
        }
    }
    lemma_finish_step(before, a, b, demands, mem64, gaps, k);
}

/// Skipping a demand of the other pool keeps what is reached.
pub proof fn lemma_skip_step(
    before: Seq<DiscoveredDevice>,
    a: Seq<DiscoveredDevice>,
    demands: Seq<Demand>,
    mem64: bool,
    gaps: Seq<(u64, u64)>,
    k: int,
)
    requires
        progress(before, a, demands, mem64, gaps, k),
        0 <= k,
        demands[k].mem64() != mem64,
    ensures
        progress(before, a, demands, mem64, gaps, k + 1),
{
    reveal(progress);
    assert forall|i: int|
        #![trigger a[i]]
        0 <= i < before.len() implies if visited(demands, mem64, k + 1, i) {
        unneeded_unset(a[i].children@, mem64)
    } else {
        a[i].children@ == before[i].children@ && a[i].subtree_req == before[i].subtree_req
    } by {
        lemma_visited(demands, mem64, k, i);
    }
}

/// What has to hold of a level before its demands are placed.
#[verifier::opaque]
pub open spec fn level_ready(
    before: Seq<DiscoveredDevice>,
    demands: Seq<Demand>,
    mem64: bool,
    gaps: Seq<(u64, u64)>,
) -> bool {
    &&& tree_ok(before)
    &&& windows_fit(before)
    &&& states_ok(before)
    &&& before.len() <= usize::MAX
    &&& demands == subtree_model(before).demands
    &&& demands_cover(before, demands)
    &&& demands_valid(demands)
    &&& placeable(before, mem64, gaps)
    &&& unneeded_unset(before, mem64)
}

pub proof fn lemma_level_ready(
    before: Seq<DiscoveredDevice>,
    demands: Seq<Demand>,
    mem64: bool,
    gaps: Seq<(u64, u64)>,
)
    requires
        tree_ok(before),
        windows_fit(before),
        states_ok(before),
        before.len() <= usize::MAX,
        demands == subtree_model(before).demands,
        placeable(before, mem64, gaps),
        unneeded_unset(before, mem64),
    ensures
        level_ready(before, demands, mem64, gaps),
        progress(before, before, demands, mem64, gaps, 0),
{
    reveal(level_ready);
    reveal(progress);
    lemma_sorted_cover(before);
    lemma_level_demands(before);
    lemma_sorted_valid(level_demands(before));
    lemma_tree_agrees_refl(before, pool_scope(mem64));
}

/// What is known when demand `k` is about to be placed.
pub proof fn lemma_step_facts(
    before: Seq<DiscoveredDevice>,
    cur: Seq<DiscoveredDevice>,
    demands: Seq<Demand>,
    mem64: bool,
    gaps: Seq<(u64, u64)>,
    k: int,
)
    requires
        level_ready(before, demands, mem64, gaps),
        progress(before, cur, demands, mem64, gaps, k),
        0 <= k < demands.len(),
        demands[k].mem64() == mem64,
    ensures
        demands[k].valid(),
        0 <= demands[k].owner() < before.len(),
        cur.len() == before.len(),
        address_of(gaps, demands, mem64, k) matches Some(addr) && addr + demands[k].bytes()
            <= u64::MAX,
        device_ok(cur[demands[k].owner()]),
        demands[k] is SriovVfBars ==> cur[demands[k].owner()].sriov is Some,
        demands[k] is BridgeSubtree ==> ({
            let o = demands[k].owner();
            let kids = before[o].children@;
            let addr = address_of(gaps, demands, mem64, k)->0;
            &&& cur[o].is_bridge
            &&& cur[o].children@ == kids
            &&& cur[o].subtree_req matches Some(req) && req.matches_model(subtree_model(kids))
            &&& tree_ok(kids)
            &&& windows_fit(kids)
            &&& states_ok(kids)
            &&& unneeded_unset(kids, mem64)
            &&& kids.len() <= usize::MAX
            &&& placeable(
                kids,
                mem64,
                window_gaps(subtree_model(kids), mem64, addr, demands[k].bytes()),
            )
        }),
{
    reveal(level_ready);
    reveal(progress);
    let o = demands[k].owner();
    let s = pool_scope(mem64);
    assert(demand_of(before, demands[k]));
    assert(demands[k].valid());
    let addr = address_of(gaps, demands, mem64, k)->0;
    lemma_window_end(demands, mem64, gaps, k, addr);
    assert(device_ok(before[o]));
    assert(device_agrees(before[o], cur[o], s));
    lemma_tree_ok_agrees(before, cur, s);
    assert(device_ok(cur[o]));
    if demands[k] is BridgeSubtree {
        assert(!visited(demands, mem64, k, o)) by {
            if visited(demands, mem64, k, o) {
                let j = choose|j: int|
                    #![trigger demands[j]]
                    0 <= j < k && demands[j] is BridgeSubtree && demands[j].mem64() == mem64
                        && demands[j].owner() == o;
                assert(target(demands[j]) == target(demands[k]));
            }
        }
        assert(cur[o].children@ == before[o].children@);
        assert(before[o].is_bridge);
        assert(before[o].children.len() <= usize::MAX);
        lemma_states_agree(before, cur, mem64);
    }
}

/// When all demands are placed, the level is.
pub proof fn lemma_level_placed(
    before: Seq<DiscoveredDevice>,
    cur: Seq<DiscoveredDevice>,
    demands: Seq<Demand>,
    mem64: bool,
    gaps: Seq<(u64, u64)>,
)
    requires
        level_ready(before, demands, mem64, gaps),
        progress(before, cur, demands, mem64, gaps, demands.len() as int),
    ensures
        tree_agrees(before, cur, pool_scope(mem64)),
        placed(cur, mem64, gaps),
        unneeded_unset(cur, mem64),
{
    reveal(level_ready);
    reveal(progress);
    lemma_subtree_model_agrees(before, cur, pool_scope(mem64));
    let ds = subtree_model(cur).demands;
    assert(ds == demands);
    assert forall|j: int|
        #![trigger ds[j]]
        0 <= j < ds.len() && ds[j].mem64() == mem64 implies done(cur, demands, mem64, gaps, j) by {
        assert(done(cur, demands, mem64, gaps, j));
    }
    assert forall|i: int|
        #![trigger cur[i]]
        0 <= i < cur.len() && cur[i].is_bridge implies {
        &&& subtree_model(cur[i].children@).pool(mem64).mem <= 0 ==> (
        cur[i].subtree_req matches Some(req) && window_of(req, mem64) is None)
        &&& unneeded_unset(cur[i].children@, mem64)
    } by {
        assert(device_agrees(before[i], cur[i], pool_scope(mem64)));
        assert(tree_agrees(before[i].children@, cur[i].children@, pool_scope(mem64)));
        lemma_subtree_model_agrees(before[i].children@, cur[i].children@, pool_scope(mem64));
        if visited(demands, mem64, demands.len() as int, i) {
            let j = choose|j: int|
                #![trigger demands[j]]
                0 <= j < demands.len() && demands[j] is BridgeSubtree && demands[j].mem64()
                    == mem64 && demands[j].owner() == i;
            assert(demand_of(before, demands[j]));
        }
    }
}

}
