//! How the demands of a level belong to its devices.
use crate::resource::demand::Demand;
use crate::resource::device::device_ok;
use crate::resource::device::tree_ok;
use crate::resource::device::DiscoveredDevice;
use crate::resource::sizing::bar_demand;
use crate::resource::sizing::level_demands;
use crate::resource::sizing::own_demands;
use crate::resource::sizing::subtree_model;
use crate::resource::sizing::vf_demand;
use crate::resource::sizing::window_demand;
use crate::resource::sort::insert_by_key;
use crate::resource::sort::lemma_sorted_contains;
use crate::resource::sort::sorted_by_key;
use crate::resource::sort::SortKey;
use vstd::prelude::*;

verus! {

/// What a demand is for.
pub enum Target {
    /// A BAR of a device.
    Bar(int, int),
    /// One of a bridge's windows.
    Window(int, bool),
    /// A VF BAR of a device.
    VfBar(int, int),
}

/// What the demand is for.
pub open spec fn target(d: Demand) -> Target {
    match d {
        Demand::Bar { dev_idx, bar_index, .. } => Target::Bar(dev_idx as int, bar_index as int),
        Demand::BridgeSubtree { dev_idx, is_mem64, .. } => Target::Window(dev_idx as int, is_mem64),
        Demand::SriovVfBars { dev_idx, bar_index, .. } => Target::VfBar(
            dev_idx as int,
            bar_index as int,
        ),
    }
}

/// Whether no two demands are for the same thing.
pub open spec fn distinct_targets(demands: Seq<Demand>) -> bool {
    forall|i: int, j: int|
        #![trigger demands[i], demands[j]]
        0 <= i < j < demands.len() ==> target(demands[i]) != target(demands[j])
}

proof fn lemma_insert_distinct(s: Seq<Demand>, x: Demand)
    requires
        distinct_targets(s),
        forall|i: int| 0 <= i < s.len() ==> target(#[trigger] s[i]) != target(x),
    ensures
        distinct_targets(insert_by_key(s, x)),
        forall|i: int|
            0 <= i < insert_by_key(s, x).len() ==> (#[trigger] insert_by_key(s, x)[i]) == x
                || s.contains(insert_by_key(s, x)[i]),
    decreases s.len(),
{
    let r = insert_by_key(s, x);
    if s.len() == 0 || s.last().key() <= x.key() {
        assert forall|i: int| 0 <= i < r.len() implies (#[trigger] r[i]) == x || s.contains(
            r[i],
        ) by {
            if i < s.len() {
                assert(s[i] == r[i]);
            }
        }
    } else {
        let init = s.drop_last();
        assert forall|i: int| 0 <= i < init.len() implies target(#[trigger] init[i]) != target(
            x,
        ) by {
            assert(init[i] == s[i]);
        }
        lemma_insert_distinct(init, x);
        let q = insert_by_key(init, x);
        let n = s.len() - 1;
        assert forall|i: int| 0 <= i < q.len() implies target(#[trigger] q[i]) != target(
            s[n],
        ) by {
            if q[i] != x {
                let w = choose|w: int| 0 <= w < init.len() && init[w] == q[i];
                assert(target(s[w]) != target(s[n]));
            } else {
                assert(target(s[n]) != target(x));
            }
        }
        assert forall|i: int| 0 <= i < r.len() implies (#[trigger] r[i]) == x || s.contains(
            r[i],
        ) by {
            if i < q.len() {
                assert(q[i] == r[i]);
                if q[i] != x {
                    let w = choose|w: int| 0 <= w < init.len() && init[w] == q[i];
                    assert(s[w] == q[i]);
                }
            } else {
                assert(s[n] == r[i]);
            }
        }
    }
}

/// Sorting keeps targets distinct.
pub proof fn lemma_sorted_distinct(s: Seq<Demand>)
    requires
        distinct_targets(s),
    ensures
        distinct_targets(sorted_by_key(s)),
    decreases s.len(),
{
    if s.len() > 0 {
        let init = s.drop_last();
        assert(distinct_targets(init)) by {
            assert forall|i: int, j: int|
                #![trigger init[i], init[j]]
                0 <= i < j < init.len() implies target(init[i]) != target(init[j]) by {
                assert(init[i] == s[i] && init[j] == s[j]);
            }
        }
        lemma_sorted_distinct(init);
        lemma_sorted_contains(init);
        let q = sorted_by_key(init);
        let n = s.len() - 1;
        assert forall|i: int| 0 <= i < q.len() implies target(#[trigger] q[i]) != target(s[n]) by {
            assert(q.contains(q[i]));
            assert(init.contains(q[i]));
            let w = choose|w: int| 0 <= w < init.len() && init[w] == q[i];
            assert(target(s[w]) != target(s[n]));
        }
        lemma_insert_distinct(q, s.last());
    }
}

/// Whether the demand is that of a BAR, VF BAR or window of the level.
pub open spec fn demand_of(devices: Seq<DiscoveredDevice>, d: Demand) -> bool {
    &&& 0 <= d.owner() < devices.len()
    &&& match d {
        Demand::Bar { dev_idx, bar_index, .. } => exists|j: int|
            #![trigger devices[dev_idx as int].bars@[j]]
            0 <= j < devices[dev_idx as int].bars@.len() && d == bar_demand(
                devices[dev_idx as int].bars@[j],
                dev_idx as int,
            ),
        Demand::SriovVfBars { dev_idx, bar_index, .. } => devices[dev_idx as int].sriov matches Some(
            sriov,
        ) && exists|j: int|
            #![trigger sriov.vf_bars@[j]]
            0 <= j < sriov.vf_bars@.len() && d == vf_demand(
                sriov.vf_bars@[j],
                sriov.total_vfs,
                dev_idx as int,
            ),
        Demand::BridgeSubtree { dev_idx, is_mem64, .. } => {
            let m = subtree_model(devices[dev_idx as int].children@);
            &&& devices[dev_idx as int].is_bridge
            &&& m.pool(is_mem64).mem > 0
            &&& d == window_demand(m.pool(is_mem64), dev_idx as int, is_mem64)[0]
        },
    }
}

/// Every demand is that of a BAR, VF BAR or window of the level, each BAR and
/// VF BAR and each window that is needed has its demand, and no two demands
/// are for the same thing.
pub open spec fn demands_cover(devices: Seq<DiscoveredDevice>, demands: Seq<Demand>) -> bool {
    &&& forall|k: int| 0 <= k < demands.len() ==> demand_of(devices, #[trigger] demands[k])
    &&& forall|i: int, j: int|
        #![trigger devices[i].bars@[j]]
        0 <= i < devices.len() && 0 <= j < devices[i].bars@.len() ==> demands.contains(
            bar_demand(devices[i].bars@[j], i),
        )
    &&& forall|i: int, j: int|
        #![trigger devices[i].sriov->0.vf_bars@[j]]
        0 <= i < devices.len() && devices[i].sriov is Some && 0 <= j
            < devices[i].sriov->0.vf_bars@.len() ==> demands.contains(
            vf_demand(devices[i].sriov->0.vf_bars@[j], devices[i].sriov->0.total_vfs, i),
        )
    &&& forall|i: int, p: bool|
        #![trigger subtree_model(devices[i].children@).pool(p)]
        0 <= i < devices.len() && devices[i].is_bridge && subtree_model(
            devices[i].children@,
        ).pool(p).mem > 0 ==> demands.contains(
            window_demand(subtree_model(devices[i].children@).pool(p), i, p)[0],
        )
    &&& distinct_targets(demands)
}

proof fn lemma_own_distinct(dev: DiscoveredDevice, idx: int)
    requires
        device_ok(dev),
    ensures
        distinct_targets(own_demands(dev, idx)),
{
    let own = own_demands(dev, idx);
    let nb = dev.bars@.len() as int;
    assert forall|i: int, j: int|
        #![trigger own[i], own[j]]
        0 <= i < j < own.len() implies target(own[i]) != target(own[j]) by {
        if j < nb {
            assert(own[i] == bar_demand(dev.bars@[i], idx));
            assert(own[j] == bar_demand(dev.bars@[j], idx));
            assert(dev.bars@[i].index != dev.bars@[j].index);
        } else {
            let sriov = dev.sriov->0;
            assert(own[j] == vf_demand(sriov.vf_bars@[j - nb], sriov.total_vfs, idx));
            if i < nb {
                assert(own[i] == bar_demand(dev.bars@[i], idx));
            } else {
                assert(own[i] == vf_demand(sriov.vf_bars@[i - nb], sriov.total_vfs, idx));
                assert(sriov.vf_bars@[i - nb].index != sriov.vf_bars@[j - nb].index);
            }
        }
    }
}

/// The demands that the last device of a level adds.
pub open spec fn last_demands(devices: Seq<DiscoveredDevice>) -> Seq<Demand> {
    let idx = devices.len() - 1;
    let dev = devices.last();
    own_demands(dev, idx) + if dev.is_bridge {
        window_demand(subtree_model(dev.children@).pool(false), idx, false) + window_demand(
            subtree_model(dev.children@).pool(true),
            idx,
            true,
        )
    } else {
        Seq::empty()
    }
}

proof fn lemma_level_split(devices: Seq<DiscoveredDevice>)
    requires
        devices.len() > 0,
    ensures
        level_demands(devices) == level_demands(devices.drop_last()) + last_demands(devices),
{
    assert(level_demands(devices) =~= level_demands(devices.drop_last()) + last_demands(devices));
}

proof fn lemma_last_of(devices: Seq<DiscoveredDevice>, k: int)
    requires
        0 < devices.len() <= usize::MAX,
        0 <= k < last_demands(devices).len(),
    ensures
        demand_of(devices, last_demands(devices)[k]),
        last_demands(devices)[k].owner() == devices.len() - 1,
{
    let idx = devices.len() - 1;
    let dev = devices[idx];
    let own = own_demands(dev, idx);
    let nb = dev.bars@.len() as int;
    let d = last_demands(devices)[k];
    if k < nb {
        assert(d == bar_demand(devices[idx].bars@[k], idx));
    } else if k < own.len() {
        let sriov = dev.sriov->0;
        assert(d == vf_demand(sriov.vf_bars@[k - nb], sriov.total_vfs, idx));
    } else {
        let w32 = window_demand(subtree_model(dev.children@).pool(false), idx, false);
        let w64 = window_demand(subtree_model(dev.children@).pool(true), idx, true);
        if k - own.len() < w32.len() {
            assert(d == w32[k - own.len()]);
        } else {
            assert(d == w64[k - own.len() - w32.len()]);
        }
    }
}

proof fn lemma_last_distinct(devices: Seq<DiscoveredDevice>)
    requires
        devices.len() > 0,
        device_ok(devices.last()),
    ensures
        distinct_targets(last_demands(devices)),
{
    let idx = devices.len() - 1;
    let dev = devices.last();
    let own = own_demands(dev, idx);
    let all = last_demands(devices);
    let nb = dev.bars@.len() as int;
    lemma_own_distinct(dev, idx);
    assert forall|i: int, j: int|
        #![trigger all[i], all[j]]
        0 <= i < j < all.len() implies target(all[i]) != target(all[j]) by {
        if j < own.len() {
            assert(all[i] == own[i] && all[j] == own[j]);
        } else {
            let w32 = window_demand(subtree_model(dev.children@).pool(false), idx, false);
            let w64 = window_demand(subtree_model(dev.children@).pool(true), idx, true);
            if j - own.len() < w32.len() {
                assert(all[j] == w32[j - own.len()]);
            } else {
                assert(all[j] == w64[j - own.len() - w32.len()]);
            }
            if i < own.len() {
                assert(all[i] == own[i]);
                if i < nb {
                    assert(own[i] == bar_demand(dev.bars@[i], idx));
                } else {
                    let sriov = dev.sriov->0;
                    assert(own[i] == vf_demand(sriov.vf_bars@[i - nb], sriov.total_vfs, idx));
                }
            } else {
                assert(i - own.len() < w32.len());
                assert(all[i] == w32[i - own.len()]);
            }
        }
    }
}

/// Each demand of a level is one of its devices', and no two are for the same
/// thing.
proof fn lemma_level_of(devices: Seq<DiscoveredDevice>)
    requires
        tree_ok(devices),
        devices.len() <= usize::MAX,
    ensures
        forall|k: int|
            0 <= k < level_demands(devices).len() ==> demand_of(
                devices,
                #[trigger] level_demands(devices)[k],
            ),
        distinct_targets(level_demands(devices)),
    decreases devices.len(),
{
    if devices.len() > 0 {
        let init = devices.drop_last();
        let idx = devices.len() - 1;
        assert(tree_ok(init)) by {
            assert forall|i: int| #![trigger init[i]] 0 <= i < init.len() implies init[i]
                == devices[i] by {}
        }
        lemma_level_of(init);
        lemma_level_split(devices);
        assert(device_ok(devices[idx]));
        lemma_last_distinct(devices);
        let all = level_demands(devices);
        let part = level_demands(init);
        let add = last_demands(devices);
        let np = part.len() as int;
        assert forall|k: int| 0 <= k < all.len() implies demand_of(devices, #[trigger] all[k]) && (k
            < np ==> all[k].owner() < idx) && (k >= np ==> all[k].owner() == idx) by {
            if k < np {
                assert(all[k] == part[k]);
                assert(demand_of(init, part[k]));
                assert(init[part[k].owner()] == devices[part[k].owner()]);
                lemma_demand_of_extend(init, devices, part[k]);
            } else {
                assert(all[k] == add[k - np]);
                lemma_last_of(devices, k - np);
            }
        }
        assert forall|i: int, j: int|
            #![trigger all[i], all[j]]
            0 <= i < j < all.len() implies target(all[i]) != target(all[j]) by {
            if j < np {
                assert(all[i] == part[i] && all[j] == part[j]);
            } else if i < np {
                assert(all[i].owner() < idx && all[j].owner() == idx);
            } else {
                assert(all[i] == add[i - np] && all[j] == add[j - np]);
            }
        }
    }
}

proof fn lemma_part_contains(devices: Seq<DiscoveredDevice>, i: int, d: Demand)
    requires
        0 <= i < devices.len(),
        last_demands(devices.take(i + 1)).contains(d),
    ensures
        level_demands(devices).contains(d),
    decreases devices.len(),
{
    lemma_level_split(devices);
    let init = devices.drop_last();
    let part = level_demands(init);
    let add = last_demands(devices);
    let all = level_demands(devices);
    if i < init.len() {
        assert(init.take(i + 1) =~= devices.take(i + 1));
        lemma_part_contains(init, i, d);
        let k = choose|k: int| 0 <= k < part.len() && part[k] == d;
        assert(all[k] == d);
    } else {
        assert(devices.take(i + 1) =~= devices);
        let k = choose|k: int| 0 <= k < add.len() && add[k] == d;
        assert(all[part.len() + k] == d);
    }
}

/// The demands of a level belong to its devices one for one.
pub proof fn lemma_level_cover(devices: Seq<DiscoveredDevice>)
    requires
        tree_ok(devices),
        devices.len() <= usize::MAX,
    ensures
        demands_cover(devices, level_demands(devices)),
{
    lemma_level_of(devices);
    let all = level_demands(devices);
    assert forall|i: int, j: int|
        #![trigger devices[i].bars@[j]]
        0 <= i < devices.len() && 0 <= j < devices[i].bars@.len() implies all.contains(
        bar_demand(devices[i].bars@[j], i),
    ) by {
        let d = bar_demand(devices[i].bars@[j], i);
        let t = devices.take(i + 1);
        assert(t.last() == devices[i]);
        assert(last_demands(t)[j] == d);
        lemma_part_contains(devices, i, d);
    }
    assert forall|i: int, j: int|
        #![trigger devices[i].sriov->0.vf_bars@[j]]
        0 <= i < devices.len() && devices[i].sriov is Some && 0 <= j
            < devices[i].sriov->0.vf_bars@.len() implies all.contains(
        vf_demand(devices[i].sriov->0.vf_bars@[j], devices[i].sriov->0.total_vfs, i),
    ) by {
        let d = vf_demand(devices[i].sriov->0.vf_bars@[j], devices[i].sriov->0.total_vfs, i);
        let t = devices.take(i + 1);
        assert(t.last() == devices[i]);
        assert(last_demands(t)[devices[i].bars@.len() + j] == d);
        lemma_part_contains(devices, i, d);
    }
    assert forall|i: int, p: bool|
        #![trigger subtree_model(devices[i].children@).pool(p)]
        0 <= i < devices.len() && devices[i].is_bridge && subtree_model(
            devices[i].children@,
        ).pool(p).mem > 0 implies all.contains(
        window_demand(subtree_model(devices[i].children@).pool(p), i, p)[0],
    ) by {
        let m = subtree_model(devices[i].children@);
        let d = window_demand(m.pool(p), i, p)[0];
        let t = devices.take(i + 1);
        assert(t.last() == devices[i]);
        let own = own_demands(devices[i], i);
        let w32 = window_demand(m.pool(false), i, false);
        if p {
            assert(last_demands(t)[(own.len() + w32.len()) as int] == d);
        } else {
            assert(last_demands(t)[own.len() as int] == d);
        }
        lemma_part_contains(devices, i, d);
    }
}

proof fn lemma_demand_of_extend(
    a: Seq<DiscoveredDevice>,
    b: Seq<DiscoveredDevice>,
    d: Demand,
)
    requires
        demand_of(a, d),
        a.len() <= b.len(),
        b[d.owner()] == a[d.owner()],
    ensures
        demand_of(b, d),
{
    match d {
        Demand::Bar { dev_idx, bar_index, .. } => {
            let j = choose|j: int|
                #![trigger a[dev_idx as int].bars@[j]]
                0 <= j < a[dev_idx as int].bars@.len() && d == bar_demand(
                    a[dev_idx as int].bars@[j],
                    dev_idx as int,
                );
            assert(d == bar_demand(b[dev_idx as int].bars@[j], dev_idx as int));
        },
        _ => {},
    }
}

/// The sorted demands of a level belong to its devices one for one.
pub proof fn lemma_sorted_cover(devices: Seq<DiscoveredDevice>)
    requires
        tree_ok(devices),
        devices.len() <= usize::MAX,
    ensures
        demands_cover(devices, subtree_model(devices).demands),
{
    lemma_level_cover(devices);
    let u = level_demands(devices);
    let s = subtree_model(devices).demands;
    assert(s == sorted_by_key(u));
    lemma_sorted_contains(u);
    lemma_sorted_distinct(u);
    assert forall|k: int| 0 <= k < s.len() implies demand_of(devices, #[trigger] s[k]) by {
        assert(s.contains(s[k]));
        assert(u.contains(s[k]));
        let j = choose|j: int| 0 <= j < u.len() && u[j] == s[k];
        assert(demand_of(devices, u[j]));
    }
}

}
