//! Pinned BARs, and the windows that hold them, lie apart.
use crate::resource::align::aligned_up;
use crate::resource::align::lemma_aligned_up;
use crate::resource::demand::BRIDGE_WINDOW_ALIGN;
use crate::resource::demand::Demand;
use crate::resource::device::bar_mem64;
use crate::resource::device::device_ok;
use crate::resource::device::tree_ok;
use crate::resource::device::DiscoveredBar;
use crate::resource::device::DiscoveredDevice;
use crate::resource::geometry::apart;
use crate::resource::laws::law_no_pins;
use crate::resource::laws::no_pins;
use crate::resource::levels::demand_of;
use crate::resource::levels::lemma_sorted_cover;
use crate::resource::levels::target;
use crate::resource::params::AssignmentParams;
use crate::resource::pinned::first_overlap;
use crate::resource::pinned::lemma_own_pinned_in;
use crate::resource::pinned::lemma_pinned_in;
use crate::resource::pinned::own_pinned;
use crate::resource::pinned::pinned_bar;
use crate::resource::pinned::pinned_bars;
use crate::resource::pinned::pinned_error;
use crate::resource::pinned::pool_of;
use crate::resource::pinned::PinnedBar;
use crate::resource::sizing::bar_demand;
use crate::resource::sizing::subtree_model;
use crate::resource::sizing::window_fits;
use crate::resource::sizing::windows_fit;
use crate::resource::sort::is_sorted;
use crate::resource::sort::lemma_sorted_by_key;
use crate::resource::sort::lemma_sorted_places;
use crate::resource::sort::sorted_by_key;
use crate::resource::sort::SortKey;
use crate::resource::tree::fixed_apart;
use vstd::prelude::*;

verus! {

/// Whether two pinned BARs share no byte.
pub open spec fn pair_apart(a: PinnedBar, b: PinnedBar) -> bool {
    apart(a.address as int, a.size as int, b.address as int, b.size as int)
}

/// Whether no two pinned BARs of one pool share a byte.
pub open spec fn pins_apart(pins: Seq<PinnedBar>) -> bool {
    forall|i: int, j: int|
        #![trigger pins[i], pins[j]]
        0 <= i < j < pins.len() && pins[i].is_mem64 == pins[j].is_mem64 ==> pair_apart(
            pins[i],
            pins[j],
        )
}

/// Whether no two pinned BARs share a byte.
spec fn all_apart(pins: Seq<PinnedBar>) -> bool {
    forall|i: int, j: int|
        #![trigger pins[i], pins[j]]
        0 <= i < j < pins.len() ==> pair_apart(pins[i], pins[j])
}

proof fn lemma_no_overlap(s: Seq<PinnedBar>, k: int)
    requires
        first_overlap(s) is None,
        0 <= k < s.len() - 1,
    ensures
        s[k].address + s[k].size <= s[k + 1].address,
    decreases s.len(),
{
    if k < s.len() - 2 {
        lemma_no_overlap(s.drop_last(), k);
    }
}

proof fn lemma_sorted_apart(s: Seq<PinnedBar>)
    requires
        first_overlap(sorted_by_key(s)) is None,
    ensures
        all_apart(s),
{
    let t = sorted_by_key(s);
    lemma_sorted_by_key(s);
    let places = lemma_sorted_places(s);
    assert forall|i: int, j: int|
        #![trigger s[i], s[j]]
        0 <= i < j < s.len() implies pair_apart(s[i], s[j]) by {
        let (a, b) = if places[i] < places[j] {
            (places[i], places[j])
        } else {
            (places[j], places[i])
        };
        lemma_no_overlap(t, a);
        assert(t[a + 1].address <= t[b].address) by {
            assert(is_sorted(t));
            assert(t[a + 1].key() <= t[b].key());
        }
    }
}

proof fn lemma_pool_contains(pins: Seq<PinnedBar>, mem64: bool, i: int)
    requires
        0 <= i < pins.len(),
        pins[i].is_mem64 == mem64,
    ensures
        pool_of(pins, mem64).contains(pins[i]),
    decreases pins.len(),
{
    let init = pins.drop_last();
    let all = pool_of(pins, mem64);
    if i < init.len() {
        lemma_pool_contains(init, mem64, i);
        let part = pool_of(init, mem64);
        let k = choose|k: int| 0 <= k < part.len() && part[k] == init[i];
        assert(all[k] == pins[i]);
    } else {
        assert(all[all.len() - 1] == pins[i]);
    }
}

proof fn lemma_pool_apart(pins: Seq<PinnedBar>, mem64: bool, i: int, j: int)
    requires
        all_apart(pool_of(pins, mem64)),
        0 <= i < j < pins.len(),
        pins[i].is_mem64 == mem64,
        pins[j].is_mem64 == mem64,
    ensures
        pair_apart(pins[i], pins[j]),
    decreases pins.len(),
{
    let init = pins.drop_last();
    let all = pool_of(pins, mem64);
    let part = pool_of(init, mem64);
    if j < init.len() {
        assert forall|a: int, b: int|
            #![trigger part[a], part[b]]
            0 <= a < b < part.len() implies pair_apart(part[a], part[b]) by {
            assert(all[a] == part[a] && all[b] == part[b]);
        }
        lemma_pool_apart(init, mem64, i, j);
        assert(init[i] == pins[i] && init[j] == pins[j]);
    } else {
        lemma_pool_contains(init, mem64, i);
        let k = choose|k: int| 0 <= k < part.len() && part[k] == init[i];
        assert(all[k] == pins[i] && all[all.len() - 1] == pins[j]);
    }
}

/// Pinned BARs that nothing is wrong with lie apart: no two of one pool share a
/// byte, wherever in the tree they are.
pub proof fn law_pinned_apart(pins: Seq<PinnedBar>, params: AssignmentParams)
    requires
        pinned_error(pins, params) is None,
    ensures
        pins_apart(pins),
{
    lemma_sorted_apart(pool_of(pins, false));
    lemma_sorted_apart(pool_of(pins, true));
    assert forall|i: int, j: int|
        #![trigger pins[i], pins[j]]
        0 <= i < j < pins.len() && pins[i].is_mem64 == pins[j].is_mem64 implies pair_apart(
        pins[i],
        pins[j],
    ) by {
        lemma_pool_apart(pins, pins[i].is_mem64, i, j);
    }
}

/// The window of a bridge, as `(address, size)`, if pinned BARs behind the bridge
/// say where it starts.
pub open spec fn pinned_window(dev: DiscoveredDevice, mem64: bool) -> Option<(int, int)> {
    let pool = subtree_model(dev.children@).pool(mem64);
    if dev.is_bridge && pool.mem > 0 && pool.base is Some {
        Some((pool.base->0 as int, aligned_up(pool.mem, BRIDGE_WINDOW_ALIGN as int)))
    } else {
        None
    }
}

/// Whether the windows of one level that pinned BARs say the start of lie apart
/// from each other and from the pinned BARs of the level.
pub open spec fn level_windows_apart(devices: Seq<DiscoveredDevice>, mem64: bool) -> bool {
    &&& forall|i: int, k: int|
        #![trigger devices[i], devices[k]]
        0 <= i < k < devices.len() ==> match (
            pinned_window(devices[i], mem64),
            pinned_window(devices[k], mem64),
        ) {
            (Some(a), Some(b)) => apart(a.0, a.1, b.0, b.1),
            _ => true,
        }
    &&& forall|i: int, k: int, j: int|
        #![trigger devices[i], devices[k].bars@[j]]
        0 <= i < devices.len() && 0 <= k < devices.len() && 0 <= j < devices[k].bars@.len()
            && bar_mem64(devices[k].bars@[j]) == mem64 ==> match (
            pinned_window(devices[i], mem64),
            devices[k].bars@[j].pinned_address,
        ) {
            (Some(a), Some(addr)) => apart(a.0, a.1, addr as int, devices[k].bars@[j].size as int),
            _ => true,
        }
}

/// Whether that holds of each level, here and behind each bridge.
pub open spec fn pinned_windows_apart(devices: Seq<DiscoveredDevice>, mem64: bool) -> bool
    decreases devices,
{
    &&& level_windows_apart(devices, mem64)
    &&& forall|i: int|
        #![trigger devices[i]]
        0 <= i < devices.len() && devices[i].is_bridge ==> pinned_windows_apart(
            devices[i].children@,
            mem64,
        )
}

proof fn lemma_own_apart(dev: DiscoveredDevice, bars: Seq<DiscoveredBar>, j: int, k: int)
    requires
        pins_apart(own_pinned(dev, bars)),
        0 <= j < k < bars.len(),
        bars[j].pinned_address is Some,
        bars[k].pinned_address is Some,
        bar_mem64(bars[j]) == bar_mem64(bars[k]),
    ensures
        pair_apart(pinned_bar(dev, bars[j]), pinned_bar(dev, bars[k])),
    decreases bars.len(),
{
    let init = bars.drop_last();
    let all = own_pinned(dev, bars);
    let part = own_pinned(dev, init);
    if k < init.len() {
        assert forall|a: int, b: int|
            #![trigger part[a], part[b]]
            0 <= a < b < part.len() && part[a].is_mem64 == part[b].is_mem64 implies pair_apart(
            part[a],
            part[b],
        ) by {
            assert(all[a] == part[a] && all[b] == part[b]);
        }
        lemma_own_apart(dev, init, j, k);
    } else {
        lemma_own_pinned_in(dev, init, j);
        let a = choose|a: int| 0 <= a < part.len() && part[a] == pinned_bar(dev, init[j]);
        assert(all[a] == pinned_bar(dev, bars[j]));
        assert(all[all.len() - 1] == pinned_bar(dev, bars[k]));
    }
}

/// The pinned BARs of the first devices, of the last one itself and of what lies
/// behind it are apart wherever all are.
proof fn lemma_parts_apart(devices: Seq<DiscoveredDevice>)
    requires
        devices.len() > 0,
        pins_apart(pinned_bars(devices)),
    ensures
        pins_apart(pinned_bars(devices.drop_last())),
        pins_apart(own_pinned(devices.last(), devices.last().bars@)),
        pins_apart(pinned_bars(devices.last().children@)),
{
    let dev = devices.last();
    let all = pinned_bars(devices);
    let part = pinned_bars(devices.drop_last());
    let own = own_pinned(dev, dev.bars@);
    let sub = pinned_bars(dev.children@);
    assert(all == part + own + sub);
    assert forall|a: int, b: int|
        #![trigger part[a], part[b]]
        0 <= a < b < part.len() && part[a].is_mem64 == part[b].is_mem64 implies pair_apart(
        part[a],
        part[b],
    ) by {
        assert(all[a] == part[a] && all[b] == part[b]);
    }
    assert forall|a: int, b: int|
        #![trigger own[a], own[b]]
        0 <= a < b < own.len() && own[a].is_mem64 == own[b].is_mem64 implies pair_apart(
        own[a],
        own[b],
    ) by {
        assert(all[part.len() + a] == own[a] && all[part.len() + b] == own[b]);
    }
    assert forall|a: int, b: int|
        #![trigger sub[a], sub[b]]
        0 <= a < b < sub.len() && sub[a].is_mem64 == sub[b].is_mem64 implies pair_apart(
        sub[a],
        sub[b],
    ) by {
        let n = (part.len() + own.len()) as int;
        assert(all[n + a] == sub[a] && all[n + b] == sub[b]);
    }
}

proof fn lemma_behind_apart(devices: Seq<DiscoveredDevice>, i: int)
    requires
        0 <= i < devices.len(),
        pins_apart(pinned_bars(devices)),
    ensures
        pins_apart(pinned_bars(devices[i].children@)),
    decreases devices.len(),
{
    lemma_parts_apart(devices);
    if i < devices.len() - 1 {
        lemma_behind_apart(devices.drop_last(), i);
    }
}

/// Two pinned BARs of one level and pool share no byte; `(i, j)` comes first.
proof fn lemma_bars_apart(devices: Seq<DiscoveredDevice>, i: int, j: int, k: int, l: int)
    requires
        pins_apart(pinned_bars(devices)),
        0 <= i <= k < devices.len(),
        0 <= j < devices[i].bars@.len(),
        0 <= l < devices[k].bars@.len(),
        i < k || j < l,
        devices[i].bars@[j].pinned_address is Some,
        devices[k].bars@[l].pinned_address is Some,
        bar_mem64(devices[i].bars@[j]) == bar_mem64(devices[k].bars@[l]),
    ensures
        pair_apart(
            pinned_bar(devices[i], devices[i].bars@[j]),
            pinned_bar(devices[k], devices[k].bars@[l]),
        ),
    decreases devices.len(),
{
    let init = devices.drop_last();
    let dev = devices.last();
    lemma_parts_apart(devices);
    if k < init.len() {
        lemma_bars_apart(init, i, j, k, l);
    } else if i == k {
        lemma_own_apart(dev, dev.bars@, j, l);
    } else {
        let all = pinned_bars(devices);
        let part = pinned_bars(init);
        let own = own_pinned(dev, dev.bars@);
        let x = pinned_bar(init[i], init[i].bars@[j]);
        let y = pinned_bar(dev, dev.bars@[l]);
        lemma_own_pinned_in(init[i], init[i].bars@, j);
        lemma_pinned_in(init, i, x);
        lemma_own_pinned_in(dev, dev.bars@, l);
        let a = choose|a: int| 0 <= a < part.len() && part[a] == x;
        let b = choose|b: int| 0 <= b < own.len() && own[b] == y;
        assert(all[a] == x && all[part.len() + b] == y);
    }
}

/// The fixed positions of a level lie apart.
proof fn lemma_level_apart(devices: Seq<DiscoveredDevice>, mem64: bool, j: int, k: int)
    requires
        tree_ok(devices),
        windows_fit(devices),
        devices.len() <= usize::MAX,
        pins_apart(pinned_bars(devices)),
        level_windows_apart(devices, mem64),
        0 <= j < k < subtree_model(devices).demands.len(),
        subtree_model(devices).demands[j].mem64() == mem64,
        subtree_model(devices).demands[k].mem64() == mem64,
        subtree_model(devices).demands[j].fixed() is Some,
        subtree_model(devices).demands[k].fixed() is Some,
    ensures
        ({
            let a = subtree_model(devices).demands[j];
            let b = subtree_model(devices).demands[k];
            apart(a.fixed()->0 as int, a.bytes(), b.fixed()->0 as int, b.bytes())
        }),
{
    lemma_sorted_cover(devices);
    let demands = subtree_model(devices).demands;
    let a = demands[j];
    let b = demands[k];
    let x = a.owner();
    let y = b.owner();
    assert(target(a) != target(b));
    assert(demand_of(devices, a) && demand_of(devices, b));
    match (a, b) {
        (Demand::Bar { .. }, Demand::Bar { .. }) => {
            let p = lemma_bar_of(devices, a);
            let q = lemma_bar_of(devices, b);
            if x < y || x == y && p < q {
                lemma_bars_apart(devices, x, p, y, q);
            } else {
                lemma_bars_apart(devices, y, q, x, p);
            }
        },
        (Demand::Bar { .. }, Demand::BridgeSubtree { .. }) => {
            let p = lemma_bar_of(devices, a);
            lemma_window_of(devices, b, mem64);
            assert(devices[x].bars@[p].pinned_address is Some);
        },
        (Demand::BridgeSubtree { .. }, Demand::Bar { .. }) => {
            let q = lemma_bar_of(devices, b);
            lemma_window_of(devices, a, mem64);
            assert(devices[y].bars@[q].pinned_address is Some);
        },
        _ => {
            lemma_window_of(devices, a, mem64);
            lemma_window_of(devices, b, mem64);
            assert(devices[x].is_bridge && devices[y].is_bridge);
        },
    }
}

proof fn lemma_bar_of(devices: Seq<DiscoveredDevice>, d: Demand) -> (j: int)
    requires
        d is Bar,
        demand_of(devices, d),
    ensures
        0 <= d.owner() < devices.len(),
        0 <= j < devices[d.owner()].bars@.len(),
        d == bar_demand(devices[d.owner()].bars@[j], d.owner()),
{
    let o = d.owner();
    choose|j: int|
        #![trigger devices[o].bars@[j]]
        0 <= j < devices[o].bars@.len() && d == bar_demand(devices[o].bars@[j], o)
}

proof fn lemma_window_of(devices: Seq<DiscoveredDevice>, d: Demand, mem64: bool)
    requires
        windows_fit(devices),
        d is BridgeSubtree,
        d.mem64() == mem64,
        d.fixed() is Some,
        demand_of(devices, d),
    ensures
        0 <= d.owner() < devices.len(),
        pinned_window(devices[d.owner()], mem64) == Some((d.fixed()->0 as int, d.bytes())),
{
    let o = d.owner();
    let pool = subtree_model(devices[o].children@).pool(mem64);
    assert(window_fits(pool));
    lemma_aligned_up(pool.mem, BRIDGE_WINDOW_ALIGN as int);
}

proof fn lemma_fixed_apart(devices: Seq<DiscoveredDevice>, mem64: bool)
    requires
        tree_ok(devices),
        windows_fit(devices),
        devices.len() <= usize::MAX,
        pins_apart(pinned_bars(devices)),
        pinned_windows_apart(devices, mem64),
    ensures
        fixed_apart(devices, mem64),
    decreases devices,
{
    let demands = subtree_model(devices).demands;
    assert forall|j: int, k: int|
        #![trigger demands[j], demands[k]]
        0 <= j < k < demands.len() && demands[j].mem64() == mem64 && demands[k].mem64() == mem64
            && demands[j].fixed() is Some && demands[k].fixed() is Some implies apart(
        demands[j].fixed()->0 as int,
        demands[j].bytes(),
        demands[k].fixed()->0 as int,
        demands[k].bytes(),
    ) by {
        lemma_level_apart(devices, mem64, j, k);
    }
    assert forall|i: int|
        #![trigger devices[i]]
        0 <= i < devices.len() && devices[i].is_bridge implies fixed_apart(
        devices[i].children@,
        mem64,
    ) by {
        assert(tree_ok(devices[i].children@) && windows_fit(devices[i].children@));
        assert(devices[i].children.len() <= usize::MAX);
        lemma_behind_apart(devices, i);
        assert(decreases_to!(devices => devices[i].children@));
        lemma_fixed_apart(devices[i].children@, mem64);
    }
}

/// The fixed positions of each level lie apart if nothing is wrong with the pinned
/// BARs and the windows that hold them lie apart.
pub proof fn law_fixed_apart(devices: Seq<DiscoveredDevice>, params: AssignmentParams, mem64: bool)
    requires
        tree_ok(devices),
        windows_fit(devices),
        devices.len() <= usize::MAX,
        pinned_error(pinned_bars(devices), params) is None,
        pinned_windows_apart(devices, mem64),
    ensures
        fixed_apart(devices, mem64),
{
    law_pinned_apart(pinned_bars(devices), params);
    lemma_fixed_apart(devices, mem64);
}

/// Whether no bridge of a level has pinned BARs behind it.
pub open spec fn no_pins_behind(devices: Seq<DiscoveredDevice>) -> bool {
    forall|i: int|
        #![trigger devices[i]]
        0 <= i < devices.len() && devices[i].is_bridge ==> no_pins(devices[i].children@)
}

/// Whether a level has no pinned BARs but those behind one of its devices.
pub open spec fn pins_only_behind(devices: Seq<DiscoveredDevice>, at: int) -> bool {
    forall|i: int|
        #![trigger devices[i]]
        0 <= i < devices.len() ==> {
            &&& forall|j: int|
                #![trigger devices[i].bars@[j]]
                0 <= j < devices[i].bars@.len() ==> devices[i].bars@[j].pinned_address is None
            &&& i != at ==> no_pins(devices[i].children@)
        }
}

/// Whether the pinned BARs of a tree all stand on one level: at the root, or behind
/// one bridge.
pub open spec fn pins_on_one_level(devices: Seq<DiscoveredDevice>) -> bool
    decreases devices,
{
    ||| no_pins_behind(devices)
    ||| exists|i: int|
        #![trigger devices[i]]
        0 <= i < devices.len() && devices[i].is_bridge && pins_only_behind(devices, i)
            && pins_on_one_level(devices[i].children@)
}

proof fn lemma_no_pinned_window(dev: DiscoveredDevice, params: AssignmentParams, mem64: bool)
    requires
        tree_ok(dev.children@),
        no_pins(dev.children@),
    ensures
        pinned_window(dev, mem64) is None,
        no_pins_behind(dev.children@),
{
    assert(dev.children.len() <= usize::MAX);
    law_no_pins(dev.children@, params, mem64);
}

proof fn lemma_one_level(devices: Seq<DiscoveredDevice>, params: AssignmentParams, mem64: bool)
    requires
        tree_ok(devices),
        pins_on_one_level(devices),
    ensures
        pinned_windows_apart(devices, mem64),
    decreases devices,
{
    let at = if no_pins_behind(devices) {
        -1
    } else {
        choose|i: int|
            #![trigger devices[i]]
            0 <= i < devices.len() && devices[i].is_bridge && pins_only_behind(devices, i)
                && pins_on_one_level(devices[i].children@)
    };
    assert forall|i: int| #![trigger devices[i]] 0 <= i < devices.len() && i != at implies
        pinned_window(devices[i], mem64) is None by {
        assert(device_ok(devices[i]) && tree_ok(devices[i].children@));
        if devices[i].is_bridge {
            lemma_no_pinned_window(devices[i], params, mem64);
        }
    }
    assert forall|i: int|
        #![trigger devices[i]]
        0 <= i < devices.len() && devices[i].is_bridge implies pinned_windows_apart(
        devices[i].children@,
        mem64,
    ) by {
        assert(tree_ok(devices[i].children@));
        if i != at {
            lemma_no_pinned_window(devices[i], params, mem64);
        }
        assert(decreases_to!(devices => devices[i].children@));
        lemma_one_level(devices[i].children@, params, mem64);
    }
}

/// Where the pinned BARs stand on one level, nothing more is to be asked: the fixed
/// positions lie apart if nothing is wrong with the pinned BARs.
pub proof fn law_one_level_apart(
    devices: Seq<DiscoveredDevice>,
    params: AssignmentParams,
    mem64: bool,
)
    requires
        tree_ok(devices),
        windows_fit(devices),
        devices.len() <= usize::MAX,
        pinned_error(pinned_bars(devices), params) is None,
        pins_on_one_level(devices),
    ensures
        pinned_windows_apart(devices, mem64),
        fixed_apart(devices, mem64),
{
    lemma_one_level(devices, params, mem64);
    law_fixed_apart(devices, params, mem64);
}

}
