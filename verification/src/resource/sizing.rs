//! Bottom-up sizing: what each subtree needs of the two pools.
use crate::resource::align::align_down;
use crate::resource::align::align_up;
use crate::resource::align::aligned_down;
use crate::resource::align::aligned_up;
use crate::resource::align::is_pow2;
use crate::resource::align::lemma_aligned_down;
use crate::resource::align::lemma_aligned_up;
use crate::resource::align::lemma_pow2_positive;
use crate::resource::align::lemma_window_align_pow2;
use crate::resource::demand::demands_valid;
use crate::resource::demand::fixed_regions;
use crate::resource::demand::lemma_fixed_regions;
use crate::resource::demand::lemma_valid_align;
use crate::resource::demand::BRIDGE_WINDOW_ALIGN;
use crate::resource::demand::Demand;
use crate::resource::device::bar_agrees;
use crate::resource::device::bar_mem64;
use crate::resource::device::bar_ok;
use crate::resource::device::bar_shape;
use crate::resource::device::device_agrees;
use crate::resource::device::device_ok;
use crate::resource::device::is_mem64_bar;
use crate::resource::device::lemma_tree_agrees_refl;
use crate::resource::device::mem64_kind;
use crate::resource::device::sizing_scope;
use crate::resource::device::tree_agrees;
use crate::resource::device::tree_ok;
use crate::resource::device::DiscoveredBar;
use crate::resource::device::DiscoveredDevice;
use crate::resource::device::Scope;
use crate::resource::device::SubtreeState;
use crate::resource::fit::level_settles;
use crate::resource::gaps::allocate_from_gaps;
use crate::resource::gaps::build_gap_list;
use crate::resource::gaps::free_gaps;
use crate::resource::gaps::place;
use crate::resource::gaps::place_rest;
use crate::resource::gaps::range_list;
use crate::resource::gaps::regions_fit;
use crate::resource::gaps::scan_cursor;
use crate::resource::gaps::Region;
use crate::resource::placement::settles;
use crate::resource::sort::lemma_sorted_by_key;
use crate::resource::sort::lemma_sorted_contains;
use crate::resource::sort::sort_by_key;
use crate::resource::sort::sorted_by_key;
use vstd::prelude::*;

verus! {

/// The state of sizing one pool: the free gaps between pinned demands that
/// are still left, the size so far, and the alignment so far.
pub struct Sizing {
    /// The address that alignment is counted from.
    pub origin: int,
    /// Gaps that are left.
    pub gaps: Seq<(u64, u64)>,
    /// Bytes needed so far.
    pub mem: int,
    /// Largest alignment so far.
    pub align: int,
}

/// Whether the demand is one that the pool has to find a place for.
pub open spec fn is_dynamic(d: Demand, mem64: bool) -> bool {
    d.mem64() == mem64 && d.fixed() is None
}

/// Adds one demand: it goes into a gap, or else behind everything so far, where
/// its alignment is counted from the origin.
pub open spec fn sizing_step(s: Sizing, d: Demand, mem64: bool) -> Sizing {
    if is_dynamic(d, mem64) {
        Sizing {
            origin: s.origin,
            gaps: place_rest(s.gaps, d.bytes(), d.align()),
            mem: if place(s.gaps, d.bytes(), d.align()) is Some {
                s.mem
            } else {
                aligned_up(s.origin + s.mem, d.align()) - s.origin + d.bytes()
            },
            align: if s.align < d.align() {
                d.align()
            } else {
                s.align
            },
        }
    } else {
        s
    }
}

/// Adds the demands in order.
pub open spec fn sizing(s: Sizing, demands: Seq<Demand>, mem64: bool) -> Sizing
    decreases demands.len(),
{
    if demands.len() == 0 {
        s
    } else {
        sizing_step(sizing(s, demands.drop_last(), mem64), demands.last(), mem64)
    }
}

/// What one pool of a subtree needs.
pub struct PoolModel {
    /// Size in bytes.
    pub mem: int,
    /// Alignment.
    pub align: int,
    /// Where the window starts, if it holds pinned demands.
    pub base: Option<u64>,
    /// Free gaps of the window, if it holds pinned demands.
    pub gaps: Seq<(u64, u64)>,
    /// The largest size that sizing comes upon.
    pub counted: int,
}

/// The regions of the pool's pinned demands by address.
pub open spec fn pool_pins(demands: Seq<Demand>, mem64: bool) -> Seq<Region> {
    sorted_by_key(fixed_regions(demands, mem64))
}

/// Where the window starts: at the lowest pinned address, rounded down.
pub open spec fn pool_base(pins: Seq<Region>) -> Option<u64> {
    if pins.len() == 0 {
        None
    } else {
        Some(aligned_down(pins[0].addr as int, BRIDGE_WINDOW_ALIGN as int) as u64)
    }
}

/// Where sizing starts: with the span of the pinned demands and the gaps
/// between them.
pub open spec fn sizing_start(pins: Seq<Region>) -> Sizing {
    match pool_base(pins) {
        Some(base) => Sizing {
            origin: 0,
            gaps: free_gaps(base as int, scan_cursor(base as int, pins), pins),
            mem: scan_cursor(base as int, pins) - base,
            align: BRIDGE_WINDOW_ALIGN as int,
        },
        None => Sizing {
            origin: 0,
            gaps: Seq::empty(),
            mem: 0,
            align: BRIDGE_WINDOW_ALIGN as int,
        },
    }
}

/// The gaps of a window of some size that holds pinned demands: those between
/// them, and the rest of the window behind them.
pub open spec fn pinned_gaps(start: Sizing, base: int, mem: int) -> Seq<(u64, u64)> {
    start.gaps + range_list(base + start.mem, base + mem)
}

/// The address that alignment is counted from. Sizes are counted from zero, as if
/// the window could start at any multiple of its alignment. Where pinned demands
/// say where it starts, and the other demands do not find their places in a
/// window of that size, sizes are counted from where it starts.
#[verifier::opaque]
pub open spec fn sizing_origin(demands: Seq<Demand>, mem64: bool) -> int {
    let pins = pool_pins(demands, mem64);
    let start = sizing_start(pins);
    match pool_base(pins) {
        Some(base) => if settles(
            pinned_gaps(start, base as int, sizing(start, demands, mem64).mem),
            demands,
            mem64,
            0,
        ) {
            0
        } else {
            base as int
        },
        None => 0,
    }
}

/// What the pool needs for a list of demands.
pub open spec fn pool_model(demands: Seq<Demand>, mem64: bool) -> PoolModel {
    let pins = pool_pins(demands, mem64);
    let start = sizing_start(pins);
    let first = sizing(start, demands, mem64);
    let end = sizing(
        Sizing { origin: sizing_origin(demands, mem64), ..start },
        demands,
        mem64,
    );
    PoolModel {
        mem: end.mem,
        align: end.align,
        base: pool_base(pins),
        gaps: match pool_base(pins) {
            Some(base) => pinned_gaps(start, base as int, end.mem),
            None => Seq::empty(),
        },
        counted: if first.mem <= end.mem {
            end.mem
        } else {
            first.mem
        },
    }
}

/// Without pinned demands sizes are counted from zero.
pub proof fn lemma_origin_unpinned(demands: Seq<Demand>, mem64: bool)
    ensures
        pool_base(pool_pins(demands, mem64)) is None ==> sizing_origin(demands, mem64) == 0,
        sizing_origin(demands, mem64) >= 0,
{
    reveal(sizing_origin);
}

/// What a subtree needs.
pub struct SubtreeModel {
    /// Demands of the level by decreasing alignment.
    pub demands: Seq<Demand>,
    /// The mem32 pool.
    pub pool32: PoolModel,
    /// The mem64 pool.
    pub pool64: PoolModel,
}

impl SubtreeModel {
    /// One of the two pools.
    pub open spec fn pool(self, mem64: bool) -> PoolModel {
        if mem64 {
            self.pool64
        } else {
            self.pool32
        }
    }
}

/// What a subtree needs for a list of demands, in any order.
pub open spec fn level_model(demands: Seq<Demand>) -> SubtreeModel {
    let sorted = sorted_by_key(demands);
    SubtreeModel {
        demands: sorted,
        pool32: pool_model(sorted, false),
        pool64: pool_model(sorted, true),
    }
}

/// The demand of a BAR.
pub open spec fn bar_demand(bar: DiscoveredBar, idx: int) -> Demand {
    Demand::Bar {
        dev_idx: idx as usize,
        bar_index: bar.index,
        size: bar.size,
        is_mem64: bar_mem64(bar),
        pinned_address: bar.pinned_address,
    }
}

/// The bytes that the VF BARs of all VFs take, as far as they can be counted.
pub open spec fn vf_bytes(size: u64, total_vfs: u16) -> int {
    if size * total_vfs <= u64::MAX {
        size * total_vfs
    } else {
        u64::MAX as int
    }
}

/// The demand of a VF BAR.
pub open spec fn vf_demand(bar: DiscoveredBar, total_vfs: u16, idx: int) -> Demand {
    Demand::SriovVfBars {
        dev_idx: idx as usize,
        bar_index: bar.index,
        size: vf_bytes(bar.size, total_vfs) as u64,
        alignment: bar.size,
        is_mem64: mem64_kind(bar),
    }
}

/// The demands of a device's own BARs and VF BARs.
pub open spec fn own_demands(dev: DiscoveredDevice, idx: int) -> Seq<Demand> {
    Seq::new(dev.bars@.len(), |j: int| bar_demand(dev.bars@[j], idx)) + match dev.sriov {
        Some(sriov) => Seq::new(
            sriov.vf_bars@.len(),
            |j: int| vf_demand(sriov.vf_bars@[j], sriov.total_vfs, idx),
        ),
        None => Seq::empty(),
    }
}

/// The demand of a bridge's window, if its children need one.
pub open spec fn window_demand(pool: PoolModel, idx: int, mem64: bool) -> Seq<Demand> {
    if pool.mem > 0 {
        seq![
            Demand::BridgeSubtree {
                dev_idx: idx as usize,
                size: aligned_up(pool.mem, BRIDGE_WINDOW_ALIGN as int) as u64,
                alignment: pool.align as u64,
                is_mem64: mem64,
                constrained_base: pool.base,
            },
        ]
    } else {
        Seq::empty()
    }
}

/// The demands of a list of devices, in order.
pub open spec fn level_demands(devices: Seq<DiscoveredDevice>) -> Seq<Demand>
    decreases devices, 0int,
{
    if devices.len() == 0 {
        Seq::empty()
    } else {
        let idx = devices.len() - 1;
        let dev = devices.last();
        level_demands(devices.drop_last()) + own_demands(dev, idx) + if dev.is_bridge {
            let m = subtree_model(dev.children@);
            window_demand(m.pool32, idx, false) + window_demand(m.pool64, idx, true)
        } else {
            Seq::empty()
        }
    }
}

/// What a list of devices needs, with everything behind them.
pub open spec fn subtree_model(devices: Seq<DiscoveredDevice>) -> SubtreeModel
    decreases devices, 1int,
{
    level_model(level_demands(devices))
}

/// Whether the numbers that sizing a pool comes upon can be counted.
pub open spec fn pool_fits(pool: PoolModel) -> bool {
    &&& pool.counted <= u64::MAX
    &&& pool.base matches Some(base) ==> base + pool.counted <= u64::MAX
}

/// Whether the window of a bridge can be counted.
pub open spec fn window_fits(pool: PoolModel) -> bool {
    let size = aligned_up(pool.mem, BRIDGE_WINDOW_ALIGN as int);
    &&& pool_fits(pool)
    &&& size <= u64::MAX
    &&& pool.base matches Some(base) ==> base + size <= u64::MAX
}

/// Whether the windows of all bridges can be counted in 64 bits.
pub open spec fn windows_fit(devices: Seq<DiscoveredDevice>) -> bool
    decreases devices,
{
    forall|i: int|
        #![trigger devices[i]]
        0 <= i < devices.len() && devices[i].is_bridge ==> {
            &&& windows_fit(devices[i].children@)
            &&& window_fits(subtree_model(devices[i].children@).pool32)
            &&& window_fits(subtree_model(devices[i].children@).pool64)
        }
}

/// Whether the numbers that sizing comes upon, here and behind each bridge,
/// can be counted in 64 bits.
pub open spec fn sizes_fit(devices: Seq<DiscoveredDevice>) -> bool {
    &&& pool_fits(subtree_model(devices).pool32)
    &&& pool_fits(subtree_model(devices).pool64)
    &&& windows_fit(devices)
}

impl SubtreeState {
    /// Whether the state holds what the model says.
    pub open spec fn matches_model(self, m: SubtreeModel) -> bool {
        &&& self.demands@ == m.demands
        &&& self.mem32 == m.pool32.mem
        &&& self.align32 == m.pool32.align
        &&& self.constrained_base32 == m.pool32.base
        &&& self.gaps32@ == m.pool32.gaps
        &&& self.mem64 == m.pool64.mem
        &&& self.align64 == m.pool64.align
        &&& self.constrained_base64 == m.pool64.base
        &&& self.gaps64@ == m.pool64.gaps
    }
}

/// Whether each bridge holds what its children need.
pub open spec fn states_ok(devices: Seq<DiscoveredDevice>) -> bool
    decreases devices,
{
    forall|i: int|
        #![trigger devices[i]]
        0 <= i < devices.len() && devices[i].is_bridge ==> {
            &&& devices[i].subtree_req matches Some(req) && req.matches_model(
                subtree_model(devices[i].children@),
            )
            &&& states_ok(devices[i].children@)
        }
}

/// Whether no bridge has a window yet.
pub open spec fn windows_unset(devices: Seq<DiscoveredDevice>) -> bool
    decreases devices,
{
    forall|i: int|
        #![trigger devices[i]]
        0 <= i < devices.len() && devices[i].is_bridge ==> {
            &&& devices[i].subtree_req matches Some(req) && req.memory_window is None
                && req.prefetchable_window is None
            &&& windows_unset(devices[i].children@)
        }
}

proof fn lemma_own_demands_agree(a: DiscoveredDevice, b: DiscoveredDevice, idx: int, s: Scope)
    requires
        device_agrees(a, b, s),
    ensures
        own_demands(a, idx) == own_demands(b, idx),
{
    assert forall|j: int| 0 <= j < a.bars@.len() implies bar_demand(a.bars@[j], idx)
        == bar_demand(b.bars@[j], idx) by {
        assert(bar_agrees(a.bars@[j], b.bars@[j], bar_mem64(a.bars@[j]), s));
        let x = bar_shape(a.bars@[j]);
        let y = bar_shape(b.bars@[j]);
        assert(x.index == y.index && x.size == y.size && x.is_64bit == y.is_64bit
            && x.is_prefetchable == y.is_prefetchable && x.pinned_address == y.pinned_address);
    }
    if let (Some(p), Some(q)) = (a.sriov, b.sriov) {
        assert forall|j: int| 0 <= j < p.vf_bars@.len() implies vf_demand(
            p.vf_bars@[j],
            p.total_vfs,
            idx,
        ) == vf_demand(q.vf_bars@[j], q.total_vfs, idx) by {
            assert(bar_agrees(p.vf_bars@[j], q.vf_bars@[j], mem64_kind(p.vf_bars@[j]), s));
            let x = bar_shape(p.vf_bars@[j]);
            let y = bar_shape(q.vf_bars@[j]);
            assert(x.index == y.index && x.size == y.size && x.is_64bit == y.is_64bit
                && x.is_prefetchable == y.is_prefetchable);
        }
    }
    assert(own_demands(a, idx) =~= own_demands(b, idx));
}

proof fn lemma_level_demands_agree(
    a: Seq<DiscoveredDevice>,
    b: Seq<DiscoveredDevice>,
    s: Scope,
)
    requires
        tree_agrees(a, b, s),
    ensures
        level_demands(a) == level_demands(b),
    decreases a, 0int,
{
    if a.len() > 0 {
        let n = a.len() - 1;
        let (x, y) = (a.drop_last(), b.drop_last());
        assert(tree_agrees(x, y, s)) by {
            assert forall|i: int| #![trigger x[i]] 0 <= i < x.len() implies device_agrees(
                x[i],
                y[i],
                s,
            ) && tree_agrees(x[i].children@, y[i].children@, s) by {
                assert(x[i] == a[i] && y[i] == b[i]);
            }
        }
        lemma_level_demands_agree(x, y, s);
        assert(device_agrees(a[n], b[n], s));
        lemma_own_demands_agree(a[n], b[n], n, s);
        assert(decreases_to!(a => a[n].children@));
        lemma_subtree_model_agrees(a[n].children@, b[n].children@, s);
    }
}

/// What a subtree needs depends on nothing that the assignment changes.
pub proof fn lemma_subtree_model_agrees(
    a: Seq<DiscoveredDevice>,
    b: Seq<DiscoveredDevice>,
    s: Scope,
)
    requires
        tree_agrees(a, b, s),
    ensures
        subtree_model(a) == subtree_model(b),
    decreases a, 1int,
{
    lemma_level_demands_agree(a, b, s);
}

/// Sizing never shrinks a pool, and its alignment is a power of two that is
/// no less than the bridge granularity and each placed demand's alignment.
pub proof fn lemma_sizing(s: Sizing, demands: Seq<Demand>, mem64: bool)
    requires
        demands_valid(demands),
        is_pow2(s.align),
    ensures
        sizing(s, demands, mem64).origin == s.origin,
        sizing(s, demands, mem64).mem >= s.mem,
        sizing(s, demands, mem64).align >= s.align,
        is_pow2(sizing(s, demands, mem64).align),
        sizing(s, demands, mem64).align <= u64::MAX || s.align > u64::MAX,
        forall|k: int|
            #![trigger demands[k]]
            0 <= k < demands.len() && is_dynamic(demands[k], mem64) ==> demands[k].align()
                <= sizing(s, demands, mem64).align,
        forall|k: int|
            0 <= k <= demands.len() ==> #[trigger] sizing(s, demands.take(k), mem64).mem <= sizing(
                s,
                demands,
                mem64,
            ).mem,
    decreases demands.len(),
{
    if demands.len() > 0 {
        let init = demands.drop_last();
        let d = demands.last();
        lemma_sizing(s, init, mem64);
        let s0 = sizing(s, init, mem64);
        assert(d == demands[demands.len() - 1]);
        if is_dynamic(d, mem64) {
            lemma_valid_align(d);
            lemma_aligned_up(s.origin + s0.mem, d.align());
        }
        assert forall|k: int|
            #![trigger demands[k]]
            0 <= k < demands.len() && is_dynamic(demands[k], mem64) implies demands[k].align()
            <= sizing(s, demands, mem64).align by {
            if k < init.len() {
                assert(init[k] == demands[k]);
            }
        }
        assert forall|k: int| 0 <= k <= demands.len() implies #[trigger] sizing(
            s,
            demands.take(k),
            mem64,
        ).mem <= sizing(s, demands, mem64).mem by {
            if k < demands.len() {
                assert(demands.take(k) =~= init.take(k));
            } else {
                assert(demands.take(k) =~= demands);
            }
        }
    } else {
        assert forall|k: int| 0 <= k <= demands.len() implies #[trigger] sizing(
            s,
            demands.take(k),
            mem64,
        ).mem <= sizing(s, demands, mem64).mem by {
            assert(demands.take(k) =~= demands);
        }
    }
}

/// The pinned regions of valid demands lie within the address space, and in
/// order behind the window base.
pub proof fn lemma_pool_pins(demands: Seq<Demand>, mem64: bool)
    requires
        demands_valid(demands),
    ensures
        regions_fit(pool_pins(demands, mem64)),
        forall|i: int, j: int|
            #![trigger pool_pins(demands, mem64)[i], pool_pins(demands, mem64)[j]]
            0 <= i < j < pool_pins(demands, mem64).len() ==> pool_pins(demands, mem64)[i].addr
                <= pool_pins(demands, mem64)[j].addr,
        forall|i: int|
            #![trigger pool_pins(demands, mem64)[i]]
            0 <= i < pool_pins(demands, mem64).len() ==> {
                &&& pool_pins(demands, mem64)[i].size > 0
                &&& pool_base(pool_pins(demands, mem64)) matches Some(base) && base <= pool_pins(
                    demands,
                    mem64,
                )[i].addr
            },
        pool_pins(demands, mem64).len() == fixed_regions(demands, mem64).len(),
        forall|k: int|
            #![trigger demands[k]]
            0 <= k < demands.len() && demands[k].mem64() == mem64 && demands[k].fixed() is Some
                ==> pool_pins(demands, mem64).contains(demands[k].region()),
        pool_base(pool_pins(demands, mem64)) matches Some(base) ==> base
            % BRIDGE_WINDOW_ALIGN == 0,
{
    let regions = fixed_regions(demands, mem64);
    let pins = pool_pins(demands, mem64);
    lemma_fixed_regions(demands, mem64);
    lemma_sorted_by_key(regions);
    lemma_sorted_contains(regions);
    assert forall|i: int| 0 <= i < pins.len() implies (#[trigger] pins[i]).addr + pins[i].size
        <= u64::MAX && pins[i].size > 0 by {
        assert(pins.contains(pins[i]));
        assert(regions.contains(pins[i]));
        let j = choose|j: int| 0 <= j < regions.len() && regions[j] == pins[i];
        let k = choose|k: int|
            #![trigger demands[k]]
            0 <= k < demands.len() && demands[k].mem64() == mem64 && demands[k].fixed() == Some(
                regions[j].addr,
            ) && demands[k].bytes() == regions[j].size;
        assert(demands[k].valid());
    }
    assert forall|i: int, j: int|
        #![trigger pins[i], pins[j]]
        0 <= i < j < pins.len() implies pins[i].addr <= pins[j].addr by {
        assert(crate::resource::sort::SortKey::key(&pins[i]) <= crate::resource::sort::SortKey::key(
            &pins[j],
        ));
    }
    if pins.len() > 0 {
        lemma_aligned_down(pins[0].addr as int, BRIDGE_WINDOW_ALIGN as int);
        assert forall|i: int| #![trigger pins[i]] 0 <= i < pins.len() implies {
            &&& pins[i].size > 0
            &&& pool_base(pins) matches Some(base) && base <= pins[i].addr
        } by {
            if i > 0 {
                assert(pins[0].addr <= pins[i].addr);
            }
        }
    }
    assert forall|k: int|
        #![trigger demands[k]]
        0 <= k < demands.len() && demands[k].mem64() == mem64
            && demands[k].fixed() is Some implies pins.contains(demands[k].region()) by {
        assert(regions.contains(demands[k].region()));
    }
}

/// Sorting keeps demands valid.
pub proof fn lemma_sorted_valid(demands: Seq<Demand>)
    requires
        demands_valid(demands),
    ensures
        demands_valid(sorted_by_key(demands)),
{
    lemma_sorted_contains(demands);
    let s = sorted_by_key(demands);
    assert forall|i: int| 0 <= i < s.len() implies (#[trigger] s[i]).valid() by {
        assert(s.contains(s[i]));
        assert(demands.contains(s[i]));
        let k = choose|k: int| 0 <= k < demands.len() && demands[k] == s[i];
    }
}

/// The alignment of a pool is a power of two no less than the granularity;
/// its size is not negative.
pub proof fn lemma_pool_model(demands: Seq<Demand>, mem64: bool)
    requires
        demands_valid(demands),
    ensures
        is_pow2(pool_model(demands, mem64).align),
        BRIDGE_WINDOW_ALIGN <= pool_model(demands, mem64).align <= u64::MAX,
        pool_model(demands, mem64).mem >= 0,
        sizing_start(pool_pins(demands, mem64)).mem >= 0,
        pool_model(demands, mem64).mem >= sizing_start(pool_pins(demands, mem64)).mem,
        pool_model(demands, mem64).counted >= pool_model(demands, mem64).mem,
{
    lemma_window_align_pow2();
    let pins = pool_pins(demands, mem64);
    lemma_pool_pins(demands, mem64);
    lemma_sizing(sizing_start(pins), demands, mem64);
    lemma_sizing(
        Sizing { origin: sizing_origin(demands, mem64), ..sizing_start(pins) },
        demands,
        mem64,
    );
    if let Some(base) = pool_base(pins) {
        lemma_cursor(base as int, pins);
    }
}

/// The cursor never falls behind the base, nor behind the end of a region.
pub proof fn lemma_cursor(base: int, regions: Seq<Region>)
    ensures
        scan_cursor(base, regions) >= base,
        forall|i: int|
            0 <= i < regions.len() ==> (#[trigger] regions[i]).addr + regions[i].size
                <= scan_cursor(base, regions),
        regions_fit(regions) && base <= u64::MAX ==> scan_cursor(base, regions) <= u64::MAX,
    decreases regions.len(),
{
    if regions.len() > 0 {
        let init = regions.drop_last();
        lemma_cursor(base, init);
        assert forall|i: int| 0 <= i < regions.len() implies (#[trigger] regions[i]).addr
            + regions[i].size <= scan_cursor(base, regions) by {
            if i < init.len() {
                assert(init[i] == regions[i]);
            }
        }
        if regions_fit(regions) {
            assert forall|i: int| 0 <= i < init.len() implies (#[trigger] init[i]).addr
                + init[i].size <= u64::MAX by {
                assert(init[i] == regions[i]);
            }
            assert(regions[regions.len() - 1].addr + regions[regions.len() - 1].size <= u64::MAX);
        }
    }
}

/// The demands of a device tree that is in order are valid, and each belongs
/// to a device of the level.
pub proof fn lemma_level_demands(devices: Seq<DiscoveredDevice>)
    requires
        tree_ok(devices),
        windows_fit(devices),
        devices.len() <= usize::MAX,
    ensures
        demands_valid(level_demands(devices)),
        forall|k: int|
            #![trigger level_demands(devices)[k]]
            0 <= k < level_demands(devices).len() ==> 0 <= level_demands(devices)[k].owner()
                < devices.len(),
    decreases devices,
{
    if devices.len() > 0 {
        let init = devices.drop_last();
        let idx = devices.len() - 1;
        let dev = devices[idx];
        assert(tree_ok(init) && windows_fit(init)) by {
            assert forall|i: int| #![trigger init[i]] 0 <= i < init.len() implies init[i]
                == devices[i] by {}
        }
        lemma_level_demands(init);
        assert(device_ok(dev) && tree_ok(dev.children@));
        let all = level_demands(devices);
        let old_part = level_demands(init);
        let own = own_demands(dev, idx);
        lemma_own_demands(dev, idx);
        let m = subtree_model(dev.children@);
        let w = if dev.is_bridge {
            window_demand(m.pool32, idx, false) + window_demand(m.pool64, idx, true)
        } else {
            Seq::empty()
        };
        if dev.is_bridge {
            assert(dev.children.len() <= usize::MAX);
            lemma_level_demands(dev.children@);
            lemma_sorted_valid(level_demands(dev.children@));
            lemma_pool_model(m.demands, false);
            lemma_pool_model(m.demands, true);
            lemma_window_demand(m.pool32, idx, false);
            lemma_window_demand(m.pool64, idx, true);
        }
        assert(all =~= old_part + own + w);
        assert forall|k: int| 0 <= k < all.len() implies (#[trigger] all[k]).valid() && 0
            <= all[k].owner() < devices.len() by {
            if k < old_part.len() {
                assert(all[k] == old_part[k]);
            } else if k < old_part.len() + own.len() {
                assert(all[k] == own[k - old_part.len()]);
            } else {
                let j = k - old_part.len() - own.len();
                assert(all[k] == w[j]);
                let n32 = window_demand(m.pool32, idx, false).len();
                if j < n32 {
                    assert(w[j] == window_demand(m.pool32, idx, false)[j]);
                } else {
                    assert(w[j] == window_demand(m.pool64, idx, true)[j - n32]);
                }
            }
        }
    }
}

proof fn lemma_own_demands(dev: DiscoveredDevice, idx: int)
    requires
        device_ok(dev),
        0 <= idx <= usize::MAX,
    ensures
        demands_valid(own_demands(dev, idx)),
        forall|k: int|
            #![trigger own_demands(dev, idx)[k]]
            0 <= k < own_demands(dev, idx).len() ==> own_demands(dev, idx)[k].owner() == idx,
{
    let own = own_demands(dev, idx);
    let nb = dev.bars@.len() as int;
    assert forall|k: int| 0 <= k < own.len() implies (#[trigger] own[k]).valid()
        && own[k].owner() == idx by {
        if k < nb {
            let bar = dev.bars@[k];
            assert(own[k] == bar_demand(bar, idx));
            assert(bar_ok(bar));
            if bar.pinned_address is None {
                lemma_pow2_positive(bar.size as int);
            }
        } else {
            let sriov = dev.sriov->0;
            let bar = sriov.vf_bars@[k - nb];
            assert(own[k] == vf_demand(bar, sriov.total_vfs, idx));
            assert(is_pow2(bar.size as int));
            lemma_pow2_positive(bar.size as int);
            assert(bar.size * sriov.total_vfs > 0) by (nonlinear_arith)
                requires
                    bar.size > 0,
                    sriov.total_vfs > 0,
            ;
        }
    }
}

proof fn lemma_window_demand(pool: PoolModel, idx: int, mem64: bool)
    requires
        0 <= idx <= usize::MAX,
        window_fits(pool),
        is_pow2(pool.align),
        pool.align <= u64::MAX,
    ensures
        forall|k: int|
            #![trigger window_demand(pool, idx, mem64)[k]]
            0 <= k < window_demand(pool, idx, mem64).len() ==> {
                &&& window_demand(pool, idx, mem64)[k].valid()
                &&& window_demand(pool, idx, mem64)[k].owner() == idx
            },
{
    if pool.mem > 0 {
        lemma_aligned_up(pool.mem, BRIDGE_WINDOW_ALIGN as int);
        lemma_pow2_positive(pool.align);
    }
}

/// Sizing state of one pool.
pub struct PoolState {
    /// Window size needed (pinned span and what lies behind it).
    pub mem: u64,
    /// Required alignment.
    pub align: u64,
    /// If pinned demands exist, where the window starts.
    pub constrained_base: Option<u64>,
    /// Gaps of the pinned span. Empty without pinned demands.
    pub gaps: Vec<(u64, u64)>,
    /// End of the pinned span.
    pub pinned_span_end: Option<u64>,
}

impl PoolState {
    /// Whether the state is that of the pool's pinned demands alone.
    pub open spec fn is_start(self, pins: Seq<Region>) -> bool {
        let start = sizing_start(pins);
        &&& self.mem == start.mem
        &&& self.align == start.align
        &&& self.constrained_base == pool_base(pins)
        &&& self.gaps@ == start.gaps
        &&& self.pinned_span_end == match pool_base(pins) {
            Some(base) => Some((base + start.mem) as u64),
            None => None,
        }
    }

    /// Whether the state is what the model says.
    pub open spec fn matches_model(self, m: PoolModel) -> bool {
        &&& self.mem == m.mem
        &&& self.align == m.align
        &&& self.constrained_base == m.base
        &&& self.gaps@ == m.gaps
    }

    /// Appends a gap at the tail for dynamic demands that did not fit between
    /// the pinned ones.
    pub fn extend_tail(&mut self)
        requires
            old(self).pinned_span_end is Some ==> old(self).constrained_base is Some,
            old(self).constrained_base matches Some(base) ==> base + old(self).mem <= u64::MAX,
        ensures
            final(self).mem == old(self).mem,
            final(self).align == old(self).align,
            final(self).constrained_base == old(self).constrained_base,
            final(self).pinned_span_end == old(self).pinned_span_end,
            final(self).gaps@ == match old(self).pinned_span_end {
                Some(end) => old(self).gaps@ + range_list(
                    end as int,
                    old(self).constrained_base->0 + old(self).mem,
                ),
                None => old(self).gaps@,
            },
    {
        if let Some(pin_end) = self.pinned_span_end {
            if let Some(base) = self.constrained_base {
                let window_end: u64 = base + self.mem;
                if pin_end < window_end {
                    self.gaps.push((pin_end, window_end));
                }
            }
        }
    }
}

/// Computes the pinned span, the gaps in it and the initial window size of one
/// pool, for fixed regions in any order.
pub fn size_pool(fixed: &Vec<Region>) -> (pool: PoolState)
    requires
        regions_fit(sorted_by_key(fixed@)),
    ensures
        pool.is_start(sorted_by_key(fixed@)),
{
    let pins: Vec<Region> = sort_by_key(fixed);
    if pins.len() == 0 {
        return PoolState {
            mem: 0,
            align: BRIDGE_WINDOW_ALIGN,
            constrained_base: None,
            gaps: Vec::new(),
            pinned_span_end: None,
        };
    }
    let base: u64 = align_down(pins[0].addr, BRIDGE_WINDOW_ALIGN);
    let mut max_end: u64 = base;
    let mut i: usize = 0;
    while i < pins.len()
        invariant
            i <= pins.len(),
            regions_fit(pins@),
            max_end == scan_cursor(base as int, pins@.take(i as int)),
        decreases pins.len() - i,
    {
        assert(pins@.take(i + 1).drop_last() =~= pins@.take(i as int));
        assert(pins@.take(i + 1).last() == pins@[i as int]);
        let end: u64 = pins[i].addr + pins[i].size;
        if max_end < end {
            max_end = end;
        }
        i = i + 1;
    }
    assert(pins@.take(i as int) =~= pins@);
    proof {
        lemma_cursor(base as int, pins@);
    }
    PoolState {
        mem: max_end - base,
        align: BRIDGE_WINDOW_ALIGN,
        constrained_base: Some(base),
        gaps: build_gap_list(base, max_end, &pins),
        pinned_span_end: Some(max_end),
    }
}

/// Copies a gap list.
pub fn copy_gaps(gaps: &Vec<(u64, u64)>) -> (r: Vec<(u64, u64)>)
    ensures
        r@ == gaps@,
{
    let mut out: Vec<(u64, u64)> = Vec::new();
    let mut i: usize = 0;
    while i < gaps.len()
        invariant
            i <= gaps.len(),
            out@ == gaps@.take(i as int),
        decreases gaps.len() - i,
    {
        out.push(gaps[i]);
        assert(out@ =~= gaps@.take(i + 1));
        i = i + 1;
    }
    assert(gaps@.take(i as int) =~= gaps@);
    out
}

/// Collects the regions of one pool's fixed demands.
pub(crate) fn collect_fixed(demands: &Vec<Demand>, mem64: bool) -> (regions: Vec<Region>)
    ensures
        regions@ == fixed_regions(demands@, mem64),
{
    let mut regions: Vec<Region> = Vec::new();
    let mut i: usize = 0;
    while i < demands.len()
        invariant
            i <= demands.len(),
            regions@ == fixed_regions(demands@.take(i as int), mem64),
        decreases demands.len() - i,
    {
        let d: Demand = demands[i];
        assert(demands@.take(i + 1).drop_last() =~= demands@.take(i as int));
        assert(demands@.take(i + 1).last() == d);
        if let Some((addr, size)) = d.fixed_position() {
            if d.is_mem64() == mem64 {
                regions.push(Region { addr, size });
            }
        }
        i = i + 1;
    }
    assert(demands@.take(i as int) =~= demands@);
    regions
}

/// Tries to place the dynamic demands of one pool into the gaps, and makes the
/// window larger for those that do not fit. Returns the size and the alignment.
fn size_dynamic(pool: &PoolState, demands: &Vec<Demand>, mem64: bool, origin: u64) -> (r: (
    u64,
    u64,
))
    requires
        demands_valid(demands@),
        pool.is_start(pool_pins(demands@, mem64)),
        sizing_start(pool_pins(demands@, mem64)).mem >= 0,
        origin + sizing(
            (Sizing { origin: origin as int, ..sizing_start(pool_pins(demands@, mem64)) }),
            demands@,
            mem64,
        ).mem <= u64::MAX,
    ensures
        ({
            let end = sizing(
                Sizing { origin: origin as int, ..sizing_start(pool_pins(demands@, mem64)) },
                demands@,
                mem64,
            );
            r.0 == end.mem && r.1 == end.align
        }),
{
    let ghost start = Sizing {
        origin: origin as int,
        ..sizing_start(pool_pins(demands@, mem64))
    };
    proof {
        lemma_window_align_pow2();
        lemma_sizing(start, demands@, mem64);
        assert(demands@.take(0) =~= Seq::<Demand>::empty());
    }
    let mut gaps: Vec<(u64, u64)> = copy_gaps(&pool.gaps);
    let mut mem: u64 = pool.mem;
    let mut align: u64 = pool.align;
    let mut i: usize = 0;
    while i < demands.len()
        invariant
            i <= demands.len(),
            demands_valid(demands@),
            is_pow2(start.align),
            start.origin == origin,
            mem == sizing(start, demands@.take(i as int), mem64).mem,
            align == sizing(start, demands@.take(i as int), mem64).align,
            gaps@ == sizing(start, demands@.take(i as int), mem64).gaps,
            origin + sizing(start, demands@, mem64).mem <= u64::MAX,
            start.mem >= 0,
            forall|k: int|
                0 <= k <= demands@.len() ==> #[trigger] sizing(
                    start,
                    demands@.take(k),
                    mem64,
                ).mem <= sizing(start, demands@, mem64).mem,
        decreases demands.len() - i,
    {
        let d: Demand = demands[i];
        proof {
            let done = demands@.take(i as int);
            assert(demands@.take(i + 1).drop_last() =~= done);
            assert(demands@.take(i + 1).last() == d);
            assert(sizing(start, demands@.take(i + 1), mem64).mem <= sizing(
                start,
                demands@,
                mem64,
            ).mem);
            assert(sizing(start, done, mem64).mem <= sizing(start, demands@, mem64).mem);
            assert(d.valid());
            assert(demands_valid(done)) by {
                assert forall|k: int| 0 <= k < done.len() implies (#[trigger] done[k]).valid() by {
                    assert(done[k] == demands@[k]);
                }
            }
            lemma_sizing(start, done, mem64);
        }
        if d.fixed_position().is_none() && d.is_mem64() == mem64 {
            proof {
                lemma_valid_align(d);
                lemma_aligned_up(origin + mem, d.align());
            }
            let alignment: u64 = d.alignment();
            if align < alignment {
                align = alignment;
            }
            let placed: Option<u64> = allocate_from_gaps(&mut gaps, d.size(), alignment);
            if placed.is_none() {
                let from: u64 = align_up(origin + mem, alignment);
                mem = from - origin + d.size();
            }
        }
        i = i + 1;
    }
    assert(demands@.take(i as int) =~= demands@);
    (mem, align)
}

/// Sizes one pool for a sorted list of demands.
pub(crate) fn size_level(demands: &Vec<Demand>, mem64: bool) -> (pool: PoolState)
    requires
        demands_valid(demands@),
        pool_fits(pool_model(demands@, mem64)),
    ensures
        pool.matches_model(pool_model(demands@, mem64)),
{
    let fixed: Vec<Region> = collect_fixed(demands, mem64);
    let ghost start = sizing_start(pool_pins(demands@, mem64));
    proof {
        lemma_pool_pins(demands@, mem64);
        lemma_pool_model(demands@, mem64);
        lemma_origin_unpinned(demands@, mem64);
        lemma_window_align_pow2();
        lemma_origin(start, demands@, mem64, sizing_origin(demands@, mem64));
        assert(Sizing { origin: 0, ..start } == start);
    }
    let mut pool: PoolState = size_pool(&fixed);
    let (mem, align) = size_dynamic(&pool, demands, mem64, 0);
    let mem: u64 = match pool.constrained_base {
        Some(base) => {
            let mut gaps: Vec<(u64, u64)> = copy_gaps(&pool.gaps);
            push_range(&mut gaps, base + pool.mem, base + mem);
            proof {
                reveal(sizing_origin);
            }
            if level_settles(&gaps, demands, mem64, 0) {
                mem
            } else {
                let (wider, _) = size_dynamic(&pool, demands, mem64, base);
                wider
            }
        },
        None => mem,
    };
    pool.mem = mem;
    pool.align = align;
    pool.extend_tail();
    pool
}

/// Appends a range to a gap list, unless it is empty.
pub(crate) fn push_range(gaps: &mut Vec<(u64, u64)>, from: u64, to: u64)
    ensures
        final(gaps)@ == old(gaps)@ + range_list(from as int, to as int),
{
    if from < to {
        gaps.push((from, to));
    }
    assert(gaps@ =~= old(gaps)@ + range_list(from as int, to as int));
}

/// The gaps that are left and the alignment do not depend on the origin.
proof fn lemma_origin(s: Sizing, demands: Seq<Demand>, mem64: bool, origin: int)
    ensures
        sizing(Sizing { origin, ..s }, demands, mem64).gaps == sizing(s, demands, mem64).gaps,
        sizing(Sizing { origin, ..s }, demands, mem64).align == sizing(s, demands, mem64).align,
    decreases demands.len(),
{
    if demands.len() > 0 {
        lemma_origin(s, demands.drop_last(), mem64, origin);
    }
}

/// Adds the demands of a device's own BARs and VF BARs.
pub(crate) fn push_own_demands(dev: &DiscoveredDevice, idx: usize, demands: &mut Vec<Demand>)
    ensures
        final(demands)@ == old(demands)@ + own_demands(*dev, idx as int),
{
    let mut j: usize = 0;
    while j < dev.bars.len()
        invariant
            j <= dev.bars.len(),
            demands@ == old(demands)@ + Seq::new(
                j as nat,
                |k: int| bar_demand(dev.bars@[k], idx as int),
            ),
        decreases dev.bars.len() - j,
    {
        let bar: DiscoveredBar = dev.bars[j];
        // Pinned BARs below 4 GB are treated as mem32, whatever their kind.
        let is_mem64: bool = match bar.pinned_address {
            Some(addr) => addr >= 0x1_0000_0000 && is_mem64_bar(&bar),
            None => is_mem64_bar(&bar),
        };
        demands.push(
            Demand::Bar {
                dev_idx: idx,
                bar_index: bar.index,
                size: bar.size,
                is_mem64,
                pinned_address: bar.pinned_address,
            },
        );
        j = j + 1;
        assert(demands@ =~= old(demands)@ + Seq::new(
            j as nat,
            |k: int| bar_demand(dev.bars@[k], idx as int),
        ));
    }
    let ghost with_bars = demands@;
    if let Some(sriov) = &dev.sriov {
        let mut v: usize = 0;
        while v < sriov.vf_bars.len()
            invariant
                v <= sriov.vf_bars.len(),
                demands@ == with_bars + Seq::new(
                    v as nat,
                    |k: int| vf_demand(sriov.vf_bars@[k], sriov.total_vfs, idx as int),
                ),
            decreases sriov.vf_bars.len() - v,
        {
            let bar: DiscoveredBar = sriov.vf_bars[v];
            let total: u64 = match bar.size.checked_mul(sriov.total_vfs as u64) {
                Some(total) => total,
                None => u64::MAX,
            };
            demands.push(
                Demand::SriovVfBars {
                    dev_idx: idx,
                    bar_index: bar.index,
                    size: total,
                    alignment: bar.size,
                    is_mem64: is_mem64_bar(&bar),
                },
            );
            v = v + 1;
            assert(demands@ =~= with_bars + Seq::new(
                v as nat,
                |k: int| vf_demand(sriov.vf_bars@[k], sriov.total_vfs, idx as int),
            ));
        }
    }
    assert(demands@ =~= old(demands)@ + own_demands(*dev, idx as int));
}

/// Adds the demand of a bridge's window, if its children need one.
pub(crate) fn push_window_demand(
    idx: usize,
    mem: u64,
    alignment: u64,
    constrained_base: Option<u64>,
    is_mem64: bool,
    demands: &mut Vec<Demand>,
    Ghost(pool): Ghost<PoolModel>,
)
    requires
        mem == pool.mem,
        alignment == pool.align,
        constrained_base == pool.base,
        window_fits(pool),
    ensures
        final(demands)@ == old(demands)@ + window_demand(pool, idx as int, is_mem64),
{
    if mem > 0 {
        proof {
            lemma_aligned_up(pool.mem, BRIDGE_WINDOW_ALIGN as int);
        }
        let size: u64 = align_up(mem, BRIDGE_WINDOW_ALIGN);
        demands.push(
            Demand::BridgeSubtree { dev_idx: idx, size, alignment, is_mem64, constrained_base },
        );
    }
    assert(demands@ =~= old(demands)@ + window_demand(pool, idx as int, is_mem64));
}

/// Bottom-up: computes what a list of devices needs, with everything behind
/// them, and stores at each bridge what its children need.
pub fn compute_subtree_state(devices: &mut [DiscoveredDevice]) -> (state: SubtreeState)
    requires
        tree_ok(old(devices)@),
        sizes_fit(old(devices)@),
    ensures
        tree_agrees(old(devices)@, final(devices)@, sizing_scope()),
        states_ok(final(devices)@),
        windows_unset(final(devices)@),
        state.matches_model(subtree_model(old(devices)@)),
        state.memory_window is None,
        state.prefetchable_window is None,
    decreases old(devices)@,
{
    let ghost before = devices@;
    let mut demands: Vec<Demand> = Vec::new();
    let mut i: usize = 0;
    while i < devices.len()
        invariant
            i <= devices@.len(),
            devices@.len() == before.len(),
            before == old(devices)@,
            tree_ok(before),
            windows_fit(before),
            demands@ == level_demands(before.take(i as int)),
            forall|j: int| i <= j < before.len() ==> devices@[j] == #[trigger] before[j],
            forall|j: int|
                #![trigger before[j]]
                #![trigger devices@[j]]
                0 <= j < i ==> {
                    &&& device_agrees(before[j], devices@[j], sizing_scope())
                    &&& tree_agrees(before[j].children@, devices@[j].children@, sizing_scope())
                    &&& devices@[j].is_bridge ==> {
                        &&& devices@[j].subtree_req matches Some(req) && req.matches_model(
                            subtree_model(devices@[j].children@),
                        ) && req.memory_window is None && req.prefetchable_window is None
                        &&& states_ok(devices@[j].children@)
                        &&& windows_unset(devices@[j].children@)
                    }
                },
        decreases devices@.len() - i,
    {
        proof {
            assert(before.take(i + 1).drop_last() =~= before.take(i as int));
            assert(before.take(i + 1).last() == before[i as int]);
            assert(device_ok(before[i as int]));
            assert(decreases_to!(old(devices)@ => old(devices)@[i as int].children@));
        }
        push_own_demands(&devices[i], i, &mut demands);
        if devices[i].is_bridge {
            let ghost kids = before[i as int].children@;
            let dev: &mut DiscoveredDevice = &mut devices[i];
            proof {
                lemma_windows_pool_fits(kids);
            }
            let child: SubtreeState = compute_subtree_state(dev.children.as_mut_slice());
            proof {
                lemma_subtree_model_agrees(kids, dev.children@, sizing_scope());
            }
            push_window_demand(
                i,
                child.mem32,
                child.align32,
                child.constrained_base32,
                false,
                &mut demands,
                Ghost(subtree_model(kids).pool32),
            );
            push_window_demand(
                i,
                child.mem64,
                child.align64,
                child.constrained_base64,
                true,
                &mut demands,
                Ghost(subtree_model(kids).pool64),
            );
            dev.subtree_req = Some(child);
        } else {
            proof {
                lemma_tree_agrees_refl(before[i as int].children@, sizing_scope());
            }
        }
        assert(demands@ =~= level_demands(before.take(i + 1)));
        i = i + 1;
    }
    assert(before.take(i as int) =~= before);
    proof {
        lemma_level_demands(before);
        lemma_sorted_valid(level_demands(before));
    }
    // Placing the most alignment-demanding items first minimizes padding.
    let sorted: Vec<Demand> = sort_by_key(&demands);
    let pool32: PoolState = size_level(&sorted, false);
    let pool64: PoolState = size_level(&sorted, true);
    SubtreeState {
        mem32: pool32.mem,
        mem64: pool64.mem,
        align32: pool32.align,
        align64: pool64.align,
        demands: sorted,
        memory_window: None,
        prefetchable_window: None,
        constrained_base32: pool32.constrained_base,
        constrained_base64: pool64.constrained_base,
        gaps32: pool32.gaps,
        gaps64: pool64.gaps,
    }
}

/// A pool whose window can be counted can be counted itself.
pub(crate) proof fn lemma_windows_pool_fits(children: Seq<DiscoveredDevice>)
    requires
        window_fits(subtree_model(children).pool32),
        window_fits(subtree_model(children).pool64),
    ensures
        pool_fits(subtree_model(children).pool32),
        pool_fits(subtree_model(children).pool64),
{
}

}
