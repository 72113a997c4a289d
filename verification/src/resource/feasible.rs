//! Whether an assignment can be worked out for a tree at all.
use crate::resource::align::aligned_up;
use crate::resource::align::is_pow2;
use crate::resource::align::lemma_aligned_up;
use crate::resource::align::lemma_pow2_positive;
use crate::resource::align::lemma_window_align_pow2;
use crate::resource::assign::assign_addresses;
use crate::resource::assign::assign_error;
use crate::resource::assign::assignable;
use crate::resource::assign::assignments_valid;
use crate::resource::assign::check_floor;
use crate::resource::assign::floor_error;
use crate::resource::assign::pool_error;
use crate::resource::assign::root_base;
use crate::resource::assign::vfs_countable;
use crate::resource::complete::has_room;
use crate::resource::demand::demands_valid;
use crate::resource::demand::lemma_valid_align;
use crate::resource::demand::BRIDGE_WINDOW_ALIGN;
use crate::resource::demand::Demand;
use crate::resource::device::bar_ok;
use crate::resource::device::device_ok;
use crate::resource::device::distinct_bars;
use crate::resource::device::full_scope;
use crate::resource::device::tree_agrees;
use crate::resource::device::tree_ok;
use crate::resource::device::DiscoveredBar;
use crate::resource::device::DiscoveredDevice;
use crate::resource::device::DiscoveredSriov;
use crate::resource::device::SubtreeState;
use crate::resource::fit::level_settles;
use crate::resource::gaps::allocate_from_gaps;
use crate::resource::gaps::Region;
use crate::resource::laws::settled;
use crate::resource::params::aperture_end;
use crate::resource::params::select_aperture;
use crate::resource::params::AssignmentError;
use crate::resource::params::AssignmentParams;
use crate::resource::params::MmioAperture;
use crate::resource::pinned::validate_pinned_bars;
use crate::resource::sizing::collect_fixed;
use crate::resource::sizing::copy_gaps;
use crate::resource::sizing::lemma_level_demands;
use crate::resource::sizing::lemma_origin_unpinned;
use crate::resource::sizing::lemma_pool_model;
use crate::resource::sizing::lemma_pool_pins;
use crate::resource::sizing::lemma_sizing;
use crate::resource::sizing::lemma_sorted_valid;
use crate::resource::sizing::lemma_windows_pool_fits;
use crate::resource::sizing::level_demands;
use crate::resource::sizing::pool_fits;
use crate::resource::sizing::pool_model;
use crate::resource::sizing::pool_pins;
use crate::resource::sizing::push_own_demands;
use crate::resource::sizing::push_range;
use crate::resource::sizing::push_window_demand;
use crate::resource::sizing::size_level;
use crate::resource::sizing::size_pool;
use crate::resource::sizing::sizes_fit;
use crate::resource::sizing::sizing;
use crate::resource::sizing::sizing_origin;
use crate::resource::sizing::sizing_start;
use crate::resource::sizing::subtree_model;
use crate::resource::sizing::window_fits;
use crate::resource::sizing::windows_fit;
use crate::resource::sizing::PoolModel;
use crate::resource::sizing::PoolState;
use crate::resource::sizing::Sizing;
use crate::resource::sort::sort_by_key;
use vstd::arithmetic::power2::lemma_pow2_unfold;
use vstd::arithmetic::power2::pow2;
use vstd::prelude::*;

verus! {

/// Half of a power of two is one, unless it is one half.
proof fn lemma_pow2_half(x: int)
    requires
        x > 1,
        x % 2 == 0,
    ensures
        is_pow2(x) == is_pow2(x / 2),
{
    if is_pow2(x) {
        let n = choose|n: nat| #[trigger] pow2(n) == x;
        if n == 0 {
            vstd::arithmetic::power2::lemma2_to64();
            assert(false);
        }
        lemma_pow2_unfold(n);
        assert(pow2((n - 1) as nat) == x / 2);
    }
    if is_pow2(x / 2) {
        let n = choose|n: nat| #[trigger] pow2(n) == x / 2;
        lemma_pow2_unfold(n + 1);
        assert(pow2(n + 1) == x);
    }
}

/// A power of two above one is even.
proof fn lemma_pow2_even(x: int)
    requires
        is_pow2(x),
        x > 1,
    ensures
        x % 2 == 0,
{
    let n = choose|n: nat| #[trigger] pow2(n) == x;
    if n == 0 {
        vstd::arithmetic::power2::lemma2_to64();
        assert(false);
    }
    lemma_pow2_unfold(n);
}

/// Returns whether a number is a power of two.
fn is_power_of_two(x: u64) -> (r: bool)
    ensures
        r == is_pow2(x as int),
    decreases x,
{
    if x == 0 {
        proof {
            if is_pow2(0) {
                lemma_pow2_positive(0);
            }
        }
        false
    } else if x == 1 {
        proof {
            vstd::arithmetic::power2::lemma2_to64();
            assert(pow2(0) == 1);
        }
        true
    } else if x % 2 == 1 {
        proof {
            if is_pow2(x as int) {
                lemma_pow2_even(x as int);
            }
        }
        false
    } else {
        proof {
            lemma_pow2_half(x as int);
        }
        is_power_of_two(x / 2)
    }
}

/// Rounds `value` up to a multiple of `alignment`, if that can be counted.
fn checked_align_up(value: u64, alignment: u64) -> (r: Option<u64>)
    requires
        alignment > 0,
    ensures
        match r {
            Some(v) => v == aligned_up(value as int, alignment as int),
            None => aligned_up(value as int, alignment as int) > u64::MAX,
        },
{
    let rem: u64 = value % alignment;
    if rem == 0 {
        Some(value)
    } else {
        value.checked_add(alignment - rem)
    }
}

/// Sizes the dynamic demands of one pool, if the end of the window, counted from
/// the origin, can be counted.
fn checked_size(start: &PoolState, demands: &Vec<Demand>, mem64: bool, origin: u64) -> (r: Option<
    u64,
>)
    requires
        demands_valid(demands@),
        start.is_start(pool_pins(demands@, mem64)),
        sizing_start(pool_pins(demands@, mem64)).mem >= 0,
    ensures
        ({
            let end = sizing(
                Sizing { origin: origin as int, ..sizing_start(pool_pins(demands@, mem64)) },
                demands@,
                mem64,
            );
            match r {
                Some(mem) => mem == end.mem && origin + mem <= u64::MAX,
                None => origin + end.mem > u64::MAX,
            }
        }),
{
    let ghost s = Sizing { origin: origin as int, ..sizing_start(pool_pins(demands@, mem64)) };
    proof {
        lemma_window_align_pow2();
        lemma_sizing(s, demands@, mem64);
        assert(demands@.take(0) =~= Seq::<Demand>::empty());
    }
    let mut gaps: Vec<(u64, u64)> = copy_gaps(&start.gaps);
    let mut end: u64 = match origin.checked_add(start.mem) {
        Some(end) => end,
        None => {
            return None;
        },
    };
    let mut i: usize = 0;
    while i < demands.len()
        invariant
            i <= demands.len(),
            demands_valid(demands@),
            s.origin == origin,
            s.mem >= 0,
            is_pow2(s.align),
            s == (Sizing { origin: origin as int, ..sizing_start(pool_pins(demands@, mem64)) }),
            end == origin + sizing(s, demands@.take(i as int), mem64).mem,
            gaps@ == sizing(s, demands@.take(i as int), mem64).gaps,
            forall|k: int|
                0 <= k <= demands@.len() ==> #[trigger] sizing(s, demands@.take(k), mem64).mem
                    <= sizing(s, demands@, mem64).mem,
        decreases demands.len() - i,
    {
        let d: Demand = demands[i];
        proof {
            let done = demands@.take(i as int);
            assert(demands@.take(i + 1).drop_last() =~= done);
            assert(demands@.take(i + 1).last() == d);
            assert(d.valid());
            assert(sizing(s, demands@.take(i + 1), mem64).mem <= sizing(s, demands@, mem64).mem);
            assert(demands_valid(done)) by {
                assert forall|k: int| 0 <= k < done.len() implies (#[trigger] done[k]).valid() by {
                    assert(done[k] == demands@[k]);
                }
            }
            lemma_sizing(s, done, mem64);
        }
        if d.fixed_position().is_none() && d.is_mem64() == mem64 {
            proof {
                lemma_valid_align(d);
                lemma_aligned_up(end as int, d.align());
            }
            if allocate_from_gaps(&mut gaps, d.size(), d.alignment()).is_none() {
                let from: u64 = match checked_align_up(end, d.alignment()) {
                    Some(from) => from,
                    None => {
                        return None;
                    },
                };
                end = match from.checked_add(d.size()) {
                    Some(end) => end,
                    None => {
                        return None;
                    },
                };
            }
        }
        i = i + 1;
    }
    assert(demands@.take(i as int) =~= demands@);
    Some(end - origin)
}

/// Returns whether the sizes of a pool can be counted.
fn level_fits(demands: &Vec<Demand>, mem64: bool, start: &PoolState) -> (r: bool)
    requires
        demands_valid(demands@),
        start.is_start(pool_pins(demands@, mem64)),
    ensures
        r == pool_fits(pool_model(demands@, mem64)),
{
    proof {
        let s = sizing_start(pool_pins(demands@, mem64));
        lemma_pool_pins(demands@, mem64);
        lemma_pool_model(demands@, mem64);
        lemma_origin_unpinned(demands@, mem64);
        lemma_window_align_pow2();
        lemma_sizing(s, demands@, mem64);
        assert(Sizing { origin: 0, ..s } == s);
    }
    let mem: u64 = match checked_size(start, demands, mem64, 0) {
        Some(mem) => mem,
        None => {
            return false;
        },
    };
    match start.constrained_base {
        None => true,
        Some(base) => {
            if base.checked_add(mem).is_none() {
                return false;
            }
            let mut gaps: Vec<(u64, u64)> = copy_gaps(&start.gaps);
            push_range(&mut gaps, base + start.mem, base + mem);
            proof {
                reveal(sizing_origin);
            }
            level_settles(&gaps, demands, mem64, 0) || checked_size(
                start,
                demands,
                mem64,
                base,
            ).is_some()
        },
    }
}

/// Returns whether the window of a bridge can be counted.
fn window_in_range(mem: u64, constrained_base: Option<u64>, Ghost(pool): Ghost<PoolModel>) -> (r:
    bool)
    requires
        mem == pool.mem,
        constrained_base == pool.base,
        pool_fits(pool),
    ensures
        r == window_fits(pool),
{
    match checked_align_up(mem, BRIDGE_WINDOW_ALIGN) {
        Some(size) => match constrained_base {
            Some(base) => base.checked_add(size).is_some(),
            None => true,
        },
        None => false,
    }
}

/// Returns whether no two BARs have the same index.
fn bars_distinct(bars: &Vec<DiscoveredBar>) -> (r: bool)
    ensures
        r == distinct_bars(bars@),
{
    let mut j: usize = 0;
    while j < bars.len()
        invariant
            j <= bars.len(),
            forall|a: int, b: int|
                #![trigger bars@[a], bars@[b]]
                0 <= a < b < j ==> bars@[a].index != bars@[b].index,
        decreases bars.len() - j,
    {
        let mut i: usize = 0;
        while i < j
            invariant
                i <= j < bars.len(),
                forall|a: int| 0 <= a < i ==> (#[trigger] bars@[a]).index != bars@[j as int].index,
            decreases j - i,
        {
            if bars[i].index == bars[j].index {
                assert(!distinct_bars(bars@));
                return false;
            }
            i = i + 1;
        }
        j = j + 1;
    }
    true
}

/// Returns whether each BAR can be placed.
fn bars_in_order(bars: &Vec<DiscoveredBar>) -> (r: bool)
    ensures
        r == forall|j: int| 0 <= j < bars@.len() ==> bar_ok(#[trigger] bars@[j]),
{
    let mut j: usize = 0;
    while j < bars.len()
        invariant
            j <= bars.len(),
            forall|i: int| 0 <= i < j ==> bar_ok(#[trigger] bars@[i]),
        decreases bars.len() - j,
    {
        let bar: DiscoveredBar = bars[j];
        let ok: bool = match bar.pinned_address {
            Some(addr) => bar.size > 0 && addr.checked_add(bar.size).is_some(),
            None => is_power_of_two(bar.size),
        };
        if !ok {
            assert(!bar_ok(bars@[j as int]));
            return false;
        }
        j = j + 1;
    }
    true
}

/// Returns whether each VF BAR can be placed.
fn vf_bars_in_order(bars: &Vec<DiscoveredBar>) -> (r: bool)
    ensures
        r == forall|j: int| 0 <= j < bars@.len() ==> is_pow2((#[trigger] bars@[j]).size as int),
{
    let mut j: usize = 0;
    while j < bars.len()
        invariant
            j <= bars.len(),
            forall|i: int| 0 <= i < j ==> is_pow2((#[trigger] bars@[i]).size as int),
        decreases bars.len() - j,
    {
        if !is_power_of_two(bars[j].size) {
            assert(!is_pow2(bars@[j as int].size as int));
            return false;
        }
        j = j + 1;
    }
    true
}

/// Returns whether one device is in order, its children left aside.
fn device_in_order(dev: &DiscoveredDevice) -> (r: bool)
    ensures
        r == device_ok(*dev),
{
    if !bars_in_order(&dev.bars) || !bars_distinct(&dev.bars) {
        return false;
    }
    if let Some(sriov) = &dev.sriov {
        if sriov.total_vfs == 0 || !vf_bars_in_order(&sriov.vf_bars) || !bars_distinct(
            &sriov.vf_bars,
        ) {
            return false;
        }
    }
    dev.is_bridge || (dev.children.len() == 0 && dev.subtree_req.is_none())
}

/// Sizes one pool for a sorted list of demands, if that can be counted.
fn survey_pool(demands: &Vec<Demand>, mem64: bool) -> (r: Option<PoolState>)
    requires
        demands_valid(demands@),
    ensures
        match r {
            Some(pool) => pool_fits(pool_model(demands@, mem64)) && pool.matches_model(
                pool_model(demands@, mem64),
            ),
            None => !pool_fits(pool_model(demands@, mem64)),
        },
{
    let fixed: Vec<Region> = collect_fixed(demands, mem64);
    proof {
        lemma_pool_pins(demands@, mem64);
    }
    let start: PoolState = size_pool(&fixed);
    if level_fits(demands, mem64, &start) {
        Some(size_level(demands, mem64))
    } else {
        None
    }
}

/// Whether the first devices are in order, with everything behind them, and their
/// windows can be counted.
spec fn surveyed(devices: Seq<DiscoveredDevice>, n: int) -> bool {
    forall|j: int|
        #![trigger devices[j]]
        0 <= j < n ==> one_surveyed(devices[j])
}

/// Whether one device is in order, with everything behind it, and its windows can
/// be counted.
spec fn one_surveyed(dev: DiscoveredDevice) -> bool {
    &&& device_ok(dev)
    &&& tree_ok(dev.children@)
    &&& dev.is_bridge ==> {
        &&& windows_fit(dev.children@)
        &&& window_fits(subtree_model(dev.children@).pool32)
        &&& window_fits(subtree_model(dev.children@).pool64)
    }
}

proof fn lemma_surveyed_step(devices: Seq<DiscoveredDevice>, n: int)
    requires
        0 <= n < devices.len(),
        surveyed(devices, n),
        one_surveyed(devices[n]),
    ensures
        surveyed(devices, n + 1),
{
}

proof fn lemma_surveyed(devices: Seq<DiscoveredDevice>)
    requires
        surveyed(devices, devices.len() as int),
    ensures
        tree_ok(devices),
        windows_fit(devices),
{
    assert forall|i: int| #![trigger devices[i]] 0 <= i < devices.len() implies device_ok(
        devices[i],
    ) && tree_ok(devices[i].children@) by {
        assert(one_surveyed(devices[i]));
    }
    assert forall|i: int|
        #![trigger devices[i]]
        0 <= i < devices.len() && devices[i].is_bridge implies {
        &&& windows_fit(devices[i].children@)
        &&& window_fits(subtree_model(devices[i].children@).pool32)
        &&& window_fits(subtree_model(devices[i].children@).pool64)
    } by {
        assert(one_surveyed(devices[i]));
    }
}

/// Where all is well, it is so for each device, and for each level behind one.
proof fn lemma_out_of_order(devices: Seq<DiscoveredDevice>, n: int)
    requires
        0 <= n < devices.len(),
    ensures
        tree_ok(devices) && sizes_fit(devices) ==> one_surveyed(devices[n]) && (
        devices[n].is_bridge ==> sizes_fit(devices[n].children@)),
{
    if tree_ok(devices) && sizes_fit(devices) {
        let dev = devices[n];
        assert(device_ok(dev) && tree_ok(dev.children@));
        if dev.is_bridge {
            lemma_windows_pool_fits(dev.children@);
        }
    }
}

/// Bottom-up: works out what a list of devices needs, with everything behind them,
/// if the tree is in order and all numbers can be counted.
fn survey(devices: &[DiscoveredDevice]) -> (r: Option<SubtreeState>)
    ensures
        match r {
            Some(state) => {
                &&& tree_ok(devices@)
                &&& sizes_fit(devices@)
                &&& state.matches_model(subtree_model(devices@))
            },
            None => !(tree_ok(devices@) && sizes_fit(devices@)),
        },
    decreases devices@,
{
    let mut demands: Vec<Demand> = Vec::new();
    let mut i: usize = 0;
    while i < devices.len()
        invariant
            i <= devices@.len(),
            i <= devices.len(),
            demands@ == level_demands(devices@.take(i as int)),
            surveyed(devices@, i as int),
        decreases devices@.len() - i,
    {
        let dev: &DiscoveredDevice = &devices[i];
        proof {
            assert(devices@.take(i + 1).drop_last() =~= devices@.take(i as int));
            assert(devices@.take(i + 1).last() == devices@[i as int]);
            assert(decreases_to!(devices@ => devices@[i as int].children@));
        }
        if !device_in_order(dev) {
            proof {
                lemma_out_of_order(devices@, i as int);
            }
            return None;
        }
        push_own_demands(dev, i, &mut demands);
        if dev.is_bridge {
            let ghost kids = dev.children@;
            let child: SubtreeState = match survey(dev.children.as_slice()) {
                Some(child) => child,
                None => {
                    proof {
                        lemma_out_of_order(devices@, i as int);
                    }
                    return None;
                },
            };
            if !window_in_range(
                child.mem32,
                child.constrained_base32,
                Ghost(subtree_model(kids).pool32),
            ) || !window_in_range(
                child.mem64,
                child.constrained_base64,
                Ghost(subtree_model(kids).pool64),
            ) {
                proof {
                    lemma_out_of_order(devices@, i as int);
                }
                return None;
            }
            push_window_demand(
                i,
                child.mem32,
                child.align32,
                child.constrained_base32,
                false,
                &mut demands,
                Ghost(subtree_model(kids).pool32),
            );
            push_window_demand(
                i,
                child.mem64,
                child.align64,
                child.constrained_base64,
                true,
                &mut demands,
                Ghost(subtree_model(kids).pool64),
            );
        }
        assert(demands@ =~= level_demands(devices@.take(i + 1)));
        proof {
            lemma_surveyed_step(devices@, i as int);
        }
        i = i + 1;
    }
    assert(devices@.take(i as int) =~= devices@);
    proof {
        lemma_surveyed(devices@);
        lemma_level_demands(devices@);
        lemma_sorted_valid(level_demands(devices@));
    }
    let sorted: Vec<Demand> = sort_by_key(&demands);
    let pool32: PoolState = match survey_pool(&sorted, false) {
        Some(pool) => pool,
        None => {
            return None;
        },
    };
    let pool64: PoolState = match survey_pool(&sorted, true) {
        Some(pool) => pool,
        None => {
            return None;
        },
    };
    Some(
        SubtreeState {
            mem32: pool32.mem,
            mem64: pool64.mem,
            align32: pool32.align,
            align64: pool64.align,
            demands: sorted,
            memory_window: None,
            prefetchable_window: None,
            constrained_base32: pool32.constrained_base,
            constrained_base64: pool64.constrained_base,
            gaps32: pool32.gaps,
            gaps64: pool64.gaps,
        },
    )
}

/// Returns whether an aperture, if there is one, ends within the address space.
fn aperture_in_range(a: Option<MmioAperture>) -> (r: bool)
    ensures
        r == (a matches Some(a) ==> aperture_end(a) <= u64::MAX),
{
    match a {
        Some(a) => a.base.checked_add(a.len).is_some(),
        None => true,
    }
}

/// Returns whether the VF BARs of one device can be counted.
fn vf_bars_countable(sriov: &DiscoveredSriov) -> (r: bool)
    ensures
        r == forall|j: int|
            #![trigger sriov.vf_bars@[j]]
            0 <= j < sriov.vf_bars@.len() ==> sriov.vf_bars@[j].size * sriov.total_vfs
                <= u64::MAX,
{
    let mut j: usize = 0;
    while j < sriov.vf_bars.len()
        invariant
            j <= sriov.vf_bars.len(),
            forall|i: int|
                #![trigger sriov.vf_bars@[i]]
                0 <= i < j ==> sriov.vf_bars@[i].size * sriov.total_vfs <= u64::MAX,
        decreases sriov.vf_bars.len() - j,
    {
        let bar: DiscoveredBar = sriov.vf_bars[j];
        if bar.size.checked_mul(sriov.total_vfs as u64).is_none() {
            assert(sriov.vf_bars@[j as int].size * sriov.total_vfs > u64::MAX);
            return false;
        }
        j = j + 1;
    }
    true
}

/// Returns whether the VF BARs of each PF can be counted.
fn vfs_in_range(devices: &[DiscoveredDevice]) -> (r: bool)
    ensures
        r == vfs_countable(devices@),
    decreases devices@,
{
    let mut i: usize = 0;
    while i < devices.len()
        invariant
            i <= devices@.len(),
            i <= devices.len(),
            forall|j: int| #![trigger devices@[j]] 0 <= j < i ==> one_countable(devices@[j]),
        decreases devices@.len() - i,
    {
        let dev: &DiscoveredDevice = &devices[i];
        proof {
            assert(decreases_to!(devices@ => devices@[i as int].children@));
            if vfs_countable(devices@) {
                assert(one_countable(devices@[i as int]));
            }
        }
        if let Some(sriov) = &dev.sriov {
            if !vf_bars_countable(sriov) {
                return false;
            }
        }
        if !vfs_in_range(dev.children.as_slice()) {
            return false;
        }
        i = i + 1;
    }
    assert forall|j: int| #![trigger devices@[j]] 0 <= j < devices@.len() implies {
        &&& devices@[j].sriov is Some ==> forall|k: int|
            #![trigger devices@[j].sriov->0.vf_bars@[k]]
            0 <= k < devices@[j].sriov->0.vf_bars@.len()
                ==> devices@[j].sriov->0.vf_bars@[k].size * devices@[j].sriov->0.total_vfs
                <= u64::MAX
        &&& vfs_countable(devices@[j].children@)
    } by {
        assert(one_countable(devices@[j]));
    }
    true
}

/// Whether the VF BARs of one PF and of those behind it can be counted.
spec fn one_countable(dev: DiscoveredDevice) -> bool {
    &&& dev.sriov is Some ==> forall|k: int|
        #![trigger dev.sriov->0.vf_bars@[k]]
        0 <= k < dev.sriov->0.vf_bars@.len() ==> dev.sriov->0.vf_bars@[k].size
            * dev.sriov->0.total_vfs <= u64::MAX
    &&& vfs_countable(dev.children@)
}

/// Returns whether an assignment can be worked out.
#[verifier::rlimit(40)]
pub fn can_assign(devices: &[DiscoveredDevice], params: &AssignmentParams) -> (r: bool)
    ensures
        r == assignable(devices@, *params),
{
    let ghost m = subtree_model(devices@);
    if !aperture_in_range(params.low_mmio) || !aperture_in_range(params.high_mmio) {
        return false;
    }
    let s: SubtreeState = match survey(devices) {
        Some(s) => s,
        None => {
            return false;
        },
    };
    if validate_pinned_bars(devices, params).is_err() {
        return true;
    }
    assert(devices.len() <= usize::MAX);
    proof {
        lemma_level_demands(devices@);
        lemma_sorted_valid(level_demands(devices@));
        lemma_pool_model(m.demands, false);
        lemma_pool_model(m.demands, true);
    }
    let mut mem32_end: Option<u64> = None;
    let mut below: bool = false;
    if s.mem32 > 0 {
        let aperture: MmioAperture = match params.low_mmio {
            Some(a) => a,
            None => {
                return true;
            },
        };
        let base: u64 = match s.constrained_base32 {
            Some(b) => b,
            None => match checked_align_up(aperture.base, s.align32) {
                Some(b) => b,
                None => {
                    return false;
                },
            },
        };
        assert(base == root_base(m, *params, false));
        let end: u64 = aperture.base + aperture.len;
        let available: u64 = if base <= end {
            end - base
        } else {
            0
        };
        if s.mem32 > available {
            return true;
        }
        below = check_floor(
            s.constrained_base32,
            &s.gaps32,
            &s.demands,
            false,
            aperture,
        ).is_some();
        mem32_end = Some(base + s.mem32);
    }
    assert(pool_error(m, *params, false) is None);
    if s.mem64 > 0 {
        let aperture: MmioAperture = match select_aperture(params, true) {
            Some(a) => a,
            None => {
                return true;
            },
        };
        let base: Option<u64> = match s.constrained_base64 {
            Some(b) => Some(b),
            None => {
                let shared: bool = params.high_mmio.is_none();
                match mem32_end {
                    Some(e) if shared => checked_align_up(e, s.align64),
                    _ => checked_align_up(aperture.base, s.align64),
                }
            },
        };
        let base: u64 = match base {
            Some(b) => b,
            None => {
                return false;
            },
        };
        assert(base == root_base(m, *params, true));
        let end: u64 = aperture.base + aperture.len;
        let available: u64 = if base <= end {
            end - base
        } else {
            0
        };
        if s.mem64 > available {
            return true;
        }
        below = below || check_floor(
            s.constrained_base64,
            &s.gaps64,
            &s.demands,
            true,
            aperture,
        ).is_some();
    }
    proof {
        assert(pool_error(m, *params, true) is None);
        assert(below == (floor_error(m, *params, false) is Some || floor_error(
            m,
            *params,
            true,
        ) is Some));
    }
    below || vfs_in_range(devices)
}

/// Assigns addresses to all devices of a tree and windows to its bridges, where
/// that can be worked out.
pub fn try_assign_addresses(
    devices: &mut [DiscoveredDevice],
    params: &AssignmentParams,
) -> (r: Option<Result<(), AssignmentError>>)
    ensures
        r is Some == assignable(old(devices)@, *params),
        match r {
            None => final(devices)@ == old(devices)@,
            Some(r) => {
                &&& match assign_error(old(devices)@, *params) {
                    Some(e) => r == Err::<(), AssignmentError>(e),
                    None => r is Ok,
                }
                &&& has_room(old(devices)@, *params) ==> r is Ok
                &&& r matches Err(AssignmentError::MmioExhaustion { required, available, .. })
                    ==> required > available
                &&& r is Ok ==> {
                    &&& settled(final(devices)@, *params) && vfs_countable(final(devices)@)
                    &&& assignments_valid(final(devices)@, *params)
                    &&& tree_agrees(old(devices)@, final(devices)@, full_scope())
                }
            },
        },
{
    if can_assign(devices, params) {
        Some(assign_addresses(devices, params))
    } else {
        None
    }
}

}
