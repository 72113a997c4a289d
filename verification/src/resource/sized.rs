//! How much a pool needs: what its BARs and windows add up to, with no more than the
//! rounding that alignment asks for.
use crate::resource::align::aligned_up;
use crate::resource::align::is_pow2;
use crate::resource::align::lemma_aligned_up;
use crate::resource::align::lemma_aligned_up_least;
use crate::resource::align::lemma_aligned_up_monotone;
use crate::resource::align::lemma_multiple_sum;
use crate::resource::align::lemma_multiple_trans;
use crate::resource::align::lemma_pow2_divides;
use crate::resource::align::lemma_pow2_positive;
use crate::resource::align::lemma_window_align_pow2;
use crate::resource::assign::assign_error;
use crate::resource::assign::vfs_countable;
use crate::resource::complete::aperture64;
use crate::resource::complete::can_start;
use crate::resource::complete::first_start;
use crate::resource::complete::free64;
use crate::resource::complete::law_enough_room;
use crate::resource::complete::law_lack_of_room;
use crate::resource::demand::demands_valid;
use crate::resource::demand::lemma_valid_align;
use crate::resource::demand::Demand;
use crate::resource::device::bar_ok;
use crate::resource::device::device_ok;
use crate::resource::device::tree_ok;
use crate::resource::device::DiscoveredBar;
use crate::resource::device::DiscoveredDevice;
use crate::resource::laws::lemma_no_pins_level;
use crate::resource::laws::no_pins;
use crate::resource::params::params_ok;
use crate::resource::params::AssignmentParams;
use crate::resource::params::MmioAperture;
use crate::resource::sizing::bar_demand;
use crate::resource::sizing::is_dynamic;
use crate::resource::sizing::lemma_level_demands;
use crate::resource::sizing::lemma_origin_unpinned;
use crate::resource::sizing::lemma_pool_model;
use crate::resource::sizing::lemma_pool_pins;
use crate::resource::sizing::lemma_sorted_valid;
use crate::resource::sizing::level_demands;
use crate::resource::sizing::own_demands;
use crate::resource::sizing::sizes_fit;
use crate::resource::sizing::sizing;
use crate::resource::sizing::subtree_model;
use crate::resource::sizing::vf_demand;
use crate::resource::sizing::window_demand;
use crate::resource::sizing::window_fits;
use crate::resource::sizing::windows_fit;
use crate::resource::sizing::PoolModel;
use crate::resource::sizing::Sizing;
use crate::resource::sort::insert_by_key;
use crate::resource::sort::is_sorted;
use crate::resource::sort::lemma_sorted_by_key;
use crate::resource::sort::sorted_by_key;
use crate::resource::sort::SortKey;
use vstd::prelude::*;

verus! {

/// The bytes of the BARs of one pool.
pub open spec fn bar_bytes(bars: Seq<DiscoveredBar>, mem64: bool) -> int
    decreases bars.len(),
{
    if bars.len() == 0 {
        0
    } else {
        let bar = bars.last();
        bar_bytes(bars.drop_last(), mem64) + if (bar.is_64bit && bar.is_prefetchable) == mem64 {
            bar.size as int
        } else {
            0
        }
    }
}

/// The bytes of a device's own BARs and of the BARs of all its VFs, in one pool.
pub open spec fn own_bytes(dev: DiscoveredDevice, mem64: bool) -> int {
    bar_bytes(dev.bars@, mem64) + match dev.sriov {
        Some(sriov) => bar_bytes(sriov.vf_bars@, mem64) * sriov.total_vfs,
        None => 0,
    }
}

/// The larger of two numbers.
pub open spec fn larger(a: int, b: int) -> int {
    if a < b {
        b
    } else {
        a
    }
}

/// The size of the largest BAR of one pool, if it is above 1 MB, or else 1 MB.
pub open spec fn largest_bar(bars: Seq<DiscoveredBar>, mem64: bool) -> int
    decreases bars.len(),
{
    if bars.len() == 0 {
        0x10_0000
    } else {
        let bar = bars.last();
        larger(
            largest_bar(bars.drop_last(), mem64),
            if (bar.is_64bit && bar.is_prefetchable) == mem64 {
                bar.size as int
            } else {
                0
            },
        )
    }
}

/// The size of the largest BAR or VF BAR of one pool in a device tree, if it is above
/// 1 MB, or else 1 MB.
pub open spec fn largest(devices: Seq<DiscoveredDevice>, mem64: bool) -> int
    decreases devices,
{
    if devices.len() == 0 {
        0x10_0000
    } else {
        let dev = devices.last();
        let own = larger(
            largest_bar(dev.bars@, mem64),
            match dev.sriov {
                Some(sriov) => largest_bar(sriov.vf_bars@, mem64),
                None => 0,
            },
        );
        larger(
            largest(devices.drop_last(), mem64),
            larger(
                own,
                if dev.is_bridge {
                    largest(dev.children@, mem64)
                } else {
                    0
                },
            ),
        )
    }
}

/// The bytes that one pool of a device tree takes at least: those of its BARs, and
/// behind each bridge a whole number of megabytes.
pub open spec fn least_bytes(devices: Seq<DiscoveredDevice>, mem64: bool) -> int
    decreases devices,
{
    if devices.len() == 0 {
        0
    } else {
        let dev = devices.last();
        least_bytes(devices.drop_last(), mem64) + own_bytes(dev, mem64) + if dev.is_bridge {
            aligned_up(least_bytes(dev.children@, mem64), 0x10_0000)
        } else {
            0
        }
    }
}

/// Bytes that are enough for one pool of a device tree: those of its BARs, and for
/// each bridge what is enough behind it, rounded up to its largest BAR.
pub open spec fn ample_bytes(devices: Seq<DiscoveredDevice>, mem64: bool) -> int
    decreases devices,
{
    if devices.len() == 0 {
        0
    } else {
        let dev = devices.last();
        ample_bytes(devices.drop_last(), mem64) + own_bytes(dev, mem64) + if dev.is_bridge {
            aligned_up(ample_bytes(dev.children@, mem64), largest(dev.children@, mem64))
        } else {
            0
        }
    }
}

/// What a demand adds to one pool, rounded up to its alignment or not.
spec fn part(d: Demand, mem64: bool, up: bool) -> int {
    if d.mem64() != mem64 {
        0
    } else if up {
        aligned_up(d.bytes(), d.align())
    } else {
        d.bytes()
    }
}

/// What demands add up to in one pool.
spec fn total(demands: Seq<Demand>, mem64: bool, up: bool) -> int
    decreases demands.len(),
{
    if demands.len() == 0 {
        0
    } else {
        total(demands.drop_last(), mem64, up) + part(demands.last(), mem64, up)
    }
}

/// The largest alignment of one pool's demands, from the window granularity on.
spec fn top(demands: Seq<Demand>, mem64: bool) -> int
    decreases demands.len(),
{
    if demands.len() == 0 {
        0x10_0000
    } else {
        larger(
            top(demands.drop_last(), mem64),
            if demands.last().mem64() == mem64 {
                demands.last().align()
            } else {
                0
            },
        )
    }
}

proof fn lemma_concat(a: Seq<Demand>, b: Seq<Demand>, mem64: bool, up: bool)
    ensures
        total(a + b, mem64, up) == total(a, mem64, up) + total(b, mem64, up),
        top(a + b, mem64) == larger(top(a, mem64), top(b, mem64)),
        top(a, mem64) >= 0x10_0000,
        top(b, mem64) >= 0x10_0000,
    decreases a.len() + b.len(),
{
    if b.len() == 0 {
        assert(a + b =~= a);
        if a.len() > 0 {
            lemma_concat(a.drop_last(), b, mem64, up);
        }
    } else {
        let init = b.drop_last();
        assert((a + b).drop_last() =~= a + init);
        assert((a + b).last() == b.last());
        lemma_concat(a, init, mem64, up);
    }
}

proof fn lemma_push(a: Seq<Demand>, x: Demand, mem64: bool, up: bool)
    ensures
        total(a.push(x), mem64, up) == total(a, mem64, up) + part(x, mem64, up),
        top(a.push(x), mem64) == larger(
            top(a, mem64),
            if x.mem64() == mem64 {
                x.align()
            } else {
                0
            },
        ),
{
    assert(a.push(x).drop_last() =~= a);
    assert(a.push(x).last() == x);
}

proof fn lemma_insert(s: Seq<Demand>, x: Demand, mem64: bool, up: bool)
    ensures
        total(insert_by_key(s, x), mem64, up) == total(s.push(x), mem64, up),
        top(insert_by_key(s, x), mem64) == top(s.push(x), mem64),
    decreases s.len(),
{
    lemma_push(s, x, mem64, up);
    if s.len() > 0 && s.last().key() > x.key() {
        let init = s.drop_last();
        lemma_insert(init, x, mem64, up);
        lemma_push(init, x, mem64, up);
        lemma_push(insert_by_key(init, x), s.last(), mem64, up);
        assert(init.push(s.last()) =~= s);
        lemma_push(init, s.last(), mem64, up);
    }
}

proof fn lemma_sorted_total(s: Seq<Demand>, mem64: bool, up: bool)
    ensures
        total(sorted_by_key(s), mem64, up) == total(s, mem64, up),
        top(sorted_by_key(s), mem64) == top(s, mem64),
    decreases s.len(),
{
    if s.len() > 0 {
        let init = s.drop_last();
        lemma_sorted_total(init, mem64, up);
        lemma_insert(sorted_by_key(init), s.last(), mem64, up);
        lemma_push(sorted_by_key(init), s.last(), mem64, up);
    }
}

/// Rounded parts add up to a multiple of each power of two that is no larger than
/// the alignments.
proof fn lemma_total_multiple(demands: Seq<Demand>, mem64: bool, a: int)
    requires
        demands_valid(demands),
        is_pow2(a),
        forall|k: int|
            #![trigger demands[k]]
            0 <= k < demands.len() && demands[k].mem64() == mem64 ==> demands[k].fixed() is None
                && a <= demands[k].align(),
    ensures
        total(demands, mem64, true) % a == 0,
    decreases demands.len(),
{
    lemma_pow2_positive(a);
    if demands.len() > 0 {
        let init = demands.drop_last();
        let d = demands[demands.len() - 1];
        assert forall|k: int|
            #![trigger init[k]]
            0 <= k < init.len() implies init[k].valid() && (init[k].mem64() == mem64
            ==> init[k].fixed() is None && a <= init[k].align()) by {
            assert(init[k] == demands[k]);
        }
        lemma_total_multiple(init, mem64, a);
        if d.mem64() == mem64 {
            assert(d.valid());
            lemma_pow2_positive(d.align());
            lemma_aligned_up(d.bytes(), d.align());
            lemma_pow2_divides(a, d.align());
            lemma_multiple_trans(aligned_up(d.bytes(), d.align()), d.align(), a);
            lemma_multiple_sum(
                total(init, mem64, true),
                aligned_up(d.bytes(), d.align()),
                a,
            );
        }
    } else {
        vstd::arithmetic::div_mod::lemma_small_mod(0, a as nat);
    }
}

/// Where nothing is pinned, sizing adds the demands up with no more than what
/// rounding each of them to its own alignment costs.
proof fn lemma_sizing_total(demands: Seq<Demand>, mem64: bool)
    requires
        demands_valid(demands),
        is_sorted(demands),
        forall|k: int|
            #![trigger demands[k]]
            0 <= k < demands.len() && demands[k].mem64() == mem64 ==> demands[k].fixed() is None,
    ensures
        ({
            let start = Sizing { origin: 0, gaps: Seq::empty(), mem: 0, align: 0x10_0000 };
            let end = sizing(start, demands, mem64);
            &&& end.gaps.len() == 0
            &&& end.origin == 0
            &&& total(demands, mem64, false) <= end.mem <= total(demands, mem64, true)
            &&& end.align == top(demands, mem64)
        }),
    decreases demands.len(),
{
    let start = Sizing { origin: 0, gaps: Seq::empty(), mem: 0, align: 0x10_0000 };
    if demands.len() > 0 {
        let init = demands.drop_last();
        let d = demands[demands.len() - 1];
        assert forall|k: int|
            #![trigger init[k]]
            0 <= k < init.len() implies init[k].valid() && (init[k].mem64() == mem64
            ==> init[k].fixed() is None) by {
            assert(init[k] == demands[k]);
        }
        assert(is_sorted(init)) by {
            assert forall|i: int, j: int|
                #![trigger init[i], init[j]]
                0 <= i <= j < init.len() implies init[i].key() <= init[j].key() by {
                assert(init[i] == demands[i] && init[j] == demands[j]);
            }
        }
        lemma_sizing_total(init, mem64);
        let s = sizing(start, init, mem64);
        if d.mem64() == mem64 {
            assert(d.valid());
            lemma_valid_align(d);
            assert forall|k: int|
                #![trigger init[k]]
                0 <= k < init.len() && init[k].mem64() == mem64 implies init[k].fixed() is None
                && d.align() <= init[k].align() by {
                assert(init[k] == demands[k]);
                assert(demands[k].key() <= demands[demands.len() - 1].key());
            }
            lemma_total_multiple(init, mem64, d.align());
            lemma_aligned_up(s.mem, d.align());
            lemma_aligned_up_least(s.mem, d.align(), total(init, mem64, true));
            lemma_aligned_up(d.bytes(), d.align());
            assert(is_dynamic(d, mem64));
        } else {
            assert(!is_dynamic(d, mem64));
        }
    }
}

proof fn lemma_bars_total(bars: Seq<DiscoveredBar>, idx: int, mem64: bool, up: bool)
    requires
        forall|j: int|
            0 <= j < bars.len() ==> bar_ok(#[trigger] bars[j]) && bars[j].pinned_address is None,
    ensures
        ({
            let d = Seq::new(bars.len(), |j: int| bar_demand(bars[j], idx));
            &&& total(d, mem64, up) == bar_bytes(bars, mem64)
            &&& top(d, mem64) == largest_bar(bars, mem64)
        }),
    decreases bars.len(),
{
    let d = Seq::new(bars.len(), |j: int| bar_demand(bars[j], idx));
    if bars.len() > 0 {
        let init = bars.drop_last();
        assert forall|j: int| 0 <= j < init.len() implies bar_ok(#[trigger] init[j])
            && init[j].pinned_address is None by {
            assert(init[j] == bars[j]);
        }
        lemma_bars_total(init, idx, mem64, up);
        assert(d.drop_last() =~= Seq::new(init.len(), |j: int| bar_demand(init[j], idx)));
        let bar = bars[bars.len() - 1];
        assert(bar_ok(bar));
        lemma_pow2_positive(bar.size as int);
        vstd::arithmetic::div_mod::lemma_mod_self_0(bar.size as int);
    }
}

proof fn lemma_vf_bars_total(
    bars: Seq<DiscoveredBar>,
    total_vfs: u16,
    idx: int,
    mem64: bool,
    up: bool,
)
    requires
        forall|j: int|
            0 <= j < bars.len() ==> is_pow2((#[trigger] bars[j]).size as int) && bars[j].size
                * total_vfs <= u64::MAX,
    ensures
        ({
            let d = Seq::new(bars.len(), |j: int| vf_demand(bars[j], total_vfs, idx));
            &&& total(d, mem64, up) == bar_bytes(bars, mem64) * total_vfs
            &&& top(d, mem64) == largest_bar(bars, mem64)
        }),
    decreases bars.len(),
{
    let d = Seq::new(bars.len(), |j: int| vf_demand(bars[j], total_vfs, idx));
    if bars.len() > 0 {
        let init = bars.drop_last();
        assert forall|j: int| 0 <= j < init.len() implies is_pow2((#[trigger] init[j]).size as int)
            && init[j].size * total_vfs <= u64::MAX by {
            assert(init[j] == bars[j]);
        }
        lemma_vf_bars_total(init, total_vfs, idx, mem64, up);
        assert(d.drop_last() =~= Seq::new(
            init.len(),
            |j: int| vf_demand(init[j], total_vfs, idx),
        ));
        let bar = bars[bars.len() - 1];
        lemma_pow2_positive(bar.size as int);
        let bytes = bar.size * total_vfs;
        assert(bytes >= 0) by (nonlinear_arith)
            requires
                bytes == bar.size * total_vfs,
        ;
        assert(bytes % (bar.size as int) == 0) by {
            vstd::arithmetic::div_mod::lemma_mod_multiples_basic(
                total_vfs as int,
                bar.size as int,
            );
            assert(bytes == total_vfs * bar.size) by (nonlinear_arith)
                requires
                    bytes == bar.size * total_vfs,
            ;
        }
        let b = bar_bytes(init, mem64);
        assert((b + bar.size) * total_vfs == b * total_vfs + bar.size * total_vfs)
            by (nonlinear_arith);
        assert((b + 0) * total_vfs == b * total_vfs + 0);
    } else {
        assert(0 * (total_vfs as int) == 0);
    }
}

proof fn lemma_own_total(dev: DiscoveredDevice, idx: int, mem64: bool, up: bool)
    requires
        device_ok(dev),
        forall|j: int|
            0 <= j < dev.bars@.len() ==> (#[trigger] dev.bars@[j]).pinned_address is None,
        dev.sriov is Some ==> forall|j: int|
            #![trigger dev.sriov->0.vf_bars@[j]]
            0 <= j < dev.sriov->0.vf_bars@.len() ==> dev.sriov->0.vf_bars@[j].size
                * dev.sriov->0.total_vfs <= u64::MAX,
    ensures
        total(own_demands(dev, idx), mem64, up) == own_bytes(dev, mem64),
        top(own_demands(dev, idx), mem64) == larger(
            largest_bar(dev.bars@, mem64),
            match dev.sriov {
                Some(sriov) => largest_bar(sriov.vf_bars@, mem64),
                None => 0,
            },
        ),
{
    let a = Seq::new(dev.bars@.len(), |j: int| bar_demand(dev.bars@[j], idx));
    lemma_bars_total(dev.bars@, idx, mem64, up);
    match dev.sriov {
        Some(sriov) => {
            let b = Seq::new(
                sriov.vf_bars@.len(),
                |j: int| vf_demand(sriov.vf_bars@[j], sriov.total_vfs, idx),
            );
            lemma_vf_bars_total(sriov.vf_bars@, sriov.total_vfs, idx, mem64, up);
            lemma_concat(a, b, mem64, up);
        },
        None => {
            lemma_concat(a, Seq::empty(), mem64, up);
        },
    }
}

proof fn lemma_level_total(devices: Seq<DiscoveredDevice>, mem64: bool)
    requires
        tree_ok(devices),
        windows_fit(devices),
        no_pins(devices),
        vfs_countable(devices),
        devices.len() <= usize::MAX,
    ensures
        least_bytes(devices, mem64) <= total(level_demands(devices), mem64, false),
        total(level_demands(devices), mem64, true) <= ample_bytes(devices, mem64),
        top(level_demands(devices), mem64) == largest(devices, mem64),
    decreases devices, 0int,
{
    if devices.len() > 0 {
        let init = devices.drop_last();
        let idx = devices.len() - 1;
        let dev = devices[idx];
        assert forall|i: int| #![trigger init[i]] 0 <= i < init.len() implies init[i]
            == devices[i] by {}
        lemma_level_total(init, mem64);
        assert(device_ok(dev) && tree_ok(dev.children@));
        assert(no_pins(dev.children@) && vfs_countable(dev.children@));
        assert(decreases_to!(devices => dev.children@));
        let old_part = level_demands(init);
        let own = own_demands(dev, idx);
        lemma_own_total(dev, idx, mem64, false);
        lemma_own_total(dev, idx, mem64, true);
        let m = subtree_model(dev.children@);
        let w32 = window_demand(m.pool32, idx, false);
        let w64 = window_demand(m.pool64, idx, true);
        let w = if dev.is_bridge {
            w32 + w64
        } else {
            Seq::empty()
        };
        assert(level_demands(devices) =~= old_part + own + w);
        lemma_concat(old_part, own, mem64, false);
        lemma_concat(old_part, own, mem64, true);
        lemma_concat(old_part + own, w, mem64, false);
        lemma_concat(old_part + own, w, mem64, true);
        if dev.is_bridge {
            assert(windows_fit(dev.children@));
            assert(dev.children.len() <= usize::MAX);
            law_pool_sized(dev.children@, mem64);
            lemma_bridge_total(dev.children@, idx, mem64);
        }
    }
}

proof fn lemma_bar_bytes(bars: Seq<DiscoveredBar>, mem64: bool)
    ensures
        bar_bytes(bars, mem64) >= 0,
    decreases bars.len(),
{
    if bars.len() > 0 {
        lemma_bar_bytes(bars.drop_last(), mem64);
    }
}

proof fn lemma_least(devices: Seq<DiscoveredDevice>, mem64: bool)
    ensures
        least_bytes(devices, mem64) >= 0,
    decreases devices,
{
    if devices.len() > 0 {
        let dev = devices[devices.len() - 1];
        lemma_least(devices.drop_last(), mem64);
        lemma_bar_bytes(dev.bars@, mem64);
        if let Some(sriov) = dev.sriov {
            lemma_bar_bytes(sriov.vf_bars@, mem64);
            let b = bar_bytes(sriov.vf_bars@, mem64);
            let n = sriov.total_vfs as int;
            assert(b * n >= 0) by (nonlinear_arith)
                requires
                    b >= 0,
                    n >= 0,
            ;
        }
        if dev.is_bridge {
            assert(decreases_to!(devices => dev.children@));
            lemma_least(dev.children@, mem64);
            lemma_aligned_up(least_bytes(dev.children@, mem64), 0x10_0000);
        }
    }
}

/// What the window of one pool adds to either pool.
proof fn lemma_window_total(children: Seq<DiscoveredDevice>, idx: int, mem64: bool)
    requires
        tree_ok(children),
        windows_fit(children),
        children.len() <= usize::MAX,
        window_fits(subtree_model(children).pool(mem64)),
    ensures
        ({
            let pool = subtree_model(children).pool(mem64);
            let w = window_demand(pool, idx, mem64);
            &&& total(w, !mem64, false) == 0
            &&& total(w, !mem64, true) == 0
            &&& top(w, !mem64) == 0x10_0000
            &&& pool.mem > 0 ==> {
                &&& total(w, mem64, false) == aligned_up(pool.mem, 0x10_0000)
                &&& total(w, mem64, true) == aligned_up(pool.mem, pool.align)
                &&& top(w, mem64) == pool.align
            }
            &&& pool.mem <= 0 ==> {
                &&& pool.mem == 0
                &&& total(w, mem64, false) == 0
                &&& total(w, mem64, true) == 0
                &&& top(w, mem64) == 0x10_0000
            }
            &&& pool.align >= 0x10_0000
        }),
{
    let m = subtree_model(children);
    let pool = m.pool(mem64);
    let w = window_demand(pool, idx, mem64);
    lemma_level_demands(children);
    lemma_sorted_valid(level_demands(children));
    lemma_pool_model(m.demands, mem64);
    if pool.mem > 0 {
        let size = aligned_up(pool.mem, 0x10_0000);
        lemma_aligned_up(pool.mem, 0x10_0000);
        lemma_aligned_up(pool.mem, pool.align);
        lemma_aligned_up(size, pool.align);
        lemma_window_align_pow2();
        lemma_pow2_divides(0x10_0000, pool.align);
        let up = aligned_up(pool.mem, pool.align);
        lemma_multiple_trans(up, pool.align, 0x10_0000);
        lemma_aligned_up_least(pool.mem, 0x10_0000, up);
        lemma_aligned_up_least(size, pool.align, up);
        lemma_aligned_up_least(pool.mem, pool.align, aligned_up(size, pool.align));
        assert(w =~= Seq::empty().push(w[0]));
        lemma_push(Seq::empty(), w[0], mem64, false);
        lemma_push(Seq::empty(), w[0], mem64, true);
        lemma_push(Seq::empty(), w[0], !mem64, false);
        lemma_push(Seq::empty(), w[0], !mem64, true);
    }
}

/// What the windows of a bridge add to a pool, if sizing has it right behind it.
proof fn lemma_bridge_total(children: Seq<DiscoveredDevice>, idx: int, mem64: bool)
    requires
        tree_ok(children),
        windows_fit(children),
        children.len() <= usize::MAX,
        window_fits(subtree_model(children).pool32),
        window_fits(subtree_model(children).pool64),
        0 <= least_bytes(children, mem64) <= subtree_model(children).pool(mem64).mem,
        subtree_model(children).pool(mem64).mem <= ample_bytes(children, mem64),
        subtree_model(children).pool(mem64).align == largest(children, mem64),
        subtree_model(children).pool(mem64).mem <= 0 ==> largest(children, mem64) == 0x10_0000,
    ensures
        ({
            let m = subtree_model(children);
            let w = window_demand(m.pool32, idx, false) + window_demand(m.pool64, idx, true);
            &&& aligned_up(least_bytes(children, mem64), 0x10_0000) <= total(w, mem64, false)
            &&& total(w, mem64, true) <= aligned_up(
                ample_bytes(children, mem64),
                largest(children, mem64),
            )
            &&& top(w, mem64) == largest(children, mem64)
        }),
{
    let m = subtree_model(children);
    let w32 = window_demand(m.pool32, idx, false);
    let w64 = window_demand(m.pool64, idx, true);
    lemma_concat(w32, w64, mem64, false);
    lemma_concat(w32, w64, mem64, true);
    lemma_window_total(children, idx, mem64);
    lemma_window_total(children, idx, !mem64);
    let pool = m.pool(mem64);
    let (least, ample) = (least_bytes(children, mem64), ample_bytes(children, mem64));
    lemma_aligned_up_monotone(least, pool.mem, 0x10_0000);
    lemma_aligned_up_monotone(pool.mem, ample, pool.align);
    lemma_aligned_up(ample, pool.align);
}

/// Demands that add up to nothing have no alignment above the granularity.
proof fn lemma_nothing(demands: Seq<Demand>, mem64: bool)
    requires
        demands_valid(demands),
    ensures
        total(demands, mem64, false) >= 0,
        total(demands, mem64, false) == 0 ==> top(demands, mem64) == 0x10_0000,
    decreases demands.len(),
{
    if demands.len() > 0 {
        let init = demands.drop_last();
        assert forall|k: int| 0 <= k < init.len() implies (#[trigger] init[k]).valid() by {
            assert(init[k] == demands[k]);
        }
        lemma_nothing(init, mem64);
        assert(demands[demands.len() - 1].valid());
    }
}

/// A pool without pinned BARs needs what its BARs and windows add up to: at least
/// the bytes of its BARs, with those behind a bridge rounded up to the granularity of
/// windows, and at most those bytes with what is behind each bridge rounded up to
/// the largest BAR behind it. Its alignment is its largest BAR, or 1 MB.
pub proof fn law_pool_sized(devices: Seq<DiscoveredDevice>, mem64: bool)
    requires
        tree_ok(devices),
        windows_fit(devices),
        no_pins(devices),
        vfs_countable(devices),
        devices.len() <= usize::MAX,
    ensures
        least_bytes(devices, mem64) <= subtree_model(devices).pool(mem64).mem,
        subtree_model(devices).pool(mem64).mem <= ample_bytes(devices, mem64),
        subtree_model(devices).pool(mem64).align == largest(devices, mem64),
        subtree_model(devices).pool(mem64).base is None,
        largest(devices, mem64) >= 0x10_0000,
        subtree_model(devices).pool(mem64).mem <= 0 ==> largest(devices, mem64) == 0x10_0000,
        least_bytes(devices, mem64) >= 0,
    decreases devices, 1int,
{
    let m = subtree_model(devices);
    lemma_level_total(devices, mem64);
    lemma_level_demands(devices);
    lemma_sorted_valid(level_demands(devices));
    lemma_sorted_by_key(level_demands(devices));
    lemma_sorted_total(level_demands(devices), mem64, false);
    lemma_sorted_total(level_demands(devices), mem64, true);
    lemma_no_pins_level(devices, mem64);
    lemma_least(devices, mem64);
    lemma_nothing(m.demands, mem64);
    lemma_pool_model(m.demands, mem64);
    lemma_pool_pins(m.demands, mem64);
    lemma_origin_unpinned(m.demands, mem64);
    lemma_sizing_total(m.demands, mem64);
}

/// Whether no device of a list is a bridge.
pub open spec fn no_bridges(devices: Seq<DiscoveredDevice>) -> bool {
    forall|i: int| #![trigger devices[i]] 0 <= i < devices.len() ==> !devices[i].is_bridge
}

/// The bytes of the BARs and VF BARs of a list of devices, in one pool.
pub open spec fn all_bytes(devices: Seq<DiscoveredDevice>, mem64: bool) -> int
    decreases devices.len(),
{
    if devices.len() == 0 {
        0
    } else {
        all_bytes(devices.drop_last(), mem64) + own_bytes(devices.last(), mem64)
    }
}

proof fn lemma_flat(devices: Seq<DiscoveredDevice>, mem64: bool)
    requires
        no_bridges(devices),
    ensures
        least_bytes(devices, mem64) == all_bytes(devices, mem64),
        ample_bytes(devices, mem64) == all_bytes(devices, mem64),
    decreases devices.len(),
{
    if devices.len() > 0 {
        let init = devices.drop_last();
        assert forall|i: int| #![trigger init[i]] 0 <= i < init.len() implies !init[i].is_bridge by {
            assert(init[i] == devices[i]);
        }
        lemma_flat(init, mem64);
        assert(!devices[devices.len() - 1].is_bridge);
    }
}

/// On a bus without bridges and without pinned BARs a pool needs the bytes of its
/// BARs and VF BARs, and no more.
pub proof fn law_flat_sized(devices: Seq<DiscoveredDevice>, mem64: bool)
    requires
        tree_ok(devices),
        no_bridges(devices),
        no_pins(devices),
        vfs_countable(devices),
        devices.len() <= usize::MAX,
    ensures
        subtree_model(devices).pool(mem64).mem == all_bytes(devices, mem64),
        subtree_model(devices).pool(mem64).align == largest(devices, mem64),
{
    law_pool_sized(devices, mem64);
    lemma_flat(devices, mem64);
}

/// Whether some bytes fit an aperture from an address on that is a multiple of an
/// alignment and not below another address.
pub open spec fn bytes_fit(
    bytes: int,
    alignment: int,
    aperture: Option<MmioAperture>,
    from: int,
    at: int,
) -> bool {
    bytes > 0 ==> {
        &&& aperture is Some
        &&& aperture->0.base <= at
        &&& from <= at
        &&& at % alignment == 0
        &&& at + bytes <= aperture->0.base + aperture->0.len
    }
}

/// Without pinned BARs an assignment succeeds wherever the apertures have bytes
/// enough for the BARs and windows of each pool, from a multiple of the pool's
/// largest BAR on, those of the mem64 pool behind those of the mem32 pool where there
/// is no high aperture.
pub proof fn law_enough_bytes(
    devices: Seq<DiscoveredDevice>,
    params: AssignmentParams,
    at32: int,
    at64: int,
)
    requires
        tree_ok(devices),
        sizes_fit(devices),
        no_pins(devices),
        vfs_countable(devices),
        devices.len() <= usize::MAX,
        params_ok(params),
        bytes_fit(ample_bytes(devices, false), largest(devices, false), params.low_mmio, 0, at32),
        params.high_mmio is Some ==> bytes_fit(
            ample_bytes(devices, true),
            largest(devices, true),
            params.high_mmio,
            0,
            at64,
        ),
        params.high_mmio is None ==> bytes_fit(
            ample_bytes(devices, true),
            largest(devices, true),
            params.low_mmio,
            if ample_bytes(devices, false) > 0 {
                at32 + ample_bytes(devices, false)
            } else {
                0
            },
            at64,
        ),
    ensures
        assign_error(devices, params) is None,
{
    law_pool_sized(devices, false);
    law_pool_sized(devices, true);
    lemma_no_pins_level(devices, false);
    law_enough_room(devices, params, at32, at64);
}

/// Without pinned BARs an assignment fails for lack of room wherever the BARs of a
/// pool take more bytes than its aperture has.
pub proof fn law_too_few_bytes(
    devices: Seq<DiscoveredDevice>,
    params: AssignmentParams,
    mem64: bool,
)
    requires
        tree_ok(devices),
        sizes_fit(devices),
        no_pins(devices),
        vfs_countable(devices),
        devices.len() <= usize::MAX,
        params_ok(params),
        match if mem64 {
            aperture64(params)
        } else {
            params.low_mmio
        } {
            Some(a) => least_bytes(devices, mem64) > a.len,
            None => least_bytes(devices, mem64) > 0,
        },
    ensures
        assign_error(devices, params) is Some,
        assign_error(devices, params)->0 is MmioExhaustion,
{
    law_pool_sized(devices, false);
    law_pool_sized(devices, true);
    lemma_no_pins_level(devices, mem64);
    let m = subtree_model(devices);
    let at32 = aligned_up(params.low_mmio->0.base as int, m.pool32.align);
    let from = free64(m.pool32, params, at32);
    let at64 = aligned_up(from, m.pool64.align);
    lemma_first(m.pool32, params.low_mmio->0.base as int, at32);
    lemma_first(m.pool64, from, at64);
    law_lack_of_room(devices, params, at32, at64);
}

proof fn lemma_first(pool: PoolModel, from: int, at: int)
    requires
        pool.base is None,
        pool.align > 0,
        at == aligned_up(from, pool.align),
    ensures
        first_start(pool, from, at),
        from <= at,
{
    lemma_aligned_up(from, pool.align);
    assert forall|other: int| #[trigger] can_start(pool, from, other) implies at <= other by {
        lemma_aligned_up_least(from, pool.align, other);
    }
}

}
