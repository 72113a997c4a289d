//! Where assigned ranges lie: inside what they come from, and apart.
use crate::resource::demand::demands_valid;
use crate::resource::demand::lemma_valid_align;
use crate::resource::demand::Demand;
use crate::resource::device::tree_ok;
use crate::resource::device::DiscoveredDevice;
use crate::resource::fit::gaps_suit;
use crate::resource::fit::law_unpinned_level_fits;
use crate::resource::gaps::free_gaps;
use crate::resource::gaps::gaps_ordered;
use crate::resource::gaps::in_region;
use crate::resource::gaps::is_free;
use crate::resource::gaps::lemma_free_gaps;
use crate::resource::gaps::lemma_place;
use crate::resource::gaps::range_list;
use crate::resource::gaps::scan_cursor;
use crate::resource::placement::address_of;
use crate::resource::placement::gaps_after;
use crate::resource::sizing::is_dynamic;
use crate::resource::sizing::lemma_cursor;
use crate::resource::sizing::lemma_level_demands;
use crate::resource::sizing::lemma_pool_model;
use crate::resource::sizing::lemma_pool_pins;
use crate::resource::sizing::lemma_sorted_valid;
use crate::resource::sizing::level_demands;
use crate::resource::sizing::pool_model;
use crate::resource::sizing::pool_pins;
use crate::resource::sizing::subtree_model;
use crate::resource::sizing::windows_fit;
use vstd::prelude::*;

verus! {

/// Whether two ranges have no byte in common.
pub open spec fn apart(a: int, a_len: int, b: int, b_len: int) -> bool {
    a + a_len <= b || b + b_len <= a
}

/// Placing demands leaves ordered gaps, within those that there were.
proof fn lemma_gaps_after(gaps: Seq<(u64, u64)>, demands: Seq<Demand>, mem64: bool)
    requires
        gaps_ordered(gaps),
        demands_valid(demands),
    ensures
        gaps_ordered(gaps_after(gaps, demands, mem64)),
        forall|x: int| #[trigger] is_free(gaps_after(gaps, demands, mem64), x) ==> is_free(gaps, x),
    decreases demands.len(),
{
    if demands.len() > 0 {
        let init = demands.drop_last();
        let d = demands.last();
        assert(d == demands[demands.len() - 1]);
        lemma_gaps_after(gaps, init, mem64);
        if is_dynamic(d, mem64) {
            lemma_valid_align(d);
            lemma_place(gaps_after(gaps, init, mem64), d.bytes(), d.align());
        }
    }
}

/// A dynamic demand gets free bytes, and none of a dynamic demand before it.
proof fn lemma_dynamic(gaps: Seq<(u64, u64)>, demands: Seq<Demand>, mem64: bool, k: int)
    requires
        gaps_ordered(gaps),
        demands_valid(demands),
        0 <= k < demands.len(),
        is_dynamic(demands[k], mem64),
        address_of(gaps, demands, mem64, k) is Some,
    ensures
        forall|x: int|
            #![trigger is_free(gaps, x)]
            address_of(gaps, demands, mem64, k)->0 <= x < address_of(gaps, demands, mem64, k)->0
                + demands[k].bytes() ==> is_free(gaps, x),
        forall|n: int, x: int|
            #![trigger is_free(gaps_after(gaps, demands.take(n), mem64), x)]
            k < n <= demands.len() && is_free(gaps_after(gaps, demands.take(n), mem64), x) ==> !(
            address_of(gaps, demands, mem64, k)->0 <= x < address_of(gaps, demands, mem64, k)->0
                + demands[k].bytes()),
        forall|x: int|
            #![trigger is_free(gaps_after(gaps, demands.take(k), mem64), x)]
            address_of(gaps, demands, mem64, k)->0 <= x < address_of(gaps, demands, mem64, k)->0
                + demands[k].bytes() ==> is_free(gaps_after(gaps, demands.take(k), mem64), x),
{
    let pre = demands.take(k);
    let g = gaps_after(gaps, pre, mem64);
    let d = demands[k];
    let addr = address_of(gaps, demands, mem64, k)->0;
    assert(demands_valid(pre)) by {
        assert forall|i: int| 0 <= i < pre.len() implies (#[trigger] pre[i]).valid() by {
            assert(pre[i] == demands[i]);
        }
    }
    lemma_gaps_after(gaps, pre, mem64);
    lemma_valid_align(d);
    lemma_place(g, d.bytes(), d.align());
    assert forall|x: int|
        #![trigger is_free(gaps, x)]
        addr <= x < addr + d.bytes() implies is_free(gaps, x) by {
        assert(is_free(g, x));
    }
    assert forall|n: int, x: int|
        #![trigger is_free(gaps_after(gaps, demands.take(n), mem64), x)]
        k < n <= demands.len() && is_free(
            gaps_after(gaps, demands.take(n), mem64),
            x,
        ) implies !(addr <= x < addr + d.bytes()) by {
        lemma_taken_stays(gaps, demands, mem64, k, n, x);
    }
}

proof fn lemma_taken_stays(
    gaps: Seq<(u64, u64)>,
    demands: Seq<Demand>,
    mem64: bool,
    k: int,
    n: int,
    x: int,
)
    requires
        gaps_ordered(gaps),
        demands_valid(demands),
        0 <= k < n <= demands.len(),
        is_dynamic(demands[k], mem64),
        address_of(gaps, demands, mem64, k) is Some,
        is_free(gaps_after(gaps, demands.take(n), mem64), x),
    ensures
        !(address_of(gaps, demands, mem64, k)->0 <= x < address_of(gaps, demands, mem64, k)->0
            + demands[k].bytes()),
    decreases n,
{
    let m = n - 1;
    let pre = demands.take(m);
    let g = gaps_after(gaps, pre, mem64);
    assert(demands.take(n).drop_last() =~= pre);
    assert(demands.take(n).last() == demands[m]);
    assert(demands_valid(pre)) by {
        assert forall|i: int| 0 <= i < pre.len() implies (#[trigger] pre[i]).valid() by {
            assert(pre[i] == demands[i]);
        }
    }
    lemma_gaps_after(gaps, pre, mem64);
    if is_dynamic(demands[m], mem64) {
        assert(demands[m].valid());
        lemma_valid_align(demands[m]);
        lemma_place(g, demands[m].bytes(), demands[m].align());
    }
    assert(is_free(g, x));
    if m > k {
        lemma_taken_stays(gaps, demands, mem64, k, m, x);
    }
}

/// Of the demands of a level, each with a place:
/// each lies within the range that the level has, and two of which one is
/// dynamic lie apart.
pub proof fn lemma_level_geometry(
    devices: Seq<DiscoveredDevice>,
    mem64: bool,
    gaps: Seq<(u64, u64)>,
    lo: int,
    hi: int,
)
    requires
        tree_ok(devices),
        windows_fit(devices),
        devices.len() <= usize::MAX,
        gaps_suit(devices, mem64, gaps, lo, hi),
        forall|k: int|
            #![trigger subtree_model(devices).demands[k]]
            0 <= k < subtree_model(devices).demands.len() && subtree_model(
                devices,
            ).demands[k].mem64() == mem64 ==> address_of(
                gaps,
                subtree_model(devices).demands,
                mem64,
                k,
            ) is Some,
    ensures
        forall|k: int|
            #![trigger subtree_model(devices).demands[k]]
            0 <= k < subtree_model(devices).demands.len() && subtree_model(
                devices,
            ).demands[k].mem64() == mem64 ==> {
                let demands = subtree_model(devices).demands;
                let addr = address_of(gaps, demands, mem64, k)->0;
                let pool = subtree_model(devices).pool(mem64);
                let start = match pool.base {
                    Some(base) => base as int,
                    None => lo,
                };
                &&& lo <= start <= addr
                &&& addr + demands[k].bytes() <= start + pool.mem <= hi
            },
        forall|j: int, k: int|
            #![trigger subtree_model(devices).demands[j], subtree_model(devices).demands[k]]
            0 <= j < subtree_model(devices).demands.len() && 0 <= k < subtree_model(
                devices,
            ).demands.len() && j != k && subtree_model(devices).demands[j].mem64() == mem64
                && subtree_model(devices).demands[k].mem64() == mem64 && (subtree_model(
                devices,
            ).demands[j].fixed() is None || subtree_model(devices).demands[k].fixed() is None) ==> {
                let demands = subtree_model(devices).demands;
                apart(
                    address_of(gaps, demands, mem64, j)->0,
                    demands[j].bytes(),
                    address_of(gaps, demands, mem64, k)->0,
                    demands[k].bytes(),
                )
            },
{
    let m = subtree_model(devices);
    let demands = m.demands;
    let pool = m.pool(mem64);
    assert(pool == pool_model(demands, mem64));
    lemma_level_demands(devices);
    lemma_sorted_valid(level_demands(devices));
    lemma_pool_model(demands, mem64);
    let pins = pool_pins(demands, mem64);
    lemma_pool_pins(demands, mem64);
    let start = match pool.base {
        Some(base) => base as int,
        None => lo,
    };
    lemma_level_gaps(demands, mem64, gaps, lo, hi);
    assert forall|k: int|
        #![trigger demands[k]]
        0 <= k < demands.len() && demands[k].mem64() == mem64 implies {
        let addr = address_of(gaps, demands, mem64, k)->0;
        &&& lo <= start <= addr
        &&& addr + demands[k].bytes() <= start + pool.mem <= hi
    } by {
        let addr = address_of(gaps, demands, mem64, k)->0;
        assert(demands[k].valid());
        if demands[k].fixed() is Some {
            let r = demands[k].region();
            assert(pins.contains(r));
            let i = choose|i: int| 0 <= i < pins.len() && pins[i] == r;
            assert(pins[i].addr >= start);
            lemma_cursor(start, pins);
        } else {
            lemma_dynamic(gaps, demands, mem64, k);
            assert(is_free(gaps, addr));
            assert(is_free(gaps, addr + demands[k].bytes() - 1));
            if pool.base is None {
                law_unpinned_level_fits(demands, mem64, lo, hi);
            }
        }
    }
    assert forall|j: int, k: int|
        #![trigger demands[j], demands[k]]
        0 <= j < demands.len() && 0 <= k < demands.len() && j != k && demands[j].mem64() == mem64
            && demands[k].mem64() == mem64 && (demands[j].fixed() is None
            || demands[k].fixed() is None) implies apart(
        address_of(gaps, demands, mem64, j)->0,
        demands[j].bytes(),
        address_of(gaps, demands, mem64, k)->0,
        demands[k].bytes(),
    ) by {
        let (a, b) = if demands[j].fixed() is None && (demands[k].fixed() is Some || j < k) {
            (j, k)
        } else {
            (k, j)
        };
        lemma_pair(demands, mem64, gaps, lo, hi, a, b);
    }
}

/// What the gaps of a level hold: bytes within its range, and none of a
/// pinned demand.
proof fn lemma_level_gaps(
    demands: Seq<Demand>,
    mem64: bool,
    gaps: Seq<(u64, u64)>,
    lo: int,
    hi: int,
)
    requires
        demands_valid(demands),
        0 <= lo <= hi <= u64::MAX,
        match pool_model(demands, mem64).base {
            Some(base) => gaps == pool_model(demands, mem64).gaps && base + pool_model(
                demands,
                mem64,
            ).mem <= u64::MAX,
            None => gaps == seq![(lo as u64, hi as u64)],
        },
    ensures
        gaps_ordered(gaps),
        forall|x: int| #[trigger]
            is_free(gaps, x) ==> {
                &&& match pool_model(demands, mem64).base {
                    Some(base) => base <= x < base + pool_model(demands, mem64).mem,
                    None => lo <= x < hi,
                }
                &&& !in_region(pool_pins(demands, mem64), x)
            },
{
    let pool = pool_model(demands, mem64);
    let pins = pool_pins(demands, mem64);
    lemma_pool_pins(demands, mem64);
    lemma_pool_model(demands, mem64);
    match pool.base {
        Some(base) => {
            let cursor = scan_cursor(base as int, pins);
            lemma_cursor(base as int, pins);
            lemma_free_gaps(base as int, cursor, pins);
            let g0 = free_gaps(base as int, cursor, pins);
            let tail = range_list(cursor, base + pool.mem);
            assert(gaps == g0 + tail);
            assert forall|i: int| 0 <= i < g0.len() implies g0[i].1 <= cursor by {
                if g0[i].1 > cursor {
                    let x = if g0[i].0 < cursor {
                        cursor
                    } else {
                        g0[i].0 as int
                    };
                    if g0[i].0 < g0[i].1 {
                        assert(g0[i].0 <= x < g0[i].1);
                        assert(is_free(g0, x));
                    } else {
                        crate::resource::fit::lemma_free_gaps_nonempty(base as int, cursor, pins);
                    }
                }
            }
            assert(gaps_ordered(gaps)) by {
                assert forall|i: int| 0 <= i < gaps.len() implies (#[trigger] gaps[i]).0
                    <= gaps[i].1 by {
                    if i < g0.len() {
                        assert(gaps[i] == g0[i]);
                    }
                }
                assert forall|i: int, j: int|
                    #![trigger gaps[i], gaps[j]]
                    0 <= i < j < gaps.len() implies gaps[i].1 <= gaps[j].0 by {
                    assert(gaps[i] == g0[i]);
                    if j < g0.len() {
                        assert(gaps[j] == g0[j]);
                    }
                }
            }
            assert forall|x: int| #[trigger] is_free(gaps, x) implies base <= x < base + pool.mem
                && !in_region(pins, x) by {
                let i = choose|i: int| 0 <= i < gaps.len() && (#[trigger] gaps[i]).0 <= x
                    < gaps[i].1;
                if i < g0.len() {
                    assert(gaps[i] == g0[i]);
                    assert(is_free(g0, x));
                } else {
                    assert(cursor <= x < base + pool.mem);
                    if in_region(pins, x) {
                        let r = choose|r: int|
                            0 <= r < pins.len() && (#[trigger] pins[r]).addr <= x < pins[r].addr
                                + pins[r].size;
                        assert(pins[r].addr + pins[r].size <= cursor);
                    }
                }
            }
        },
        None => {
            assert(pins.len() == 0);
        },
    }
}

/// A dynamic demand lies apart from a pinned one and from a dynamic one behind
/// it.
proof fn lemma_pair(
    demands: Seq<Demand>,
    mem64: bool,
    gaps: Seq<(u64, u64)>,
    lo: int,
    hi: int,
    a: int,
    b: int,
)
    requires
        demands_valid(demands),
        0 <= lo <= hi <= u64::MAX,
        match pool_model(demands, mem64).base {
            Some(base) => gaps == pool_model(demands, mem64).gaps && base + pool_model(
                demands,
                mem64,
            ).mem <= u64::MAX,
            None => gaps == seq![(lo as u64, hi as u64)],
        },
        0 <= a < demands.len(),
        0 <= b < demands.len(),
        is_dynamic(demands[a], mem64),
        demands[b].mem64() == mem64,
        demands[b].fixed() is Some || a < b,
        address_of(gaps, demands, mem64, a) is Some,
        address_of(gaps, demands, mem64, b) is Some,
    ensures
        apart(
            address_of(gaps, demands, mem64, a)->0,
            demands[a].bytes(),
            address_of(gaps, demands, mem64, b)->0,
            demands[b].bytes(),
        ),
{
    let p = address_of(gaps, demands, mem64, a)->0;
    let q = address_of(gaps, demands, mem64, b)->0;
    let pl = demands[a].bytes();
    let ql = demands[b].bytes();
    assert(demands[a].valid() && demands[b].valid());
    lemma_level_gaps(demands, mem64, gaps, lo, hi);
    lemma_dynamic(gaps, demands, mem64, a);
    if !apart(p, pl, q, ql) {
        let x = if p < q {
            q
        } else {
            p
        };
        assert(p <= x < p + pl && q <= x < q + ql);
        assert(is_free(gaps, x));
        if demands[b].fixed() is Some {
            lemma_pool_pins(demands, mem64);
            let pins = pool_pins(demands, mem64);
            assert(pins.contains(demands[b].region()));
            let i = choose|i: int| 0 <= i < pins.len() && pins[i] == demands[b].region();
            assert(pins[i].addr <= x < pins[i].addr + pins[i].size);
            assert(in_region(pins, x));
        } else {
            lemma_dynamic(gaps, demands, mem64, b);
            assert(is_free(gaps_after(gaps, demands.take(b), mem64), x));
        }
    }
}

}
