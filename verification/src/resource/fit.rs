//! Sizing is enough: what it has counted finds a place.
use crate::resource::align::aligned_up;
use crate::resource::align::lemma_aligned_up;
use crate::resource::align::lemma_aligned_up_monotone;
use crate::resource::align::lemma_aligned_up_shift;
use crate::resource::align::lemma_multiple_trans;
use crate::resource::align::lemma_pow2_divides;
use crate::resource::align::lemma_window_align_pow2;
use crate::resource::demand::demands_valid;
use crate::resource::demand::lemma_valid_align;
use crate::resource::demand::BRIDGE_WINDOW_ALIGN;
use crate::resource::demand::Demand;
use crate::resource::device::tree_ok;
use crate::resource::device::DiscoveredDevice;
use crate::resource::gaps::allocate_from_gaps;
use crate::resource::gaps::carve;
use crate::resource::gaps::first_fit;
use crate::resource::gaps::gap_fits;
use crate::resource::gaps::is_first_fit;
use crate::resource::gaps::lemma_first_fit;
use crate::resource::gaps::lemma_some_fit;
use crate::resource::gaps::place;
use crate::resource::gaps::place_rest;
use crate::resource::gaps::range_list;
use crate::resource::levels::demand_of;
use crate::resource::levels::lemma_sorted_cover;
use crate::resource::placement::address_of;
use crate::resource::placement::gaps_after;
use crate::resource::placement::placeable;
use crate::resource::placement::settles;
use crate::resource::placement::window_gaps;
use crate::resource::sizing::copy_gaps;
use crate::resource::sizing::is_dynamic;
use crate::resource::sizing::lemma_level_demands;
use crate::resource::sizing::lemma_origin_unpinned;
use crate::resource::sizing::lemma_pool_model;
use crate::resource::sizing::lemma_pool_pins;
use crate::resource::sizing::lemma_sizing;
use crate::resource::sizing::lemma_sorted_valid;
use crate::resource::sizing::level_demands;
use crate::resource::sizing::pinned_gaps;
use crate::resource::sizing::pool_base;
use crate::resource::sizing::pool_model;
use crate::resource::sizing::pool_pins;
use crate::resource::sizing::sizing;
use crate::resource::sizing::sizing_origin;
use crate::resource::sizing::sizing_start;
use crate::resource::sizing::sizing_step;
use crate::resource::sizing::subtree_model;
use crate::resource::sizing::windows_fit;
use crate::resource::sizing::Sizing;
use vstd::prelude::*;

verus! {

/// Whether the gaps of a tail are behind `frontier` but for the last one,
/// which reaches to `end` as long as there is room.
pub open spec fn tail_ok(tail: Seq<(u64, u64)>, frontier: int, end: int) -> bool {
    &&& frontier < end ==> tail.len() > 0 && tail.last().1 == end && tail.last().0 <= frontier
    &&& forall|i: int|
        #![trigger tail[i]]
        0 <= i < tail.len() ==> tail[i].1 <= end && (tail[i].1 <= frontier || (i == tail.len() - 1
            && tail[i].0 <= frontier))
}

proof fn lemma_carve_front(a: Seq<(u64, u64)>, b: Seq<(u64, u64)>, size: int, align: int, i: int)
    requires
        0 <= i < a.len(),
    ensures
        carve(a + b, size, align, i) == carve(a, size, align, i) + b,
{
    assert((a + b).take(i) =~= a.take(i));
    assert((a + b).skip(i + 1) =~= a.skip(i + 1) + b);
    assert(carve(a + b, size, align, i) =~= carve(a, size, align, i) + b);
}

proof fn lemma_carve_back(a: Seq<(u64, u64)>, b: Seq<(u64, u64)>, size: int, align: int, i: int)
    requires
        0 <= i < b.len(),
    ensures
        carve(a + b, size, align, a.len() + i) == a + carve(b, size, align, i),
{
    let n = a.len() as int;
    assert((a + b)[n + i] == b[i]);
    assert((a + b).take(n + i) =~= a + b.take(i));
    assert((a + b).skip(n + i + 1) =~= b.skip(i + 1));
    assert(carve(a + b, size, align, n + i) =~= a + carve(b, size, align, i));
}

/// One dynamic demand: where sizing found a gap, placing finds the same one;
/// where sizing made the window larger, the tail has room.
proof fn lemma_fit_step(
    s: Sizing,
    tail: Seq<(u64, u64)>,
    base: int,
    end: int,
    d: Demand,
    mem64: bool,
)
    requires
        d.valid(),
        is_dynamic(d, mem64),
        s.mem >= 0,
        0 <= base,
        end <= u64::MAX,
        (base - s.origin) % d.align() == 0 || place(s.gaps, d.bytes(), d.align()) is Some,
        base + sizing_step(s, d, mem64).mem <= end,
        tail_ok(tail, base + s.mem, end),
        forall|i: int| #![trigger s.gaps[i]] 0 <= i < s.gaps.len() ==> s.gaps[i].1 <= base + s.mem,
    ensures
        place(s.gaps + tail, d.bytes(), d.align()) matches Some(addr) && addr + d.bytes() <= base
            + sizing_step(s, d, mem64).mem,
        exists|t: Seq<(u64, u64)>| #[trigger]
            tail_ok(t, base + sizing_step(s, d, mem64).mem, end) && place_rest(
                s.gaps + tail,
                d.bytes(),
                d.align(),
            ) == sizing_step(s, d, mem64).gaps + t,
        forall|i: int|
            #![trigger sizing_step(s, d, mem64).gaps[i]]
            0 <= i < sizing_step(s, d, mem64).gaps.len() ==> sizing_step(s, d, mem64).gaps[i].1
                <= base + sizing_step(s, d, mem64).mem,
{
    lemma_valid_align(d);
    let size = d.bytes();
    let align = d.align();
    let all = s.gaps + tail;
    let n = s.gaps.len() as int;
    let s1 = sizing_step(s, d, mem64);
    if let Some(i) = first_fit(s.gaps, size, align) {
        assert(is_first_fit(s.gaps, size, align, i));
        assert(is_first_fit(all, size, align, i)) by {
            assert forall|j: int| 0 <= j < i implies !gap_fits(#[trigger] all[j], size, align) by {
                assert(all[j] == s.gaps[j]);
            }
        }
        lemma_first_fit(all, size, align, i);
        lemma_carve_front(s.gaps, tail, size, align, i);
        assert(tail_ok(tail, base + s1.mem, end));
        lemma_aligned_up(s.gaps[i].0 as int, align);
        lemma_carve_bound(s.gaps, size, align, i, base + s.mem);
    } else {
        lemma_aligned_up(s.origin + s.mem, align);
        assert(s1.mem == aligned_up(s.origin + s.mem, align) - s.origin + size);
        assert(base + s.mem < end);
        let l = tail.len() - 1;
        let last = tail[l];
        lemma_aligned_up_shift(base - s.origin, s.origin + s.mem, align);
        lemma_aligned_up_monotone(last.0 as int, base + s.mem, align);
        assert(gap_fits(last, size, align));
        lemma_some_fit(tail, size, align, l);
        let j = first_fit(tail, size, align)->0;
        assert(is_first_fit(tail, size, align, j));
        assert(is_first_fit(all, size, align, n + j)) by {
            assert forall|x: int| 0 <= x < n + j implies !gap_fits(
                #[trigger] all[x],
                size,
                align,
            ) by {
                if x < n {
                    assert(all[x] == s.gaps[x]);
                    if gap_fits(s.gaps[x], size, align) {
                        lemma_some_fit(s.gaps, size, align, x);
                    }
                } else {
                    assert(all[x] == tail[x - n]);
                }
            }
        }
        lemma_first_fit(all, size, align, n + j);
        lemma_carve_back(s.gaps, tail, size, align, j);
        let t = carve(tail, size, align, j);
        let a = tail[j].0 as int;
        let e = tail[j].1 as int;
        let addr = aligned_up(a, align);
        lemma_aligned_up(a, align);
        let p1 = range_list(a, addr);
        let p2 = range_list(addr + size, e);
        assert(t.len() == tail.len() - 1 + p1.len() + p2.len());
        assert(addr + size <= base + s1.mem) by {
            if j == l {
                lemma_aligned_up_monotone(last.0 as int, base + s.mem, align);
            } else {
                assert(tail[j].1 <= base + s.mem);
            }
        }
        assert(tail_ok(t, base + s1.mem, end)) by {
            assert forall|x: int|
                #![trigger t[x]]
                0 <= x < t.len() implies t[x].1 <= end && (t[x].1 <= base + s1.mem || (x == t.len()
                - 1 && t[x].0 <= base + s1.mem)) by {
                if x < j {
                    assert(t[x] == tail[x]);
                } else if x < j + p1.len() {
                    assert(t[x] == (a as u64, addr as u64));
                } else if x < j + p1.len() + p2.len() {
                    assert(t[x] == ((addr + size) as u64, e as u64));
                } else {
                    assert(t[x] == tail[x - p1.len() - p2.len() + 1]);
                }
            }
            if base + s1.mem < end {
                if j == l {
                    assert(t[t.len() - 1] == ((addr + size) as u64, e as u64));
                } else {
                    assert(t[t.len() - 1] == tail[l]);
                }
            }
        }
        assert(s1.gaps == s.gaps);
    }
}

proof fn lemma_carve_bound(gaps: Seq<(u64, u64)>, size: int, align: int, i: int, bound: int)
    requires
        is_first_fit(gaps, size, align, i),
        align > 0,
        size >= 0,
        forall|j: int| #![trigger gaps[j]] 0 <= j < gaps.len() ==> gaps[j].1 <= bound,
    ensures
        forall|j: int|
            #![trigger carve(gaps, size, align, i)[j]]
            0 <= j < carve(gaps, size, align, i).len() ==> carve(gaps, size, align, i)[j].1
                <= bound,
{
    let t = carve(gaps, size, align, i);
    let a = gaps[i].0 as int;
    let e = gaps[i].1 as int;
    let addr = aligned_up(a, align);
    lemma_aligned_up(a, align);
    let p1 = range_list(a, addr);
    let p2 = range_list(addr + size, e);
    assert forall|x: int| #![trigger t[x]] 0 <= x < t.len() implies t[x].1 <= bound by {
        if x < i {
            assert(t[x] == gaps[x]);
        } else if x < i + p1.len() {
            assert(t[x] == (a as u64, addr as u64));
        } else if x < i + p1.len() + p2.len() {
            assert(t[x] == ((addr + size) as u64, e as u64));
        } else {
            assert(t[x] == gaps[x - p1.len() - p2.len() + 1]);
        }
    }
}

/// Whether a distance suits the dynamic demands of a pool: it is a multiple of the
/// alignment of each.
spec fn base_suits(demands: Seq<Demand>, mem64: bool, base: int) -> bool {
    forall|k: int|
        #![trigger demands[k]]
        0 <= k < demands.len() && is_dynamic(demands[k], mem64) ==> base % demands[k].align() == 0
}

proof fn lemma_fit_all(
    s: Sizing,
    tail: Seq<(u64, u64)>,
    base: int,
    end: int,
    demands: Seq<Demand>,
    mem64: bool,
)
    requires
        demands_valid(demands),
        crate::resource::align::is_pow2(s.align),
        s.mem >= 0,
        0 <= base,
        end <= u64::MAX,
        base_suits(demands, mem64, base - s.origin),
        base + sizing(s, demands, mem64).mem <= end,
        tail_ok(tail, base + s.mem, end),
        forall|i: int| #![trigger s.gaps[i]] 0 <= i < s.gaps.len() ==> s.gaps[i].1 <= base + s.mem,
    ensures
        exists|t: Seq<(u64, u64)>| #[trigger]
            tail_ok(t, base + sizing(s, demands, mem64).mem, end) && gaps_after(
                s.gaps + tail,
                demands,
                mem64,
            ) == sizing(s, demands, mem64).gaps + t,
        forall|i: int|
            #![trigger sizing(s, demands, mem64).gaps[i]]
            0 <= i < sizing(s, demands, mem64).gaps.len() ==> sizing(s, demands, mem64).gaps[i].1
                <= base + sizing(s, demands, mem64).mem,
        forall|k: int|
            #![trigger demands[k]]
            0 <= k < demands.len() && is_dynamic(demands[k], mem64) ==> {
                address_of(s.gaps + tail, demands, mem64, k) matches Some(addr) && addr
                    + demands[k].bytes() <= base + sizing(s, demands, mem64).mem
            },
    decreases demands.len(),
{
    if demands.len() == 0 {
        assert(tail_ok(tail, base + sizing(s, demands, mem64).mem, end));
    } else {
        let init = demands.drop_last();
        let d = demands.last();
        let n = demands.len() - 1;
        assert(demands[n] == d);
        lemma_sizing(s, init, mem64);
        lemma_sizing(s, demands, mem64);
        assert(demands.take(n) =~= init);
        assert(base_suits(init, mem64, base - s.origin)) by {
            assert forall|k: int|
                #![trigger init[k]]
                0 <= k < init.len() && is_dynamic(init[k], mem64) implies (base - s.origin)
                % init[k].align() == 0 by {
                assert(init[k] == demands[k]);
            }
        }
        assert(sizing(s, init, mem64).mem <= sizing(s, demands, mem64).mem);
        lemma_fit_all(s, tail, base, end, init, mem64);
        let s0 = sizing(s, init, mem64);
        let t0 = choose|t: Seq<(u64, u64)>| #[trigger]
            tail_ok(t, base + s0.mem, end) && gaps_after(s.gaps + tail, init, mem64) == s0.gaps + t;
        if is_dynamic(d, mem64) {
            lemma_fit_step(s0, t0, base, end, d, mem64);
        } else {
            assert(tail_ok(t0, base + sizing(s, demands, mem64).mem, end));
        }
        assert forall|k: int|
            #![trigger demands[k]]
            0 <= k < demands.len() && is_dynamic(demands[k], mem64) implies {
            address_of(s.gaps + tail, demands, mem64, k) matches Some(addr) && addr
                + demands[k].bytes() <= base + sizing(s, demands, mem64).mem
        } by {
            if k < n {
                assert(init[k] == demands[k]);
                assert(init.take(k) =~= demands.take(k));
            }
        }
    }
}

/// Sizing leaves enough room for a pool without pinned demands: from one gap that
/// starts at a multiple of the pool's alignment and holds as many bytes as sizing
/// has counted, every demand gets an address, within those bytes.
pub proof fn law_unpinned_level_fits(
    demands: Seq<Demand>,
    mem64: bool,
    base: int,
    end: int,
)
    requires
        demands_valid(demands),
        pool_model(demands, mem64).base is None,
        0 <= base <= end <= u64::MAX,
        base % pool_model(demands, mem64).align == 0,
        base + pool_model(demands, mem64).mem <= end,
        pool_model(demands, mem64).mem > 0,
    ensures
        forall|k: int|
            #![trigger demands[k]]
            0 <= k < demands.len() && demands[k].mem64() == mem64 ==> {
                &&& demands[k].fixed() is None
                &&& address_of(
                    seq![(base as u64, end as u64)],
                    demands,
                    mem64,
                    k,
                ) matches Some(addr) && addr + demands[k].bytes() <= base + pool_model(
                    demands,
                    mem64,
                ).mem
            },
{
    let pins = pool_pins(demands, mem64);
    let s = sizing_start(pins);
    let tail = seq![(base as u64, end as u64)];
    lemma_pool_pins(demands, mem64);
    lemma_pool_model(demands, mem64);
    lemma_window_align_pow2();
    lemma_sizing(s, demands, mem64);
    lemma_origin_unpinned(demands, mem64);
    assert(s.gaps + tail =~= tail);
    assert forall|k: int|
        #![trigger demands[k]]
        0 <= k < demands.len() && is_dynamic(demands[k], mem64) implies base % demands[k].align()
        == 0 by {
        lemma_valid_align(demands[k]);
        assert(demands[k].valid());
        lemma_pow2_divides(demands[k].align(), pool_model(demands, mem64).align);
        lemma_multiple_trans(base, pool_model(demands, mem64).align, demands[k].align());
    }
    lemma_fit_all(s, tail, base, end, demands, mem64);
    assert forall|k: int|
        #![trigger demands[k]]
        0 <= k < demands.len() && demands[k].mem64() == mem64 implies demands[k].fixed() is None by {
        if demands[k].fixed() is Some {
            assert(pins.contains(demands[k].region()));
        }
    }
}

/// Sizing leaves enough room for a pool with pinned demands: every demand gets an
/// address out of the gaps of the window, wherever the pinned ones are.
pub proof fn law_pinned_level_fits(demands: Seq<Demand>, mem64: bool)
    requires
        demands_valid(demands),
        pool_model(demands, mem64).base matches Some(base) && base + pool_model(
            demands,
            mem64,
        ).mem <= u64::MAX,
    ensures
        forall|k: int|
            #![trigger demands[k]]
            0 <= k < demands.len() && demands[k].mem64() == mem64 ==> address_of(
                pool_model(demands, mem64).gaps,
                demands,
                mem64,
                k,
            ) is Some,
{
    let pins = pool_pins(demands, mem64);
    let start = sizing_start(pins);
    let base = pool_base(pins)->0 as int;
    let m = pool_model(demands, mem64);
    lemma_pool_pins(demands, mem64);
    lemma_pool_model(demands, mem64);
    lemma_window_align_pow2();
    reveal(sizing_origin);
    if !settles(
        pinned_gaps(start, base, sizing(start, demands, mem64).mem),
        demands,
        mem64,
        0,
    ) {
        let s = Sizing { origin: base, ..start };
        let tail = range_list(base + s.mem, base + m.mem);
        crate::resource::sizing::lemma_cursor(base, pins);
        let cursor = crate::resource::gaps::scan_cursor(base, pins);
        assert forall|i: int| #![trigger s.gaps[i]] 0 <= i < s.gaps.len() implies s.gaps[i].1
            <= base + s.mem by {
            crate::resource::gaps::lemma_free_gaps(base, cursor, pins);
            let g = s.gaps[i];
            if g.1 > cursor {
                let x = if g.0 < cursor {
                    cursor
                } else {
                    g.0 as int
                };
                if g.0 < g.1 {
                    assert(s.gaps[i].0 <= x < s.gaps[i].1);
                    assert(crate::resource::gaps::is_free(s.gaps, x));
                } else {
                    lemma_free_gaps_nonempty(base, cursor, pins);
                }
            }
        }
        assert(base_suits(demands, mem64, base - s.origin)) by {
            assert forall|k: int|
                #![trigger demands[k]]
                0 <= k < demands.len() && is_dynamic(demands[k], mem64) implies (base - s.origin)
                % demands[k].align() == 0 by {
                assert(demands[k].valid());
                lemma_valid_align(demands[k]);
                vstd::arithmetic::div_mod::lemma_small_mod(0, demands[k].align() as nat);
            }
        }
        assert(tail_ok(tail, base + s.mem, base + m.mem));
        lemma_fit_all(s, tail, base, base + m.mem, demands, mem64);
    }
}

pub proof fn lemma_free_gaps_nonempty(
    base: int,
    limit: int,
    regions: Seq<crate::resource::gaps::Region>,
)
    requires
        0 <= base,
        limit <= u64::MAX,
        crate::resource::gaps::regions_fit(regions),
    ensures
        forall|i: int|
            #![trigger crate::resource::gaps::free_gaps(base, limit, regions)[i]]
            0 <= i < crate::resource::gaps::free_gaps(base, limit, regions).len()
                ==> crate::resource::gaps::free_gaps(base, limit, regions)[i].0
                < crate::resource::gaps::free_gaps(base, limit, regions)[i].1,
{
    lemma_scan_nonempty(base, regions);
    crate::resource::sizing::lemma_cursor(base, regions);
}

proof fn lemma_scan_nonempty(base: int, regions: Seq<crate::resource::gaps::Region>)
    requires
        0 <= base,
    ensures
        forall|i: int|
            #![trigger crate::resource::gaps::scan_gaps(base, regions)[i]]
            0 <= i < crate::resource::gaps::scan_gaps(base, regions).len()
                ==> crate::resource::gaps::scan_gaps(base, regions)[i].0
                < crate::resource::gaps::scan_gaps(base, regions)[i].1,
    decreases regions.len(),
{
    if regions.len() > 0 {
        lemma_scan_nonempty(base, regions.drop_last());
        crate::resource::sizing::lemma_cursor(base, regions.drop_last());
        let g0 = crate::resource::gaps::scan_gaps(base, regions.drop_last());
        let g1 = crate::resource::gaps::scan_gaps(base, regions);
        assert forall|i: int| #![trigger g1[i]] 0 <= i < g1.len() implies g1[i].0 < g1[i].1 by {
            if i < g0.len() {
                assert(g1[i] == g0[i]);
            }
        }
    }
}

/// What a window takes of a demand with a fixed address or a multiple of the
/// alignment.
pub proof fn lemma_address(gaps: Seq<(u64, u64)>, demands: Seq<Demand>, mem64: bool, k: int)
    requires
        0 <= k < demands.len(),
        demands[k].valid(),
        address_of(gaps, demands, mem64, k) is Some,
    ensures
        0 <= address_of(gaps, demands, mem64, k)->0,
        address_of(gaps, demands, mem64, k)->0 + demands[k].bytes() <= u64::MAX,
        demands[k].fixed() is None ==> address_of(gaps, demands, mem64, k)->0 % demands[k].align()
            == 0,
{
    if demands[k].fixed() is None {
        lemma_valid_align(demands[k]);
        let g = gaps_after(gaps, demands.take(k), mem64);
        let i = first_fit(g, demands[k].bytes(), demands[k].align())->0;
        assert(is_first_fit(g, demands[k].bytes(), demands[k].align(), i));
        lemma_aligned_up(g[i].0 as int, demands[k].align());
    }
}

/// Returns whether all of a pool's demands get an address out of the gaps, none of
/// them below a floor.
pub(crate) fn level_settles(
    gaps: &Vec<(u64, u64)>,
    demands: &Vec<Demand>,
    mem64: bool,
    floor: u64,
) -> (r: bool)
    requires
        demands_valid(demands@),
    ensures
        r == settles(gaps@, demands@, mem64, floor as int),
{
    let mut left: Vec<(u64, u64)> = copy_gaps(gaps);
    let mut k: usize = 0;
    assert(demands@.take(0) =~= Seq::<Demand>::empty());
    while k < demands.len()
        invariant
            k <= demands.len(),
            demands_valid(demands@),
            left@ == gaps_after(gaps@, demands@.take(k as int), mem64),
            forall|j: int|
                #![trigger demands@[j]]
                0 <= j < k && demands@[j].mem64() == mem64 ==> {
                    &&& address_of(gaps@, demands@, mem64, j) is Some
                    &&& address_of(gaps@, demands@, mem64, j)->0 >= floor
                },
        decreases demands.len() - k,
    {
        let d: Demand = demands[k];
        assert(demands@.take(k + 1).drop_last() =~= demands@.take(k as int));
        assert(demands@.take(k + 1).last() == d);
        assert(d.valid());
        if d.is_mem64() == mem64 {
            let at: Option<u64> = match d.fixed_position() {
                Some((addr, _)) => Some(addr),
                None => {
                    proof {
                        lemma_valid_align(d);
                    }
                    allocate_from_gaps(&mut left, d.size(), d.alignment())
                },
            };
            proof {
                if address_of(gaps@, demands@, mem64, k as int) is Some {
                    lemma_address(gaps@, demands@, mem64, k as int);
                }
            }
            match at {
                Some(addr) => {
                    if addr < floor {
                        return false;
                    }
                },
                None => {
                    return false;
                },
            }
        }
        k = k + 1;
    }
    true
}

/// The gaps that a level is placed into: those that sizing has left for a pool
/// with pinned demands, or else one that is large enough.
pub open spec fn gaps_suit(
    devices: Seq<DiscoveredDevice>,
    mem64: bool,
    gaps: Seq<(u64, u64)>,
    lo: int,
    hi: int,
) -> bool {
    let pool = subtree_model(devices).pool(mem64);
    &&& 0 <= lo <= hi <= u64::MAX
    &&& pool.mem > 0
    &&& match pool.base {
        Some(base) => gaps == pool.gaps && lo <= base && base + pool.mem <= hi,
        None => gaps == seq![(lo as u64, hi as u64)] && lo % pool.align == 0 && lo + pool.mem
            <= hi,
    }
}

/// The window that a bridge gets suits its children.
pub proof fn lemma_child_suits(
    devices: Seq<DiscoveredDevice>,
    mem64: bool,
    gaps: Seq<(u64, u64)>,
    k: int,
)
    requires
        tree_ok(devices),
        windows_fit(devices),
        devices.len() <= usize::MAX,
        0 <= k < subtree_model(devices).demands.len(),
        subtree_model(devices).demands[k] is BridgeSubtree,
        subtree_model(devices).demands[k].mem64() == mem64,
        address_of(gaps, subtree_model(devices).demands, mem64, k) is Some,
    ensures
        ({
            let d = subtree_model(devices).demands[k];
            let kids = devices[d.owner()].children@;
            let addr = address_of(gaps, subtree_model(devices).demands, mem64, k)->0;
            &&& 0 <= d.owner() < devices.len()
            &&& devices[d.owner()].is_bridge
            &&& d.bytes() > 0
            &&& 0 <= addr
            &&& addr + d.bytes() <= u64::MAX
            &&& addr % (BRIDGE_WINDOW_ALIGN as int) == 0
            &&& d.bytes() % (BRIDGE_WINDOW_ALIGN as int) == 0
            &&& tree_ok(kids)
            &&& windows_fit(kids)
            &&& kids.len() <= usize::MAX
            &&& gaps_suit(
                kids,
                mem64,
                window_gaps(subtree_model(kids), mem64, addr, d.bytes()),
                addr,
                addr + d.bytes(),
            )
        }),
{
    let demands = subtree_model(devices).demands;
    let d = demands[k];
    lemma_sorted_cover(devices);
    lemma_level_demands(devices);
    lemma_sorted_valid(level_demands(devices));
    assert(demand_of(devices, d));
    assert(d.valid());
    let o = d.owner();
    let kids = devices[o].children@;
    let m = subtree_model(kids);
    let pool = m.pool(mem64);
    let addr = address_of(gaps, demands, mem64, k)->0;
    lemma_address(gaps, demands, mem64, k);
    assert(devices[o].is_bridge);
    assert(tree_ok(kids) && windows_fit(kids));
    assert(devices[o].children.len() <= usize::MAX);
    lemma_level_demands(kids);
    lemma_sorted_valid(level_demands(kids));
    lemma_pool_model(m.demands, mem64);
    lemma_pool_pins(m.demands, mem64);
    lemma_aligned_up(pool.mem, BRIDGE_WINDOW_ALIGN as int);
    assert(d.bytes() == aligned_up(pool.mem, BRIDGE_WINDOW_ALIGN as int));
    if pool.base is None {
        lemma_window_align_pow2();
        lemma_pow2_divides(BRIDGE_WINDOW_ALIGN as int, pool.align);
        lemma_multiple_trans(addr, pool.align, BRIDGE_WINDOW_ALIGN as int);
    }
}

/// Sizing is enough: every demand finds a place in gaps that suit.
pub proof fn lemma_placeable(
    devices: Seq<DiscoveredDevice>,
    mem64: bool,
    gaps: Seq<(u64, u64)>,
    lo: int,
    hi: int,
)
    requires
        tree_ok(devices),
        windows_fit(devices),
        devices.len() <= usize::MAX,
        gaps_suit(devices, mem64, gaps, lo, hi),
    ensures
        placeable(devices, mem64, gaps),
    decreases devices,
{
    let m = subtree_model(devices);
    let demands = m.demands;
    lemma_level_demands(devices);
    lemma_sorted_valid(level_demands(devices));
    assert(m.pool(mem64) == pool_model(demands, mem64));
    if m.pool(mem64).base is None {
        law_unpinned_level_fits(demands, mem64, lo, hi);
    } else {
        law_pinned_level_fits(demands, mem64);
    }
    assert forall|k: int|
        #![trigger demands[k]]
        0 <= k < demands.len() && demands[k].mem64() == mem64 implies {
        &&& address_of(gaps, demands, mem64, k) is Some
        &&& demands[k] is BridgeSubtree && 0 <= demands[k].owner() < devices.len() ==> placeable(
            devices[demands[k].owner()].children@,
            mem64,
            window_gaps(
                subtree_model(devices[demands[k].owner()].children@),
                mem64,
                address_of(gaps, demands, mem64, k)->0,
                demands[k].bytes(),
            ),
        )
    } by {
        assert(address_of(gaps, demands, mem64, k) is Some);
        if demands[k] is BridgeSubtree {
            let o = demands[k].owner();
            let addr = address_of(gaps, demands, mem64, k)->0;
            lemma_child_suits(devices, mem64, gaps, k);
            assert(decreases_to!(devices => devices[o].children@));
            lemma_placeable(
                devices[o].children@,
                mem64,
                window_gaps(
                    subtree_model(devices[o].children@),
                    mem64,
                    addr,
                    demands[k].bytes(),
                ),
                addr,
                addr + demands[k].bytes(),
            );
        }
    }
}

}
