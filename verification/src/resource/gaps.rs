//! First-fit allocation from a list of free address ranges.
//!
//! A gap is a half-open range `(start, end)`.
use crate::resource::align::aligned_up;
use crate::resource::align::lemma_aligned_up;
use crate::resource::sort::SortKey;
use vstd::prelude::*;

verus! {

/// A range of addresses that is taken.
#[derive(Debug, Clone, Copy)]
pub struct Region {
    /// First address.
    pub addr: u64,
    /// Number of bytes.
    pub size: u64,
}

/// Regions are ordered by address.
impl SortKey for Region {
    open spec fn key(&self) -> int {
        self.addr as int
    }

    fn sort_key(&self) -> (k: u64) {
        self.addr
    }
}

/// Whether `size` bytes at the given alignment fit into the gap.
pub open spec fn gap_fits(gap: (u64, u64), size: int, alignment: int) -> bool {
    aligned_up(gap.0 as int, alignment) + size <= gap.1
}

/// Whether gap `i` is the first one that the request fits into.
pub open spec fn is_first_fit(gaps: Seq<(u64, u64)>, size: int, alignment: int, i: int) -> bool {
    &&& 0 <= i < gaps.len()
    &&& gap_fits(gaps[i], size, alignment)
    &&& forall|j: int| 0 <= j < i ==> !gap_fits(#[trigger] gaps[j], size, alignment)
}

/// The index of the first gap that the request fits into, if there is one.
pub open spec fn first_fit(gaps: Seq<(u64, u64)>, size: int, alignment: int) -> Option<int> {
    if exists|i: int| is_first_fit(gaps, size, alignment, i) {
        Some(choose|i: int| is_first_fit(gaps, size, alignment, i))
    } else {
        None
    }
}

/// The range from `start` to `end` as a list: empty unless it holds a byte.
pub open spec fn range_list(start: int, end: int) -> Seq<(u64, u64)> {
    if start < end {
        seq![(start as u64, end as u64)]
    } else {
        Seq::empty()
    }
}

/// The address that a request gets from gap `i`.
pub open spec fn fit_address(gaps: Seq<(u64, u64)>, alignment: int, i: int) -> int {
    aligned_up(gaps[i].0 as int, alignment)
}

/// The gaps that are left when the request is taken out of gap `i`.
pub open spec fn carve(gaps: Seq<(u64, u64)>, size: int, alignment: int, i: int) -> Seq<
    (u64, u64),
> {
    let addr = fit_address(gaps, alignment, i);
    gaps.take(i) + range_list(gaps[i].0 as int, addr) + range_list(addr + size, gaps[i].1 as int)
        + gaps.skip(i + 1)
}

/// Where a request is placed: the lowest aligned address of the first gap
/// that it fits into.
pub open spec fn place(gaps: Seq<(u64, u64)>, size: int, alignment: int) -> Option<int> {
    match first_fit(gaps, size, alignment) {
        Some(i) => Some(fit_address(gaps, alignment, i)),
        None => None,
    }
}

/// The gaps that are left after a request, which leaves them alone where it
/// fits nowhere.
pub open spec fn place_rest(gaps: Seq<(u64, u64)>, size: int, alignment: int) -> Seq<(u64, u64)> {
    match first_fit(gaps, size, alignment) {
        Some(i) => carve(gaps, size, alignment, i),
        None => gaps,
    }
}

/// Only one gap is the first that fits.
pub proof fn lemma_first_fit(gaps: Seq<(u64, u64)>, size: int, alignment: int, i: int)
    requires
        is_first_fit(gaps, size, alignment, i),
    ensures
        first_fit(gaps, size, alignment) == Some(i),
{
    let k = choose|k: int| is_first_fit(gaps, size, alignment, k);
    assert(is_first_fit(gaps, size, alignment, k));
    if k < i {
        assert(!gap_fits(gaps[k], size, alignment));
    }
    if i < k {
        assert(!gap_fits(gaps[i], size, alignment));
    }
}

/// Where some gap fits, one of them is the first.
pub proof fn lemma_some_fit(gaps: Seq<(u64, u64)>, size: int, alignment: int, i: int)
    requires
        0 <= i < gaps.len(),
        gap_fits(gaps[i], size, alignment),
    ensures
        first_fit(gaps, size, alignment) matches Some(k) && k <= i && is_first_fit(
            gaps,
            size,
            alignment,
            k,
        ),
    decreases i,
{
    if exists|j: int| 0 <= j < i && gap_fits(#[trigger] gaps[j], size, alignment) {
        let j = choose|j: int| 0 <= j < i && gap_fits(#[trigger] gaps[j], size, alignment);
        lemma_some_fit(gaps, size, alignment, j);
    } else {
        assert(is_first_fit(gaps, size, alignment, i));
        lemma_first_fit(gaps, size, alignment, i);
    }
}

fn fits_in_gap(start: u64, end: u64, size: u64, alignment: u64) -> (r: bool)
    requires
        alignment > 0,
    ensures
        r == gap_fits((start, end), size as int, alignment as int),
{
    proof {
        lemma_aligned_up(start as int, alignment as int);
    }
    if start > end {
        return false;
    }
    let rem: u64 = start % alignment;
    let pad: u64 = if rem == 0 {
        0
    } else {
        alignment - rem
    };
    let room: u64 = end - start;
    pad <= room && size <= room - pad
}

/// Allocates `size` bytes at the given alignment from the first gap that
/// fits, and takes them out of the list. Returns the address, or `None` where
/// no gap is large enough.
pub fn allocate_from_gaps(gaps: &mut Vec<(u64, u64)>, size: u64, alignment: u64) -> (r: Option<u64>)
    requires
        alignment > 0,
    ensures
        match place(old(gaps)@, size as int, alignment as int) {
            Some(addr) => r == Some(addr as u64) && addr <= u64::MAX,
            None => r is None,
        },
        final(gaps)@ == place_rest(old(gaps)@, size as int, alignment as int),
{
    let mut idx: usize = 0;
    while idx < gaps.len()
        invariant
            idx <= gaps.len(),
            gaps@ == old(gaps)@,
            alignment > 0,
            forall|j: int|
                0 <= j < idx ==> !gap_fits(#[trigger] gaps@[j], size as int, alignment as int),
        decreases gaps.len() - idx,
    {
        let start: u64 = gaps[idx].0;
        let end: u64 = gaps[idx].1;
        if fits_in_gap(start, end, size, alignment) {
            proof {
                assert(is_first_fit(gaps@, size as int, alignment as int, idx as int));
                lemma_first_fit(gaps@, size as int, alignment as int, idx as int);
                lemma_aligned_up(start as int, alignment as int);
            }
            let addr: u64 = crate::resource::align::align_up(start, alignment);
            let alloc_end: u64 = addr + size;
            gaps.remove(idx);
            let mut insert_at: usize = idx;
            if start < addr {
                gaps.insert(insert_at, (start, addr));
                insert_at = insert_at + 1;
            }
            if alloc_end < end {
                gaps.insert(insert_at, (alloc_end, end));
            }
            proof {
                assert(gaps@ =~= carve(old(gaps)@, size as int, alignment as int, idx as int));
            }
            return Some(addr);
        }
        idx = idx + 1;
    }
    proof {
        if first_fit(gaps@, size as int, alignment as int) is Some {
            let k = first_fit(gaps@, size as int, alignment as int)->0;
            assert(is_first_fit(gaps@, size as int, alignment as int, k));
        }
    }
    None
}

/// Whether the gaps are ordered, do not overlap and are not reversed.
pub open spec fn gaps_ordered(gaps: Seq<(u64, u64)>) -> bool {
    &&& forall|i: int| 0 <= i < gaps.len() ==> (#[trigger] gaps[i]).0 <= gaps[i].1
    &&& forall|i: int, j: int|
        #![trigger gaps[i], gaps[j]]
        0 <= i < j < gaps.len() ==> gaps[i].1 <= gaps[j].0
}

/// Whether the byte at `x` is free.
pub open spec fn is_free(gaps: Seq<(u64, u64)>, x: int) -> bool {
    exists|i: int| 0 <= i < gaps.len() && (#[trigger] gaps[i]).0 <= x < gaps[i].1
}

/// A request gets an aligned range of free bytes; afterwards those bytes, and
/// no others, have stopped being free.
pub proof fn lemma_place(gaps: Seq<(u64, u64)>, size: int, alignment: int)
    requires
        gaps_ordered(gaps),
        size >= 0,
        alignment > 0,
    ensures
        gaps_ordered(place_rest(gaps, size, alignment)),
        match place(gaps, size, alignment) {
            Some(addr) => {
                &&& 0 <= addr
                &&& addr + size <= u64::MAX
                &&& addr % alignment == 0
                &&& forall|x: int| addr <= x < addr + size ==> #[trigger] is_free(gaps, x)
                &&& forall|x: int|
                    #[trigger] is_free(place_rest(gaps, size, alignment), x) <==> is_free(gaps, x)
                        && !(addr <= x < addr + size)
            },
            None => place_rest(gaps, size, alignment) == gaps,
        },
{
    if let Some(i) = first_fit(gaps, size, alignment) {
        assert(is_first_fit(gaps, size, alignment, i));
        let s = gaps[i].0 as int;
        let e = gaps[i].1 as int;
        lemma_aligned_up(s, alignment);
        let addr = aligned_up(s, alignment);
        let rest = carve(gaps, size, alignment, i);
        let p1 = range_list(s, addr);
        let p2 = range_list(addr + size, e);
        let n1 = p1.len() as int;
        let n2 = p2.len() as int;
        assert(rest.len() == gaps.len() - 1 + n1 + n2);
        assert forall|j: int| 0 <= j < i implies rest[j] == gaps[j] by {}
        if n1 == 1 {
            assert(rest[i] == (s as u64, addr as u64));
        }
        if n2 == 1 {
            assert(rest[i + n1] == ((addr + size) as u64, e as u64));
        }
        assert forall|j: int| i < j < gaps.len() implies rest[j - 1 + n1 + n2] == gaps[j] by {}
        assert forall|j: int| i + n1 + n2 <= j < rest.len() implies rest[j] == gaps[j + 1 - n1
            - n2] by {}
        assert(gaps_ordered(rest));
        assert forall|x: int| addr <= x < addr + size implies #[trigger] is_free(gaps, x) by {
            assert(gaps[i].0 <= x < gaps[i].1);
        }
        assert forall|x: int| #[trigger]
            is_free(rest, x) <==> is_free(gaps, x) && !(addr <= x < addr + size) by {
            if is_free(rest, x) {
                let j = choose|j: int| 0 <= j < rest.len() && (#[trigger] rest[j]).0 <= x < rest[j].1;
                if j < i {
                    assert(gaps[j].0 <= x < gaps[j].1);
                    assert(gaps[j].1 <= gaps[i].0);
                } else if j < i + n1 + n2 {
                    assert(gaps[i].0 <= x < gaps[i].1);
                } else {
                    let k = j + 1 - n1 - n2;
                    assert(gaps[k].0 <= x < gaps[k].1);
                    assert(gaps[i].1 <= gaps[k].0);
                }
            }
            if is_free(gaps, x) && !(addr <= x < addr + size) {
                let j = choose|j: int| 0 <= j < gaps.len() && (#[trigger] gaps[j]).0 <= x < gaps[j].1;
                if j < i {
                    assert(rest[j].0 <= x < rest[j].1);
                } else if j == i {
                    if x < addr {
                        assert(rest[i].0 <= x < rest[i].1);
                    } else {
                        assert(rest[i + n1].0 <= x < rest[i + n1].1);
                    }
                } else {
                    assert(rest[j - 1 + n1 + n2].0 <= x < rest[j - 1 + n1 + n2].1);
                }
            }
        }
    }
}

/// How far the scan over `regions` has come, from `base` on.
pub open spec fn scan_cursor(base: int, regions: Seq<Region>) -> int
    decreases regions.len(),
{
    if regions.len() == 0 {
        base
    } else {
        let cursor = scan_cursor(base, regions.drop_last());
        let end = regions.last().addr + regions.last().size;
        if cursor < end {
            end
        } else {
            cursor
        }
    }
}

/// The free ranges before the end of the last region, from `base` on.
pub open spec fn scan_gaps(base: int, regions: Seq<Region>) -> Seq<(u64, u64)>
    decreases regions.len(),
{
    if regions.len() == 0 {
        Seq::empty()
    } else {
        scan_gaps(base, regions.drop_last()) + range_list(
            scan_cursor(base, regions.drop_last()),
            regions.last().addr as int,
        )
    }
}

/// The free ranges between `base` and `limit` that the regions, given
/// by increasing address, leave.
pub open spec fn free_gaps(base: int, limit: int, regions: Seq<Region>) -> Seq<(u64, u64)> {
    scan_gaps(base, regions) + range_list(scan_cursor(base, regions), limit)
}

/// Whether each region ends within the address space.
pub open spec fn regions_fit(regions: Seq<Region>) -> bool {
    forall|i: int| 0 <= i < regions.len() ==> (#[trigger] regions[i]).addr + regions[i].size <= u64::MAX
}

/// Builds the list of free gaps within `[base, limit)` that the given regions
/// leave. The regions are given by increasing address.
pub fn build_gap_list(base: u64, limit: u64, fixed_regions: &Vec<Region>) -> (gaps: Vec<
    (u64, u64),
>)
    requires
        regions_fit(fixed_regions@),
    ensures
        gaps@ == free_gaps(base as int, limit as int, fixed_regions@),
{
    let mut gaps: Vec<(u64, u64)> = Vec::new();
    let mut cursor: u64 = base;
    let mut i: usize = 0;
    while i < fixed_regions.len()
        invariant
            i <= fixed_regions.len(),
            regions_fit(fixed_regions@),
            cursor == scan_cursor(base as int, fixed_regions@.take(i as int)),
            gaps@ == scan_gaps(base as int, fixed_regions@.take(i as int)),
        decreases fixed_regions.len() - i,
    {
        let addr: u64 = fixed_regions[i].addr;
        let size: u64 = fixed_regions[i].size;
        assert(fixed_regions@.take(i + 1).drop_last() =~= fixed_regions@.take(i as int));
        assert(fixed_regions@.take(i + 1).last() == fixed_regions@[i as int]);
        if cursor < addr {
            gaps.push((cursor, addr));
        }
        let end: u64 = addr + size;
        if cursor < end {
            cursor = end;
        }
        i = i + 1;
    }
    assert(fixed_regions@.take(i as int) =~= fixed_regions@);
    if cursor < limit {
        gaps.push((cursor, limit));
    }
    gaps
}

/// Whether the byte at `x` lies in one of the regions.
pub open spec fn in_region(regions: Seq<Region>, x: int) -> bool {
    exists|i: int|
        0 <= i < regions.len() && (#[trigger] regions[i]).addr <= x < regions[i].addr + regions[i].size
}

proof fn lemma_scan(base: int, regions: Seq<Region>)
    requires
        0 <= base <= u64::MAX,
        regions_fit(regions),
        forall|i: int, j: int|
            #![trigger regions[i], regions[j]]
            0 <= i < j < regions.len() ==> regions[i].addr <= regions[j].addr,
        forall|i: int| 0 <= i < regions.len() ==> base <= (#[trigger] regions[i]).addr,
    ensures
        base <= scan_cursor(base, regions) <= u64::MAX,
        forall|i: int|
            0 <= i < regions.len() ==> (#[trigger] regions[i]).addr + regions[i].size <= scan_cursor(
                base,
                regions,
            ),
        scan_cursor(base, regions) == base || exists|i: int|
            0 <= i < regions.len() && (#[trigger] regions[i]).addr + regions[i].size == scan_cursor(
                base,
                regions,
            ),
        gaps_ordered(scan_gaps(base, regions)),
        forall|i: int|
            0 <= i < scan_gaps(base, regions).len() ==> (#[trigger] scan_gaps(base, regions)[i]).1
                <= scan_cursor(base, regions),
        forall|x: int| #[trigger]
            is_free(scan_gaps(base, regions), x) <==> base <= x < scan_cursor(base, regions)
                && !in_region(regions, x),
    decreases regions.len(),
{
    if regions.len() > 0 {
        let init = regions.drop_last();
        let last = regions.last();
        lemma_scan(base, init);
        let c0 = scan_cursor(base, init);
        let c1 = scan_cursor(base, regions);
        let g0 = scan_gaps(base, init);
        let g1 = scan_gaps(base, regions);
        let extra = range_list(c0, last.addr as int);
        assert forall|i: int| 0 <= i < regions.len() implies (#[trigger] regions[i]).addr
            + regions[i].size <= c1 by {
            if i < init.len() {
                assert(init[i] == regions[i]);
            }
        }
        if c1 != base {
            if c1 == c0 {
                let i = choose|i: int|
                    0 <= i < init.len() && (#[trigger] init[i]).addr + init[i].size == c0;
                assert(regions[i].addr + regions[i].size == c1);
            } else {
                assert(regions[regions.len() - 1].addr + regions[regions.len() - 1].size == c1);
            }
        }
        assert forall|i: int| 0 <= i < g0.len() implies g1[i] == g0[i] by {}
        assert forall|x: int| #[trigger]
            is_free(g1, x) <==> base <= x < c1 && !in_region(regions, x) by {
            if in_region(init, x) {
                let i = choose|i: int|
                    0 <= i < init.len() && (#[trigger] init[i]).addr <= x < init[i].addr + init[i].size;
                assert(regions[i].addr <= x < regions[i].addr + regions[i].size);
            }
            if in_region(regions, x) {
                let i = choose|i: int|
                    0 <= i < regions.len() && (#[trigger] regions[i]).addr <= x < regions[i].addr
                        + regions[i].size;
                if i < init.len() {
                    assert(init[i].addr <= x < init[i].addr + init[i].size);
                }
            }
            if is_free(g1, x) {
                let j = choose|j: int| 0 <= j < g1.len() && (#[trigger] g1[j]).0 <= x < g1[j].1;
                if j < g0.len() {
                    assert(g0[j].0 <= x < g0[j].1);
                    assert(is_free(g0, x));
                    if in_region(regions, x) {
                        let i = choose|i: int|
                            0 <= i < regions.len() && (#[trigger] regions[i]).addr <= x
                                < regions[i].addr + regions[i].size;
                        assert(i == regions.len() - 1);
                        let w = choose|w: int|
                            0 <= w < init.len() && (#[trigger] init[w]).addr + init[w].size == c0;
                        if c0 == base {
                            assert(false);
                        } else {
                            assert(!in_region(init, x));
                            assert(regions[w].addr <= regions[i].addr);
                            assert(!(init[w].addr <= x < init[w].addr + init[w].size));
                            assert(false);
                        }
                    }
                } else {
                    assert(c0 <= x < last.addr);
                    if in_region(regions, x) {
                        let i = choose|i: int|
                            0 <= i < regions.len() && (#[trigger] regions[i]).addr <= x
                                < regions[i].addr + regions[i].size;
                        assert(i < init.len());
                        assert(init[i].addr + init[i].size <= c0);
                    }
                }
            }
            if base <= x < c1 && !in_region(regions, x) {
                if x < c0 {
                    assert(is_free(g0, x));
                    let j = choose|j: int| 0 <= j < g0.len() && (#[trigger] g0[j]).0 <= x < g0[j].1;
                    assert(g1[j].0 <= x < g1[j].1);
                } else {
                    assert(!(regions[regions.len() - 1].addr <= x < regions[regions.len() - 1].addr
                        + regions[regions.len() - 1].size));
                    assert(x < last.addr);
                    assert(g1[g0.len() as int].0 <= x < g1[g0.len() as int].1);
                }
            }
        }
    }
}

/// The gap list holds exactly the bytes between `base` and `limit` that lie in
/// no region.
pub proof fn lemma_free_gaps(base: int, limit: int, regions: Seq<Region>)
    requires
        0 <= base <= limit <= u64::MAX,
        regions_fit(regions),
        forall|i: int, j: int|
            #![trigger regions[i], regions[j]]
            0 <= i < j < regions.len() ==> regions[i].addr <= regions[j].addr,
        forall|i: int|
            0 <= i < regions.len() ==> base <= (#[trigger] regions[i]).addr && regions[i].addr
                + regions[i].size <= limit,
    ensures
        gaps_ordered(free_gaps(base, limit, regions)),
        forall|x: int| #[trigger]
            is_free(free_gaps(base, limit, regions), x) <==> base <= x < limit && !in_region(
                regions,
                x,
            ),
{
    lemma_scan(base, regions);
    let c = scan_cursor(base, regions);
    assert(c <= limit);
    let g0 = scan_gaps(base, regions);
    let g = free_gaps(base, limit, regions);
    assert forall|i: int| 0 <= i < g0.len() implies g[i] == g0[i] by {}
    assert forall|x: int| #[trigger]
        is_free(g, x) <==> base <= x < limit && !in_region(regions, x) by {
        if is_free(g, x) {
            let j = choose|j: int| 0 <= j < g.len() && (#[trigger] g[j]).0 <= x < g[j].1;
            if j < g0.len() {
                assert(g0[j].0 <= x < g0[j].1);
                assert(is_free(g0, x));
            }
        }
        if base <= x < limit && !in_region(regions, x) {
            if x < c {
                assert(is_free(g0, x));
                let j = choose|j: int| 0 <= j < g0.len() && (#[trigger] g0[j]).0 <= x < g0[j].1;
                assert(g[j].0 <= x < g[j].1);
            } else {
                assert(g[g0.len() as int].0 <= x < g[g0.len() as int].1);
            }
        }
    }
}

}
