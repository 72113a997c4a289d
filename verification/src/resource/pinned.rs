//! Validation of pinned BARs.
use crate::resource::device::bar_mem64;
use crate::resource::device::bar_ok;
use crate::resource::device::device_ok;
use crate::resource::device::is_mem64_bar;
use crate::resource::device::tree_ok;
use crate::resource::device::DiscoveredBar;
use crate::resource::device::DiscoveredDevice;
use crate::resource::params::in_aperture;
use crate::resource::params::params_ok;
use crate::resource::params::pool_aperture;
use crate::resource::params::range_in_aperture;
use crate::resource::params::select_aperture;
use crate::resource::params::AssignmentError;
use crate::resource::params::AssignmentParams;
use crate::resource::sort::lemma_sorted_contains;
use crate::resource::sort::sort_by_key;
use crate::resource::sort::sorted_by_key;
use crate::resource::sort::SortKey;
use vstd::prelude::*;

verus! {

/// A BAR that keeps its address.
#[derive(Debug, Clone, Copy)]
pub struct PinnedBar {
    /// The address.
    pub address: u64,
    /// The size.
    pub size: u64,
    /// Bus number.
    pub bus: u8,
    /// Device number.
    pub device: u8,
    /// Function number.
    pub function: u8,
    /// BAR register index.
    pub bar_index: u8,
    /// Whether the BAR is in the mem64 pool.
    pub is_mem64: bool,
}

/// Pinned BARs are ordered by address.
impl SortKey for PinnedBar {
    open spec fn key(&self) -> int {
        self.address as int
    }

    fn sort_key(&self) -> (k: u64) {
        self.address
    }
}

/// The pinned BAR that a BAR is, if it is one.
pub open spec fn pinned_bar(dev: DiscoveredDevice, bar: DiscoveredBar) -> PinnedBar {
    PinnedBar {
        address: bar.pinned_address->0,
        size: bar.size,
        bus: dev.bus,
        device: dev.device,
        function: dev.function,
        bar_index: bar.index,
        is_mem64: bar_mem64(bar),
    }
}

/// The pinned ones among the first BARs of a device.
pub open spec fn own_pinned(dev: DiscoveredDevice, bars: Seq<DiscoveredBar>) -> Seq<PinnedBar>
    decreases bars.len(),
{
    if bars.len() == 0 {
        Seq::empty()
    } else {
        let init = own_pinned(dev, bars.drop_last());
        if bars.last().pinned_address is Some {
            init.push(pinned_bar(dev, bars.last()))
        } else {
            init
        }
    }
}

/// The pinned BARs of a device tree: each device's own before those behind it.
pub open spec fn pinned_bars(devices: Seq<DiscoveredDevice>) -> Seq<PinnedBar>
    decreases devices,
{
    if devices.len() == 0 {
        Seq::empty()
    } else {
        let dev = devices.last();
        pinned_bars(devices.drop_last()) + own_pinned(dev, dev.bars@) + pinned_bars(dev.children@)
    }
}

/// The index of the first pinned BAR that is not naturally aligned.
pub open spec fn first_misaligned(pins: Seq<PinnedBar>) -> Option<int>
    decreases pins.len(),
{
    if pins.len() == 0 {
        None
    } else {
        match first_misaligned(pins.drop_last()) {
            Some(i) => Some(i),
            None => if pins.last().address % pins.last().size != 0 {
                Some(pins.len() - 1)
            } else {
                None
            },
        }
    }
}

/// The pinned BARs of one pool, in order.
pub open spec fn pool_of(pins: Seq<PinnedBar>, mem64: bool) -> Seq<PinnedBar>
    decreases pins.len(),
{
    if pins.len() == 0 {
        Seq::empty()
    } else if pins.last().is_mem64 == mem64 {
        pool_of(pins.drop_last(), mem64).push(pins.last())
    } else {
        pool_of(pins.drop_last(), mem64)
    }
}

/// The index of the first pinned BAR that reaches into the next one.
pub open spec fn first_overlap(sorted: Seq<PinnedBar>) -> Option<int>
    decreases sorted.len(),
{
    if sorted.len() < 2 {
        None
    } else {
        match first_overlap(sorted.drop_last()) {
            Some(i) => Some(i),
            None => {
                let a = sorted[sorted.len() - 2];
                if a.address + a.size > sorted.last().address {
                    Some(sorted.len() - 2)
                } else {
                    None
                }
            },
        }
    }
}

/// The index of the first pinned BAR outside its aperture.
pub open spec fn first_outside(pins: Seq<PinnedBar>, params: AssignmentParams) -> Option<int>
    decreases pins.len(),
{
    if pins.len() == 0 {
        None
    } else {
        match first_outside(pins.drop_last(), params) {
            Some(i) => Some(i),
            None => if !pin_inside(pins.last(), params) {
                Some(pins.len() - 1)
            } else {
                None
            },
        }
    }
}

/// Whether a pinned BAR lies in its aperture.
pub open spec fn pin_inside(p: PinnedBar, params: AssignmentParams) -> bool {
    in_aperture(pool_aperture(params, p.is_mem64), p.address as int, p.size as int)
}

/// The error for a pair of pinned BARs that overlap, if there is one.
pub open spec fn overlap_error(pins: Seq<PinnedBar>, mem64: bool) -> Option<AssignmentError> {
    let s = sorted_by_key(pool_of(pins, mem64));
    match first_overlap(s) {
        Some(i) => Some(
            AssignmentError::PinnedBarOverlap {
                first_address: s[i].address,
                first_end: (s[i].address + s[i].size) as u64,
                second_address: s[i + 1].address,
                second_end: (s[i + 1].address + s[i + 1].size) as u64,
            },
        ),
        None => None,
    }
}

/// What is wrong with the pinned BARs: alignment comes first, then overlap in
/// each pool, then the aperture.
pub open spec fn pinned_error(pins: Seq<PinnedBar>, params: AssignmentParams) -> Option<
    AssignmentError,
> {
    match first_misaligned(pins) {
        Some(i) => Some(
            AssignmentError::PinnedBarMisaligned {
                bus: pins[i].bus,
                device: pins[i].device,
                function: pins[i].function,
                bar_index: pins[i].bar_index,
                address: pins[i].address,
                required_alignment: pins[i].size,
            },
        ),
        None => match overlap_error(pins, false) {
            Some(e) => Some(e),
            None => match overlap_error(pins, true) {
                Some(e) => Some(e),
                None => match first_outside(pins, params) {
                    Some(i) => Some(
                        AssignmentError::PinnedBarOutOfAperture {
                            bus: pins[i].bus,
                            device: pins[i].device,
                            function: pins[i].function,
                            bar_index: pins[i].bar_index,
                            address: pins[i].address,
                            size: pins[i].size,
                            aperture: if pins[i].is_mem64 {
                                "high_mmio"
                            } else {
                                "low_mmio"
                            },
                        },
                    ),
                    None => None,
                },
            },
        },
    }
}

/// Whether the pinned BARs end within the address space.
pub open spec fn pins_fit(pins: Seq<PinnedBar>) -> bool {
    forall|i: int|
        #![trigger pins[i]]
        0 <= i < pins.len() ==> pins[i].size > 0 && pins[i].address + pins[i].size <= u64::MAX
}

proof fn lemma_own_pinned_fit(dev: DiscoveredDevice, bars: Seq<DiscoveredBar>)
    requires
        forall|j: int| 0 <= j < bars.len() ==> bar_ok(#[trigger] bars[j]),
    ensures
        pins_fit(own_pinned(dev, bars)),
    decreases bars.len(),
{
    if bars.len() > 0 {
        let init = bars.drop_last();
        assert forall|j: int| 0 <= j < init.len() implies bar_ok(#[trigger] init[j]) by {
            assert(init[j] == bars[j]);
        }
        lemma_own_pinned_fit(dev, init);
        assert(bar_ok(bars[bars.len() - 1]));
    }
}

/// The pinned BARs of a tree that is in order end within the address space.
pub proof fn lemma_pins_fit(devices: Seq<DiscoveredDevice>)
    requires
        tree_ok(devices),
    ensures
        pins_fit(pinned_bars(devices)),
    decreases devices,
{
    if devices.len() > 0 {
        let init = devices.drop_last();
        let n = devices.len() - 1;
        assert(tree_ok(init)) by {
            assert forall|i: int| #![trigger init[i]] 0 <= i < init.len() implies init[i]
                == devices[i] by {}
        }
        lemma_pins_fit(init);
        assert(device_ok(devices[n]) && tree_ok(devices[n].children@));
        lemma_own_pinned_fit(devices[n], devices[n].bars@);
        assert(decreases_to!(devices => devices[n].children@));
        lemma_pins_fit(devices[n].children@);
    }
}

/// Collects the pinned BARs of a device tree.
pub fn collect_pinned_bars(devices: &[DiscoveredDevice], out: &mut Vec<PinnedBar>)
    ensures
        final(out)@ == old(out)@ + pinned_bars(devices@),
    decreases devices@,
{
    let ghost start = out@;
    let mut i: usize = 0;
    while i < devices.len()
        invariant
            i <= devices@.len(),
            start == old(out)@,
            out@ == start + pinned_bars(devices@.take(i as int)),
        decreases devices@.len() - i,
    {
        let dev: &DiscoveredDevice = &devices[i];
        let ghost done = out@;
        let mut j: usize = 0;
        while j < dev.bars.len()
            invariant
                j <= dev.bars@.len(),
                out@ == done + own_pinned(*dev, dev.bars@.take(j as int)),
            decreases dev.bars@.len() - j,
        {
            let bar: DiscoveredBar = dev.bars[j];
            assert(dev.bars@.take(j + 1).drop_last() =~= dev.bars@.take(j as int));
            assert(dev.bars@.take(j + 1).last() == bar);
            if let Some(addr) = bar.pinned_address {
                // Pinned BARs below 4 GB are treated as mem32.
                let is_mem64: bool = addr >= 0x1_0000_0000 && is_mem64_bar(&bar);
                out.push(
                    PinnedBar {
                        address: addr,
                        size: bar.size,
                        bus: dev.bus,
                        device: dev.device,
                        function: dev.function,
                        bar_index: bar.index,
                        is_mem64,
                    },
                );
            }
            assert(out@ =~= done + own_pinned(*dev, dev.bars@.take(j + 1)));
            j = j + 1;
        }
        assert(dev.bars@.take(j as int) =~= dev.bars@);
        assert(decreases_to!(devices@ => devices@[i as int].children@));
        collect_pinned_bars(dev.children.as_slice(), out);
        assert(devices@.take(i + 1).drop_last() =~= devices@.take(i as int));
        assert(devices@.take(i + 1).last() == devices@[i as int]);
        assert(out@ =~= start + pinned_bars(devices@.take(i + 1)));
        i = i + 1;
    }
    assert(devices@.take(i as int) =~= devices@);
}

fn check_overlap(all: &Vec<PinnedBar>, mem64: bool) -> (r: Option<AssignmentError>)
    requires
        pins_fit(all@),
    ensures
        r == overlap_error(all@, mem64),
{
    let mut pool: Vec<PinnedBar> = Vec::new();
    let mut i: usize = 0;
    while i < all.len()
        invariant
            i <= all@.len(),
            pool@ == pool_of(all@.take(i as int), mem64),
            pins_fit(all@),
            pins_fit(pool@),
        decreases all@.len() - i,
    {
        assert(all@.take(i + 1).drop_last() =~= all@.take(i as int));
        assert(all@.take(i + 1).last() == all@[i as int]);
        if all[i].is_mem64 == mem64 {
            pool.push(all[i]);
        }
        i = i + 1;
    }
    assert(all@.take(i as int) =~= all@);
    let sorted: Vec<PinnedBar> = sort_by_key(&pool);
    proof {
        lemma_sorted_contains(pool@);
        assert forall|k: int| #![trigger sorted@[k]] 0 <= k < sorted@.len() implies sorted@[k].size
            > 0 && sorted@[k].address + sorted@[k].size <= u64::MAX by {
            assert(sorted@.contains(sorted@[k]));
            assert(pool@.contains(sorted@[k]));
        }
    }
    if sorted.len() < 2 {
        return None;
    }
    let mut n: usize = 1;
    assert(first_overlap(sorted@.take(1)) is None);
    while n < sorted.len()
        invariant
            1 <= n <= sorted@.len(),
            pins_fit(sorted@),
            sorted@ == sorted_by_key(pool_of(all@, mem64)),
            first_overlap(sorted@.take(n as int)) is None,
        decreases sorted@.len() - n,
    {
        let a: PinnedBar = sorted[n - 1];
        let b: PinnedBar = sorted[n];
        assert(sorted@.take(n + 1).drop_last() =~= sorted@.take(n as int));
        assert(sorted@.take(n + 1)[n - 1] == a);
        assert(sorted@.take(n + 1).last() == b);
        if a.address + a.size > b.address {
            proof {
                lemma_first_overlap_stays(sorted@, n + 1, n - 1);
            }
            return Some(
                AssignmentError::PinnedBarOverlap {
                    first_address: a.address,
                    first_end: a.address + a.size,
                    second_address: b.address,
                    second_end: b.address + b.size,
                },
            );
        }
        n = n + 1;
    }
    assert(sorted@.take(n as int) =~= sorted@);
    None
}

proof fn lemma_first_overlap_stays(s: Seq<PinnedBar>, n: int, i: int)
    requires
        0 <= n <= s.len(),
        first_overlap(s.take(n)) == Some(i),
    ensures
        first_overlap(s) == Some(i),
    decreases s.len() - n,
{
    if n < s.len() {
        assert(s.take(n + 1).drop_last() =~= s.take(n));
        lemma_first_overlap_stays(s, n + 1, i);
    } else {
        assert(s.take(n) =~= s);
    }
}

proof fn lemma_first_misaligned_stays(s: Seq<PinnedBar>, n: int, i: int)
    requires
        0 <= n <= s.len(),
        first_misaligned(s.take(n)) == Some(i),
    ensures
        first_misaligned(s) == Some(i),
    decreases s.len() - n,
{
    if n < s.len() {
        assert(s.take(n + 1).drop_last() =~= s.take(n));
        lemma_first_misaligned_stays(s, n + 1, i);
    } else {
        assert(s.take(n) =~= s);
    }
}

proof fn lemma_first_outside_stays(
    s: Seq<PinnedBar>,
    params: AssignmentParams,
    n: int,
    i: int,
)
    requires
        0 <= n <= s.len(),
        first_outside(s.take(n), params) == Some(i),
    ensures
        first_outside(s, params) == Some(i),
    decreases s.len() - n,
{
    if n < s.len() {
        assert(s.take(n + 1).drop_last() =~= s.take(n));
        lemma_first_outside_stays(s, params, n + 1, i);
    } else {
        assert(s.take(n) =~= s);
    }
}

/// Validates the pinned BARs of a device tree: alignment, overlap and
/// aperture.
pub fn validate_pinned_bars(
    devices: &[DiscoveredDevice],
    params: &AssignmentParams,
) -> (r: Result<(), AssignmentError>)
    requires
        tree_ok(devices@),
        params_ok(*params),
    ensures
        match pinned_error(pinned_bars(devices@), *params) {
            Some(e) => r == Err::<(), AssignmentError>(e),
            None => r is Ok,
        },
{
    let mut all: Vec<PinnedBar> = Vec::new();
    collect_pinned_bars(devices, &mut all);
    proof {
        assert(all@ =~= pinned_bars(devices@));
        lemma_pins_fit(devices@);
    }
    let mut i: usize = 0;
    while i < all.len()
        invariant
            i <= all@.len(),
            pins_fit(all@),
            all@ == pinned_bars(devices@),
            first_misaligned(all@.take(i as int)) is None,
        decreases all@.len() - i,
    {
        let p: PinnedBar = all[i];
        assert(all@.take(i + 1).drop_last() =~= all@.take(i as int));
        assert(all@.take(i + 1).last() == p);
        if p.address % p.size != 0 {
            proof {
                lemma_first_misaligned_stays(all@, i + 1, i as int);
            }
            return Err(
                AssignmentError::PinnedBarMisaligned {
                    bus: p.bus,
                    device: p.device,
                    function: p.function,
                    bar_index: p.bar_index,
                    address: p.address,
                    required_alignment: p.size,
                },
            );
        }
        i = i + 1;
    }
    assert(all@.take(i as int) =~= all@);
    if let Some(e) = check_overlap(&all, false) {
        return Err(e);
    }
    if let Some(e) = check_overlap(&all, true) {
        return Err(e);
    }
    let mut k: usize = 0;
    while k < all.len()
        invariant
            k <= all@.len(),
            pins_fit(all@),
            params_ok(*params),
            all@ == pinned_bars(devices@),
            first_misaligned(all@) is None,
            overlap_error(all@, false) is None,
            overlap_error(all@, true) is None,
            first_outside(all@.take(k as int), *params) is None,
        decreases all@.len() - k,
    {
        let p: PinnedBar = all[k];
        assert(all@.take(k + 1).drop_last() =~= all@.take(k as int));
        assert(all@.take(k + 1).last() == p);
        if !range_in_aperture(select_aperture(params, p.is_mem64), p.address, p.size) {
            proof {
                lemma_first_outside_stays(all@, *params, k + 1, k as int);
            }
            return Err(
                AssignmentError::PinnedBarOutOfAperture {
                    bus: p.bus,
                    device: p.device,
                    function: p.function,
                    bar_index: p.bar_index,
                    address: p.address,
                    size: p.size,
                    aperture: if p.is_mem64 {
                        "high_mmio"
                    } else {
                        "low_mmio"
                    },
                },
            );
        }
        k = k + 1;
    }
    assert(all@.take(k as int) =~= all@);
    Ok(())
}

/// Where nothing is wrong with the pinned BARs, each is naturally aligned and
/// lies in its aperture.
pub proof fn lemma_pinned_fine(pins: Seq<PinnedBar>, params: AssignmentParams)
    requires
        pinned_error(pins, params) is None,
    ensures
        forall|i: int|
            #![trigger pins[i]]
            0 <= i < pins.len() ==> pins[i].address % pins[i].size == 0 && pin_inside(
                pins[i],
                params,
            ),
{
    lemma_no_misaligned(pins);
    lemma_no_outside(pins, params);
}

proof fn lemma_no_misaligned(pins: Seq<PinnedBar>)
    requires
        first_misaligned(pins) is None,
    ensures
        forall|i: int|
            #![trigger pins[i]]
            0 <= i < pins.len() ==> pins[i].address % pins[i].size == 0,
    decreases pins.len(),
{
    if pins.len() > 0 {
        lemma_no_misaligned(pins.drop_last());
        assert forall|i: int| #![trigger pins[i]] 0 <= i < pins.len() implies pins[i].address
            % pins[i].size == 0 by {
            if i < pins.len() - 1 {
                assert(pins.drop_last()[i] == pins[i]);
            }
        }
    }
}

proof fn lemma_no_outside(pins: Seq<PinnedBar>, params: AssignmentParams)
    requires
        first_outside(pins, params) is None,
    ensures
        forall|i: int| #![trigger pins[i]] 0 <= i < pins.len() ==> pin_inside(pins[i], params),
    decreases pins.len(),
{
    if pins.len() > 0 {
        lemma_no_outside(pins.drop_last(), params);
        assert forall|i: int| #![trigger pins[i]] 0 <= i < pins.len() implies pin_inside(
            pins[i],
            params,
        ) by {
            if i < pins.len() - 1 {
                assert(pins.drop_last()[i] == pins[i]);
            }
        }
    }
}

/// A pinned BAR is among those of its device.
pub proof fn lemma_own_pinned_in(
    dev: DiscoveredDevice,
    bars: Seq<DiscoveredBar>,
    j: int,
)
    requires
        0 <= j < bars.len(),
        bars[j].pinned_address is Some,
    ensures
        own_pinned(dev, bars).contains(pinned_bar(dev, bars[j])),
    decreases bars.len(),
{
    let init = bars.drop_last();
    let all = own_pinned(dev, bars);
    let x = pinned_bar(dev, bars[j]);
    if j < init.len() {
        assert(init[j] == bars[j]);
        lemma_own_pinned_in(dev, init, j);
        let part = own_pinned(dev, init);
        let k = choose|k: int| 0 <= k < part.len() && part[k] == x;
        assert(all[k] == x);
    } else {
        assert(all[all.len() - 1] == x);
    }
}

/// The pinned BARs of a device, and of what lies behind it, are among those of
/// the tree.
pub proof fn lemma_pinned_in(devices: Seq<DiscoveredDevice>, i: int, x: PinnedBar)
    requires
        0 <= i < devices.len(),
        own_pinned(devices[i], devices[i].bars@).contains(x) || pinned_bars(
            devices[i].children@,
        ).contains(x),
    ensures
        pinned_bars(devices).contains(x),
    decreases devices.len(),
{
    let init = devices.drop_last();
    let dev = devices.last();
    let part = pinned_bars(init);
    let own = own_pinned(dev, dev.bars@);
    let sub = pinned_bars(dev.children@);
    let all = pinned_bars(devices);
    assert(all == part + own + sub);
    if i < init.len() {
        assert(init[i] == devices[i]);
        lemma_pinned_in(init, i, x);
        let k = choose|k: int| 0 <= k < part.len() && part[k] == x;
        assert(all[k] == x);
    } else if own.contains(x) {
        let k = choose|k: int| 0 <= k < own.len() && own[k] == x;
        assert(all[part.len() + k] == x);
    } else {
        let k = choose|k: int| 0 <= k < sub.len() && sub[k] == x;
        assert(all[part.len() + own.len() + k] == x);
    }
}

}
