//! When an assignment succeeds: where there is room for each pool, and nothing is
//! wrong with the pinned BARs.
use crate::resource::align::aligned_up;
use crate::resource::align::lemma_aligned_up;
use crate::resource::align::lemma_aligned_up_least;
use crate::resource::align::lemma_aligned_up_monotone;
use crate::resource::apart::law_pinned_apart;
use crate::resource::apart::pair_apart;
use crate::resource::assign::assign_error;
use crate::resource::assign::floor_error;
use crate::resource::assign::lemma_root_suits;
use crate::resource::assign::pool_error;
use crate::resource::assign::root_base;
use crate::resource::assign::root_base32;
use crate::resource::assign::root_gaps;
use crate::resource::device::tree_ok;
use crate::resource::device::DiscoveredBar;
use crate::resource::device::DiscoveredDevice;
use crate::resource::fit::lemma_placeable;
use crate::resource::geometry::lemma_level_geometry;
use crate::resource::params::aperture_end;
use crate::resource::params::params_ok;
use crate::resource::params::pool_aperture;
use crate::resource::params::AssignmentError;
use crate::resource::params::AssignmentParams;
use crate::resource::params::MmioAperture;
use crate::resource::pinned::first_misaligned;
use crate::resource::pinned::first_outside;
use crate::resource::pinned::first_overlap;
use crate::resource::pinned::lemma_pinned_fine;
use crate::resource::pinned::lemma_pins_fit;
use crate::resource::pinned::overlap_error;
use crate::resource::pinned::own_pinned;
use crate::resource::pinned::pinned_bar;
use crate::resource::pinned::pinned_bars;
use crate::resource::pinned::pinned_error;
use crate::resource::pinned::pins_fit;
use crate::resource::pinned::pool_of;
use crate::resource::pinned::PinnedBar;
use crate::resource::sizing::lemma_level_demands;
use crate::resource::sizing::lemma_pool_model;
use crate::resource::sizing::lemma_sorted_valid;
use crate::resource::sizing::level_demands;
use crate::resource::sizing::sizes_fit;
use crate::resource::sizing::subtree_model;
use crate::resource::sizing::PoolModel;
use crate::resource::sort::insert_by_key;
use crate::resource::sort::is_sorted;
use crate::resource::sort::lemma_sorted_by_key;
use crate::resource::sort::lemma_sorted_contains;
use crate::resource::sort::sorted_by_key;
use crate::resource::sort::SortKey;
use vstd::prelude::*;

verus! {

/// Whether a pinned BAR lies in the aperture that it belongs to.
pub open spec fn pin_placed(pin: PinnedBar, params: AssignmentParams) -> bool {
    let aperture = if pin.is_mem64 && params.high_mmio is Some {
        params.high_mmio
    } else {
        params.low_mmio
    };
    aperture matches Some(a) && a.base <= pin.address && pin.address + pin.size <= a.base + a.len
}

/// Whether nothing is wrong with the pinned BARs: each is naturally aligned and lies
/// in its aperture, and no two of one pool share a byte.
pub open spec fn pins_valid(pins: Seq<PinnedBar>, params: AssignmentParams) -> bool {
    &&& forall|i: int|
        #![trigger pins[i]]
        0 <= i < pins.len() ==> pins[i].address % pins[i].size == 0 && pin_placed(
            pins[i],
            params,
        )
    &&& forall|i: int, j: int|
        #![trigger pins[i], pins[j]]
        0 <= i < j < pins.len() && pins[i].is_mem64 == pins[j].is_mem64 ==> {
            ||| pins[i].address + pins[i].size <= pins[j].address
            ||| pins[j].address + pins[j].size <= pins[i].address
        }
}

/// Whether no two of the BARs share a byte.
spec fn all_apart(s: Seq<PinnedBar>) -> bool {
    forall|i: int, j: int|
        #![trigger s[i], s[j]]
        0 <= i < j < s.len() ==> pair_apart(s[i], s[j])
}

proof fn lemma_insert_apart(s: Seq<PinnedBar>, x: PinnedBar)
    requires
        all_apart(s),
        forall|i: int| #![trigger s[i]] 0 <= i < s.len() ==> pair_apart(s[i], x),
    ensures
        all_apart(insert_by_key(s, x)),
        forall|y: PinnedBar|
            #![trigger insert_by_key(s, x).contains(y)]
            insert_by_key(s, x).contains(y) ==> y == x || s.contains(y),
    decreases s.len(),
{
    if s.len() > 0 && s.last().key() > x.key() {
        let init = s.drop_last();
        assert forall|i: int| #![trigger init[i]] 0 <= i < init.len() implies pair_apart(
            init[i],
            x,
        ) by {
            assert(init[i] == s[i]);
        }
        assert(all_apart(init)) by {
            assert forall|i: int, j: int|
                #![trigger init[i], init[j]]
                0 <= i < j < init.len() implies pair_apart(init[i], init[j]) by {
                assert(pair_apart(s[i], s[j]));
            }
        }
        lemma_insert_apart(init, x);
        let t = insert_by_key(init, x);
        let u = insert_by_key(s, x);
        assert(u == t.push(s.last()));
        assert forall|i: int, j: int| #![trigger u[i], u[j]] 0 <= i < j < u.len() implies pair_apart(
            u[i],
            u[j],
        ) by {
            if j < t.len() {
                assert(pair_apart(t[i], t[j]));
            } else {
                assert(t.contains(t[i]));
                if u[i] != x {
                    assert(init.contains(u[i]));
                    let k = choose|k: int| 0 <= k < init.len() && init[k] == u[i];
                    assert(pair_apart(s[k], s[s.len() - 1]));
                } else {
                    assert(pair_apart(s[s.len() - 1], x));
                }
            }
        }
        assert forall|y: PinnedBar| #![trigger u.contains(y)] u.contains(y) implies y == x
            || s.contains(y) by {
            let k = choose|k: int| 0 <= k < u.len() && u[k] == y;
            if k < t.len() {
                assert(t.contains(y));
                if y != x {
                    let n = choose|n: int| 0 <= n < init.len() && init[n] == y;
                    assert(s[n] == y);
                }
            } else {
                assert(s[s.len() - 1] == y);
            }
        }
    } else {
        let u = insert_by_key(s, x);
        assert(u == s.push(x));
        assert forall|y: PinnedBar| #![trigger u.contains(y)] u.contains(y) implies y == x
            || s.contains(y) by {
            let k = choose|k: int| 0 <= k < u.len() && u[k] == y;
            if k < s.len() {
                assert(s[k] == y);
            }
        }
    }
}

proof fn lemma_sorted_apart(s: Seq<PinnedBar>)
    requires
        all_apart(s),
    ensures
        all_apart(sorted_by_key(s)),
    decreases s.len(),
{
    if s.len() > 0 {
        let init = s.drop_last();
        assert(all_apart(init)) by {
            assert forall|i: int, j: int|
                #![trigger init[i], init[j]]
                0 <= i < j < init.len() implies pair_apart(init[i], init[j]) by {
                assert(pair_apart(s[i], s[j]));
            }
        }
        lemma_sorted_apart(init);
        lemma_sorted_contains(init);
        let t = sorted_by_key(init);
        assert forall|i: int| #![trigger t[i]] 0 <= i < t.len() implies pair_apart(
            t[i],
            s.last(),
        ) by {
            assert(t.contains(t[i]));
            assert(init.contains(t[i]));
            let k = choose|k: int| 0 <= k < init.len() && init[k] == t[i];
            assert(pair_apart(s[k], s[s.len() - 1]));
        }
        lemma_insert_apart(t, s.last());
    }
}

proof fn lemma_no_overlap(s: Seq<PinnedBar>)
    requires
        all_apart(s),
        is_sorted(s),
        pins_fit(s),
    ensures
        first_overlap(s) is None,
    decreases s.len(),
{
    if s.len() >= 2 {
        let init = s.drop_last();
        assert forall|i: int, j: int|
            #![trigger init[i], init[j]]
            0 <= i <= j < init.len() implies init[i].key() <= init[j].key() && (i < j
            ==> pair_apart(init[i], init[j])) by {
            assert(init[i] == s[i] && init[j] == s[j]);
        }
        assert forall|i: int| #![trigger init[i]] 0 <= i < init.len() implies init[i].size > 0
            && init[i].address + init[i].size <= u64::MAX by {
            assert(init[i] == s[i]);
        }
        lemma_no_overlap(init);
        let n = s.len() - 1;
        assert(pair_apart(s[n - 1], s[n]));
        assert(s[n - 1].key() <= s[n].key());
        assert(s[n].size > 0 && s[n - 1].size > 0);
    }
}

proof fn lemma_pool_of(pins: Seq<PinnedBar>, mem64: bool)
    requires
        pins_fit(pins),
        forall|i: int, j: int|
            #![trigger pins[i], pins[j]]
            0 <= i < j < pins.len() && pins[i].is_mem64 == pins[j].is_mem64 ==> pair_apart(
                pins[i],
                pins[j],
            ),
    ensures
        all_apart(pool_of(pins, mem64)),
        pins_fit(pool_of(pins, mem64)),
        forall|x: PinnedBar| #[trigger]
            pool_of(pins, mem64).contains(x) ==> pins.contains(x) && x.is_mem64 == mem64,
    decreases pins.len(),
{
    if pins.len() > 0 {
        let init = pins.drop_last();
        let n = pins.len() - 1;
        assert forall|i: int, j: int|
            #![trigger init[i], init[j]]
            0 <= i < j < init.len() && init[i].is_mem64
                == init[j].is_mem64 implies pair_apart(init[i], init[j]) by {
            assert(init[i] == pins[i] && init[j] == pins[j]);
        }
        assert forall|i: int| #![trigger init[i]] 0 <= i < init.len() implies init[i].size > 0
            && init[i].address + init[i].size <= u64::MAX by {
            assert(init[i] == pins[i]);
        }
        lemma_pool_of(init, mem64);
        let t = pool_of(init, mem64);
        let u = pool_of(pins, mem64);
        assert(pins[n].size > 0);
        assert forall|i: int| #![trigger t[i]] 0 <= i < t.len() implies exists|k: int|
            0 <= k < n && #[trigger] pins[k] == t[i] && t[i].is_mem64 == mem64 by {
            assert(t.contains(t[i]));
            let k = choose|k: int| 0 <= k < init.len() && init[k] == t[i];
            assert(pins[k] == t[i]);
        }
        assert forall|i: int, j: int| #![trigger u[i], u[j]] 0 <= i < j < u.len() implies pair_apart(
            u[i],
            u[j],
        ) by {
            if j < t.len() {
                assert(pair_apart(t[i], t[j]));
            } else {
                assert(u[i] == t[i]);
                let k = choose|k: int| 0 <= k < n && #[trigger] pins[k] == t[i];
                assert(pair_apart(pins[k], pins[n]));
            }
        }
        assert forall|x: PinnedBar| #[trigger] u.contains(x) implies pins.contains(x)
            && x.is_mem64 == mem64 by {
            let i = choose|i: int| 0 <= i < u.len() && u[i] == x;
            if i < t.len() {
                let k = choose|k: int| 0 <= k < n && #[trigger] pins[k] == t[i];
                assert(pins[k] == x);
            } else {
                assert(pins[n] == x);
            }
        }
    }
}

proof fn lemma_pool_no_overlap(pins: Seq<PinnedBar>, params: AssignmentParams, mem64: bool)
    requires
        pins_fit(pins),
        pins_valid(pins, params),
    ensures
        overlap_error(pins, mem64) is None,
{
    lemma_pool_of(pins, mem64);
    let s = pool_of(pins, mem64);
    let t = sorted_by_key(s);
    lemma_sorted_by_key(s);
    lemma_sorted_contains(s);
    lemma_sorted_apart(s);
    assert forall|i: int| #![trigger t[i]] 0 <= i < t.len() implies t[i].size > 0 && t[i].address
        + t[i].size <= u64::MAX by {
        assert(t.contains(t[i]));
        assert(s.contains(t[i]));
        let k = choose|k: int| 0 <= k < s.len() && s[k] == t[i];
        assert(s[k].size > 0);
    }
    lemma_no_overlap(t);
}

proof fn lemma_all_aligned(pins: Seq<PinnedBar>, params: AssignmentParams)
    requires
        forall|i: int|
            #![trigger pins[i]]
            0 <= i < pins.len() ==> pins[i].address % pins[i].size == 0 && pin_placed(
                pins[i],
                params,
            ),
    ensures
        first_misaligned(pins) is None,
        first_outside(pins, params) is None,
    decreases pins.len(),
{
    if pins.len() > 0 {
        let init = pins.drop_last();
        assert forall|i: int| #![trigger init[i]] 0 <= i < init.len() implies init[i].address
            % init[i].size == 0 && pin_placed(init[i], params) by {
            assert(init[i] == pins[i]);
        }
        lemma_all_aligned(init, params);
        assert(pins.last() == pins[pins.len() - 1]);
    }
}

/// Pinned BARs are refused only where something is wrong with them: where each is
/// naturally aligned and in its aperture, and no two of a pool share a byte, there
/// is no error, and the other way round.
pub proof fn law_valid_pins_accepted(pins: Seq<PinnedBar>, params: AssignmentParams)
    requires
        pins_fit(pins),
    ensures
        pinned_error(pins, params) is None <==> pins_valid(pins, params),
{
    if pins_valid(pins, params) {
        lemma_all_aligned(pins, params);
        lemma_pool_no_overlap(pins, params, false);
        lemma_pool_no_overlap(pins, params, true);
    } else if pinned_error(pins, params) is None {
        lemma_pinned_fine(pins, params);
        law_pinned_apart(pins, params);
        assert(pins_valid(pins, params)) by {
            assert forall|i: int, j: int|
                #![trigger pins[i], pins[j]]
                0 <= i < j < pins.len() && pins[i].is_mem64 == pins[j].is_mem64 implies {
                ||| pins[i].address + pins[i].size <= pins[j].address
                ||| pins[j].address + pins[j].size <= pins[i].address
            } by {
                assert(pair_apart(pins[i], pins[j]));
            }
        }
    }
}

/// Whether an error names a pinned BAR by its function, index and address.
pub open spec fn names_pin(
    pin: PinnedBar,
    bus: u8,
    device: u8,
    function: u8,
    bar_index: u8,
    address: u64,
) -> bool {
    &&& pin.bus == bus
    &&& pin.device == device
    &&& pin.function == function
    &&& pin.bar_index == bar_index
    &&& pin.address == address
}

/// Whether an error says what is wrong with a pinned BAR, or with two.
pub open spec fn tells_of_pins(
    e: AssignmentError,
    pins: Seq<PinnedBar>,
    params: AssignmentParams,
) -> bool {
    match e {
        AssignmentError::PinnedBarMisaligned {
            bus,
            device,
            function,
            bar_index,
            address,
            required_alignment,
        } => exists|i: int|
            #![trigger pins[i]]
            {
                &&& 0 <= i < pins.len()
                &&& names_pin(pins[i], bus, device, function, bar_index, address)
                &&& required_alignment == pins[i].size
                &&& address % required_alignment != 0
            },
        AssignmentError::PinnedBarOverlap {
            first_address,
            first_end,
            second_address,
            second_end,
        } => {
            &&& first_address <= second_address
            &&& second_address < first_end
            &&& exists|i: int, j: int|
                #![trigger pins[i], pins[j]]
                {
                    &&& 0 <= i < pins.len()
                    &&& 0 <= j < pins.len()
                    &&& pins[i].is_mem64 == pins[j].is_mem64
                    &&& pins[i].address == first_address
                    &&& pins[i].address + pins[i].size == first_end
                    &&& pins[j].address == second_address
                    &&& pins[j].address + pins[j].size == second_end
                }
        },
        AssignmentError::PinnedBarOutOfAperture {
            bus,
            device,
            function,
            bar_index,
            address,
            size,
            aperture,
        } => exists|i: int|
            #![trigger pins[i]]
            {
                &&& 0 <= i < pins.len()
                &&& names_pin(pins[i], bus, device, function, bar_index, address)
                &&& size == pins[i].size
                &&& !pin_placed(pins[i], params)
                &&& aperture == if pins[i].is_mem64 {
                    "high_mmio"
                } else {
                    "low_mmio"
                }
            },
        _ => false,
    }
}

proof fn lemma_misaligned(pins: Seq<PinnedBar>)
    ensures
        first_misaligned(pins) matches Some(i) ==> 0 <= i < pins.len() && pins[i].address
            % pins[i].size != 0,
    decreases pins.len(),
{
    if pins.len() > 0 {
        lemma_misaligned(pins.drop_last());
    }
}

proof fn lemma_outside(pins: Seq<PinnedBar>, params: AssignmentParams)
    ensures
        first_outside(pins, params) matches Some(i) ==> 0 <= i < pins.len() && !pin_placed(
            pins[i],
            params,
        ),
    decreases pins.len(),
{
    if pins.len() > 0 {
        lemma_outside(pins.drop_last(), params);
    }
}

proof fn lemma_overlap(s: Seq<PinnedBar>)
    ensures
        first_overlap(s) matches Some(i) ==> 0 <= i < s.len() - 1 && s[i].address + s[i].size > s[i
            + 1].address,
    decreases s.len(),
{
    if s.len() >= 2 {
        lemma_overlap(s.drop_last());
    }
}

proof fn lemma_in_pool(pins: Seq<PinnedBar>, mem64: bool)
    ensures
        forall|x: PinnedBar| #[trigger]
            pool_of(pins, mem64).contains(x) ==> pins.contains(x) && x.is_mem64 == mem64,
    decreases pins.len(),
{
    if pins.len() > 0 {
        let init = pins.drop_last();
        lemma_in_pool(init, mem64);
        let t = pool_of(init, mem64);
        let u = pool_of(pins, mem64);
        assert forall|x: PinnedBar| #[trigger] u.contains(x) implies pins.contains(x)
            && x.is_mem64 == mem64 by {
            let i = choose|i: int| 0 <= i < u.len() && u[i] == x;
            if i < t.len() {
                assert(t[i] == x);
                assert(t.contains(x));
                let k = choose|k: int| 0 <= k < init.len() && init[k] == x;
                assert(pins[k] == x);
            } else {
                assert(pins[pins.len() - 1] == x);
            }
        }
    }
}

proof fn lemma_overlap_told(pins: Seq<PinnedBar>, params: AssignmentParams, mem64: bool)
    requires
        pins_fit(pins),
    ensures
        overlap_error(pins, mem64) matches Some(e) ==> tells_of_pins(e, pins, params),
{
    let p = pool_of(pins, mem64);
    let s = sorted_by_key(p);
    lemma_overlap(s);
    lemma_sorted_by_key(p);
    lemma_sorted_contains(p);
    lemma_in_pool(pins, mem64);
    if let Some(i) = first_overlap(s) {
        assert(s.contains(s[i]) && s.contains(s[i + 1]));
        assert(p.contains(s[i]) && p.contains(s[i + 1]));
        assert(pins.contains(s[i]) && pins.contains(s[i + 1]));
        let a = choose|a: int| 0 <= a < pins.len() && pins[a] == s[i];
        let b = choose|b: int| 0 <= b < pins.len() && pins[b] == s[i + 1];
        assert(pins[a].size > 0 && pins[b].size > 0);
        assert(s[i].key() <= s[i + 1].key());
    }
}

/// An error about pinned BARs tells of a BAR that is not naturally aligned, of two of
/// one pool that share bytes, or of one outside its aperture, and says where they are.
pub proof fn law_pin_errors(pins: Seq<PinnedBar>, params: AssignmentParams)
    requires
        pins_fit(pins),
    ensures
        pinned_error(pins, params) matches Some(e) ==> tells_of_pins(e, pins, params),
{
    lemma_misaligned(pins);
    lemma_outside(pins, params);
    lemma_overlap_told(pins, params, false);
    lemma_overlap_told(pins, params, true);
}

/// Whether a pinned BAR is one of a device tree: of the bus, device and function that
/// has it, with its index, size and address. It is in the mem64 pool if it is a
/// prefetchable 64-bit BAR that is not below 4 GB.
pub open spec fn is_pin_of(pin: PinnedBar, devices: Seq<DiscoveredDevice>) -> bool
    decreases devices,
{
    exists|i: int|
        #![trigger devices[i]]
        0 <= i < devices.len() && {
            ||| is_pin_of(pin, devices[i].children@)
            ||| exists|j: int|
                #![trigger devices[i].bars@[j]]
                {
                    let (dev, bar) = (devices[i], devices[i].bars@[j]);
                    &&& 0 <= j < dev.bars@.len()
                    &&& bar.pinned_address == Some(pin.address)
                    &&& names_pin(
                        pin,
                        dev.bus,
                        dev.device,
                        dev.function,
                        bar.index,
                        pin.address,
                    )
                    &&& pin.size == bar.size
                    &&& pin.is_mem64 <==> bar.is_64bit && bar.is_prefetchable && pin.address
                        >= 0x1_0000_0000
                }
        }
}

proof fn lemma_own_pins(dev: DiscoveredDevice, bars: Seq<DiscoveredBar>, pin: PinnedBar)
    ensures
        own_pinned(dev, bars).contains(pin) <==> exists|j: int|
            #![trigger bars[j]]
            0 <= j < bars.len() && bars[j].pinned_address is Some && pin == pinned_bar(
                dev,
                bars[j],
            ),
    decreases bars.len(),
{
    if bars.len() > 0 {
        let init = bars.drop_last();
        let last = bars[bars.len() - 1];
        lemma_own_pins(dev, init, pin);
        let a = own_pinned(dev, init);
        let b = own_pinned(dev, bars);
        if b.contains(pin) {
            let k = choose|k: int| 0 <= k < b.len() && b[k] == pin;
            if k < a.len() {
                assert(a[k] == pin);
                assert(a.contains(pin));
                let j = choose|j: int|
                    #![trigger init[j]]
                    0 <= j < init.len() && init[j].pinned_address is Some && pin == pinned_bar(
                        dev,
                        init[j],
                    );
                assert(bars[j] == init[j]);
            }
        }
        if exists|j: int|
            #![trigger bars[j]]
            0 <= j < bars.len() && bars[j].pinned_address is Some && pin == pinned_bar(
                dev,
                bars[j],
            ) {
            let j = choose|j: int|
                #![trigger bars[j]]
                0 <= j < bars.len() && bars[j].pinned_address is Some && pin == pinned_bar(
                    dev,
                    bars[j],
                );
            if j < init.len() {
                assert(init[j] == bars[j]);
                let k = choose|k: int| 0 <= k < a.len() && a[k] == pin;
                assert(b[k] == pin);
            } else {
                assert(b[b.len() - 1] == pin);
            }
        }
    }
}

/// The pinned BARs that are looked at are those of the tree, all of them and no others.
pub proof fn law_pins_collected(devices: Seq<DiscoveredDevice>, pin: PinnedBar)
    ensures
        pinned_bars(devices).contains(pin) <==> is_pin_of(pin, devices),
    decreases devices,
{
    if devices.len() > 0 {
        let init = devices.drop_last();
        let n = devices.len() - 1;
        let dev = devices[n];
        let all = pinned_bars(devices);
        let a = pinned_bars(init);
        let b = own_pinned(dev, dev.bars@);
        let c = pinned_bars(dev.children@);
        assert(all == a + b + c);
        assert(decreases_to!(devices => dev.children@));
        law_pins_collected(init, pin);
        law_pins_collected(dev.children@, pin);
        lemma_own_pins(dev, dev.bars@, pin);
        if all.contains(pin) {
            let k = choose|k: int| 0 <= k < all.len() && all[k] == pin;
            if k < a.len() {
                assert(a[k] == pin);
                assert(a.contains(pin));
                let i = lemma_pin_place(init, pin);
                assert(devices[i] == init[i]);
            } else if k < a.len() + b.len() {
                assert(b[k - a.len()] == pin);
                assert(b.contains(pin));
                let j = choose|j: int|
                    #![trigger dev.bars@[j]]
                    0 <= j < dev.bars@.len() && dev.bars@[j].pinned_address is Some && pin
                        == pinned_bar(dev, dev.bars@[j]);
                assert(devices[n].bars@[j] == dev.bars@[j]);
            } else {
                assert(c[k - a.len() - b.len()] == pin);
                assert(c.contains(pin));
                assert(devices[n] == dev);
            }
        }
        if is_pin_of(pin, devices) {
            let i = lemma_pin_place(devices, pin);
            if i < n {
                assert(init[i] == devices[i]);
                assert(is_pin_of(pin, init));
                let k = choose|k: int| 0 <= k < a.len() && a[k] == pin;
                assert(all[k] == pin);
            } else if is_pin_of(pin, dev.children@) {
                let k = choose|k: int| 0 <= k < c.len() && c[k] == pin;
                assert(all[a.len() + b.len() + k] == pin);
            } else {
                assert(b.contains(pin));
                let k = choose|k: int| 0 <= k < b.len() && b[k] == pin;
                assert(all[a.len() + k] == pin);
            }
        }
    }
}

proof fn lemma_pin_place(devices: Seq<DiscoveredDevice>, pin: PinnedBar) -> (i: int)
    requires
        is_pin_of(pin, devices),
    ensures
        0 <= i < devices.len(),
        is_pin_of(pin, devices[i].children@) || exists|j: int|
            #![trigger devices[i].bars@[j]]
            0 <= j < devices[i].bars@.len() && devices[i].bars@[j].pinned_address is Some && pin
                == pinned_bar(devices[i], devices[i].bars@[j]),
        is_pin_of(pin, devices[i].children@) || exists|j: int|
            #![trigger devices[i].bars@[j]]
            {
                let (dev, bar) = (devices[i], devices[i].bars@[j]);
                &&& 0 <= j < dev.bars@.len()
                &&& bar.pinned_address == Some(pin.address)
                &&& names_pin(pin, dev.bus, dev.device, dev.function, bar.index, pin.address)
                &&& pin.size == bar.size
                &&& pin.is_mem64 <==> bar.is_64bit && bar.is_prefetchable && pin.address
                    >= 0x1_0000_0000
            },
{
    let i = choose|i: int|
        #![trigger devices[i]]
        0 <= i < devices.len() && {
            ||| is_pin_of(pin, devices[i].children@)
            ||| exists|j: int|
                #![trigger devices[i].bars@[j]]
                {
                    let (dev, bar) = (devices[i], devices[i].bars@[j]);
                    &&& 0 <= j < dev.bars@.len()
                    &&& bar.pinned_address == Some(pin.address)
                    &&& names_pin(
                        pin,
                        dev.bus,
                        dev.device,
                        dev.function,
                        bar.index,
                        pin.address,
                    )
                    &&& pin.size == bar.size
                    &&& pin.is_mem64 <==> bar.is_64bit && bar.is_prefetchable && pin.address
                        >= 0x1_0000_0000
                }
        };
    if !is_pin_of(pin, devices[i].children@) {
        let j = choose|j: int|
            #![trigger devices[i].bars@[j]]
            {
                let (dev, bar) = (devices[i], devices[i].bars@[j]);
                &&& 0 <= j < dev.bars@.len()
                &&& bar.pinned_address == Some(pin.address)
                &&& names_pin(pin, dev.bus, dev.device, dev.function, bar.index, pin.address)
                &&& pin.size == bar.size
                &&& pin.is_mem64 <==> bar.is_64bit && bar.is_prefetchable && pin.address
                    >= 0x1_0000_0000
            };
        assert(pin == pinned_bar(devices[i], devices[i].bars@[j]));
    }
    i
}

/// Whether the range of a pool can start at an address: at the one that its pinned
/// demands say, or else at any multiple of its alignment from `from` on.
pub open spec fn can_start(pool: PoolModel, from: int, at: int) -> bool {
    match pool.base {
        Some(base) => at == base,
        None => from <= at && at % pool.align == 0,
    }
}

/// Whether an address is the first at which the range of a pool can start.
pub open spec fn first_start(pool: PoolModel, from: int, at: int) -> bool {
    &&& can_start(pool, from, at)
    &&& forall|other: int| #[trigger] can_start(pool, from, other) ==> at <= other
}

/// Whether a pool that needs anything fits an aperture from an address on.
pub open spec fn fits_at(
    pool: PoolModel,
    aperture: Option<MmioAperture>,
    from: int,
    at: int,
) -> bool {
    pool.mem > 0 ==> {
        &&& aperture is Some
        &&& aperture->0.base <= at
        &&& can_start(pool, from, at)
        &&& at + pool.mem <= aperture->0.base + aperture->0.len
    }
}

/// The aperture of the mem64 pool: the high one, or else the low one.
pub open spec fn aperture64(params: AssignmentParams) -> Option<MmioAperture> {
    match params.high_mmio {
        Some(a) => Some(a),
        None => params.low_mmio,
    }
}

/// From where the mem64 pool may have its range: from the start of its aperture, or
/// in one that it shares with a mem32 pool from the end of that pool's range.
pub open spec fn free64(pool32: PoolModel, params: AssignmentParams, at32: int) -> int {
    match params.high_mmio {
        Some(a) => a.base as int,
        None => if pool32.mem > 0 {
            at32 + pool32.mem
        } else {
            params.low_mmio->0.base as int
        },
    }
}

/// Whether there is room for both pools at the given addresses.
pub open spec fn room_at(
    devices: Seq<DiscoveredDevice>,
    params: AssignmentParams,
    at32: int,
    at64: int,
) -> bool {
    let m = subtree_model(devices);
    &&& fits_at(m.pool32, params.low_mmio, params.low_mmio->0.base as int, at32)
    &&& fits_at(m.pool64, aperture64(params), free64(m.pool32, params, at32), at64)
}

proof fn lemma_first_start(pool: PoolModel, from: int, at: int)
    requires
        pool.align > 0,
        first_start(pool, from, at),
    ensures
        at == match pool.base {
            Some(base) => base as int,
            None => aligned_up(from, pool.align),
        },
{
    if pool.base is None {
        lemma_aligned_up(from, pool.align);
        assert(can_start(pool, from, aligned_up(from, pool.align)));
        lemma_aligned_up_least(from, pool.align, at);
    }
}

proof fn lemma_start_least(pool: PoolModel, from: int, at: int)
    requires
        pool.align > 0,
        can_start(pool, from, at),
    ensures
        match pool.base {
            Some(base) => at == base,
            None => aligned_up(from, pool.align) <= at,
        },
{
    if pool.base is None {
        lemma_aligned_up_least(from, pool.align, at);
    }
}

proof fn lemma_pools(devices: Seq<DiscoveredDevice>)
    requires
        tree_ok(devices),
        sizes_fit(devices),
        devices.len() <= usize::MAX,
    ensures
        0 <= subtree_model(devices).pool32.mem <= u64::MAX,
        0 <= subtree_model(devices).pool64.mem <= u64::MAX,
        subtree_model(devices).pool32.align > 0,
        subtree_model(devices).pool64.align > 0,
{
    let m = subtree_model(devices);
    lemma_level_demands(devices);
    lemma_sorted_valid(level_demands(devices));
    lemma_pool_model(m.demands, false);
    lemma_pool_model(m.demands, true);
}

proof fn lemma_no_floor_error(
    devices: Seq<DiscoveredDevice>,
    params: AssignmentParams,
    mem64: bool,
)
    requires
        tree_ok(devices),
        sizes_fit(devices),
        devices.len() <= usize::MAX,
        params_ok(params),
        pool_error(subtree_model(devices), params, mem64) is None,
        subtree_model(devices).pool(mem64).mem > 0 && subtree_model(devices).pool(
            mem64,
        ).base is Some ==> pool_aperture(params, mem64)->0.base <= subtree_model(devices).pool(
            mem64,
        ).base->0,
    ensures
        floor_error(subtree_model(devices), params, mem64) is None,
{
    let m = subtree_model(devices);
    if m.pool(mem64).mem > 0 && m.pool(mem64).base is Some {
        lemma_root_suits(devices, params, mem64);
        let a = pool_aperture(params, mem64)->0;
        let g = root_gaps(m, params, mem64);
        let lo = root_base(m, params, mem64);
        let hi = aperture_end(a);
        lemma_placeable(devices, mem64, g, lo, hi);
        lemma_level_geometry(devices, mem64, g, lo, hi);
    }
}

/// An assignment succeeds wherever there is room: where nothing is wrong with the
/// pinned BARs and each pool that needs anything has an aperture in which, from some
/// address that its range can start at, there are as many bytes as it needs. In an
/// aperture that both pools share, the mem64 pool has them behind the mem32 pool.
pub proof fn law_enough_room(
    devices: Seq<DiscoveredDevice>,
    params: AssignmentParams,
    at32: int,
    at64: int,
)
    requires
        tree_ok(devices),
        sizes_fit(devices),
        devices.len() <= usize::MAX,
        params_ok(params),
        pins_valid(pinned_bars(devices), params),
        room_at(devices, params, at32, at64),
    ensures
        assign_error(devices, params) is None,
{
    let m = subtree_model(devices);
    lemma_pools(devices);
    lemma_pins_fit(devices);
    law_valid_pins_accepted(pinned_bars(devices), params);
    if m.pool32.mem > 0 {
        lemma_start_least(m.pool32, params.low_mmio->0.base as int, at32);
    }
    if m.pool64.mem > 0 {
        lemma_start_least(m.pool64, free64(m.pool32, params, at32), at64);
        if m.pool32.mem > 0 && params.high_mmio is None {
            lemma_aligned_up_monotone(
                root_base32(m, params) + m.pool32.mem,
                at32 + m.pool32.mem,
                m.pool64.align,
            );
        }
    }
    assert(pool_error(m, params, false) is None);
    assert(pool_error(m, params, true) is None);
    lemma_no_floor_error(devices, params, false);
    lemma_no_floor_error(devices, params, true);
}

/// The bytes that an aperture has from an address on.
pub open spec fn bytes_from(a: MmioAperture, at: int) -> int {
    if at < a.base + a.len {
        a.base + a.len - at
    } else {
        0
    }
}

/// Whether an error says that a pool lacks room, with the bytes that the pool needs
/// and those that there are from the first address that its range can start at.
pub open spec fn says_lacking(
    e: AssignmentError,
    pool: PoolModel,
    aperture: Option<MmioAperture>,
    at: int,
    name: &'static str,
) -> bool {
    e matches AssignmentError::MmioExhaustion { required, available, aperture: which } && {
        &&& required == pool.mem
        &&& available == match aperture {
            Some(a) => bytes_from(a, at),
            None => 0,
        }
        &&& required > available
        &&& which == name
    }
}

/// An assignment reports a lack of room exactly where there is one, of the mem32 pool
/// before the mem64 pool, and with the numbers that show it: more bytes are needed
/// than there are from the first address at which the pool's range can start.
pub proof fn law_lack_of_room(
    devices: Seq<DiscoveredDevice>,
    params: AssignmentParams,
    at32: int,
    at64: int,
)
    requires
        tree_ok(devices),
        sizes_fit(devices),
        devices.len() <= usize::MAX,
        params_ok(params),
        params.low_mmio matches Some(a) ==> first_start(
            subtree_model(devices).pool32,
            a.base as int,
            at32,
        ),
        aperture64(params) is Some ==> first_start(
            subtree_model(devices).pool64,
            free64(subtree_model(devices).pool32, params, at32),
            at64,
        ),
    ensures
        ({
            let m = subtree_model(devices);
            let lacking32 = m.pool32.mem > 0 && match params.low_mmio {
                Some(a) => at32 + m.pool32.mem > a.base + a.len,
                None => true,
            };
            let lacking64 = m.pool64.mem > 0 && match aperture64(params) {
                Some(a) => at64 + m.pool64.mem > a.base + a.len,
                None => true,
            };
            let e = assign_error(devices, params);
            &&& e is Some && e->0 is MmioExhaustion <==> pins_valid(
                pinned_bars(devices),
                params,
            ) && (lacking32 || lacking64)
            &&& e is Some && e->0 is MmioExhaustion && lacking32 ==> says_lacking(
                e->0,
                m.pool32,
                params.low_mmio,
                at32,
                "low_mmio",
            )
            &&& e is Some && e->0 is MmioExhaustion && !lacking32 ==> says_lacking(
                e->0,
                m.pool64,
                aperture64(params),
                at64,
                "high_mmio",
            )
        }),
{
    let m = subtree_model(devices);
    lemma_pools(devices);
    lemma_pins_fit(devices);
    law_valid_pins_accepted(pinned_bars(devices), params);
    if params.low_mmio is Some {
        lemma_first_start(m.pool32, params.low_mmio->0.base as int, at32);
    }
    if aperture64(params) is Some {
        lemma_first_start(m.pool64, free64(m.pool32, params, at32), at64);
    }
}

/// A lack of room is reported only where more bytes are needed than there are.
pub proof fn law_required_above_available(
    devices: Seq<DiscoveredDevice>,
    params: AssignmentParams,
)
    requires
        tree_ok(devices),
        sizes_fit(devices),
        devices.len() <= usize::MAX,
        params_ok(params),
    ensures
        assign_error(devices, params) matches Some(
            AssignmentError::MmioExhaustion { required, available, .. },
        ) ==> required > available,
{
    lemma_pools(devices);
}

/// Whether an error says that the range of a pool starts below its aperture, and where
/// both start.
pub open spec fn says_below(
    e: AssignmentError,
    pool: PoolModel,
    aperture: Option<MmioAperture>,
    name: &'static str,
) -> bool {
    e matches AssignmentError::PinnedRangeBelowAperture {
        range_base,
        aperture_base,
        aperture: which,
    } && {
        &&& pool.base == Some(range_base)
        &&& aperture is Some && aperture->0.base == aperture_base
        &&& range_base < aperture_base
        &&& which == name
    }
}

/// A range is refused for its start only where it starts below its aperture.
pub proof fn law_below_aperture(devices: Seq<DiscoveredDevice>, params: AssignmentParams)
    requires
        tree_ok(devices),
        sizes_fit(devices),
        devices.len() <= usize::MAX,
        params_ok(params),
    ensures
        ({
            let m = subtree_model(devices);
            let e = assign_error(devices, params);
            e is Some && e->0 is PinnedRangeBelowAperture ==> says_below(
                e->0,
                m.pool32,
                params.low_mmio,
                "low_mmio",
            ) || says_below(e->0, m.pool64, aperture64(params), "high_mmio")
        }),
{
    let m = subtree_model(devices);
    lemma_pins_fit(devices);
    law_pin_errors(pinned_bars(devices), params);
    if pinned_error(pinned_bars(devices), params) is None && pool_error(m, params, false) is None
        && pool_error(m, params, true) is None {
        if floor_error(m, params, false) is Some {
            let base = m.pool32.base->0;
            if params.low_mmio->0.base <= base {
                lemma_no_floor_error(devices, params, false);
            }
        } else if floor_error(m, params, true) is Some {
            let base = m.pool64.base->0;
            if aperture64(params)->0.base <= base {
                lemma_no_floor_error(devices, params, true);
            }
        }
    }
}

/// Whether there is room for both pools, and nothing is wrong with the pinned BARs.
pub open spec fn has_room(devices: Seq<DiscoveredDevice>, params: AssignmentParams) -> bool {
    &&& pins_valid(pinned_bars(devices), params)
    &&& exists|at32: int, at64: int| #[trigger] room_at(devices, params, at32, at64)
}

pub proof fn lemma_outcome(devices: Seq<DiscoveredDevice>, params: AssignmentParams)
    requires
        tree_ok(devices),
        sizes_fit(devices),
        devices.len() <= usize::MAX,
        params_ok(params),
    ensures
        has_room(devices, params) ==> assign_error(devices, params) is None,
        assign_error(devices, params) matches Some(
            AssignmentError::MmioExhaustion { required, available, .. },
        ) ==> required > available,
{
    law_required_above_available(devices, params);
    if has_room(devices, params) {
        let (at32, at64) = choose|at32: int, at64: int| #[trigger]
            room_at(devices, params, at32, at64);
        law_enough_room(devices, params, at32, at64);
    }
}

}
