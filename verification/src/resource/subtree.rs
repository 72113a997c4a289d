//! Top-down assignment of a subtree.
use crate::resource::demand::lemma_valid_align;
use crate::resource::demand::Demand;
use crate::resource::device::device_agrees;
use crate::resource::device::distinct_bars;
use crate::resource::device::pool_scope;
use crate::resource::device::tree_agrees;
use crate::resource::device::tree_ok;
use crate::resource::device::DiscoveredBar;
use crate::resource::device::DiscoveredDevice;
use crate::resource::gaps::allocate_from_gaps;
use crate::resource::placement::address_of;
use crate::resource::placement::gaps_after;
use crate::resource::placement::placeable;
use crate::resource::placement::placed;
use crate::resource::placement::unneeded_unset;
use crate::resource::placement::window_gaps;
use crate::resource::placement::window_of;
use crate::resource::sizing::copy_gaps;
use crate::resource::sizing::states_ok;
use crate::resource::sizing::subtree_model;
use crate::resource::sizing::windows_fit;
use crate::resource::steps::lemma_bar_step;
use crate::resource::steps::lemma_level_placed;
use crate::resource::steps::lemma_level_ready;
use crate::resource::steps::lemma_skip_step;
use crate::resource::steps::lemma_step_facts;
use crate::resource::steps::lemma_vf_step;
use crate::resource::steps::lemma_window_step;
use crate::resource::steps::level_ready;
use crate::resource::steps::progress;
use vstd::prelude::*;

verus! {

/// Sets the address of the BAR with the given index.
fn set_bar_address(bars: &mut Vec<DiscoveredBar>, bar_index: u8, addr: u64)
    requires
        distinct_bars(old(bars)@),
    ensures
        final(bars)@.len() == old(bars)@.len(),
        forall|j: int|
            #![trigger final(bars)@[j]]
            0 <= j < old(bars)@.len() ==> final(bars)@[j] == if old(bars)@[j].index == bar_index {
                DiscoveredBar { address: Some(addr), ..old(bars)@[j] }
            } else {
                old(bars)@[j]
            },
{
    let mut j: usize = 0;
    while j < bars.len()
        invariant
            j <= bars.len(),
            bars@ == old(bars)@,
            distinct_bars(bars@),
            forall|i: int| 0 <= i < j ==> (#[trigger] bars@[i]).index != bar_index,
        decreases bars.len() - j,
    {
        let mut bar: DiscoveredBar = bars[j];
        if bar.index == bar_index {
            bar.address = Some(addr);
            bars.set(j, bar);
            return;
        }
        j = j + 1;
    }
}

/// Top-down: assigns addresses to the devices of a level and to everything
/// behind them, from the given gaps. `alloc_64bit` selects the pool.
///
/// Demands with a fixed position are placed there; any other goes into the
/// first gap that fits. `demands` is the sorted demand list of the level.
pub fn assign_subtree(
    devices: &mut [DiscoveredDevice],
    demands: &Vec<Demand>,
    gaps: &mut Vec<(u64, u64)>,
    alloc_64bit: bool,
)
    requires
        tree_ok(old(devices)@),
        windows_fit(old(devices)@),
        states_ok(old(devices)@),
        old(devices)@.len() <= usize::MAX,
        demands@ == subtree_model(old(devices)@).demands,
        placeable(old(devices)@, alloc_64bit, old(gaps)@),
        unneeded_unset(old(devices)@, alloc_64bit),
    ensures
        tree_agrees(old(devices)@, final(devices)@, pool_scope(alloc_64bit)),
        placed(final(devices)@, alloc_64bit, old(gaps)@),
        unneeded_unset(final(devices)@, alloc_64bit),
        final(gaps)@ == gaps_after(old(gaps)@, demands@, alloc_64bit),
    decreases old(devices)@, 0int,
{
    let ghost before = devices@;
    let ghost gaps0 = gaps@;
    proof {
        lemma_level_ready(before, demands@, alloc_64bit, gaps0);
        assert(demands@.take(0) =~= Seq::<Demand>::empty());
    }
    let mut k: usize = 0;
    while k < demands.len()
        invariant
            k <= demands.len(),
            before == old(devices)@,
            gaps0 == old(gaps)@,
            devices@.len() == before.len(),
            level_ready(before, demands@, alloc_64bit, gaps0),
            progress(before, devices@, demands@, alloc_64bit, gaps0, k as int),
            gaps@ == gaps_after(gaps0, demands@.take(k as int), alloc_64bit),
        decreases demands.len() - k,
    {
        let d: Demand = demands[k];
        let ghost cur = devices@;
        let ghost ki = k as int;
        proof {
            assert(demands@.take(k + 1).drop_last() =~= demands@.take(k as int));
            assert(demands@.take(k + 1).last() == d);
        }
        if d.is_mem64() == alloc_64bit {
            proof {
                lemma_step_facts(before, cur, demands@, alloc_64bit, gaps0, ki);
            }
            let addr: u64 = match d.fixed_position() {
                Some((a, _)) => a,
                None => {
                    proof {
                        lemma_valid_align(d);
                    }
                    match allocate_from_gaps(gaps, d.size(), d.alignment()) {
                        Some(a) => a,
                        None => 0,
                    }
                },
            };
            assert(address_of(gaps0, demands@, alloc_64bit, ki) == Some(addr as int));
            match d {
                Demand::Bar { dev_idx, bar_index, .. } => {
                    let dev: &mut DiscoveredDevice = &mut devices[dev_idx];
                    set_bar_address(&mut dev.bars, bar_index, addr);
                    proof {
                        lemma_bar_step(
                            before,
                            cur,
                            devices@,
                            demands@,
                            alloc_64bit,
                            gaps0,
                            ki,
                            addr as int,
                        );
                    }
                },
                Demand::SriovVfBars { dev_idx, bar_index, .. } => {
                    let dev: &mut DiscoveredDevice = &mut devices[dev_idx];
                    if let Some(mut sriov) = dev.sriov.take() {
                        set_bar_address(&mut sriov.vf_bars, bar_index, addr);
                        dev.sriov = Some(sriov);
                    }
                    proof {
                        lemma_vf_step(
                            before,
                            cur,
                            devices@,
                            demands@,
                            alloc_64bit,
                            gaps0,
                            ki,
                            addr as int,
                        );
                    }
                },
                Demand::BridgeSubtree { dev_idx, size, .. } => {
                    assert(decreases_to!(old(devices)@ => old(devices)@[dev_idx as int].children@));
                    let dev: &mut DiscoveredDevice = &mut devices[dev_idx];
                    assign_bridge(dev, addr, size, alloc_64bit);
                    proof {
                        lemma_window_step(
                            before,
                            cur,
                            devices@,
                            demands@,
                            alloc_64bit,
                            gaps0,
                            ki,
                            addr as int,
                        );
                    }
                },
            }
        } else {
            proof {
                lemma_skip_step(before, devices@, demands@, alloc_64bit, gaps0, ki);
            }
        }
        k = k + 1;
    }
    proof {
        assert(demands@.take(k as int) =~= demands@);
        lemma_level_placed(before, devices@, demands@, alloc_64bit, gaps0);
    }
}

/// Sets the window of a bridge to the given range and assigns addresses to
/// everything behind it.
fn assign_bridge(dev: &mut DiscoveredDevice, addr: u64, size: u64, alloc_64bit: bool)
    requires
        size > 0,
        addr + size <= u64::MAX,
        old(dev).is_bridge,
        old(dev).subtree_req matches Some(req) && req.matches_model(
            subtree_model(old(dev).children@),
        ),
        tree_ok(old(dev).children@),
        windows_fit(old(dev).children@),
        states_ok(old(dev).children@),
        unneeded_unset(old(dev).children@, alloc_64bit),
        placeable(
            old(dev).children@,
            alloc_64bit,
            window_gaps(
                subtree_model(old(dev).children@),
                alloc_64bit,
                addr as int,
                size as int,
            ),
        ),
    ensures
        device_agrees(*old(dev), *final(dev), pool_scope(alloc_64bit)),
        tree_agrees(old(dev).children@, final(dev).children@, pool_scope(alloc_64bit)),
        final(dev).bars == old(dev).bars,
        final(dev).sriov == old(dev).sriov,
        final(dev).subtree_req matches Some(req) && window_of(req, alloc_64bit) == Some(
            (addr, (addr + size - 1) as u64),
        ),
        placed(
            final(dev).children@,
            alloc_64bit,
            window_gaps(
                subtree_model(old(dev).children@),
                alloc_64bit,
                addr as int,
                size as int,
            ),
        ),
        unneeded_unset(final(dev).children@, alloc_64bit),
    decreases old(dev).children@, 1int,
{
    let window_base: u64 = addr;
    let window_limit: u64 = addr + (size - 1);
    let ghost kids = dev.children@;
    if let Some(mut req) = dev.subtree_req.take() {
        let mut child_gaps: Vec<(u64, u64)>;
        if alloc_64bit {
            req.prefetchable_window = Some((window_base, window_limit));
            if req.constrained_base64.is_some() {
                child_gaps = copy_gaps(&req.gaps64);
            } else {
                child_gaps = Vec::new();
                child_gaps.push((window_base, window_limit + 1));
            }
        } else {
            req.memory_window = Some((window_base, window_limit));
            if req.constrained_base32.is_some() {
                child_gaps = copy_gaps(&req.gaps32);
            } else {
                child_gaps = Vec::new();
                child_gaps.push((window_base, window_limit + 1));
            }
        }
        assert(child_gaps@ =~= window_gaps(
            subtree_model(kids),
            alloc_64bit,
            addr as int,
            size as int,
        ));
        assert(dev.children.len() <= usize::MAX);
        assign_subtree(dev.children.as_mut_slice(), &req.demands, &mut child_gaps, alloc_64bit);
        dev.subtree_req = Some(req);
    }
}

}
