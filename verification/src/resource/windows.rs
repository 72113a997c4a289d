//! Bridge windows: what is assigned can be programmed and decoded.
use crate::cfg_space::type1::memory_window;
use crate::cfg_space::type1::prefetch_window;
use crate::cfg_space::type1::ConfigSpaceType1EmulatorState;
use crate::regs::COMMAND_MMIO_ENABLED;
use crate::resource::align::lemma_aligned_up;
use crate::resource::assign::assignments_valid;
use crate::resource::assign::device_valid;
use crate::resource::assign::root_gaps;
use crate::resource::assign::vfs_countable;
use crate::resource::demand::BRIDGE_WINDOW_ALIGN;
use crate::resource::device::device_ok;
use crate::resource::device::tree_ok;
use crate::resource::device::DiscoveredDevice;
use crate::resource::fit::lemma_child_suits;
use crate::resource::laws::law_assignments_valid;
use crate::resource::laws::settled;
use crate::resource::levels::lemma_sorted_cover;
use crate::resource::params::aperture_end;
use crate::resource::params::AssignmentParams;
use crate::resource::placement::address_of;
use crate::resource::placement::holds_address;
use crate::resource::placement::placed;
use crate::resource::placement::unneeded_unset;
use crate::resource::placement::window_gaps;
use crate::resource::placement::window_of;
use crate::resource::program::bridge_after;
use crate::resource::program::bridge_writes;
use crate::resource::program::is_granular;
use crate::resource::program::law_windows_programmed;
use crate::resource::program::windows;
use crate::resource::sizing::lemma_level_demands;
use crate::resource::sizing::lemma_sorted_valid;
use crate::resource::sizing::level_demands;
use crate::resource::sizing::subtree_model;
use crate::resource::sizing::window_demand;
use crate::resource::sizing::window_fits;
use crate::resource::sizing::windows_fit;
use crate::resource::sizing::PoolModel;
use crate::resource::tree::lemma_pool_positive;
use crate::resource::tree::lemma_window_place;
use vstd::prelude::*;

verus! {

/// Whether every window of the pool, here and behind each bridge, starts and ends
/// at multiples of the bridge granularity, and is as large as what is behind it needs,
/// rounded up to that.
pub open spec fn granular(devices: Seq<DiscoveredDevice>, mem64: bool) -> bool
    decreases devices,
{
    forall|i: int|
        #![trigger devices[i]]
        0 <= i < devices.len() && devices[i].is_bridge ==> {
            &&& devices[i].subtree_req is Some
            &&& is_granular(window_of(devices[i].subtree_req->0, mem64))
            &&& is_exact(devices[i], mem64)
            &&& granular(devices[i].children@, mem64)
        }
}

/// Whether the window of a bridge has the bytes that the pool behind it needs, in
/// whole megabytes and no more.
pub open spec fn is_exact(dev: DiscoveredDevice, mem64: bool) -> bool {
    window_of(dev.subtree_req->0, mem64) matches Some((base, limit)) ==> {
        let need = subtree_model(dev.children@).pool(mem64).mem;
        &&& need <= limit - base + 1 < need + 0x10_0000
        &&& (limit - base + 1) % 0x10_0000 == 0
    }
}

/// Behind a bridge that needs no bytes of a pool there is no window of it.
proof fn lemma_no_windows(devices: Seq<DiscoveredDevice>, mem64: bool)
    requires
        tree_ok(devices),
        windows_fit(devices),
        devices.len() <= usize::MAX,
        subtree_model(devices).pool(mem64).mem <= 0,
        unneeded_unset(devices, mem64),
    ensures
        granular(devices, mem64),
    decreases devices,
{
    let demands = subtree_model(devices).demands;
    lemma_sorted_cover(devices);
    lemma_level_demands(devices);
    lemma_sorted_valid(level_demands(devices));
    assert forall|i: int|
        #![trigger devices[i]]
        0 <= i < devices.len() && devices[i].is_bridge implies {
        &&& devices[i].subtree_req is Some
        &&& is_granular(window_of(devices[i].subtree_req->0, mem64))
        &&& is_exact(devices[i], mem64)
        &&& granular(devices[i].children@, mem64)
    } by {
        let kids = devices[i].children@;
        let c = subtree_model(kids);
        if c.pool(mem64).mem > 0 {
            let d = window_demand(c.pool(mem64), i, mem64)[0];
            assert(demands.contains(d));
            let k = choose|k: int| 0 <= k < demands.len() && demands[k] == d;
            lemma_pool_positive(demands, mem64, k);
        }
        assert(devices[i].children.len() <= usize::MAX);
        assert(device_ok(devices[i]) && tree_ok(kids));
        assert(decreases_to!(devices => devices[i].children@));
        lemma_no_windows(kids, mem64);
    }
}

/// A range of granules is granular.
proof fn lemma_granular_range(addr: int, size: int)
    requires
        0 <= addr,
        0 < size,
        addr + size <= u64::MAX,
        addr % (BRIDGE_WINDOW_ALIGN as int) == 0,
        size % (BRIDGE_WINDOW_ALIGN as int) == 0,
    ensures
        is_granular(Some((addr as u64, (addr + size - 1) as u64))),
{
    assert((addr + size) % 0x10_0000 == 0);
}

/// The demand of a window has the bytes that the pool needs, in whole megabytes.
proof fn lemma_window_size(pool: PoolModel, i: int, mem64: bool)
    requires
        window_fits(pool),
        pool.mem > 0,
    ensures
        ({
            let size = window_demand(pool, i, mem64)[0].bytes();
            &&& pool.mem <= size < pool.mem + 0x10_0000
            &&& size % 0x10_0000 == 0
        }),
{
    lemma_aligned_up(pool.mem, 0x10_0000);
}

/// Where the window of a bridge that is placed is, and how large.
#[verifier::rlimit(60)]
proof fn lemma_window_range(
    devices: Seq<DiscoveredDevice>,
    mem64: bool,
    gaps: Seq<(u64, u64)>,
    i: int,
) -> (addr: int)
    requires
        tree_ok(devices),
        windows_fit(devices),
        devices.len() <= usize::MAX,
        placed(devices, mem64, gaps),
        0 <= i < devices.len(),
        devices[i].is_bridge,
        subtree_model(devices[i].children@).pool(mem64).mem > 0,
    ensures
        ({
            let pool = subtree_model(devices[i].children@).pool(mem64);
            let size = window_demand(pool, i, mem64)[0].bytes();
            &&& window_of(devices[i].subtree_req->0, mem64) == Some(
                (addr as u64, (addr + size - 1) as u64),
            )
            &&& 0 <= addr
            &&& addr + size <= u64::MAX
            &&& size > 0
        }),
{
    lemma_sorted_cover(devices);
    let demands = subtree_model(devices).demands;
    let pool = subtree_model(devices[i].children@).pool(mem64);
    let d = window_demand(pool, i, mem64)[0];
    assert(demands.contains(d));
    let k = choose|k: int| 0 <= k < demands.len() && demands[k] == d;
    let addr = address_of(gaps, demands, mem64, k)->0;
    assert(holds_address(devices, demands[k], mem64, addr));
    lemma_child_suits(devices, mem64, gaps, k);
    addr
}

/// The window of a bridge that is placed has the bytes that the pool behind it needs, in
/// whole megabytes.
proof fn lemma_window_exact(
    devices: Seq<DiscoveredDevice>,
    mem64: bool,
    gaps: Seq<(u64, u64)>,
    i: int,
)
    requires
        tree_ok(devices),
        windows_fit(devices),
        devices.len() <= usize::MAX,
        placed(devices, mem64, gaps),
        0 <= i < devices.len(),
        devices[i].is_bridge,
        subtree_model(devices[i].children@).pool(mem64).mem > 0,
    ensures
        is_exact(devices[i], mem64),
{
    let pool = subtree_model(devices[i].children@).pool(mem64);
    assert(window_fits(pool));
    lemma_window_size(pool, i, mem64);
    let addr = lemma_window_range(devices, mem64, gaps, i);
}

/// The window of a bridge that is placed is granular. Gives the gaps of what is
/// behind it.
proof fn lemma_granular_window(
    devices: Seq<DiscoveredDevice>,
    mem64: bool,
    gaps: Seq<(u64, u64)>,
    i: int,
) -> (g: Seq<(u64, u64)>)
    requires
        tree_ok(devices),
        windows_fit(devices),
        devices.len() <= usize::MAX,
        placed(devices, mem64, gaps),
        0 <= i < devices.len(),
        devices[i].is_bridge,
        subtree_model(devices[i].children@).pool(mem64).mem > 0,
    ensures
        devices[i].subtree_req is Some,
        is_granular(window_of(devices[i].subtree_req->0, mem64)),
        is_exact(devices[i], mem64),
        windows_fit(devices[i].children@),
        placed(devices[i].children@, mem64, g),
{
    let kids = devices[i].children@;
    let demands = subtree_model(devices).demands;
    let k = lemma_window_place(devices, mem64, gaps, i);
    let addr = address_of(gaps, demands, mem64, k)->0;
    let size = demands[k].bytes();
    lemma_granular_range(addr, size);
    lemma_window_exact(devices, mem64, gaps, i);
    window_gaps(subtree_model(kids), mem64, addr, size)
}

/// The windows of what is placed are granular.
proof fn lemma_granular(devices: Seq<DiscoveredDevice>, mem64: bool, gaps: Seq<(u64, u64)>)
    requires
        tree_ok(devices),
        windows_fit(devices),
        devices.len() <= usize::MAX,
        placed(devices, mem64, gaps),
        unneeded_unset(devices, mem64),
    ensures
        granular(devices, mem64),
    decreases devices,
{
    assert forall|i: int|
        #![trigger devices[i]]
        0 <= i < devices.len() && devices[i].is_bridge implies {
        &&& devices[i].subtree_req is Some
        &&& is_granular(window_of(devices[i].subtree_req->0, mem64))
        &&& is_exact(devices[i], mem64)
        &&& granular(devices[i].children@, mem64)
    } by {
        let kids = devices[i].children@;
        assert(devices[i].children.len() <= usize::MAX);
        assert(device_ok(devices[i]) && tree_ok(kids));
        assert(decreases_to!(devices => devices[i].children@));
        if subtree_model(kids).pool(mem64).mem > 0 {
            let g = lemma_granular_window(devices, mem64, gaps, i);
            lemma_granular(kids, mem64, g);
        } else {
            lemma_no_windows(kids, mem64);
        }
    }
}

/// Every window starts and ends at multiples of the bridge granularity, and is as large
/// as what is behind it needs, rounded up to that.
pub proof fn law_windows_granular(
    devices: Seq<DiscoveredDevice>,
    params: AssignmentParams,
    mem64: bool,
)
    requires
        settled(devices, params),
    ensures
        granular(devices, mem64),
{
    let m = subtree_model(devices);
    if m.pool(mem64).mem > 0 {
        lemma_granular(devices, mem64, root_gaps(m, params, mem64));
    } else {
        lemma_no_windows(devices, mem64);
    }
}

/// Whether a bridge, once programmed, decodes the windows that it was assigned.
pub open spec fn decodes_windows(
    dev: DiscoveredDevice,
    state: ConfigSpaceType1EmulatorState,
) -> bool {
    let after = bridge_after(state, bridge_writes(dev));
    &&& memory_window(after, COMMAND_MMIO_ENABLED) == match windows(dev).0 {
        Some((base, limit)) => Some((base as u32, limit as u32)),
        None => None,
    }
    &&& prefetch_window(after, COMMAND_MMIO_ENABLED) == windows(dev).1
}

/// Whether every bridge of a tree, once programmed, decodes the windows that it was
/// assigned, whatever its registers held before.
pub open spec fn tree_decodes(devices: Seq<DiscoveredDevice>) -> bool
    decreases devices,
{
    forall|i: int|
        #![trigger devices[i]]
        0 <= i < devices.len() && devices[i].is_bridge ==> {
            &&& forall|state: ConfigSpaceType1EmulatorState| #[trigger]
                decodes_windows(devices[i], state)
            &&& tree_decodes(devices[i].children@)
        }
}

proof fn lemma_tree_decodes(devices: Seq<DiscoveredDevice>, params: AssignmentParams)
    requires
        granular(devices, false),
        granular(devices, true),
        assignments_valid(devices, params),
        params.low_mmio matches Some(a) ==> aperture_end(a) <= 0x1_0000_0000,
    ensures
        tree_decodes(devices),
    decreases devices,
{
    assert forall|i: int|
        #![trigger devices[i]]
        0 <= i < devices.len() && devices[i].is_bridge implies {
        &&& forall|state: ConfigSpaceType1EmulatorState| #[trigger]
            decodes_windows(devices[i], state)
        &&& tree_decodes(devices[i].children@)
    } by {
        assert(device_valid(devices[i], params));
        assert(decreases_to!(devices => devices[i].children@));
        lemma_tree_decodes(devices[i].children@, params);
        assert forall|state: ConfigSpaceType1EmulatorState| #[trigger]
            decodes_windows(devices[i], state) by {
            law_windows_programmed(devices[i], state);
        }
    }
}

/// After a successful assignment every emulated bridge decodes, once programmed,
/// the windows that it was assigned, as long as the low aperture ends below 4 GB.
pub proof fn law_assigned_windows_decoded(
    devices: Seq<DiscoveredDevice>,
    params: AssignmentParams,
)
    requires
        settled(devices, params),
        vfs_countable(devices),
        params.low_mmio matches Some(a) ==> aperture_end(a) <= 0x1_0000_0000,
    ensures
        tree_decodes(devices),
{
    law_windows_granular(devices, params, false);
    law_windows_granular(devices, params, true);
    law_assignments_valid(devices, params);
    lemma_tree_decodes(devices, params);
}

}
