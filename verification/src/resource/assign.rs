//! Address assignment for a whole device tree.
use crate::resource::align::align_up;
use crate::resource::align::aligned_up;
use crate::resource::align::lemma_aligned_up;
use crate::resource::complete::has_room;
use crate::resource::complete::lemma_outcome;
use crate::resource::demand::demands_valid;
use crate::resource::demand::Demand;
use crate::resource::device::bar_mem64;
use crate::resource::device::full_scope;
use crate::resource::device::lemma_tree_agrees_trans;
use crate::resource::device::lemma_tree_agrees_widen;
use crate::resource::device::lemma_tree_ok_agrees;
use crate::resource::device::mem64_kind;
use crate::resource::device::pool_scope;
use crate::resource::device::sizing_scope;
use crate::resource::device::tree_agrees;
use crate::resource::device::tree_ok;
use crate::resource::device::DiscoveredBar;
use crate::resource::device::DiscoveredDevice;
use crate::resource::device::Scope;
use crate::resource::device::SubtreeState;
use crate::resource::fit::gaps_suit;
use crate::resource::fit::lemma_placeable;
use crate::resource::fit::level_settles;
use crate::resource::laws::law_assignments_valid;
use crate::resource::laws::settled;
use crate::resource::params::aperture_end;
use crate::resource::params::in_aperture;
use crate::resource::params::params_ok;
use crate::resource::params::pool_aperture;
use crate::resource::params::range_in_aperture;
use crate::resource::params::select_aperture;
use crate::resource::params::AssignmentError;
use crate::resource::params::AssignmentParams;
use crate::resource::params::MmioAperture;
use crate::resource::pinned::pinned_bars;
use crate::resource::pinned::pinned_error;
use crate::resource::pinned::validate_pinned_bars;
use crate::resource::placement::lemma_placed_other;
use crate::resource::placement::lemma_states_agree;
use crate::resource::placement::lemma_unset;
use crate::resource::placement::lemma_unset_other;
use crate::resource::placement::lemma_windows_fit_agree;
use crate::resource::placement::placed;
use crate::resource::placement::settles;
use crate::resource::placement::unneeded_unset;
use crate::resource::sizing::compute_subtree_state;
use crate::resource::sizing::lemma_level_demands;
use crate::resource::sizing::lemma_pool_model;
use crate::resource::sizing::lemma_sorted_valid;
use crate::resource::sizing::lemma_subtree_model_agrees;
use crate::resource::sizing::level_demands;
use crate::resource::sizing::sizes_fit;
use crate::resource::sizing::states_ok;
use crate::resource::sizing::subtree_model;
use crate::resource::sizing::windows_fit;
use crate::resource::sizing::SubtreeModel;
use crate::resource::subtree::assign_subtree;
use vstd::prelude::*;

verus! {

/// Where the pool's range starts at the root: where its pinned demands say, or
/// else at the first suitable address of the aperture. A mem64 pool that
/// shares the aperture starts behind the mem32 pool.
pub open spec fn root_base(m: SubtreeModel, params: AssignmentParams, mem64: bool) -> int {
    match m.pool(mem64).base {
        Some(base) => base as int,
        None => if mem64 && params.high_mmio is None && m.pool32.mem > 0 {
            aligned_up(root_base32(m, params) + m.pool32.mem, m.pool64.align)
        } else {
            aligned_up(pool_aperture(params, mem64)->0.base as int, m.pool(mem64).align)
        },
    }
}

/// Where the mem32 range starts at the root.
pub open spec fn root_base32(m: SubtreeModel, params: AssignmentParams) -> int {
    match m.pool32.base {
        Some(base) => base as int,
        None => aligned_up(params.low_mmio->0.base as int, m.pool32.align),
    }
}

/// The name of a pool's aperture.
pub open spec fn aperture_name(mem64: bool) -> &'static str {
    if mem64 {
        "high_mmio"
    } else {
        "low_mmio"
    }
}

/// How many bytes the aperture has from `base` on.
pub open spec fn room(a: MmioAperture, base: int) -> int {
    if base <= aperture_end(a) {
        aperture_end(a) - base
    } else {
        0
    }
}

/// The error for a pool that does not fit its aperture, if it does not.
pub open spec fn pool_error(m: SubtreeModel, params: AssignmentParams, mem64: bool) -> Option<
    AssignmentError,
> {
    if m.pool(mem64).mem <= 0 {
        None
    } else {
        match pool_aperture(params, mem64) {
            None => Some(
                AssignmentError::MmioExhaustion {
                    required: m.pool(mem64).mem as u64,
                    available: 0,
                    aperture: aperture_name(mem64),
                },
            ),
            Some(a) => if m.pool(mem64).mem > room(a, root_base(m, params, mem64)) {
                Some(
                    AssignmentError::MmioExhaustion {
                        required: m.pool(mem64).mem as u64,
                        available: room(a, root_base(m, params, mem64)) as u64,
                        aperture: aperture_name(mem64),
                    },
                )
            } else {
                None
            },
        }
    }
}

/// The error for a range that starts at a pinned base if its demands do not all
/// get addresses in the aperture.
pub open spec fn below_floor(
    base: Option<u64>,
    gaps: Seq<(u64, u64)>,
    demands: Seq<Demand>,
    mem64: bool,
    a: MmioAperture,
) -> Option<AssignmentError> {
    match base {
        Some(base) => if settles(gaps, demands, mem64, a.base as int) {
            None
        } else {
            Some(
                AssignmentError::PinnedRangeBelowAperture {
                    range_base: base,
                    aperture_base: a.base,
                    aperture: aperture_name(mem64),
                },
            )
        },
        None => None,
    }
}

/// The error for a pool of which something would be placed below its aperture, if
/// there is anything.
pub open spec fn floor_error(m: SubtreeModel, params: AssignmentParams, mem64: bool) -> Option<
    AssignmentError,
> {
    match pool_aperture(params, mem64) {
        Some(a) if m.pool(mem64).mem > 0 => below_floor(
            m.pool(mem64).base,
            m.pool(mem64).gaps,
            m.demands,
            mem64,
            a,
        ),
        _ => None,
    }
}

/// The error of the whole assignment, if there is one: pinned BARs come first,
/// then the size of the mem32 pool and of the mem64 pool, then what would be
/// placed below an aperture.
pub open spec fn assign_error(
    devices: Seq<DiscoveredDevice>,
    params: AssignmentParams,
) -> Option<AssignmentError> {
    match pinned_error(pinned_bars(devices), params) {
        Some(e) => Some(e),
        None => match pool_error(subtree_model(devices), params, false) {
            Some(e) => Some(e),
            None => match pool_error(subtree_model(devices), params, true) {
                Some(e) => Some(e),
                None => match floor_error(subtree_model(devices), params, false) {
                    Some(e) => Some(e),
                    None => floor_error(subtree_model(devices), params, true),
                },
            },
        },
    }
}

/// The gaps that the root level of a pool is placed into.
pub open spec fn root_gaps(m: SubtreeModel, params: AssignmentParams, mem64: bool) -> Seq<
    (u64, u64),
> {
    match m.pool(mem64).base {
        Some(_) => m.pool(mem64).gaps,
        None => seq![
            (
                root_base(m, params, mem64) as u64,
                aperture_end(pool_aperture(params, mem64)->0) as u64,
            ),
        ],
    }
}

/// Whether the start of a pool's range can be counted, where it is looked for.
pub open spec fn root_fits(m: SubtreeModel, params: AssignmentParams, mem64: bool) -> bool {
    m.pool(mem64).mem > 0 && pool_aperture(params, mem64) is Some ==> root_base(m, params, mem64)
        <= u64::MAX
}

/// Whether the VF BARs of each PF can be counted, here and behind each bridge.
pub open spec fn vfs_countable(devices: Seq<DiscoveredDevice>) -> bool
    decreases devices,
{
    forall|i: int|
        #![trigger devices[i]]
        0 <= i < devices.len() ==> {
            &&& devices[i].sriov is Some ==> forall|j: int|
                #![trigger devices[i].sriov->0.vf_bars@[j]]
                0 <= j < devices[i].sriov->0.vf_bars@.len() ==> devices[i].sriov->0.vf_bars@[j].size
                    * devices[i].sriov->0.total_vfs <= u64::MAX
            &&& vfs_countable(devices[i].children@)
        }
}

/// Whether an assignment can be worked out, with success or an error: the tree is
/// in order, and every number that comes up can be counted.
pub open spec fn assignable(devices: Seq<DiscoveredDevice>, params: AssignmentParams) -> bool {
    let m = subtree_model(devices);
    let pinned_ok = pinned_error(pinned_bars(devices), params) is None;
    &&& tree_ok(devices)
    &&& sizes_fit(devices)
    &&& params_ok(params)
    &&& pinned_ok ==> root_fits(m, params, false)
    &&& pinned_ok && pool_error(m, params, false) is None ==> root_fits(m, params, true)
    &&& assign_error(devices, params) is None ==> vfs_countable(devices)
}

/// What holds of the devices of a level once the assignment has been made: each
/// BAR and VF BAR lies in an aperture, each window too, and the windows of
/// children lie within those of their parent.
pub open spec fn assignments_valid(
    devices: Seq<DiscoveredDevice>,
    params: AssignmentParams,
) -> bool
    decreases devices,
{
    forall|i: int|
        #![trigger devices[i]]
        0 <= i < devices.len() ==> {
            &&& device_valid(devices[i], params)
            &&& assignments_valid(devices[i].children@, params)
        }
}

/// Whether a range lies in one of the apertures.
pub open spec fn in_some_aperture(params: AssignmentParams, addr: int, size: int) -> bool {
    in_aperture(params.low_mmio, addr, size) || in_aperture(params.high_mmio, addr, size)
}

/// Whether the addresses and windows of one device are valid.
pub open spec fn device_valid(dev: DiscoveredDevice, params: AssignmentParams) -> bool {
    &&& forall|j: int|
        #![trigger dev.bars@[j]]
        0 <= j < dev.bars@.len() ==> (dev.bars@[j].address matches Some(a) && in_some_aperture(
            params,
            a as int,
            dev.bars@[j].size as int,
        ))
    &&& dev.sriov is Some ==> forall|j: int|
        #![trigger dev.sriov->0.vf_bars@[j]]
        0 <= j < dev.sriov->0.vf_bars@.len() ==> (
        dev.sriov->0.vf_bars@[j].address matches Some(a) && in_some_aperture(
            params,
            a as int,
            dev.sriov->0.vf_bars@[j].size * dev.sriov->0.total_vfs,
        ))
    &&& dev.subtree_req is Some ==> {
        &&& dev.subtree_req->0.memory_window matches Some((base, limit)) ==> base <= limit
            && in_aperture(params.low_mmio, base as int, limit - base + 1)
        &&& dev.subtree_req->0.prefetchable_window matches Some((base, limit)) ==> base <= limit
            && in_some_aperture(params, base as int, limit - base + 1)
        &&& forall|c: int|
            #![trigger dev.children@[c]]
            0 <= c < dev.children@.len() && dev.children@[c].subtree_req is Some ==> {
                &&& window_nested(
                    dev.children@[c].subtree_req->0.memory_window,
                    dev.subtree_req->0.memory_window,
                )
                &&& window_nested(
                    dev.children@[c].subtree_req->0.prefetchable_window,
                    dev.subtree_req->0.prefetchable_window,
                )
            }
    }
}

/// Whether one window lies within another, if there are two.
pub open spec fn window_nested(child: Option<(u64, u64)>, parent: Option<(u64, u64)>) -> bool {
    match (child, parent) {
        (Some((cb, cl)), Some((pb, pl))) => pb <= cb && cl <= pl,
        _ => true,
    }
}

/// The effect of a successful assignment.
pub open spec fn assigned(
    devices: Seq<DiscoveredDevice>,
    params: AssignmentParams,
) -> bool {
    let m = subtree_model(devices);
    &&& m.pool32.mem > 0 ==> placed(devices, false, root_gaps(m, params, false))
    &&& m.pool64.mem > 0 ==> placed(devices, true, root_gaps(m, params, true))
    &&& unneeded_unset(devices, false)
    &&& unneeded_unset(devices, true)
    &&& states_ok(devices)
}

pub proof fn lemma_root_suits(
    devices: Seq<DiscoveredDevice>,
    params: AssignmentParams,
    mem64: bool,
)
    requires
        tree_ok(devices),
        sizes_fit(devices),
        devices.len() <= usize::MAX,
        params_ok(params),
        subtree_model(devices).pool(mem64).mem > 0,
        pool_error(subtree_model(devices), params, mem64) is None,
    ensures
        pool_aperture(params, mem64) is Some,
        ({
            let m = subtree_model(devices);
            let a = pool_aperture(params, mem64)->0;
            let base = root_base(m, params, mem64);
            &&& 0 <= base
            &&& base + m.pool(mem64).mem <= aperture_end(a)
            &&& gaps_suit(
                devices,
                mem64,
                root_gaps(m, params, mem64),
                base,
                aperture_end(a),
            )
        }),
{
    let m = subtree_model(devices);
    lemma_level_demands(devices);
    lemma_sorted_valid(level_demands(devices));
    lemma_pool_model(m.demands, false);
    lemma_pool_model(m.demands, true);
    let a = pool_aperture(params, mem64)->0;
    lemma_aligned_up(a.base as int, m.pool(mem64).align);
    if m.pool(mem64).base is None && mem64 && params.high_mmio is None && m.pool32.mem > 0 {
        lemma_aligned_up(params.low_mmio->0.base as int, m.pool32.align);
        lemma_aligned_up(root_base32(m, params) + m.pool32.mem, m.pool64.align);
        if m.pool32.base is Some {
            assert(root_base32(m, params) >= 0);
        }
    }
}

/// Returns the error for a range that starts at a pinned base, if its demands do
/// not all get addresses in the aperture.
pub(crate) fn check_floor(
    base: Option<u64>,
    gaps: &Vec<(u64, u64)>,
    demands: &Vec<Demand>,
    mem64: bool,
    a: MmioAperture,
) -> (r: Option<AssignmentError>)
    requires
        demands_valid(demands@),
    ensures
        r == below_floor(base, gaps@, demands@, mem64, a),
{
    match base {
        Some(range_base) => if level_settles(gaps, demands, mem64, a.base) {
            None
        } else {
            Some(
                AssignmentError::PinnedRangeBelowAperture {
                    range_base,
                    aperture_base: a.base,
                    aperture: if mem64 {
                        "high_mmio"
                    } else {
                        "low_mmio"
                    },
                },
            )
        },
        None => None,
    }
}

/// Assigns addresses to all devices of a tree and windows to its bridges.
///
/// BARs are split into two pools: 64-bit prefetchable ones (mem64) use the
/// prefetchable bridge windows and the high aperture, all others (mem32) the
/// non-prefetchable windows and the low aperture. Each bridge's needs are
/// summed up first; then each level takes its demands out of the range that it
/// has, those with the largest alignment first.
#[verifier::rlimit(40)]
pub fn assign_addresses(devices: &mut [DiscoveredDevice], params: &AssignmentParams) -> (r: Result<
    (),
    AssignmentError,
>)
    requires
        assignable(old(devices)@, *params),
    ensures
        match assign_error(old(devices)@, *params) {
            Some(e) => r == Err::<(), AssignmentError>(e),
            None => r is Ok,
        },
        has_room(old(devices)@, *params) ==> r is Ok,
        r matches Err(AssignmentError::MmioExhaustion { required, available, .. }) ==> required
            > available,
        r is Ok ==> settled(final(devices)@, *params) && vfs_countable(final(devices)@),
        r is Ok ==> assignments_valid(final(devices)@, *params),
        r is Ok ==> tree_agrees(old(devices)@, final(devices)@, full_scope()),
        r is Err ==> tree_agrees(
            old(devices)@,
            final(devices)@,
            (Scope {
                mem32: pinned_error(pinned_bars(old(devices)@), *params) is None && pool_error(
                    subtree_model(old(devices)@),
                    *params,
                    false,
                ) is None,
                mem64: pinned_error(pinned_bars(old(devices)@), *params) is None && pool_error(
                    subtree_model(old(devices)@),
                    *params,
                    false,
                ) is None && pool_error(subtree_model(old(devices)@), *params, true) is None,
                sizing: true,
            }),
        ),
{
    let ghost before = devices@;
    let ghost m = subtree_model(before);
    assert(devices.len() <= usize::MAX);
    let mut root: SubtreeState = compute_subtree_state(devices);
    let ghost sized = devices@;
    let ghost base_scope = sizing_scope();
    proof {
        lemma_subtree_model_agrees(before, sized, base_scope);
        lemma_tree_ok_agrees(before, sized, base_scope);
        lemma_windows_fit_agree(before, sized, base_scope);
        lemma_pinned_agree(before, sized, base_scope);
        lemma_unset(sized, false);
        lemma_unset(sized, true);
        lemma_level_demands(before);
        lemma_sorted_valid(level_demands(before));
        lemma_pool_model(m.demands, false);
        lemma_pool_model(m.demands, true);
        lemma_outcome(before, *params);
    }
    if let Err(e) = validate_pinned_bars(devices, params) {
        return Err(e);
    }
    let mut mem32_end: Option<u64> = None;
    let mut floor32: Option<AssignmentError> = None;
    let mut floor64: Option<AssignmentError> = None;
    if root.mem32 > 0 {
        // 32-bit BARs and non-prefetchable windows have to be below 4 GB, so
        // the high aperture is no substitute.
        let aperture: MmioAperture = match params.low_mmio {
            Some(a) => a,
            None => {
                return Err(
                    AssignmentError::MmioExhaustion {
                        required: root.mem32,
                        available: 0,
                        aperture: "low_mmio",
                    },
                );
            },
        };
        let base: u64 = match root.constrained_base32 {
            Some(b) => b,
            None => align_up(aperture.base, root.align32),
        };
        assert(base == root_base(m, *params, false));
        let end: u64 = aperture.base + aperture.len;
        let available: u64 = if base <= end {
            end - base
        } else {
            0
        };
        if root.mem32 > available {
            return Err(
                AssignmentError::MmioExhaustion {
                    required: root.mem32,
                    available,
                    aperture: "low_mmio",
                },
            );
        }
        floor32 = check_floor(
            root.constrained_base32,
            &root.gaps32,
            &root.demands,
            false,
            aperture,
        );
        if root.constrained_base32.is_none() {
            root.gaps32.push((base, end));
        }
        proof {
            lemma_root_suits(before, *params, false);
            assert(root.gaps32@ =~= root_gaps(m, *params, false));
            lemma_placeable_root(before, sized, *params, false);
        }
        assign_subtree(devices, &root.demands, &mut root.gaps32, false);
        mem32_end = Some(base + root.mem32);
        proof {
            lemma_states_agree(sized, devices@, false);
            lemma_tree_ok_agrees(sized, devices@, pool_scope(false));
            lemma_windows_fit_agree(sized, devices@, pool_scope(false));
            lemma_unset_other(sized, devices@, false);
            lemma_subtree_model_agrees(sized, devices@, pool_scope(false));
        }
    }
    let ghost mid = devices@;
    let ghost mid_scope = Scope { mem32: true, mem64: false, sizing: true };
    proof {
        if m.pool32.mem > 0 {
            lemma_tree_agrees_widen(before, sized, base_scope, mid_scope);
            lemma_tree_agrees_widen(sized, mid, pool_scope(false), mid_scope);
            lemma_tree_agrees_trans(before, sized, mid, mid_scope);
        } else {
            lemma_tree_agrees_widen(before, sized, base_scope, mid_scope);
        }
        assert(subtree_model(mid) == m);
        assert(mid.len() == before.len());
    }
    if root.mem64 > 0 {
        let aperture: MmioAperture = match select_aperture(params, true) {
            Some(a) => a,
            None => {
                return Err(
                    AssignmentError::MmioExhaustion {
                        required: root.mem64,
                        available: 0,
                        aperture: "high_mmio",
                    },
                );
            },
        };
        let base: u64 = match root.constrained_base64 {
            Some(b) => b,
            None => {
                let shared: bool = params.high_mmio.is_none();
                match mem32_end {
                    Some(e) if shared => align_up(e, root.align64),
                    _ => align_up(aperture.base, root.align64),
                }
            },
        };
        assert(base == root_base(m, *params, true));
        let end: u64 = aperture.base + aperture.len;
        let available: u64 = if base <= end {
            end - base
        } else {
            0
        };
        if root.mem64 > available {
            return Err(
                AssignmentError::MmioExhaustion {
                    required: root.mem64,
                    available,
                    aperture: "high_mmio",
                },
            );
        }
        floor64 = check_floor(
            root.constrained_base64,
            &root.gaps64,
            &root.demands,
            true,
            aperture,
        );
        if root.constrained_base64.is_none() {
            root.gaps64.push((base, end));
        }
        proof {
            lemma_root_suits(before, *params, true);
            assert(root.gaps64@ =~= root_gaps(m, *params, true));
            lemma_placeable_root(before, mid, *params, true);
        }
        assign_subtree(devices, &root.demands, &mut root.gaps64, true);
        proof {
            lemma_states_agree(mid, devices@, true);
            lemma_unset_other(mid, devices@, true);
            lemma_subtree_model_agrees(mid, devices@, pool_scope(true));
            if m.pool32.mem > 0 {
                lemma_placed_other(mid, devices@, true, root_gaps(m, *params, false));
            }
            lemma_tree_agrees_widen(before, mid, mid_scope, full_scope());
            lemma_tree_agrees_widen(mid, devices@, pool_scope(true), full_scope());
            lemma_tree_agrees_trans(before, mid, devices@, full_scope());
        }
    } else {
        proof {
            lemma_tree_agrees_widen(before, mid, mid_scope, full_scope());
        }
    }
    assert(floor32 == floor_error(m, *params, false));
    assert(floor64 == floor_error(m, *params, true));
    if let Some(e) = floor32 {
        return Err(e);
    }
    if let Some(e) = floor64 {
        return Err(e);
    }
    proof {
        lemma_settled_agrees(before, devices@, *params);
        law_assignments_valid(devices@, *params);
    }
    Ok(())
}

/// Whether the assignment can be made depends on nothing that it changes.
proof fn lemma_settled_agrees(
    a: Seq<DiscoveredDevice>,
    b: Seq<DiscoveredDevice>,
    params: AssignmentParams,
)
    requires
        tree_agrees(a, b, full_scope()),
        tree_ok(a),
        sizes_fit(a),
        a.len() <= usize::MAX,
        params_ok(params),
        assign_error(a, params) is None,
        vfs_countable(a),
        assigned(b, params),
    ensures
        settled(b, params),
        vfs_countable(b),
{
    let s = full_scope();
    lemma_tree_ok_agrees(a, b, s);
    lemma_subtree_model_agrees(a, b, s);
    lemma_windows_fit_agree(a, b, s);
    lemma_pinned_agree(a, b, s);
    lemma_vfs_agree(a, b, s);
}

proof fn lemma_vfs_agree(a: Seq<DiscoveredDevice>, b: Seq<DiscoveredDevice>, s: Scope)
    requires
        tree_agrees(a, b, s),
        vfs_countable(a),
    ensures
        vfs_countable(b),
    decreases a,
{
    assert forall|i: int| #![trigger b[i]] 0 <= i < b.len() implies {
        &&& b[i].sriov is Some ==> forall|j: int|
            #![trigger b[i].sriov->0.vf_bars@[j]]
            0 <= j < b[i].sriov->0.vf_bars@.len() ==> b[i].sriov->0.vf_bars@[j].size
                * b[i].sriov->0.total_vfs <= u64::MAX
        &&& vfs_countable(b[i].children@)
    } by {
        assert(crate::resource::device::device_agrees(a[i], b[i], s));
        assert(tree_agrees(a[i].children@, b[i].children@, s));
        lemma_vfs_agree(a[i].children@, b[i].children@, s);
        if b[i].sriov is Some {
            let x = a[i].sriov->0;
            let y = b[i].sriov->0;
            assert forall|j: int|
                #![trigger b[i].sriov->0.vf_bars@[j]]
                0 <= j < b[i].sriov->0.vf_bars@.len() implies b[i].sriov->0.vf_bars@[j].size
                * b[i].sriov->0.total_vfs <= u64::MAX by {
                assert(crate::resource::device::bar_agrees(
                    x.vf_bars@[j],
                    y.vf_bars@[j],
                    mem64_kind(x.vf_bars@[j]),
                    s,
                ));
                let u = crate::resource::device::bar_shape(x.vf_bars@[j]);
                let v = crate::resource::device::bar_shape(y.vf_bars@[j]);
                assert(u.size == v.size);
                assert(a[i].sriov->0.vf_bars@[j].size * a[i].sriov->0.total_vfs <= u64::MAX);
            }
        }
    }
}

/// Returns whether a range lies in one of the apertures.
pub fn assert_bar_in_aperture(address: u64, size: u64, params: &AssignmentParams) -> (r: bool)
    requires
        params_ok(*params),
        address + size <= u64::MAX,
    ensures
        r == in_some_aperture(*params, address as int, size as int),
{
    range_in_aperture(params.low_mmio, address, size) || range_in_aperture(
        params.high_mmio,
        address,
        size,
    )
}

fn window_inside(child: Option<(u64, u64)>, parent: Option<(u64, u64)>) -> (r: bool)
    ensures
        r == window_nested(child, parent),
{
    match (child, parent) {
        (Some((cb, cl)), Some((pb, pl))) => pb <= cb && cl <= pl,
        _ => true,
    }
}

/// Returns whether a set address has its range in one of the apertures.
fn address_valid(address: Option<u64>, size: Option<u64>, params: &AssignmentParams) -> (r: bool)
    requires
        params_ok(*params),
    ensures
        r <==> (address matches Some(a) && size matches Some(s) && in_some_aperture(
            *params,
            a as int,
            s as int,
        )),
{
    match (address, size) {
        (Some(a), Some(s)) => match a.checked_add(s) {
            Some(_) => assert_bar_in_aperture(a, s, params),
            None => false,
        },
        _ => false,
    }
}

fn window_valid(window: Option<(u64, u64)>, a: Option<MmioAperture>, b: Option<MmioAperture>) -> (r:
    bool)
    requires
        a matches Some(x) ==> aperture_end(x) <= u64::MAX,
        b matches Some(x) ==> aperture_end(x) <= u64::MAX,
    ensures
        r <==> (window matches Some((base, limit)) ==> base <= limit && (in_aperture(
            a,
            base as int,
            limit - base + 1,
        ) || in_aperture(b, base as int, limit - base + 1))),
{
    match window {
        Some((base, limit)) => {
            if base > limit || limit == u64::MAX {
                return false;
            }
            let size: u64 = limit - base + 1;
            range_in_aperture(a, base, size) || range_in_aperture(b, base, size)
        },
        None => true,
    }
}

fn validate_device(dev: &DiscoveredDevice, params: &AssignmentParams) -> (ok: bool)
    requires
        params_ok(*params),
    ensures
        ok == device_valid(*dev, *params),
{
    let mut j: usize = 0;
    while j < dev.bars.len()
        invariant
            j <= dev.bars@.len(),
            params_ok(*params),
            forall|x: int|
                #![trigger dev.bars@[x]]
                0 <= x < j ==> (dev.bars@[x].address matches Some(a) && in_some_aperture(
                    *params,
                    a as int,
                    dev.bars@[x].size as int,
                )),
        decreases dev.bars@.len() - j,
    {
        if !address_valid(dev.bars[j].address, Some(dev.bars[j].size), params) {
            assert(!(dev.bars@[j as int].address matches Some(a) && in_some_aperture(
                *params,
                a as int,
                dev.bars@[j as int].size as int,
            )));
            return false;
        }
        j = j + 1;
    }
    if let Some(sriov) = &dev.sriov {
        let mut v: usize = 0;
        while v < sriov.vf_bars.len()
            invariant
                v <= sriov.vf_bars@.len(),
                params_ok(*params),
                dev.sriov == Some(*sriov),
                forall|x: int|
                    #![trigger dev.sriov->0.vf_bars@[x]]
                    0 <= x < v ==> (
                    dev.sriov->0.vf_bars@[x].address matches Some(a) && in_some_aperture(
                        *params,
                        a as int,
                        dev.sriov->0.vf_bars@[x].size * dev.sriov->0.total_vfs,
                    )),
            decreases sriov.vf_bars@.len() - v,
        {
            let bar: DiscoveredBar = sriov.vf_bars[v];
            let total: Option<u64> = bar.size.checked_mul(sriov.total_vfs as u64);
            if !address_valid(bar.address, total, params) {
                assert(!(dev.sriov->0.vf_bars@[v as int].address matches Some(a)
                    && in_some_aperture(
                    *params,
                    a as int,
                    dev.sriov->0.vf_bars@[v as int].size * dev.sriov->0.total_vfs,
                )));
                return false;
            }
            v = v + 1;
        }
    }
    if let Some(req) = &dev.subtree_req {
        if !window_valid(req.memory_window, params.low_mmio, None) {
            return false;
        }
        if !window_valid(req.prefetchable_window, params.low_mmio, params.high_mmio) {
            return false;
        }
        let mut c: usize = 0;
        while c < dev.children.len()
            invariant
                c <= dev.children@.len(),
                dev.subtree_req == Some(*req),
                forall|x: int|
                    #![trigger dev.children@[x]]
                    0 <= x < c && dev.children@[x].subtree_req is Some ==> {
                        &&& window_nested(
                            dev.children@[x].subtree_req->0.memory_window,
                            req.memory_window,
                        )
                        &&& window_nested(
                            dev.children@[x].subtree_req->0.prefetchable_window,
                            req.prefetchable_window,
                        )
                    },
            decreases dev.children@.len() - c,
        {
            if let Some(child) = &dev.children[c].subtree_req {
                if !window_inside(child.memory_window, req.memory_window) || !window_inside(
                    child.prefetchable_window,
                    req.prefetchable_window,
                ) {
                    assert(dev.children@[c as int].subtree_req is Some);
                    return false;
                }
            }
            c = c + 1;
        }
    }
    true
}

/// Checks that all addresses and windows lie in the apertures, and child
/// windows within those of their parents.
pub fn validate_assignments(devices: &[DiscoveredDevice], params: &AssignmentParams) -> (ok: bool)
    requires
        params_ok(*params),
    ensures
        ok == assignments_valid(devices@, *params),
    decreases devices@,
{
    let mut i: usize = 0;
    while i < devices.len()
        invariant
            i <= devices@.len(),
            params_ok(*params),
            forall|x: int|
                #![trigger devices@[x]]
                0 <= x < i ==> device_valid(devices@[x], *params) && assignments_valid(
                    devices@[x].children@,
                    *params,
                ),
        decreases devices@.len() - i,
    {
        assert(decreases_to!(devices@ => devices@[i as int].children@));
        if !validate_device(&devices[i], params) || !validate_assignments(
            devices[i].children.as_slice(),
            params,
        ) {
            assert(!(device_valid(devices@[i as int], *params) && assignments_valid(
                devices@[i as int].children@,
                *params,
            )));
            return false;
        }
        i = i + 1;
    }
    true
}

/// The pinned BARs are the same whatever the assignment changes.
proof fn lemma_pinned_agree(a: Seq<DiscoveredDevice>, b: Seq<DiscoveredDevice>, s: Scope)
    requires
        tree_agrees(a, b, s),
    ensures
        pinned_bars(a) == pinned_bars(b),
    decreases a,
{
    if a.len() > 0 {
        let n = a.len() - 1;
        let (x, y) = (a.drop_last(), b.drop_last());
        assert(tree_agrees(x, y, s)) by {
            assert forall|i: int|
                #![trigger x[i]]
                0 <= i < x.len() implies crate::resource::device::device_agrees(x[i], y[i], s)
                && tree_agrees(x[i].children@, y[i].children@, s) by {
                assert(x[i] == a[i] && y[i] == b[i]);
            }
        }
        lemma_pinned_agree(x, y, s);
        assert(crate::resource::device::device_agrees(a[n], b[n], s));
        assert(decreases_to!(a => a[n].children@));
        lemma_pinned_agree(a[n].children@, b[n].children@, s);
        lemma_own_pinned_agree(a[n], b[n], a[n].bars@, b[n].bars@, s);
    }
}

proof fn lemma_own_pinned_agree(
    a: DiscoveredDevice,
    b: DiscoveredDevice,
    x: Seq<DiscoveredBar>,
    y: Seq<DiscoveredBar>,
    s: Scope,
)
    requires
        a.bus == b.bus,
        a.device == b.device,
        a.function == b.function,
        crate::resource::device::bars_agree(x, y, s),
    ensures
        crate::resource::pinned::own_pinned(a, x) == crate::resource::pinned::own_pinned(b, y),
    decreases x.len(),
{
    if x.len() > 0 {
        let n = x.len() - 1;
        let (p, q) = (x.drop_last(), y.drop_last());
        assert forall|j: int|
            #![trigger p[j]]
            0 <= j < p.len() implies crate::resource::device::bar_agrees(
            p[j],
            q[j],
            bar_mem64(p[j]),
            s,
        ) by {
            assert(p[j] == x[j] && q[j] == y[j]);
        }
        lemma_own_pinned_agree(a, b, p, q, s);
        assert(crate::resource::device::bar_agrees(x[n], y[n], bar_mem64(x[n]), s));
        let u = crate::resource::device::bar_shape(x[n]);
        let v = crate::resource::device::bar_shape(y[n]);
        assert(u.index == v.index && u.size == v.size && u.is_64bit == v.is_64bit
            && u.is_prefetchable == v.is_prefetchable && u.pinned_address == v.pinned_address);
    }
}

proof fn lemma_placeable_root(
    before: Seq<DiscoveredDevice>,
    cur: Seq<DiscoveredDevice>,
    params: AssignmentParams,
    mem64: bool,
)
    requires
        tree_ok(cur),
        windows_fit(cur),
        before.len() <= usize::MAX,
        exists|s: Scope| tree_agrees(before, cur, s),
        subtree_model(before).pool(mem64).mem > 0,
        gaps_suit(
            before,
            mem64,
            root_gaps(subtree_model(before), params, mem64),
            root_base(subtree_model(before), params, mem64),
            aperture_end(pool_aperture(params, mem64)->0),
        ),
    ensures
        crate::resource::placement::placeable(
            cur,
            mem64,
            root_gaps(subtree_model(before), params, mem64),
        ),
{
    let s = choose|s: Scope| tree_agrees(before, cur, s);
    lemma_subtree_model_agrees(before, cur, s);
    lemma_placeable(
        cur,
        mem64,
        root_gaps(subtree_model(before), params, mem64),
        root_base(subtree_model(before), params, mem64),
        aperture_end(pool_aperture(params, mem64)->0),
    );
}

}
