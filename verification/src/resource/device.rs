//! Discovered devices and the relation between two states of a device tree.
use crate::resource::align::is_pow2;
use crate::resource::demand::Demand;
use vstd::prelude::*;

verus! {

/// A discovered BAR with its size.
#[derive(Debug, Clone, Copy)]
pub struct DiscoveredBar {
    /// BAR register index.
    pub index: u8,
    /// Size in bytes.
    pub size: u64,
    /// Whether the BAR is 64 bits wide.
    pub is_64bit: bool,
    /// Whether the BAR is prefetchable.
    pub is_prefetchable: bool,
    /// Assigned base address (set by the assignment pass).
    pub address: Option<u64>,
    /// Address that the BAR keeps, if it was found programmed and is to be
    /// preserved.
    pub pinned_address: Option<u64>,
}

/// SR-IOV information for a PF.
#[derive(Debug)]
pub struct DiscoveredSriov {
    /// Config space offset of the SR-IOV extended capability.
    pub cap_offset: u16,
    /// Total number of VFs.
    pub total_vfs: u16,
    /// Per-VF BAR sizes.
    pub vf_bars: Vec<DiscoveredBar>,
}

/// Resource requirement of a subtree, and the windows assigned to it.
#[derive(Debug)]
pub struct SubtreeState {
    /// Size needed in the mem32 (non-prefetchable) pool.
    pub mem32: u64,
    /// Size needed in the mem64 (prefetchable) pool.
    pub mem64: u64,
    /// Required alignment for the mem32 pool.
    pub align32: u64,
    /// Required alignment for the mem64 pool.
    pub align64: u64,
    /// Sorted demands of this level's devices.
    pub demands: Vec<Demand>,
    /// Assigned non-prefetchable bridge window (base, limit).
    pub memory_window: Option<(u64, u64)>,
    /// Assigned prefetchable bridge window (base, limit).
    pub prefetchable_window: Option<(u64, u64)>,
    /// Where the mem32 window starts if it holds pinned demands.
    pub constrained_base32: Option<u64>,
    /// Where the mem64 window starts if it holds pinned demands.
    pub constrained_base64: Option<u64>,
    /// Free gaps of the mem32 window; empty without pinned demands.
    pub gaps32: Vec<(u64, u64)>,
    /// Free gaps of the mem64 window; empty without pinned demands.
    pub gaps64: Vec<(u64, u64)>,
}

/// A discovered PCI device or bridge with probed BAR sizes.
#[derive(Debug)]
pub struct DiscoveredDevice {
    /// Bus number.
    pub bus: u8,
    /// Device number.
    pub device: u8,
    /// Function number: 0..7, or the full 8-bit ARI function number of an ARI
    /// device, whose device number is 0.
    pub function: u8,
    /// Whether the function is a bridge.
    pub is_bridge: bool,
    /// The BARs.
    pub bars: Vec<DiscoveredBar>,
    /// For bridges: children behind this bridge.
    pub children: Vec<DiscoveredDevice>,
    /// For bridges: the secondary bus number assigned during enumeration.
    pub secondary_bus: Option<u8>,
    /// For bridges: the subordinate bus number assigned during enumeration.
    pub subordinate_bus: Option<u8>,
    /// For SR-IOV PFs: total VFs and per-VF BAR sizes.
    pub sriov: Option<DiscoveredSriov>,
    /// Sizing and windows of a bridge, set by the assignment pass.
    pub subtree_req: Option<SubtreeState>,
}

/// Whether a BAR of this kind goes into the mem64 pool: 64-bit prefetchable.
pub open spec fn mem64_kind(bar: DiscoveredBar) -> bool {
    bar.is_64bit && bar.is_prefetchable
}

/// Whether the BAR goes into the mem64 pool. A pinned BAR below 4 GB never
/// does, whatever its kind.
pub open spec fn bar_mem64(bar: DiscoveredBar) -> bool {
    mem64_kind(bar) && match bar.pinned_address {
        Some(addr) => addr >= 0x1_0000_0000,
        None => true,
    }
}

/// Returns whether a BAR of this kind goes into the mem64 pool.
pub fn is_mem64_bar(bar: &DiscoveredBar) -> (r: bool)
    ensures
        r == mem64_kind(*bar),
{
    bar.is_64bit && bar.is_prefetchable
}

/// Whether no two BARs have the same index.
pub open spec fn distinct_bars(bars: Seq<DiscoveredBar>) -> bool {
    forall|i: int, j: int|
        #![trigger bars[i], bars[j]]
        0 <= i < j < bars.len() ==> bars[i].index != bars[j].index
}

/// Whether a BAR can be placed: a pinned one ends within the address space,
/// any other has a power of two for its size.
pub open spec fn bar_ok(bar: DiscoveredBar) -> bool {
    match bar.pinned_address {
        Some(addr) => bar.size > 0 && addr + bar.size <= u64::MAX,
        None => is_pow2(bar.size as int),
    }
}

/// Whether one device is in order, its children left aside.
pub open spec fn device_ok(dev: DiscoveredDevice) -> bool {
    &&& forall|j: int| 0 <= j < dev.bars@.len() ==> bar_ok(#[trigger] dev.bars@[j])
    &&& distinct_bars(dev.bars@)
    &&& match dev.sriov {
        Some(sriov) => {
            &&& sriov.total_vfs > 0
            &&& forall|j: int|
                0 <= j < sriov.vf_bars@.len() ==> is_pow2(
                    (#[trigger] sriov.vf_bars@[j]).size as int,
                )
            &&& distinct_bars(sriov.vf_bars@)
        },
        None => true,
    }
    &&& !dev.is_bridge ==> dev.children@.len() == 0 && dev.subtree_req is None
}

/// Whether a device tree is in order.
pub open spec fn tree_ok(devices: Seq<DiscoveredDevice>) -> bool
    decreases devices,
{
    forall|i: int|
        #![trigger devices[i]]
        0 <= i < devices.len() ==> device_ok(devices[i]) && tree_ok(devices[i].children@)
}

/// What may differ between two states of a device tree.
pub struct Scope {
    /// Addresses and windows of the mem32 pool.
    pub mem32: bool,
    /// Addresses and windows of the mem64 pool.
    pub mem64: bool,
    /// What sizing has stored, windows included.
    pub sizing: bool,
}

/// The BAR without its address.
pub open spec fn bar_shape(bar: DiscoveredBar) -> DiscoveredBar {
    DiscoveredBar { address: None, ..bar }
}

/// Whether one BAR agrees with another outside the scope.
pub open spec fn bar_agrees(
    a: DiscoveredBar,
    b: DiscoveredBar,
    mem64: bool,
    scope: Scope,
) -> bool {
    &&& bar_shape(a) == bar_shape(b)
    &&& a.address == b.address || if mem64 {
        scope.mem64
    } else {
        scope.mem32
    }
}

/// Whether two lists of BARs agree outside the scope.
pub open spec fn bars_agree(a: Seq<DiscoveredBar>, b: Seq<DiscoveredBar>, scope: Scope) -> bool {
    &&& a.len() == b.len()
    &&& forall|j: int|
        #![trigger a[j]]
        #![trigger b[j]]
        0 <= j < a.len() ==> bar_agrees(a[j], b[j], bar_mem64(a[j]), scope)
}

/// Whether two lists of VF BARs agree outside the scope.
pub open spec fn vf_bars_agree(
    a: Seq<DiscoveredBar>,
    b: Seq<DiscoveredBar>,
    scope: Scope,
) -> bool {
    &&& a.len() == b.len()
    &&& forall|j: int|
        #![trigger a[j]]
        #![trigger b[j]]
        0 <= j < a.len() ==> bar_agrees(a[j], b[j], mem64_kind(a[j]), scope)
}

/// Whether the stored sizing is the same.
pub open spec fn same_sizing(a: SubtreeState, b: SubtreeState) -> bool {
    &&& a.mem32 == b.mem32
    &&& a.mem64 == b.mem64
    &&& a.align32 == b.align32
    &&& a.align64 == b.align64
    &&& a.demands@ == b.demands@
    &&& a.constrained_base32 == b.constrained_base32
    &&& a.constrained_base64 == b.constrained_base64
    &&& a.gaps32@ == b.gaps32@
    &&& a.gaps64@ == b.gaps64@
}

/// Whether what sizing has stored agrees outside the scope.
pub open spec fn state_agrees(
    a: Option<SubtreeState>,
    b: Option<SubtreeState>,
    scope: Scope,
) -> bool {
    match (a, b) {
        (Some(x), Some(y)) => {
            &&& same_sizing(x, y)
            &&& x.memory_window == y.memory_window || scope.mem32
            &&& x.prefetchable_window == y.prefetchable_window || scope.mem64
        },
        (None, None) => true,
        _ => false,
    }
}

/// Whether one device agrees with another outside the scope, children left
/// aside.
pub open spec fn device_agrees(a: DiscoveredDevice, b: DiscoveredDevice, scope: Scope) -> bool {
    &&& a.bus == b.bus
    &&& a.device == b.device
    &&& a.function == b.function
    &&& a.is_bridge == b.is_bridge
    &&& a.secondary_bus == b.secondary_bus
    &&& a.subordinate_bus == b.subordinate_bus
    &&& bars_agree(a.bars@, b.bars@, scope)
    &&& match (a.sriov, b.sriov) {
        (Some(x), Some(y)) => {
            &&& x.cap_offset == y.cap_offset
            &&& x.total_vfs == y.total_vfs
            &&& vf_bars_agree(x.vf_bars@, y.vf_bars@, scope)
        },
        (None, None) => true,
        _ => false,
    }
    &&& state_agrees(a.subtree_req, b.subtree_req, scope) || (scope.sizing && a.is_bridge)
}

/// Whether two states of a device tree agree outside the scope.
pub open spec fn tree_agrees(
    a: Seq<DiscoveredDevice>,
    b: Seq<DiscoveredDevice>,
    scope: Scope,
) -> bool
    decreases a,
{
    &&& a.len() == b.len()
    &&& forall|i: int|
        #![trigger a[i]]
        #![trigger b[i]]
        0 <= i < a.len() ==> device_agrees(a[i], b[i], scope) && tree_agrees(
            a[i].children@,
            b[i].children@,
            scope,
        )
}

/// The scope that sizing works in.
pub open spec fn sizing_scope() -> Scope {
    Scope { mem32: false, mem64: false, sizing: true }
}

/// The scope that the assignment of one pool works in.
pub open spec fn pool_scope(mem64: bool) -> Scope {
    Scope { mem32: !mem64, mem64, sizing: false }
}

/// The scope that the whole assignment works in.
pub open spec fn full_scope() -> Scope {
    Scope { mem32: true, mem64: true, sizing: true }
}

/// Whether everything that may differ in one scope may differ in another.
pub open spec fn scope_within(s: Scope, t: Scope) -> bool {
    &&& s.mem32 ==> t.mem32
    &&& s.mem64 ==> t.mem64
    &&& s.sizing ==> t.sizing
}

/// A tree agrees with itself.
pub proof fn lemma_tree_agrees_refl(a: Seq<DiscoveredDevice>, scope: Scope)
    ensures
        tree_agrees(a, a, scope),
    decreases a,
{
    assert forall|i: int| #![trigger a[i]] 0 <= i < a.len() implies device_agrees(
        a[i],
        a[i],
        scope,
    ) && tree_agrees(a[i].children@, a[i].children@, scope) by {
        lemma_tree_agrees_refl(a[i].children@, scope);
    }
}

/// Agreement carries over to wider scopes.
pub proof fn lemma_tree_agrees_widen(
    a: Seq<DiscoveredDevice>,
    b: Seq<DiscoveredDevice>,
    s: Scope,
    t: Scope,
)
    requires
        tree_agrees(a, b, s),
        scope_within(s, t),
    ensures
        tree_agrees(a, b, t),
    decreases a,
{
    assert forall|i: int| #![trigger a[i]] 0 <= i < a.len() implies device_agrees(
        a[i],
        b[i],
        t,
    ) && tree_agrees(a[i].children@, b[i].children@, t) by {
        assert(device_agrees(a[i], b[i], s));
        lemma_tree_agrees_widen(a[i].children@, b[i].children@, s, t);
    }
}

/// Agreement of single devices can be chained.
pub proof fn lemma_device_agrees_trans(
    a: DiscoveredDevice,
    b: DiscoveredDevice,
    c: DiscoveredDevice,
    s: Scope,
)
    requires
        device_agrees(a, b, s),
        device_agrees(b, c, s),
    ensures
        device_agrees(a, c, s),
{
    assert(bars_agree(a.bars@, c.bars@, s)) by {
        assert forall|j: int| #![trigger a.bars@[j]] 0 <= j < a.bars@.len() implies bar_agrees(
            a.bars@[j],
            c.bars@[j],
            bar_mem64(a.bars@[j]),
            s,
        ) by {
            assert(bar_agrees(a.bars@[j], b.bars@[j], bar_mem64(a.bars@[j]), s));
            assert(bar_agrees(b.bars@[j], c.bars@[j], bar_mem64(b.bars@[j]), s));
        }
    }
    if let (Some(x), Some(y)) = (a.sriov, b.sriov) {
        let z = c.sriov->0;
        assert(vf_bars_agree(x.vf_bars@, z.vf_bars@, s)) by {
            assert forall|j: int| #![trigger x.vf_bars@[j]] 0 <= j
                < x.vf_bars@.len() implies bar_agrees(
                x.vf_bars@[j],
                z.vf_bars@[j],
                mem64_kind(x.vf_bars@[j]),
                s,
            ) by {
                assert(bar_agrees(x.vf_bars@[j], y.vf_bars@[j], mem64_kind(x.vf_bars@[j]), s));
                assert(bar_agrees(y.vf_bars@[j], z.vf_bars@[j], mem64_kind(y.vf_bars@[j]), s));
            }
        }
    }
}

/// Agreement can be chained.
pub proof fn lemma_tree_agrees_trans(
    a: Seq<DiscoveredDevice>,
    b: Seq<DiscoveredDevice>,
    c: Seq<DiscoveredDevice>,
    s: Scope,
)
    requires
        tree_agrees(a, b, s),
        tree_agrees(b, c, s),
    ensures
        tree_agrees(a, c, s),
    decreases a,
{
    assert forall|i: int| #![trigger a[i]] 0 <= i < a.len() implies device_agrees(
        a[i],
        c[i],
        s,
    ) && tree_agrees(a[i].children@, c[i].children@, s) by {
        assert(device_agrees(a[i], b[i], s));
        assert(device_agrees(b[i], c[i], s));
        lemma_device_agrees_trans(a[i], b[i], c[i], s);
        lemma_tree_agrees_trans(a[i].children@, b[i].children@, c[i].children@, s);
    }
}

/// A tree stays in order whatever the assignment changes.
pub proof fn lemma_tree_ok_agrees(a: Seq<DiscoveredDevice>, b: Seq<DiscoveredDevice>, s: Scope)
    requires
        tree_ok(a),
        tree_agrees(a, b, s),
    ensures
        tree_ok(b),
    decreases a,
{
    reveal_with_fuel(tree_agrees, 2);
    assert forall|i: int| #![trigger b[i]] 0 <= i < b.len() implies device_ok(b[i]) && tree_ok(
        b[i].children@,
    ) by {
        assert(device_ok(a[i]));
        assert(device_agrees(a[i], b[i], s));
        lemma_tree_ok_agrees(a[i].children@, b[i].children@, s);
        assert forall|j: int| 0 <= j < b[i].bars@.len() implies bar_ok(
            #[trigger] b[i].bars@[j],
        ) by {
            assert(bar_agrees(a[i].bars@[j], b[i].bars@[j], bar_mem64(a[i].bars@[j]), s));
            assert(bar_ok(a[i].bars@[j]));
            assert(bar_shape(a[i].bars@[j]).size == bar_shape(b[i].bars@[j]).size);
            assert(bar_shape(a[i].bars@[j]).pinned_address == bar_shape(
                b[i].bars@[j],
            ).pinned_address);
        }
        assert(distinct_bars(b[i].bars@)) by {
            assert forall|p: int, q: int|
                #![trigger b[i].bars@[p], b[i].bars@[q]]
                0 <= p < q < b[i].bars@.len() implies b[i].bars@[p].index
                != b[i].bars@[q].index by {
                assert(a[i].bars@[p].index != a[i].bars@[q].index);
                assert(bar_shape(a[i].bars@[p]).index == bar_shape(b[i].bars@[p]).index);
                assert(bar_shape(a[i].bars@[q]).index == bar_shape(b[i].bars@[q]).index);
            }
        }
        if let Some(x) = a[i].sriov {
            let y = b[i].sriov->0;
            assert forall|j: int| 0 <= j < y.vf_bars@.len() implies is_pow2(
                (#[trigger] y.vf_bars@[j]).size as int,
            ) by {
                assert(bar_agrees(x.vf_bars@[j], y.vf_bars@[j], mem64_kind(x.vf_bars@[j]), s));
                assert(bar_shape(x.vf_bars@[j]).size == bar_shape(y.vf_bars@[j]).size);
                assert(is_pow2(x.vf_bars@[j].size as int));
            }
            assert forall|p: int, q: int|
                #![trigger y.vf_bars@[p], y.vf_bars@[q]]
                0 <= p < q < y.vf_bars@.len() implies y.vf_bars@[p].index
                != y.vf_bars@[q].index by {
                assert(x.vf_bars@[p].index != x.vf_bars@[q].index);
                assert(bar_shape(x.vf_bars@[p]).index == bar_shape(y.vf_bars@[p]).index);
                assert(bar_shape(x.vf_bars@[q]).index == bar_shape(y.vf_bars@[q]).index);
            }
        }
    }
}

}
