//! Resource demands at one level of the PCI tree.
use crate::resource::align::is_pow2;
use crate::resource::align::lemma_pow2_positive;
use crate::resource::gaps::Region;
use crate::resource::sort::SortKey;
use vstd::prelude::*;

verus! {

/// Bridge memory window granularity: 1 MB.
pub const BRIDGE_WINDOW_ALIGN: u64 = 0x10_0000;

/// A single resource demand at one level of the PCI tree.
#[derive(Debug, Clone, Copy)]
pub enum Demand {
    /// An endpoint BAR.
    Bar {
        /// Index of the device in its parent's device list.
        dev_idx: usize,
        /// BAR register index.
        bar_index: u8,
        /// Size in bytes, which is also the alignment.
        size: u64,
        /// Whether the BAR goes into the mem64 pool.
        is_mem64: bool,
        /// If set, this BAR stays at that address.
        pinned_address: Option<u64>,
    },
    /// A bridge's child subtree window.
    BridgeSubtree {
        /// Index of the bridge in its parent's device list.
        dev_idx: usize,
        /// Aligned size of the bridge window.
        size: u64,
        /// Required alignment of the window.
        alignment: u64,
        /// Whether the window is the prefetchable one.
        is_mem64: bool,
        /// If set, this bridge has pinned descendants and its window starts
        /// at that address.
        constrained_base: Option<u64>,
    },
    /// VF BAR space, reserved for SR-IOV VFs.
    SriovVfBars {
        /// Index of the device in its parent's device list.
        dev_idx: usize,
        /// VF BAR register index within the SR-IOV capability.
        bar_index: u8,
        /// Total size (per-VF BAR size times the number of VFs).
        size: u64,
        /// Per-VF BAR size, which is the alignment.
        alignment: u64,
        /// Whether the space goes into the mem64 pool.
        is_mem64: bool,
    },
}

impl Demand {
    /// The number of bytes that the demand takes.
    pub open spec fn bytes(self) -> int {
        match self {
            Demand::Bar { size, .. } => size as int,
            Demand::BridgeSubtree { size, .. } => size as int,
            Demand::SriovVfBars { size, .. } => size as int,
        }
    }

    /// What the address is a multiple of: BARs are naturally aligned.
    pub open spec fn align(self) -> int {
        match self {
            Demand::Bar { size, .. } => size as int,
            Demand::BridgeSubtree { alignment, .. } => alignment as int,
            Demand::SriovVfBars { alignment, .. } => alignment as int,
        }
    }

    /// Whether the demand goes into the mem64 pool.
    pub open spec fn mem64(self) -> bool {
        match self {
            Demand::Bar { is_mem64, .. } => is_mem64,
            Demand::BridgeSubtree { is_mem64, .. } => is_mem64,
            Demand::SriovVfBars { is_mem64, .. } => is_mem64,
        }
    }

    /// The fixed address of the demand, if it has one.
    pub open spec fn fixed(self) -> Option<u64> {
        match self {
            Demand::Bar { pinned_address, .. } => pinned_address,
            Demand::BridgeSubtree { constrained_base, .. } => constrained_base,
            Demand::SriovVfBars { .. } => None,
        }
    }

    /// The region of a demand with a fixed address.
    pub open spec fn region(self) -> Region {
        Region { addr: self.fixed()->0, size: self.bytes() as u64 }
    }

    /// The device that the demand belongs to.
    pub open spec fn owner(self) -> int {
        match self {
            Demand::Bar { dev_idx, .. } => dev_idx as int,
            Demand::BridgeSubtree { dev_idx, .. } => dev_idx as int,
            Demand::SriovVfBars { dev_idx, .. } => dev_idx as int,
        }
    }

    /// Whether the demand can be met at all: it takes some bytes, a fixed one
    /// ends within the address space, and any other has a power of two for its
    /// alignment.
    pub open spec fn valid(self) -> bool {
        &&& self.bytes() > 0
        &&& match self.fixed() {
            Some(addr) => addr + self.bytes() <= u64::MAX,
            None => is_pow2(self.align()),
        }
    }

    /// Returns the size of the demand.
    pub fn size(&self) -> (r: u64)
        ensures
            r == self.bytes(),
    {
        match self {
            Demand::Bar { size, .. } => *size,
            Demand::BridgeSubtree { size, .. } => *size,
            Demand::SriovVfBars { size, .. } => *size,
        }
    }

    /// Returns the alignment of the demand.
    pub fn alignment(&self) -> (r: u64)
        ensures
            r == self.align(),
    {
        match self {
            Demand::Bar { size, .. } => *size,
            Demand::BridgeSubtree { alignment, .. } => *alignment,
            Demand::SriovVfBars { alignment, .. } => *alignment,
        }
    }

    /// Returns whether the demand goes into the mem64 pool.
    pub fn is_mem64(&self) -> (r: bool)
        ensures
            r == self.mem64(),
    {
        match self {
            Demand::Bar { is_mem64, .. } => *is_mem64,
            Demand::BridgeSubtree { is_mem64, .. } => *is_mem64,
            Demand::SriovVfBars { is_mem64, .. } => *is_mem64,
        }
    }

    /// Returns the address and size of a demand with a fixed position (a
    /// pinned BAR or a constrained bridge).
    pub fn fixed_position(&self) -> (r: Option<(u64, u64)>)
        ensures
            r == match self.fixed() {
                Some(addr) => Some((addr, self.bytes() as u64)),
                None => None,
            },
    {
        match self {
            Demand::Bar { pinned_address: Some(addr), size, .. } => Some((*addr, *size)),
            Demand::BridgeSubtree { constrained_base: Some(base), size, .. } => Some(
                (*base, *size),
            ),
            _ => None,
        }
    }
}

/// Demands are ordered by decreasing alignment.
impl SortKey for Demand {
    open spec fn key(&self) -> int {
        u64::MAX - self.align()
    }

    fn sort_key(&self) -> (k: u64) {
        u64::MAX - self.alignment()
    }
}

/// Whether every demand can be met.
pub open spec fn demands_valid(demands: Seq<Demand>) -> bool {
    forall|i: int| 0 <= i < demands.len() ==> (#[trigger] demands[i]).valid()
}

/// A valid demand without a fixed address has a positive alignment.
pub proof fn lemma_valid_align(d: Demand)
    requires
        d.valid(),
        d.fixed() is None,
    ensures
        d.align() > 0,
{
    lemma_pow2_positive(d.align());
}

/// The regions of one pool's demands with a fixed address, in order.
pub open spec fn fixed_regions(demands: Seq<Demand>, mem64: bool) -> Seq<Region>
    decreases demands.len(),
{
    if demands.len() == 0 {
        Seq::empty()
    } else {
        let init = fixed_regions(demands.drop_last(), mem64);
        let d = demands.last();
        match d.fixed() {
            Some(addr) if d.mem64() == mem64 => init.push(Region { addr, size: d.bytes() as u64 }),
            _ => init,
        }
    }
}

/// Each fixed region is that of a demand of the pool, and each demand of the
/// pool with a fixed address has its region.
pub proof fn lemma_fixed_regions(demands: Seq<Demand>, mem64: bool)
    ensures
        forall|i: int|
            #![trigger fixed_regions(demands, mem64)[i]]
            0 <= i < fixed_regions(demands, mem64).len() ==> exists|k: int|
                #![trigger demands[k]]
                0 <= k < demands.len() && demands[k].mem64() == mem64 && demands[k].fixed() == Some(
                    fixed_regions(demands, mem64)[i].addr,
                ) && demands[k].bytes() == fixed_regions(demands, mem64)[i].size,
        forall|k: int|
            #![trigger demands[k]]
            0 <= k < demands.len() && demands[k].mem64() == mem64 && demands[k].fixed() is Some
                ==> fixed_regions(demands, mem64).contains(
                demands[k].region(),
            ),
    decreases demands.len(),
{
    if demands.len() > 0 {
        let init = demands.drop_last();
        lemma_fixed_regions(init, mem64);
        let r0 = fixed_regions(init, mem64);
        let r1 = fixed_regions(demands, mem64);
        assert forall|i: int| #![trigger r1[i]] 0 <= i < r1.len() implies exists|k: int|
            #![trigger demands[k]]
            0 <= k < demands.len() && demands[k].mem64() == mem64 && demands[k].fixed() == Some(
                r1[i].addr,
            ) && demands[k].bytes() == r1[i].size by {
            if i < r0.len() {
                assert(r1[i] == r0[i]);
                let k = choose|k: int|
                    #![trigger init[k]]
                    0 <= k < init.len() && init[k].mem64() == mem64 && init[k].fixed() == Some(
                        r0[i].addr,
                    ) && init[k].bytes() == r0[i].size;
                assert(demands[k] == init[k]);
            } else {
                assert(demands[demands.len() - 1] == demands.last());
            }
        }
        assert forall|k: int|
            #![trigger demands[k]]
            0 <= k < demands.len() && demands[k].mem64() == mem64
                && demands[k].fixed() is Some implies r1.contains(
            demands[k].region(),
        ) by {
            let x = demands[k].region();
            if k < init.len() {
                assert(init[k] == demands[k]);
                let i = choose|i: int| 0 <= i < r0.len() && r0[i] == x;
                assert(r1[i] == x);
            } else {
                assert(r1[r1.len() - 1] == x);
            }
        }
    }
}

}
