//! What a device needs for bus-mastered transactions: memory and interrupts.
use crate::bus_range::AssignedBusRange;
use crate::msi::requester_id;
use crate::msi::MsiConnection;
use crate::msi::MsiTarget;
use crate::msi::SignalMsi;
use vstd::prelude::*;

verus! {

/// An IOMMU that produces guest memory for each device behind it.
pub trait DmaTargetIommu<M>: Sized {
    /// The memory for an offset from the secondary bus.
    spec fn memory(self, rid_offset: u16) -> M;

    /// Makes the memory for an offset from the first function of the device's
    /// secondary bus.
    fn guest_memory_for_rid_offset(&self, rid_offset: u16) -> (r: M)
        ensures
            r == self.memory(rid_offset),
    ;
}

/// How the DMA of a device relates to host passthrough.
#[derive(Debug, Clone, Copy, PartialEq, Eq)]
pub enum DmaPassthrough<H> {
    /// There is no IOMMU that matters: passthrough is allowed.
    Allowed,
    /// The IOMMU is emulated and cannot program that of the host: passthrough is
    /// rejected.
    SoftwareBlocked,
    /// The IOMMU is nested in that of the host: passthrough is allowed, and the
    /// handle says how to attach.
    HardwareNestable(H),
}

/// What a device needs for bus-mastered transactions.
///
/// Memory and interrupts are for the same requester.
#[derive(Debug, Clone, Copy)]
pub struct DmaTarget<M, I, H> {
    /// The offset from the first function of the secondary bus.
    pub rid_offset: u16,
    /// The memory.
    pub guest_memory: M,
    /// The identity for interrupts.
    pub msi_target: MsiTarget,
    /// The IOMMU, if there is one.
    pub iommu: Option<I>,
    /// How the device relates to host passthrough.
    pub passthrough: DmaPassthrough<H>,
}

impl<M: Copy, I: Copy + DmaTargetIommu<M>, H: Copy> DmaTarget<M, I, H> {
    /// Whether memory and interrupts are for the same requester, and only a device
    /// with an IOMMU is anything but allowed.
    pub open spec fn wf(self) -> bool {
        &&& self.msi_target.rid_offset == self.rid_offset
        &&& self.iommu matches Some(iommu) ==> self.guest_memory == iommu.memory(self.rid_offset)
        &&& self.iommu is None <==> self.passthrough is Allowed
    }

    /// Creates a target without an IOMMU.
    pub fn new<S: SignalMsi>(
        devfn: u8,
        guest_memory: M,
        msi: &MsiConnection<S>,
    ) -> (r: Self)
        ensures
            r.wf(),
            r == (DmaTarget::<M, I, H> {
                rid_offset: devfn as u16,
                guest_memory,
                msi_target: MsiTarget { rid_offset: devfn as u16 },
                iommu: None,
                passthrough: DmaPassthrough::Allowed,
            }),
    {
        DmaTarget {
            rid_offset: devfn as u16,
            guest_memory,
            msi_target: msi.msi_target(devfn),
            iommu: None,
            passthrough: DmaPassthrough::Allowed,
        }
    }

    /// Creates a target with an emulated IOMMU.
    pub fn with_iommu<S: SignalMsi>(
        devfn: u8,
        iommu: I,
        msi: &MsiConnection<S>,
    ) -> (r: Self)
        ensures
            r.wf(),
            r == iommu_backed_target::<M, I, H>(
                devfn,
                iommu,
                DmaPassthrough::SoftwareBlocked,
            ),
    {
        Self::iommu_backed(devfn, iommu, msi, DmaPassthrough::SoftwareBlocked)
    }

    /// Creates a target with an IOMMU that is nested in that of the host.
    pub fn with_nestable_iommu<S: SignalMsi>(
        devfn: u8,
        iommu: I,
        handle: H,
        msi: &MsiConnection<S>,
    ) -> (r: Self)
        ensures
            r.wf(),
            r == iommu_backed_target::<M, I, H>(
                devfn,
                iommu,
                DmaPassthrough::HardwareNestable(handle),
            ),
    {
        Self::iommu_backed(devfn, iommu, msi, DmaPassthrough::HardwareNestable(handle))
    }

    fn iommu_backed<S: SignalMsi>(
        devfn: u8,
        iommu: I,
        msi: &MsiConnection<S>,
        passthrough: DmaPassthrough<H>,
    ) -> (r: Self)
        ensures
            r == iommu_backed_target::<M, I, H>(devfn, iommu, passthrough),
    {
        DmaTarget {
            rid_offset: devfn as u16,
            guest_memory: iommu.guest_memory_for_rid_offset(devfn as u16),
            msi_target: msi.msi_target(devfn),
            iommu: Some(iommu),
            passthrough,
        }
    }

    /// Returns the memory for DMA.
    pub fn guest_memory(&self) -> (r: &M)
        ensures
            *r == self.guest_memory,
    {
        &self.guest_memory
    }

    /// Returns the identity for interrupts.
    pub fn msi_target(&self) -> (r: MsiTarget)
        ensures
            r == self.msi_target,
    {
        self.msi_target
    }

    /// Returns how the device relates to host passthrough.
    pub fn passthrough(&self) -> (r: DmaPassthrough<H>)
        ensures
            r == self.passthrough,
    {
        self.passthrough
    }

    /// Derives a target further on by an offset.
    ///
    /// This gives a virtual function its target. Memory and interrupts move
    /// together, and offsets add up.
    pub fn with_rid_offset(&self, delta: u16) -> (r: DmaTarget<M, I, H>)
        requires
            self.wf(),
        ensures
            r.wf(),
            r == derived(*self, delta),
    {
        let rid_offset: u16 = self.rid_offset.wrapping_add(delta);
        DmaTarget {
            rid_offset,
            guest_memory: match &self.iommu {
                Some(iommu) => iommu.guest_memory_for_rid_offset(rid_offset),
                None => self.guest_memory,
            },
            msi_target: self.msi_target.with_rid_offset(rid_offset),
            iommu: self.iommu,
            passthrough: self.passthrough,
        }
    }
}

/// A target with an IOMMU.
pub open spec fn iommu_backed_target<M: Copy, I: Copy + DmaTargetIommu<M>, H: Copy>(
    devfn: u8,
    iommu: I,
    passthrough: DmaPassthrough<H>,
) -> DmaTarget<M, I, H> {
    DmaTarget {
        rid_offset: devfn as u16,
        guest_memory: iommu.memory(devfn as u16),
        msi_target: MsiTarget { rid_offset: devfn as u16 },
        iommu: Some(iommu),
        passthrough,
    }
}

/// Two offsets, one after the other.
pub open spec fn offset_sum(a: u16, b: u16) -> u16 {
    ((a + b) % 0x1_0000) as u16
}

/// The target further on by an offset.
pub open spec fn derived<M: Copy, I: Copy + DmaTargetIommu<M>, H: Copy>(
    target: DmaTarget<M, I, H>,
    delta: u16,
) -> DmaTarget<M, I, H> {
    let rid_offset = offset_sum(target.rid_offset, delta);
    DmaTarget {
        rid_offset,
        guest_memory: match target.iommu {
            Some(iommu) => iommu.memory(rid_offset),
            None => target.guest_memory,
        },
        msi_target: MsiTarget { rid_offset },
        iommu: target.iommu,
        passthrough: target.passthrough,
    }
}

/// Offsets add up: two derivations are one by the sum.
pub proof fn law_offsets_stack<M: Copy, I: Copy + DmaTargetIommu<M>, H: Copy>(
    target: DmaTarget<M, I, H>,
    a: u16,
    b: u16,
)
    ensures
        derived(derived(target, a), b) == derived(target, offset_sum(a, b)),
{
}

/// The messages of a derived target carry the requester identifier of the target
/// moved by the offset, whatever bus range the device has by then.
pub proof fn law_derived_identity<M: Copy, I: Copy + DmaTargetIommu<M>, H: Copy>(
    target: DmaTarget<M, I, H>,
    delta: u16,
    bus_range: AssignedBusRange,
)
    requires
        target.wf(),
    ensures
        requester_id(bus_range, derived(target, delta).msi_target.rid_offset) == (requester_id(
            bus_range,
            target.msi_target.rid_offset,
        ) + delta) % 0x1_0000,
{
}

/// Deriving a target changes nothing about host passthrough.
pub proof fn law_passthrough_kept<M: Copy, I: Copy + DmaTargetIommu<M>, H: Copy>(
    target: DmaTarget<M, I, H>,
    delta: u16,
)
    requires
        target.wf(),
    ensures
        derived(target, delta).wf(),
        derived(target, delta).passthrough == target.passthrough,
        derived(target, delta).iommu == target.iommu,
{
}

}
