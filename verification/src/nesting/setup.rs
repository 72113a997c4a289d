//! The objects that all devices behind one SMMU share, and their invalidation.
use crate::nesting::ABORT_STE_DWORDS;
use crate::nesting::BYPASS_STE_DWORDS;
use crate::nesting::HW_INFO_TYPE_ARM_SMMUV3;
use crate::nesting::HostAction;
use crate::nesting::HostReply;
use crate::nesting::SmmuAccelState;
use vstd::prelude::*;

verus! {

/// What the shared objects could not be made for want of.
#[derive(Debug, Clone, Copy, PartialEq, Eq)]
pub enum SetupError {
    /// The virtual IOMMU.
    Viommu,
    /// The abort page table.
    AbortHwpt,
    /// The bypass page table.
    BypassHwpt,
}

/// How far the shared objects are made.
#[derive(Debug, Clone, Copy, PartialEq, Eq)]
pub enum SmmuAccelSetup {
    /// The virtual IOMMU is being allocated.
    Viommu {
        /// A device behind the IOMMU.
        dev_id: u32,
        /// The parent page table, of stage 2.
        s2_parent_hwpt_id: u32,
    },
    /// The abort page table is being allocated.
    AbortHwpt {
        /// A device behind the IOMMU.
        dev_id: u32,
        /// The parent page table, of stage 2.
        s2_parent_hwpt_id: u32,
        /// The virtual IOMMU.
        viommu_id: u32,
    },
    /// The bypass page table is being allocated.
    BypassHwpt {
        /// A device behind the IOMMU.
        dev_id: u32,
        /// The parent page table, of stage 2.
        s2_parent_hwpt_id: u32,
        /// The virtual IOMMU.
        viommu_id: u32,
        /// The abort page table.
        abort_hwpt_id: u32,
    },
    /// All objects are there.
    Ready(SmmuAccelState),
    /// An object could not be allocated.
    Failed(SetupError),
}

/// What the shared objects are after an answer of the host.
pub open spec fn setup_after(setup: SmmuAccelSetup, reply: HostReply) -> SmmuAccelSetup {
    match (setup, reply) {
        (SmmuAccelSetup::Viommu { dev_id, s2_parent_hwpt_id }, HostReply::Id(viommu_id)) => {
            SmmuAccelSetup::AbortHwpt { dev_id, s2_parent_hwpt_id, viommu_id }
        },
        (SmmuAccelSetup::Viommu { .. }, _) => SmmuAccelSetup::Failed(SetupError::Viommu),
        (
            SmmuAccelSetup::AbortHwpt { dev_id, s2_parent_hwpt_id, viommu_id },
            HostReply::Id(abort_hwpt_id),
        ) => SmmuAccelSetup::BypassHwpt { dev_id, s2_parent_hwpt_id, viommu_id, abort_hwpt_id },
        (SmmuAccelSetup::AbortHwpt { .. }, _) => SmmuAccelSetup::Failed(SetupError::AbortHwpt),
        (
            SmmuAccelSetup::BypassHwpt { dev_id, s2_parent_hwpt_id, viommu_id, abort_hwpt_id },
            HostReply::Id(bypass_hwpt_id),
        ) => SmmuAccelSetup::Ready(
            SmmuAccelState { viommu_id, s2_parent_hwpt_id, abort_hwpt_id, bypass_hwpt_id },
        ),
        (SmmuAccelSetup::BypassHwpt { .. }, _) => SmmuAccelSetup::Failed(SetupError::BypassHwpt),
        (_, _) => setup,
    }
}

/// What is asked of the host for the next shared object.
pub open spec fn setup_action(setup: SmmuAccelSetup) -> Option<HostAction> {
    match setup {
        SmmuAccelSetup::Viommu { dev_id, s2_parent_hwpt_id } => Some(
            HostAction::AllocViommu { dev_id, parent: s2_parent_hwpt_id },
        ),
        SmmuAccelSetup::AbortHwpt { dev_id, s2_parent_hwpt_id, viommu_id } => Some(
            HostAction::AllocHwpt { dev_id, parent: viommu_id, ste: ABORT_STE_DWORDS },
        ),
        SmmuAccelSetup::BypassHwpt { dev_id, s2_parent_hwpt_id, viommu_id, abort_hwpt_id } => Some(
            HostAction::AllocHwpt { dev_id, parent: viommu_id, ste: BYPASS_STE_DWORDS },
        ),
        _ => None,
    }
}

impl SmmuAccelSetup {
    /// Starts to make the shared objects, for a device behind the IOMMU.
    pub fn new(dev_id: u32, s2_parent_hwpt_id: u32) -> (r: Self)
        ensures
            r == (SmmuAccelSetup::Viommu { dev_id, s2_parent_hwpt_id }),
    {
        SmmuAccelSetup::Viommu { dev_id, s2_parent_hwpt_id }
    }

    /// Returns what is asked of the host next.
    pub fn action(&self) -> (r: Option<HostAction>)
        ensures
            r == setup_action(*self),
    {
        match *self {
            SmmuAccelSetup::Viommu { dev_id, s2_parent_hwpt_id } => Some(
                HostAction::AllocViommu { dev_id, parent: s2_parent_hwpt_id },
            ),
            SmmuAccelSetup::AbortHwpt { dev_id, s2_parent_hwpt_id: _, viommu_id } => Some(
                HostAction::AllocHwpt { dev_id, parent: viommu_id, ste: ABORT_STE_DWORDS },
            ),
            SmmuAccelSetup::BypassHwpt {
                dev_id,
                s2_parent_hwpt_id: _,
                viommu_id,
                abort_hwpt_id: _,
            } => Some(
                HostAction::AllocHwpt { dev_id, parent: viommu_id, ste: BYPASS_STE_DWORDS },
            ),
            _ => None,
        }
    }

    /// Goes on after an answer of the host.
    pub fn complete(&mut self, reply: HostReply)
        ensures
            *final(self) == setup_after(*old(self), reply),
    {
        let next: SmmuAccelSetup = match *self {
            SmmuAccelSetup::Viommu { dev_id, s2_parent_hwpt_id } => match reply {
                HostReply::Id(viommu_id) => SmmuAccelSetup::AbortHwpt {
                    dev_id,
                    s2_parent_hwpt_id,
                    viommu_id,
                },
                _ => SmmuAccelSetup::Failed(SetupError::Viommu),
            },
            SmmuAccelSetup::AbortHwpt { dev_id, s2_parent_hwpt_id, viommu_id } => match reply {
                HostReply::Id(abort_hwpt_id) => SmmuAccelSetup::BypassHwpt {
                    dev_id,
                    s2_parent_hwpt_id,
                    viommu_id,
                    abort_hwpt_id,
                },
                _ => SmmuAccelSetup::Failed(SetupError::AbortHwpt),
            },
            SmmuAccelSetup::BypassHwpt {
                dev_id: _,
                s2_parent_hwpt_id,
                viommu_id,
                abort_hwpt_id,
            } => match reply {
                HostReply::Id(bypass_hwpt_id) => SmmuAccelSetup::Ready(
                    SmmuAccelState { viommu_id, s2_parent_hwpt_id, abort_hwpt_id, bypass_hwpt_id },
                ),
                _ => SmmuAccelSetup::Failed(SetupError::BypassHwpt),
            },
            _ => *self,
        };
        *self = next;
    }
}

/// How the host took a batch of invalidations.
#[derive(Debug, Clone, Copy, PartialEq, Eq)]
pub enum InvalidateReply {
    /// All are done.
    Done,
    /// The batch was rejected, with a count of those that were handled.
    Rejected {
        /// The count.
        handled: usize,
    },
}

impl SmmuAccelState {
    /// Returns the virtual IOMMU.
    pub fn viommu_id(&self) -> (r: u32)
        ensures
            r == self.viommu_id,
    {
        self.viommu_id
    }

    /// Returns the parent page table.
    pub fn s2_parent_hwpt_id(&self) -> (r: u32)
        ensures
            r == self.s2_parent_hwpt_id,
    {
        self.s2_parent_hwpt_id
    }

    /// Works out where to go on with a batch of invalidations that was rejected.
    ///
    /// The first that was not handled is the one in error. A count that is not less
    /// than the length says nothing, as the host may have failed before it handled
    /// any: the batch is to be presented again from the start.
    pub fn invalidate(&self, count: usize, reply: InvalidateReply) -> (r: Result<(), usize>)
        ensures
            r == invalidated(count, reply),
    {
        match reply {
            InvalidateReply::Done => Ok(()),
            InvalidateReply::Rejected { handled } => if handled < count {
                Err(handled)
            } else {
                Err(0)
            },
        }
    }
}

/// Where to go on with a batch of invalidations.
pub open spec fn invalidated(count: usize, reply: InvalidateReply) -> Result<(), usize> {
    match reply {
        InvalidateReply::Done => Ok(()),
        InvalidateReply::Rejected { handled } => Err(
            if handled < count {
                handled
            } else {
                0
            },
        ),
    }
}

/// No invalidation is skipped: what comes before the place to go on was handled.
pub proof fn law_none_skipped(count: usize, reply: InvalidateReply)
    ensures
        invalidated(count, reply) matches Err(at) ==> {
            &&& at < count || at == 0
            &&& reply matches InvalidateReply::Rejected { handled } && at <= handled
        },
{
}

/// Why the capabilities of the host are not known.
#[derive(Debug, Clone, Copy, PartialEq, Eq)]
pub enum HostCapsError {
    /// The host did not answer.
    HwInfo,
    /// The host has another kind of IOMMU, of this type.
    UnexpectedType(u32),
}

/// The host's answer to a question for hardware information.
#[derive(Debug, Clone, Copy, PartialEq, Eq)]
pub struct HwInfo {
    /// The type of the information.
    pub data_type: u32,
    /// The identification registers, if the type is that of an SMMUv3.
    pub idr: [u32; 6],
}

/// Returns the identification registers of the host's SMMUv3, if it has one.
pub fn query_host_caps(info: Option<HwInfo>) -> (r: Result<[u32; 6], HostCapsError>)
    ensures
        r == match info {
            Some(i) => if i.data_type == HW_INFO_TYPE_ARM_SMMUV3 {
                Ok::<[u32; 6], HostCapsError>(i.idr)
            } else {
                Err(HostCapsError::UnexpectedType(i.data_type))
            },
            None => Err(HostCapsError::HwInfo),
        },
{
    match info {
        Some(i) => {
            if i.data_type != HW_INFO_TYPE_ARM_SMMUV3 {
                return Err(HostCapsError::UnexpectedType(i.data_type));
            }
            Ok(i.idr)
        },
        None => Err(HostCapsError::HwInfo),
    }
}

}
