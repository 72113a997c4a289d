//! Nested translation for assigned devices behind an accelerated SMMU.
//!
//! A stream backend keeps a device attached to a page table that follows the
//! guest's configuration of its stream. What has to be done on the host is said
//! one action at a time; each answer of the host leads to the next action.
use vstd::prelude::*;

pub mod conversation;
pub mod host;
pub mod setup;

verus! {

/// The stream table entry of the shared abort page table: valid, abort.
pub const ABORT_STE_DWORDS: [u64; 2] = [1, 0];

/// The stream table entry of the shared bypass page table: valid, stage 1 bypass.
pub const BYPASS_STE_DWORDS: [u64; 2] = [9, 0];

/// The type of hardware information that an SMMUv3 gives.
pub const HW_INFO_TYPE_ARM_SMMUV3: u32 = 2;

/// What the guest has configured for a stream.
#[derive(Debug, Clone, Copy, PartialEq, Eq)]
pub enum StreamConfig {
    /// DMA is blocked.
    Abort,
    /// Addresses are not translated in stage 1.
    Bypass,
    /// Addresses are translated by the guest's tables.
    Translate {
        /// The stream.
        sid: u32,
        /// The stage 1 fields of the stream table entry.
        ste_dwords: [u64; 2],
    },
}

/// The objects on the host that all devices behind one SMMU share.
#[derive(Debug, Clone, Copy, PartialEq, Eq)]
pub struct SmmuAccelState {
    /// The virtual IOMMU.
    pub viommu_id: u32,
    /// The parent page table, of stage 2.
    pub s2_parent_hwpt_id: u32,
    /// The page table of devices whose DMA is blocked.
    pub abort_hwpt_id: u32,
    /// The page table of devices whose addresses are not translated in stage 1.
    pub bypass_hwpt_id: u32,
}

/// Something to be done on the host.
#[derive(Debug, Clone, Copy, PartialEq, Eq)]
pub enum HostAction {
    /// Attach the device to a page table, in place of the one it is attached to.
    Attach {
        /// The page table.
        pt_id: u32,
    },
    /// Detach the device.
    Detach,
    /// Destroy an object.
    Destroy {
        /// The object.
        id: u32,
    },
    /// Allocate a virtual IOMMU.
    AllocViommu {
        /// A device behind the IOMMU.
        dev_id: u32,
        /// The parent page table.
        parent: u32,
    },
    /// Allocate a virtual device.
    AllocVdevice {
        /// The virtual IOMMU.
        viommu_id: u32,
        /// The device.
        dev_id: u32,
        /// The stream by which the guest knows the device.
        virtual_sid: u64,
    },
    /// Allocate a nested page table.
    AllocHwpt {
        /// The device.
        dev_id: u32,
        /// The virtual IOMMU.
        parent: u32,
        /// The stream table entry.
        ste: [u64; 2],
    },
}

/// The host's answer.
#[derive(Debug, Clone, Copy, PartialEq, Eq)]
pub enum HostReply {
    /// The action is done.
    Done,
    /// The object is allocated.
    Id(u32),
    /// The action failed.
    Failed,
}

/// What an operation failed at.
#[derive(Debug, Clone, Copy, PartialEq, Eq)]
pub enum StreamError {
    /// Attaching to the abort page table.
    AttachAbort,
    /// Attaching to the bypass page table.
    AttachBypass,
    /// Attaching to a nested page table.
    AttachNested,
    /// Allocating a virtual device.
    AllocVdevice,
    /// Allocating a nested page table.
    AllocHwpt,
}

/// What comes next.
#[derive(Debug, Clone, Copy, PartialEq, Eq)]
pub enum Next {
    /// An action on the host.
    Act(HostAction),
    /// Nothing: the operation is over.
    Finished(Result<(), StreamError>),
}

/// How far an operation is.
#[derive(Debug, Clone, Copy, PartialEq, Eq)]
pub enum Phase {
    /// There is no operation.
    Idle,
    /// The device is being attached to the abort page table.
    AttachAbort {
        /// Whether the virtual device goes next.
        rebind: bool,
    },
    /// The device is being attached to the bypass page table.
    AttachBypass,
    /// The page table that the device was attached to is being destroyed.
    DestroyOld {
        /// The page table.
        old: u32,
        /// Whether the virtual device goes next.
        rebind: bool,
    },
    /// The virtual device is being destroyed.
    DestroyVdevice {
        /// The virtual device.
        vdevice: u32,
    },
    /// A virtual device is being allocated.
    AllocVdevice {
        /// The stream table entry to come.
        ste: [u64; 2],
    },
    /// A nested page table is being allocated.
    AllocHwpt,
    /// The device is being attached to a nested page table.
    AttachNested {
        /// The page table.
        candidate: u32,
    },
    /// A nested page table that could not be attached to is being destroyed.
    DestroyCandidate {
        /// The page table.
        candidate: u32,
    },
    /// The device is being detached for good.
    Detach,
    /// The nested page table is being destroyed for good.
    DropHwpt {
        /// The page table.
        hwpt: u32,
    },
    /// The virtual device is being destroyed for good.
    DropVdevice {
        /// The virtual device.
        vdevice: u32,
    },
}

/// What a stream backend knows of its device on the host.
#[derive(Debug, Clone, Copy, PartialEq, Eq)]
pub struct StreamBackendState {
    /// Whether the device is attached to a page table.
    pub attached: bool,
    /// The nested page table, while addresses are translated.
    pub current_nested_hwpt: Option<u32>,
    /// The virtual device.
    pub vdevice_id: Option<u32>,
}

/// The stream backend of one device.
#[derive(Debug, Clone, Copy, PartialEq, Eq)]
pub struct IommufdStreamBackend {
    /// The shared objects.
    pub accel: SmmuAccelState,
    /// The device.
    pub dev_id: u32,
    /// What is known of the device on the host.
    pub state: StreamBackendState,
    /// How far the operation is.
    pub phase: Phase,
}

/// The backend in a phase, and the action.
pub open spec fn acting(b: IommufdStreamBackend, phase: Phase, action: HostAction) -> (
    IommufdStreamBackend,
    Next,
) {
    (IommufdStreamBackend { phase, ..b }, Next::Act(action))
}

/// The backend with its operation over.
pub open spec fn finished(b: IommufdStreamBackend, result: Result<(), StreamError>) -> (
    IommufdStreamBackend,
    Next,
) {
    (IommufdStreamBackend { phase: Phase::Idle, ..b }, Next::Finished(result))
}

/// The backend with another state.
pub open spec fn with_state(
    b: IommufdStreamBackend,
    state: StreamBackendState,
) -> IommufdStreamBackend {
    IommufdStreamBackend { state, ..b }
}

/// What comes after the nested page table is gone.
pub open spec fn after_old(b: IommufdStreamBackend, rebind: bool) -> (
    IommufdStreamBackend,
    Next,
) {
    match b.state.vdevice_id {
        Some(vdevice) if rebind => acting(
            with_state(b, StreamBackendState { vdevice_id: None, ..b.state }),
            Phase::DestroyVdevice { vdevice },
            HostAction::Destroy { id: vdevice },
        ),
        _ => finished(b, Ok(())),
    }
}

/// What comes after the device is attached to a shared page table.
pub open spec fn after_shared(b: IommufdStreamBackend, rebind: bool) -> (
    IommufdStreamBackend,
    Next,
) {
    let state = StreamBackendState { attached: true, current_nested_hwpt: None, ..b.state };
    match b.state.current_nested_hwpt {
        Some(old) => acting(
            with_state(b, state),
            Phase::DestroyOld { old, rebind },
            HostAction::Destroy { id: old },
        ),
        None => after_old(with_state(b, state), rebind),
    }
}

/// The backend as it asks for a nested page table.
pub open spec fn allocating(b: IommufdStreamBackend, ste: [u64; 2]) -> (
    IommufdStreamBackend,
    Next,
) {
    acting(
        b,
        Phase::AllocHwpt,
        HostAction::AllocHwpt { dev_id: b.dev_id, parent: b.accel.viommu_id, ste },
    )
}

/// What comes after the device is detached for good.
pub open spec fn after_detach(b: IommufdStreamBackend) -> (IommufdStreamBackend, Next) {
    match b.state.current_nested_hwpt {
        Some(hwpt) => acting(
            with_state(b, StreamBackendState { current_nested_hwpt: None, ..b.state }),
            Phase::DropHwpt { hwpt },
            HostAction::Destroy { id: hwpt },
        ),
        None => after_drop(b),
    }
}

/// What comes after the nested page table is destroyed for good.
pub open spec fn after_drop(b: IommufdStreamBackend) -> (IommufdStreamBackend, Next) {
    match b.state.vdevice_id {
        Some(vdevice) => acting(
            with_state(b, StreamBackendState { vdevice_id: None, ..b.state }),
            Phase::DropVdevice { vdevice },
            HostAction::Destroy { id: vdevice },
        ),
        None => finished(b, Ok(())),
    }
}

/// The backend as the stream gets a configuration.
pub open spec fn configured(b: IommufdStreamBackend, config: StreamConfig) -> (
    IommufdStreamBackend,
    Next,
) {
    match config {
        StreamConfig::Abort => acting(
            b,
            Phase::AttachAbort { rebind: false },
            HostAction::Attach { pt_id: b.accel.abort_hwpt_id },
        ),
        StreamConfig::Bypass => acting(
            b,
            Phase::AttachBypass,
            HostAction::Attach { pt_id: b.accel.bypass_hwpt_id },
        ),
        StreamConfig::Translate { sid, ste_dwords } => match b.state.vdevice_id {
            Some(_) => allocating(b, ste_dwords),
            None => acting(
                b,
                Phase::AllocVdevice { ste: ste_dwords },
                HostAction::AllocVdevice {
                    viommu_id: b.accel.viommu_id,
                    dev_id: b.dev_id,
                    virtual_sid: sid as u64,
                },
            ),
        },
    }
}

/// The backend as the stream gets another number.
pub open spec fn rebound(b: IommufdStreamBackend) -> (IommufdStreamBackend, Next) {
    acting(
        b,
        Phase::AttachAbort { rebind: true },
        HostAction::Attach { pt_id: b.accel.abort_hwpt_id },
    )
}

/// The backend as it is torn down.
pub open spec fn torn_down(b: IommufdStreamBackend) -> (IommufdStreamBackend, Next) {
    if b.state.attached {
        acting(b, Phase::Detach, HostAction::Detach)
    } else {
        after_detach(b)
    }
}

/// Whether a phase is in order with an answer. Detaching the device and destroying
/// an object cannot fail; an allocation gives an object or fails.
pub open spec fn reply_fits(phase: Phase, reply: HostReply) -> bool {
    match phase {
        Phase::Idle => false,
        Phase::AttachAbort { .. } | Phase::AttachBypass | Phase::AttachNested { .. } => {
            reply is Done || reply is Failed
        },
        Phase::AllocVdevice { .. } | Phase::AllocHwpt => reply is Id || reply is Failed,
        _ => reply is Done,
    }
}

/// The backend after an answer of the host.
pub open spec fn stepped(b: IommufdStreamBackend, reply: HostReply) -> (
    IommufdStreamBackend,
    Next,
) {
    match (b.phase, reply) {
        (Phase::AttachAbort { rebind }, HostReply::Done) => after_shared(b, rebind),
        (Phase::AttachAbort { rebind }, _) => finished(b, Err(StreamError::AttachAbort)),
        (Phase::AttachBypass, HostReply::Done) => after_shared(b, false),
        (Phase::AttachBypass, _) => finished(b, Err(StreamError::AttachBypass)),
        (Phase::DestroyOld { old, rebind }, _) => after_old(b, rebind),
        (Phase::DestroyVdevice { vdevice }, _) => finished(b, Ok(())),
        (Phase::AllocVdevice { ste }, HostReply::Id(vdevice)) => allocating(
            with_state(b, StreamBackendState { vdevice_id: Some(vdevice), ..b.state }),
            ste,
        ),
        (Phase::AllocVdevice { ste }, _) => finished(b, Err(StreamError::AllocVdevice)),
        (Phase::AllocHwpt, HostReply::Id(candidate)) => acting(
            b,
            Phase::AttachNested { candidate },
            HostAction::Attach { pt_id: candidate },
        ),
        (Phase::AllocHwpt, _) => finished(b, Err(StreamError::AllocHwpt)),
        (Phase::AttachNested { candidate }, HostReply::Done) => {
            let state = StreamBackendState {
                attached: true,
                current_nested_hwpt: Some(candidate),
                ..b.state
            };
            match b.state.current_nested_hwpt {
                Some(old) => acting(
                    with_state(b, state),
                    Phase::DestroyOld { old, rebind: false },
                    HostAction::Destroy { id: old },
                ),
                None => finished(with_state(b, state), Ok(())),
            }
        },
        (Phase::AttachNested { candidate }, _) => acting(
            b,
            Phase::DestroyCandidate { candidate },
            HostAction::Destroy { id: candidate },
        ),
        (Phase::DestroyCandidate { candidate }, _) => finished(
            b,
            Err(StreamError::AttachNested),
        ),
        (Phase::Detach, _) => after_detach(
            with_state(b, StreamBackendState { attached: false, ..b.state }),
        ),
        (Phase::DropHwpt { hwpt }, _) => after_drop(b),
        (Phase::DropVdevice { vdevice }, _) => finished(b, Ok(())),
        (Phase::Idle, _) => finished(b, Ok(())),
    }
}

impl IommufdStreamBackend {
    /// Creates the backend of a device that is not attached to anything.
    pub fn new(accel: SmmuAccelState, dev_id: u32) -> (r: Self)
        ensures
            r == (IommufdStreamBackend {
                accel,
                dev_id,
                state: StreamBackendState {
                    attached: false,
                    current_nested_hwpt: None,
                    vdevice_id: None,
                },
                phase: Phase::Idle,
            }),
    {
        IommufdStreamBackend {
            accel,
            dev_id,
            state: StreamBackendState {
                attached: false,
                current_nested_hwpt: None,
                vdevice_id: None,
            },
            phase: Phase::Idle,
        }
    }

    fn act(&mut self, phase: Phase, action: HostAction) -> (r: Next)
        ensures
            (*final(self), r) == acting(*old(self), phase, action),
    {
        self.phase = phase;
        Next::Act(action)
    }

    fn finish(&mut self, result: Result<(), StreamError>) -> (r: Next)
        ensures
            (*final(self), r) == finished(*old(self), result),
    {
        self.phase = Phase::Idle;
        Next::Finished(result)
    }

    fn handle_old_gone(&mut self, rebind: bool) -> (r: Next)
        ensures
            (*final(self), r) == after_old(*old(self), rebind),
    {
        if rebind {
            if let Some(vdevice) = self.state.vdevice_id {
                self.state.vdevice_id = None;
                return self.act(
                    Phase::DestroyVdevice { vdevice },
                    HostAction::Destroy { id: vdevice },
                );
            }
        }
        self.finish(Ok(()))
    }

    fn handle_shared(&mut self, rebind: bool) -> (r: Next)
        ensures
            (*final(self), r) == after_shared(*old(self), rebind),
    {
        self.state.attached = true;
        match self.state.current_nested_hwpt {
            Some(old_hwpt) => {
                self.state.current_nested_hwpt = None;
                self.act(
                    Phase::DestroyOld { old: old_hwpt, rebind },
                    HostAction::Destroy { id: old_hwpt },
                )
            },
            None => self.handle_old_gone(rebind),
        }
    }

    fn allocate(&mut self, ste: [u64; 2]) -> (r: Next)
        ensures
            (*final(self), r) == allocating(*old(self), ste),
    {
        let action = HostAction::AllocHwpt {
            dev_id: self.dev_id,
            parent: self.accel.viommu_id,
            ste,
        };
        self.act(Phase::AllocHwpt, action)
    }

    fn handle_dropped(&mut self) -> (r: Next)
        ensures
            (*final(self), r) == after_drop(*old(self)),
    {
        match self.state.vdevice_id {
            Some(vdevice) => {
                self.state.vdevice_id = None;
                self.act(Phase::DropVdevice { vdevice }, HostAction::Destroy { id: vdevice })
            },
            None => self.finish(Ok(())),
        }
    }

    fn handle_detached(&mut self) -> (r: Next)
        ensures
            (*final(self), r) == after_detach(*old(self)),
    {
        match self.state.current_nested_hwpt {
            Some(hwpt) => {
                self.state.current_nested_hwpt = None;
                self.act(Phase::DropHwpt { hwpt }, HostAction::Destroy { id: hwpt })
            },
            None => self.handle_dropped(),
        }
    }

    fn handle_nested(&mut self, candidate: u32) -> (r: Next)
        requires
            old(self).phase == (Phase::AttachNested { candidate }),
        ensures
            (*final(self), r) == stepped(*old(self), HostReply::Done),
    {
        let before: Option<u32> = self.state.current_nested_hwpt;
        self.state.attached = true;
        self.state.current_nested_hwpt = Some(candidate);
        match before {
            Some(old_hwpt) => self.act(
                Phase::DestroyOld { old: old_hwpt, rebind: false },
                HostAction::Destroy { id: old_hwpt },
            ),
            None => self.finish(Ok(())),
        }
    }

    /// Starts to follow a configuration of the stream.
    ///
    /// When addresses are to be translated, the virtual device is allocated first,
    /// if there is none yet: only then is the number of the stream known.
    pub fn set_stream_config(&mut self, config: StreamConfig) -> (r: Next)
        requires
            old(self).phase is Idle,
        ensures
            (*final(self), r) == configured(*old(self), config),
    {
        match config {
            StreamConfig::Abort => {
                let pt_id: u32 = self.accel.abort_hwpt_id;
                self.act(Phase::AttachAbort { rebind: false }, HostAction::Attach { pt_id })
            },
            StreamConfig::Bypass => {
                let pt_id: u32 = self.accel.bypass_hwpt_id;
                self.act(Phase::AttachBypass, HostAction::Attach { pt_id })
            },
            StreamConfig::Translate { sid, ste_dwords } => {
                if self.state.vdevice_id.is_some() {
                    return self.allocate(ste_dwords);
                }
                let action = HostAction::AllocVdevice {
                    viommu_id: self.accel.viommu_id,
                    dev_id: self.dev_id,
                    virtual_sid: sid as u64,
                };
                self.act(Phase::AllocVdevice { ste: ste_dwords }, action)
            },
        }
    }

    /// Starts to follow a change of the stream's number: DMA is blocked before the
    /// objects of the old identity go.
    pub fn set_stream_id(&mut self) -> (r: Next)
        requires
            old(self).phase is Idle,
        ensures
            (*final(self), r) == rebound(*old(self)),
    {
        let pt_id: u32 = self.accel.abort_hwpt_id;
        self.act(Phase::AttachAbort { rebind: true }, HostAction::Attach { pt_id })
    }

    /// Starts to tear the backend down.
    pub fn teardown(&mut self) -> (r: Next)
        requires
            old(self).phase is Idle,
        ensures
            (*final(self), r) == torn_down(*old(self)),
    {
        if self.state.attached {
            return self.act(Phase::Detach, HostAction::Detach);
        }
        self.handle_detached()
    }

    /// Goes on after an answer of the host.
    pub fn complete(&mut self, reply: HostReply) -> (r: Next)
        requires
            reply_fits(old(self).phase, reply),
        ensures
            (*final(self), r) == stepped(*old(self), reply),
    {
        match self.phase {
            Phase::Idle => self.finish(Ok(())),
            Phase::AttachAbort { rebind } => match reply {
                HostReply::Done => self.handle_shared(rebind),
                _ => self.finish(Err(StreamError::AttachAbort)),
            },
            Phase::AttachBypass => match reply {
                HostReply::Done => self.handle_shared(false),
                _ => self.finish(Err(StreamError::AttachBypass)),
            },
            Phase::DestroyOld { old: _, rebind } => self.handle_old_gone(rebind),
            Phase::DestroyVdevice { vdevice: _ } => self.finish(Ok(())),
            Phase::AllocVdevice { ste } => match reply {
                HostReply::Id(vdevice) => {
                    self.state.vdevice_id = Some(vdevice);
                    self.allocate(ste)
                },
                _ => self.finish(Err(StreamError::AllocVdevice)),
            },
            Phase::AllocHwpt => match reply {
                HostReply::Id(candidate) => self.act(
                    Phase::AttachNested { candidate },
                    HostAction::Attach { pt_id: candidate },
                ),
                _ => self.finish(Err(StreamError::AllocHwpt)),
            },
            Phase::AttachNested { candidate } => match reply {
                HostReply::Done => self.handle_nested(candidate),
                _ => self.act(
                    Phase::DestroyCandidate { candidate },
                    HostAction::Destroy { id: candidate },
                ),
            },
            Phase::DestroyCandidate { candidate: _ } => self.finish(
                Err(StreamError::AttachNested),
            ),
            Phase::Detach => {
                self.state.attached = false;
                self.handle_detached()
            },
            Phase::DropHwpt { hwpt: _ } => self.handle_dropped(),
            Phase::DropVdevice { vdevice: _ } => self.finish(Ok(())),
        }
    }
}

}
