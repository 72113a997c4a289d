//! What the actions of a stream backend do on the host.
use crate::nesting::configured;
use crate::nesting::rebound;
use crate::nesting::reply_fits;
use crate::nesting::stepped;
use crate::nesting::torn_down;
use crate::nesting::HostAction;
use crate::nesting::HostReply;
use crate::nesting::IommufdStreamBackend;
use crate::nesting::Next;
use crate::nesting::Phase;
use crate::nesting::StreamConfig;
use vstd::prelude::*;

verus! {

/// The part of the host that a stream backend works on.
pub struct HostModel {
    /// The page table that the device is attached to.
    pub attached: Option<u32>,
    /// The objects that there are.
    pub live: Set<u32>,
}

/// The host after an action.
pub open spec fn host_after(h: HostModel, action: HostAction, reply: HostReply) -> HostModel {
    match action {
        HostAction::Attach { pt_id } => if reply is Done {
            HostModel { attached: Some(pt_id), ..h }
        } else {
            h
        },
        HostAction::Detach => HostModel { attached: None, ..h },
        HostAction::Destroy { id } => HostModel { live: h.live.remove(id), ..h },
        _ => match reply {
            HostReply::Id(id) => HostModel { live: h.live.insert(id), ..h },
            _ => h,
        },
    }
}

/// Whether the host's answer is one that it can give: an object that it allocates
/// is a new one.
pub open spec fn reply_possible(h: HostModel, reply: HostReply) -> bool {
    reply matches HostReply::Id(id) ==> !h.live.contains(id)
}

/// Whether an action is in order: only objects that are there, that nothing is
/// attached to and that are not shared are destroyed; a device is attached only to
/// a page table that is there, and detached only if it is attached.
pub open spec fn action_safe(h: HostModel, shared: Set<u32>, action: HostAction) -> bool {
    match action {
        HostAction::Attach { pt_id } => h.live.contains(pt_id),
        HostAction::Detach => h.attached is Some,
        HostAction::Destroy { id } => h.live.contains(id) && !shared.contains(id) && h.attached
            != Some(id),
        _ => true,
    }
}

/// The object that a phase is about, besides those of the state.
pub open spec fn phase_object(phase: Phase) -> Option<u32> {
    match phase {
        Phase::DestroyOld { old, rebind } => Some(old),
        Phase::DestroyVdevice { vdevice } => Some(vdevice),
        Phase::AttachNested { candidate } => Some(candidate),
        Phase::DestroyCandidate { candidate } => Some(candidate),
        Phase::DropHwpt { hwpt } => Some(hwpt),
        Phase::DropVdevice { vdevice } => Some(vdevice),
        _ => None,
    }
}

/// Whether an object is one of the backend's own.
pub open spec fn is_owned(b: IommufdStreamBackend, id: u32) -> bool {
    ||| b.state.current_nested_hwpt == Some(id)
    ||| b.state.vdevice_id == Some(id)
    ||| phase_object(b.phase) == Some(id)
}

/// Whether a backend waits for an action.
pub open spec fn waits_for(b: IommufdStreamBackend, action: HostAction) -> bool {
    match b.phase {
        Phase::Idle => false,
        Phase::AttachAbort { rebind } => action == (HostAction::Attach {
            pt_id: b.accel.abort_hwpt_id,
        }),
        Phase::AttachBypass => action == (HostAction::Attach { pt_id: b.accel.bypass_hwpt_id }),
        Phase::AllocVdevice { ste } => action is AllocVdevice,
        Phase::AllocHwpt => action is AllocHwpt,
        Phase::AttachNested { candidate } => action == (HostAction::Attach { pt_id: candidate }),
        Phase::Detach => action is Detach,
        _ => action == (HostAction::Destroy { id: phase_object(b.phase)->0 }),
    }
}

/// Whether a backend agrees with the host.
///
/// The objects on the host are the shared ones and those that the backend knows.
/// The device is attached to the nested page table, if there is one, or else to the
/// abort or the bypass page table, or to nothing.
pub open spec fn in_step(b: IommufdStreamBackend, h: HostModel, shared: Set<u32>) -> bool {
    let nested = b.state.current_nested_hwpt;
    let vdevice = b.state.vdevice_id;
    let other = phase_object(b.phase);
    &&& shared.contains(b.accel.abort_hwpt_id)
    &&& shared.contains(b.accel.bypass_hwpt_id)
    &&& forall|id: u32| #[trigger] h.live.contains(id) <==> shared.contains(id) || is_owned(b, id)
    &&& forall|id: u32| #[trigger] is_owned(b, id) ==> !shared.contains(id)
    &&& nested is Some ==> nested != vdevice && nested != other
    &&& vdevice is Some ==> vdevice != other
    &&& b.state.attached <==> h.attached is Some
    &&& nested is Some ==> h.attached == nested
    &&& nested is None && h.attached is Some ==> h.attached == Some(b.accel.abort_hwpt_id)
        || h.attached == Some(b.accel.bypass_hwpt_id)
    &&& b.phase is AllocHwpt ==> vdevice is Some
    &&& b.phase is AllocVdevice ==> vdevice is None
    &&& b.phase is Detach ==> b.state.attached
    &&& b.phase is DropHwpt ==> !b.state.attached && nested is None
    &&& b.phase is DropVdevice ==> !b.state.attached && nested is None && vdevice is None
}

/// Whether what comes next is in order.
pub open spec fn next_safe(
    b: IommufdStreamBackend,
    h: HostModel,
    shared: Set<u32>,
    next: Next,
) -> bool {
    match next {
        Next::Act(action) => waits_for(b, action) && action_safe(h, shared, action),
        Next::Finished(_) => b.phase is Idle,
    }
}

/// A new backend agrees with a host on which there are only the shared objects and
/// the device is attached to nothing.
pub proof fn law_new_in_step(b: IommufdStreamBackend, h: HostModel)
    requires
        b.phase is Idle,
        !b.state.attached,
        b.state.current_nested_hwpt is None,
        b.state.vdevice_id is None,
        h.attached is None,
        h.live.contains(b.accel.abort_hwpt_id),
        h.live.contains(b.accel.bypass_hwpt_id),
    ensures
        in_step(b, h, h.live),
{
}

/// A backend that agrees with the host still does when it starts an operation, and
/// what it asks for first is in order.
pub proof fn law_started_in_step(
    b: IommufdStreamBackend,
    h: HostModel,
    shared: Set<u32>,
    config: StreamConfig,
)
    requires
        in_step(b, h, shared),
        b.phase is Idle,
    ensures
        ({
            let (b2, next) = configured(b, config);
            in_step(b2, h, shared) && next_safe(b2, h, shared, next)
        }),
        ({
            let (b2, next) = rebound(b);
            in_step(b2, h, shared) && next_safe(b2, h, shared, next)
        }),
        ({
            let (b2, next) = torn_down(b);
            in_step(b2, h, shared) && next_safe(b2, h, shared, next)
        }),
{
    let (c, _) = configured(b, config);
    lemma_same_owned(b, c);
    let (r, _) = rebound(b);
    lemma_same_owned(b, r);
    let (t, _) = torn_down(b);
    lemma_same_owned(b, t);
    assert(h.live.contains(b.accel.abort_hwpt_id));
    assert(h.live.contains(b.accel.bypass_hwpt_id));
    assert forall|id: u32|
        (#[trigger] is_owned(c, id) || #[trigger] is_owned(r, id) || #[trigger] is_owned(
            t,
            id,
        )) implies !shared.contains(id) && h.live.contains(id) by {
        assert(is_owned(b, id));
    }
    if let Some(n) = b.state.current_nested_hwpt {
        assert(is_owned(b, n));
    }
    if let Some(v) = b.state.vdevice_id {
        assert(is_owned(b, v));
    }
}

proof fn lemma_same_owned(b: IommufdStreamBackend, c: IommufdStreamBackend)
    requires
        b.state.current_nested_hwpt is Some ==> is_owned(c, b.state.current_nested_hwpt->0),
        b.state.vdevice_id is Some ==> is_owned(c, b.state.vdevice_id->0),
        phase_object(b.phase) is Some ==> is_owned(c, phase_object(b.phase)->0),
        c.state.current_nested_hwpt is Some ==> is_owned(b, c.state.current_nested_hwpt->0),
        c.state.vdevice_id is Some ==> is_owned(b, c.state.vdevice_id->0),
        phase_object(c.phase) is Some ==> is_owned(b, phase_object(c.phase)->0),
    ensures
        forall|id: u32| #[trigger] is_owned(b, id) <==> is_owned(c, id),
{
}

/// A backend that agrees with the host still does after every answer, and what it
/// asks for next is in order: nothing is destroyed twice or while the device is
/// attached to it, and nothing is lost.
pub proof fn law_stays_in_step(
    b: IommufdStreamBackend,
    h: HostModel,
    shared: Set<u32>,
    action: HostAction,
    reply: HostReply,
)
    requires
        in_step(b, h, shared),
        waits_for(b, action),
        reply_fits(b.phase, reply),
        reply_possible(h, reply),
    ensures
        ({
            let (b2, next) = stepped(b, reply);
            let h2 = host_after(h, action, reply);
            in_step(b2, h2, shared) && next_safe(b2, h2, shared, next)
        }),
{
    let (b2, next) = stepped(b, reply);
    let h2 = host_after(h, action, reply);
    assert forall|id: u32| #[trigger] h2.live.contains(id) <==> shared.contains(id) || is_owned(
        b2,
        id,
    ) by {
        assert(h.live.contains(id) <==> shared.contains(id) || is_owned(b, id));
        assert(is_owned(b, id) ==> !shared.contains(id));
    }
    assert forall|id: u32| #[trigger] is_owned(b2, id) implies !shared.contains(id) by {
        assert(h.live.contains(id) <==> shared.contains(id) || is_owned(b, id));
        assert(is_owned(b, id) ==> !shared.contains(id));
    }
    if let Some(n) = b.state.current_nested_hwpt {
        assert(is_owned(b, n));
        assert(h.live.contains(n));
    }
    if let Some(v) = b.state.vdevice_id {
        assert(is_owned(b, v));
        assert(h.live.contains(v));
    }
    if let Some(o) = phase_object(b.phase) {
        assert(is_owned(b, o));
        assert(h.live.contains(o));
    }
    if let Some(n) = b2.state.current_nested_hwpt {
        assert(is_owned(b2, n));
    }
    if let Some(o) = phase_object(b2.phase) {
        assert(is_owned(b2, o));
        assert(h2.live.contains(o));
    }
}

/// A device that is attached stays attached until the backend is torn down.
pub proof fn law_never_unattached(
    b: IommufdStreamBackend,
    h: HostModel,
    action: HostAction,
    reply: HostReply,
)
    requires
        waits_for(b, action),
        !(b.phase is Detach),
        h.attached is Some,
    ensures
        host_after(h, action, reply).attached is Some,
{
}

/// Until the device is attached to a new nested page table, and if that fails, the
/// device stays attached to what it was, and the backend says so.
pub proof fn law_failed_translation_keeps(
    b: IommufdStreamBackend,
    h: HostModel,
    action: HostAction,
    reply: HostReply,
)
    requires
        waits_for(b, action),
        reply_fits(b.phase, reply),
        b.phase is AllocVdevice || b.phase is AllocHwpt || b.phase is DestroyCandidate || (
        b.phase is AttachNested && reply is Failed),
    ensures
        ({
            let (b2, next) = stepped(b, reply);
            &&& host_after(h, action, reply).attached == h.attached
            &&& b2.state.attached == b.state.attached
            &&& b2.state.current_nested_hwpt == b.state.current_nested_hwpt
            &&& next is Finished ==> next->Finished_0 is Err
        }),
{
}

/// When a backend is torn down, the device is attached to nothing, and of the
/// objects on the host only the shared ones are left.
pub proof fn law_nothing_left(
    b: IommufdStreamBackend,
    h: HostModel,
    shared: Set<u32>,
    action: HostAction,
    reply: HostReply,
)
    requires
        in_step(b, h, shared),
        waits_for(b, action),
        reply_fits(b.phase, reply),
        reply_possible(h, reply),
        b.phase is Detach || b.phase is DropHwpt || b.phase is DropVdevice,
        stepped(b, reply).1 is Finished,
    ensures
        host_after(h, action, reply).attached is None,
        host_after(h, action, reply).live =~= shared,
{
    law_stays_in_step(b, h, shared, action, reply);
    let (b2, _) = stepped(b, reply);
    let h2 = host_after(h, action, reply);
    assert forall|id: u32| #[trigger] h2.live.contains(id) <==> shared.contains(id) by {
        assert(!is_owned(b2, id));
    }
}

}
