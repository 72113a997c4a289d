//! What a conversation of a stream backend with the host comes to, from its first
//! action to its last.
use crate::nesting::configured;
use crate::nesting::host::waits_for;
use crate::nesting::rebound;
use crate::nesting::reply_fits;
use crate::nesting::setup::setup_action;
use crate::nesting::setup::setup_after;
use crate::nesting::setup::SmmuAccelSetup;
use crate::nesting::stepped;
use crate::nesting::torn_down;
use crate::nesting::HostAction;
use crate::nesting::HostReply;
use crate::nesting::IommufdStreamBackend;
use crate::nesting::Next;
use crate::nesting::StreamConfig;
use crate::nesting::StreamError;
use vstd::prelude::*;

verus! {

/// A host, and what was done on it.
pub struct World {
    /// The page table that the device is attached to.
    pub attached: Option<u32>,
    /// What the device was attached to, one after the other; `None` where it was
    /// detached.
    pub moves: Seq<Option<u32>>,
    /// The objects that there are.
    pub live: Set<u32>,
    /// How each object was asked for.
    pub made: Map<u32, HostAction>,
}

/// Whether the host can give an answer to an action: detaching a device and
/// destroying an object always work, and an object that is allocated is a new one.
pub open spec fn can_answer(w: World, action: HostAction, reply: HostReply) -> bool {
    match action {
        HostAction::Attach { .. } => reply is Done || reply is Failed,
        HostAction::Detach | HostAction::Destroy { .. } => reply is Done,
        _ => match reply {
            HostReply::Id(id) => !w.live.contains(id),
            HostReply::Failed => true,
            HostReply::Done => false,
        },
    }
}

/// The host after an action that it has answered.
pub open spec fn world_after(w: World, action: HostAction, reply: HostReply) -> World {
    match action {
        HostAction::Attach { pt_id } => if reply is Done {
            World { attached: Some(pt_id), moves: w.moves.push(Some(pt_id)), ..w }
        } else {
            w
        },
        HostAction::Detach => World { attached: None, moves: w.moves.push(None), ..w },
        HostAction::Destroy { id } => World { live: w.live.remove(id), ..w },
        _ => match reply {
            HostReply::Id(id) => World {
                live: w.live.insert(id),
                made: w.made.insert(id, action),
                ..w
            },
            _ => w,
        },
    }
}

/// A conversation: the backend, what it wants next, and the host.
pub struct Talk {
    /// The backend.
    pub backend: IommufdStreamBackend,
    /// What comes next.
    pub next: Next,
    /// The host.
    pub world: World,
}

/// The start of a conversation.
pub open spec fn talk(start: (IommufdStreamBackend, Next), world: World) -> Talk {
    Talk { backend: start.0, next: start.1, world }
}

/// The conversation after one answer.
pub open spec fn answered(t: Talk, reply: HostReply) -> Talk {
    match t.next {
        Next::Act(action) => talk(stepped(t.backend, reply), world_after(t.world, action, reply)),
        Next::Finished(_) => t,
    }
}

/// The conversation after some answers. It ends when the operation is over.
pub open spec fn talked(t: Talk, replies: Seq<HostReply>) -> Talk
    decreases replies.len(),
{
    if replies.len() == 0 || t.next is Finished {
        t
    } else {
        talked(answered(t, replies[0]), replies.drop_first())
    }
}

/// Whether the host can give these answers.
pub open spec fn can_talk(t: Talk, replies: Seq<HostReply>) -> bool
    decreases replies.len(),
{
    if replies.len() == 0 || t.next is Finished {
        true
    } else {
        &&& t.next matches Next::Act(action) && can_answer(t.world, action, replies[0])
        &&& can_talk(answered(t, replies[0]), replies.drop_first())
    }
}

/// Whether a backend between two operations knows its objects on the host.
pub open spec fn knows_world(b: IommufdStreamBackend, w: World) -> bool {
    &&& b.phase is Idle
    &&& b.state.current_nested_hwpt matches Some(n) ==> w.live.contains(n)
    &&& b.state.vdevice_id matches Some(v) ==> w.live.contains(v)
    &&& b.state.current_nested_hwpt is Some ==> b.state.current_nested_hwpt != b.state.vdevice_id
}

/// A backend takes every answer that the host can give to what it waits for.
pub proof fn law_answers_taken(
    b: IommufdStreamBackend,
    w: World,
    action: HostAction,
    reply: HostReply,
)
    requires
        waits_for(b, action),
        can_answer(w, action, reply),
    ensures
        reply_fits(b.phase, reply),
{
}

/// A backend that asks for something waits for it, and one that is done waits for
/// nothing.
pub proof fn law_waits_for_what_it_asks(b: IommufdStreamBackend, reply: HostReply)
    requires
        reply_fits(b.phase, reply),
    ensures
        match stepped(b, reply).1 {
            Next::Act(action) => waits_for(stepped(b, reply).0, action),
            Next::Finished(_) => stepped(b, reply).0.phase is Idle,
        },
{
}

/// What a page table of the device's own has to be made with.
pub open spec fn translates_by(b: IommufdStreamBackend, w: World, t: u32, ste: [u64; 2]) -> bool {
    &&& w.made.dom().contains(t)
    &&& w.made[t] == (HostAction::AllocHwpt { dev_id: b.dev_id, parent: b.accel.viommu_id, ste })
    &&& w.live.contains(t)
}

/// A stream that is to be blocked ends attached to the abort page table, one that is
/// not to be translated to the bypass page table, and nothing else on the way. The
/// page table that it had for itself is gone.
pub proof fn law_shared_followed(
    b: IommufdStreamBackend,
    w: World,
    config: StreamConfig,
    replies: Seq<HostReply>,
)
    requires
        knows_world(b, w),
        config is Abort || config is Bypass,
        can_talk(talk(configured(b, config), w), replies),
    ensures
        ({
            let end = talked(talk(configured(b, config), w), replies);
            let target = if config is Abort {
                b.accel.abort_hwpt_id
            } else {
                b.accel.bypass_hwpt_id
            };
            &&& replies.len() >= 2 ==> end.next is Finished
            &&& end.next matches Next::Finished(Ok(_)) ==> {
                &&& end.world.attached == Some(target)
                &&& end.world.moves == w.moves.push(Some(target))
                &&& end.world.made == w.made
                &&& end.backend.state.attached
                &&& end.backend.state.current_nested_hwpt is None
                &&& end.backend.state.vdevice_id == b.state.vdevice_id
                &&& end.world.live == match b.state.current_nested_hwpt {
                    Some(n) => w.live.remove(n),
                    None => w.live,
                }
            }
            &&& end.next matches Next::Finished(Err(_)) ==> {
                &&& replies[0] is Failed
                &&& end.next == Next::Finished(
                    Err(
                        if config is Abort {
                            StreamError::AttachAbort
                        } else {
                            StreamError::AttachBypass
                        },
                    ),
                )
                &&& end.world == w
                &&& end.backend.state == b.state
            }
            &&& end.backend.accel == b.accel && end.backend.dev_id == b.dev_id
        }),
{
    reveal_with_fuel(talked, 4);
    reveal_with_fuel(can_talk, 4);
}

/// A stream that is to be translated ends attached to a new page table that was made
/// with the entry given, and nothing else on the way; the one before it is gone. The
/// guest's number of the stream is that of the virtual device, which is made if there
/// is none. If something fails, the device stays attached to what it was, and no new
/// page table is left.
pub proof fn law_translation_followed(
    b: IommufdStreamBackend,
    w: World,
    sid: u32,
    ste: [u64; 2],
    replies: Seq<HostReply>,
)
    requires
        knows_world(b, w),
        can_talk(talk(configured(b, StreamConfig::Translate { sid, ste_dwords: ste }), w), replies),
    ensures
        ({
            let start = talk(configured(b, StreamConfig::Translate { sid, ste_dwords: ste }), w);
            let end = talked(start, replies);
            &&& replies.len() >= 4 ==> end.next is Finished
            &&& end.next matches Next::Finished(Ok(_)) ==> {
                &&& end.world.attached matches Some(t) && translates_by(b, end.world, t, ste)
                    && !w.live.contains(t)
                &&& end.world.moves == w.moves.push(end.world.attached)
                &&& end.backend.state.attached
                &&& end.backend.state.current_nested_hwpt == end.world.attached
                &&& b.state.current_nested_hwpt matches Some(old) ==> !end.world.live.contains(old)
            }
            &&& end.next matches Next::Finished(_) ==> {
                &&& b.state.vdevice_id is Some ==> end.backend.state.vdevice_id
                    == b.state.vdevice_id
                &&& b.state.vdevice_id is None ==> match end.backend.state.vdevice_id {
                    Some(v) => end.world.live.contains(v) && end.world.made.dom().contains(v)
                        && end.world.made[v] == (HostAction::AllocVdevice {
                        viommu_id: b.accel.viommu_id,
                        dev_id: b.dev_id,
                        virtual_sid: sid as u64,
                    }),
                    None => end.next == Next::Finished(Err(StreamError::AllocVdevice)),
                }
            }
            &&& end.next matches Next::Finished(Err(e)) ==> {
                &&& exists|i: int| #![trigger replies[i]] 0 <= i < replies.len()
                    && replies[i] is Failed
                &&& e == StreamError::AllocVdevice || e == StreamError::AllocHwpt || e
                    == StreamError::AttachNested
                &&& end.world.attached == w.attached
                &&& end.world.moves == w.moves
                &&& end.backend.state.attached == b.state.attached
                &&& end.backend.state.current_nested_hwpt == b.state.current_nested_hwpt
                &&& end.world.live =~= match end.backend.state.vdevice_id {
                    Some(v) => w.live.insert(v),
                    None => w.live,
                }
            }
            &&& end.backend.accel == b.accel && end.backend.dev_id == b.dev_id
        }),
{
    reveal_with_fuel(talked, 6);
    reveal_with_fuel(can_talk, 6);
    let r = replies;
    assert(r.len() > 1 ==> r.drop_first()[0] == r[1]);
    assert(r.len() > 2 ==> r.drop_first().drop_first()[0] == r[2]);
    assert(r.len() > 3 ==> r.drop_first().drop_first().drop_first()[0] == r[3]);
}

/// A stream that gets another number ends attached to the abort page table, without
/// a page table of its own and without a virtual device.
pub proof fn law_rebind_followed(b: IommufdStreamBackend, w: World, replies: Seq<HostReply>)
    requires
        knows_world(b, w),
        can_talk(talk(rebound(b), w), replies),
    ensures
        ({
            let end = talked(talk(rebound(b), w), replies);
            &&& replies.len() >= 3 ==> end.next is Finished
            &&& end.next matches Next::Finished(Ok(_)) ==> {
                &&& end.world.attached == Some(b.accel.abort_hwpt_id)
                &&& end.world.moves == w.moves.push(Some(b.accel.abort_hwpt_id))
                &&& end.world.made == w.made
                &&& end.backend.state.attached
                &&& end.backend.state.current_nested_hwpt is None
                &&& end.backend.state.vdevice_id is None
                &&& b.state.current_nested_hwpt matches Some(n) ==> !end.world.live.contains(n)
                &&& b.state.vdevice_id matches Some(v) ==> !end.world.live.contains(v)
                &&& forall|id: u32|
                    w.live.contains(id) && b.state.current_nested_hwpt != Some(id)
                        && b.state.vdevice_id != Some(id) ==> #[trigger] end.world.live.contains(id)
            }
            &&& end.next matches Next::Finished(Err(_)) ==> {
                &&& replies[0] is Failed
                &&& end.world == w
                &&& end.backend.state == b.state
            }
        }),
{
    reveal_with_fuel(talked, 5);
    reveal_with_fuel(can_talk, 5);
}

/// A backend that is torn down ends with the device detached, and with none of its
/// objects left.
pub proof fn law_teardown_followed(b: IommufdStreamBackend, w: World, replies: Seq<HostReply>)
    requires
        knows_world(b, w),
        b.state.attached <==> w.attached is Some,
        can_talk(talk(torn_down(b), w), replies),
    ensures
        ({
            let end = talked(talk(torn_down(b), w), replies);
            &&& replies.len() >= 3 ==> end.next is Finished
            &&& end.next is Finished ==> {
                &&& end.next->Finished_0 is Ok
                &&& end.world.attached is None
                &&& end.world.made == w.made
                &&& !end.backend.state.attached
                &&& end.backend.state.current_nested_hwpt is None
                &&& end.backend.state.vdevice_id is None
                &&& b.state.current_nested_hwpt matches Some(n) ==> !end.world.live.contains(n)
                &&& b.state.vdevice_id matches Some(v) ==> !end.world.live.contains(v)
                &&& forall|id: u32|
                    w.live.contains(id) && b.state.current_nested_hwpt != Some(id)
                        && b.state.vdevice_id != Some(id) ==> #[trigger] end.world.live.contains(id)
            }
        }),
{
    reveal_with_fuel(talked, 5);
    reveal_with_fuel(can_talk, 5);
}

/// The making of the shared objects, and the host, after some answers.
pub open spec fn set_up(setup: SmmuAccelSetup, w: World, replies: Seq<HostReply>) -> (
    SmmuAccelSetup,
    World,
)
    decreases replies.len(),
{
    match setup_action(setup) {
        Some(action) if replies.len() > 0 => set_up(
            setup_after(setup, replies[0]),
            world_after(w, action, replies[0]),
            replies.drop_first(),
        ),
        _ => (setup, w),
    }
}

/// Whether the host can give these answers while the shared objects are made.
pub open spec fn can_set_up(setup: SmmuAccelSetup, w: World, replies: Seq<HostReply>) -> bool
    decreases replies.len(),
{
    match setup_action(setup) {
        Some(action) if replies.len() > 0 => {
            &&& can_answer(w, action, replies[0])
            &&& can_set_up(
                setup_after(setup, replies[0]),
                world_after(w, action, replies[0]),
                replies.drop_first(),
            )
        },
        _ => true,
    }
}

/// The shared objects are made as their names say: a virtual IOMMU on the parent page
/// table, and on it a page table whose entry is valid and aborts, and one whose entry
/// is valid and bypasses stage 1. That fails only if the host fails.
pub proof fn law_shared_made(dev_id: u32, parent: u32, w: World, replies: Seq<HostReply>)
    requires
        can_set_up(SmmuAccelSetup::Viommu { dev_id, s2_parent_hwpt_id: parent }, w, replies),
    ensures
        ({
            let (setup, end) = set_up(
                SmmuAccelSetup::Viommu { dev_id, s2_parent_hwpt_id: parent },
                w,
                replies,
            );
            &&& replies.len() >= 3 ==> setup is Ready || setup is Failed
            &&& setup is Failed ==> exists|i: int| #![trigger replies[i]] 0 <= i < replies.len()
                && replies[i] is Failed
            &&& setup matches SmmuAccelSetup::Ready(s) ==> {
                &&& s.s2_parent_hwpt_id == parent
                &&& end.made.dom().contains(s.viommu_id)
                &&& end.made[s.viommu_id] == (HostAction::AllocViommu { dev_id, parent })
                &&& end.made.dom().contains(s.abort_hwpt_id)
                &&& end.made[s.abort_hwpt_id] matches HostAction::AllocHwpt {
                    dev_id: d,
                    parent: p,
                    ste,
                } && d == dev_id && p == s.viommu_id && ste[0] == 1 && ste[1] == 0
                &&& end.made.dom().contains(s.bypass_hwpt_id)
                &&& end.made[s.bypass_hwpt_id] matches HostAction::AllocHwpt {
                    dev_id: d,
                    parent: p,
                    ste,
                } && d == dev_id && p == s.viommu_id && ste[0] == 9 && ste[1] == 0
                &&& s.abort_hwpt_id != s.bypass_hwpt_id
                &&& end.live.contains(s.viommu_id) && end.live.contains(s.abort_hwpt_id)
                    && end.live.contains(s.bypass_hwpt_id)
            }
        }),
{
    reveal_with_fuel(set_up, 5);
    reveal_with_fuel(can_set_up, 5);
    let r = replies;
    assert(r.len() > 1 ==> r.drop_first()[0] == r[1]);
    assert(r.len() > 2 ==> r.drop_first().drop_first()[0] == r[2]);
}

}
