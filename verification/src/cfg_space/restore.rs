//! Saving and restoring config space.
use crate::capabilities::PciCapability;
use crate::capabilities::PciExtendedCapability;
use crate::cfg_space::common::command_synced;
use crate::cfg_space::common::CommonHeaderState;
use crate::cfg_space::common::CommonModel;
use crate::cfg_space::common::ConfigSpaceCommonHeaderEmulator;
use crate::cfg_space::common::SUPPORTED_COMMAND_BITS;
use crate::save_restore::RestoreError;
use crate::slots::Slots;
use vstd::prelude::*;

verus! {

/// The saved state of a capability, under its label.
#[derive(Debug)]
pub struct SavedCapability<S> {
    /// The label.
    pub label: String,
    /// The state.
    pub state: S,
}

/// The saved state of the common part of config space.
#[derive(Debug)]
pub struct SavedState<S, X> {
    /// Command register.
    pub command: u16,
    /// BAR registers; those that the header does not have are zero.
    pub base_addresses: Slots<u32>,
    /// The software register.
    pub interrupt_line: u8,
    /// Capabilities.
    pub capabilities: Vec<SavedCapability<S>>,
    /// Extended capabilities.
    pub extended_capabilities: Vec<SavedCapability<X>>,
}

/// How a restore of capabilities ends.
pub enum RestoreOutcome {
    /// All are restored.
    Done,
    /// There is none with the label.
    Unknown(Seq<char>),
    /// One could not be restored.
    Failed(RestoreError),
}

/// Whether a result is how a restore ended.
pub open spec fn is_result(r: Result<(), RestoreError>, outcome: RestoreOutcome) -> bool {
    match outcome {
        RestoreOutcome::Done => r is Ok,
        RestoreOutcome::Unknown(label) => match r {
            Err(RestoreError::InvalidCap(s)) => s@ == label,
            _ => false,
        },
        RestoreOutcome::Failed(e) => r == Err::<(), RestoreError>(e),
    }
}

/// The first capability, from one on, with a label.
pub open spec fn cap_with_label<C: PciCapability>(caps: Seq<C>, label: Seq<char>, i: int) -> Option<
    int,
>
    decreases caps.len() - i,
{
    if i >= caps.len() {
        None
    } else if caps[i].label_text() == label {
        Some(i)
    } else {
        cap_with_label(caps, label, i + 1)
    }
}

/// The first extended capability, from one on, with a label.
pub open spec fn ext_with_label<E: PciExtendedCapability>(
    caps: Seq<E>,
    label: Seq<char>,
    i: int,
) -> Option<int>
    decreases caps.len() - i,
{
    if i >= caps.len() {
        None
    } else if caps[i].label_text() == label {
        Some(i)
    } else {
        ext_with_label(caps, label, i + 1)
    }
}

/// The capabilities after a restore of some states in order, and how it ends.
/// Each state goes to the first capability with its label.
pub open spec fn caps_restored<C: PciCapability>(
    caps: Seq<C>,
    states: Seq<SavedCapability<C::Saved>>,
) -> (Seq<C>, RestoreOutcome)
    decreases states.len(),
{
    if states.len() == 0 {
        (caps, RestoreOutcome::Done)
    } else {
        match cap_with_label(caps, states[0].label@, 0) {
            None => (caps, RestoreOutcome::Unknown(states[0].label@)),
            Some(i) => {
                let next = caps.update(i, caps[i].restored(states[0].state));
                match caps[i].restore_error(states[0].state) {
                    Some(e) => (next, RestoreOutcome::Failed(e)),
                    None => caps_restored(next, states.drop_first()),
                }
            },
        }
    }
}

/// The extended capabilities after a restore of some states in order, and how
/// it ends.
pub open spec fn exts_restored<E: PciExtendedCapability>(
    caps: Seq<E>,
    states: Seq<SavedCapability<E::Saved>>,
) -> (Seq<E>, RestoreOutcome)
    decreases states.len(),
{
    if states.len() == 0 {
        (caps, RestoreOutcome::Done)
    } else {
        match ext_with_label(caps, states[0].label@, 0) {
            None => (caps, RestoreOutcome::Unknown(states[0].label@)),
            Some(i) => {
                let next = caps.update(i, caps[i].restored(states[0].state));
                match caps[i].restore_error(states[0].state) {
                    Some(e) => (next, RestoreOutcome::Failed(e)),
                    None => exts_restored(next, states.drop_first()),
                }
            },
        }
    }
}

/// Whether states are what is saved of capabilities.
pub open spec fn caps_save_as<C: PciCapability>(
    caps: Seq<C>,
    states: Seq<SavedCapability<C::Saved>>,
) -> bool {
    &&& states.len() == caps.len()
    &&& forall|i: int|
        0 <= i < caps.len() ==> (#[trigger] states[i]).label@ == caps[i].label_text()
            && caps[i].saves_as(states[i].state)
}

/// Whether states are what is saved of extended capabilities.
pub open spec fn exts_save_as<E: PciExtendedCapability>(
    caps: Seq<E>,
    states: Seq<SavedCapability<E::Saved>>,
) -> bool {
    &&& states.len() == caps.len()
    &&& forall|i: int|
        0 <= i < caps.len() ==> (#[trigger] states[i]).label@ == caps[i].label_text()
            && caps[i].saves_as(states[i].state)
}

fn find_cap<C: PciCapability>(caps: &Vec<C>, label: &String) -> (r: Option<usize>)
    ensures
        match cap_with_label(caps@, label@, 0) {
            Some(i) => r == Some(i as usize) && 0 <= i < caps.len(),
            None => r is None,
        },
{
    let mut i: usize = 0;
    while i < caps.len()
        invariant
            i <= caps.len(),
            cap_with_label(caps@, label@, 0) == cap_with_label(caps@, label@, i as int),
        decreases caps.len() - i,
    {
        let own: String = caps[i].label().to_owned();
        if own == *label {
            return Some(i);
        }
        i = i + 1;
    }
    None
}

fn find_ext<E: PciExtendedCapability>(caps: &Vec<E>, label: &String) -> (r: Option<usize>)
    ensures
        match ext_with_label(caps@, label@, 0) {
            Some(i) => r == Some(i as usize) && 0 <= i < caps.len(),
            None => r is None,
        },
{
    let mut i: usize = 0;
    while i < caps.len()
        invariant
            i <= caps.len(),
            ext_with_label(caps@, label@, 0) == ext_with_label(caps@, label@, i as int),
        decreases caps.len() - i,
    {
        let own: String = caps[i].label().to_owned();
        if own == *label {
            return Some(i);
        }
        i = i + 1;
    }
    None
}

/// Restores capabilities.
pub fn restore_caps<C: PciCapability>(
    caps: &mut Vec<C>,
    states: Vec<SavedCapability<C::Saved>>,
) -> (r: Result<(), RestoreError>)
    ensures
        final(caps)@ == caps_restored(old(caps)@, states@).0,
        is_result(r, caps_restored(old(caps)@, states@).1),
{
    let mut rest: Vec<SavedCapability<C::Saved>> = states;
    let ghost goal = caps_restored(caps@, states@);
    while rest.len() > 0
        invariant
            goal == caps_restored(old(caps)@, states@),
            caps_restored(caps@, rest@) == goal,
        decreases rest.len(),
    {
        let ghost before = rest@;
        let entry: SavedCapability<C::Saved> = rest.remove(0);
        assert(rest@ =~= before.drop_first());
        match find_cap(caps, &entry.label) {
            None => {
                return Err(RestoreError::InvalidCap(entry.label));
            },
            Some(i) => {
                let result: Result<(), RestoreError> = caps[i].restore_state(entry.state);
                if let Err(e) = result {
                    return Err(e);
                }
            },
        }
    }
    Ok(())
}

/// Restores extended capabilities.
pub fn restore_exts<E: PciExtendedCapability>(
    caps: &mut Vec<E>,
    states: Vec<SavedCapability<E::Saved>>,
) -> (r: Result<(), RestoreError>)
    ensures
        final(caps)@ == exts_restored(old(caps)@, states@).0,
        is_result(r, exts_restored(old(caps)@, states@).1),
{
    let mut rest: Vec<SavedCapability<E::Saved>> = states;
    let ghost goal = exts_restored(caps@, states@);
    while rest.len() > 0
        invariant
            goal == exts_restored(old(caps)@, states@),
            exts_restored(caps@, rest@) == goal,
        decreases rest.len(),
    {
        let ghost before = rest@;
        let entry: SavedCapability<E::Saved> = rest.remove(0);
        assert(rest@ =~= before.drop_first());
        match find_ext(caps, &entry.label) {
            None => {
                return Err(RestoreError::InvalidCap(entry.label));
            },
            Some(i) => {
                let result: Result<(), RestoreError> = caps[i].restore_state(entry.state);
                if let Err(e) = result {
                    return Err(e);
                }
            },
        }
    }
    Ok(())
}

fn save_caps<C: PciCapability>(caps: &Vec<C>) -> (r: Vec<SavedCapability<C::Saved>>)
    ensures
        caps_save_as(caps@, r@),
{
    let mut states: Vec<SavedCapability<C::Saved>> = Vec::new();
    let mut i: usize = 0;
    while i < caps.len()
        invariant
            i <= caps.len(),
            caps_save_as(caps@.take(i as int), states@),
        decreases caps.len() - i,
    {
        let label: String = caps[i].label().to_owned();
        let state: C::Saved = caps[i].save_state();
        let ghost before = states@;
        states.push(SavedCapability { label, state });
        proof {
            let taken = caps@.take(i + 1);
            assert forall|j: int| 0 <= j < taken.len() implies (#[trigger] states@[j]).label@
                == taken[j].label_text() && taken[j].saves_as(states@[j].state) by {
                if j < i {
                    assert(states@[j] == before[j]);
                    assert(caps@.take(i as int)[j] == taken[j]);
                }
            }
        }
        i = i + 1;
    }
    assert(caps@.take(caps.len() as int) =~= caps@);
    states
}

fn save_exts<E: PciExtendedCapability>(caps: &Vec<E>) -> (r: Vec<SavedCapability<E::Saved>>)
    ensures
        exts_save_as(caps@, r@),
{
    let mut states: Vec<SavedCapability<E::Saved>> = Vec::new();
    let mut i: usize = 0;
    while i < caps.len()
        invariant
            i <= caps.len(),
            exts_save_as(caps@.take(i as int), states@),
        decreases caps.len() - i,
    {
        let label: String = caps[i].label().to_owned();
        let state: E::Saved = caps[i].save_state();
        let ghost before = states@;
        states.push(SavedCapability { label, state });
        proof {
            let taken = caps@.take(i + 1);
            assert forall|j: int| 0 <= j < taken.len() implies (#[trigger] states@[j]).label@
                == taken[j].label_text() && taken[j].saves_as(states@[j].state) by {
                if j < i {
                    assert(states@[j] == before[j]);
                    assert(caps@.take(i as int)[j] == taken[j]);
                }
            }
        }
        i = i + 1;
    }
    assert(caps@.take(caps.len() as int) =~= caps@);
    states
}

/// The first BAR registers; the others are zero.
pub open spec fn first_slots(slots: Slots<u32>, count: int) -> Slots<u32> {
    if count == 2 {
        Slots { s2: 0, s3: 0, s4: 0, s5: 0, ..slots }
    } else {
        slots
    }
}

/// The common part after the registers of a saved state are taken over.
pub open spec fn registers_restored<C, E, S, X>(
    m: CommonModel<C, E>,
    saved: SavedState<S, X>,
) -> CommonModel<C, E> {
    CommonModel {
        state: CommonHeaderState {
            command: saved.command,
            base_addresses: first_slots(saved.base_addresses, m.bar_count),
            interrupt_line: saved.interrupt_line,
        },
        ..m
    }
}

/// The common part after a restore, and how it ends. Registers are taken over
/// before a command register with bits that are not supported is refused.
pub open spec fn common_restored<C: PciCapability, E: PciExtendedCapability>(
    m: CommonModel<C, E>,
    saved: SavedState<C::Saved, E::Saved>,
) -> (CommonModel<C, E>, RestoreOutcome) {
    let taken = registers_restored(m, saved);
    if saved.command & !SUPPORTED_COMMAND_BITS != 0 {
        (taken, RestoreOutcome::Failed(RestoreError::InvalidConfigBits))
    } else {
        let synced = command_synced(taken, saved.command);
        let (caps, outcome) = caps_restored(m.capabilities, saved.capabilities@);
        let with_caps = CommonModel { capabilities: caps, ..synced };
        match outcome {
            RestoreOutcome::Done => {
                let (exts, outcome) = exts_restored(
                    m.extended_capabilities,
                    saved.extended_capabilities@,
                );
                (CommonModel { extended_capabilities: exts, ..with_caps }, outcome)
            },
            _ => (with_caps, outcome),
        }
    }
}

/// Whether a state is what is saved of the common part.
pub open spec fn common_saves_as<C: PciCapability, E: PciExtendedCapability>(
    m: CommonModel<C, E>,
    saved: SavedState<C::Saved, E::Saved>,
) -> bool {
    &&& saved.command == m.state.command
    &&& saved.base_addresses == first_slots(m.state.base_addresses, m.bar_count)
    &&& saved.interrupt_line == m.state.interrupt_line
    &&& caps_save_as(m.capabilities, saved.capabilities@)
    &&& exts_save_as(m.extended_capabilities, saved.extended_capabilities@)
}

impl<const N: usize, C: PciCapability, E: PciExtendedCapability> ConfigSpaceCommonHeaderEmulator<
    N,
    C,
    E,
> {
    /// Saves the state.
    pub fn save(&self) -> (r: SavedState<C::Saved, E::Saved>)
        ensures
            common_saves_as(self@, r),
    {
        SavedState {
            command: self.state.command,
            base_addresses: if N == 2 {
                Slots { s2: 0, s3: 0, s4: 0, s5: 0, ..self.state.base_addresses }
            } else {
                self.state.base_addresses
            },
            interrupt_line: self.state.interrupt_line,
            capabilities: save_caps(&self.capabilities),
            extended_capabilities: save_exts(&self.extended_capabilities),
        }
    }

    /// Restores a state.
    pub fn restore(&mut self, saved: SavedState<C::Saved, E::Saved>) -> (r: Result<
        (),
        RestoreError,
    >)
        ensures
            final(self)@ == common_restored(old(self)@, saved).0,
            is_result(r, common_restored(old(self)@, saved).1),
    {
        self.state.command = saved.command;
        self.state.base_addresses = if N == 2 {
            Slots { s2: 0, s3: 0, s4: 0, s5: 0, ..saved.base_addresses }
        } else {
            saved.base_addresses
        };
        self.state.interrupt_line = saved.interrupt_line;
        if saved.command & !SUPPORTED_COMMAND_BITS != 0 {
            return Err(RestoreError::InvalidConfigBits);
        }
        self.sync_command_register(saved.command);
        let result: Result<(), RestoreError> = restore_caps(
            &mut self.capabilities,
            saved.capabilities,
        );
        if let Err(e) = result {
            return Err(e);
        }
        restore_exts(&mut self.extended_capabilities, saved.extended_capabilities)
    }
}

/// Whether a kind of capability keeps its label in a restore.
pub open spec fn label_kept<C: PciCapability>(cap: C, state: C::Saved) -> bool {
    cap.restored(state).label_text() == cap.label_text()
}

proof fn lemma_label_found<C: PciCapability>(caps: Seq<C>, k: int, i: int)
    requires
        0 <= i <= k < caps.len(),
        forall|a: int, b: int|
            0 <= a < b < caps.len() ==> (#[trigger] caps[a]).label_text() != (
            #[trigger] caps[b]).label_text(),
    ensures
        cap_with_label(caps, caps[k].label_text(), i) == Some(k),
    decreases k - i,
{
    if i < k {
        assert(caps[i].label_text() != caps[k].label_text());
        lemma_label_found(caps, k, i + 1);
    }
}

proof fn lemma_caps_restored<C: PciCapability>(
    caps: Seq<C>,
    states: Seq<SavedCapability<C::Saved>>,
    done: int,
)
    requires
        0 <= done <= caps.len(),
        states.len() == caps.len() - done,
        forall|a: int, b: int|
            0 <= a < b < caps.len() ==> (#[trigger] caps[a]).label_text() != (
            #[trigger] caps[b]).label_text(),
        forall|j: int|
            0 <= j < states.len() ==> {
                &&& (#[trigger] states[j]).label@ == caps[done + j].label_text()
                &&& caps[done + j].restore_error(states[j].state) is None
                &&& label_kept(caps[done + j], states[j].state)
            },
    ensures
        caps_restored(caps, states).1 == RestoreOutcome::Done,
        caps_restored(caps, states).0.len() == caps.len(),
        forall|i: int|
            0 <= i < caps.len() ==> #[trigger] caps_restored(caps, states).0[i] == if i < done {
                caps[i]
            } else {
                caps[i].restored(states[i - done].state)
            },
    decreases states.len(),
{
    if states.len() > 0 {
        assert(states[0].label@ == caps[done].label_text());
        lemma_label_found(caps, done, 0);
        let next = caps.update(done, caps[done].restored(states[0].state));
        let rest = states.drop_first();
        assert forall|a: int, b: int| 0 <= a < b < next.len() implies (
        #[trigger] next[a]).label_text() != (#[trigger] next[b]).label_text() by {
            assert(caps[a].label_text() != caps[b].label_text());
        }
        assert forall|j: int| 0 <= j < rest.len() implies {
            &&& (#[trigger] rest[j]).label@ == next[done + 1 + j].label_text()
            &&& next[done + 1 + j].restore_error(rest[j].state) is None
            &&& label_kept(next[done + 1 + j], rest[j].state)
        } by {
            assert(rest[j] == states[j + 1]);
        }
        lemma_caps_restored(next, rest, done + 1);
        assert forall|i: int| 0 <= i < caps.len() implies #[trigger] caps_restored(caps, states).0[i]
            == if i < done {
            caps[i]
        } else {
            caps[i].restored(states[i - done].state)
        } by {
            assert(caps_restored(next, rest).0[i] == if i < done + 1 {
                next[i]
            } else {
                next[i].restored(rest[i - (done + 1)].state)
            });
            if i > done {
                assert(rest[i - (done + 1)] == states[i - done]);
            }
        }
    }
}

/// Capabilities with different labels are each restored from their own state.
pub proof fn law_caps_restored<C: PciCapability>(
    caps: Seq<C>,
    saved: Seq<C>,
    states: Seq<SavedCapability<C::Saved>>,
)
    requires
        caps_save_as(saved, states),
        caps.len() == saved.len(),
        forall|i: int|
            0 <= i < caps.len() ==> (#[trigger] caps[i]).label_text() == saved[i].label_text(),
        forall|a: int, b: int|
            0 <= a < b < caps.len() ==> (#[trigger] caps[a]).label_text() != (
            #[trigger] caps[b]).label_text(),
        forall|j: int|
            0 <= j < states.len() ==> caps[j].restore_error((#[trigger] states[j]).state) is None
                && label_kept(caps[j], states[j].state),
    ensures
        caps_restored(caps, states).1 == RestoreOutcome::Done,
        caps_restored(caps, states).0.len() == caps.len(),
        forall|i: int|
            0 <= i < caps.len() ==> #[trigger] caps_restored(caps, states).0[i]
                == caps[i].restored(states[i].state),
{
    assert forall|j: int| 0 <= j < states.len() implies {
        &&& (#[trigger] states[j]).label@ == caps[0 + j].label_text()
        &&& caps[0 + j].restore_error(states[j].state) is None
        &&& label_kept(caps[0 + j], states[j].state)
    } by {
        assert(caps[j].label_text() == saved[j].label_text());
    }
    lemma_caps_restored(caps, states, 0);
}

/// A restore of what was saved brings back the registers of the common part and
/// where BARs are, whatever was done to it in between.
pub proof fn law_registers_restored<C: PciCapability, E: PciExtendedCapability>(
    m: CommonModel<C, E>,
    other: CommonModel<C, E>,
    saved: SavedState<C::Saved, E::Saved>,
)
    requires
        common_saves_as(m, saved),
        crate::cfg_space::common::common_wf(m),
        m.state.command & !SUPPORTED_COMMAND_BITS == 0,
        m.bar_count == 2 ==> first_slots(m.state.base_addresses, 2) == m.state.base_addresses,
        m.bar_count == 2 || m.bar_count == 6,
        other.bar_count == m.bar_count,
        other.bar_masks == m.bar_masks,
    ensures
        common_restored(other, saved).0.state == m.state,
        common_restored(other, saved).0.active_bars == m.active_bars,
{
}

}
