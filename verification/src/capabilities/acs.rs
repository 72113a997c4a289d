//! PCIe Access Control Services (ACS) extended capability.
use crate::capabilities::ext_header;
use crate::capabilities::PciExtendedCapability;
use crate::regs::EXT_CAP_ID_ACS;
use crate::save_restore::RestoreError;
use vstd::prelude::*;

verus! {

/// Offset of the header.
pub const ACS_HEADER: u16 = 0x00;
/// Offset of the capability and control registers.
pub const ACS_CAPS_CONTROL: u16 = 0x04;
/// Offset of the egress control vector.
pub const ACS_EGRESS_CONTROL_VECTOR: u16 = 0x08;

/// The sub-capabilities that are enabled by default: source validation,
/// translation blocking, request redirect, completion redirect, upstream
/// forwarding and direct translated.
pub const DEFAULT_ACS_CAP_MASK: u16 = 0x005F;

/// PCIe Access Control Services (ACS) extended capability emulator.
#[derive(Debug, Clone, Copy)]
pub struct AcsExtendedCapability {
    /// The sub-capabilities.
    pub capabilities: u16,
    /// The control register.
    pub control: u16,
}

/// Saved state.
#[derive(Debug, Clone, Copy)]
pub struct AcsSavedState {
    /// The control register.
    pub control: u16,
}

impl AcsExtendedCapability {
    /// Creates an ACS capability with the default sub-capabilities.
    pub fn new() -> (r: Self)
        ensures
            r == (AcsExtendedCapability { capabilities: DEFAULT_ACS_CAP_MASK, control: 0 }),
    {
        Self::with_capabilities(DEFAULT_ACS_CAP_MASK)
    }

    /// Creates an ACS capability with the given sub-capabilities.
    pub fn with_capabilities(capability_bits: u16) -> (r: Self)
        ensures
            r == (AcsExtendedCapability { capabilities: capability_bits, control: 0 }),
    {
        AcsExtendedCapability { capabilities: capability_bits, control: 0 }
    }

    /// Saves the state.
    pub fn save(&self) -> (r: AcsSavedState)
        ensures
            r == (AcsSavedState { control: self.control }),
    {
        AcsSavedState { control: self.control }
    }

    /// Restores the state. Bits without the matching sub-capability are
    /// dropped.
    pub fn restore(&mut self, state: AcsSavedState)
        ensures
            *final(self) == acs_restored(*old(self), state),
    {
        self.control = state.control & self.capabilities;
    }
}

impl PciExtendedCapability for AcsExtendedCapability {
    type Saved = AcsSavedState;

    open spec fn label_text(&self) -> Seq<char> {
        "acs"@
    }

    open spec fn saves_as(&self, state: AcsSavedState) -> bool {
        state == (AcsSavedState { control: self.control })
    }

    open spec fn restore_error(&self, state: AcsSavedState) -> Option<RestoreError> {
        None
    }

    open spec fn restored(&self, state: AcsSavedState) -> Self {
        acs_restored(*self, state)
    }

    open spec fn ext_id(&self) -> u16 {
        EXT_CAP_ID_ACS
    }

    open spec fn ext_version(&self) -> u8 {
        1
    }

    open spec fn ext_len(&self) -> int {
        12
    }

    open spec fn value(&self, offset: u16) -> u32 {
        if offset == ACS_HEADER {
            ext_header(EXT_CAP_ID_ACS, 1)
        } else if offset == ACS_CAPS_CONTROL {
            (self.capabilities as u32) | ((self.control as u32) << 16u32)
        } else if offset == ACS_EGRESS_CONTROL_VECTOR {
            0
        } else {
            0xFFFF_FFFF
        }
    }

    /// A control bit can be set only if the matching sub-capability is there.
    open spec fn written(&self, offset: u16, val: u32) -> Self {
        if offset == ACS_CAPS_CONTROL {
            AcsExtendedCapability {
                control: ((val >> 16u32) as u16) & self.capabilities,
                ..*self
            }
        } else {
            *self
        }
    }

    open spec fn after_reset(&self) -> Self {
        AcsExtendedCapability { control: 0, ..*self }
    }

    fn label(&self) -> (r: &'static str) {
        "acs"
    }

    fn save_state(&self) -> (r: AcsSavedState) {
        self.save()
    }

    fn restore_state(&mut self, state: AcsSavedState) -> (r: Result<(), RestoreError>) {
        self.restore(state);
        Ok(())
    }

    fn extended_capability_id(&self) -> (r: u16) {
        EXT_CAP_ID_ACS
    }

    fn capability_version(&self) -> (r: u8) {
        1
    }

    fn len(&self) -> (r: usize) {
        12
    }

    fn read_u32(&self, offset: u16) -> (r: u32) {
        if offset == ACS_HEADER {
            (EXT_CAP_ID_ACS as u32) | ((1u8 as u32) << 16u32)
        } else if offset == ACS_CAPS_CONTROL {
            (self.capabilities as u32) | ((self.control as u32) << 16u32)
        } else if offset == ACS_EGRESS_CONTROL_VECTOR {
            0
        } else {
            0xFFFF_FFFF
        }
    }

    fn write_u32(&mut self, offset: u16, val: u32) {
        if offset == ACS_CAPS_CONTROL {
            self.control = ((val >> 16u32) as u16) & self.capabilities;
        }
    }

    fn reset(&mut self) {
        self.control = 0;
    }
}

/// Whether only control bits are set whose sub-capability is there.
pub open spec fn acs_wf(cap: AcsExtendedCapability) -> bool {
    cap.control & !cap.capabilities == 0
}

proof fn lemma_control(v: u16, c: u16)
    ensures
        (v & c) & !c == 0,
        0u16 & !c == 0,
        v & !c == 0 ==> v & c == v,
{
    assert((v & c) & !c == 0 && 0u16 & !c == 0 && (v & !c == 0 ==> v & c == v)) by (bit_vector);
}

/// Control bits without the matching sub-capability are never set, whatever is
/// written.
pub proof fn law_acs_control_masked(cap: AcsExtendedCapability, offset: u16, val: u32)
    requires
        acs_wf(cap),
    ensures
        acs_wf(cap.written(offset, val)),
        acs_wf(cap.after_reset()),
{
    let v = (val >> 16u32) as u16;
    let c = cap.capabilities;
    lemma_control(v, c);
}

/// The capability after a restore.
pub open spec fn acs_restored(
    cap: AcsExtendedCapability,
    state: AcsSavedState,
) -> AcsExtendedCapability {
    AcsExtendedCapability { control: state.control & cap.capabilities, ..cap }
}

/// A restore brings back what was saved, whatever was written in between.
pub proof fn law_acs_save_restore(cap: AcsExtendedCapability, offset: u16, val: u32)
    requires
        acs_wf(cap),
    ensures
        acs_restored(
            cap.written(offset, val),
            (AcsSavedState { control: cap.control }),
        ) == cap,
        acs_restored(cap.after_reset(), (AcsSavedState { control: cap.control })) == cap,
{
    let v = cap.control;
    let c = cap.capabilities;
    lemma_control(v, c);
}

}
