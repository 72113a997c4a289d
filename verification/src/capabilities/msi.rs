//! MSI capability.
use crate::capabilities::PciCapability;
use crate::regs::CAP_ID_MSI;
use crate::save_restore::RestoreError;
use vstd::prelude::*;

verus! {

/// Offset of the identifier and the control register.
pub const MSI_CONTROL_CAPS: u16 = 0x00;
/// Offset of the lower half of the message address.
pub const MSI_MSG_ADDR_LO: u16 = 0x04;
/// Offset of the upper half of the message address, if there is one.
pub const MSI_MSG_ADDR_HI: u16 = 0x08;
/// Offset of the message data if addresses have 32 bits.
pub const MSI_MSG_DATA_32: u16 = 0x08;
/// Offset of the message data if addresses have 64 bits.
pub const MSI_MSG_DATA_64: u16 = 0x0C;
/// Offset of the mask bits.
pub const MSI_MASK_BITS: u16 = 0x10;
/// Offset of the pending bits.
pub const MSI_PENDING_BITS: u16 = 0x14;

/// A message: what is written where to signal an interrupt.
#[derive(Debug, Clone, Copy, PartialEq, Eq, Structural)]
pub struct MsiMessage {
    /// The address.
    pub address: u64,
    /// The data.
    pub data: u32,
}

/// The interrupt behind an MSI capability: the message that it is armed with.
#[derive(Debug, Clone, Copy, PartialEq, Eq, Structural)]
pub struct MsiInterrupt {
    /// The message, while the interrupt is enabled.
    pub armed: Option<MsiMessage>,
}

impl MsiInterrupt {
    /// Arms the interrupt.
    pub fn enable(&mut self, address: u64, data: u32)
        ensures
            final(self).armed == Some(MsiMessage { address, data }),
    {
        self.armed = Some(MsiMessage { address, data });
    }

    /// Disarms the interrupt.
    pub fn disable(&mut self)
        ensures
            final(self).armed is None,
    {
        self.armed = None;
    }
}

/// The registers of an MSI capability.
#[derive(Debug, Clone, Copy)]
pub struct MsiCapabilityState {
    /// Whether MSI is enabled.
    pub enabled: bool,
    /// Exponent of the number of messages that are allocated.
    pub multiple_message_enable: u8,
    /// Exponent of the number of messages that can be had.
    pub multiple_message_capable: u8,
    /// Message address.
    pub address: u64,
    /// Message data.
    pub data: u16,
    /// Mask bits.
    pub mask_bits: u32,
    /// Pending bits.
    pub pending_bits: u32,
    /// The interrupt.
    pub interrupt: MsiInterrupt,
}

/// The registers after reset.
pub open spec fn msi_idle(multiple_message_capable: u8, per_vector_masking: bool) -> MsiCapabilityState {
    MsiCapabilityState {
        enabled: false,
        multiple_message_enable: 0,
        multiple_message_capable,
        address: 0,
        data: 0,
        mask_bits: if per_vector_masking {
            0xFFFF_FFFF
        } else {
            0
        },
        pending_bits: 0,
        interrupt: MsiInterrupt { armed: None },
    }
}

/// The control register.
pub open spec fn msi_control(
    state: MsiCapabilityState,
    addr_64bit: bool,
    per_vector_masking: bool,
) -> u32 {
    ((state.multiple_message_capable as u32) << 1u32) | ((state.multiple_message_enable as u32)
        << 4u32) | (if addr_64bit {
        0x80u32
    } else {
        0
    }) | (if per_vector_masking {
        0x100u32
    } else {
        0
    }) | (if state.enabled {
        1u32
    } else {
        0
    })
}

impl MsiCapabilityState {
    /// Creates registers as they are after reset.
    pub fn new(multiple_message_capable: u8, per_vector_masking: bool) -> (r: Self)
        ensures
            r == msi_idle(multiple_message_capable, per_vector_masking),
    {
        MsiCapabilityState {
            enabled: false,
            multiple_message_enable: 0,
            multiple_message_capable,
            address: 0,
            data: 0,
            mask_bits: if per_vector_masking {
                0xFFFF_FFFF
            } else {
                0
            },
            pending_bits: 0,
            interrupt: MsiInterrupt { armed: None },
        }
    }

    /// Returns the control register.
    pub fn control_register(&self, addr_64bit: bool, per_vector_masking: bool) -> (r: u32)
        ensures
            r == msi_control(*self, addr_64bit, per_vector_masking),
    {
        let wide: u32 = if addr_64bit {
            0x80
        } else {
            0
        };
        let masking: u32 = if per_vector_masking {
            0x100
        } else {
            0
        };
        let enabled: u32 = if self.enabled {
            1
        } else {
            0
        };
        ((self.multiple_message_capable as u32) << 1u32) | ((self.multiple_message_enable as u32)
            << 4u32) | wide | masking | enabled
    }

    /// Arms the interrupt with the message in the registers if MSI is enabled.
    fn rearm(&mut self)
        ensures
            *final(self) == msi_rearmed(*old(self)),
    {
        if self.enabled {
            self.interrupt.enable(self.address, self.data as u32);
        }
    }
}

/// The registers with the interrupt armed anew if MSI is enabled.
pub open spec fn msi_rearmed(state: MsiCapabilityState) -> MsiCapabilityState {
    if state.enabled {
        MsiCapabilityState {
            interrupt: MsiInterrupt {
                armed: Some(MsiMessage { address: state.address, data: state.data as u32 }),
            },
            ..state
        }
    } else {
        state
    }
}

/// The smaller of two exponents.
pub open spec fn smaller(a: u8, b: u8) -> u8 {
    if a <= b {
        a
    } else {
        b
    }
}

/// The registers after a write of the control register.
pub open spec fn msi_control_written(state: MsiCapabilityState, val: u32) -> MsiCapabilityState {
    let control = (val >> 16u32) & 0xFFFF;
    let enabled = control & 1 != 0;
    MsiCapabilityState {
        multiple_message_enable: smaller(
            ((control >> 4u32) & 0x7) as u8,
            state.multiple_message_capable,
        ),
        enabled,
        interrupt: if enabled && !state.enabled {
            MsiInterrupt {
                armed: Some(MsiMessage { address: state.address, data: state.data as u32 }),
            }
        } else if !enabled && state.enabled {
            MsiInterrupt { armed: None }
        } else {
            state.interrupt
        },
        ..state
    }
}

/// An MSI capability.
#[derive(Debug, Clone, Copy)]
pub struct MsiCapability {
    /// The registers.
    pub state: MsiCapabilityState,
    /// Whether addresses have 64 bits.
    pub addr_64bit: bool,
    /// Whether vectors can be masked.
    pub per_vector_masking: bool,
}

/// Saved state.
#[derive(Debug, Clone, Copy)]
pub struct MsiSavedState {
    /// Whether MSI is enabled.
    pub enabled: bool,
    /// Exponent of the number of messages that are allocated.
    pub multiple_message_enable: u8,
    /// Message address.
    pub address: u64,
    /// Message data.
    pub data: u16,
    /// Mask bits.
    pub mask_bits: u32,
    /// Pending bits.
    pub pending_bits: u32,
}

/// The capability with other registers.
pub open spec fn with_state(cap: MsiCapability, state: MsiCapabilityState) -> MsiCapability {
    MsiCapability { state, ..cap }
}

/// Whether the mask and pending registers are there.
pub open spec fn has_mask(cap: MsiCapability) -> bool {
    cap.addr_64bit && cap.per_vector_masking
}

/// The offset of the message data.
pub open spec fn data_offset(cap: MsiCapability) -> u16 {
    if cap.addr_64bit {
        MSI_MSG_DATA_64
    } else {
        MSI_MSG_DATA_32
    }
}

/// The capability after a write.
pub open spec fn msi_written(cap: MsiCapability, offset: u16, val: u32) -> MsiCapability {
    let state = cap.state;
    if offset == MSI_CONTROL_CAPS {
        with_state(cap, msi_control_written(state, val))
    } else if offset == MSI_MSG_ADDR_LO {
        with_state(
            cap,
            msi_rearmed(
                MsiCapabilityState {
                    address: (state.address & 0xFFFF_FFFF_0000_0000) | (val as u64),
                    ..state
                },
            ),
        )
    } else if offset == MSI_MSG_ADDR_HI && cap.addr_64bit {
        with_state(
            cap,
            msi_rearmed(
                MsiCapabilityState {
                    address: (state.address & 0xFFFF_FFFF) | ((val as u64) << 32u64),
                    ..state
                },
            ),
        )
    } else if offset == data_offset(cap) {
        with_state(cap, msi_rearmed(MsiCapabilityState { data: val as u16, ..state }))
    } else if offset == MSI_MASK_BITS && has_mask(cap) {
        with_state(cap, MsiCapabilityState { mask_bits: val, ..state })
    } else {
        cap
    }
}

/// The capability after a reset.
pub open spec fn msi_reset(cap: MsiCapability) -> MsiCapability {
    with_state(
        cap,
        MsiCapabilityState {
            enabled: false,
            multiple_message_enable: 0,
            address: 0,
            data: 0,
            mask_bits: if cap.per_vector_masking {
                0xFFFF_FFFF
            } else {
                cap.state.mask_bits
            },
            pending_bits: if cap.per_vector_masking {
                0
            } else {
                cap.state.pending_bits
            },
            interrupt: if cap.state.enabled {
                MsiInterrupt { armed: None }
            } else {
                cap.state.interrupt
            },
            ..cap.state
        },
    )
}

/// The capability after a restore.
pub open spec fn msi_restored(cap: MsiCapability, saved: MsiSavedState) -> MsiCapability {
    if saved.multiple_message_enable > 5 {
        cap
    } else {
        with_state(
            cap,
            msi_rearmed(
                MsiCapabilityState {
                    enabled: saved.enabled,
                    multiple_message_enable: smaller(
                        saved.multiple_message_enable,
                        cap.state.multiple_message_capable,
                    ),
                    address: saved.address,
                    data: saved.data,
                    mask_bits: saved.mask_bits,
                    pending_bits: saved.pending_bits,
                    interrupt: if cap.state.enabled {
                        MsiInterrupt { armed: None }
                    } else {
                        cap.state.interrupt
                    },
                    ..cap.state
                },
            ),
        )
    }
}

/// What is saved.
pub open spec fn msi_saved(cap: MsiCapability) -> MsiSavedState {
    MsiSavedState {
        enabled: cap.state.enabled,
        multiple_message_enable: cap.state.multiple_message_enable,
        address: cap.state.address,
        data: cap.state.data,
        mask_bits: cap.state.mask_bits,
        pending_bits: cap.state.pending_bits,
    }
}

/// The length of the structure.
pub open spec fn msi_len(cap: MsiCapability) -> int {
    // The data has two bytes, but takes a dword.
    12 + (if cap.addr_64bit {
        4int
    } else {
        0
    }) + (if cap.per_vector_masking {
        8int
    } else {
        0
    })
}

impl MsiCapability {
    /// Creates an MSI capability.
    ///
    /// `multiple_message_capable` is the exponent of the number of messages that
    /// can be had.
    pub fn new(
        multiple_message_capable: u8,
        addr_64bit: bool,
        per_vector_masking: bool,
    ) -> (r: Self)
        requires
            multiple_message_capable <= 5,
        ensures
            r == (MsiCapability {
                state: msi_idle(multiple_message_capable, per_vector_masking),
                addr_64bit,
                per_vector_masking,
            }),
            msi_wf(r),
    {
        MsiCapability {
            state: MsiCapabilityState::new(multiple_message_capable, per_vector_masking),
            addr_64bit,
            per_vector_masking,
        }
    }

    /// Returns the message that signals the interrupt, while it is armed.
    pub fn interrupt(&self) -> (r: Option<MsiMessage>)
        ensures
            r == self.state.interrupt.armed,
    {
        self.state.interrupt.armed
    }

    fn len_bytes(&self) -> (r: usize)
        ensures
            r == msi_len(*self),
    {
        let mut len: usize = 12;
        if self.addr_64bit {
            len = len + 4;
        }
        if self.per_vector_masking {
            len = len + 8;
        }
        len
    }

    fn write_control(&mut self, val: u32)
        ensures
            *final(self) == with_state(*old(self), msi_control_written(old(self).state, val)),
    {
        let control: u32 = (val >> 16u32) & 0xFFFF;
        let was_enabled: bool = self.state.enabled;
        let enabled: bool = control & 1 != 0;
        let requested: u8 = ((control >> 4u32) & 0x7) as u8;
        self.state.multiple_message_enable = if requested <= self.state.multiple_message_capable {
            requested
        } else {
            self.state.multiple_message_capable
        };
        self.state.enabled = enabled;
        if enabled && !was_enabled {
            self.state.interrupt.enable(self.state.address, self.state.data as u32);
        } else if !enabled && was_enabled {
            self.state.interrupt.disable();
        }
    }
}

impl PciCapability for MsiCapability {
    type Saved = MsiSavedState;

    open spec fn label_text(&self) -> Seq<char> {
        "msi"@
    }

    open spec fn cap_id(&self) -> u8 {
        CAP_ID_MSI
    }

    open spec fn cap_len(&self) -> int {
        msi_len(*self)
    }

    open spec fn value(&self, offset: u16) -> u32 {
        if offset == MSI_CONTROL_CAPS {
            (CAP_ID_MSI as u32) | (msi_control(self.state, self.addr_64bit, self.per_vector_masking)
                << 16u32)
        } else if offset == MSI_MSG_ADDR_LO {
            self.state.address as u32
        } else if offset == MSI_MSG_ADDR_HI && self.addr_64bit {
            (self.state.address >> 32u64) as u32
        } else if offset == data_offset(*self) {
            self.state.data as u32
        } else if offset == MSI_MASK_BITS && has_mask(*self) {
            self.state.mask_bits
        } else if offset == MSI_PENDING_BITS && has_mask(*self) {
            self.state.pending_bits
        } else {
            0
        }
    }

    open spec fn written(&self, offset: u16, val: u32) -> Self {
        msi_written(*self, offset, val)
    }

    open spec fn after_reset(&self) -> Self {
        msi_reset(*self)
    }

    open spec fn saves_as(&self, state: MsiSavedState) -> bool {
        state == msi_saved(*self)
    }

    open spec fn restore_error(&self, state: MsiSavedState) -> Option<RestoreError> {
        if state.multiple_message_enable > 5 {
            Some(RestoreError::InvalidMultipleMessageEnable(state.multiple_message_enable))
        } else {
            None
        }
    }

    open spec fn restored(&self, state: MsiSavedState) -> Self {
        msi_restored(*self, state)
    }

    fn label(&self) -> (r: &'static str) {
        "msi"
    }

    fn capability_id(&self) -> (r: u8) {
        CAP_ID_MSI
    }

    fn len(&self) -> (r: usize) {
        self.len_bytes()
    }

    fn read_u32(&self, offset: u16) -> (r: u32) {
        if offset == MSI_CONTROL_CAPS {
            let control: u32 = self.state.control_register(
                self.addr_64bit,
                self.per_vector_masking,
            );
            (CAP_ID_MSI as u32) | (control << 16u32)
        } else if offset == MSI_MSG_ADDR_LO {
            self.state.address as u32
        } else if offset == MSI_MSG_ADDR_HI && self.addr_64bit {
            (self.state.address >> 32u64) as u32
        } else if offset == MSI_MSG_DATA_32 && !self.addr_64bit {
            self.state.data as u32
        } else if offset == MSI_MSG_DATA_64 && self.addr_64bit {
            self.state.data as u32
        } else if offset == MSI_MASK_BITS && self.addr_64bit && self.per_vector_masking {
            self.state.mask_bits
        } else if offset == MSI_PENDING_BITS && self.addr_64bit && self.per_vector_masking {
            self.state.pending_bits
        } else {
            0
        }
    }

    fn write_u32(&mut self, offset: u16, val: u32) {
        if offset == MSI_CONTROL_CAPS {
            self.write_control(val);
        } else if offset == MSI_MSG_ADDR_LO {
            self.state.address = (self.state.address & 0xFFFF_FFFF_0000_0000) | (val as u64);
            self.state.rearm();
        } else if offset == MSI_MSG_ADDR_HI && self.addr_64bit {
            self.state.address = (self.state.address & 0xFFFF_FFFF) | ((val as u64) << 32u64);
            self.state.rearm();
        } else if (offset == MSI_MSG_DATA_32 && !self.addr_64bit) || (offset == MSI_MSG_DATA_64
            && self.addr_64bit) {
            self.state.data = val as u16;
            self.state.rearm();
        } else if offset == MSI_MASK_BITS && self.addr_64bit && self.per_vector_masking {
            self.state.mask_bits = val;
        }
    }

    fn reset(&mut self) {
        if self.state.enabled {
            self.state.interrupt.disable();
        }
        self.state.enabled = false;
        self.state.multiple_message_enable = 0;
        self.state.address = 0;
        self.state.data = 0;
        if self.per_vector_masking {
            // All vectors are masked.
            self.state.mask_bits = 0xFFFF_FFFF;
            self.state.pending_bits = 0;
        }
    }

    fn save_state(&self) -> (r: MsiSavedState) {
        MsiSavedState {
            enabled: self.state.enabled,
            multiple_message_enable: self.state.multiple_message_enable,
            address: self.state.address,
            data: self.state.data,
            mask_bits: self.state.mask_bits,
            pending_bits: self.state.pending_bits,
        }
    }

    fn restore_state(&mut self, state: MsiSavedState) -> (r: Result<(), RestoreError>) {
        if state.multiple_message_enable > 5 {
            return Err(RestoreError::InvalidMultipleMessageEnable(state.multiple_message_enable));
        }
        if self.state.enabled {
            self.state.interrupt.disable();
        }
        self.state.enabled = state.enabled;
        self.state.multiple_message_enable = if state.multiple_message_enable
            <= self.state.multiple_message_capable {
            state.multiple_message_enable
        } else {
            self.state.multiple_message_capable
        };
        self.state.address = state.address;
        self.state.data = state.data;
        self.state.mask_bits = state.mask_bits;
        self.state.pending_bits = state.pending_bits;
        self.state.rearm();
        Ok(())
    }
}

/// Whether a capability is one that was made and written: no more messages are
/// allocated than can be had, and the interrupt is armed with the message in
/// the registers exactly while MSI is enabled.
pub open spec fn msi_wf(cap: MsiCapability) -> bool {
    &&& cap.state.multiple_message_capable <= 5
    &&& cap.state.multiple_message_enable <= cap.state.multiple_message_capable
    &&& cap.state.interrupt.armed == if cap.state.enabled {
        Some(MsiMessage { address: cap.state.address, data: cap.state.data as u32 })
    } else {
        None
    }
}

/// Every write, a reset and a restore leave the interrupt armed with the
/// message in the registers exactly while MSI is enabled.
pub proof fn law_msi_armed(cap: MsiCapability, offset: u16, val: u32, state: MsiSavedState)
    requires
        msi_wf(cap),
    ensures
        msi_wf(cap.written(offset, val)),
        msi_wf(cap.after_reset()),
        msi_wf(cap.restored(state)),
{
}

/// A restore of what was saved brings back the capability, whatever was done to
/// it in between.
pub proof fn law_msi_save_restore(cap: MsiCapability, other: MsiCapability)
    requires
        msi_wf(cap),
        msi_wf(other),
        other.addr_64bit == cap.addr_64bit,
        other.per_vector_masking == cap.per_vector_masking,
        other.state.multiple_message_capable == cap.state.multiple_message_capable,
    ensures
        other.restored(msi_saved(cap)) == cap,
{
}

}
