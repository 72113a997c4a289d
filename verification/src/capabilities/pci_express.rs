//! PCI Express capability with Function Level Reset (FLR) and hotplug.
use crate::capabilities::DevicePortType;
use crate::capabilities::PciCapability;
use crate::regs::CAP_ID_PCI_EXPRESS;
use crate::save_restore::RestoreError;
use vstd::prelude::*;

verus! {

/// Offset of the identifier and the PCI Express capabilities.
pub const PCIE_CAPS: u16 = 0x00;
/// Offset of the device capabilities.
pub const PCIE_DEVICE_CAPS: u16 = 0x04;
/// Offset of the device control and status.
pub const PCIE_DEVICE_CTL_STS: u16 = 0x08;
/// Offset of the link control and status.
pub const PCIE_LINK_CTL_STS: u16 = 0x10;
/// Offset of the slot capabilities.
pub const PCIE_SLOT_CAPS: u16 = 0x14;
/// Offset of the slot control and status.
pub const PCIE_SLOT_CTL_STS: u16 = 0x18;

/// Device capabilities: function level reset.
pub const DEVICE_CAPS_FLR: u32 = 0x1000_0000;
/// Device control: start a function level reset.
pub const DEVICE_CTL_INITIATE_FLR: u16 = 0x8000;
/// Device status: errors that were detected, cleared by writing ones.
pub const DEVICE_STS_ERRORS: u16 = 0x000F;
/// Slot capabilities: hotplug.
pub const SLOT_CAPS_HOT_PLUG_CAPABLE: u32 = 0x40;
/// Slot control: hotplug interrupt enable.
pub const SLOT_CTL_HOT_PLUG_INTERRUPT: u16 = 0x0020;
/// Slot status: presence has changed.
pub const SLOT_STS_PRESENCE_CHANGED: u16 = 0x0008;
/// Slot status: something is there.
pub const SLOT_STS_PRESENCE: u16 = 0x0040;
/// Slot status: the state of the data link layer has changed.
pub const SLOT_STS_LINK_CHANGED: u16 = 0x0100;
/// Slot status: events, cleared by writing ones.
pub const SLOT_STS_EVENTS: u16 = 0x011F;
/// Link status: the data link is active.
pub const LINK_STS_ACTIVE: u16 = 0x2000;

/// What a function level reset goes to.
pub trait FlrHandler: Sized {
    /// The handler after a reset was started.
    spec fn after_flr(&self) -> Self;

    /// Starts a function level reset.
    fn initiate_flr(&mut self)
        ensures
            *final(self) == old(self).after_flr(),
    ;
}

/// Notes that a function level reset was started, for the owner to take.
#[derive(Debug, Clone, Copy, PartialEq, Eq, Structural)]
pub struct FlrRequest {
    /// Whether a reset was started.
    pub requested: bool,
}

impl FlrHandler for FlrRequest {
    open spec fn after_flr(&self) -> Self {
        FlrRequest { requested: true }
    }

    fn initiate_flr(&mut self) {
        self.requested = true;
    }
}

/// The registers of the device part.
#[derive(Debug, Clone, Copy, PartialEq, Eq, Structural)]
pub struct PciExpressState {
    /// Device control.
    pub device_control: u16,
    /// Device status.
    pub device_status: u16,
}

impl PciExpressState {
    /// Creates registers as they are after reset.
    pub fn new() -> (r: Self)
        ensures
            r == (PciExpressState { device_control: 0, device_status: 0 }),
    {
        PciExpressState { device_control: 0, device_status: 0 }
    }
}

/// A hotplug slot.
#[derive(Debug, Clone, Copy, PartialEq, Eq, Structural)]
pub struct Slot {
    /// Slot capabilities.
    pub capabilities: u32,
    /// Slot control.
    pub control: u16,
    /// Slot status.
    pub status: u16,
    /// Link status.
    pub link_status: u16,
}

/// PCI Express capability.
#[derive(Debug, Clone, Copy)]
pub struct PciExpressCapability<H> {
    /// The kind of function.
    pub port_type: DevicePortType,
    /// Device capabilities.
    pub device_capabilities: u32,
    /// Interrupt message number.
    pub interrupt_message_number: u8,
    /// Registers of the device part.
    pub state: PciExpressState,
    /// The hotplug slot, if there is one.
    pub slot: Option<Slot>,
    /// What a function level reset goes to.
    pub flr_handler: Option<H>,
}

/// Saved state.
#[derive(Debug, Clone, Copy)]
pub struct PciExpressSavedState {
    /// Device control.
    pub device_control: u16,
    /// Device status.
    pub device_status: u16,
}

/// The number of a function's kind.
pub open spec fn port_type_code(port_type: DevicePortType) -> u32 {
    match port_type {
        DevicePortType::Endpoint => 0,
        DevicePortType::RootPort => 4,
        DevicePortType::UpstreamSwitchPort => 5,
        DevicePortType::DownstreamSwitchPort => 6,
    }
}

/// The PCI Express capabilities register: version 2, the kind of function,
/// whether there is a slot, and the interrupt message number.
pub open spec fn pcie_caps<H>(cap: PciExpressCapability<H>) -> u32 {
    0x0002u32 | (port_type_code(cap.port_type) << 4u32) | (if cap.slot is Some {
        0x0100u32
    } else {
        0
    }) | (((cap.interrupt_message_number & 0x1f) as u32) << 9u32)
}

/// The capability after a write of the device control register: a reset is
/// started where the bit for it was not set, and the bit reads as zero.
pub open spec fn device_control_written<H: FlrHandler>(
    cap: PciExpressCapability<H>,
    control: u16,
) -> PciExpressCapability<H> {
    PciExpressCapability {
        flr_handler: if control & DEVICE_CTL_INITIATE_FLR != 0 && cap.state.device_control
            & DEVICE_CTL_INITIATE_FLR == 0 {
            match cap.flr_handler {
                Some(h) => Some(h.after_flr()),
                None => None,
            }
        } else {
            cap.flr_handler
        },
        state: PciExpressState {
            device_control: control & !DEVICE_CTL_INITIATE_FLR,
            ..cap.state
        },
        ..cap
    }
}

/// The capability after a write.
pub open spec fn pcie_written<H: FlrHandler>(
    cap: PciExpressCapability<H>,
    offset: u16,
    val: u32,
) -> PciExpressCapability<H> {
    if offset == PCIE_DEVICE_CTL_STS {
        let next = device_control_written(cap, val as u16);
        PciExpressCapability {
            state: PciExpressState {
                device_status: next.state.device_status & !((val >> 16u32) as u16
                    & DEVICE_STS_ERRORS),
                ..next.state
            },
            ..next
        }
    } else if offset == PCIE_SLOT_CTL_STS {
        PciExpressCapability {
            slot: match cap.slot {
                Some(s) => Some(
                    Slot {
                        control: val as u16,
                        status: s.status & !((val >> 16u32) as u16 & SLOT_STS_EVENTS),
                        ..s
                    },
                ),
                None => None,
            },
            ..cap
        }
    } else {
        cap
    }
}

/// The slot with or without something in it.
pub open spec fn with_presence(slot: Slot, present: bool) -> Slot {
    Slot {
        status: if present {
            slot.status | SLOT_STS_PRESENCE
        } else {
            slot.status & !SLOT_STS_PRESENCE
        },
        ..slot
    }
}

/// The slot after something was plugged in or taken out: presence and link
/// follow, and both are noted as changed.
pub open spec fn hot_plugged(slot: Slot, present: bool) -> Slot {
    let next = with_presence(slot, present);
    Slot {
        status: next.status | SLOT_STS_PRESENCE_CHANGED | SLOT_STS_LINK_CHANGED,
        link_status: if present {
            slot.link_status | LINK_STS_ACTIVE
        } else {
            slot.link_status & !LINK_STS_ACTIVE
        },
        ..next
    }
}

impl<H: FlrHandler> PciExpressCapability<H> {
    /// Creates a PCI Express capability.
    pub fn new(port_type: DevicePortType, flr_supported: bool, flr_handler: Option<H>) -> (r: Self)
        ensures
            r == (PciExpressCapability {
                port_type,
                device_capabilities: if flr_supported {
                    DEVICE_CAPS_FLR
                } else {
                    0
                },
                interrupt_message_number: 0,
                state: PciExpressState { device_control: 0, device_status: 0 },
                slot: None,
                flr_handler,
            }),
    {
        PciExpressCapability {
            port_type,
            device_capabilities: if flr_supported {
                DEVICE_CAPS_FLR
            } else {
                0
            },
            interrupt_message_number: 0,
            state: PciExpressState::new(),
            slot: None,
            flr_handler,
        }
    }

    /// Sets the interrupt message number.
    pub fn with_interrupt_message_number(self, number: u8) -> (r: Self)
        ensures
            r == (PciExpressCapability { interrupt_message_number: number, ..self }),
    {
        PciExpressCapability { interrupt_message_number: number, ..self }
    }

    /// Adds a hotplug slot.
    pub fn with_hotplug_support(self, slot_number: u32) -> (r: Self)
        ensures
            r == (PciExpressCapability {
                slot: Some(
                    Slot {
                        capabilities: SLOT_CAPS_HOT_PLUG_CAPABLE | ((slot_number & 0x1fff)
                            << 19u32),
                        control: 0,
                        status: 0,
                        link_status: 0,
                    },
                ),
                ..self
            }),
    {
        PciExpressCapability {
            slot: Some(
                Slot {
                    capabilities: SLOT_CAPS_HOT_PLUG_CAPABLE | ((slot_number & 0x1fff) << 19u32),
                    control: 0,
                    status: 0,
                    link_status: 0,
                },
            ),
            ..self
        }
    }

    /// Returns whether there is a hotplug slot.
    pub fn hot_plug_capable(&self) -> (r: bool)
        ensures
            r == self.slot is Some,
    {
        self.slot.is_some()
    }

    /// Returns whether the hotplug interrupt is enabled.
    pub fn hot_plug_interrupt_enabled(&self) -> (r: bool)
        ensures
            r == hotplug_interrupt(*self),
    {
        match self.slot {
            Some(s) => s.control & SLOT_CTL_HOT_PLUG_INTERRUPT != 0,
            None => false,
        }
    }

    /// Returns the interrupt message number.
    pub fn interrupt_message_number(&self) -> (r: u8)
        ensures
            r == self.interrupt_message_number,
    {
        self.interrupt_message_number
    }

    /// Sets whether something is in the slot, if there is one.
    pub fn set_presence_detect_state(&mut self, present: bool)
        ensures
            *final(self) == presence_set(*old(self), present),
    {
        if let Some(s) = self.slot {
            let status: u16 = if present {
                s.status | SLOT_STS_PRESENCE
            } else {
                s.status & !SLOT_STS_PRESENCE
            };
            self.slot = Some(Slot { status, ..s });
        }
    }

    /// Plugs something into the slot, or takes it out.
    pub fn set_hotplug_state(&mut self, present: bool)
        ensures
            *final(self) == hotplug_set(*old(self), present),
    {
        if let Some(s) = self.slot {
            let status: u16 = if present {
                s.status | SLOT_STS_PRESENCE
            } else {
                s.status & !SLOT_STS_PRESENCE
            };
            let link_status: u16 = if present {
                s.link_status | LINK_STS_ACTIVE
            } else {
                s.link_status & !LINK_STS_ACTIVE
            };
            self.slot = Some(
                Slot {
                    status: status | SLOT_STS_PRESENCE_CHANGED | SLOT_STS_LINK_CHANGED,
                    link_status,
                    ..s
                },
            );
        }
    }

    fn handle_device_control_write(&mut self, control: u16)
        ensures
            *final(self) == device_control_written(*old(self), control),
    {
        let started: bool = control & DEVICE_CTL_INITIATE_FLR != 0 && self.state.device_control
            & DEVICE_CTL_INITIATE_FLR == 0;
        if started {
            if let Some(mut h) = self.flr_handler.take() {
                h.initiate_flr();
                self.flr_handler = Some(h);
            }
        }
        self.state.device_control = control & !DEVICE_CTL_INITIATE_FLR;
    }
}

/// Whether the hotplug interrupt is enabled.
pub open spec fn hotplug_interrupt<H>(cap: PciExpressCapability<H>) -> bool {
    cap.slot is Some && cap.slot->0.control & SLOT_CTL_HOT_PLUG_INTERRUPT != 0
}

/// The capability with or without something in the slot.
pub open spec fn presence_set<H>(
    cap: PciExpressCapability<H>,
    present: bool,
) -> PciExpressCapability<H> {
    PciExpressCapability {
        slot: match cap.slot {
            Some(s) => Some(with_presence(s, present)),
            None => None,
        },
        ..cap
    }
}

/// The capability after something was plugged in or taken out.
pub open spec fn hotplug_set<H>(
    cap: PciExpressCapability<H>,
    present: bool,
) -> PciExpressCapability<H> {
    PciExpressCapability {
        slot: match cap.slot {
            Some(s) => Some(hot_plugged(s, present)),
            None => None,
        },
        ..cap
    }
}

/// The capability after a reset. What is in a slot stays there.
pub open spec fn pcie_reset<H>(cap: PciExpressCapability<H>) -> PciExpressCapability<H> {
    PciExpressCapability {
        state: PciExpressState { device_control: 0, device_status: 0 },
        slot: match cap.slot {
            Some(s) => Some(Slot { control: 0, status: s.status & SLOT_STS_PRESENCE, ..s }),
            None => None,
        },
        ..cap
    }
}

impl<H: FlrHandler> PciCapability for PciExpressCapability<H> {
    type Saved = PciExpressSavedState;

    open spec fn label_text(&self) -> Seq<char> {
        "pci-express"@
    }

    open spec fn cap_id(&self) -> u8 {
        CAP_ID_PCI_EXPRESS
    }

    open spec fn cap_len(&self) -> int {
        if self.slot is Some {
            0x1C
        } else {
            0x0C
        }
    }

    open spec fn value(&self, offset: u16) -> u32 {
        if offset == PCIE_CAPS {
            (pcie_caps(*self) << 16u32) | (CAP_ID_PCI_EXPRESS as u32)
        } else if offset == PCIE_DEVICE_CAPS {
            self.device_capabilities
        } else if offset == PCIE_DEVICE_CTL_STS {
            (self.state.device_control as u32) | ((self.state.device_status as u32) << 16u32)
        } else {
            match self.slot {
                Some(s) => if offset == PCIE_LINK_CTL_STS {
                    (s.link_status as u32) << 16u32
                } else if offset == PCIE_SLOT_CAPS {
                    s.capabilities
                } else if offset == PCIE_SLOT_CTL_STS {
                    (s.control as u32) | ((s.status as u32) << 16u32)
                } else {
                    0
                },
                None => 0,
            }
        }
    }

    open spec fn written(&self, offset: u16, val: u32) -> Self {
        pcie_written(*self, offset, val)
    }

    open spec fn after_reset(&self) -> Self {
        pcie_reset(*self)
    }

    open spec fn saves_as(&self, state: PciExpressSavedState) -> bool {
        state == (PciExpressSavedState {
            device_control: self.state.device_control,
            device_status: self.state.device_status,
        })
    }

    open spec fn restore_error(&self, state: PciExpressSavedState) -> Option<RestoreError> {
        None
    }

    open spec fn restored(&self, state: PciExpressSavedState) -> Self {
        PciExpressCapability {
            state: PciExpressState {
                device_control: state.device_control,
                device_status: state.device_status,
            },
            ..*self
        }
    }

    fn label(&self) -> (r: &'static str) {
        "pci-express"
    }

    fn capability_id(&self) -> (r: u8) {
        CAP_ID_PCI_EXPRESS
    }

    fn len(&self) -> (r: usize) {
        if self.slot.is_some() {
            0x1C
        } else {
            0x0C
        }
    }

    fn read_u32(&self, offset: u16) -> (r: u32) {
        if offset == PCIE_CAPS {
            let code: u32 = match self.port_type {
                DevicePortType::Endpoint => 0,
                DevicePortType::RootPort => 4,
                DevicePortType::UpstreamSwitchPort => 5,
                DevicePortType::DownstreamSwitchPort => 6,
            };
            let slot: u32 = if self.slot.is_some() {
                0x0100
            } else {
                0
            };
            let caps: u32 = 0x0002u32 | (code << 4u32) | slot | (((self.interrupt_message_number
                & 0x1f) as u32) << 9u32);
            (caps << 16u32) | (CAP_ID_PCI_EXPRESS as u32)
        } else if offset == PCIE_DEVICE_CAPS {
            self.device_capabilities
        } else if offset == PCIE_DEVICE_CTL_STS {
            (self.state.device_control as u32) | ((self.state.device_status as u32) << 16u32)
        } else {
            match self.slot {
                Some(s) => {
                    if offset == PCIE_LINK_CTL_STS {
                        (s.link_status as u32) << 16u32
                    } else if offset == PCIE_SLOT_CAPS {
                        s.capabilities
                    } else if offset == PCIE_SLOT_CTL_STS {
                        (s.control as u32) | ((s.status as u32) << 16u32)
                    } else {
                        0
                    }
                },
                None => 0,
            }
        }
    }

    fn write_u32(&mut self, offset: u16, val: u32) {
        if offset == PCIE_DEVICE_CTL_STS {
            self.handle_device_control_write(val as u16);
            self.state.device_status = self.state.device_status & !((val >> 16u32) as u16
                & DEVICE_STS_ERRORS);
        } else if offset == PCIE_SLOT_CTL_STS {
            if let Some(s) = self.slot {
                self.slot = Some(
                    Slot {
                        control: val as u16,
                        status: s.status & !((val >> 16u32) as u16 & SLOT_STS_EVENTS),
                        ..s
                    },
                );
            }
        }
    }

    fn reset(&mut self) {
        self.state = PciExpressState::new();
        if let Some(s) = self.slot {
            self.slot = Some(Slot { control: 0, status: s.status & SLOT_STS_PRESENCE, ..s });
        }
    }

    fn save_state(&self) -> (r: PciExpressSavedState) {
        PciExpressSavedState {
            device_control: self.state.device_control,
            device_status: self.state.device_status,
        }
    }

    fn restore_state(&mut self, state: PciExpressSavedState) -> (r: Result<(), RestoreError>) {
        self.state.device_control = state.device_control;
        self.state.device_status = state.device_status;
        Ok(())
    }
}

/// The bit that starts a reset always reads as zero after a write.
pub proof fn law_flr_self_clearing<H: FlrHandler>(cap: PciExpressCapability<H>, val: u32)
    ensures
        cap.written(PCIE_DEVICE_CTL_STS, val).state.device_control & DEVICE_CTL_INITIATE_FLR == 0,
{
    let v = val as u16;
    assert((v & !0x8000u16) & 0x8000u16 == 0) by (bit_vector);
}

/// A restore brings back the device registers that were saved.
pub proof fn law_pcie_save_restore<H: FlrHandler>(
    cap: PciExpressCapability<H>,
    other: PciExpressCapability<H>,
    state: PciExpressSavedState,
)
    requires
        cap.saves_as(state),
    ensures
        other.restored(state).state == cap.state,
{
}

}
