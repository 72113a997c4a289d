//! Legacy interrupts.
use vstd::prelude::*;

verus! {

/// A legacy interrupt pin.
#[derive(Debug, Clone, Copy, PartialEq, Eq, Structural)]
pub enum PciInterruptPin {
    /// INTA#.
    IntA,
    /// INTB#.
    IntB,
    /// INTC#.
    IntC,
    /// INTD#.
    IntD,
}

/// A legacy interrupt line under the control of config space.
#[derive(Debug, Clone, Copy, PartialEq, Eq, Structural)]
pub struct IntxInterrupt {
    /// The pin.
    pub pin: PciInterruptPin,
    /// The level of the line.
    pub line: bool,
    /// Whether the interrupt is disabled in the command register.
    pub interrupt_disabled: bool,
    /// The interrupt status bit.
    pub interrupt_status: bool,
}

/// The interrupt after the device has set its level. The status bit follows;
/// the line does only while the interrupt is not disabled.
pub open spec fn level_set(intx: IntxInterrupt, high: bool) -> IntxInterrupt {
    IntxInterrupt { interrupt_status: high, line: high && !intx.interrupt_disabled, ..intx }
}

/// The interrupt after it was disabled or enabled. A line that is low stays low
/// unless the status bit is set.
pub open spec fn disabled_set(intx: IntxInterrupt, disabled: bool) -> IntxInterrupt {
    IntxInterrupt {
        interrupt_disabled: disabled,
        line: if disabled {
            false
        } else {
            intx.interrupt_status || intx.line
        },
        ..intx
    }
}

impl IntxInterrupt {
    /// Creates an interrupt whose level is low.
    pub fn new(pin: PciInterruptPin) -> (r: Self)
        ensures
            r == (IntxInterrupt {
                pin,
                line: false,
                interrupt_disabled: false,
                interrupt_status: false,
            }),
            intx_wf(r),
    {
        IntxInterrupt { pin, line: false, interrupt_disabled: false, interrupt_status: false }
    }

    /// Sets the level that the device wants.
    pub fn set_level(&mut self, high: bool)
        ensures
            *final(self) == level_set(*old(self), high),
    {
        self.interrupt_status = high;
        if self.interrupt_disabled {
            self.line = false;
        } else {
            self.line = high;
        }
    }

    /// Disables or enables the interrupt.
    pub fn set_disabled(&mut self, disabled: bool)
        ensures
            *final(self) == disabled_set(*old(self), disabled),
    {
        self.interrupt_disabled = disabled;
        if disabled {
            self.line = false;
        } else if self.interrupt_status {
            self.line = true;
        }
    }
}

/// Whether the line is high exactly while the status bit is set and the
/// interrupt is not disabled.
pub open spec fn intx_wf(intx: IntxInterrupt) -> bool {
    intx.line == (intx.interrupt_status && !intx.interrupt_disabled)
}

/// The line is always high exactly while the status bit is set and the
/// interrupt is not disabled.
pub proof fn law_intx_line(intx: IntxInterrupt, level: bool, disabled: bool)
    requires
        intx_wf(intx),
    ensures
        intx_wf(level_set(intx, level)),
        intx_wf(disabled_set(intx, disabled)),
{
}

}
