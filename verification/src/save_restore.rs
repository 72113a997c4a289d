//! Errors of restoring saved state.
use vstd::prelude::*;

verus! {

/// Why a saved state cannot be restored.
#[derive(Debug)]
pub enum RestoreError {
    /// The exponent of the number of allocated messages is too large.
    InvalidMultipleMessageEnable(u8),
    /// There are not as many VF BAR registers as there are BARs.
    InvalidVfBarCount(usize),
    /// The command register has bits that are not supported.
    InvalidConfigBits,
    /// There is no capability with this label.
    InvalidCap(String),
    /// The state is that of another kind of capability.
    WrongCapabilityKind,
    /// State of component registers is missing.
    MissingComponentRegisters,
    /// There are no component registers to restore.
    UnexpectedComponentRegisters,
}

}
