//! Config space with a type 0 header.
use crate::bars::found_from;
use crate::bars::no_mappings;
use crate::bars::DeviceBars;
use crate::capabilities::PciCapability;
use crate::capabilities::PciExtendedCapability;
use crate::cfg_space::caps::is_pcie;
use crate::cfg_space::common::bars_fit;
use crate::cfg_space::common::common_read;
use crate::cfg_space::common::common_reset;
use crate::cfg_space::common::common_wf;
use crate::cfg_space::common::common_write_result;
use crate::cfg_space::common::common_written;
use crate::cfg_space::common::has_bars;
use crate::cfg_space::common::idle_header;
use crate::cfg_space::common::CommonHeaderState;
use crate::cfg_space::common::CommonModel;
use crate::cfg_space::common::ConfigSpaceCommonHeaderEmulator;
use crate::cfg_space::common::ConfigSpaceCommonHeaderEmulatorType0;
use crate::cfg_space::intx::IntxInterrupt;
use crate::cfg_space::intx::PciInterruptPin;
use crate::cfg_space::restore::common_restored;
use crate::cfg_space::restore::common_saves_as;
use crate::cfg_space::restore::is_result;
use crate::cfg_space::restore::SavedState;
use crate::cfg_space::CommonHeaderResult;
use crate::cfg_space::CommonRead;
use crate::cfg_space::HardwareIds;
use crate::io::IoError;
use crate::io::IoResult;
use crate::regs::CAP_PTR;
use crate::regs::TYPE0_CARDBUS_CIS_PTR;
use crate::regs::TYPE0_EXPANSION_ROM_BASE;
use crate::regs::TYPE0_LATENCY_INTERRUPT;
use crate::regs::TYPE0_RESERVED;
use crate::regs::TYPE0_SUBSYSTEM_ID;
use crate::save_restore::RestoreError;
use vstd::prelude::*;

verus! {

/// The registers of a type 0 header that are not common ones.
#[derive(Debug, Clone, Copy, PartialEq, Eq, Structural)]
pub struct ConfigSpaceType0EmulatorState {
    /// A register without effect.
    pub latency_timer: u8,
}

impl ConfigSpaceType0EmulatorState {
    /// Creates registers as they are after reset.
    pub fn new() -> (r: Self)
        ensures
            r == (ConfigSpaceType0EmulatorState { latency_timer: 0 }),
    {
        ConfigSpaceType0EmulatorState { latency_timer: 0 }
    }
}

/// Config space with a type 0 header.
#[derive(Debug)]
pub struct ConfigSpaceType0Emulator<C, E> {
    /// The common part.
    pub common: ConfigSpaceCommonHeaderEmulatorType0<C, E>,
    /// The other registers.
    pub state: ConfigSpaceType0EmulatorState,
}

/// Saved state.
#[derive(Debug)]
pub struct SavedType0State<S, X> {
    /// Latency timer.
    pub latency_timer: u8,
    /// The common part.
    pub common_header: SavedState<S, X>,
}

/// What a read gives.
pub open spec fn type0_read<C: PciCapability, E: PciExtendedCapability>(
    m: CommonModel<C, E>,
    offset: u16,
) -> Result<u32, IoError> {
    match common_read(m, offset) {
        CommonRead::Value(v) => Ok(v),
        CommonRead::Failed(e) => Err(e),
        CommonRead::Unhandled => if offset == TYPE0_CARDBUS_CIS_PTR || offset
            == TYPE0_EXPANSION_ROM_BASE || offset == TYPE0_RESERVED {
            Ok(0)
        } else if offset == TYPE0_SUBSYSTEM_ID {
            Ok(
                ((m.hardware_ids.type0_sub_system_id as u32) << 16u32) | (
                m.hardware_ids.type0_sub_vendor_id as u32),
            )
        } else if offset == CAP_PTR {
            Ok(
                if m.capabilities.len() == 0 {
                    0
                } else {
                    0x40
                },
            )
        } else if offset == TYPE0_LATENCY_INTERRUPT {
            Ok(m.state.interrupt_line as u32)
        } else {
            Err(IoError::InvalidRegister)
        },
    }
}

/// What is returned for a write. Registers without effect take writes.
pub open spec fn type0_write_result<C: PciCapability, E>(
    m: CommonModel<C, E>,
    offset: u16,
) -> IoResult {
    match common_write_result(m, offset) {
        CommonHeaderResult::Handled => Ok(()),
        CommonHeaderResult::Failed(e) => Err(e),
        CommonHeaderResult::Unhandled => if offset < 0x40 && offset % 4 == 0 {
            Ok(())
        } else {
            Err(IoError::InvalidRegister)
        },
    }
}

/// The common part after a write.
pub open spec fn type0_common_written<C: PciCapability, E: PciExtendedCapability>(
    m: CommonModel<C, E>,
    offset: u16,
    val: u32,
) -> CommonModel<C, E> {
    if offset == TYPE0_LATENCY_INTERRUPT {
        CommonModel {
            state: CommonHeaderState { interrupt_line: (val & 0xff) as u8, ..m.state },
            ..m
        }
    } else {
        common_written(m, offset, val)
    }
}

impl<C: PciCapability, E: PciExtendedCapability> ConfigSpaceType0Emulator<C, E> {
    /// Creates config space with a type 0 header.
    pub fn new(
        hardware_ids: HardwareIds,
        capabilities: Vec<C>,
        extended_capabilities: Vec<E>,
        bars: DeviceBars,
    ) -> (r: Self)
        requires
            bars_fit(bars),
        ensures
            r.common.hardware_ids == hardware_ids,
            r.common.capabilities@ == capabilities@,
            r.common.extended_capabilities@ == extended_capabilities@,
            !r.common.multi_function_bit,
            r.common.intx_interrupt is None,
            r.common.active_bars == no_mappings(),
            r.common.state == idle_header(),
            has_bars(r.common@, bars),
            r.state.latency_timer == 0,
            common_wf(r.common@),
    {
        ConfigSpaceType0Emulator {
            common: ConfigSpaceCommonHeaderEmulator::new(
                hardware_ids,
                capabilities,
                extended_capabilities,
                bars,
            ),
            state: ConfigSpaceType0EmulatorState::new(),
        }
    }

    /// Sets whether the device has more than one function.
    pub fn with_multi_function_bit(self, bit: bool) -> (r: Self)
        ensures
            r.common@ == (CommonModel { multi_function_bit: bit, ..self.common@ }),
            r.state == self.state,
    {
        ConfigSpaceType0Emulator {
            common: self.common.with_multi_function_bit(bit),
            state: self.state,
        }
    }

    /// Wires up a legacy interrupt.
    pub fn set_interrupt_pin(&mut self, pin: PciInterruptPin)
        ensures
            final(self).common@ == (CommonModel {
                intx_interrupt: Some(
                    IntxInterrupt {
                        pin,
                        line: false,
                        interrupt_disabled: false,
                        interrupt_status: false,
                    },
                ),
                ..old(self).common@
            }),
            final(self).state == old(self).state,
    {
        self.common.set_interrupt_pin(pin);
    }

    /// Resets config space.
    pub fn reset(&mut self)
        ensures
            final(self).common@ == common_reset(old(self).common@),
            final(self).state == (ConfigSpaceType0EmulatorState { latency_timer: 0 }),
    {
        self.common.reset();
        self.state = ConfigSpaceType0EmulatorState::new();
    }

    /// Reads a register. `offset` is a multiple of four.
    pub fn read_u32(&self, offset: u16, value: &mut u32) -> (r: IoResult)
        ensures
            match type0_read(self.common@, offset) {
                Ok(v) => r == Ok::<(), IoError>(()) && *final(value) == v,
                Err(e) => r == Err::<(), IoError>(e) && *final(value) == *old(value),
            },
    {
        match self.common.read_u32(offset, value) {
            CommonHeaderResult::Handled => {
                return Ok(());
            },
            CommonHeaderResult::Failed(e) => {
                return Err(e);
            },
            CommonHeaderResult::Unhandled => {},
        }
        if offset == TYPE0_CARDBUS_CIS_PTR || offset == TYPE0_EXPANSION_ROM_BASE || offset
            == TYPE0_RESERVED {
            *value = 0;
        } else if offset == TYPE0_SUBSYSTEM_ID {
            let ids: HardwareIds = self.common.hardware_ids();
            *value = ((ids.type0_sub_system_id as u32) << 16u32) | (ids.type0_sub_vendor_id as u32);
        } else if offset == CAP_PTR {
            *value = if self.common.capabilities.len() == 0 {
                0
            } else {
                0x40
            };
        } else if offset == TYPE0_LATENCY_INTERRUPT {
            *value = self.common.interrupt_line() as u32;
        } else {
            return Err(IoError::InvalidRegister);
        }
        Ok(())
    }

    /// Writes a register. `offset` is a multiple of four.
    pub fn write_u32(&mut self, offset: u16, val: u32) -> (r: IoResult)
        ensures
            r == type0_write_result(old(self).common@, offset),
            final(self).common@ == type0_common_written(old(self).common@, offset, val),
            final(self).state == old(self).state,
    {
        match self.common.write_u32(offset, val) {
            CommonHeaderResult::Handled => {
                return Ok(());
            },
            CommonHeaderResult::Failed(e) => {
                return Err(e);
            },
            CommonHeaderResult::Unhandled => {},
        }
        if offset == TYPE0_LATENCY_INTERRUPT {
            self.common.set_interrupt_line((val & 0xff) as u8);
        } else if !(offset < 0x40 && offset % 4 == 0) {
            return Err(IoError::InvalidRegister);
        }
        Ok(())
    }

    /// Finds the BAR at an address, and the offset in it.
    pub fn find_bar(&self, address: u64) -> (r: Option<(u8, u64)>)
        ensures
            r == found_from(self.common.active_bars, address, 0),
    {
        self.common.find_bar(address)
    }

    /// Returns whether there is a PCI Express capability.
    pub fn is_pcie_device(&self) -> (r: bool)
        ensures
            r == is_pcie(self.common.capabilities@),
    {
        self.common.is_pcie_device()
    }

    /// Saves the state.
    pub fn save(&self) -> (r: SavedType0State<C::Saved, E::Saved>)
        ensures
            r.latency_timer == self.state.latency_timer,
            common_saves_as(self.common@, r.common_header),
    {
        SavedType0State {
            latency_timer: self.state.latency_timer,
            common_header: self.common.save(),
        }
    }

    /// Restores a state.
    pub fn restore(&mut self, saved: SavedType0State<C::Saved, E::Saved>) -> (r: Result<
        (),
        RestoreError,
    >)
        ensures
            final(self).state.latency_timer == saved.latency_timer,
            final(self).common@ == common_restored(old(self).common@, saved.common_header).0,
            is_result(r, common_restored(old(self).common@, saved.common_header).1),
    {
        self.state.latency_timer = saved.latency_timer;
        self.common.restore(saved.common_header)
    }
}

}
