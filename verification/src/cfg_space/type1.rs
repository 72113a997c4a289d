//! Config space with a type 1 header: that of a bridge.
use crate::bars::found_from;
use crate::bars::no_mappings;
use crate::bars::DeviceBars;
use crate::bus_range::its_devid;
use crate::bus_range::unassigned;
use crate::bus_range::AssignedBusRange;
use crate::capabilities::PciCapability;
use crate::capabilities::PciExtendedCapability;
use crate::cfg_space::caps::is_pcie;
use crate::cfg_space::common::bar0_only;
use crate::cfg_space::common::bars_fit;
use crate::cfg_space::common::common_read;
use crate::cfg_space::common::common_reset;
use crate::cfg_space::common::common_wf;
use crate::cfg_space::common::common_write_result;
use crate::cfg_space::common::common_written;
use crate::cfg_space::common::has_bars;
use crate::cfg_space::common::idle_header;
use crate::cfg_space::common::mmio_enabled;
use crate::cfg_space::common::CommonModel;
use crate::cfg_space::common::ConfigSpaceCommonHeaderEmulator;
use crate::cfg_space::common::ConfigSpaceCommonHeaderEmulatorType1;
use crate::cfg_space::restore::common_restored;
use crate::cfg_space::restore::common_saves_as;
use crate::cfg_space::restore::is_result;
use crate::cfg_space::restore::SavedState;
use crate::cfg_space::CommonHeaderResult;
use crate::cfg_space::CommonRead;
use crate::cfg_space::HardwareIds;
use crate::io::IoError;
use crate::io::IoResult;
use crate::msi::requester_id;
use crate::regs::BIST_HEADER;
use crate::regs::CAP_PTR;
use crate::regs::COMMAND_MMIO_ENABLED;
use crate::regs::EXT_CAP_START;
use crate::regs::TYPE1_BRIDGE_CTRL_INTERRUPT;
use crate::regs::TYPE1_EXPANSION_ROM_BASE;
use crate::regs::TYPE1_IO_RANGE_UPPER;
use crate::regs::TYPE1_LATENCY_BUS_NUMBERS;
use crate::regs::TYPE1_MEMORY_RANGE;
use crate::regs::TYPE1_PREFETCH_BASE_UPPER;
use crate::regs::TYPE1_PREFETCH_LIMIT_UPPER;
use crate::regs::TYPE1_PREFETCH_RANGE;
use crate::regs::TYPE1_SEC_STATUS_IO_RANGE;
use crate::save_restore::RestoreError;
use vstd::prelude::*;

verus! {

/// The registers of a type 1 header that are not common ones.
#[derive(Debug, PartialEq, Eq, Structural)]
pub struct ConfigSpaceType1EmulatorState {
    /// The secondary and the subordinate bus number.
    pub bus_range: AssignedBusRange,
    /// A register without effect.
    pub primary_bus_number: u8,
    /// Upper bits of the memory base.
    pub memory_base: u16,
    /// Upper bits of the memory limit.
    pub memory_limit: u16,
    /// Upper bits of the lower half of the prefetchable base.
    pub prefetch_base: u16,
    /// Upper bits of the lower half of the prefetchable limit.
    pub prefetch_limit: u16,
    /// Upper half of the prefetchable base.
    pub prefetch_base_upper: u32,
    /// Upper half of the prefetchable limit.
    pub prefetch_limit_upper: u32,
}

/// The registers after reset.
pub open spec fn idle_type1() -> ConfigSpaceType1EmulatorState {
    ConfigSpaceType1EmulatorState {
        bus_range: unassigned(),
        primary_bus_number: 0,
        memory_base: 0,
        memory_limit: 0,
        prefetch_base: 0,
        prefetch_limit: 0,
        prefetch_base_upper: 0,
        prefetch_limit_upper: 0,
    }
}

impl ConfigSpaceType1EmulatorState {
    /// Creates registers as they are after reset.
    pub fn new() -> (r: Self)
        ensures
            r == idle_type1(),
    {
        ConfigSpaceType1EmulatorState {
            bus_range: AssignedBusRange::new(),
            primary_bus_number: 0,
            memory_base: 0,
            memory_limit: 0,
            prefetch_base: 0,
            prefetch_limit: 0,
            prefetch_base_upper: 0,
            prefetch_limit_upper: 0,
        }
    }

    fn saved(&self) -> (r: Self)
        ensures
            r == *self,
    {
        let (secondary, subordinate) = self.bus_range.bus_range();
        ConfigSpaceType1EmulatorState {
            bus_range: AssignedBusRange { secondary, subordinate },
            primary_bus_number: self.primary_bus_number,
            memory_base: self.memory_base,
            memory_limit: self.memory_limit,
            prefetch_base: self.prefetch_base,
            prefetch_limit: self.prefetch_limit,
            prefetch_base_upper: self.prefetch_base_upper,
            prefetch_limit_upper: self.prefetch_limit_upper,
        }
    }
}

/// Config space with a type 1 header.
#[derive(Debug)]
pub struct ConfigSpaceType1Emulator<C, E> {
    /// The common part.
    pub common: ConfigSpaceCommonHeaderEmulatorType1<C, E>,
    /// The other registers.
    pub state: ConfigSpaceType1EmulatorState,
}

/// Config space of a bridge as a value.
#[verifier::ext_equal]
pub struct Type1Model<C, E> {
    /// The common part.
    pub common: CommonModel<C, E>,
    /// The other registers.
    pub state: ConfigSpaceType1EmulatorState,
}

impl<C, E> View for ConfigSpaceType1Emulator<C, E> {
    type V = Type1Model<C, E>;

    open spec fn view(&self) -> Type1Model<C, E> {
        Type1Model { common: self.common@, state: self.state }
    }
}

/// Config space of a bridge after a write.
pub open spec fn type1_written<C: PciCapability, E: PciExtendedCapability>(
    m: Type1Model<C, E>,
    offset: u16,
    val: u32,
) -> Type1Model<C, E> {
    Type1Model {
        common: common_written(m.common, offset, val),
        state: type1_state_written(m.state, offset, val),
    }
}

/// Config space of a bridge after a reset.
pub open spec fn type1_reset<C: PciCapability, E: PciExtendedCapability>(
    m: Type1Model<C, E>,
) -> Type1Model<C, E> {
    Type1Model { common: common_reset(m.common), state: idle_type1() }
}

/// Saved state.
#[derive(Debug)]
pub struct SavedType1State<S, X> {
    /// The registers that are not common ones.
    pub registers: ConfigSpaceType1EmulatorState,
    /// The common part.
    pub common_header: SavedState<S, X>,
}

/// The first and the last bus that the bridge decodes; zeros where the
/// registers are out of order.
pub open spec fn assigned_buses(state: ConfigSpaceType1EmulatorState) -> (u8, u8) {
    if state.bus_range.secondary <= state.bus_range.subordinate {
        (state.bus_range.secondary, state.bus_range.subordinate)
    } else {
        (0, 0)
    }
}

/// The base address in a window register.
pub open spec fn window_base(register: u16) -> u32 {
    ((register & !0xFu16) as u32) << 16u32
}

/// The limit address in a window register.
pub open spec fn window_limit(register: u16) -> u32 {
    (((register & !0xFu16) as u32) << 16u32) | 0xF_FFFF
}

/// The memory window: first and last address. `None` while memory is not
/// decoded, or if the registers are out of order.
pub open spec fn memory_window(state: ConfigSpaceType1EmulatorState, command: u16) -> Option<
    (u32, u32),
> {
    if mmio_enabled(command) && window_base(state.memory_base) <= window_limit(state.memory_limit) {
        Some((window_base(state.memory_base), window_limit(state.memory_limit)))
    } else {
        None
    }
}

/// The prefetchable base.
pub open spec fn prefetch_base_of(state: ConfigSpaceType1EmulatorState) -> u64 {
    ((state.prefetch_base_upper as u64) << 32u64) | (window_base(state.prefetch_base) as u64)
}

/// The prefetchable limit.
pub open spec fn prefetch_limit_of(state: ConfigSpaceType1EmulatorState) -> u64 {
    ((state.prefetch_limit_upper as u64) << 32u64) | (window_limit(state.prefetch_limit) as u64)
}

/// The prefetchable window: first and last address. `None` while memory is not
/// decoded, or if the registers are out of order.
pub open spec fn prefetch_window(state: ConfigSpaceType1EmulatorState, command: u16) -> Option<
    (u64, u64),
> {
    if mmio_enabled(command) && prefetch_base_of(state) <= prefetch_limit_of(state) {
        Some((prefetch_base_of(state), prefetch_limit_of(state)))
    } else {
        None
    }
}

/// What a read gives. The header is of type 1. Where there are no extended
/// capabilities, their first register reads as zero.
pub open spec fn type1_read<C: PciCapability, E: PciExtendedCapability>(
    m: CommonModel<C, E>,
    state: ConfigSpaceType1EmulatorState,
    offset: u16,
) -> Result<u32, IoError> {
    match common_read(m, offset) {
        CommonRead::Value(v) => Ok(
            if offset == EXT_CAP_START && m.extended_capabilities.len() == 0 {
                0
            } else if offset == BIST_HEADER {
                if m.multi_function_bit {
                    0x0081_0000
                } else {
                    0x0001_0000
                }
            } else {
                v
            },
        ),
        CommonRead::Failed(e) => Err(e),
        CommonRead::Unhandled => if offset == TYPE1_LATENCY_BUS_NUMBERS {
            Ok(
                ((state.bus_range.subordinate as u32) << 16u32) | ((
                state.bus_range.secondary as u32) << 8u32) | (state.primary_bus_number as u32),
            )
        } else if offset == TYPE1_MEMORY_RANGE {
            Ok(((state.memory_limit as u32) << 16u32) | (state.memory_base as u32))
        } else if offset == TYPE1_PREFETCH_RANGE {
            // The lowest bits say that addresses have 64 bits.
            Ok(
                (((state.prefetch_limit | 1) as u32) << 16u32) | ((state.prefetch_base | 1) as u32),
            )
        } else if offset == TYPE1_PREFETCH_BASE_UPPER {
            Ok(state.prefetch_base_upper)
        } else if offset == TYPE1_PREFETCH_LIMIT_UPPER {
            Ok(state.prefetch_limit_upper)
        } else if offset == TYPE1_SEC_STATUS_IO_RANGE || offset == TYPE1_IO_RANGE_UPPER || offset
            == TYPE1_EXPANSION_ROM_BASE || offset == TYPE1_BRIDGE_CTRL_INTERRUPT {
            Ok(0)
        } else if offset == CAP_PTR {
            Ok(
                if m.capabilities.len() == 0 {
                    0
                } else {
                    0x40
                },
            )
        } else {
            Err(IoError::InvalidRegister)
        },
    }
}

/// What is returned for a write. Registers without effect take writes.
pub open spec fn type1_write_result<C: PciCapability, E>(
    m: CommonModel<C, E>,
    offset: u16,
) -> IoResult {
    match common_write_result(m, offset) {
        CommonHeaderResult::Handled => Ok(()),
        CommonHeaderResult::Failed(e) => Err(e),
        CommonHeaderResult::Unhandled => if offset < 0x40 && offset % 4 == 0 {
            Ok(())
        } else {
            Err(IoError::InvalidRegister)
        },
    }
}

/// The registers that are not common ones after a write.
pub open spec fn type1_state_written(
    state: ConfigSpaceType1EmulatorState,
    offset: u16,
    val: u32,
) -> ConfigSpaceType1EmulatorState {
    if offset == TYPE1_LATENCY_BUS_NUMBERS {
        ConfigSpaceType1EmulatorState {
            bus_range: AssignedBusRange {
                secondary: (val >> 8u32) as u8,
                subordinate: (val >> 16u32) as u8,
            },
            primary_bus_number: val as u8,
            ..state
        }
    } else if offset == TYPE1_MEMORY_RANGE {
        ConfigSpaceType1EmulatorState {
            memory_base: val as u16,
            memory_limit: (val >> 16u32) as u16,
            ..state
        }
    } else if offset == TYPE1_PREFETCH_RANGE {
        ConfigSpaceType1EmulatorState {
            prefetch_base: val as u16,
            prefetch_limit: (val >> 16u32) as u16,
            ..state
        }
    } else if offset == TYPE1_PREFETCH_BASE_UPPER {
        ConfigSpaceType1EmulatorState { prefetch_base_upper: val, ..state }
    } else if offset == TYPE1_PREFETCH_LIMIT_UPPER {
        ConfigSpaceType1EmulatorState { prefetch_limit_upper: val, ..state }
    } else {
        state
    }
}

impl<C: PciCapability, E: PciExtendedCapability> ConfigSpaceType1Emulator<C, E> {
    /// Creates config space of a bridge.
    pub fn new(
        hardware_ids: HardwareIds,
        capabilities: Vec<C>,
        extended_capabilities: Vec<E>,
    ) -> (r: Self)
        ensures
            r.common.hardware_ids == hardware_ids,
            r.common.capabilities@ == capabilities@,
            r.common.extended_capabilities@ == extended_capabilities@,
            !r.common.multi_function_bit,
            r.common.intx_interrupt is None,
            r.common.active_bars == no_mappings(),
            r.common.state == idle_header(),
            r.state == idle_type1(),
            has_bars(r.common@, bar0_only(None)),
            common_wf(r.common@),
    {
        Self::new_with_bars(hardware_ids, capabilities, extended_capabilities, DeviceBars::new())
    }

    /// Creates config space of a bridge with BARs.
    pub fn new_with_bars(
        hardware_ids: HardwareIds,
        capabilities: Vec<C>,
        extended_capabilities: Vec<E>,
        bars: DeviceBars,
    ) -> (r: Self)
        requires
            bars_fit(bars),
        ensures
            r.common.hardware_ids == hardware_ids,
            r.common.capabilities@ == capabilities@,
            r.common.extended_capabilities@ == extended_capabilities@,
            !r.common.multi_function_bit,
            r.common.intx_interrupt is None,
            r.common.active_bars == no_mappings(),
            r.common.state == idle_header(),
            r.state == idle_type1(),
            has_bars(r.common@, bars),
            common_wf(r.common@),
    {
        ConfigSpaceType1Emulator {
            common: ConfigSpaceCommonHeaderEmulator::new(
                hardware_ids,
                capabilities,
                extended_capabilities,
                bars,
            ),
            state: ConfigSpaceType1EmulatorState::new(),
        }
    }

    /// Resets config space.
    pub fn reset(&mut self)
        ensures
            final(self).common@ == common_reset(old(self).common@),
            final(self).state == idle_type1(),
    {
        self.common.reset();
        self.state = ConfigSpaceType1EmulatorState::new();
    }

    /// Sets whether the device has more than one function.
    pub fn with_multi_function_bit(self, multi_function: bool) -> (r: Self)
        ensures
            r.common@ == (CommonModel { multi_function_bit: multi_function, ..self.common@ }),
            r.state == self.state,
    {
        ConfigSpaceType1Emulator {
            common: self.common.with_multi_function_bit(multi_function),
            state: self.state,
        }
    }

    /// Returns the first and the last bus that the bridge decodes; zeros where
    /// the registers are out of order.
    pub fn assigned_bus_range(&self) -> (r: (u8, u8))
        ensures
            r == assigned_buses(self.state),
    {
        let (secondary, subordinate) = self.state.bus_range.bus_range();
        if secondary <= subordinate {
            (secondary, subordinate)
        } else {
            (0, 0)
        }
    }

    /// Lends the bus numbers in the registers.
    pub fn bus_range(&self) -> (r: &AssignedBusRange)
        ensures
            *r == self.state.bus_range,
    {
        &self.state.bus_range
    }

    fn decode_memory_range(&self, base_register: u16, limit_register: u16) -> (r: (u32, u32))
        ensures
            r == (window_base(base_register), window_limit(limit_register)),
    {
        let base: u32 = ((base_register & !0xFu16) as u32) << 16u32;
        let limit: u32 = (((limit_register & !0xFu16) as u32) << 16u32) | 0xF_FFFF;
        (base, limit)
    }

    /// Returns the first and the last address of the memory window, while memory
    /// is decoded.
    pub fn assigned_memory_range(&self) -> (r: Option<(u32, u32)>)
        ensures
            r == memory_window(self.state, self.common.state.command),
    {
        let (base, limit) = self.decode_memory_range(
            self.state.memory_base,
            self.state.memory_limit,
        );
        if self.common.command() & COMMAND_MMIO_ENABLED != 0 && base <= limit {
            Some((base, limit))
        } else {
            None
        }
    }

    /// Returns the first and the last address of the prefetchable window, while
    /// memory is decoded.
    pub fn assigned_prefetch_range(&self) -> (r: Option<(u64, u64)>)
        ensures
            r == prefetch_window(self.state, self.common.state.command),
    {
        let (base_low, limit_low) = self.decode_memory_range(
            self.state.prefetch_base,
            self.state.prefetch_limit,
        );
        let base: u64 = ((self.state.prefetch_base_upper as u64) << 32u64) | (base_low as u64);
        let limit: u64 = ((self.state.prefetch_limit_upper as u64) << 32u64) | (limit_low as u64);
        if self.common.command() & COMMAND_MMIO_ENABLED != 0 && base <= limit {
            Some((base, limit))
        } else {
            None
        }
    }

    /// Reads a register. `offset` is a multiple of four.
    pub fn read_u32(&self, offset: u16, value: &mut u32) -> (r: IoResult)
        ensures
            match type1_read(self.common@, self.state, offset) {
                Ok(v) => r == Ok::<(), IoError>(()) && *final(value) == v,
                Err(e) => r == Err::<(), IoError>(e) && *final(value) == *old(value),
            },
    {
        match self.common.read_u32(offset, value) {
            CommonHeaderResult::Handled => {
                if offset == EXT_CAP_START && self.common.extended_capabilities.len() == 0 {
                    *value = 0;
                } else if offset == BIST_HEADER {
                    *value = if self.common.multi_function_bit() {
                        0x0081_0000
                    } else {
                        0x0001_0000
                    };
                }
                return Ok(());
            },
            CommonHeaderResult::Failed(e) => {
                return Err(e);
            },
            CommonHeaderResult::Unhandled => {},
        }
        let state: &ConfigSpaceType1EmulatorState = &self.state;
        if offset == TYPE1_LATENCY_BUS_NUMBERS {
            *value = ((state.bus_range.subordinate as u32) << 16u32) | ((
            state.bus_range.secondary as u32) << 8u32) | (state.primary_bus_number as u32);
        } else if offset == TYPE1_MEMORY_RANGE {
            *value = ((state.memory_limit as u32) << 16u32) | (state.memory_base as u32);
        } else if offset == TYPE1_PREFETCH_RANGE {
            *value = (((state.prefetch_limit | 1) as u32) << 16u32) | ((state.prefetch_base | 1)
                as u32);
        } else if offset == TYPE1_PREFETCH_BASE_UPPER {
            *value = state.prefetch_base_upper;
        } else if offset == TYPE1_PREFETCH_LIMIT_UPPER {
            *value = state.prefetch_limit_upper;
        } else if offset == TYPE1_SEC_STATUS_IO_RANGE || offset == TYPE1_IO_RANGE_UPPER || offset
            == TYPE1_EXPANSION_ROM_BASE || offset == TYPE1_BRIDGE_CTRL_INTERRUPT {
            *value = 0;
        } else if offset == CAP_PTR {
            *value = if self.common.capabilities.len() == 0 {
                0
            } else {
                0x40
            };
        } else {
            return Err(IoError::InvalidRegister);
        }
        Ok(())
    }

    /// Writes a register. `offset` is a multiple of four.
    pub fn write_u32(&mut self, offset: u16, val: u32) -> (r: IoResult)
        ensures
            r == type1_write_result(old(self).common@, offset),
            final(self).common@ == common_written(old(self).common@, offset, val),
            final(self).state == type1_state_written(old(self).state, offset, val),
    {
        match self.common.write_u32(offset, val) {
            CommonHeaderResult::Handled => {
                return Ok(());
            },
            CommonHeaderResult::Failed(e) => {
                return Err(e);
            },
            CommonHeaderResult::Unhandled => {},
        }
        if offset == TYPE1_LATENCY_BUS_NUMBERS {
            self.state.bus_range.set_bus_range((val >> 8u32) as u8, (val >> 16u32) as u8);
            self.state.primary_bus_number = val as u8;
        } else if offset == TYPE1_MEMORY_RANGE {
            self.state.memory_base = val as u16;
            self.state.memory_limit = (val >> 16u32) as u16;
        } else if offset == TYPE1_PREFETCH_RANGE {
            self.state.prefetch_base = val as u16;
            self.state.prefetch_limit = (val >> 16u32) as u16;
        } else if offset == TYPE1_PREFETCH_BASE_UPPER {
            self.state.prefetch_base_upper = val;
        } else if offset == TYPE1_PREFETCH_LIMIT_UPPER {
            self.state.prefetch_limit_upper = val;
        } else if !(offset < 0x40 && offset % 4 == 0) {
            return Err(IoError::InvalidRegister);
        }
        Ok(())
    }

    /// Finds the BAR at an address, and the offset in it.
    pub fn find_bar(&self, address: u64) -> (r: Option<(u8, u64)>)
        ensures
            r == found_from(self.common.active_bars, address, 0),
    {
        self.common.find_bar(address)
    }

    /// Returns whether there is a PCI Express capability.
    pub fn is_pcie_device(&self) -> (r: bool)
        ensures
            r == is_pcie(self.common.capabilities@),
    {
        self.common.is_pcie_device()
    }

    /// Saves the state.
    pub fn save(&self) -> (r: SavedType1State<C::Saved, E::Saved>)
        ensures
            r.registers == self.state,
            common_saves_as(self.common@, r.common_header),
    {
        SavedType1State { registers: self.state.saved(), common_header: self.common.save() }
    }

    /// Restores a state.
    pub fn restore(&mut self, saved: SavedType1State<C::Saved, E::Saved>) -> (r: Result<
        (),
        RestoreError,
    >)
        ensures
            final(self).state == saved.registers,
            final(self).common@ == common_restored(old(self).common@, saved.common_header).0,
            is_result(r, common_restored(old(self).common@, saved.common_header).1),
    {
        self.state = saved.registers;
        self.common.restore(saved.common_header)
    }
}

/// The buses that a bridge decodes are in order.
pub proof fn law_buses_in_order(state: ConfigSpaceType1EmulatorState)
    ensures
        assigned_buses(state).0 <= assigned_buses(state).1,
{
}

/// Bus numbers that are written are the bus numbers that are decoded, if they
/// are in order.
pub proof fn law_bus_numbers_programmed(
    state: ConfigSpaceType1EmulatorState,
    primary: u8,
    secondary: u8,
    subordinate: u8,
)
    requires
        secondary <= subordinate,
    ensures
        ({
            let val = ((subordinate as u32) << 16u32) | ((secondary as u32) << 8u32) | (
            primary as u32);
            let next = type1_state_written(state, TYPE1_LATENCY_BUS_NUMBERS, val);
            assigned_buses(next) == (secondary, subordinate)
        }),
{
    let val = ((subordinate as u32) << 16u32) | ((secondary as u32) << 8u32) | (primary as u32);
    assert((val >> 16u32) as u8 == subordinate && (val >> 8u32) as u8 == secondary)
        by (bit_vector)
        requires
            val == ((subordinate as u32) << 16u32) | ((secondary as u32) << 8u32) | (
            primary as u32),
    ;
}

/// The identity of a device follows its port: whatever was assigned before, a
/// write of bus numbers makes the secondary bus that was written the one that
/// requester identifiers and ITS device identifiers are composed from, and a
/// reset leaves none.
pub proof fn law_identity_follows(
    state: ConfigSpaceType1EmulatorState,
    val: u32,
    rid_offset: u16,
    segment: u16,
)
    ensures
        ({
            let written = type1_state_written(state, TYPE1_LATENCY_BUS_NUMBERS, val).bus_range;
            let secondary = (val >> 8u32) as u8;
            let subordinate = (val >> 16u32) as u8;
            &&& requester_id(written, rid_offset) == (secondary * 256 + rid_offset) % 0x1_0000
            &&& its_devid(written, segment, None) == if 0 < secondary <= subordinate {
                Some((segment * 0x1_0000 + secondary * 256) as u32)
            } else {
                None
            }
        }),
        its_devid(idle_type1().bus_range, segment, None) is None,
{
}

}
