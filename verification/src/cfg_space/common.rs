//! The part of config space that type 0 and type 1 headers share.
use crate::bars::found_from;
use crate::bars::is_bar_size;
use crate::bars::mappings;
use crate::bars::no_mappings;
use crate::bars::BarMappings;
use crate::bars::BarMemory;
use crate::bars::BarMemoryKind;
use crate::bars::DeviceBars;
use crate::capabilities::PciCapability;
use crate::capabilities::PciExtendedCapability;
use crate::cfg_space::caps::cap_read;
use crate::cfg_space::caps::caps_reset;
use crate::cfg_space::caps::caps_written;
use crate::cfg_space::caps::ext_read;
use crate::cfg_space::caps::exts_reset;
use crate::cfg_space::caps::exts_written;
use crate::cfg_space::caps::get_capability_index_and_offset;
use crate::cfg_space::caps::get_extended_capability_index_and_offset;
use crate::cfg_space::caps::has_pcie;
use crate::cfg_space::caps::is_pcie;
use crate::cfg_space::caps::locate_cap;
use crate::cfg_space::caps::read_cap;
use crate::cfg_space::caps::read_ext;
use crate::cfg_space::caps::reset_caps;
use crate::cfg_space::caps::reset_exts;
use crate::cfg_space::intx::disabled_set;
use crate::cfg_space::intx::level_set;
use crate::cfg_space::intx::IntxInterrupt;
use crate::cfg_space::intx::PciInterruptPin;
use crate::cfg_space::read_result;
use crate::cfg_space::read_value;
use crate::cfg_space::CommonHeaderResult;
use crate::cfg_space::CommonRead;
use crate::cfg_space::HardwareIds;
use crate::io::IoError;
use crate::regs::BAR0;
use crate::regs::BAR_ENCODING_64BIT;
use crate::regs::BIST_HEADER;
use crate::regs::CLASS_REVISION;
use crate::regs::COMMAND_INTX_DISABLE;
use crate::regs::COMMAND_MMIO_ENABLED;
use crate::regs::DEVICE_VENDOR;
use crate::regs::STATUS_CAPABILITIES_LIST;
use crate::regs::STATUS_COMMAND;
use crate::slots::all_slots;
use crate::slots::Slots;
use vstd::prelude::*;

verus! {

/// Command bits that are supported.
pub const SUPPORTED_COMMAND_BITS: u16 = 0x077F;
/// Status: the interrupt status bit.
pub const STATUS_INTERRUPT: u16 = 0x0008;

/// The registers of the common part.
#[derive(Debug, Clone, Copy)]
pub struct CommonHeaderState {
    /// Command register.
    pub command: u16,
    /// BAR registers.
    pub base_addresses: Slots<u32>,
    /// A register for software's own use.
    pub interrupt_line: u8,
}

/// The registers after reset.
pub open spec fn idle_header() -> CommonHeaderState {
    CommonHeaderState { command: 0, base_addresses: all_slots(0u32), interrupt_line: 0 }
}

impl CommonHeaderState {
    /// Creates registers as they are after reset.
    pub fn new() -> (r: Self)
        ensures
            r == idle_header(),
    {
        CommonHeaderState { command: 0, base_addresses: Slots::all(0), interrupt_line: 0 }
    }
}

/// The common part of config space: six BARs in a type 0 header, two in a type 1
/// header.
#[derive(Debug)]
pub struct ConfigSpaceCommonHeaderEmulator<const N: usize, C, E> {
    /// Masks of the BARs.
    pub bar_masks: Slots<u32>,
    /// Identity.
    pub hardware_ids: HardwareIds,
    /// Whether the device has more than one function.
    pub multi_function_bit: bool,
    /// What BARs are backed by.
    pub mapped_memory: Slots<Option<BarMemoryKind>>,
    /// Capabilities.
    pub capabilities: Vec<C>,
    /// Extended capabilities.
    pub extended_capabilities: Vec<E>,
    /// The legacy interrupt, if there is one.
    pub intx_interrupt: Option<IntxInterrupt>,
    /// Where BARs are while they are decoded.
    pub active_bars: BarMappings,
    /// Registers.
    pub state: CommonHeaderState,
}

/// The common part of a type 0 header.
pub type ConfigSpaceCommonHeaderEmulatorType0<C, E> = ConfigSpaceCommonHeaderEmulator<6, C, E>;

/// The common part of a type 1 header.
pub type ConfigSpaceCommonHeaderEmulatorType1<C, E> = ConfigSpaceCommonHeaderEmulator<2, C, E>;

/// Values with the first ones replaced by those of a sequence.
pub open spec fn slots_from(slots: Slots<u32>, values: Seq<u32>, n: int) -> Slots<u32>
    decreases n,
{
    if n <= 0 {
        slots
    } else {
        slots_from(slots, values, n - 1).with(n - 1, values[n - 1])
    }
}

/// The common part as a value.
#[verifier::ext_equal]
pub struct CommonModel<C, E> {
    /// The number of BARs.
    pub bar_count: int,
    /// Masks of the BARs.
    pub bar_masks: Slots<u32>,
    /// Identity.
    pub hardware_ids: HardwareIds,
    /// Whether the device has more than one function.
    pub multi_function_bit: bool,
    /// What BARs are backed by.
    pub mapped_memory: Slots<Option<BarMemoryKind>>,
    /// Capabilities.
    pub capabilities: Seq<C>,
    /// Extended capabilities.
    pub extended_capabilities: Seq<E>,
    /// The legacy interrupt, if there is one.
    pub intx_interrupt: Option<IntxInterrupt>,
    /// Where BARs are while they are decoded.
    pub active_bars: BarMappings,
    /// Registers.
    pub state: CommonHeaderState,
}

impl<const N: usize, C, E> View for ConfigSpaceCommonHeaderEmulator<N, C, E> {
    type V = CommonModel<C, E>;

    open spec fn view(&self) -> CommonModel<C, E> {
        CommonModel {
            bar_count: N as int,
            bar_masks: self.bar_masks,
            hardware_ids: self.hardware_ids,
            multi_function_bit: self.multi_function_bit,
            mapped_memory: self.mapped_memory,
            capabilities: self.capabilities@,
            extended_capabilities: self.extended_capabilities@,
            intx_interrupt: self.intx_interrupt,
            active_bars: self.active_bars,
            state: self.state,
        }
    }
}

/// Whether MMIO is enabled in a command register.
pub open spec fn mmio_enabled(command: u16) -> bool {
    command & COMMAND_MMIO_ENABLED != 0
}

/// Whether the legacy interrupt is disabled in a command register.
pub open spec fn intx_disabled(command: u16) -> bool {
    command & COMMAND_INTX_DISABLE != 0
}

/// The interrupt after it was disabled or enabled, if there is one.
pub open spec fn intx_after(intx: Option<IntxInterrupt>, disabled: bool) -> Option<IntxInterrupt> {
    match intx {
        Some(i) => Some(disabled_set(i, disabled)),
        None => None,
    }
}

/// Where BARs are, while they are decoded.
pub open spec fn bars_after<C, E>(m: CommonModel<C, E>, enabled: bool) -> BarMappings {
    if enabled {
        mappings(m.state.base_addresses, m.bar_masks)
    } else {
        no_mappings()
    }
}

/// The common part with interrupt and BARs as a command register says.
pub open spec fn command_synced<C, E>(m: CommonModel<C, E>, command: u16) -> CommonModel<C, E> {
    CommonModel {
        intx_interrupt: intx_after(m.intx_interrupt, intx_disabled(command)),
        active_bars: bars_after(m, mmio_enabled(command)),
        ..m
    }
}

/// The common part after a write of the command register. Bits that are not
/// supported are dropped.
pub open spec fn command_written<C, E>(m: CommonModel<C, E>, val: u32) -> CommonModel<C, E> {
    let command = val as u16 & SUPPORTED_COMMAND_BITS;
    CommonModel {
        intx_interrupt: if intx_disabled(m.state.command) != intx_disabled(command) {
            intx_after(m.intx_interrupt, intx_disabled(command))
        } else {
            m.intx_interrupt
        },
        active_bars: if mmio_enabled(m.state.command) != mmio_enabled(command) {
            bars_after(m, mmio_enabled(command))
        } else {
            m.active_bars
        },
        state: CommonHeaderState { command, ..m.state },
        ..m
    }
}

/// Whether an offset is that of a BAR.
pub open spec fn is_bar<C, E>(m: CommonModel<C, E>, offset: u16) -> bool {
    BAR0 <= offset < BAR0 + 4 * m.bar_count && offset % 4 == 0
}

/// The common part after a write of a BAR, which has no effect while BARs are
/// decoded.
pub open spec fn bar_written<C, E>(m: CommonModel<C, E>, i: int, val: u32) -> CommonModel<C, E> {
    let mask = m.bar_masks.at(i);
    if mmio_enabled(m.state.command) {
        m
    } else {
        CommonModel {
            state: CommonHeaderState {
                base_addresses: m.state.base_addresses.with(
                    i,
                    if i % 2 == 0 && mask != 0 {
                        (val & mask) | BAR_ENCODING_64BIT
                    } else {
                        val & mask
                    },
                ),
                ..m.state
            },
            ..m
        }
    }
}

/// The status register.
pub open spec fn status_value<C, E>(m: CommonModel<C, E>) -> u16 {
    (if m.capabilities.len() > 0 {
        STATUS_CAPABILITIES_LIST
    } else {
        0
    }) | (if m.intx_interrupt is Some && m.intx_interrupt->0.interrupt_status {
        STATUS_INTERRUPT
    } else {
        0
    })
}

/// What a read of a capability register gives.
pub open spec fn capabilities_read<C: PciCapability, E>(
    m: CommonModel<C, E>,
    offset: u16,
) -> CommonRead {
    if 0x40 <= offset < 0x100 {
        match cap_read(m.capabilities, offset) {
            Some(v) => CommonRead::Value(v),
            None => CommonRead::Failed(IoError::InvalidRegister),
        }
    } else {
        CommonRead::Failed(IoError::InvalidRegister)
    }
}

/// What a read of an extended register gives: only PCI Express devices have
/// them.
pub open spec fn extended_read<C: PciCapability, E: PciExtendedCapability>(
    m: CommonModel<C, E>,
    offset: u16,
) -> CommonRead {
    if 0x100 <= offset < 0x1000 && is_pcie(m.capabilities) {
        CommonRead::Value(ext_read(m.extended_capabilities, offset))
    } else {
        CommonRead::Failed(IoError::InvalidRegister)
    }
}

/// What a read of the common part gives. The header type is left to the header
/// that it is of.
pub open spec fn common_read<C: PciCapability, E: PciExtendedCapability>(
    m: CommonModel<C, E>,
    offset: u16,
) -> CommonRead {
    let ids = m.hardware_ids;
    if offset == DEVICE_VENDOR {
        CommonRead::Value(((ids.device_id as u32) << 16u32) | (ids.vendor_id as u32))
    } else if offset == STATUS_COMMAND {
        CommonRead::Value(((status_value(m) as u32) << 16u32) | (m.state.command as u32))
    } else if offset == CLASS_REVISION {
        CommonRead::Value(
            ((ids.base_class as u32) << 24u32) | ((ids.sub_class as u32) << 16u32) | ((
            ids.prog_if as u32) << 8u32) | (ids.revision_id as u32),
        )
    } else if offset == BIST_HEADER {
        CommonRead::Value(
            if m.multi_function_bit {
                0x0080_0000
            } else {
                0
            },
        )
    } else if 0x40 <= offset < 0x100 {
        capabilities_read(m, offset)
    } else if 0x100 <= offset < 0x1000 {
        extended_read(m, offset)
    } else if is_bar(m, offset) {
        CommonRead::Value(m.state.base_addresses.at((offset - BAR0) / 4))
    } else {
        CommonRead::Unhandled
    }
}

/// What is returned for a write of a capability register.
pub open spec fn capabilities_write_result<C: PciCapability, E>(
    m: CommonModel<C, E>,
    offset: u16,
) -> CommonHeaderResult {
    if 0x40 <= offset < 0x100 && locate_cap(m.capabilities, 0, offset - 0x40) is Some {
        CommonHeaderResult::Handled
    } else {
        CommonHeaderResult::Failed(IoError::InvalidRegister)
    }
}

/// What is returned for a write of an extended register.
pub open spec fn extended_write_result<C: PciCapability, E>(
    m: CommonModel<C, E>,
    offset: u16,
) -> CommonHeaderResult {
    if 0x100 <= offset < 0x1000 && is_pcie(m.capabilities) {
        CommonHeaderResult::Handled
    } else {
        CommonHeaderResult::Failed(IoError::InvalidRegister)
    }
}

/// What is returned for a write of the common part.
pub open spec fn common_write_result<C: PciCapability, E>(
    m: CommonModel<C, E>,
    offset: u16,
) -> CommonHeaderResult {
    if offset == STATUS_COMMAND || offset == BIST_HEADER {
        CommonHeaderResult::Handled
    } else if 0x40 <= offset < 0x100 {
        capabilities_write_result(m, offset)
    } else if 0x100 <= offset < 0x1000 {
        extended_write_result(m, offset)
    } else if is_bar(m, offset) {
        CommonHeaderResult::Handled
    } else {
        CommonHeaderResult::Unhandled
    }
}

/// The common part after a write.
pub open spec fn common_written<C: PciCapability, E: PciExtendedCapability>(
    m: CommonModel<C, E>,
    offset: u16,
    val: u32,
) -> CommonModel<C, E> {
    if offset == STATUS_COMMAND {
        command_written(m, val)
    } else if 0x40 <= offset < 0x100 {
        CommonModel { capabilities: caps_written(m.capabilities, offset, val), ..m }
    } else if 0x100 <= offset < 0x1000 {
        if is_pcie(m.capabilities) {
            CommonModel {
                extended_capabilities: exts_written(m.extended_capabilities, offset, val),
                ..m
            }
        } else {
            m
        }
    } else if is_bar(m, offset) {
        bar_written(m, (offset - BAR0) / 4, val)
    } else {
        m
    }
}

/// The common part after a reset.
pub open spec fn common_reset<C: PciCapability, E: PciExtendedCapability>(
    m: CommonModel<C, E>,
) -> CommonModel<C, E> {
    let synced = command_synced(CommonModel { state: idle_header(), ..m }, 0);
    CommonModel {
        capabilities: caps_reset(m.capabilities),
        extended_capabilities: exts_reset(m.extended_capabilities),
        intx_interrupt: match synced.intx_interrupt {
            Some(i) => Some(level_set(i, false)),
            None => None,
        },
        ..synced
    }
}

/// The length of a BAR that is there; zero otherwise.
pub open spec fn bar_len(bar: Option<BarMemory>) -> u64 {
    match bar {
        Some(b) => b.len,
        None => 0,
    }
}

/// Whether BARs can be had in a header: only even ones,
/// which are followed by their upper half, and none too long for a power of
/// two.
pub open spec fn bars_fit(bars: DeviceBars) -> bool {
    &&& bars.bars.s1 is None
    &&& bars.bars.s3 is None
    &&& bars.bars.s5 is None
    &&& forall|i: int|
        0 <= i < 6 ==> bar_len(#[trigger] bars.bars.at(i)) <= 0x8000_0000_0000_0000
}

/// Whether a mask pair is that of a BAR.
pub open spec fn is_mask_pair(bar: Option<BarMemory>, low: u32, high: u32) -> bool {
    match bar {
        Some(b) => exists|size: u64|
            #![trigger is_bar_size(size as int, b.len as int)]
            {
                &&& is_bar_size(size as int, b.len as int)
                &&& low == (!((size - 1) as u64) as u32 | BAR_ENCODING_64BIT)
                &&& high == ((!((size - 1) as u64)) >> 32u64) as u32
            },
        None => low == 0 && high == 0,
    }
}

/// What backs a BAR.
pub open spec fn bar_kind(bar: Option<BarMemory>) -> Option<BarMemoryKind> {
    match bar {
        Some(b) => Some(b.kind),
        None => None,
    }
}

/// Whether a device has the given BARs, each 64 bits wide, as far as its header
/// has registers for them.
pub open spec fn has_bars<C, E>(m: CommonModel<C, E>, bars: DeviceBars) -> bool {
    let masks = m.bar_masks;
    let memory = m.mapped_memory;
    let given = if m.bar_count == 6 {
        bars
    } else {
        bar0_only(bars.bars.s0)
    };
    &&& is_mask_pair(given.bars.s0, masks.s0, masks.s1)
    &&& is_mask_pair(given.bars.s2, masks.s2, masks.s3)
    &&& is_mask_pair(given.bars.s4, masks.s4, masks.s5)
    &&& memory.s0 == bar_kind(given.bars.s0)
    &&& memory.s2 == bar_kind(given.bars.s2)
    &&& memory.s4 == bar_kind(given.bars.s4)
    &&& memory.s1 is None
    &&& memory.s3 is None
    &&& memory.s5 is None
}

/// BARs of a device that has BAR 0 alone, or none.
pub open spec fn bar0_only(bar0: Option<BarMemory>) -> DeviceBars {
    DeviceBars { bars: Slots { s0: bar0, s1: None, s2: None, s3: None, s4: None, s5: None } }
}

fn mask_pair(bar: Option<BarMemory>) -> (r: (u32, u32))
    requires
        bar_len(bar) <= 0x8000_0000_0000_0000,
    ensures
        is_mask_pair(bar, r.0, r.1),
{
    match bar {
        Some(b) => {
            let size: u64 = crate::bars::bar_size(b.len);
            let mask: u64 = !(size - 1);
            assert(is_bar_size(size as int, b.len as int));
            (mask as u32 | BAR_ENCODING_64BIT, (mask >> 32u64) as u32)
        },
        None => (0, 0),
    }
}

fn kind_of(bar: Option<BarMemory>) -> (r: Option<BarMemoryKind>)
    ensures
        r == bar_kind(bar),
{
    match bar {
        Some(b) => Some(b.kind),
        None => None,
    }
}

impl<const N: usize, C: PciCapability, E: PciExtendedCapability> ConfigSpaceCommonHeaderEmulator<
    N,
    C,
    E,
> {
    /// Creates the common part. BARs that do not fit in the header are ignored.
    pub fn new(
        hardware_ids: HardwareIds,
        capabilities: Vec<C>,
        extended_capabilities: Vec<E>,
        bars: DeviceBars,
    ) -> (r: Self)
        requires
            N == 2 || N == 6,
            bars_fit(bars),
        ensures
            r.hardware_ids == hardware_ids,
            r.capabilities@ == capabilities@,
            r.extended_capabilities@ == extended_capabilities@,
            !r.multi_function_bit,
            r.intx_interrupt is None,
            r.active_bars == no_mappings(),
            r.state == idle_header(),
            has_bars(r@, bars),
            common_wf(r@),
    {
        let mut masks: Slots<u32> = Slots::all(0);
        let mut kinds: Slots<Option<BarMemoryKind>> = Slots::all(None);
        proof {
            assert(bar_len(bars.bars.at(0)) <= 0x8000_0000_0000_0000);
            assert(bar_len(bars.bars.at(2)) <= 0x8000_0000_0000_0000);
            assert(bar_len(bars.bars.at(4)) <= 0x8000_0000_0000_0000);
            lemma_no_command();
        }
        let (low, high) = mask_pair(bars.bars.s0);
        masks.s0 = low;
        masks.s1 = high;
        kinds.s0 = kind_of(bars.bars.s0);
        if N == 6 {
            let (low, high) = mask_pair(bars.bars.s2);
            masks.s2 = low;
            masks.s3 = high;
            kinds.s2 = kind_of(bars.bars.s2);
            let (low, high) = mask_pair(bars.bars.s4);
            masks.s4 = low;
            masks.s5 = high;
            kinds.s4 = kind_of(bars.bars.s4);
        }
        ConfigSpaceCommonHeaderEmulator {
            bar_masks: masks,
            hardware_ids,
            multi_function_bit: false,
            mapped_memory: kinds,
            capabilities,
            extended_capabilities,
            intx_interrupt: None,
            active_bars: BarMappings::new(),
            state: CommonHeaderState::new(),
        }
    }

    /// Sets whether the device has more than one function.
    pub fn with_multi_function_bit(self, bit: bool) -> (r: Self)
        ensures
            r@ == (CommonModel { multi_function_bit: bit, ..self@ }),
    {
        let mut r: Self = self;
        r.multi_function_bit = bit;
        r
    }

    /// Wires up a legacy interrupt.
    pub fn set_interrupt_pin(&mut self, pin: PciInterruptPin)
        ensures
            final(self)@ == (CommonModel {
                intx_interrupt: Some(
                    IntxInterrupt {
                        pin,
                        line: false,
                        interrupt_disabled: false,
                        interrupt_status: false,
                    },
                ),
                ..old(self)@
            }),
    {
        self.intx_interrupt = Some(IntxInterrupt::new(pin));
    }

    /// Sets the level of the legacy interrupt, if there is one.
    pub fn set_interrupt_level(&mut self, high: bool)
        ensures
            final(self)@ == (CommonModel {
                intx_interrupt: match old(self).intx_interrupt {
                    Some(i) => Some(level_set(i, high)),
                    None => None,
                },
                ..old(self)@
            }),
    {
        if let Some(i) = self.intx_interrupt {
            let mut next: IntxInterrupt = i;
            next.set_level(high);
            self.intx_interrupt = Some(next);
        }
    }

    /// Resets registers, capabilities and the interrupt.
    pub fn reset(&mut self)
        ensures
            final(self)@ == common_reset(old(self)@),
    {
        self.state = CommonHeaderState::new();
        self.sync_command_register(0);
        reset_caps(&mut self.capabilities);
        reset_exts(&mut self.extended_capabilities);
        self.set_interrupt_level(false);
    }

    /// Returns the identity.
    pub fn hardware_ids(&self) -> (r: HardwareIds)
        ensures
            r == self.hardware_ids,
    {
        self.hardware_ids
    }

    /// Returns whether the device has more than one function.
    pub fn multi_function_bit(&self) -> (r: bool)
        ensures
            r == self.multi_function_bit,
    {
        self.multi_function_bit
    }

    /// Returns the command register.
    pub fn command(&self) -> (r: u16)
        ensures
            r == self.state.command,
    {
        self.state.command
    }

    /// Returns the software register.
    pub fn interrupt_line(&self) -> (r: u8)
        ensures
            r == self.state.interrupt_line,
    {
        self.state.interrupt_line
    }

    /// Sets the software register.
    pub fn set_interrupt_line(&mut self, interrupt_line: u8)
        ensures
            final(self)@ == (CommonModel {
                state: CommonHeaderState { interrupt_line, ..old(self).state },
                ..old(self)@
            }),
    {
        self.state.interrupt_line = interrupt_line;
    }

    /// Returns the capabilities.
    pub fn capabilities(&self) -> (r: &Vec<C>)
        ensures
            *r == self.capabilities,
    {
        &self.capabilities
    }

    /// Returns the capabilities, to be changed.
    pub fn capabilities_mut(&mut self) -> (r: &mut Vec<C>)
        ensures
            *r == old(self).capabilities,
            *final(self) == (ConfigSpaceCommonHeaderEmulator::<N, C, E> {
                capabilities: *final(r),
                ..*old(self)
            }),
    {
        &mut self.capabilities
    }

    /// Returns the BAR registers of the header.
    pub fn base_addresses(&self) -> (r: Vec<u32>)
        requires
            N <= 6,
        ensures
            r@ == self.state.base_addresses.to_seq().take(N as int),
    {
        self.first_slots(&self.state.base_addresses)
    }

    /// Sets the BAR registers of the header.
    pub fn set_base_addresses(&mut self, base_addresses: &[u32; N])
        requires
            N <= 6,
        ensures
            final(self)@ == (CommonModel {
                state: CommonHeaderState {
                    base_addresses: slots_from(
                        old(self).state.base_addresses,
                        base_addresses@,
                        N as int,
                    ),
                    ..old(self).state
                },
                ..old(self)@
            }),
    {
        let mut slots: Slots<u32> = self.state.base_addresses;
        let mut i: usize = 0;
        while i < N
            invariant
                i <= N <= 6,
                slots == slots_from(self.state.base_addresses, base_addresses@, i as int),
            decreases N - i,
        {
            slots.set(i, base_addresses[i]);
            i = i + 1;
        }
        self.state.base_addresses = slots;
    }

    /// Sets the command register, and nothing that follows it.
    pub fn set_command(&mut self, command: u16)
        ensures
            final(self)@ == (CommonModel {
                state: CommonHeaderState { command, ..old(self).state },
                ..old(self)@
            }),
    {
        self.state.command = command;
    }

    fn first_slots(&self, slots: &Slots<u32>) -> (r: Vec<u32>)
        requires
            N <= 6,
        ensures
            r@ == slots.to_seq().take(N as int),
    {
        let all: Vec<u32> = slots.to_vec();
        let mut r: Vec<u32> = Vec::new();
        let mut i: usize = 0;
        while i < N
            invariant
                i <= N <= 6,
                all@ == slots.to_seq(),
                r@ == slots.to_seq().take(i as int),
            decreases N - i,
        {
            r.push(all[i]);
            proof {
                assert(slots.to_seq().take(i + 1) =~= slots.to_seq().take(i as int).push(
                    all[i as int],
                ));
            }
            i = i + 1;
        }
        r
    }

    /// Returns the masks of the BARs of the header.
    pub fn bar_masks(&self) -> (r: Vec<u32>)
        requires
            N <= 6,
        ensures
            r@ == self.bar_masks.to_seq().take(N as int),
    {
        self.first_slots(&self.bar_masks)
    }

    /// Follows a command register with interrupt and BARs.
    pub fn sync_command_register(&mut self, command: u16)
        ensures
            final(self)@ == command_synced(old(self)@, command),
    {
        self.update_intx_disable(command & COMMAND_INTX_DISABLE != 0);
        self.update_mmio_enabled(command & COMMAND_MMIO_ENABLED != 0);
    }

    /// Disables or enables the legacy interrupt, if there is one.
    pub fn update_intx_disable(&mut self, disabled: bool)
        ensures
            final(self)@ == (CommonModel {
                intx_interrupt: intx_after(old(self).intx_interrupt, disabled),
                ..old(self)@
            }),
    {
        if let Some(i) = self.intx_interrupt {
            let mut next: IntxInterrupt = i;
            next.set_disabled(disabled);
            self.intx_interrupt = Some(next);
        }
    }

    /// Decodes BARs, or stops to.
    pub fn update_mmio_enabled(&mut self, enabled: bool)
        ensures
            final(self)@ == (CommonModel {
                active_bars: bars_after(old(self)@, enabled),
                ..old(self)@
            }),
    {
        if enabled {
            self.active_bars = BarMappings::parse(&self.state.base_addresses, &self.bar_masks);
        } else {
            self.active_bars = BarMappings::new();
        }
    }

    /// Returns where the memory behind a BAR is to be mapped.
    pub fn mapping(&self, bar: u8) -> (r: Option<u64>)
        ensures
            r == if bar < 6 && self.mapped_memory.at(bar as int) is Some && self.active_bars.bars.at(
                bar as int,
            ) is Some {
                Some(self.active_bars.bars.at(bar as int)->0.base_address)
            } else {
                None
            },
    {
        if bar < 6 && self.mapped_memory.get(bar as usize).is_some() {
            self.active_bars.get(bar)
        } else {
            None
        }
    }

    /// Reads a register of the common part. `offset` is a multiple of four.
    pub fn read_u32(&self, offset: u16, value: &mut u32) -> (r: CommonHeaderResult)
        requires
            N <= 6,
        ensures
            r == read_result(common_read(self@, offset)),
            *final(value) == read_value(common_read(self@, offset), *old(value)),
    {
        let ids: HardwareIds = self.hardware_ids;
        if offset == DEVICE_VENDOR {
            *value = ((ids.device_id as u32) << 16u32) | (ids.vendor_id as u32);
        } else if offset == STATUS_COMMAND {
            let list: u16 = if self.capabilities.len() > 0 {
                STATUS_CAPABILITIES_LIST
            } else {
                0
            };
            let interrupt: u16 = match self.intx_interrupt {
                Some(i) => {
                    if i.interrupt_status {
                        STATUS_INTERRUPT
                    } else {
                        0
                    }
                },
                None => 0,
            };
            let status: u16 = list | interrupt;
            *value = ((status as u32) << 16u32) | (self.state.command as u32);
        } else if offset == CLASS_REVISION {
            *value = ((ids.base_class as u32) << 24u32) | ((ids.sub_class as u32) << 16u32) | ((
            ids.prog_if as u32) << 8u32) | (ids.revision_id as u32);
        } else if offset == BIST_HEADER {
            *value = if self.multi_function_bit {
                0x0080_0000
            } else {
                0
            };
        } else if 0x40 <= offset && offset < 0x100 {
            return self.read_capabilities(offset, value);
        } else if 0x100 <= offset && offset < 0x1000 {
            return self.read_extended_capabilities(offset, value);
        } else if self.is_bar_offset(offset) {
            *value = self.state.base_addresses.get(((offset - BAR0) / 4) as usize);
        } else {
            return CommonHeaderResult::Unhandled;
        }
        CommonHeaderResult::Handled
    }

    /// Writes a register of the common part. `offset` is a multiple of four.
    pub fn write_u32(&mut self, offset: u16, val: u32) -> (r: CommonHeaderResult)
        requires
            N <= 6,
        ensures
            r == common_write_result(old(self)@, offset),
            final(self)@ == common_written(old(self)@, offset, val),
    {
        if offset == STATUS_COMMAND {
            let command: u16 = val as u16 & SUPPORTED_COMMAND_BITS;
            let was: u16 = self.state.command;
            if (was & COMMAND_INTX_DISABLE != 0) != (command & COMMAND_INTX_DISABLE != 0) {
                self.update_intx_disable(command & COMMAND_INTX_DISABLE != 0);
            }
            if (was & COMMAND_MMIO_ENABLED != 0) != (command & COMMAND_MMIO_ENABLED != 0) {
                self.update_mmio_enabled(command & COMMAND_MMIO_ENABLED != 0);
            }
            self.state.command = command;
            CommonHeaderResult::Handled
        } else if offset == BIST_HEADER {
            CommonHeaderResult::Handled
        } else if 0x40 <= offset && offset < 0x100 {
            self.write_capabilities(offset, val)
        } else if 0x100 <= offset && offset < 0x1000 {
            self.write_extended_capabilities(offset, val)
        } else if self.is_bar_offset(offset) {
            self.write_bar(((offset - BAR0) / 4) as usize, val);
            CommonHeaderResult::Handled
        } else {
            CommonHeaderResult::Unhandled
        }
    }

    fn write_bar(&mut self, i: usize, val: u32)
        requires
            i < 6,
        ensures
            final(self)@ == bar_written(old(self)@, i as int, val),
    {
        if self.state.command & COMMAND_MMIO_ENABLED != 0 {
            return;
        }
        let mask: u32 = self.bar_masks.get(i);
        let value: u32 = if i % 2 == 0 && mask != 0 {
            (val & mask) | BAR_ENCODING_64BIT
        } else {
            val & mask
        };
        self.state.base_addresses.set(i, value);
    }

    /// Reads a capability register.
    pub fn read_capabilities(&self, offset: u16, value: &mut u32) -> (r: CommonHeaderResult)
        ensures
            r == read_result(capabilities_read(self@, offset)),
            *final(value) == read_value(capabilities_read(self@, offset), *old(value)),
    {
        if 0x40 <= offset && offset < 0x100 {
            match read_cap(&self.capabilities, offset) {
                Some(v) => {
                    *value = v;
                    CommonHeaderResult::Handled
                },
                None => CommonHeaderResult::Failed(IoError::InvalidRegister),
            }
        } else {
            CommonHeaderResult::Failed(IoError::InvalidRegister)
        }
    }

    /// Writes a capability register.
    pub fn write_capabilities(&mut self, offset: u16, val: u32) -> (r: CommonHeaderResult)
        ensures
            r == capabilities_write_result(old(self)@, offset),
            0x40 <= offset < 0x100 ==> final(self)@ == (CommonModel {
                capabilities: caps_written(old(self).capabilities@, offset, val),
                ..old(self)@
            }),
            !(0x40 <= offset < 0x100) ==> final(self)@ == old(self)@,
    {
        if 0x40 <= offset && offset < 0x100 {
            match get_capability_index_and_offset(&self.capabilities, offset - 0x40) {
                Some((i, o)) => {
                    self.capabilities[i].write_u32(o, val);
                    CommonHeaderResult::Handled
                },
                None => CommonHeaderResult::Failed(IoError::InvalidRegister),
            }
        } else {
            CommonHeaderResult::Failed(IoError::InvalidRegister)
        }
    }

    /// Reads an extended capability register.
    pub fn read_extended_capabilities(&self, offset: u16, value: &mut u32) -> (r:
        CommonHeaderResult)
        ensures
            r == read_result(extended_read(self@, offset)),
            *final(value) == read_value(extended_read(self@, offset), *old(value)),
    {
        if 0x100 <= offset && offset < 0x1000 && self.is_pcie_device() {
            *value = read_ext(&self.extended_capabilities, offset);
            CommonHeaderResult::Handled
        } else {
            CommonHeaderResult::Failed(IoError::InvalidRegister)
        }
    }

    /// Writes an extended capability register. There is no effect where there is
    /// none.
    pub fn write_extended_capabilities(&mut self, offset: u16, val: u32) -> (r: CommonHeaderResult)
        ensures
            r == extended_write_result(old(self)@, offset),
            final(self)@ == if 0x100 <= offset < 0x1000 && is_pcie(old(self).capabilities@) {
                CommonModel {
                    extended_capabilities: exts_written(
                        old(self).extended_capabilities@,
                        offset,
                        val,
                    ),
                    ..old(self)@
                }
            } else {
                old(self)@
            },
    {
        if 0x100 <= offset && offset < 0x1000 && self.is_pcie_device() {
            if let Some((i, o)) = get_extended_capability_index_and_offset(
                &self.extended_capabilities,
                offset - 0x100,
            ) {
                self.extended_capabilities[i].write_u32(o, val);
            }
            CommonHeaderResult::Handled
        } else {
            CommonHeaderResult::Failed(IoError::InvalidRegister)
        }
    }

    /// Finds the BAR at an address, and the offset in it.
    pub fn find_bar(&self, address: u64) -> (r: Option<(u8, u64)>)
        ensures
            r == found_from(self.active_bars, address, 0),
    {
        self.active_bars.find(address)
    }

    /// Returns whether there is a PCI Express capability.
    pub fn is_pcie_device(&self) -> (r: bool)
        ensures
            r == is_pcie(self.capabilities@),
    {
        has_pcie(&self.capabilities)
    }

    fn is_bar_offset(&self, offset: u16) -> (r: bool)
        requires
            N <= 6,
        ensures
            r == is_bar(self@, offset),
    {
        BAR0 <= offset && offset < BAR0 + 4 * N as u16 && offset % 4 == 0
    }
}

/// Where nothing is enabled, memory is not decoded.
pub proof fn lemma_no_command()
    ensures
        !mmio_enabled(0),
{
    assert(0u16 & 0x0002u16 == 0) by (bit_vector);
}

/// Whether BARs are decoded exactly while MMIO is enabled, and where the
/// registers say.
pub open spec fn common_wf<C, E>(m: CommonModel<C, E>) -> bool {
    m.active_bars == bars_after(m, mmio_enabled(m.state.command))
}

/// Every write and a reset leave BARs decoded exactly while MMIO is enabled,
/// where the registers say.
pub proof fn law_bars_follow_registers<C: PciCapability, E: PciExtendedCapability>(
    m: CommonModel<C, E>,
    offset: u16,
    val: u32,
)
    requires
        common_wf(m),
    ensures
        common_wf(common_written(m, offset, val)),
        common_wf(common_reset(m)),
{
    lemma_no_command();
}

/// A command register never holds bits that are not supported.
pub proof fn law_command_bits<C: PciCapability, E: PciExtendedCapability>(
    m: CommonModel<C, E>,
    offset: u16,
    val: u32,
)
    requires
        m.state.command & !SUPPORTED_COMMAND_BITS == 0,
    ensures
        common_written(m, offset, val).state.command & !SUPPORTED_COMMAND_BITS == 0,
{
    let v = val as u16;
    assert((v & 0x077Fu16) & !0x077Fu16 == 0) by (bit_vector);
}

}
