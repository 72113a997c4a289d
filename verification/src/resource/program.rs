//! Programming of assigned addresses into config space.
use crate::cfg_space::common::mmio_enabled;
use crate::cfg_space::type1::memory_window;
use crate::cfg_space::type1::prefetch_window;
use crate::cfg_space::type1::type1_state_written;
use crate::cfg_space::type1::window_base;
use crate::cfg_space::type1::window_limit;
use crate::cfg_space::type1::ConfigSpaceType1EmulatorState;
use crate::regs::BAR0;
use crate::regs::COMMAND_MMIO_ENABLED;
use crate::regs::MEMORY_BASE_LIMIT_ADDRESS_MASK;
use crate::regs::SRIOV_VF_BAR0;
use crate::regs::TYPE1_MEMORY_RANGE;
use crate::regs::TYPE1_PREFETCH_BASE_UPPER;
use crate::regs::TYPE1_PREFETCH_LIMIT_UPPER;
use crate::regs::TYPE1_PREFETCH_RANGE;
use crate::regs::TYPE1_SEC_STATUS_IO_RANGE;
use crate::resource::demand::BRIDGE_WINDOW_ALIGN;
use crate::resource::device::DiscoveredBar;
use crate::resource::device::DiscoveredDevice;
use vstd::prelude::*;

verus! {

/// A write to a config space register.
#[derive(Debug, Clone, Copy, PartialEq, Eq, Structural)]
pub struct ConfigWrite {
    /// Bus number.
    pub bus: u8,
    /// Device and function number.
    pub devfn: u8,
    /// Register offset.
    pub offset: u16,
    /// Value.
    pub value: u32,
}

/// The config space byte that selects a device and function.
pub open spec fn devfn_of(device: u8, function: u8) -> u8 {
    (device << 3u8) | function
}

/// Returns the config space byte that selects a device and function.
pub fn devfn(device: u8, function: u8) -> (r: u8)
    ensures
        r == devfn_of(device, function),
{
    (device << 3u8) | function
}

/// The writes for one BAR whose first register is `base`.
pub open spec fn bar_writes(
    bus: u8,
    devfn: u8,
    base: u16,
    bar: DiscoveredBar,
) -> Seq<ConfigWrite> {
    let address = bar.address->0;
    let offset = (base + bar.index * 4) as u16;
    let low = seq![ConfigWrite { bus, devfn, offset, value: address as u32 }];
    if bar.is_64bit {
        low + seq![
            ConfigWrite {
                bus,
                devfn,
                offset: (offset + 4) as u16,
                value: (address >> 32u64) as u32,
            },
        ]
    } else {
        low
    }
}

/// The writes for a list of BARs.
pub open spec fn all_bar_writes(
    bus: u8,
    devfn: u8,
    base: u16,
    bars: Seq<DiscoveredBar>,
) -> Seq<ConfigWrite>
    decreases bars.len(),
{
    if bars.len() == 0 {
        Seq::empty()
    } else {
        all_bar_writes(bus, devfn, base, bars.drop_last()) + bar_writes(
            bus,
            devfn,
            base,
            bars.last(),
        )
    }
}

/// The memory window register: base above limit where there is no window.
pub open spec fn memory_range_value(window: Option<(u64, u64)>) -> u32 {
    match window {
        Some((base, limit)) => {
            let b = ((base >> 16u64) as u16 & MEMORY_BASE_LIMIT_ADDRESS_MASK) as u32;
            let l = ((limit >> 16u64) as u16 & MEMORY_BASE_LIMIT_ADDRESS_MASK) as u32;
            b | (l << 16u32)
        },
        None => 0x0000_fff0,
    }
}

/// The prefetchable window registers: range, upper base and upper limit. The
/// base is above the limit where there is no window.
pub open spec fn prefetch_values(window: Option<(u64, u64)>) -> (u32, u32, u32) {
    match window {
        Some((base, limit)) => {
            let b = ((base >> 16u64) as u16 & MEMORY_BASE_LIMIT_ADDRESS_MASK) as u32 | 0x1;
            let l = ((limit >> 16u64) as u16 & MEMORY_BASE_LIMIT_ADDRESS_MASK) as u32 | 0x1;
            (b | (l << 16u32), (base >> 32u64) as u32, (limit >> 32u64) as u32)
        },
        None => (0x0000_fff0, 0xFFFF_FFFF, 0),
    }
}

/// The windows of a bridge.
pub open spec fn windows(dev: DiscoveredDevice) -> (Option<(u64, u64)>, Option<(u64, u64)>) {
    match dev.subtree_req {
        Some(req) => (req.memory_window, req.prefetchable_window),
        None => (None, None),
    }
}

/// The writes for a bridge: the I/O window is disabled, then come the memory
/// window and the prefetchable window.
pub open spec fn bridge_writes(dev: DiscoveredDevice) -> Seq<ConfigWrite> {
    let bus = dev.bus;
    let devfn = devfn_of(dev.device, dev.function);
    let pf = prefetch_values(windows(dev).1);
    seq![
        ConfigWrite { bus, devfn, offset: TYPE1_SEC_STATUS_IO_RANGE, value: 0x0000_00F0 },
        ConfigWrite {
            bus,
            devfn,
            offset: TYPE1_MEMORY_RANGE,
            value: memory_range_value(windows(dev).0),
        },
        ConfigWrite { bus, devfn, offset: TYPE1_PREFETCH_LIMIT_UPPER, value: pf.2 },
        ConfigWrite { bus, devfn, offset: TYPE1_PREFETCH_RANGE, value: pf.0 },
        ConfigWrite { bus, devfn, offset: TYPE1_PREFETCH_BASE_UPPER, value: pf.1 },
    ]
}

/// The writes for one device, those behind it left aside.
pub open spec fn device_writes(dev: DiscoveredDevice) -> Seq<ConfigWrite> {
    let devfn = devfn_of(dev.device, dev.function);
    all_bar_writes(dev.bus, devfn, BAR0, dev.bars@) + match dev.sriov {
        Some(sriov) => all_bar_writes(
            dev.bus,
            devfn,
            (sriov.cap_offset + SRIOV_VF_BAR0) as u16,
            sriov.vf_bars@,
        ),
        None => Seq::empty(),
    } + if dev.is_bridge {
        bridge_writes(dev)
    } else {
        Seq::empty()
    }
}

/// The writes for a device tree: each device before those behind it.
pub open spec fn tree_writes(devices: Seq<DiscoveredDevice>) -> Seq<ConfigWrite>
    decreases devices,
{
    if devices.len() == 0 {
        Seq::empty()
    } else {
        tree_writes(devices.drop_last()) + device_writes(devices.last()) + tree_writes(
            devices.last().children@,
        )
    }
}

/// Whether the BARs have addresses and their registers lie in config space.
pub open spec fn bars_programmable(base: int, bars: Seq<DiscoveredBar>) -> bool {
    forall|j: int|
        #![trigger bars[j]]
        0 <= j < bars.len() ==> bars[j].address is Some && base + bars[j].index * 4 + 4 <= u16::MAX
}

/// Whether every BAR and VF BAR of a device tree can be programmed.
pub open spec fn programmable(devices: Seq<DiscoveredDevice>) -> bool
    decreases devices,
{
    forall|i: int|
        #![trigger devices[i]]
        0 <= i < devices.len() ==> {
            &&& bars_programmable(BAR0 as int, devices[i].bars@)
            &&& devices[i].sriov is Some ==> bars_programmable(
                devices[i].sriov->0.cap_offset + SRIOV_VF_BAR0,
                devices[i].sriov->0.vf_bars@,
            ) && devices[i].sriov->0.cap_offset + SRIOV_VF_BAR0 <= u16::MAX
            &&& programmable(devices[i].children@)
        }
}

fn push_bar_writes(
    bus: u8,
    devfn: u8,
    base: u16,
    bars: &Vec<DiscoveredBar>,
    out: &mut Vec<ConfigWrite>,
)
    requires
        bars_programmable(base as int, bars@),
    ensures
        final(out)@ == old(out)@ + all_bar_writes(bus, devfn, base, bars@),
{
    let ghost start = out@;
    let mut j: usize = 0;
    while j < bars.len()
        invariant
            j <= bars@.len(),
            start == old(out)@,
            bars_programmable(base as int, bars@),
            out@ == start + all_bar_writes(bus, devfn, base, bars@.take(j as int)),
        decreases bars@.len() - j,
    {
        let bar: DiscoveredBar = bars[j];
        assert(bars@.take(j + 1).drop_last() =~= bars@.take(j as int));
        assert(bars@.take(j + 1).last() == bar);
        if let Some(address) = bar.address {
            let offset: u16 = base + (bar.index as u16) * 4;
            out.push(ConfigWrite { bus, devfn, offset, value: address as u32 });
            if bar.is_64bit {
                out.push(
                    ConfigWrite {
                        bus,
                        devfn,
                        offset: offset + 4,
                        value: (address >> 32u64) as u32,
                    },
                );
            }
        }
        assert(out@ =~= start + all_bar_writes(bus, devfn, base, bars@.take(j + 1)));
        j = j + 1;
    }
    assert(bars@.take(j as int) =~= bars@);
}

fn push_bridge_writes(dev: &DiscoveredDevice, out: &mut Vec<ConfigWrite>)
    ensures
        final(out)@ == old(out)@ + bridge_writes(*dev),
{
    let bus: u8 = dev.bus;
    let df: u8 = devfn(dev.device, dev.function);
    let (memory_window, prefetchable_window) = match &dev.subtree_req {
        Some(req) => (req.memory_window, req.prefetchable_window),
        None => (None, None),
    };
    // I/O BARs are not assigned, so the I/O window is always disabled. The
    // upper half is the secondary status, whose bits are cleared by writing
    // ones: zeros leave it alone.
    out.push(
        ConfigWrite { bus, devfn: df, offset: TYPE1_SEC_STATUS_IO_RANGE, value: 0x0000_00F0 },
    );
    let memory: u32 = match memory_window {
        Some((base, limit)) => {
            let b: u32 = ((base >> 16u64) as u16 & MEMORY_BASE_LIMIT_ADDRESS_MASK) as u32;
            let l: u32 = ((limit >> 16u64) as u16 & MEMORY_BASE_LIMIT_ADDRESS_MASK) as u32;
            b | (l << 16u32)
        },
        None => 0x0000_fff0,
    };
    out.push(ConfigWrite { bus, devfn: df, offset: TYPE1_MEMORY_RANGE, value: memory });
    let pf: (u32, u32, u32) = match prefetchable_window {
        Some((base, limit)) => {
            let b: u32 = ((base >> 16u64) as u16 & MEMORY_BASE_LIMIT_ADDRESS_MASK) as u32 | 0x1;
            let l: u32 = ((limit >> 16u64) as u16 & MEMORY_BASE_LIMIT_ADDRESS_MASK) as u32 | 0x1;
            (b | (l << 16u32), (base >> 32u64) as u32, (limit >> 32u64) as u32)
        },
        None => (0x0000_fff0, 0xFFFF_FFFF, 0),
    };
    out.push(ConfigWrite { bus, devfn: df, offset: TYPE1_PREFETCH_LIMIT_UPPER, value: pf.2 });
    out.push(ConfigWrite { bus, devfn: df, offset: TYPE1_PREFETCH_RANGE, value: pf.0 });
    out.push(ConfigWrite { bus, devfn: df, offset: TYPE1_PREFETCH_BASE_UPPER, value: pf.1 });
    assert(out@ =~= old(out)@ + bridge_writes(*dev));
}

fn push_tree_writes(devices: &[DiscoveredDevice], out: &mut Vec<ConfigWrite>)
    requires
        programmable(devices@),
    ensures
        final(out)@ == old(out)@ + tree_writes(devices@),
    decreases devices@,
{
    let ghost start = out@;
    let mut i: usize = 0;
    while i < devices.len()
        invariant
            i <= devices@.len(),
            start == old(out)@,
            programmable(devices@),
            out@ == start + tree_writes(devices@.take(i as int)),
        decreases devices@.len() - i,
    {
        let dev: &DiscoveredDevice = &devices[i];
        let ghost reached = out@;
        let df: u8 = devfn(dev.device, dev.function);
        push_bar_writes(dev.bus, df, BAR0, &dev.bars, out);
        if let Some(sriov) = &dev.sriov {
            push_bar_writes(dev.bus, df, sriov.cap_offset + SRIOV_VF_BAR0, &sriov.vf_bars, out);
        }
        if dev.is_bridge {
            push_bridge_writes(dev, out);
        }
        assert(out@ =~= reached + device_writes(*dev));
        assert(decreases_to!(devices@ => devices@[i as int].children@));
        push_tree_writes(dev.children.as_slice(), out);
        assert(devices@.take(i + 1).drop_last() =~= devices@.take(i as int));
        assert(devices@.take(i + 1).last() == devices@[i as int]);
        assert(out@ =~= start + tree_writes(devices@.take(i + 1)));
        i = i + 1;
    }
    assert(devices@.take(i as int) =~= devices@);
}

/// Returns the writes that program all assignments into config space, in
/// order: BAR addresses, VF BAR addresses and bridge windows of every device
/// of the tree. The command registers are left alone.
pub fn program_assignments(devices: &[DiscoveredDevice]) -> (writes: Vec<ConfigWrite>)
    requires
        programmable(devices@),
    ensures
        writes@ == tree_writes(devices@),
{
    let mut out: Vec<ConfigWrite> = Vec::new();
    push_tree_writes(devices, &mut out);
    assert(out@ =~= tree_writes(devices@));
    out
}

/// The registers of an emulated bridge after writes to its config space.
pub open spec fn bridge_after(
    state: ConfigSpaceType1EmulatorState,
    writes: Seq<ConfigWrite>,
) -> ConfigSpaceType1EmulatorState
    decreases writes.len(),
{
    if writes.len() == 0 {
        state
    } else {
        type1_state_written(
            bridge_after(state, writes.drop_last()),
            writes.last().offset,
            writes.last().value,
        )
    }
}

/// Whether a window starts and ends at multiples of the bridge granularity.
pub open spec fn is_granular(window: Option<(u64, u64)>) -> bool {
    window matches Some((base, limit)) ==> {
        &&& base <= limit
        &&& base % BRIDGE_WINDOW_ALIGN == 0
        &&& (limit + 1) % (BRIDGE_WINDOW_ALIGN as int) == 0
    }
}

proof fn lemma_memory_range(base: u64, limit: u64)
    requires
        is_granular(Some((base, limit))),
        limit < 0x1_0000_0000,
    ensures
        ({
            let v = memory_range_value(Some((base, limit)));
            &&& window_base(v as u16) == base
            &&& window_limit((v >> 16u32) as u16) == limit
        }),
{
    assert(limit % 0x10_0000 == 0xF_FFFF);
    let b = ((base >> 16u64) as u16 & 0xFFF0u16) as u32;
    let l = ((limit >> 16u64) as u16 & 0xFFF0u16) as u32;
    let v = b | (l << 16u32);
    assert((((v as u16) & !0xFu16) as u32) << 16u32 == base && ((((v >> 16u32) as u16
        & !0xFu16) as u32) << 16u32) | 0xF_FFFF == limit) by (bit_vector)
        requires
            b == ((base >> 16u64) as u16 & 0xFFF0u16) as u32,
            l == ((limit >> 16u64) as u16 & 0xFFF0u16) as u32,
            v == b | (l << 16u32),
            base % 0x10_0000 == 0,
            base < 0x1_0000_0000,
            limit % 0x10_0000 == 0xF_FFFF,
            limit < 0x1_0000_0000,
    ;
}

proof fn lemma_prefetch_range(base: u64, limit: u64)
    requires
        is_granular(Some((base, limit))),
    ensures
        ({
            let v = prefetch_values(Some((base, limit)));
            let low = v.0;
            &&& ((v.1 as u64) << 32u64) | (window_base(low as u16) as u64) == base
            &&& ((v.2 as u64) << 32u64) | (window_limit((low >> 16u32) as u16) as u64) == limit
        }),
{
    assert(limit % 0x10_0000 == 0xF_FFFF);
    let b = ((base >> 16u64) as u16 & 0xFFF0u16) as u32 | 0x1;
    let l = ((limit >> 16u64) as u16 & 0xFFF0u16) as u32 | 0x1;
    let v = b | (l << 16u32);
    let u = (base >> 32u64) as u32;
    let w = (limit >> 32u64) as u32;
    assert(((u as u64) << 32u64) | ((((v as u16) & !0xFu16) as u32) << 16u32) as u64 == base && ((
    w as u64) << 32u64) | (((((v >> 16u32) as u16 & !0xFu16) as u32) << 16u32) | 0xF_FFFF) as u64
        == limit) by (bit_vector)
        requires
            b == ((base >> 16u64) as u16 & 0xFFF0u16) as u32 | 0x1,
            l == ((limit >> 16u64) as u16 & 0xFFF0u16) as u32 | 0x1,
            v == b | (l << 16u32),
            u == (base >> 32u64) as u32,
            w == (limit >> 32u64) as u32,
            base % 0x10_0000 == 0,
            limit % 0x10_0000 == 0xF_FFFF,
    ;
}

proof fn lemma_no_window()
    ensures
        window_base(0xfff0u32 as u16) > window_limit((0xfff0u32 >> 16u32) as u16),
        (0xFFFF_FFFFu64 << 32u64) | (window_base(0xfff0u32 as u16) as u64) > (0u64 << 32u64) | (
        window_limit((0xfff0u32 >> 16u32) as u16) as u64),
{
    assert({
        &&& (((0xfff0u32 as u16) & !0xFu16) as u32) << 16u32 > (((((0xfff0u32 >> 16u32) as u16)
            & !0xFu16) as u32) << 16u32) | 0xF_FFFF
        &&& (0xFFFF_FFFFu64 << 32u64) | (((((0xfff0u32 as u16) & !0xFu16) as u32) << 16u32)
            as u64) > (0u64 << 32u64) | (((((((0xfff0u32 >> 16u32) as u16) & !0xFu16) as u32)
            << 16u32) | 0xF_FFFF) as u64)
    }) by (bit_vector);
}

/// An emulated bridge decodes exactly the windows that it is programmed with, once
/// memory is decoded: none where it has none.
pub proof fn law_windows_programmed(dev: DiscoveredDevice, state: ConfigSpaceType1EmulatorState)
    requires
        is_granular(windows(dev).0),
        is_granular(windows(dev).1),
        windows(dev).0 matches Some((_, limit)) ==> limit < 0x1_0000_0000,
    ensures
        ({
            let after = bridge_after(state, bridge_writes(dev));
            &&& memory_window(after, COMMAND_MMIO_ENABLED) == match windows(dev).0 {
                Some((base, limit)) => Some((base as u32, limit as u32)),
                None => None,
            }
            &&& prefetch_window(after, COMMAND_MMIO_ENABLED) == windows(dev).1
        }),
{
    let writes = bridge_writes(dev);
    let s0 = writes.take(0);
    let s1 = writes.take(1);
    let s2 = writes.take(2);
    let s3 = writes.take(3);
    let s4 = writes.take(4);
    assert(s1.drop_last() =~= s0 && s2.drop_last() =~= s1 && s3.drop_last() =~= s2);
    assert(s4.drop_last() =~= s3 && writes.drop_last() =~= s4);
    assert(bridge_after(state, s0) == state);
    assert(bridge_after(state, s1) == state);
    let pf = prefetch_values(windows(dev).1);
    let m = memory_range_value(windows(dev).0);
    let low = pf.0;
    let after = bridge_after(state, writes);
    assert(after == ConfigSpaceType1EmulatorState {
        memory_base: m as u16,
        memory_limit: (m >> 16u32) as u16,
        prefetch_base: low as u16,
        prefetch_limit: (low >> 16u32) as u16,
        prefetch_base_upper: pf.1,
        prefetch_limit_upper: pf.2,
        ..state
    }) by {
        assert(bridge_after(state, s2) == type1_state_written(state, TYPE1_MEMORY_RANGE, m));
        assert(bridge_after(state, s3) == type1_state_written(
            bridge_after(state, s2),
            TYPE1_PREFETCH_LIMIT_UPPER,
            pf.2,
        ));
        assert(bridge_after(state, s4) == type1_state_written(
            bridge_after(state, s3),
            TYPE1_PREFETCH_RANGE,
            low,
        ));
    }
    assert(mmio_enabled(COMMAND_MMIO_ENABLED)) by {
        assert(2u16 & 2u16 != 0) by (bit_vector);
    }
    lemma_no_window();
    if let Some((base, limit)) = windows(dev).0 {
        lemma_memory_range(base, limit);
    }
    if let Some((base, limit)) = windows(dev).1 {
        lemma_prefetch_range(base, limit);
    }
}

}
