//! Probing of BAR sizes and of the SR-IOV capability.
use crate::bars::is_bar_size;
use crate::bars::BarMemory;
use crate::cfg_space::common::bar_written;
use crate::cfg_space::common::is_mask_pair;
use crate::cfg_space::common::mmio_enabled;
use crate::cfg_space::common::CommonModel;
use crate::regs::BAR0;
use crate::regs::BAR_ENCODING_64BIT;
use crate::regs::BAR_ENCODING_MASK;
use crate::regs::BAR_ENCODING_PIO;
use crate::regs::BAR_ENCODING_PREFETCHABLE;
use crate::regs::COMMAND_MMIO_ENABLED;
use crate::regs::SRIOV_INITIAL_TOTAL_VFS;
use crate::regs::SRIOV_VF_BAR0;
use crate::regs::SRIOV_VF_OFFSET_STRIDE;
use crate::regs::STATUS_COMMAND;
use crate::resource::device::DiscoveredBar;
use crate::resource::session::found;
use crate::resource::session::pending;
use crate::resource::session::ConfigSession;
use crate::resource::session::Run;
use crate::resource::session::Trace;
use vstd::arithmetic::power2::pow2;
use vstd::prelude::*;

verus! {

/// The address that a BAR held, if it is to be kept: a zero is no address.
pub open spec fn pinned_value(preserve: bool, address: u64) -> Option<u64> {
    if preserve && address != 0 {
        Some(address)
    } else {
        None
    }
}

/// The two halves of a 64-bit register.
pub open spec fn wide(upper: u32, lower: u32) -> u64 {
    ((upper as u64) << 32u64) | (lower as u64)
}

/// What the all-ones write to a 32-bit BAR tells, from what was read back and
/// what the BAR held before. A BAR is as large as the address bits leave room
/// for.
pub open spec fn narrow_bar(
    index: u8,
    readback: u32,
    before: u32,
    preserve: bool,
) -> Option<DiscoveredBar> {
    let mask = readback & !BAR_ENCODING_MASK;
    if mask == 0 {
        None
    } else {
        Some(
            DiscoveredBar {
                index,
                size: (0x1_0000_0000 - mask) as u64,
                is_64bit: readback & BAR_ENCODING_64BIT != 0,
                is_prefetchable: readback & BAR_ENCODING_PREFETCHABLE != 0,
                address: None,
                pinned_address: pinned_value(preserve, (before & !BAR_ENCODING_MASK) as u64),
            },
        )
    }
}

/// What the all-ones writes to the two registers of a 64-bit BAR tell.
pub open spec fn wide_bar(
    index: u8,
    readback: u32,
    upper_readback: u32,
    before: u32,
    upper_before: u32,
    preserve: bool,
) -> Option<DiscoveredBar> {
    let mask = wide(upper_readback, readback & !BAR_ENCODING_MASK);
    if mask == 0 {
        None
    } else {
        Some(
            DiscoveredBar {
                index,
                size: (0x1_0000_0000_0000_0000 - mask) as u64,
                is_64bit: readback & BAR_ENCODING_64BIT != 0,
                is_prefetchable: readback & BAR_ENCODING_PREFETCHABLE != 0,
                address: None,
                pinned_address: pinned_value(
                    preserve,
                    wide(upper_before, before & !BAR_ENCODING_MASK),
                ),
            },
        )
    }
}

/// What a probe of one BAR register comes to: the BAR, if it is a memory BAR
/// that is implemented, and the index of the register to go on with.
pub struct Probed {
    /// The BAR.
    pub bar: Option<DiscoveredBar>,
    /// The next register.
    pub next: u8,
}

/// A read that is made only to preserve what is there.
pub open spec fn preserving_read(
    t: Trace,
    bus: u8,
    devfn: u8,
    offset: u16,
    preserve: bool,
) -> Run<u32> {
    if preserve {
        t.read(bus, devfn, offset)
    } else {
        found(t, 0u32)
    }
}

/// The probe of the BAR register with the given index.
pub open spec fn probe_one(
    t: Trace,
    bus: u8,
    devfn: u8,
    base: u16,
    max_bars: u8,
    preserve: bool,
    i: u8,
) -> Run<Probed> {
    let offset = (base + i * 4) as u16;
    let before = preserving_read(t, bus, devfn, offset, preserve);
    match before.found {
        None => pending(before.trace),
        Some(low) => {
            let back = before.trace.write(bus, devfn, offset, 0xFFFF_FFFF).read(
                bus,
                devfn,
                offset,
            );
            match back.found {
                None => pending(back.trace),
                Some(readback) => if readback == 0 || readback & BAR_ENCODING_PIO != 0 {
                    found(back.trace, Probed { bar: None, next: (i + 1) as u8 })
                } else if readback & BAR_ENCODING_64BIT != 0 && i + 1 < max_bars {
                    let up = (base + (i + 1) * 4) as u16;
                    let before_up = preserving_read(back.trace, bus, devfn, up, preserve);
                    match before_up.found {
                        None => pending(before_up.trace),
                        Some(high) => {
                            let back_up = before_up.trace.write(
                                bus,
                                devfn,
                                up,
                                0xFFFF_FFFF,
                            ).read(bus, devfn, up);
                            match back_up.found {
                                None => pending(back_up.trace),
                                Some(upper) => found(
                                    back_up.trace,
                                    Probed {
                                        bar: wide_bar(i, readback, upper, low, high, preserve),
                                        next: (i + 2) as u8,
                                    },
                                ),
                            }
                        },
                    }
                } else {
                    let bar = narrow_bar(i, readback, low, preserve);
                    found(
                        back.trace,
                        Probed {
                            bar,
                            next: if bar is Some && readback & BAR_ENCODING_64BIT != 0 {
                                (i + 2) as u8
                            } else {
                                (i + 1) as u8
                            },
                        },
                    )
                },
            }
        },
    }
}

/// The probes of the BAR registers from index `i` on.
pub open spec fn probe_walk(
    t: Trace,
    bus: u8,
    devfn: u8,
    base: u16,
    max_bars: u8,
    preserve: bool,
    i: u8,
    bars: Seq<DiscoveredBar>,
) -> Run<Seq<DiscoveredBar>>
    decreases 256 - i,
{
    if i >= max_bars || max_bars == 255 {
        found(t, bars)
    } else {
        let p = probe_one(t, bus, devfn, base, max_bars, preserve, i);
        match p.found {
            None => pending(p.trace),
            Some(probed) => probe_walk(
                p.trace,
                bus,
                devfn,
                base,
                max_bars,
                preserve,
                probed.next,
                match probed.bar {
                    Some(bar) => bars.push(bar),
                    None => bars,
                },
            ),
        }
    }
}

/// The probe of a function's BARs, with MMIO decode disabled first. A bridge
/// has two BARs, any other function six.
pub open spec fn bars_probe(
    t: Trace,
    bus: u8,
    devfn: u8,
    is_bridge: bool,
    preserve: bool,
) -> Run<Seq<DiscoveredBar>> {
    let c = t.read(bus, devfn, STATUS_COMMAND);
    match c.found {
        None => pending(c.trace),
        Some(cmd) => {
            let off = if (cmd as u16) & COMMAND_MMIO_ENABLED != 0 {
                c.trace.write(
                    bus,
                    devfn,
                    STATUS_COMMAND,
                    ((cmd as u16) & !COMMAND_MMIO_ENABLED) as u32,
                )
            } else {
                c.trace
            };
            probe_walk(
                off,
                bus,
                devfn,
                BAR0,
                if is_bridge {
                    2
                } else {
                    6
                },
                preserve,
                0,
                Seq::empty(),
            )
        },
    }
}

/// The bus number of the last VF, if its routing identifier has 16 bits.
pub open spec fn last_vf_bus(
    bus: u8,
    devfn: u8,
    total_vfs: u16,
    offset: u16,
    stride: u16,
) -> Option<u16> {
    let rid = (total_vfs - 1) * stride + offset + bus * 256 + devfn;
    if rid <= u16::MAX {
        Some((rid / 256) as u16)
    } else {
        None
    }
}

/// What the probe of an SR-IOV capability comes to.
pub struct SriovFound {
    /// Config space offset of the capability.
    pub cap_offset: u16,
    /// Highest bus number that a VF could have.
    pub max_vf_bus: u16,
    /// Total number of VFs.
    pub total_vfs: u16,
    /// VF BARs.
    pub vf_bars: Seq<DiscoveredBar>,
}

/// The probe of an SR-IOV capability. A PF without VFs has none.
pub open spec fn sriov_probe(
    t: Trace,
    bus: u8,
    devfn: u8,
    sriov_offset: Option<u16>,
    preserve: bool,
) -> Run<Option<SriovFound>> {
    match sriov_offset {
        None => found(t, None),
        Some(offset) => {
            let n = t.read(bus, devfn, (offset + SRIOV_INITIAL_TOTAL_VFS) as u16);
            match n.found {
                None => pending(n.trace),
                Some(vfs) => if (vfs >> 16u32) as u16 == 0 {
                    found(n.trace, None)
                } else {
                    let os = n.trace.read(bus, devfn, (offset + SRIOV_VF_OFFSET_STRIDE) as u16);
                    match os.found {
                        None => pending(os.trace),
                        Some(v) => {
                            let total_vfs = (vfs >> 16u32) as u16;
                            let last = last_vf_bus(
                                bus,
                                devfn,
                                total_vfs,
                                v as u16,
                                (v >> 16u32) as u16,
                            );
                            if (v >> 16u32) as u16 == 0 || last is None {
                                found(os.trace, None)
                            } else {
                                let b = probe_walk(
                                    os.trace,
                                    bus,
                                    devfn,
                                    (offset + SRIOV_VF_BAR0) as u16,
                                    6,
                                    preserve,
                                    0,
                                    Seq::empty(),
                                );
                                match b.found {
                                    None => pending(b.trace),
                                    Some(vf_bars) => found(
                                        b.trace,
                                        Some(
                                            SriovFound {
                                                cap_offset: offset,
                                                max_vf_bus: last->0,
                                                total_vfs,
                                                vf_bars,
                                            },
                                        ),
                                    ),
                                }
                            }
                        },
                    }
                },
            }
        },
    }
}

/// Decodes what the probe of a 32-bit BAR read back.
pub fn decode_narrow_bar(index: u8, readback: u32, before: u32, preserve: bool) -> (r: Option<
    DiscoveredBar,
>)
    ensures
        r == narrow_bar(index, readback, before, preserve),
{
    let mask: u32 = readback & !BAR_ENCODING_MASK;
    if mask == 0 {
        return None;
    }
    let address: u64 = (before & !BAR_ENCODING_MASK) as u64;
    Some(
        DiscoveredBar {
            index,
            size: 0x1_0000_0000 - mask as u64,
            is_64bit: readback & BAR_ENCODING_64BIT != 0,
            is_prefetchable: readback & BAR_ENCODING_PREFETCHABLE != 0,
            address: None,
            pinned_address: if preserve && address != 0 {
                Some(address)
            } else {
                None
            },
        },
    )
}

/// Decodes what the probe of a 64-bit BAR read back.
pub fn decode_wide_bar(
    index: u8,
    readback: u32,
    upper_readback: u32,
    before: u32,
    upper_before: u32,
    preserve: bool,
) -> (r: Option<DiscoveredBar>)
    ensures
        r == wide_bar(index, readback, upper_readback, before, upper_before, preserve),
{
    let mask: u64 = ((upper_readback as u64) << 32u64) | ((readback & !BAR_ENCODING_MASK) as u64);
    if mask == 0 {
        return None;
    }
    let address: u64 = ((upper_before as u64) << 32u64) | ((before & !BAR_ENCODING_MASK) as u64);
    Some(
        DiscoveredBar {
            index,
            size: u64::MAX - mask + 1,
            is_64bit: readback & BAR_ENCODING_64BIT != 0,
            is_prefetchable: readback & BAR_ENCODING_PREFETCHABLE != 0,
            address: None,
            pinned_address: if preserve && address != 0 {
                Some(address)
            } else {
                None
            },
        },
    )
}

fn read_if(s: &mut ConfigSession, bus: u8, devfn: u8, offset: u16, preserve: bool) -> (r: Option<
    u32,
>)
    requires
        old(s).wf(),
    ensures
        final(s).wf(),
        (Run { trace: final(s)@, found: r }) == preserving_read(
            old(s)@,
            bus,
            devfn,
            offset,
            preserve,
        ),
{
    if preserve {
        s.read_u32(bus, devfn, offset)
    } else {
        Some(0)
    }
}

fn probe_register(
    s: &mut ConfigSession,
    bus: u8,
    devfn: u8,
    base: u16,
    max_bars: u8,
    preserve: bool,
    i: u8,
) -> (r: Option<(Option<DiscoveredBar>, u8)>)
    requires
        old(s).wf(),
        i < max_bars < 255,
        base + 4 * (max_bars - 1) <= 0xFFFF,
    ensures
        final(s).wf(),
        match r {
            Some((bar, next)) => found(final(s)@, Probed { bar, next }) == probe_one(
                old(s)@,
                bus,
                devfn,
                base,
                max_bars,
                preserve,
                i,
            ) && i < next <= i + 2,
            None => pending::<Probed>(final(s)@) == probe_one(
                old(s)@,
                bus,
                devfn,
                base,
                max_bars,
                preserve,
                i,
            ),
        },
{
    let offset: u16 = base + (i as u16) * 4;
    let low: u32 = match read_if(s, bus, devfn, offset, preserve) {
        None => return None,
        Some(v) => v,
    };
    s.write_u32(bus, devfn, offset, 0xFFFF_FFFF);
    let readback: u32 = match s.read_u32(bus, devfn, offset) {
        None => return None,
        Some(v) => v,
    };
    if readback == 0 || readback & BAR_ENCODING_PIO != 0 {
        // Not implemented, or an I/O BAR.
        return Some((None, i + 1));
    }
    if readback & BAR_ENCODING_64BIT != 0 && i + 1 < max_bars {
        let up: u16 = base + ((i + 1) as u16) * 4;
        let high: u32 = match read_if(s, bus, devfn, up, preserve) {
            None => return None,
            Some(v) => v,
        };
        s.write_u32(bus, devfn, up, 0xFFFF_FFFF);
        let upper: u32 = match s.read_u32(bus, devfn, up) {
            None => return None,
            Some(v) => v,
        };
        return Some((decode_wide_bar(i, readback, upper, low, high, preserve), i + 2));
    }
    let bar: Option<DiscoveredBar> = decode_narrow_bar(i, readback, low, preserve);
    let next: u8 = if bar.is_some() && readback & BAR_ENCODING_64BIT != 0 {
        i + 2
    } else {
        i + 1
    };
    Some((bar, next))
}

/// Probes a range of BAR registers that starts at `base`, by writing all ones
/// to each and reading it back.
pub fn probe_bar_range(
    s: &mut ConfigSession,
    bus: u8,
    devfn: u8,
    base: u16,
    max_bars: u8,
    preserve: bool,
) -> (r: Option<Vec<DiscoveredBar>>)
    requires
        old(s).wf(),
        max_bars < 255,
        base + 4 * (max_bars - 1) <= 0xFFFF,
    ensures
        final(s).wf(),
        match r {
            Some(bars) => found(final(s)@, bars@) == probe_walk(
                old(s)@,
                bus,
                devfn,
                base,
                max_bars,
                preserve,
                0,
                Seq::empty(),
            ),
            None => pending::<Seq<DiscoveredBar>>(final(s)@) == probe_walk(
                old(s)@,
                bus,
                devfn,
                base,
                max_bars,
                preserve,
                0,
                Seq::empty(),
            ),
        },
{
    let mut bars: Vec<DiscoveredBar> = Vec::new();
    let mut i: u8 = 0;
    let ghost whole = probe_walk(s@, bus, devfn, base, max_bars, preserve, 0, Seq::empty());
    while i < max_bars
        invariant
            s.wf(),
            i <= max_bars + 1,
            max_bars < 255,
            base + 4 * (max_bars - 1) <= 0xFFFF,
            whole == probe_walk(
                old(s)@,
                bus,
                devfn,
                base,
                max_bars,
                preserve,
                0,
                Seq::empty(),
            ),
            whole == probe_walk(s@, bus, devfn, base, max_bars, preserve, i, bars@),
        decreases max_bars + 2 - i,
    {
        match probe_register(s, bus, devfn, base, max_bars, preserve, i) {
            None => return None,
            Some((bar, next)) => {
                if let Some(b) = bar {
                    bars.push(b);
                }
                i = next;
            },
        }
    }
    Some(bars)
}

/// Probes the BARs of a function. MMIO decode is disabled first and stays
/// disabled.
pub fn probe_bars(
    s: &mut ConfigSession,
    bus: u8,
    devfn: u8,
    is_bridge: bool,
    preserve: bool,
) -> (r: Option<Vec<DiscoveredBar>>)
    requires
        old(s).wf(),
    ensures
        final(s).wf(),
        match r {
            Some(bars) => found(final(s)@, bars@) == bars_probe(
                old(s)@,
                bus,
                devfn,
                is_bridge,
                preserve,
            ),
            None => pending::<Seq<DiscoveredBar>>(final(s)@) == bars_probe(
                old(s)@,
                bus,
                devfn,
                is_bridge,
                preserve,
            ),
        },
{
    let max_bars: u8 = if is_bridge {
        2
    } else {
        6
    };
    let command: u16 = match s.read_u32(bus, devfn, STATUS_COMMAND) {
        None => return None,
        Some(v) => v as u16,
    };
    if command & COMMAND_MMIO_ENABLED != 0 {
        // Status bits are cleared by writing ones, so they are written as zero.
        s.write_u32(bus, devfn, STATUS_COMMAND, (command & !COMMAND_MMIO_ENABLED) as u32);
    }
    probe_bar_range(s, bus, devfn, BAR0, max_bars, preserve)
}

/// Probes the VF BARs of an SR-IOV capability.
pub fn probe_vf_bars(
    s: &mut ConfigSession,
    bus: u8,
    devfn: u8,
    sriov_offset: u16,
    preserve: bool,
) -> (r: Option<Vec<DiscoveredBar>>)
    requires
        old(s).wf(),
        sriov_offset + SRIOV_VF_BAR0 + 20 <= 0xFFFF,
    ensures
        final(s).wf(),
        match r {
            Some(bars) => found(final(s)@, bars@) == probe_walk(
                old(s)@,
                bus,
                devfn,
                (sriov_offset + SRIOV_VF_BAR0) as u16,
                6,
                preserve,
                0,
                Seq::empty(),
            ),
            None => pending::<Seq<DiscoveredBar>>(final(s)@) == probe_walk(
                old(s)@,
                bus,
                devfn,
                (sriov_offset + SRIOV_VF_BAR0) as u16,
                6,
                preserve,
                0,
                Seq::empty(),
            ),
        },
{
    probe_bar_range(s, bus, devfn, sriov_offset + SRIOV_VF_BAR0, 6, preserve)
}

/// Returns the bus number of the last VF, if its routing identifier has 16
/// bits.
pub fn max_vf_bus(bus: u8, devfn: u8, total_vfs: u16, offset: u16, stride: u16) -> (r: Option<u16>)
    requires
        total_vfs > 0,
    ensures
        r == last_vf_bus(bus, devfn, total_vfs, offset, stride),
{
    assert((total_vfs - 1) * stride <= 0xFFFE * 0xFFFF && (total_vfs - 1) * stride >= 0)
        by (nonlinear_arith)
        requires
            0 < total_vfs <= 0xFFFF,
            0 <= stride <= 0xFFFF,
    ;
    let product: u64 = (total_vfs as u64 - 1) * (stride as u64);
    let rid: u64 = product + offset as u64 + (bus as u64) * 256 + devfn as u64;
    if rid <= 0xFFFF {
        Some((rid / 256) as u16)
    } else {
        None
    }
}

/// What the probe of an SR-IOV capability comes to.
#[derive(Debug)]
pub struct SriovProbeResult {
    /// Config space offset of the capability.
    pub cap_offset: u16,
    /// Highest bus number that a VF could have.
    pub max_vf_bus: u16,
    /// Total number of VFs.
    pub total_vfs: u16,
    /// VF BARs.
    pub vf_bars: Vec<DiscoveredBar>,
}

impl SriovProbeResult {
    /// The result as the model has it.
    pub open spec fn view(&self) -> SriovFound {
        SriovFound {
            cap_offset: self.cap_offset,
            max_vf_bus: self.max_vf_bus,
            total_vfs: self.total_vfs,
            vf_bars: self.vf_bars@,
        }
    }
}

/// Probes an SR-IOV capability for the buses and BARs of its VFs. Returns
/// `Some(None)` if the PF has no VFs.
pub fn probe_sriov(
    s: &mut ConfigSession,
    bus: u8,
    devfn: u8,
    sriov_offset: Option<u16>,
    preserve: bool,
) -> (r: Option<Option<SriovProbeResult>>)
    requires
        old(s).wf(),
        sriov_offset matches Some(o) ==> o + SRIOV_VF_BAR0 + 20 <= 0xFFFF,
    ensures
        final(s).wf(),
        match r {
            Some(Some(p)) => found(final(s)@, Some(p@)) == sriov_probe(
                old(s)@,
                bus,
                devfn,
                sriov_offset,
                preserve,
            ),
            Some(None) => found(final(s)@, None::<SriovFound>) == sriov_probe(
                old(s)@,
                bus,
                devfn,
                sriov_offset,
                preserve,
            ),
            None => pending::<Option<SriovFound>>(final(s)@) == sriov_probe(
                old(s)@,
                bus,
                devfn,
                sriov_offset,
                preserve,
            ),
        },
{
    let offset: u16 = match sriov_offset {
        None => return Some(None),
        Some(o) => o,
    };
    let vfs: u32 = match s.read_u32(bus, devfn, offset + SRIOV_INITIAL_TOTAL_VFS) {
        None => return None,
        Some(v) => v,
    };
    let total_vfs: u16 = (vfs >> 16u32) as u16;
    if total_vfs == 0 {
        return Some(None);
    }
    let offset_stride: u32 = match s.read_u32(bus, devfn, offset + SRIOV_VF_OFFSET_STRIDE) {
        None => return None,
        Some(v) => v,
    };
    let vf_offset: u16 = offset_stride as u16;
    let vf_stride: u16 = (offset_stride >> 16u32) as u16;
    if vf_stride == 0 {
        return Some(None);
    }
    let last: u16 = match max_vf_bus(bus, devfn, total_vfs, vf_offset, vf_stride) {
        None => return Some(None),
        Some(b) => b,
    };
    match probe_vf_bars(s, bus, devfn, offset, preserve) {
        None => None,
        Some(vf_bars) => Some(
            Some(SriovProbeResult { cap_offset: offset, max_vf_bus: last, total_vfs, vf_bars }),
        ),
    }
}

/// The probe of an emulated 64-bit BAR whose memory is not decoded finds a memory
/// BAR of its size, whatever the registers held.
pub proof fn law_emulated_bar_probed<C, E>(
    m: CommonModel<C, E>,
    slot: int,
    bar: BarMemory,
    before: u32,
    upper_before: u32,
    preserve: bool,
)
    requires
        slot == 0 || slot == 2 || slot == 4,
        !mmio_enabled(m.state.command),
        is_mask_pair(Some(bar), m.bar_masks.at(slot), m.bar_masks.at(slot + 1)),
    ensures
        ({
            let first = bar_written(m, slot, 0xFFFF_FFFF);
            let second = bar_written(first, slot + 1, 0xFFFF_FFFF);
            let low = first.state.base_addresses.at(slot);
            let high = second.state.base_addresses.at(slot + 1);
            &&& low != 0 && low & BAR_ENCODING_PIO == 0 && low & BAR_ENCODING_64BIT != 0
            &&& wide_bar(slot as u8, low, high, before, upper_before, preserve) matches Some(b)
                && is_bar_size(b.size as int, bar.len as int) && b.is_64bit && b.index == slot
        }),
{
    let low = m.bar_masks.at(slot);
    let high = m.bar_masks.at(slot + 1);
    let size = choose|size: u64|
        #![trigger is_bar_size(size as int, bar.len as int)]
        {
            &&& is_bar_size(size as int, bar.len as int)
            &&& low == (!((size - 1) as u64) as u32 | BAR_ENCODING_64BIT)
            &&& high == ((!((size - 1) as u64)) >> 32u64) as u32
        };
    let n = choose|n: nat| #[trigger] pow2(n) == size;
    if n >= 64 {
        vstd::arithmetic::power2::lemma2_to64();
        if n > 64 {
            vstd::arithmetic::power2::lemma_pow2_strictly_increases(64, n);
        }
        assert(false);
    }
    let s = n as u64;
    assert(1 * pow2(n) == pow2(n));
    vstd::bits::lemma_u64_pow2_no_overflow(n);
    vstd::bits::lemma_u64_shl_is_mul(1u64, s);
    let rest = (size - 1) as u64;
    assert({
        &&& low != 0
        &&& (0xFFFF_FFFFu32 & low) | 0x4 == low
        &&& 0xFFFF_FFFFu32 & high == high
        &&& low & 0x1 == 0
        &&& low & 0x4 != 0
        &&& ((high as u64) << 32u64) | ((low & !0xFu32) as u64) == !rest
        &&& (!rest) as int == 0x1_0000_0000_0000_0000 - size
        &&& !rest != 0
    }) by (bit_vector)
        requires
            s < 64,
            size == 1u64 << s,
            size >= 0x1000,
            rest == size - 1,
            low == (!rest as u32 | 0x4),
            high == ((!rest) >> 32u64) as u32,
    ;
}

}
