//! Replaying a conversation: a further response changes nothing of what was
//! done without it.
use crate::regs::ARI_CAPABILITY_CONTROL;
use crate::regs::ARI_NEXT_FUNCTION_SHIFT;
use crate::regs::BAR0;
use crate::regs::BIST_HEADER;
use crate::regs::CAP_PTR;
use crate::regs::COMMAND_MMIO_ENABLED;
use crate::regs::DEVICE_VENDOR;
use crate::regs::EXT_CAP_ID_ARI;
use crate::regs::EXT_CAP_ID_SIOV;
use crate::regs::EXT_CAP_ID_SRIOV;
use crate::regs::EXT_CAP_START;
use crate::regs::PCIE_DEVICE_CAPS_2;
use crate::regs::PCIE_DEVICE_CTL_STS_2;
use crate::regs::SRIOV_CONTROL_STATUS;
use crate::regs::SRIOV_INITIAL_TOTAL_VFS;
use crate::regs::SRIOV_VF_BAR0;
use crate::regs::SRIOV_VF_OFFSET_STRIDE;
use crate::regs::STATUS_COMMAND;
use crate::regs::TYPE1_LATENCY_BUS_NUMBERS;
use crate::resource::device::DiscoveredBar;
use crate::resource::enumerate::detect;
use crate::resource::enumerate::finish_functions;
use crate::resource::enumerate::function_info;
use crate::resource::enumerate::function_numbers;
use crate::resource::enumerate::functions_walk;
use crate::resource::enumerate::has_virtual_functions;
use crate::resource::enumerate::infos_walk;
use crate::resource::enumerate::is_multi_function;
use crate::resource::enumerate::lowest_pf;
use crate::resource::enumerate::port_forwarding;
use crate::resource::enumerate::DeviceFunctions;
use crate::resource::enumerate::FuncInfo;
use crate::resource::params::AssignmentParams;
use crate::resource::probe::bars_probe;
use crate::resource::probe::preserving_read;
use crate::resource::probe::probe_one;
use crate::resource::probe::probe_walk;
use crate::resource::probe::sriov_probe;
use crate::resource::program::devfn_of;
use crate::resource::scan::bus_register;
use crate::resource::scan::bus_scan;
use crate::resource::scan::enumeration;
use crate::resource::scan::functions_scan;
use crate::resource::scan::reserve_vf_buses;
use crate::resource::scan::subordinate_of;
use crate::resource::scan::FoundDevice;
use crate::resource::scan::Place;
use crate::resource::session::found;
use crate::resource::session::pending;
use crate::resource::session::ConfigAccess;
use crate::resource::session::Run;
use crate::resource::session::Trace;
use crate::resource::walk::ari_forwarding;
use crate::resource::walk::ari_hierarchy;
use crate::resource::walk::ari_walk;
use crate::resource::walk::byte_read;
use crate::resource::walk::ext_cap;
use crate::resource::walk::ext_cap_walk;
use crate::resource::walk::next_ext_cap;
use crate::resource::walk::pcie_cap;
use crate::resource::walk::pcie_cap_walk;
use vstd::prelude::*;

verus! {

/// Whether one list of accesses starts with another.
pub open spec fn starts_with(log: Seq<ConfigAccess>, start: Seq<ConfigAccess>) -> bool {
    &&& start.len() <= log.len()
    &&& forall|i: int| 0 <= i < start.len() ==> #[trigger] log[i] == start[i]
}

/// Whether a trace comes from another by further accesses.
pub open spec fn grows(a: Trace, b: Trace) -> bool {
    &&& b.responses == a.responses
    &&& a.pos <= b.pos <= b.responses.len()
    &&& starts_with(b.log, a.log)
}

/// The trace with one more response.
pub open spec fn more(t: Trace, x: u32) -> Trace {
    Trace { responses: t.responses.push(x), ..t }
}

/// Whether a run with one more response does what the run without it did: the
/// same and no more if that was not pending, else the same and more.
pub open spec fn stable<T>(a: Run<T>, b: Run<T>, x: u32) -> bool {
    match a.found {
        Some(v) => b == (Run { trace: more(a.trace, x), found: Some(v) }),
        None => starts_with(b.trace.log, a.trace.log),
    }
}

proof fn lemma_read(
    t: Trace,
    bus: u8,
    devfn: u8,
    offset: u16,
    x: u32,
)
    requires
        0 <= t.pos <= t.responses.len(),
    ensures
        grows(t, t.read(bus, devfn, offset).trace),
        stable(t.read(bus, devfn, offset), more(t, x).read(bus, devfn, offset), x),
{
}

proof fn lemma_byte_read(
    t: Trace,
    bus: u8,
    devfn: u8,
    offset: u16,
    x: u32,
)
    requires
        0 <= t.pos <= t.responses.len(),
    ensures
        grows(t, byte_read(t, bus, devfn, offset).trace),
        stable(byte_read(t, bus, devfn, offset), byte_read(more(t, x), bus, devfn, offset), x),
{
    lemma_read(t, bus, devfn, offset & !0x3u16, x);
}

proof fn lemma_pcie_cap_walk(
    t: Trace,
    bus: u8,
    devfn: u8,
    ptr: u16,
    steps: nat,
    x: u32,
)
    requires
        0 <= t.pos <= t.responses.len(),
    ensures
        grows(t, pcie_cap_walk(t, bus, devfn, ptr, steps).trace),
        stable(
            pcie_cap_walk(t, bus, devfn, ptr, steps),
            pcie_cap_walk(more(t, x), bus, devfn, ptr, steps),
            x,
        ),
    decreases steps,
{
    if !(steps == 0 || ptr < 0x40 || ptr == 0xFF) {
        lemma_byte_read(t, bus, devfn, ptr, x);
        let a = byte_read(t, bus, devfn, ptr);
        let b = byte_read(more(t, x), bus, devfn, ptr);
        let u = if a.found is Some {
            a.trace
        } else {
            b.trace
        };
        lemma_byte_read(u, bus, devfn, (ptr + 1) as u16, x);
        let c = byte_read(u, bus, devfn, (ptr + 1) as u16);
        let d = byte_read(more(u, x), bus, devfn, (ptr + 1) as u16);
        if let Some(p) = c.found {
            lemma_pcie_cap_walk(c.trace, bus, devfn, p as u16, (steps - 1) as nat, x);
        }
        if let Some(p) = d.found {
            lemma_pcie_cap_walk(d.trace, bus, devfn, p as u16, (steps - 1) as nat, x);
        }
    }
}

proof fn lemma_pcie_cap(
    t: Trace,
    bus: u8,
    devfn: u8,
    x: u32,
)
    requires
        0 <= t.pos <= t.responses.len(),
    ensures
        grows(t, pcie_cap(t, bus, devfn).trace),
        stable(pcie_cap(t, bus, devfn), pcie_cap(more(t, x), bus, devfn), x),
{
    lemma_read(t, bus, devfn, STATUS_COMMAND, x);
    let a = t.read(bus, devfn, STATUS_COMMAND);
    let b = more(t, x).read(bus, devfn, STATUS_COMMAND);
    let u = if a.found is Some {
        a.trace
    } else {
        b.trace
    };
    lemma_byte_read(u, bus, devfn, CAP_PTR, x);
    let c = byte_read(u, bus, devfn, CAP_PTR);
    let d = byte_read(more(u, x), bus, devfn, CAP_PTR);
    if let Some(p) = c.found {
        lemma_pcie_cap_walk(c.trace, bus, devfn, p as u16, 48, x);
    }
    if let Some(p) = d.found {
        lemma_pcie_cap_walk(d.trace, bus, devfn, p as u16, 48, x);
    }
}

proof fn lemma_ext_cap_walk(
    t: Trace,
    bus: u8,
    devfn: u8,
    cap_id: u16,
    offset: u16,
    x: u32,
)
    requires
        0 <= t.pos <= t.responses.len(),
    ensures
        grows(t, ext_cap_walk(t, bus, devfn, cap_id, offset).trace),
        stable(
            ext_cap_walk(t, bus, devfn, cap_id, offset),
            ext_cap_walk(more(t, x), bus, devfn, cap_id, offset),
            x,
        ),
    decreases 0x1_0000 - offset,
{
    if !(offset < EXT_CAP_START || offset & 0x3u16 != 0) {
        lemma_read(t, bus, devfn, offset, x);
        let a = t.read(bus, devfn, offset);
        let b = more(t, x).read(bus, devfn, offset);
        if let Some(h) = a.found {
            if next_ext_cap(h) > offset {
                lemma_ext_cap_walk(a.trace, bus, devfn, cap_id, next_ext_cap(h), x);
            }
        } else if let Some(h) = b.found {
            if next_ext_cap(h) > offset {
                lemma_ext_cap_walk(b.trace, bus, devfn, cap_id, next_ext_cap(h), x);
            }
        }
    }
}

proof fn lemma_ari_forwarding(
    t: Trace,
    bus: u8,
    devfn: u8,
    x: u32,
)
    requires
        0 <= t.pos <= t.responses.len(),
    ensures
        grows(t, ari_forwarding(t, bus, devfn).trace),
        stable(ari_forwarding(t, bus, devfn), ari_forwarding(more(t, x), bus, devfn), x),
{
    lemma_pcie_cap(t, bus, devfn, x);
    let a = pcie_cap(t, bus, devfn);
    let b = pcie_cap(more(t, x), bus, devfn);
    let (u, o) = if a.found is Some {
        (a.trace, a.found->0)
    } else {
        (b.trace, b.found->0)
    };
    if a.found is None {
        lemma_pcie_cap(more(t, x), bus, devfn, x);
    }
    if let Some(pcie) = o {
        let o1 = (pcie + PCIE_DEVICE_CAPS_2) as u16;
        let o2 = (pcie + PCIE_DEVICE_CTL_STS_2) as u16;
        lemma_read(u, bus, devfn, o1, x);
        let c = u.read(bus, devfn, o1);
        let d = more(u, x).read(bus, devfn, o1);
        let v = if c.found is Some {
            c.trace
        } else {
            d.trace
        };
        lemma_read(v, bus, devfn, o2, x);
    }
}

proof fn lemma_ari_hierarchy(
    t: Trace,
    bus: u8,
    devfn: u8,
    sriov: u16,
    x: u32,
)
    requires
        0 <= t.pos <= t.responses.len(),
    ensures
        grows(t, ari_hierarchy(t, bus, devfn, sriov).trace),
        stable(
            ari_hierarchy(t, bus, devfn, sriov),
            ari_hierarchy(more(t, x), bus, devfn, sriov),
            x,
        ),
{
    lemma_read(t, bus, devfn, (sriov + SRIOV_CONTROL_STATUS) as u16, x);
}

proof fn lemma_ari_walk(
    t: Trace,
    bus: u8,
    func: u8,
    steps: nat,
    list: Seq<u8>,
    x: u32,
)
    requires
        0 <= t.pos <= t.responses.len(),
    ensures
        grows(t, ari_walk(t, bus, func, steps, list).trace),
        stable(
            ari_walk(t, bus, func, steps, list),
            ari_walk(more(t, x), bus, func, steps, list),
            x,
        ),
    decreases steps,
{
    if steps > 0 {
        lemma_read(t, bus, func, DEVICE_VENDOR, x);
        let a = t.read(bus, func, DEVICE_VENDOR);
        let b = more(t, x).read(bus, func, DEVICE_VENDOR);
        let u = if a.found is Some {
            a.trace
        } else {
            b.trace
        };
        lemma_ext_cap_walk(u, bus, func, EXT_CAP_ID_ARI, EXT_CAP_START, x);
        let c = ext_cap(u, bus, func, EXT_CAP_ID_ARI);
        let d = ext_cap(more(u, x), bus, func, EXT_CAP_ID_ARI);
        let (v, o) = if c.found is Some {
            (c.trace, c.found->0)
        } else {
            (d.trace, d.found->0)
        };
        if c.found is None {
            lemma_ext_cap_walk(more(u, x), bus, func, EXT_CAP_ID_ARI, EXT_CAP_START, x);
        }
        if let Some(off) = o {
            let o1 = (off + ARI_CAPABILITY_CONTROL) as u16;
            lemma_read(v, bus, func, o1, x);
            let e = v.read(bus, func, o1);
            let f = more(v, x).read(bus, func, o1);
            if let Some(cap) = e.found {
                lemma_ari_walk(
                    e.trace,
                    bus,
                    (cap >> ARI_NEXT_FUNCTION_SHIFT) as u8,
                    (steps - 1) as nat,
                    list.push(func),
                    x,
                );
            }
            if let Some(cap) = f.found {
                lemma_ari_walk(
                    f.trace,
                    bus,
                    (cap >> ARI_NEXT_FUNCTION_SHIFT) as u8,
                    (steps - 1) as nat,
                    list.push(func),
                    x,
                );
            }
        }
    }
}

proof fn lemma_preserving_read(
    t: Trace,
    bus: u8,
    devfn: u8,
    offset: u16,
    preserve: bool,
    x: u32,
)
    requires
        0 <= t.pos <= t.responses.len(),
    ensures
        grows(t, preserving_read(t, bus, devfn, offset, preserve).trace),
        stable(
            preserving_read(t, bus, devfn, offset, preserve),
            preserving_read(more(t, x), bus, devfn, offset, preserve),
            x,
        ),
{
    lemma_read(t, bus, devfn, offset, x);
}

proof fn lemma_probe_one(
    t: Trace,
    bus: u8,
    devfn: u8,
    base: u16,
    max_bars: u8,
    preserve: bool,
    i: u8,
    x: u32,
)
    requires
        0 <= t.pos <= t.responses.len(),
    ensures
        grows(t, probe_one(t, bus, devfn, base, max_bars, preserve, i).trace),
        stable(
            probe_one(t, bus, devfn, base, max_bars, preserve, i),
            probe_one(more(t, x), bus, devfn, base, max_bars, preserve, i),
            x,
        ),
{
    let o = (base + i * 4) as u16;
    let up = (base + (i + 1) * 4) as u16;
    lemma_preserving_read(t, bus, devfn, o, preserve, x);
    lemma_preserving_read(more(t, x), bus, devfn, o, preserve, x);
    let a = preserving_read(t, bus, devfn, o, preserve);
    let b = preserving_read(more(t, x), bus, devfn, o, preserve);
    let u = if a.found is Some {
        a.trace
    } else {
        b.trace
    };
    let u1 = u.write(bus, devfn, o, 0xFFFF_FFFF);
    lemma_read(u1, bus, devfn, o, x);
    lemma_read(more(u1, x), bus, devfn, o, x);
    let c = u1.read(bus, devfn, o);
    let d = more(u1, x).read(bus, devfn, o);
    let v = if c.found is Some {
        c.trace
    } else {
        d.trace
    };
    lemma_preserving_read(v, bus, devfn, up, preserve, x);
    lemma_preserving_read(more(v, x), bus, devfn, up, preserve, x);
    let e = preserving_read(v, bus, devfn, up, preserve);
    let f = preserving_read(more(v, x), bus, devfn, up, preserve);
    let w = if e.found is Some {
        e.trace
    } else {
        f.trace
    };
    lemma_read(w.write(bus, devfn, up, 0xFFFF_FFFF), bus, devfn, up, x);
}

proof fn lemma_probe_walk(
    t: Trace,
    bus: u8,
    devfn: u8,
    base: u16,
    max_bars: u8,
    preserve: bool,
    i: u8,
    bars: Seq<DiscoveredBar>,
    x: u32,
)
    requires
        0 <= t.pos <= t.responses.len(),
    ensures
        grows(t, probe_walk(t, bus, devfn, base, max_bars, preserve, i, bars).trace),
        stable(
            probe_walk(t, bus, devfn, base, max_bars, preserve, i, bars),
            probe_walk(more(t, x), bus, devfn, base, max_bars, preserve, i, bars),
            x,
        ),
    decreases 256 - i,
{
    if !(i >= max_bars || max_bars == 255) {
        lemma_probe_one(t, bus, devfn, base, max_bars, preserve, i, x);
        lemma_probe_one(more(t, x), bus, devfn, base, max_bars, preserve, i, x);
        let a = probe_one(t, bus, devfn, base, max_bars, preserve, i);
        let b = probe_one(more(t, x), bus, devfn, base, max_bars, preserve, i);
        let u = if a.found is Some {
            a
        } else {
            b
        };
        if let Some(p) = u.found {
            lemma_probe_walk(
                u.trace,
                bus,
                devfn,
                base,
                max_bars,
                preserve,
                p.next,
                match p.bar {
                    Some(bar) => bars.push(bar),
                    None => bars,
                },
                x,
            );
        }
    }
}

proof fn lemma_bars_probe(
    t: Trace,
    bus: u8,
    devfn: u8,
    is_bridge: bool,
    preserve: bool,
    x: u32,
)
    requires
        0 <= t.pos <= t.responses.len(),
    ensures
        grows(t, bars_probe(t, bus, devfn, is_bridge, preserve).trace),
        stable(
            bars_probe(t, bus, devfn, is_bridge, preserve),
            bars_probe(more(t, x), bus, devfn, is_bridge, preserve),
            x,
        ),
{
    lemma_read(t, bus, devfn, STATUS_COMMAND, x);
    let a = t.read(bus, devfn, STATUS_COMMAND);
    let b = more(t, x).read(bus, devfn, STATUS_COMMAND);
    let u = if a.found is Some {
        a
    } else {
        b
    };
    if let Some(cmd) = u.found {
        let off = if (cmd as u16) & COMMAND_MMIO_ENABLED != 0 {
            u.trace.write(
                bus,
                devfn,
                STATUS_COMMAND,
                ((cmd as u16) & !COMMAND_MMIO_ENABLED) as u32,
            )
        } else {
            u.trace
        };
        let n = if is_bridge {
            2u8
        } else {
            6u8
        };
        lemma_probe_walk(off, bus, devfn, BAR0, n, preserve, 0, Seq::empty(), x);
    }
}

proof fn lemma_sriov_probe(
    t: Trace,
    bus: u8,
    devfn: u8,
    sriov_offset: Option<u16>,
    preserve: bool,
    x: u32,
)
    requires
        0 <= t.pos <= t.responses.len(),
    ensures
        grows(t, sriov_probe(t, bus, devfn, sriov_offset, preserve).trace),
        stable(
            sriov_probe(t, bus, devfn, sriov_offset, preserve),
            sriov_probe(more(t, x), bus, devfn, sriov_offset, preserve),
            x,
        ),
{
    if let Some(offset) = sriov_offset {
        let o1 = (offset + SRIOV_INITIAL_TOTAL_VFS) as u16;
        let o2 = (offset + SRIOV_VF_OFFSET_STRIDE) as u16;
        let o3 = (offset + SRIOV_VF_BAR0) as u16;
        lemma_read(t, bus, devfn, o1, x);
        let a = t.read(bus, devfn, o1);
        let b = more(t, x).read(bus, devfn, o1);
        let u = if a.found is Some {
            a.trace
        } else {
            b.trace
        };
        lemma_read(u, bus, devfn, o2, x);
        let c = u.read(bus, devfn, o2);
        let d = more(u, x).read(bus, devfn, o2);
        let v = if c.found is Some {
            c.trace
        } else {
            d.trace
        };
        lemma_probe_walk(v, bus, devfn, o3, 6, preserve, 0, Seq::empty(), x);
    }
}

proof fn lemma_functions_walk(
    t: Trace,
    bus: u8,
    device: u8,
    f: u8,
    list: Seq<u8>,
    x: u32,
)
    requires
        0 <= t.pos <= t.responses.len(),
    ensures
        grows(t, functions_walk(t, bus, device, f, list).trace),
        stable(
            functions_walk(t, bus, device, f, list),
            functions_walk(more(t, x), bus, device, f, list),
            x,
        ),
    decreases 8 - f,
{
    if f == 0 {
        lemma_functions_walk(t, bus, device, 1, list.push(0), x);
    } else if f < 8 {
        let df = devfn_of(device, f);
        lemma_read(t, bus, df, DEVICE_VENDOR, x);
        let a = t.read(bus, df, DEVICE_VENDOR);
        let b = more(t, x).read(bus, df, DEVICE_VENDOR);
        let u = if a.found is Some {
            a
        } else {
            b
        };
        if let Some(vendor) = u.found {
            lemma_functions_walk(
                u.trace,
                bus,
                device,
                (f + 1) as u8,
                if vendor != 0xFFFF_FFFF {
                    list.push(f)
                } else {
                    list
                },
                x,
            );
        }
    }
}

proof fn lemma_function_numbers(
    t: Trace,
    bus: u8,
    device: u8,
    is_ari: bool,
    multi_function: bool,
    x: u32,
)
    requires
        0 <= t.pos <= t.responses.len(),
    ensures
        grows(t, function_numbers(t, bus, device, is_ari, multi_function).trace),
        stable(
            function_numbers(t, bus, device, is_ari, multi_function),
            function_numbers(more(t, x), bus, device, is_ari, multi_function),
            x,
        ),
{
    lemma_ari_walk(t, bus, 0, 256, Seq::empty(), x);
    lemma_functions_walk(t, bus, device, 0, Seq::empty(), x);
}

proof fn lemma_function_info(
    t: Trace,
    bus: u8,
    device: u8,
    header0: u32,
    f: u8,
    x: u32,
)
    requires
        0 <= t.pos <= t.responses.len(),
    ensures
        grows(t, function_info(t, bus, device, header0, f).trace),
        stable(
            function_info(t, bus, device, header0, f),
            function_info(more(t, x), bus, device, header0, f),
            x,
        ),
{
    let df = devfn_of(device, f);
    lemma_read(t, bus, df, BIST_HEADER, x);
    let a = t.read(bus, df, BIST_HEADER);
    let b = more(t, x).read(bus, df, BIST_HEADER);
    let u = if f == 0 {
        t
    } else if a.found is Some {
        a.trace
    } else {
        b.trace
    };
    lemma_ext_cap_walk(u, bus, df, EXT_CAP_ID_SRIOV, EXT_CAP_START, x);
    lemma_ext_cap_walk(more(u, x), bus, df, EXT_CAP_ID_SRIOV, EXT_CAP_START, x);
    let c = ext_cap(u, bus, df, EXT_CAP_ID_SRIOV);
    let d = ext_cap(more(u, x), bus, df, EXT_CAP_ID_SRIOV);
    let v = if c.found is Some {
        c.trace
    } else {
        d.trace
    };
    lemma_ext_cap_walk(v, bus, df, EXT_CAP_ID_SIOV, EXT_CAP_START, x);
}

proof fn lemma_infos_walk(
    t: Trace,
    bus: u8,
    device: u8,
    header0: u32,
    list: Seq<u8>,
    k: int,
    infos: Seq<FuncInfo>,
    x: u32,
)
    requires
        0 <= t.pos <= t.responses.len(),
    ensures
        grows(t, infos_walk(t, bus, device, header0, list, k, infos).trace),
        stable(
            infos_walk(t, bus, device, header0, list, k, infos),
            infos_walk(more(t, x), bus, device, header0, list, k, infos),
            x,
        ),
    decreases list.len() - k,
{
    if !(k < 0 || k >= list.len()) {
        lemma_function_info(t, bus, device, header0, list[k], x);
        lemma_function_info(more(t, x), bus, device, header0, list[k], x);
        let a = function_info(t, bus, device, header0, list[k]);
        let b = function_info(more(t, x), bus, device, header0, list[k]);
        let u = if a.found is Some {
            a
        } else {
            b
        };
        if let Some(info) = u.found {
            lemma_infos_walk(u.trace, bus, device, header0, list, k + 1, infos.push(info), x);
        }
    }
}

proof fn lemma_port_forwarding(
    t: Trace,
    port: Option<(u8, u8)>,
    wanted: bool,
    x: u32,
)
    requires
        0 <= t.pos <= t.responses.len(),
    ensures
        grows(t, port_forwarding(t, port, wanted).trace),
        stable(port_forwarding(t, port, wanted), port_forwarding(more(t, x), port, wanted), x),
{
    if let Some((pbus, pdevfn)) = port {
        lemma_ari_forwarding(t, pbus, pdevfn, x);
    }
}

proof fn lemma_finish_functions(
    t: Trace,
    bus: u8,
    port: Option<(u8, u8)>,
    enabled: bool,
    infos: Seq<FuncInfo>,
    x: u32,
)
    requires
        0 <= t.pos <= t.responses.len(),
    ensures
        grows(t, finish_functions(t, bus, port, enabled, infos).trace),
        stable(
            finish_functions(t, bus, port, enabled, infos),
            finish_functions(more(t, x), bus, port, enabled, infos),
            x,
        ),
{
    let w = !enabled && has_virtual_functions(infos);
    lemma_port_forwarding(t, port, w, x);
    lemma_port_forwarding(more(t, x), port, w, x);
    let a = port_forwarding(t, port, w);
    let b = port_forwarding(more(t, x), port, w);
    let u = if a.found is Some {
        a.trace
    } else {
        b.trace
    };
    if let Some(pf) = lowest_pf(infos) {
        lemma_ari_hierarchy(u, bus, pf.devfn, pf.sriov_off->0, x);
    }
}

/// The part of detection that follows the header.
spec fn detect_ari(
    t: Trace,
    bus: u8,
    device: u8,
    header0: u32,
    port: Option<(u8, u8)>,
) -> Run<Option<DeviceFunctions>> {
    let a = if device == 0 {
        ext_cap(t, bus, devfn_of(device, 0), EXT_CAP_ID_ARI)
    } else {
        found(t, None)
    };
    match a.found {
        None => pending(a.trace),
        Some(ari) => {
            let e = port_forwarding(a.trace, port, ari is Some);
            match e.found {
                None => pending(e.trace),
                Some(enabled) => detect_functions(
                    e.trace,
                    bus,
                    device,
                    header0,
                    port,
                    ari is Some,
                    enabled,
                ),
            }
        },
    }
}

/// The part of detection that follows ARI forwarding.
spec fn detect_functions(
    t: Trace,
    bus: u8,
    device: u8,
    header0: u32,
    port: Option<(u8, u8)>,
    is_ari: bool,
    enabled: bool,
) -> Run<Option<DeviceFunctions>> {
    let l = function_numbers(t, bus, device, is_ari, is_multi_function(header0));
    match l.found {
        None => pending(l.trace),
        Some(list) => {
            let i = infos_walk(l.trace, bus, device, header0, list, 0, Seq::empty());
            match i.found {
                None => pending(i.trace),
                Some(infos) => {
                    let d = finish_functions(i.trace, bus, port, enabled, infos);
                    match d.found {
                        None => pending(d.trace),
                        Some(fs) => found(d.trace, Some(fs)),
                    }
                },
            }
        },
    }
}

proof fn lemma_detect_functions(
    t: Trace,
    bus: u8,
    device: u8,
    header0: u32,
    port: Option<(u8, u8)>,
    is_ari: bool,
    enabled: bool,
    x: u32,
)
    requires
        0 <= t.pos <= t.responses.len(),
    ensures
        grows(t, detect_functions(t, bus, device, header0, port, is_ari, enabled).trace),
        stable(
            detect_functions(t, bus, device, header0, port, is_ari, enabled),
            detect_functions(more(t, x), bus, device, header0, port, is_ari, enabled),
            x,
        ),
{
    let m = is_multi_function(header0);
    lemma_function_numbers(t, bus, device, is_ari, m, x);
    lemma_function_numbers(more(t, x), bus, device, is_ari, m, x);
    let a = function_numbers(t, bus, device, is_ari, m);
    let b = function_numbers(more(t, x), bus, device, is_ari, m);
    let u = if a.found is Some {
        a
    } else {
        b
    };
    if let Some(list) = u.found {
        lemma_infos_walk(u.trace, bus, device, header0, list, 0, Seq::empty(), x);
        lemma_infos_walk(more(u.trace, x), bus, device, header0, list, 0, Seq::empty(), x);
        let c = infos_walk(u.trace, bus, device, header0, list, 0, Seq::empty());
        let d = infos_walk(more(u.trace, x), bus, device, header0, list, 0, Seq::empty());
        let v = if c.found is Some {
            c
        } else {
            d
        };
        if let Some(infos) = v.found {
            lemma_finish_functions(v.trace, bus, port, enabled, infos, x);
        }
    }
}

proof fn lemma_detect_ari(
    t: Trace,
    bus: u8,
    device: u8,
    header0: u32,
    port: Option<(u8, u8)>,
    x: u32,
)
    requires
        0 <= t.pos <= t.responses.len(),
    ensures
        grows(t, detect_ari(t, bus, device, header0, port).trace),
        stable(
            detect_ari(t, bus, device, header0, port),
            detect_ari(more(t, x), bus, device, header0, port),
            x,
        ),
{
    let df0 = devfn_of(device, 0);
    lemma_ext_cap_walk(t, bus, df0, EXT_CAP_ID_ARI, EXT_CAP_START, x);
    lemma_ext_cap_walk(more(t, x), bus, df0, EXT_CAP_ID_ARI, EXT_CAP_START, x);
    let a = ext_cap(t, bus, df0, EXT_CAP_ID_ARI);
    let b = ext_cap(more(t, x), bus, df0, EXT_CAP_ID_ARI);
    let u = if device != 0 {
        found(t, None)
    } else if a.found is Some {
        a
    } else {
        b
    };
    if let Some(ari) = u.found {
        lemma_port_forwarding(u.trace, port, ari is Some, x);
        lemma_port_forwarding(more(u.trace, x), port, ari is Some, x);
        let c = port_forwarding(u.trace, port, ari is Some);
        let d = port_forwarding(more(u.trace, x), port, ari is Some);
        let v = if c.found is Some {
            c
        } else {
            d
        };
        if let Some(enabled) = v.found {
            lemma_detect_functions(
                v.trace,
                bus,
                device,
                header0,
                port,
                ari is Some,
                enabled,
                x,
            );
        }
    }
}

proof fn lemma_detect(
    t: Trace,
    bus: u8,
    device: u8,
    port: Option<(u8, u8)>,
    x: u32,
)
    requires
        0 <= t.pos <= t.responses.len(),
    ensures
        grows(t, detect(t, bus, device, port).trace),
        stable(detect(t, bus, device, port), detect(more(t, x), bus, device, port), x),
{
    let df0 = devfn_of(device, 0);
    lemma_read(t, bus, df0, DEVICE_VENDOR, x);
    let a = t.read(bus, df0, DEVICE_VENDOR);
    let b = more(t, x).read(bus, df0, DEVICE_VENDOR);
    let u = if a.found is Some {
        a.trace
    } else {
        b.trace
    };
    lemma_read(u, bus, df0, BIST_HEADER, x);
    let c = u.read(bus, df0, BIST_HEADER);
    let d = more(u, x).read(bus, df0, BIST_HEADER);
    let v = if c.found is Some {
        c
    } else {
        d
    };
    if let Some(header0) = v.found {
        lemma_detect_ari(v.trace, bus, device, header0, port, x);
    }
}

#[verifier::rlimit(60)]
proof fn lemma_bridge_scan(
    t: Trace,
    p: Place,
    infos: Seq<FuncInfo>,
    k: int,
    next_bus: int,
    acc: Seq<FoundDevice>,
    x: u32,
)
    requires
        0 <= t.pos <= t.responses.len(),
        p.bus < next_bus,
        0 <= k < infos.len(),
        infos[k].is_bridge,
    ensures
        grows(t, functions_scan(t, p, infos, k, next_bus, acc).trace),
        stable(
            functions_scan(t, p, infos, k, next_bus, acc),
            functions_scan(more(t, x), p, infos, k, next_bus, acc),
            x,
        ),
    decreases 256 - p.bus, 2 * (256 - p.device), infos.len() - k, 0int,
{
        let info = infos[k];
        lemma_bars_probe(t, p.bus, info.devfn, info.is_bridge, p.preserve, x);
        lemma_bars_probe(more(t, x), p.bus, info.devfn, info.is_bridge, p.preserve, x);
        let a = bars_probe(t, p.bus, info.devfn, info.is_bridge, p.preserve);
        let b = bars_probe(more(t, x), p.bus, info.devfn, info.is_bridge, p.preserve);
        let u = if a.found is Some {
            a
        } else {
            b
        };
        if let Some(bars) = u.found {
            let dev = FoundDevice {
                bus: p.bus,
                device: p.device,
                function: info.func_num,
                is_bridge: info.is_bridge,
                bars,
                children: Seq::empty(),
                secondary_bus: None,
                subordinate_bus: None,
                sriov: None,
                sized: false,
            };
                if next_bus <= p.end_bus {
                    let secondary = next_bus as u8;
                    let v = u.trace.write(
                        p.bus,
                        info.devfn,
                        TYPE1_LATENCY_BUS_NUMBERS,
                        bus_register(p.bus, secondary, p.end_bus),
                    );
                    let q = Place { bus: secondary, device: 0, ..p };
                    let port = Some((p.bus, info.devfn));
                    lemma_bus_scan(v, q, port, next_bus + 1, Seq::empty(), x);
                    lemma_bus_scan(more(v, x), q, port, next_bus + 1, Seq::empty(), x);
                    let c = bus_scan(v, q, port, next_bus + 1, Seq::empty());
                    let d = bus_scan(more(v, x), q, port, next_bus + 1, Seq::empty());
                    let w = if c.found is Some {
                        c
                    } else {
                        d
                    };
                    if let Some(Ok((after, children))) = w.found {
                        let z = if c.found is Some {
                            v
                        } else {
                            more(v, x)
                        };
                        lemma_bus_next(z, q, port, next_bus + 1, Seq::empty());
                        let subordinate = subordinate_of(after, secondary);
                        lemma_functions_scan(
                            w.trace.write(
                                p.bus,
                                info.devfn,
                                TYPE1_LATENCY_BUS_NUMBERS,
                                bus_register(p.bus, secondary, subordinate),
                            ),
                            p,
                            infos,
                            k + 1,
                            after,
                            acc.push(
                                FoundDevice {
                                    children,
                                    secondary_bus: Some(secondary),
                                    subordinate_bus: Some(subordinate),
                                    ..dev
                                },
                            ),
                            x,
                        );
                    }
                }
        }
}

#[verifier::rlimit(60)]
proof fn lemma_endpoint_scan(
    t: Trace,
    p: Place,
    infos: Seq<FuncInfo>,
    k: int,
    next_bus: int,
    acc: Seq<FoundDevice>,
    x: u32,
)
    requires
        0 <= t.pos <= t.responses.len(),
        p.bus < next_bus,
        0 <= k < infos.len(),
        !infos[k].is_bridge,
    ensures
        grows(t, functions_scan(t, p, infos, k, next_bus, acc).trace),
        stable(
            functions_scan(t, p, infos, k, next_bus, acc),
            functions_scan(more(t, x), p, infos, k, next_bus, acc),
            x,
        ),
    decreases 256 - p.bus, 2 * (256 - p.device), infos.len() - k, 0int,
{
        let info = infos[k];
        lemma_bars_probe(t, p.bus, info.devfn, info.is_bridge, p.preserve, x);
        lemma_bars_probe(more(t, x), p.bus, info.devfn, info.is_bridge, p.preserve, x);
        let a = bars_probe(t, p.bus, info.devfn, info.is_bridge, p.preserve);
        let b = bars_probe(more(t, x), p.bus, info.devfn, info.is_bridge, p.preserve);
        let u = if a.found is Some {
            a
        } else {
            b
        };
        if let Some(bars) = u.found {
            let dev = FoundDevice {
                bus: p.bus,
                device: p.device,
                function: info.func_num,
                is_bridge: info.is_bridge,
                bars,
                children: Seq::empty(),
                secondary_bus: None,
                subordinate_bus: None,
                sriov: None,
                sized: false,
            };
                lemma_sriov_probe(u.trace, p.bus, info.devfn, info.sriov_off, p.preserve, x);
                lemma_sriov_probe(
                    more(u.trace, x),
                    p.bus,
                    info.devfn,
                    info.sriov_off,
                    p.preserve,
                    x,
                );
                let c = sriov_probe(u.trace, p.bus, info.devfn, info.sriov_off, p.preserve);
                let d = sriov_probe(
                    more(u.trace, x),
                    p.bus,
                    info.devfn,
                    info.sriov_off,
                    p.preserve,
                );
                let w = if c.found is Some {
                    c
                } else {
                    d
                };
                match w.found {
                    Some(None) => {
                        lemma_functions_scan(w.trace, p, infos, k + 1, next_bus, acc.push(dev), x);
                    },
                    Some(Some(sr)) => {
                        if let Ok(after) = reserve_vf_buses(
                            p,
                            info.func_num,
                            sr.max_vf_bus as int,
                            next_bus,
                        ) {
                            lemma_functions_scan(
                                w.trace,
                                p,
                                infos,
                                k + 1,
                                after,
                                acc.push(
                                    FoundDevice {
                                        sriov: Some((sr.cap_offset, sr.total_vfs, sr.vf_bars)),
                                        ..dev
                                    },
                                ),
                                x,
                            );
                        }
                    },
                    None => {},
                }
        }
}

proof fn lemma_functions_scan(
    t: Trace,
    p: Place,
    infos: Seq<FuncInfo>,
    k: int,
    next_bus: int,
    acc: Seq<FoundDevice>,
    x: u32,
)
    requires
        0 <= t.pos <= t.responses.len(),
        p.bus < next_bus,
    ensures
        grows(t, functions_scan(t, p, infos, k, next_bus, acc).trace),
        stable(
            functions_scan(t, p, infos, k, next_bus, acc),
            functions_scan(more(t, x), p, infos, k, next_bus, acc),
            x,
        ),
    decreases 256 - p.bus, 2 * (256 - p.device), infos.len() - k, 1int,
{
    if !(k < 0 || k >= infos.len()) {
        if infos[k].is_bridge {
            lemma_bridge_scan(t, p, infos, k, next_bus, acc, x);
        } else {
            lemma_endpoint_scan(t, p, infos, k, next_bus, acc, x);
        }
    }
}

proof fn lemma_bus_scan(
    t: Trace,
    p: Place,
    port: Option<(u8, u8)>,
    next_bus: int,
    acc: Seq<FoundDevice>,
    x: u32,
)
    requires
        0 <= t.pos <= t.responses.len(),
        p.bus < next_bus,
    ensures
        grows(t, bus_scan(t, p, port, next_bus, acc).trace),
        stable(
            bus_scan(t, p, port, next_bus, acc),
            bus_scan(more(t, x), p, port, next_bus, acc),
            x,
        ),
    decreases 256 - p.bus, 2 * (256 - p.device) + 1, 0int, 0int,
{
    if p.device < 32 {
        let np = Place { device: (p.device + 1) as u8, ..p };
        lemma_detect(t, p.bus, p.device, port, x);
        lemma_detect(more(t, x), p.bus, p.device, port, x);
        let a = detect(t, p.bus, p.device, port);
        let b = detect(more(t, x), p.bus, p.device, port);
        let u = if a.found is Some {
            a
        } else {
            b
        };
        match u.found {
            None => {},
            Some(None) => {
                lemma_bus_scan(u.trace, np, port, next_bus, acc, x);
            },
            Some(Some(fs)) => {
                lemma_functions_scan(u.trace, p, fs.infos, 0, next_bus, acc, x);
                lemma_functions_scan(more(u.trace, x), p, fs.infos, 0, next_bus, acc, x);
                let c = functions_scan(u.trace, p, fs.infos, 0, next_bus, acc);
                let d = functions_scan(more(u.trace, x), p, fs.infos, 0, next_bus, acc);
                let w = if c.found is Some {
                    c
                } else {
                    d
                };
                if let Some(Ok((after, all))) = w.found {
                    let z = if c.found is Some {
                        u.trace
                    } else {
                        more(u.trace, x)
                    };
                    lemma_functions_next(z, p, fs.infos, 0, next_bus, acc);
                    lemma_bus_scan(w.trace, np, port, after, all, x);
                }
            },
        }
    }
}

/// A scan never gives bus numbers back.
proof fn lemma_functions_next(
    t: Trace,
    p: Place,
    infos: Seq<FuncInfo>,
    k: int,
    next_bus: int,
    acc: Seq<FoundDevice>,
)
    requires
        p.bus < next_bus,
    ensures
        functions_scan(t, p, infos, k, next_bus, acc).found matches Some(Ok((after, _))) ==> after
            >= next_bus,
    decreases 256 - p.bus, 2 * (256 - p.device), infos.len() - k,
{
    if !(k < 0 || k >= infos.len()) {
        let info = infos[k];
        let b = bars_probe(t, p.bus, info.devfn, info.is_bridge, p.preserve);
        if let Some(bars) = b.found {
            let dev = FoundDevice {
                bus: p.bus,
                device: p.device,
                function: info.func_num,
                is_bridge: info.is_bridge,
                bars,
                children: Seq::empty(),
                secondary_bus: None,
                subordinate_bus: None,
                sriov: None,
                sized: false,
            };
            if info.is_bridge {
                if next_bus <= p.end_bus {
                    let secondary = next_bus as u8;
                    let v = b.trace.write(
                        p.bus,
                        info.devfn,
                        TYPE1_LATENCY_BUS_NUMBERS,
                        bus_register(p.bus, secondary, p.end_bus),
                    );
                    let q = Place { bus: secondary, device: 0, ..p };
                    let port = Some((p.bus, info.devfn));
                    lemma_bus_next(v, q, port, next_bus + 1, Seq::empty());
                    let c = bus_scan(v, q, port, next_bus + 1, Seq::empty());
                    if let Some(Ok((after, children))) = c.found {
                        let subordinate = subordinate_of(after, secondary);
                        lemma_functions_next(
                            c.trace.write(
                                p.bus,
                                info.devfn,
                                TYPE1_LATENCY_BUS_NUMBERS,
                                bus_register(p.bus, secondary, subordinate),
                            ),
                            p,
                            infos,
                            k + 1,
                            after,
                            acc.push(
                                FoundDevice {
                                    children,
                                    secondary_bus: Some(secondary),
                                    subordinate_bus: Some(subordinate),
                                    ..dev
                                },
                            ),
                        );
                    }
                }
            } else {
                let s = sriov_probe(b.trace, p.bus, info.devfn, info.sriov_off, p.preserve);
                match s.found {
                    Some(None) => {
                        lemma_functions_next(s.trace, p, infos, k + 1, next_bus, acc.push(dev));
                    },
                    Some(Some(sr)) => {
                        if let Ok(after) = reserve_vf_buses(
                            p,
                            info.func_num,
                            sr.max_vf_bus as int,
                            next_bus,
                        ) {
                            lemma_functions_next(
                                s.trace,
                                p,
                                infos,
                                k + 1,
                                after,
                                acc.push(
                                    FoundDevice {
                                        sriov: Some((sr.cap_offset, sr.total_vfs, sr.vf_bars)),
                                        ..dev
                                    },
                                ),
                            );
                        }
                    },
                    None => {},
                }
            }
        }
    }
}

proof fn lemma_bus_next(
    t: Trace,
    p: Place,
    port: Option<(u8, u8)>,
    next_bus: int,
    acc: Seq<FoundDevice>,
)
    requires
        p.bus < next_bus,
    ensures
        bus_scan(t, p, port, next_bus, acc).found matches Some(Ok((after, _))) ==> after
            >= next_bus,
    decreases 256 - p.bus, 2 * (256 - p.device) + 1, 0int,
{
    if p.device < 32 {
        let np = Place { device: (p.device + 1) as u8, ..p };
        let d = detect(t, p.bus, p.device, port);
        match d.found {
            None => {},
            Some(None) => {
                lemma_bus_next(d.trace, np, port, next_bus, acc);
            },
            Some(Some(fs)) => {
                lemma_functions_next(d.trace, p, fs.infos, 0, next_bus, acc);
                let r = functions_scan(d.trace, p, fs.infos, 0, next_bus, acc);
                if let Some(Ok((after, all))) = r.found {
                    lemma_bus_next(r.trace, np, port, after, all);
                }
            },
        }
    }
}

/// One more response changes nothing of an enumeration: the accesses made
/// without it are the first that are made with it, and an enumeration that was
/// done stays as it was.
pub proof fn law_replay(responses: Seq<u32>, params: AssignmentParams, x: u32)
    ensures
        ({
            let a = enumeration(Trace { responses, pos: 0, log: Seq::empty() }, params);
            let b = enumeration(
                Trace { responses: responses.push(x), pos: 0, log: Seq::empty() },
                params,
            );
            &&& starts_with(b.trace.log, a.trace.log)
            &&& a.found is Some ==> b.found == a.found && b.trace.log == a.trace.log
        }),
{
    let t = Trace { responses, pos: 0, log: Seq::empty() };
    lemma_bus_scan(
        t,
        Place {
            bus: params.start_bus,
            device: 0,
            end_bus: params.end_bus,
            preserve: params.preserve_bars,
        },
        None,
        params.start_bus + 1,
        Seq::empty(),
        x,
    );
}

}
