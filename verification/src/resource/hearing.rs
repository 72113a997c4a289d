//! Which response of config space answers which read.
use crate::regs::ARI_CAPABILITY_CONTROL;
use crate::regs::BAR0;
use crate::regs::BIST_HEADER;
use crate::regs::CAP_PTR;
use crate::regs::COMMAND_MMIO_ENABLED;
use crate::regs::DEVICE_VENDOR;
use crate::regs::EXT_CAP_ID_ARI;
use crate::regs::EXT_CAP_ID_SIOV;
use crate::regs::EXT_CAP_ID_SRIOV;
use crate::regs::EXT_CAP_START;
use crate::regs::PCIE_DEVICE_CAPS_2;
use crate::regs::PCIE_DEVICE_CTL_STS_2;
use crate::regs::SRIOV_CONTROL_STATUS;
use crate::regs::SRIOV_INITIAL_TOTAL_VFS;
use crate::regs::SRIOV_VF_BAR0;
use crate::regs::SRIOV_VF_OFFSET_STRIDE;
use crate::regs::STATUS_COMMAND;
use crate::regs::TYPE1_LATENCY_BUS_NUMBERS;
use crate::resource::device::DiscoveredBar;
use crate::resource::enumerate::detect;
use crate::resource::enumerate::finish_functions;
use crate::resource::enumerate::function_info;
use crate::resource::enumerate::function_numbers;
use crate::resource::enumerate::functions_walk;
use crate::resource::enumerate::has_virtual_functions;
use crate::resource::enumerate::infos_walk;
use crate::resource::enumerate::is_multi_function;
use crate::resource::enumerate::lowest_pf;
use crate::resource::enumerate::port_forwarding;
use crate::resource::enumerate::FuncInfo;
use crate::resource::probe::bars_probe;
use crate::resource::probe::preserving_read;
use crate::resource::probe::probe_one;
use crate::resource::probe::probe_walk;
use crate::resource::probe::sriov_probe;
use crate::resource::program::devfn_of;
use crate::resource::scan::bus_register;
use crate::resource::scan::bus_scan;
use crate::resource::scan::functions_scan;
use crate::resource::scan::reserve_vf_buses;
use crate::resource::scan::subordinate_of;
use crate::resource::scan::FoundDevice;
use crate::resource::scan::Place;
use crate::resource::scan::ScanResult;
use crate::resource::session::found;
use crate::resource::session::ConfigAccess;
use crate::resource::session::Run;
use crate::resource::session::Trace;
use crate::resource::walk::ari_forwarding;
use crate::resource::walk::ari_functions;
use crate::resource::walk::ari_hierarchy;
use crate::resource::walk::ari_walk;
use crate::resource::walk::byte_read;
use crate::resource::walk::ext_cap;
use crate::resource::walk::ext_cap_walk;
use crate::resource::walk::next_ext_cap;
use crate::resource::walk::pcie_cap;
use crate::resource::walk::pcie_cap_walk;
use vstd::prelude::*;

verus! {

/// The number of reads among some accesses.
pub open spec fn reads_in(log: Seq<ConfigAccess>) -> int
    decreases log.len(),
{
    if log.len() == 0 {
        0
    } else {
        reads_in(log.drop_last()) + if log.last() is Read {
            1int
        } else {
            0
        }
    }
}

/// Whether one list of accesses is the start of another.
pub open spec fn is_start(start: Seq<ConfigAccess>, log: Seq<ConfigAccess>) -> bool {
    start.len() <= log.len() && log.take(start.len() as int) == start
}

/// Whether a trace is on the way to another.
pub open spec fn on_the_way(a: Trace, b: Trace) -> bool {
    b.responses == a.responses && is_start(a.log, b.log)
}

/// Whether every read of a trace has been answered.
pub open spec fn all_answered(t: Trace) -> bool {
    t.pos == reads_in(t.log)
}

/// Whether a run goes on from a trace, and has all its reads answered if it has found
/// something. It waits only where there is no further response.
pub open spec fn goes_on<T>(t: Trace, run: Run<T>) -> bool {
    &&& on_the_way(t, run.trace)
    &&& all_answered(t) && run.found is Some ==> all_answered(run.trace)
    &&& run.found is None ==> run.trace.pos >= run.trace.responses.len()
}

proof fn lemma_reads_bound(log: Seq<ConfigAccess>)
    ensures
        0 <= reads_in(log),
    decreases log.len(),
{
    if log.len() > 0 {
        lemma_reads_bound(log.drop_last());
    }
}

/// A way of two parts.
pub proof fn lemma_way(a: Trace, b: Trace, c: Trace)
    requires
        on_the_way(a, b),
        on_the_way(b, c),
    ensures
        on_the_way(a, c),
{
    assert(c.log.take(a.log.len() as int) =~= c.log.take(b.log.len() as int).take(
        a.log.len() as int,
    ));
}

/// A trace is on the way to itself.
pub proof fn lemma_same(t: Trace)
    ensures
        on_the_way(t, t),
{
    assert(t.log.take(t.log.len() as int) =~= t.log);
}

proof fn lemma_pushed(t: Trace, x: ConfigAccess)
    ensures
        is_start(t.log, t.log.push(x)),
        reads_in(t.log.push(x)) == reads_in(t.log) + if x is Read {
            1int
        } else {
            0
        },
{
    assert(t.log.push(x).take(t.log.len() as int) =~= t.log);
    assert(t.log.push(x).drop_last() =~= t.log);
}

/// A read goes on from its trace.
pub proof fn lemma_read(t: Trace, bus: u8, devfn: u8, offset: u16)
    ensures
        goes_on(t, t.read(bus, devfn, offset)),
{
    lemma_pushed(t, ConfigAccess::Read { bus, devfn, offset });
}

/// A write goes on from its trace.
pub proof fn lemma_write(t: Trace, bus: u8, devfn: u8, offset: u16, value: u32)
    ensures
        on_the_way(t, t.write(bus, devfn, offset, value)),
        all_answered(t) ==> all_answered(t.write(bus, devfn, offset, value)),
{
    lemma_pushed(t, ConfigAccess::Write { bus, devfn, offset, value });
}

/// A run that goes on from a run goes on from where that one started.
proof fn lemma_on<S, T>(t: Trace, first: Run<S>, second: Run<T>)
    requires
        goes_on(t, first),
        first.found is Some,
        goes_on(first.trace, second),
    ensures
        goes_on(t, second),
{
    lemma_way(t, first.trace, second.trace);
}

proof fn lemma_byte_read(t: Trace, bus: u8, devfn: u8, offset: u16)
    ensures
        goes_on(t, byte_read(t, bus, devfn, offset)),
{
    lemma_read(t, bus, devfn, offset & !0x3u16);
}

/// The walk over the capabilities goes on from its trace.
pub proof fn lemma_pcie_cap_walk(t: Trace, bus: u8, devfn: u8, ptr: u16, steps: nat)
    ensures
        goes_on(t, pcie_cap_walk(t, bus, devfn, ptr, steps)),
    decreases steps,
{
    lemma_same(t);
    if !(steps == 0 || ptr < 0x40 || ptr == 0xFF) {
        let id = byte_read(t, bus, devfn, ptr);
        lemma_byte_read(t, bus, devfn, ptr);
        if id.found is Some {
            let next = byte_read(id.trace, bus, devfn, (ptr + 1) as u16);
            lemma_byte_read(id.trace, bus, devfn, (ptr + 1) as u16);
            lemma_on(t, id, next);
            if let Some(p) = next.found {
                lemma_pcie_cap_walk(next.trace, bus, devfn, p as u16, (steps - 1) as nat);
                lemma_on(
                    t,
                    next,
                    pcie_cap_walk(next.trace, bus, devfn, p as u16, (steps - 1) as nat),
                );
            }
        }
    }
}

proof fn lemma_pcie_cap(t: Trace, bus: u8, devfn: u8)
    ensures
        goes_on(t, pcie_cap(t, bus, devfn)),
{
    let s = t.read(bus, devfn, STATUS_COMMAND);
    lemma_read(t, bus, devfn, STATUS_COMMAND);
    if s.found is Some {
        let p = byte_read(s.trace, bus, devfn, CAP_PTR);
        lemma_byte_read(s.trace, bus, devfn, CAP_PTR);
        lemma_on(t, s, p);
        if let Some(ptr) = p.found {
            lemma_pcie_cap_walk(p.trace, bus, devfn, ptr as u16, 48);
            lemma_on(t, p, pcie_cap_walk(p.trace, bus, devfn, ptr as u16, 48));
        }
    }
}

/// The walk over the extended capabilities goes on from its trace.
pub proof fn lemma_ext_cap_walk(t: Trace, bus: u8, devfn: u8, cap_id: u16, offset: u16)
    ensures
        goes_on(t, ext_cap_walk(t, bus, devfn, cap_id, offset)),
    decreases 0x1_0000 - offset,
{
    lemma_same(t);
    if !(offset < EXT_CAP_START || offset & 0x3u16 != 0) {
        let h = t.read(bus, devfn, offset);
        lemma_read(t, bus, devfn, offset);
        if let Some(header) = h.found {
            if next_ext_cap(header) > offset {
                lemma_ext_cap_walk(h.trace, bus, devfn, cap_id, next_ext_cap(header));
                lemma_on(
                    t,
                    h,
                    ext_cap_walk(h.trace, bus, devfn, cap_id, next_ext_cap(header)),
                );
            }
        }
    }
}

proof fn lemma_ari_forwarding(t: Trace, bus: u8, devfn: u8)
    ensures
        goes_on(t, ari_forwarding(t, bus, devfn)),
{
    let c = pcie_cap(t, bus, devfn);
    lemma_pcie_cap(t, bus, devfn);
    if let Some(Some(pcie)) = c.found {
        let caps = c.trace.read(bus, devfn, (pcie + PCIE_DEVICE_CAPS_2) as u16);
        lemma_read(c.trace, bus, devfn, (pcie + PCIE_DEVICE_CAPS_2) as u16);
        lemma_on(t, c, caps);
        if caps.found is Some {
            let off = (pcie + PCIE_DEVICE_CTL_STS_2) as u16;
            let ctl = caps.trace.read(bus, devfn, off);
            lemma_read(caps.trace, bus, devfn, off);
            lemma_on(t, caps, ctl);
            if let Some(v) = ctl.found {
                let value = (v & 0xFFFF_0000) | ((v as u16)
                    | crate::regs::DEVICE_CTL_2_ARI_FORWARDING) as u32;
                lemma_write(ctl.trace, bus, devfn, off, value);
                lemma_on(t, ctl, found(ctl.trace.write(bus, devfn, off, value), true));
            }
        }
    }
}

proof fn lemma_ari_hierarchy(t: Trace, bus: u8, devfn: u8, sriov: u16)
    ensures
        goes_on(t, ari_hierarchy(t, bus, devfn, sriov)),
{
    let off = (sriov + SRIOV_CONTROL_STATUS) as u16;
    let c = t.read(bus, devfn, off);
    lemma_read(t, bus, devfn, off);
    if let Some(v) = c.found {
        let value = ((v as u16) | crate::regs::SRIOV_CONTROL_ARI_CAPABLE_HIERARCHY) as u32;
        lemma_write(c.trace, bus, devfn, off, value);
        lemma_on(t, c, found(c.trace.write(bus, devfn, off, value), ()));
    }
}

/// The walk over the functions of an ARI device goes on from its trace.
pub proof fn lemma_ari_walk(t: Trace, bus: u8, func: u8, steps: nat, list: Seq<u8>)
    ensures
        goes_on(t, ari_walk(t, bus, func, steps, list)),
    decreases steps,
{
    lemma_same(t);
    if steps > 0 {
        let v = t.read(bus, func, DEVICE_VENDOR);
        lemma_read(t, bus, func, DEVICE_VENDOR);
        if v.found is Some {
            let a = ext_cap(v.trace, bus, func, EXT_CAP_ID_ARI);
            lemma_ext_cap_walk(v.trace, bus, func, EXT_CAP_ID_ARI, EXT_CAP_START);
            lemma_on(t, v, a);
            if let Some(Some(off)) = a.found {
                let o = (off + ARI_CAPABILITY_CONTROL) as u16;
                let c = a.trace.read(bus, func, o);
                lemma_read(a.trace, bus, func, o);
                lemma_on(t, a, c);
                if let Some(cap) = c.found {
                    let next = (cap >> crate::regs::ARI_NEXT_FUNCTION_SHIFT) as u8;
                    lemma_ari_walk(c.trace, bus, next, (steps - 1) as nat, list.push(func));
                    lemma_on(
                        t,
                        c,
                        ari_walk(c.trace, bus, next, (steps - 1) as nat, list.push(func)),
                    );
                }
            }
        }
    }
}

/// The list of the functions of an ARI device goes on from its trace.
pub proof fn lemma_ari_functions(t: Trace, bus: u8)
    ensures
        goes_on(t, ari_functions(t, bus)),
{
    lemma_ari_walk(t, bus, 0, 256, Seq::empty());
}

/// A read to preserve what is there goes on from its trace.
pub proof fn lemma_preserving_read(t: Trace, bus: u8, devfn: u8, offset: u16, preserve: bool)
    ensures
        goes_on(t, preserving_read(t, bus, devfn, offset, preserve)),
{
    lemma_same(t);
    lemma_read(t, bus, devfn, offset);
}

/// The probe of a register goes on from its trace.
pub proof fn lemma_probe_one(
    t: Trace,
    bus: u8,
    devfn: u8,
    base: u16,
    max_bars: u8,
    preserve: bool,
    i: u8,
)
    ensures
        goes_on(t, probe_one(t, bus, devfn, base, max_bars, preserve, i)),
{
    let o = (base + i * 4) as u16;
    let before = preserving_read(t, bus, devfn, o, preserve);
    lemma_preserving_read(t, bus, devfn, o, preserve);
    if before.found is Some {
        let w = before.trace.write(bus, devfn, o, 0xFFFF_FFFF);
        lemma_write(before.trace, bus, devfn, o, 0xFFFF_FFFF);
        lemma_on(t, before, found(w, ()));
        let back = w.read(bus, devfn, o);
        lemma_read(w, bus, devfn, o);
        lemma_on(t, found(w, ()), back);
        if back.found is Some {
            let up = (base + (i + 1) * 4) as u16;
            let before_up = preserving_read(back.trace, bus, devfn, up, preserve);
            lemma_preserving_read(back.trace, bus, devfn, up, preserve);
            lemma_on(t, back, before_up);
            if before_up.found is Some {
                let x = before_up.trace.write(bus, devfn, up, 0xFFFF_FFFF);
                lemma_write(before_up.trace, bus, devfn, up, 0xFFFF_FFFF);
                lemma_on(t, before_up, found(x, ()));
                lemma_read(x, bus, devfn, up);
                lemma_on(t, found(x, ()), x.read(bus, devfn, up));
            }
        }
    }
}

/// The probes of registers go on from their trace.
pub proof fn lemma_probe_walk(
    t: Trace,
    bus: u8,
    devfn: u8,
    base: u16,
    max_bars: u8,
    preserve: bool,
    i: u8,
    bars: Seq<DiscoveredBar>,
)
    ensures
        goes_on(t, probe_walk(t, bus, devfn, base, max_bars, preserve, i, bars)),
    decreases 256 - i,
{
    lemma_same(t);
    if !(i >= max_bars || max_bars == 255) {
        let p = probe_one(t, bus, devfn, base, max_bars, preserve, i);
        lemma_probe_one(t, bus, devfn, base, max_bars, preserve, i);
        if let Some(probed) = p.found {
            let next = match probed.bar {
                Some(bar) => bars.push(bar),
                None => bars,
            };
            lemma_probe_walk(p.trace, bus, devfn, base, max_bars, preserve, probed.next, next);
            lemma_on(
                t,
                p,
                probe_walk(p.trace, bus, devfn, base, max_bars, preserve, probed.next, next),
            );
        }
    }
}

/// The probe of BARs goes on from its trace.
pub proof fn lemma_bars_probe(t: Trace, bus: u8, devfn: u8, is_bridge: bool, preserve: bool)
    ensures
        goes_on(t, bars_probe(t, bus, devfn, is_bridge, preserve)),
{
    let c = t.read(bus, devfn, STATUS_COMMAND);
    lemma_read(t, bus, devfn, STATUS_COMMAND);
    if let Some(cmd) = c.found {
        let value = ((cmd as u16) & !COMMAND_MMIO_ENABLED) as u32;
        lemma_write(c.trace, bus, devfn, STATUS_COMMAND, value);
        lemma_same(c.trace);
        let off = if (cmd as u16) & COMMAND_MMIO_ENABLED != 0 {
            c.trace.write(bus, devfn, STATUS_COMMAND, value)
        } else {
            c.trace
        };
        let max: u8 = if is_bridge {
            2
        } else {
            6
        };
        lemma_on(t, c, found(off, ()));
        lemma_probe_walk(off, bus, devfn, BAR0, max, preserve, 0, Seq::empty());
        lemma_on(
            t,
            found(off, ()),
            probe_walk(off, bus, devfn, BAR0, max, preserve, 0, Seq::empty()),
        );
    }
}

/// The probe of an SR-IOV capability goes on from its trace.
pub proof fn lemma_sriov_probe(
    t: Trace,
    bus: u8,
    devfn: u8,
    sriov_offset: Option<u16>,
    preserve: bool,
)
    ensures
        goes_on(t, sriov_probe(t, bus, devfn, sriov_offset, preserve)),
{
    lemma_same(t);
    if let Some(offset) = sriov_offset {
        let o = (offset + SRIOV_INITIAL_TOTAL_VFS) as u16;
        let n = t.read(bus, devfn, o);
        lemma_read(t, bus, devfn, o);
        if n.found is Some {
            let o2 = (offset + SRIOV_VF_OFFSET_STRIDE) as u16;
            let os = n.trace.read(bus, devfn, o2);
            lemma_read(n.trace, bus, devfn, o2);
            lemma_on(t, n, os);
            if os.found is Some {
                let base = (offset + SRIOV_VF_BAR0) as u16;
                lemma_probe_walk(os.trace, bus, devfn, base, 6, preserve, 0, Seq::empty());
                lemma_on(
                    t,
                    os,
                    probe_walk(os.trace, bus, devfn, base, 6, preserve, 0, Seq::empty()),
                );
            }
        }
    }
}

/// The list of the functions of a device goes on from its trace.
pub proof fn lemma_functions_walk(t: Trace, bus: u8, device: u8, f: u8, list: Seq<u8>)
    ensures
        goes_on(t, functions_walk(t, bus, device, f, list)),
    decreases 8 - f,
{
    lemma_same(t);
    if f == 0 {
        lemma_functions_walk(t, bus, device, 1, list.push(0));
    } else if f < 8 {
        let v = t.read(bus, devfn_of(device, f), DEVICE_VENDOR);
        lemma_read(t, bus, devfn_of(device, f), DEVICE_VENDOR);
        if let Some(vendor) = v.found {
            let next = if vendor != 0xFFFF_FFFF {
                list.push(f)
            } else {
                list
            };
            lemma_functions_walk(v.trace, bus, device, (f + 1) as u8, next);
            lemma_on(t, v, functions_walk(v.trace, bus, device, (f + 1) as u8, next));
        }
    }
}

/// What is found of a function goes on from its trace.
pub proof fn lemma_function_info(t: Trace, bus: u8, device: u8, header0: u32, f: u8)
    ensures
        goes_on(t, function_info(t, bus, device, header0, f)),
{
    lemma_same(t);
    let devfn = devfn_of(device, f);
    let h = if f == 0 {
        found(t, header0)
    } else {
        t.read(bus, devfn, BIST_HEADER)
    };
    lemma_read(t, bus, devfn, BIST_HEADER);
    if h.found is Some {
        let s = ext_cap(h.trace, bus, devfn, EXT_CAP_ID_SRIOV);
        lemma_ext_cap_walk(h.trace, bus, devfn, EXT_CAP_ID_SRIOV, EXT_CAP_START);
        lemma_on(t, h, s);
        if s.found is Some {
            let i = ext_cap(s.trace, bus, devfn, EXT_CAP_ID_SIOV);
            lemma_ext_cap_walk(s.trace, bus, devfn, EXT_CAP_ID_SIOV, EXT_CAP_START);
            lemma_on(t, s, i);
        }
    }
}

/// What is found of the functions of a device goes on from its trace.
pub proof fn lemma_infos_walk(
    t: Trace,
    bus: u8,
    device: u8,
    header0: u32,
    list: Seq<u8>,
    k: int,
    infos: Seq<FuncInfo>,
)
    ensures
        goes_on(t, infos_walk(t, bus, device, header0, list, k, infos)),
    decreases list.len() - k,
{
    lemma_same(t);
    if !(k < 0 || k >= list.len()) {
        let i = function_info(t, bus, device, header0, list[k]);
        lemma_function_info(t, bus, device, header0, list[k]);
        if let Some(info) = i.found {
            lemma_infos_walk(i.trace, bus, device, header0, list, k + 1, infos.push(info));
            lemma_on(
                t,
                i,
                infos_walk(i.trace, bus, device, header0, list, k + 1, infos.push(info)),
            );
        }
    }
}

/// Enabling ARI forwarding goes on from its trace.
pub proof fn lemma_port_forwarding(t: Trace, port: Option<(u8, u8)>, wanted: bool)
    ensures
        goes_on(t, port_forwarding(t, port, wanted)),
{
    lemma_same(t);
    if let Some((bus, devfn)) = port {
        lemma_ari_forwarding(t, bus, devfn);
    }
}

/// What follows once the functions of a device are known goes on from its trace.
pub proof fn lemma_finish_functions(
    t: Trace,
    bus: u8,
    port: Option<(u8, u8)>,
    enabled: bool,
    infos: Seq<FuncInfo>,
)
    ensures
        goes_on(t, finish_functions(t, bus, port, enabled, infos)),
{
    let wanted = !enabled && has_virtual_functions(infos);
    let e = port_forwarding(t, port, wanted);
    lemma_port_forwarding(t, port, wanted);
    if e.found is Some {
        if let Some(pf) = lowest_pf(infos) {
            lemma_ari_hierarchy(e.trace, bus, pf.devfn, pf.sriov_off->0);
            lemma_on(t, e, ari_hierarchy(e.trace, bus, pf.devfn, pf.sriov_off->0));
        }
    }
}

/// The detection of a device goes on from its trace.
pub proof fn lemma_detect(t: Trace, bus: u8, device: u8, port: Option<(u8, u8)>)
    ensures
        goes_on(t, detect(t, bus, device, port)),
{
    let df0 = devfn_of(device, 0);
    let v = t.read(bus, df0, DEVICE_VENDOR);
    lemma_read(t, bus, df0, DEVICE_VENDOR);
    if v.found is Some {
        let b = v.trace.read(bus, df0, BIST_HEADER);
        lemma_read(v.trace, bus, df0, BIST_HEADER);
        lemma_on(t, v, b);
        if let Some(header0) = b.found {
            let a = if device == 0 {
                ext_cap(b.trace, bus, df0, EXT_CAP_ID_ARI)
            } else {
                found(b.trace, None)
            };
            lemma_same(b.trace);
            lemma_ext_cap_walk(b.trace, bus, df0, EXT_CAP_ID_ARI, EXT_CAP_START);
            lemma_on(t, b, a);
            if let Some(ari) = a.found {
                lemma_detect_listed(t, a, bus, device, port, header0, ari is Some);
            }
        }
    }
}

proof fn lemma_detect_listed(
    t: Trace,
    a: Run<Option<u16>>,
    bus: u8,
    device: u8,
    port: Option<(u8, u8)>,
    header0: u32,
    ari: bool,
)
    requires
        goes_on(t, a),
        a.found is Some,
    ensures
        ({
            let e = port_forwarding(a.trace, port, ari);
            let l = function_numbers(e.trace, bus, device, ari, is_multi_function(header0));
            let i = infos_walk(l.trace, bus, device, header0, l.found->0, 0, Seq::empty());
            let d = finish_functions(i.trace, bus, port, e.found->0, i.found->0);
            &&& goes_on(t, e)
            &&& e.found is Some ==> goes_on(t, l)
            &&& e.found is Some && l.found is Some ==> goes_on(t, i)
            &&& e.found is Some && l.found is Some && i.found is Some ==> goes_on(t, d)
        }),
{
    let e = port_forwarding(a.trace, port, ari);
    lemma_port_forwarding(a.trace, port, ari);
    lemma_on(t, a, e);
    if e.found is Some {
        let l = function_numbers(e.trace, bus, device, ari, is_multi_function(header0));
        lemma_same(e.trace);
        lemma_ari_functions(e.trace, bus);
        lemma_functions_walk(e.trace, bus, device, 0, Seq::empty());
        lemma_on(t, e, l);
        if let Some(list) = l.found {
            let i = infos_walk(l.trace, bus, device, header0, list, 0, Seq::empty());
            lemma_infos_walk(l.trace, bus, device, header0, list, 0, Seq::empty());
            lemma_on(t, l, i);
            if let Some(infos) = i.found {
                lemma_finish_functions(i.trace, bus, port, e.found->0, infos);
                lemma_on(t, i, finish_functions(i.trace, bus, port, e.found->0, infos));
            }
        }
    }
}

/// Whether a scan leaves no fewer bus numbers behind than it found.
pub open spec fn takes_buses(run: Run<ScanResult>, next_bus: int) -> bool {
    run.found matches Some(Ok((after, _))) ==> next_bus <= after
}

/// The scan of functions goes on from its trace.
pub proof fn lemma_functions_scan(
    t: Trace,
    p: Place,
    infos: Seq<FuncInfo>,
    k: int,
    next_bus: int,
    acc: Seq<FoundDevice>,
)
    requires
        p.bus < next_bus,
    ensures
        goes_on(t, functions_scan(t, p, infos, k, next_bus, acc)),
        takes_buses(functions_scan(t, p, infos, k, next_bus, acc), next_bus),
    decreases 256 - p.bus, 2 * (256 - p.device), infos.len() - k,
{
    lemma_same(t);
    if !(k < 0 || k >= infos.len()) {
        let info = infos[k];
        let b = bars_probe(t, p.bus, info.devfn, info.is_bridge, p.preserve);
        lemma_bars_probe(t, p.bus, info.devfn, info.is_bridge, p.preserve);
        if let Some(bars) = b.found {
            let dev = FoundDevice {
                bus: p.bus,
                device: p.device,
                function: info.func_num,
                is_bridge: info.is_bridge,
                bars,
                children: Seq::empty(),
                secondary_bus: None,
                subordinate_bus: None,
                sriov: None,
                sized: false,
            };
            if info.is_bridge {
                if next_bus <= p.end_bus {
                    let secondary = next_bus as u8;
                    let x = bus_register(p.bus, secondary, p.end_bus);
                    let v = b.trace.write(p.bus, info.devfn, TYPE1_LATENCY_BUS_NUMBERS, x);
                    lemma_write(b.trace, p.bus, info.devfn, TYPE1_LATENCY_BUS_NUMBERS, x);
                    lemma_on(t, b, found(v, ()));
                    let q = Place { bus: secondary, device: 0, ..p };
                    let port = Some((p.bus, info.devfn));
                    lemma_bus_scan(v, q, port, next_bus + 1, Seq::empty());
                    let c = bus_scan(v, q, port, next_bus + 1, Seq::empty());
                    lemma_on(t, found(v, ()), c);
                    if let Some(Ok((after, children))) = c.found {
                        let subordinate = subordinate_of(after, secondary);
                        let y = bus_register(p.bus, secondary, subordinate);
                        let w = c.trace.write(p.bus, info.devfn, TYPE1_LATENCY_BUS_NUMBERS, y);
                        lemma_write(c.trace, p.bus, info.devfn, TYPE1_LATENCY_BUS_NUMBERS, y);
                        lemma_on(t, c, found(w, ()));
                        let all = acc.push(
                            FoundDevice {
                                children,
                                secondary_bus: Some(secondary),
                                subordinate_bus: Some(subordinate),
                                ..dev
                            },
                        );
                        lemma_functions_scan(w, p, infos, k + 1, after, all);
                        lemma_on(
                            t,
                            found(w, ()),
                            functions_scan(w, p, infos, k + 1, after, all),
                        );
                    }
                }
            } else {
                let s = sriov_probe(b.trace, p.bus, info.devfn, info.sriov_off, p.preserve);
                lemma_sriov_probe(b.trace, p.bus, info.devfn, info.sriov_off, p.preserve);
                lemma_on(t, b, s);
                match s.found {
                    Some(None) => {
                        let all = acc.push(dev);
                        lemma_functions_scan(s.trace, p, infos, k + 1, next_bus, all);
                        lemma_on(
                            t,
                            s,
                            functions_scan(s.trace, p, infos, k + 1, next_bus, all),
                        );
                    },
                    Some(Some(sr)) => {
                        if let Ok(after) = reserve_vf_buses(
                            p,
                            info.func_num,
                            sr.max_vf_bus as int,
                            next_bus,
                        ) {
                            let all = acc.push(
                                FoundDevice {
                                    sriov: Some((sr.cap_offset, sr.total_vfs, sr.vf_bars)),
                                    ..dev
                                },
                            );
                            lemma_functions_scan(s.trace, p, infos, k + 1, after, all);
                            lemma_on(
                                t,
                                s,
                                functions_scan(s.trace, p, infos, k + 1, after, all),
                            );
                        }
                    },
                    None => {},
                }
            }
        }
    }
}

/// The scan of a bus goes on from its trace.
pub proof fn lemma_bus_scan(
    t: Trace,
    p: Place,
    port: Option<(u8, u8)>,
    next_bus: int,
    acc: Seq<FoundDevice>,
)
    requires
        p.bus < next_bus,
    ensures
        goes_on(t, bus_scan(t, p, port, next_bus, acc)),
        takes_buses(bus_scan(t, p, port, next_bus, acc), next_bus),
    decreases 256 - p.bus, 2 * (256 - p.device) + 1, 0int,
{
    lemma_same(t);
    if p.device < 32 {
        let np = Place { device: (p.device + 1) as u8, ..p };
        let d = detect(t, p.bus, p.device, port);
        lemma_detect(t, p.bus, p.device, port);
        match d.found {
            None => {},
            Some(None) => {
                lemma_bus_scan(d.trace, np, port, next_bus, acc);
                lemma_on(t, d, bus_scan(d.trace, np, port, next_bus, acc));
            },
            Some(Some(fs)) => {
                let r = functions_scan(d.trace, p, fs.infos, 0, next_bus, acc);
                lemma_functions_scan(d.trace, p, fs.infos, 0, next_bus, acc);
                lemma_on(t, d, r);
                if let Some(Ok((after, all))) = r.found {
                    lemma_bus_scan(r.trace, np, port, after, all);
                    lemma_on(t, r, bus_scan(r.trace, np, port, after, all));
                }
            },
        }
    }
}

/// The registers of each function, by bus, device and function number and offset.
pub type Registers = spec_fn(u8, u8, u16) -> u32;

/// Whether a trace tells the truth of the registers that identify functions: each read
/// of one was answered with what the register holds.
pub open spec fn truthful(u: Trace, regs: Registers) -> bool {
    forall|k: int|
        #![trigger u.log[k]]
        0 <= k < u.log.len() ==> match u.log[k] {
            ConfigAccess::Read { bus, devfn, offset } if (offset == 0x00 || offset == 0x0C)
                && reads_in(u.log.take(k)) < u.responses.len() => u.responses[reads_in(
                u.log.take(k),
            )] == regs(bus, devfn, offset),
            _ => true,
        }
}

/// Whether no read of the extended space of a function, by its device and function
/// number, was answered with the header of an extended capability of a kind.
pub open spec fn never_heard(u: Trace, function: u8, id: u16) -> bool {
    forall|k: int|
        #![trigger u.log[k]]
        0 <= k < u.log.len() ==> match u.log[k] {
            ConfigAccess::Read { bus, devfn, offset } if devfn == function && offset >= 0x100
                && reads_in(u.log.take(k)) < u.responses.len() => (u.responses[reads_in(
                u.log.take(k),
            )] & 0xFFFF) as u16 != id,
            _ => true,
        }
}

/// Whether no SR-IOV and no SIOV capability was heard of.
pub open spec fn without_virtual(u: Trace) -> bool {
    forall|function: u8|
        #![trigger never_heard(u, function, 0x0010)]
        never_heard(u, function, 0x0010) && never_heard(u, function, EXT_CAP_ID_SIOV)
}

/// The response that answered a read, seen from where a trace has come to.
pub proof fn lemma_answer(t: Trace, u: Trace, bus: u8, devfn: u8, offset: u16)
    requires
        all_answered(t),
        on_the_way(t.read(bus, devfn, offset).trace, u),
        t.read(bus, devfn, offset).found is Some,
    ensures
        ({
            let k = t.log.len() as int;
            &&& k < u.log.len()
            &&& u.log[k] == (ConfigAccess::Read { bus, devfn, offset })
            &&& u.log.take(k) == t.log
            &&& 0 <= t.pos == reads_in(u.log.take(k)) < u.responses.len()
            &&& t.read(bus, devfn, offset).found == Some(u.responses[t.pos])
        }),
{
    let k = t.log.len() as int;
    let r = t.read(bus, devfn, offset).trace;
    lemma_reads_bound(t.log);
    assert(u.log[k] == r.log[k]) by {
        assert(u.log.take(r.log.len() as int)[k] == r.log[k]);
    }
    assert(u.log.take(k) =~= u.log.take(r.log.len() as int).take(k));
    assert(r.log.take(k) =~= t.log);
    assert(u.log.take(k) == t.log);
    assert(u.log[k] == (ConfigAccess::Read { bus, devfn, offset }));
}

/// What was heard is what the registers hold.
pub proof fn lemma_heard(t: Trace, u: Trace, bus: u8, devfn: u8, offset: u16, regs: Registers)
    requires
        all_answered(t),
        on_the_way(t.read(bus, devfn, offset).trace, u),
        t.read(bus, devfn, offset).found is Some,
    ensures
        truthful(u, regs) && (offset == 0x00 || offset == 0x0C) ==> t.read(
            bus,
            devfn,
            offset,
        ).found == Some(regs(bus, devfn, offset)),
        forall|id: u16|
            #![trigger never_heard(u, devfn, id)]
            never_heard(u, devfn, id) && offset >= 0x100 ==> (t.read(bus, devfn, offset).found->0
                & 0xFFFF) as u16 != id,
{
    lemma_answer(t, u, bus, devfn, offset);
}

/// An extended capability that was never heard of is not found.
pub proof fn lemma_not_found(t: Trace, u: Trace, bus: u8, devfn: u8, id: u16, offset: u16)
    requires
        all_answered(t),
        never_heard(u, devfn, id),
        on_the_way(ext_cap_walk(t, bus, devfn, id, offset).trace, u),
    ensures
        ext_cap_walk(t, bus, devfn, id, offset).found matches Some(a) ==> a is None,
    decreases 0x1_0000 - offset,
{
    if !(offset < EXT_CAP_START || offset & 0x3u16 != 0) {
        let h = t.read(bus, devfn, offset);
        let w = ext_cap_walk(t, bus, devfn, id, offset);
        lemma_read(t, bus, devfn, offset);
        if let Some(header) = h.found {
            if header == 0 || header == 0xFFFF_FFFF {
            } else if next_ext_cap(header) > offset && (header & 0xFFFF) as u16 != id {
                lemma_ext_cap_walk(h.trace, bus, devfn, id, next_ext_cap(header));
                lemma_way(h.trace, w.trace, u);
                lemma_not_found(h.trace, u, bus, devfn, id, next_ext_cap(header));
            } else {
                lemma_same(h.trace);
                lemma_heard(t, u, bus, devfn, offset, |a: u8, b: u8, c: u16| 0u32);
            }
        }
    }
}

}
