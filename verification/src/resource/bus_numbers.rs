//! The bus numbers that bridges are programmed with, and when they run out.
use crate::regs::TYPE1_LATENCY_BUS_NUMBERS;
use crate::resource::enumerate::detect;
use crate::resource::enumerate::FuncInfo;
use crate::resource::hearing::all_answered;
use crate::resource::hearing::lemma_bars_probe;
use crate::resource::hearing::lemma_bus_scan;
use crate::resource::hearing::lemma_detect;
use crate::resource::hearing::lemma_functions_scan;
use crate::resource::hearing::lemma_same;
use crate::resource::hearing::lemma_sriov_probe;
use crate::resource::hearing::lemma_way;
use crate::resource::hearing::lemma_write;
use crate::resource::hearing::never_heard;
use crate::resource::hearing::on_the_way;
use crate::resource::hearing::truthful;
use crate::resource::hearing::without_virtual;
use crate::resource::hearing::Registers;
use crate::resource::listing::describes;
use crate::resource::listing::is_bridge_header;
use crate::resource::listing::is_described;
use crate::resource::listing::lemma_detected;
use crate::resource::params::AssignmentError;
use crate::resource::params::AssignmentParams;
use crate::resource::probe::bars_probe;
use crate::resource::probe::sriov_probe;
use crate::resource::scan::bus_register;
use crate::resource::scan::bus_scan;
use crate::resource::scan::enumeration;
use crate::resource::scan::functions_scan;
use crate::resource::scan::reserve_vf_buses;
use crate::resource::scan::subordinate_of;
use crate::resource::scan::FoundDevice;
use crate::resource::scan::Place;
use crate::resource::scan::ScanResult;
use crate::resource::session::ConfigAccess;
use crate::resource::session::Run;
use crate::resource::session::Trace;
use vstd::prelude::*;

verus! {

/// Whether a bus number was handed out: written to a bridge as the number of the bus
/// behind it.
pub open spec fn handed_out(t: Trace, n: int) -> bool {
    exists|k: int|
        #![trigger t.log[k]]
        0 <= k < t.log.len() && match t.log[k] {
            ConfigAccess::Write { offset, value, .. } => offset == 0x18 && (value >> 8u32) as u8
                == n,
            _ => false,
        }
}

/// Whether all bus numbers before one are used up, from a first bus on: the one before
/// it was handed out.
spec fn used_up(t: Trace, first: int, next_bus: int) -> bool {
    next_bus == first + 1 || handed_out(t, next_bus - 1)
}

proof fn lemma_handed_out(t: Trace, u: Trace, n: int)
    requires
        on_the_way(t, u),
        handed_out(t, n),
    ensures
        handed_out(u, n),
{
    let k = choose|k: int|
        #![trigger t.log[k]]
        0 <= k < t.log.len() && match t.log[k] {
            ConfigAccess::Write { offset, value, .. } => offset == 0x18 && (value >> 8u32) as u8
                == n,
            _ => false,
        };
    assert(u.log.take(t.log.len() as int)[k] == u.log[k]);
}

proof fn lemma_register(primary: u8, secondary: u8, subordinate: u8)
    ensures
        bus_register(primary, secondary, subordinate) as u8 == primary,
        (bus_register(primary, secondary, subordinate) >> 8u32) as u8 == secondary,
        (bus_register(primary, secondary, subordinate) >> 16u32) as u8 == subordinate,
{
    assert({
        let v = (primary as u32) | ((secondary as u32) << 8u32) | ((subordinate as u32) << 16u32);
        &&& v as u8 == primary
        &&& (v >> 8u32) as u8 == secondary
        &&& (v >> 16u32) as u8 == subordinate
    }) by (bit_vector);
}

/// Whether a scan has gone well, with the bus numbers before the next one used up, or
/// has failed at a bridge that no number was left for.
spec fn ends_well(
    run: Run<ScanResult>,
    regs: Registers,
    first: int,
    next_bus: int,
    end_bus: u8,
) -> bool {
    match run.found {
        None => true,
        Some(Ok((after, _))) => after >= next_bus && used_up(run.trace, first, after),
        Some(Err(e)) => {
            &&& e matches AssignmentError::BusExhaustion { bus, device, function }
                && is_bridge_header(regs, bus, device as int, function as int)
            &&& exists|n: int| n > end_bus && #[trigger] used_up(run.trace, first, n)
        },
    }
}

#[verifier::rlimit(60)]
proof fn lemma_functions_used_up(
    t: Trace,
    u: Trace,
    regs: Registers,
    p: Place,
    infos: Seq<FuncInfo>,
    k: int,
    next_bus: int,
    acc: Seq<FoundDevice>,
    first: int,
)
    requires
        p.device < 32,
        p.bus < next_bus,
        0 <= k <= infos.len(),
        all_answered(t),
        truthful(u, regs),
        never_heard(u, 0, 0x000E),
        without_virtual(u),
        describes(infos, regs, p.bus, p.device as int),
        forall|j: int| #![trigger infos[j]] 0 <= j < infos.len() ==> infos[j].sriov_off is None,
        used_up(t, first, next_bus),
        on_the_way(functions_scan(t, p, infos, k, next_bus, acc).trace, u),
    ensures
        ends_well(
            functions_scan(t, p, infos, k, next_bus, acc),
            regs,
            first,
            next_bus,
            p.end_bus,
        ),
    decreases 256 - p.bus, 2 * (256 - p.device), infos.len() - k,
{
    let whole = functions_scan(t, p, infos, k, next_bus, acc);
    if k < infos.len() && whole.found is Some {
        let info = infos[k];
        assert(is_described(info, regs, p.bus, p.device as int, info.func_num));
        let b = bars_probe(t, p.bus, info.devfn, info.is_bridge, p.preserve);
        lemma_bars_probe(t, p.bus, info.devfn, info.is_bridge, p.preserve);
        if next_bus != first + 1 {
            lemma_handed_out(t, b.trace, next_bus - 1);
        }
        let dev = FoundDevice {
            bus: p.bus,
            device: p.device,
            function: info.func_num,
            is_bridge: info.is_bridge,
            bars: b.found->0,
            children: Seq::empty(),
            secondary_bus: None,
            subordinate_bus: None,
            sriov: None,
            sized: false,
        };
        if info.is_bridge {
            if next_bus > p.end_bus {
                assert(used_up(whole.trace, first, next_bus));
            } else {
                let secondary = next_bus as u8;
                let x = bus_register(p.bus, secondary, p.end_bus);
                let v = b.trace.write(p.bus, info.devfn, TYPE1_LATENCY_BUS_NUMBERS, x);
                lemma_write(b.trace, p.bus, info.devfn, TYPE1_LATENCY_BUS_NUMBERS, x);
                lemma_register(p.bus, secondary, p.end_bus);
                assert(v.log[b.trace.log.len() as int] == v.log.last());
                assert(handed_out(v, next_bus));
                let q = Place { bus: secondary, device: 0, ..p };
                let port = Some((p.bus, info.devfn));
                lemma_bus_scan(v, q, port, next_bus + 1, Seq::empty());
                let c = bus_scan(v, q, port, next_bus + 1, Seq::empty());
                if c.found->0 is Ok {
                    let (after, children) = c.found->0->Ok_0;
                    let subordinate = subordinate_of(after, secondary);
                    let y = bus_register(p.bus, secondary, subordinate);
                    let w = c.trace.write(p.bus, info.devfn, TYPE1_LATENCY_BUS_NUMBERS, y);
                    lemma_write(c.trace, p.bus, info.devfn, TYPE1_LATENCY_BUS_NUMBERS, y);
                    let full = FoundDevice {
                        children,
                        secondary_bus: Some(secondary),
                        subordinate_bus: Some(subordinate),
                        ..dev
                    };
                    lemma_functions_scan(w, p, infos, k + 1, after, acc.push(full));
                    lemma_way(w, whole.trace, u);
                    lemma_way(c.trace, w, u);
                    lemma_bus_used_up(v, u, regs, q, port, next_bus + 1, Seq::empty(), first);
                    if after != first + 1 {
                        lemma_handed_out(c.trace, w, after - 1);
                    }
                    lemma_functions_used_up(
                        w,
                        u,
                        regs,
                        p,
                        infos,
                        k + 1,
                        after,
                        acc.push(full),
                        first,
                    );
                } else {
                    lemma_bus_used_up(v, u, regs, q, port, next_bus + 1, Seq::empty(), first);
                }
            }
        } else {
            lemma_functions_scan(b.trace, p, infos, k + 1, next_bus, acc.push(dev));
            lemma_functions_used_up(
                b.trace,
                u,
                regs,
                p,
                infos,
                k + 1,
                next_bus,
                acc.push(dev),
                first,
            );
        }
    }
}

#[verifier::rlimit(60)]
proof fn lemma_bus_used_up(
    t: Trace,
    u: Trace,
    regs: Registers,
    p: Place,
    port: Option<(u8, u8)>,
    next_bus: int,
    acc: Seq<FoundDevice>,
    first: int,
)
    requires
        p.device <= 32,
        p.bus < next_bus,
        all_answered(t),
        truthful(u, regs),
        never_heard(u, 0, 0x000E),
        without_virtual(u),
        used_up(t, first, next_bus),
        on_the_way(bus_scan(t, p, port, next_bus, acc).trace, u),
    ensures
        ends_well(bus_scan(t, p, port, next_bus, acc), regs, first, next_bus, p.end_bus),
    decreases 256 - p.bus, 2 * (256 - p.device) + 1, 0int,
{
    let whole = bus_scan(t, p, port, next_bus, acc);
    if whole.found is Some && p.device < 32 {
        let np = Place { device: (p.device + 1) as u8, ..p };
        let d = detect(t, p.bus, p.device, port);
        lemma_detect(t, p.bus, p.device, port);
        if next_bus != first + 1 {
            lemma_handed_out(t, d.trace, next_bus - 1);
        }
        match d.found {
            None => {},
            Some(None) => {
                lemma_bus_scan(d.trace, np, port, next_bus, acc);
                lemma_way(d.trace, whole.trace, u);
                lemma_bus_used_up(d.trace, u, regs, np, port, next_bus, acc, first);
            },
            Some(Some(fs)) => {
                let r = functions_scan(d.trace, p, fs.infos, 0, next_bus, acc);
                lemma_functions_scan(d.trace, p, fs.infos, 0, next_bus, acc);
                lemma_same(r.trace);
                if r.found->0 is Ok {
                    let (after, all) = r.found->0->Ok_0;
                    lemma_bus_scan(r.trace, np, port, after, all);
                    lemma_way(r.trace, whole.trace, u);
                    lemma_way(d.trace, r.trace, u);
                    lemma_detected(t, u, regs, p.bus, p.device, port);
                    lemma_functions_used_up(
                        d.trace,
                        u,
                        regs,
                        p,
                        fs.infos,
                        0,
                        next_bus,
                        acc,
                        first,
                    );
                    if !fs.ari_forwarding {
                        lemma_bus_used_up(r.trace, u, regs, np, port, after, all, first);
                    }
                } else {
                    lemma_way(d.trace, r.trace, u);
                    lemma_detected(t, u, regs, p.bus, p.device, port);
                    lemma_functions_used_up(
                        d.trace,
                        u,
                        regs,
                        p,
                        fs.infos,
                        0,
                        next_bus,
                        acc,
                        first,
                    );
                }
            },
        }
    }
}

/// Enumeration fails only for want of bus numbers: at a bridge, and only once the last
/// number has been handed out, or there is none to hand out. That is for config space
/// that answers each read of an identifying register with what the register holds, and
/// without ARI devices or virtual functions.
pub proof fn law_numbers_exhausted(
    responses: Seq<u32>,
    params: AssignmentParams,
    regs: Registers,
)
    ensures
        ({
            let run = enumeration(
                (Trace { responses, pos: 0, log: Seq::empty() }),
                params,
            );
            truthful(run.trace, regs) && never_heard(run.trace, 0, 0x000E) && without_virtual(
                run.trace,
            ) ==> (run.found matches Some(Err(e)) ==> {
                &&& e matches AssignmentError::BusExhaustion { bus, device, function }
                    && is_bridge_header(regs, bus, device as int, function as int)
                &&& params.start_bus >= params.end_bus || exists|n: int|
                    n >= params.end_bus && #[trigger] handed_out(run.trace, n)
            })
        }),
{
    let t = Trace { responses, pos: 0, log: Seq::empty() };
    let p = Place {
        bus: params.start_bus,
        device: 0,
        end_bus: params.end_bus,
        preserve: params.preserve_bars,
    };
    let run = enumeration(t, params);
    lemma_same(run.trace);
    if truthful(run.trace, regs) && never_heard(run.trace, 0, 0x000E) && without_virtual(
        run.trace,
    ) {
        let first = params.start_bus as int;
        lemma_bus_used_up(t, run.trace, regs, p, None, first + 1, Seq::empty(), first);
        if run.found is Some && run.found->0 is Err {
            let n = choose|n: int| n > p.end_bus && #[trigger] used_up(run.trace, first, n);
            if n != first + 1 {
                assert(handed_out(run.trace, n - 1));
            }
        }
    }
}

/// The buses of VFs are taken: no bus number that is left is one of them, or one that
/// was handed out. VFs are refused where the last of their buses is beyond those of the
/// host bridge, or one that was handed out.
pub proof fn law_vf_buses_taken(p: Place, function: u8, max_vf_bus: int, next_bus: int)
    requires
        p.bus < next_bus,
    ensures
        match reserve_vf_buses(p, function, max_vf_bus, next_bus) {
            Ok(after) => {
                &&& next_bus <= after
                &&& max_vf_bus < after
                &&& max_vf_bus <= p.end_bus
                &&& after == next_bus || after == max_vf_bus + 1
                &&& max_vf_bus <= p.bus || next_bus <= max_vf_bus
            },
            Err(AssignmentError::BusExhaustion { bus, device, function: f }) => {
                &&& max_vf_bus > p.end_bus
                &&& bus == p.bus && device == p.device && f == function
            },
            Err(AssignmentError::SriovBusConflict { bus, device, function: f, .. }) => {
                &&& p.bus < max_vf_bus < next_bus
                &&& max_vf_bus <= p.end_bus
                &&& bus == p.bus && device == p.device && f == function
            },
            Err(_) => false,
        },
{
}

/// Whether a bridge was programmed with its bus numbers: its own bus, the one behind it
/// and the last one behind it.
pub open spec fn is_programmed(d: FoundDevice, u: Trace) -> bool {
    exists|k: int|
        #![trigger u.log[k]]
        0 <= k < u.log.len() && match u.log[k] {
            ConfigAccess::Write { bus, offset, value, .. } => {
                &&& bus == d.bus
                &&& offset == 0x18
                &&& value as u8 == d.bus
                &&& Some((value >> 8u32) as u8) == d.secondary_bus
                &&& Some((value >> 16u32) as u8) == d.subordinate_bus
            },
            _ => false,
        }
}

/// Whether every bridge of a tree was programmed with its bus numbers.
pub open spec fn all_programmed(devices: Seq<FoundDevice>, u: Trace) -> bool
    decreases devices,
{
    forall|i: int|
        #![trigger devices[i]]
        0 <= i < devices.len() && devices[i].is_bridge ==> is_programmed(devices[i], u)
            && all_programmed(devices[i].children, u)
}

proof fn lemma_stays_programmed(devices: Seq<FoundDevice>, t: Trace, u: Trace)
    requires
        on_the_way(t, u),
        all_programmed(devices, t),
    ensures
        all_programmed(devices, u),
    decreases devices,
{
    assert forall|i: int|
        #![trigger devices[i]]
        0 <= i < devices.len() && devices[i].is_bridge implies is_programmed(devices[i], u)
        && all_programmed(devices[i].children, u) by {
        let d = devices[i];
        let k = choose|k: int|
            #![trigger t.log[k]]
            0 <= k < t.log.len() && match t.log[k] {
                ConfigAccess::Write { bus, offset, value, .. } => {
                    &&& bus == d.bus
                    &&& offset == 0x18
                    &&& value as u8 == d.bus
                    &&& Some((value >> 8u32) as u8) == d.secondary_bus
                    &&& Some((value >> 16u32) as u8) == d.subordinate_bus
                },
                _ => false,
            };
        assert(u.log.take(t.log.len() as int)[k] == u.log[k]);
        lemma_stays_programmed(d.children, t, u);
    }
}

proof fn lemma_programmed_push(devices: Seq<FoundDevice>, d: FoundDevice, u: Trace)
    requires
        all_programmed(devices, u),
        d.is_bridge ==> is_programmed(d, u) && all_programmed(d.children, u),
    ensures
        all_programmed(devices.push(d), u),
{
    let all = devices.push(d);
    assert forall|i: int|
        #![trigger all[i]]
        0 <= i < all.len() && all[i].is_bridge implies is_programmed(all[i], u) && all_programmed(
        all[i].children,
        u,
    ) by {
        if i < devices.len() {
            assert(all[i] == devices[i]);
        }
    }
}

#[verifier::rlimit(60)]
proof fn lemma_functions_programmed(
    t: Trace,
    p: Place,
    infos: Seq<FuncInfo>,
    k: int,
    next_bus: int,
    acc: Seq<FoundDevice>,
)
    requires
        p.bus < next_bus,
        0 <= k <= infos.len(),
        all_programmed(acc, t),
    ensures
        functions_scan(t, p, infos, k, next_bus, acc).found matches Some(Ok((after, all)))
            ==> all_programmed(all, functions_scan(t, p, infos, k, next_bus, acc).trace) && after
            >= next_bus,
    decreases 256 - p.bus, 2 * (256 - p.device), infos.len() - k,
{
    let whole = functions_scan(t, p, infos, k, next_bus, acc);
    if k < infos.len() && whole.found is Some && whole.found->0 is Ok {
        let info = infos[k];
        let b = bars_probe(t, p.bus, info.devfn, info.is_bridge, p.preserve);
        lemma_bars_probe(t, p.bus, info.devfn, info.is_bridge, p.preserve);
        lemma_stays_programmed(acc, t, b.trace);
        let dev = FoundDevice {
            bus: p.bus,
            device: p.device,
            function: info.func_num,
            is_bridge: info.is_bridge,
            bars: b.found->0,
            children: Seq::empty(),
            secondary_bus: None,
            subordinate_bus: None,
            sriov: None,
            sized: false,
        };
        if info.is_bridge {
            let secondary = next_bus as u8;
            let x = bus_register(p.bus, secondary, p.end_bus);
            let v = b.trace.write(p.bus, info.devfn, TYPE1_LATENCY_BUS_NUMBERS, x);
            lemma_write(b.trace, p.bus, info.devfn, TYPE1_LATENCY_BUS_NUMBERS, x);
            let q = Place { bus: secondary, device: 0, ..p };
            let port = Some((p.bus, info.devfn));
            lemma_bus_scan(v, q, port, next_bus + 1, Seq::empty());
            lemma_bus_programmed(v, q, port, next_bus + 1, Seq::empty());
            let c = bus_scan(v, q, port, next_bus + 1, Seq::empty());
            let (after, children) = c.found->0->Ok_0;
            let subordinate = subordinate_of(after, secondary);
            let y = bus_register(p.bus, secondary, subordinate);
            let w = c.trace.write(p.bus, info.devfn, TYPE1_LATENCY_BUS_NUMBERS, y);
            lemma_write(c.trace, p.bus, info.devfn, TYPE1_LATENCY_BUS_NUMBERS, y);
            let full = FoundDevice {
                children,
                secondary_bus: Some(secondary),
                subordinate_bus: Some(subordinate),
                ..dev
            };
            lemma_way(b.trace, v, c.trace);
            lemma_way(b.trace, c.trace, w);
            lemma_stays_programmed(acc, b.trace, w);
            lemma_stays_programmed(children, c.trace, w);
            lemma_register(p.bus, secondary, subordinate);
            assert(w.log[c.trace.log.len() as int] == w.log.last());
            assert(is_programmed(full, w));
            lemma_programmed_push(acc, full, w);
            lemma_functions_programmed(w, p, infos, k + 1, after, acc.push(full));
        } else {
            let s = sriov_probe(b.trace, p.bus, info.devfn, info.sriov_off, p.preserve);
            lemma_sriov_probe(b.trace, p.bus, info.devfn, info.sriov_off, p.preserve);
            lemma_stays_programmed(acc, b.trace, s.trace);
            match s.found {
                Some(None) => {
                    lemma_programmed_push(acc, dev, s.trace);
                    lemma_functions_programmed(s.trace, p, infos, k + 1, next_bus, acc.push(dev));
                },
                Some(Some(sr)) => {
                    let after = reserve_vf_buses(
                        p,
                        info.func_num,
                        sr.max_vf_bus as int,
                        next_bus,
                    )->Ok_0;
                    let full = FoundDevice {
                        sriov: Some((sr.cap_offset, sr.total_vfs, sr.vf_bars)),
                        ..dev
                    };
                    lemma_programmed_push(acc, full, s.trace);
                    lemma_functions_programmed(s.trace, p, infos, k + 1, after, acc.push(full));
                },
                None => {},
            }
        }
    }
}

#[verifier::rlimit(60)]
proof fn lemma_bus_programmed(
    t: Trace,
    p: Place,
    port: Option<(u8, u8)>,
    next_bus: int,
    acc: Seq<FoundDevice>,
)
    requires
        p.bus < next_bus,
        all_programmed(acc, t),
    ensures
        bus_scan(t, p, port, next_bus, acc).found matches Some(Ok((after, all)))
            ==> all_programmed(all, bus_scan(t, p, port, next_bus, acc).trace) && after
            >= next_bus,
    decreases 256 - p.bus, 2 * (256 - p.device) + 1, 0int,
{
    let whole = bus_scan(t, p, port, next_bus, acc);
    if whole.found is Some && whole.found->0 is Ok && p.device < 32 {
        let np = Place { device: (p.device + 1) as u8, ..p };
        let d = detect(t, p.bus, p.device, port);
        lemma_detect(t, p.bus, p.device, port);
        lemma_stays_programmed(acc, t, d.trace);
        match d.found {
            None => {},
            Some(None) => {
                lemma_bus_programmed(d.trace, np, port, next_bus, acc);
            },
            Some(Some(fs)) => {
                let r = functions_scan(d.trace, p, fs.infos, 0, next_bus, acc);
                lemma_functions_programmed(d.trace, p, fs.infos, 0, next_bus, acc);
                let (after, all) = r.found->0->Ok_0;
                if !fs.ari_forwarding {
                    lemma_bus_programmed(r.trace, np, port, after, all);
                }
            },
        }
    }
}

/// Every bridge that enumeration finds is programmed with the bus numbers that it is
/// found with.
pub proof fn law_bridges_programmed(responses: Seq<u32>, params: AssignmentParams)
    ensures
        ({
            let run = enumeration(
                (Trace { responses, pos: 0, log: Seq::empty() }),
                params,
            );
            run.found matches Some(Ok((_, all))) ==> all_programmed(all, run.trace)
        }),
{
    let t = Trace { responses, pos: 0, log: Seq::empty() };
    let p = Place {
        bus: params.start_bus,
        device: 0,
        end_bus: params.end_bus,
        preserve: params.preserve_bars,
    };
    lemma_bus_programmed(t, p, None, params.start_bus + 1, Seq::empty());
}

}
