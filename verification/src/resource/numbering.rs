//! Bus numbers: what enumeration hands out.
use crate::regs::TYPE1_LATENCY_BUS_NUMBERS;
use crate::resource::enumerate::detect;
use crate::resource::enumerate::FuncInfo;
use crate::resource::params::AssignmentParams;
use crate::resource::probe::bars_probe;
use crate::resource::probe::sriov_probe;
use crate::resource::scan::bus_register;
use crate::resource::scan::bus_scan;
use crate::resource::scan::enumeration;
use crate::resource::scan::functions_scan;
use crate::resource::scan::reserve_vf_buses;
use crate::resource::scan::subordinate_of;
use crate::resource::scan::FoundDevice;
use crate::resource::scan::Place;
use crate::resource::session::Trace;
use vstd::prelude::*;

verus! {

/// Whether the devices of a bus have its number, its bridges have bus numbers
/// from `lo` up to but not including `hi`, each bridge those behind it within
/// its own, and no two bridges one in common.
pub open spec fn numbered(devices: Seq<FoundDevice>, bus: u8, lo: int, hi: int) -> bool
    decreases devices,
{
    &&& forall|i: int|
        #![trigger devices[i]]
        0 <= i < devices.len() ==> {
            &&& devices[i].bus == bus
            &&& devices[i].is_bridge ==> {
                &&& devices[i].secondary_bus is Some
                &&& devices[i].subordinate_bus is Some
                &&& lo <= devices[i].secondary_bus->0 <= devices[i].subordinate_bus->0 < hi
                &&& bus < devices[i].secondary_bus->0
                &&& numbered(
                    devices[i].children,
                    devices[i].secondary_bus->0,
                    devices[i].secondary_bus->0 + 1,
                    devices[i].subordinate_bus->0 + 1,
                )
            }
        }
    &&& forall|i: int, j: int|
        #![trigger devices[i], devices[j]]
        0 <= i < j < devices.len() && devices[i].is_bridge && devices[j].is_bridge
            ==> devices[i].subordinate_bus->0 < devices[j].secondary_bus->0
}

proof fn lemma_numbered_push(
    devices: Seq<FoundDevice>,
    d: FoundDevice,
    bus: u8,
    lo: int,
    mid: int,
    hi: int,
)
    requires
        numbered(devices, bus, lo, mid),
        lo <= mid <= hi,
        d.bus == bus,
        d.is_bridge ==> {
            &&& d.secondary_bus is Some
            &&& d.subordinate_bus is Some
            &&& mid <= d.secondary_bus->0 <= d.subordinate_bus->0 < hi
            &&& bus < d.secondary_bus->0
            &&& numbered(
                d.children,
                d.secondary_bus->0,
                d.secondary_bus->0 + 1,
                d.subordinate_bus->0 + 1,
            )
        },
    ensures
        numbered(devices.push(d), bus, lo, hi),
{
    let all = devices.push(d);
    assert forall|i: int| #![trigger all[i]] 0 <= i < all.len() implies {
        &&& all[i].bus == bus
        &&& all[i].is_bridge ==> {
            &&& all[i].secondary_bus is Some
            &&& all[i].subordinate_bus is Some
            &&& lo <= all[i].secondary_bus->0 <= all[i].subordinate_bus->0 < hi
            &&& bus < all[i].secondary_bus->0
            &&& numbered(
                all[i].children,
                all[i].secondary_bus->0,
                all[i].secondary_bus->0 + 1,
                all[i].subordinate_bus->0 + 1,
            )
        }
    } by {
        if i < devices.len() {
            assert(all[i] == devices[i]);
        }
    }
    assert forall|i: int, j: int|
        #![trigger all[i], all[j]]
        0 <= i < j < all.len() && all[i].is_bridge
            && all[j].is_bridge implies all[i].subordinate_bus->0 < all[j].secondary_bus->0 by {
        assert(all[i] == devices[i]);
        if j < devices.len() {
            assert(all[j] == devices[j]);
        }
    }
}

#[verifier::rlimit(40)]
proof fn lemma_functions_numbered(
    t: Trace,
    p: Place,
    infos: Seq<FuncInfo>,
    k: int,
    next_bus: int,
    acc: Seq<FoundDevice>,
    lo: int,
)
    requires
        p.bus < lo <= next_bus,
        numbered(acc, p.bus, lo, next_bus),
    ensures
        functions_scan(t, p, infos, k, next_bus, acc).found matches Some(Ok((after, all)))
            ==> numbered(all, p.bus, lo, after) && next_bus <= after && (after == next_bus || after
            <= p.end_bus + 1),
    decreases 256 - p.bus, 2 * (256 - p.device), infos.len() - k,
{
    if !(k < 0 || k >= infos.len()) {
        let info = infos[k];
        let b = bars_probe(t, p.bus, info.devfn, info.is_bridge, p.preserve);
        if let Some(bars) = b.found {
            let dev = FoundDevice {
                bus: p.bus,
                device: p.device,
                function: info.func_num,
                is_bridge: info.is_bridge,
                bars,
                children: Seq::empty(),
                secondary_bus: None,
                subordinate_bus: None,
                sriov: None,
                sized: false,
            };
            if info.is_bridge {
                if next_bus <= p.end_bus {
                    let secondary = next_bus as u8;
                    let v = b.trace.write(
                        p.bus,
                        info.devfn,
                        TYPE1_LATENCY_BUS_NUMBERS,
                        bus_register(p.bus, secondary, p.end_bus),
                    );
                    let q = Place { bus: secondary, device: 0, ..p };
                    let port = Some((p.bus, info.devfn));
                    law_scan_numbered(v, q, port, next_bus + 1, Seq::empty(), next_bus + 1);
                    let c = bus_scan(v, q, port, next_bus + 1, Seq::empty());
                    if let Some(Ok((after, children))) = c.found {
                        let subordinate = subordinate_of(after, secondary);
                        assert(subordinate == after - 1);
                        let full = FoundDevice {
                            children,
                            secondary_bus: Some(secondary),
                            subordinate_bus: Some(subordinate),
                            ..dev
                        };
                        lemma_numbered_push(acc, full, p.bus, lo, next_bus, after);
                        lemma_functions_numbered(
                            c.trace.write(
                                p.bus,
                                info.devfn,
                                TYPE1_LATENCY_BUS_NUMBERS,
                                bus_register(p.bus, secondary, subordinate),
                            ),
                            p,
                            infos,
                            k + 1,
                            after,
                            acc.push(full),
                            lo,
                        );
                    }
                }
            } else {
                let s = sriov_probe(b.trace, p.bus, info.devfn, info.sriov_off, p.preserve);
                match s.found {
                    Some(None) => {
                        lemma_numbered_push(acc, dev, p.bus, lo, next_bus, next_bus);
                        lemma_functions_numbered(
                            s.trace,
                            p,
                            infos,
                            k + 1,
                            next_bus,
                            acc.push(dev),
                            lo,
                        );
                    },
                    Some(Some(sr)) => {
                        if let Ok(after) = reserve_vf_buses(
                            p,
                            info.func_num,
                            sr.max_vf_bus as int,
                            next_bus,
                        ) {
                            let full = FoundDevice {
                                sriov: Some((sr.cap_offset, sr.total_vfs, sr.vf_bars)),
                                ..dev
                            };
                            lemma_numbered_push(acc, full, p.bus, lo, next_bus, after);
                            lemma_functions_numbered(
                                s.trace,
                                p,
                                infos,
                                k + 1,
                                after,
                                acc.push(full),
                                lo,
                            );
                        }
                    },
                    None => {},
                }
            }
        }
    }
}

/// Every scan of a bus numbers as it goes on: whatever device it starts at and
/// whatever was found before, the bridges it finds get bus numbers that were not
/// handed out, each bridge holds the numbers of those behind it, and no two bridges
/// of a bus have one in common.
pub proof fn law_scan_numbered(
    t: Trace,
    p: Place,
    port: Option<(u8, u8)>,
    next_bus: int,
    acc: Seq<FoundDevice>,
    lo: int,
)
    requires
        p.bus < lo <= next_bus,
        numbered(acc, p.bus, lo, next_bus),
    ensures
        bus_scan(t, p, port, next_bus, acc).found matches Some(Ok((after, all))) ==> numbered(
            all,
            p.bus,
            lo,
            after,
        ) && next_bus <= after && (after == next_bus || after <= p.end_bus + 1),
    decreases 256 - p.bus, 2 * (256 - p.device) + 1, 0int,
{
    if p.device < 32 {
        let np = Place { device: (p.device + 1) as u8, ..p };
        let d = detect(t, p.bus, p.device, port);
        match d.found {
            None => {},
            Some(None) => {
                law_scan_numbered(d.trace, np, port, next_bus, acc, lo);
            },
            Some(Some(fs)) => {
                lemma_functions_numbered(d.trace, p, fs.infos, 0, next_bus, acc, lo);
                let r = functions_scan(d.trace, p, fs.infos, 0, next_bus, acc);
                if let Some(Ok((after, all))) = r.found {
                    law_scan_numbered(r.trace, np, port, after, all, lo);
                }
            },
        }
    }
}

/// Enumeration hands out bus numbers behind the first bus and up to the last
/// one, without a bus that two bridges share, and each bridge's numbers hold
/// those of the bridges behind it.
pub proof fn law_bus_numbers(responses: Seq<u32>, params: AssignmentParams)
    ensures
        enumeration(
            (Trace { responses, pos: 0, log: Seq::empty() }),
            params,
        ).found matches Some(Ok((after, all))) ==> numbered(
            all,
            params.start_bus,
            params.start_bus + 1,
            after,
        ) && (after == params.start_bus + 1 || after <= params.end_bus + 1),
{
    law_scan_numbered(
        Trace { responses, pos: 0, log: Seq::empty() },
        Place {
            bus: params.start_bus,
            device: 0,
            end_bus: params.end_bus,
            preserve: params.preserve_bars,
        },
        None,
        params.start_bus + 1,
        Seq::empty(),
        params.start_bus + 1,
    );
}

}
