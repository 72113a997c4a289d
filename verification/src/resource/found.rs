//! What holds of the devices that enumeration finds.
use crate::regs::BAR0;
use crate::regs::BIST_HEADER;
use crate::regs::COMMAND_MMIO_ENABLED;
use crate::regs::DEVICE_VENDOR;
use crate::regs::EXT_CAP_ID_ARI;
use crate::regs::EXT_CAP_ID_SRIOV;
use crate::regs::EXT_CAP_START;
use crate::regs::SRIOV_INITIAL_TOTAL_VFS;
use crate::regs::SRIOV_VF_BAR0;
use crate::regs::SRIOV_VF_OFFSET_STRIDE;
use crate::regs::STATUS_COMMAND;
use crate::regs::TYPE1_LATENCY_BUS_NUMBERS;
use crate::resource::align::is_pow2;
use crate::resource::assign::assignments_valid;
use crate::resource::assign::device_valid;
use crate::resource::device::bar_agrees;
use crate::resource::device::bar_mem64;
use crate::resource::device::bar_ok;
use crate::resource::device::device_agrees;
use crate::resource::device::device_ok;
use crate::resource::device::distinct_bars;
use crate::resource::device::full_scope;
use crate::resource::device::mem64_kind;
use crate::resource::device::tree_agrees;
use crate::resource::device::tree_ok;
use crate::resource::device::DiscoveredBar;
use crate::resource::device::DiscoveredDevice;
use crate::resource::enumerate::detect;
use crate::resource::enumerate::function_info;
use crate::resource::enumerate::function_numbers;
use crate::resource::enumerate::infos_ok;
use crate::resource::enumerate::infos_walk;
use crate::resource::enumerate::is_multi_function;
use crate::resource::enumerate::port_forwarding;
use crate::resource::enumerate::FuncInfo;
use crate::resource::params::AssignmentParams;
use crate::resource::probe::bars_probe;
use crate::resource::probe::probe_one;
use crate::resource::probe::probe_walk;
use crate::resource::probe::sriov_probe;
use crate::resource::program::bars_programmable;
use crate::resource::program::devfn_of;
use crate::resource::program::programmable;
use crate::resource::scan::bus_register;
use crate::resource::scan::bus_scan;
use crate::resource::scan::enumeration;
use crate::resource::scan::functions_scan;
use crate::resource::scan::list_model;
use crate::resource::scan::reserve_vf_buses;
use crate::resource::scan::subordinate_of;
use crate::resource::scan::FoundDevice;
use crate::resource::scan::Place;
use crate::resource::session::found;
use crate::resource::session::Trace;
use crate::resource::walk::ext_cap;
use crate::resource::walk::lemma_ext_cap_bound;
use vstd::prelude::*;

verus! {

/// Whether BARs are as a probe finds them: by increasing index, of some size, and
/// without an address. Only where addresses are preserved is a BAR pinned.
pub open spec fn bars_found(bars: Seq<DiscoveredBar>, preserve: bool) -> bool {
    &&& forall|i: int|
        #![trigger bars[i]]
        0 <= i < bars.len() ==> {
            &&& bars[i].index < 6
            &&& bars[i].size > 0
            &&& bars[i].address is None
            &&& bars[i].pinned_address is Some ==> preserve
        }
    &&& forall|i: int, j: int|
        #![trigger bars[i], bars[j]]
        0 <= i < j < bars.len() ==> bars[i].index < bars[j].index
}

/// Whether one device is as enumeration finds it, those behind it left aside: only
/// a bridge has devices behind it, only a function that is no bridge has VFs, and
/// nothing is sized.
pub open spec fn device_found(d: FoundDevice, preserve: bool) -> bool {
    &&& !d.is_bridge ==> d.children.len() == 0
    &&& d.is_bridge ==> d.sriov is None
    &&& !d.sized
    &&& bars_found(d.bars, preserve)
    &&& d.sriov matches Some((offset, vfs, vf_bars)) ==> {
        &&& offset <= 0xFFC
        &&& vfs > 0
        &&& bars_found(vf_bars, preserve)
    }
}

/// Whether devices are as enumeration finds them.
pub open spec fn devices_found(devices: Seq<FoundDevice>, preserve: bool) -> bool
    decreases devices,
{
    forall|i: int|
        #![trigger devices[i]]
        0 <= i < devices.len() ==> device_found(devices[i], preserve) && devices_found(
            devices[i].children,
            preserve,
        )
}

/// Whether all BARs come before a register.
spec fn bars_below(bars: Seq<DiscoveredBar>, i: int) -> bool {
    forall|j: int| #![trigger bars[j]] 0 <= j < bars.len() ==> bars[j].index < i
}

proof fn lemma_probe_walk(
    t: Trace,
    bus: u8,
    devfn: u8,
    base: u16,
    max_bars: u8,
    preserve: bool,
    i: u8,
    bars: Seq<DiscoveredBar>,
)
    requires
        i < 8,
        max_bars <= 6,
        bars_found(bars, preserve),
        bars_below(bars, i as int),
    ensures
        probe_walk(t, bus, devfn, base, max_bars, preserve, i, bars).found matches Some(all)
            ==> bars_found(all, preserve),
    decreases 8 - i,
{
    if i < max_bars {
        let p = probe_one(t, bus, devfn, base, max_bars, preserve, i);
        if let Some(probed) = p.found {
            let next = match probed.bar {
                Some(bar) => bars.push(bar),
                None => bars,
            };
            assert(i < probed.next < 8);
            assert(bars_found(next, preserve) && bars_below(next, probed.next as int)) by {
                if let Some(bar) = probed.bar {
                    assert(bar.index == i);
                    assert(bar.size > 0);
                }
            }
            lemma_probe_walk(p.trace, bus, devfn, base, max_bars, preserve, probed.next, next);
        }
    }
}

proof fn lemma_infos_walk(
    t: Trace,
    bus: u8,
    device: u8,
    header0: u32,
    list: Seq<u8>,
    k: int,
    infos: Seq<FuncInfo>,
)
    requires
        infos_ok(infos),
    ensures
        infos_walk(t, bus, device, header0, list, k, infos).found matches Some(all)
            ==> infos_ok(all),
    decreases list.len() - k,
{
    if !(k < 0 || k >= list.len()) {
        let i = function_info(t, bus, device, header0, list[k]);
        if let Some(info) = i.found {
            let devfn = devfn_of(device, list[k]);
            let h = if list[k] == 0 {
                found(t, header0)
            } else {
                t.read(bus, devfn, BIST_HEADER)
            };
            lemma_ext_cap_bound(h.trace, bus, devfn, EXT_CAP_ID_SRIOV, EXT_CAP_START);
            lemma_infos_walk(i.trace, bus, device, header0, list, k + 1, infos.push(info));
        }
    }
}

proof fn lemma_detect(t: Trace, bus: u8, device: u8, port: Option<(u8, u8)>)
    ensures
        detect(t, bus, device, port).found matches Some(Some(fs)) ==> infos_ok(fs.infos),
{
    let df0 = devfn_of(device, 0);
    let v = t.read(bus, df0, DEVICE_VENDOR);
    let b = v.trace.read(bus, df0, BIST_HEADER);
    let header0 = b.found->0;
    let a = if device == 0 {
        ext_cap(b.trace, bus, df0, EXT_CAP_ID_ARI)
    } else {
        found(b.trace, None)
    };
    let e = port_forwarding(a.trace, port, a.found->0 is Some);
    let l = function_numbers(
        e.trace,
        bus,
        device,
        a.found->0 is Some,
        is_multi_function(header0),
    );
    lemma_infos_walk(l.trace, bus, device, header0, l.found->0, 0, Seq::empty());
}

proof fn lemma_found_push(devices: Seq<FoundDevice>, d: FoundDevice, preserve: bool)
    requires
        devices_found(devices, preserve),
        device_found(d, preserve),
        devices_found(d.children, preserve),
    ensures
        devices_found(devices.push(d), preserve),
{
    let all = devices.push(d);
    assert forall|i: int| #![trigger all[i]] 0 <= i < all.len() implies device_found(
        all[i],
        preserve,
    ) && devices_found(all[i].children, preserve) by {
        if i < devices.len() {
            assert(all[i] == devices[i]);
        }
    }
}

#[verifier::rlimit(40)]
proof fn lemma_functions_found(
    t: Trace,
    p: Place,
    infos: Seq<FuncInfo>,
    k: int,
    next_bus: int,
    acc: Seq<FoundDevice>,
)
    requires
        p.bus < next_bus,
        infos_ok(infos),
        devices_found(acc, p.preserve),
    ensures
        functions_scan(t, p, infos, k, next_bus, acc).found matches Some(Ok((after, all)))
            ==> devices_found(all, p.preserve) && next_bus <= after,
    decreases 256 - p.bus, 2 * (256 - p.device), infos.len() - k,
{
    if !(k < 0 || k >= infos.len()) {
        let info = infos[k];
        let b = bars_probe(t, p.bus, info.devfn, info.is_bridge, p.preserve);
        lemma_bars_probe(t, p.bus, info.devfn, info.is_bridge, p.preserve);
        if let Some(bars) = b.found {
            let dev = FoundDevice {
                bus: p.bus,
                device: p.device,
                function: info.func_num,
                is_bridge: info.is_bridge,
                bars,
                children: Seq::empty(),
                secondary_bus: None,
                subordinate_bus: None,
                sriov: None,
                sized: false,
            };
            if info.is_bridge {
                if next_bus <= p.end_bus {
                    let secondary = next_bus as u8;
                    let v = b.trace.write(
                        p.bus,
                        info.devfn,
                        TYPE1_LATENCY_BUS_NUMBERS,
                        bus_register(p.bus, secondary, p.end_bus),
                    );
                    let q = Place { bus: secondary, device: 0, ..p };
                    let port = Some((p.bus, info.devfn));
                    lemma_bus_found(v, q, port, next_bus + 1, Seq::empty());
                    let c = bus_scan(v, q, port, next_bus + 1, Seq::empty());
                    if let Some(Ok((after, children))) = c.found {
                        let subordinate = subordinate_of(after, secondary);
                        let full = FoundDevice {
                            children,
                            secondary_bus: Some(secondary),
                            subordinate_bus: Some(subordinate),
                            ..dev
                        };
                        lemma_found_push(acc, full, p.preserve);
                        lemma_functions_found(
                            c.trace.write(
                                p.bus,
                                info.devfn,
                                TYPE1_LATENCY_BUS_NUMBERS,
                                bus_register(p.bus, secondary, subordinate),
                            ),
                            p,
                            infos,
                            k + 1,
                            after,
                            acc.push(full),
                        );
                    }
                }
            } else {
                let s = sriov_probe(b.trace, p.bus, info.devfn, info.sriov_off, p.preserve);
                lemma_sriov_probe(b.trace, p.bus, info.devfn, info.sriov_off, p.preserve);
                match s.found {
                    Some(None) => {
                        lemma_found_push(acc, dev, p.preserve);
                        lemma_functions_found(s.trace, p, infos, k + 1, next_bus, acc.push(dev));
                    },
                    Some(Some(sr)) => {
                        if let Ok(after) = reserve_vf_buses(
                            p,
                            info.func_num,
                            sr.max_vf_bus as int,
                            next_bus,
                        ) {
                            let full = FoundDevice {
                                sriov: Some((sr.cap_offset, sr.total_vfs, sr.vf_bars)),
                                ..dev
                            };
                            lemma_found_push(acc, full, p.preserve);
                            lemma_functions_found(s.trace, p, infos, k + 1, after, acc.push(full));
                        }
                    },
                    None => {},
                }
            }
        }
    }
}

proof fn lemma_bars_probe(t: Trace, bus: u8, devfn: u8, is_bridge: bool, preserve: bool)
    ensures
        bars_probe(t, bus, devfn, is_bridge, preserve).found matches Some(bars) ==> bars_found(
            bars,
            preserve,
        ),
{
    let c = t.read(bus, devfn, STATUS_COMMAND);
    let cmd = c.found->0;
    let off = if (cmd as u16) & COMMAND_MMIO_ENABLED != 0 {
        c.trace.write(
            bus,
            devfn,
            STATUS_COMMAND,
            ((cmd as u16) & !COMMAND_MMIO_ENABLED) as u32,
        )
    } else {
        c.trace
    };
    let max: u8 = if is_bridge {
        2
    } else {
        6
    };
    lemma_probe_walk(off, bus, devfn, BAR0, max, preserve, 0, Seq::empty());
}

proof fn lemma_sriov_probe(
    t: Trace,
    bus: u8,
    devfn: u8,
    sriov_offset: Option<u16>,
    preserve: bool,
)
    ensures
        sriov_probe(t, bus, devfn, sriov_offset, preserve).found matches Some(Some(sr)) ==> {
            &&& sriov_offset == Some(sr.cap_offset)
            &&& sr.total_vfs > 0
            &&& bars_found(sr.vf_bars, preserve)
        },
{
    if let Some(offset) = sriov_offset {
        let n = t.read(bus, devfn, (offset + SRIOV_INITIAL_TOTAL_VFS) as u16);
        let os = n.trace.read(bus, devfn, (offset + SRIOV_VF_OFFSET_STRIDE) as u16);
        lemma_probe_walk(
            os.trace,
            bus,
            devfn,
            (offset + SRIOV_VF_BAR0) as u16,
            6,
            preserve,
            0,
            Seq::empty(),
        );
    }
}

proof fn lemma_bus_found(
    t: Trace,
    p: Place,
    port: Option<(u8, u8)>,
    next_bus: int,
    acc: Seq<FoundDevice>,
)
    requires
        p.bus < next_bus,
        devices_found(acc, p.preserve),
    ensures
        bus_scan(t, p, port, next_bus, acc).found matches Some(Ok((after, all)))
            ==> devices_found(all, p.preserve) && next_bus <= after,
    decreases 256 - p.bus, 2 * (256 - p.device) + 1, 0int,
{
    if p.device < 32 {
        let np = Place { device: (p.device + 1) as u8, ..p };
        let d = detect(t, p.bus, p.device, port);
        lemma_detect(t, p.bus, p.device, port);
        match d.found {
            None => {},
            Some(None) => {
                lemma_bus_found(d.trace, np, port, next_bus, acc);
            },
            Some(Some(fs)) => {
                lemma_functions_found(d.trace, p, fs.infos, 0, next_bus, acc);
                let r = functions_scan(d.trace, p, fs.infos, 0, next_bus, acc);
                if let Some(Ok((after, all))) = r.found {
                    lemma_bus_found(r.trace, np, port, after, all);
                }
            },
        }
    }
}

/// Whatever config space answers, enumeration finds BARs by increasing index
/// without addresses, devices behind bridges alone, and VFs of endpoints alone.
/// BARs are pinned only where addresses are to be preserved.
pub proof fn law_devices_found(responses: Seq<u32>, params: AssignmentParams)
    ensures
        enumeration(
            (Trace { responses, pos: 0, log: Seq::empty() }),
            params,
        ).found matches Some(Ok((_, all))) ==> devices_found(all, params.preserve_bars),
{
    lemma_bus_found(
        Trace { responses, pos: 0, log: Seq::empty() },
        Place {
            bus: params.start_bus,
            device: 0,
            end_bus: params.end_bus,
            preserve: params.preserve_bars,
        },
        None,
        params.start_bus + 1,
        Seq::empty(),
    );
}

/// One device as enumeration finds it.
spec fn device_model(d: DiscoveredDevice) -> FoundDevice {
    FoundDevice {
        bus: d.bus,
        device: d.device,
        function: d.function,
        is_bridge: d.is_bridge,
        bars: d.bars@,
        children: list_model(d.children@),
        secondary_bus: d.secondary_bus,
        subordinate_bus: d.subordinate_bus,
        sriov: match d.sriov {
            Some(s) => Some((s.cap_offset, s.total_vfs, s.vf_bars@)),
            None => None,
        },
        sized: d.subtree_req is Some,
    }
}

proof fn lemma_list_model(devices: Seq<DiscoveredDevice>)
    ensures
        list_model(devices).len() == devices.len(),
        forall|i: int|
            0 <= i < devices.len() ==> #[trigger] list_model(devices)[i] == device_model(
                devices[i],
            ),
    decreases devices.len(),
{
    if devices.len() > 0 {
        lemma_list_model(devices.drop_last());
        assert forall|i: int| 0 <= i < devices.len() implies #[trigger] list_model(devices)[i]
            == device_model(devices[i]) by {
            if i < devices.len() - 1 {
                assert(list_model(devices.drop_last())[i] == device_model(devices.drop_last()[i]));
            }
        }
    }
}

/// Whether all BARs can be placed by their sizes, here and behind each bridge: a
/// pinned one ends within the address space, any other has a power of two for its
/// size.
pub open spec fn sizes_regular(devices: Seq<DiscoveredDevice>) -> bool
    decreases devices,
{
    forall|i: int|
        #![trigger devices[i]]
        0 <= i < devices.len() ==> {
            &&& forall|j: int|
                0 <= j < devices[i].bars@.len() ==> bar_ok(#[trigger] devices[i].bars@[j])
            &&& devices[i].sriov matches Some(sriov) ==> forall|j: int|
                0 <= j < sriov.vf_bars@.len() ==> is_pow2(
                    (#[trigger] sriov.vf_bars@[j]).size as int,
                )
            &&& sizes_regular(devices[i].children@)
        }
}

/// What enumeration finds is in order for the assignment, as long as the sizes are.
pub proof fn law_found_in_order(devices: Seq<DiscoveredDevice>, preserve: bool)
    requires
        devices_found(list_model(devices), preserve),
        sizes_regular(devices),
    ensures
        tree_ok(devices),
    decreases devices,
{
    lemma_list_model(devices);
    assert forall|i: int| #![trigger devices[i]] 0 <= i < devices.len() implies device_ok(
        devices[i],
    ) && tree_ok(devices[i].children@) by {
        let d = devices[i];
        let f = list_model(devices)[i];
        assert(f == device_model(d));
        assert(device_found(f, preserve));
        lemma_list_model(d.children@);
        assert(decreases_to!(devices => devices[i].children@));
        law_found_in_order(d.children@, preserve);
        assert(distinct_bars(d.bars@)) by {
            assert(f.bars == d.bars@);
        }
        if let Some(sriov) = d.sriov {
            assert(bars_found(sriov.vf_bars@, preserve));
            assert(distinct_bars(sriov.vf_bars@));
        }
    }
}

/// What enumeration finds can be programmed once all of it has valid addresses.
pub proof fn law_found_programmable(
    devices: Seq<DiscoveredDevice>,
    after: Seq<DiscoveredDevice>,
    params: AssignmentParams,
    preserve: bool,
)
    requires
        devices_found(list_model(devices), preserve),
        tree_agrees(devices, after, full_scope()),
        assignments_valid(after, params),
    ensures
        programmable(after),
    decreases devices,
{
    lemma_list_model(devices);
    assert forall|i: int| #![trigger after[i]] 0 <= i < after.len() implies {
        &&& bars_programmable(BAR0 as int, after[i].bars@)
        &&& after[i].sriov is Some ==> bars_programmable(
            after[i].sriov->0.cap_offset + SRIOV_VF_BAR0,
            after[i].sriov->0.vf_bars@,
        ) && after[i].sriov->0.cap_offset + SRIOV_VF_BAR0 <= u16::MAX
        &&& programmable(after[i].children@)
    } by {
        let d = devices[i];
        let e = after[i];
        let f = list_model(devices)[i];
        assert(f == device_model(d));
        assert(device_found(f, preserve));
        assert(device_agrees(d, e, full_scope()));
        assert(device_valid(e, params));
        assert(decreases_to!(devices => devices[i].children@));
        law_found_programmable(d.children@, e.children@, params, preserve);
        assert forall|j: int| #![trigger e.bars@[j]] 0 <= j < e.bars@.len() implies
            e.bars@[j].address is Some && BAR0 + e.bars@[j].index * 4 + 4 <= u16::MAX by {
            assert(bar_agrees(d.bars@[j], e.bars@[j], bar_mem64(d.bars@[j]), full_scope()));
            assert(f.bars[j].index < 6);
        }
        if e.sriov is Some {
            let x = d.sriov->0;
            let y = e.sriov->0;
            assert(bars_found(x.vf_bars@, preserve));
            assert forall|j: int| #![trigger y.vf_bars@[j]] 0 <= j < y.vf_bars@.len() implies
                y.vf_bars@[j].address is Some && y.cap_offset + SRIOV_VF_BAR0
                + y.vf_bars@[j].index * 4 + 4 <= u16::MAX by {
                assert(bar_agrees(
                    x.vf_bars@[j],
                    y.vf_bars@[j],
                    mem64_kind(x.vf_bars@[j]),
                    full_scope(),
                ));
                assert(x.vf_bars@[j].index < 6);
            }
        }
    }
}

}
