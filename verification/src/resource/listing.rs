//! Enumeration finds the functions that there are, and no others.
use crate::regs::BIST_HEADER;
use crate::regs::DEVICE_VENDOR;
use crate::regs::EXT_CAP_ID_ARI;
use crate::regs::EXT_CAP_ID_SIOV;
use crate::regs::EXT_CAP_ID_SRIOV;
use crate::regs::EXT_CAP_START;
use crate::regs::TYPE1_LATENCY_BUS_NUMBERS;
use crate::resource::enumerate::detect;
use crate::resource::enumerate::finish_functions;
use crate::resource::enumerate::function_info;
use crate::resource::enumerate::function_numbers;
use crate::resource::enumerate::functions_walk;
use crate::resource::enumerate::infos_walk;
use crate::resource::enumerate::is_multi_function;
use crate::resource::enumerate::port_forwarding;
use crate::resource::enumerate::FuncInfo;
use crate::resource::hearing::all_answered;
use crate::resource::hearing::lemma_bars_probe;
use crate::resource::hearing::lemma_bus_scan;
use crate::resource::hearing::lemma_detect;
use crate::resource::hearing::lemma_ext_cap_walk;
use crate::resource::hearing::lemma_finish_functions;
use crate::resource::hearing::lemma_function_info;
use crate::resource::hearing::lemma_functions_scan;
use crate::resource::hearing::lemma_functions_walk;
use crate::resource::hearing::lemma_heard;
use crate::resource::hearing::lemma_infos_walk;
use crate::resource::hearing::lemma_not_found;
use crate::resource::hearing::lemma_port_forwarding;
use crate::resource::hearing::lemma_read;
use crate::resource::hearing::lemma_same;
use crate::resource::hearing::lemma_sriov_probe;
use crate::resource::hearing::lemma_way;
use crate::resource::hearing::lemma_write;
use crate::resource::hearing::never_heard;
use crate::resource::hearing::on_the_way;
use crate::resource::hearing::reads_in;
use crate::resource::hearing::truthful;
use crate::resource::hearing::without_virtual;
use crate::resource::hearing::Registers;
use crate::resource::params::AssignmentParams;
use crate::resource::probe::bars_probe;
use crate::resource::probe::sriov_probe;
use crate::resource::program::devfn_of;
use crate::resource::scan::bus_register;
use crate::resource::scan::bus_scan;
use crate::resource::scan::enumeration;
use crate::resource::scan::functions_scan;
use crate::resource::scan::reserve_vf_buses;
use crate::resource::scan::subordinate_of;
use crate::resource::scan::FoundDevice;
use crate::resource::scan::Place;
use crate::resource::session::found;
use crate::resource::session::Trace;
use crate::resource::walk::ext_cap;
use vstd::prelude::*;

verus! {

/// The config space byte of a function: five bits of device number, three of function
/// number.
pub open spec fn selector(device: int, function: int) -> u8 {
    (8 * device + function) as u8
}

/// Device and function numbers select as the byte of both does.
pub proof fn lemma_selector(device: u8, function: u8)
    requires
        device < 32,
        function < 8,
    ensures
        devfn_of(device, function) == selector(device as int, function as int),
{
    assert((device << 3u8) | function == 8 * device + function) by (bit_vector)
        requires
            device < 32,
            function < 8,
    ;
}

/// Whether a device answers at all: the vendor register of its function 0 does not read
/// as all ones.
pub open spec fn is_there(regs: Registers, bus: u8, device: int) -> bool {
    0 <= device < 32 && regs(bus, selector(device, 0), 0x00) != 0xFFFF_FFFF
}

/// Whether a function is there: function 0 if the device is; another one if besides
/// the header of function 0 says that there are several functions, and its own vendor
/// register does not read as all ones.
pub open spec fn is_present(regs: Registers, bus: u8, device: int, function: int) -> bool {
    &&& is_there(regs, bus, device)
    &&& 0 <= function < 8
    &&& function == 0 || (regs(bus, selector(device, 0), 0x0C) & 0x80_0000 != 0 && regs(
        bus,
        selector(device, function),
        0x00,
    ) != 0xFFFF_FFFF)
}

/// Whether the header of a function is that of a bridge: of type 1.
pub open spec fn is_bridge_header(regs: Registers, bus: u8, device: int, function: int) -> bool {
    (regs(bus, selector(device, function), 0x0C) >> 16u32) & 0x7F == 1
}

/// Whether a list of function numbers is that of the functions of a device that are
/// there: by increasing number, all of them and no others.
pub open spec fn lists_functions(list: Seq<u8>, regs: Registers, bus: u8, device: int) -> bool {
    &&& forall|i: int|
        #![trigger list[i]]
        0 <= i < list.len() ==> is_present(regs, bus, device, list[i] as int)
    &&& forall|i: int, j: int|
        #![trigger list[i], list[j]]
        0 <= i < j < list.len() ==> list[i] < list[j]
    &&& forall|f: u8| is_present(regs, bus, device, f as int) ==> #[trigger] list.contains(f)
}

proof fn lemma_listed(
    t: Trace,
    u: Trace,
    regs: Registers,
    bus: u8,
    device: u8,
    f: u8,
    list: Seq<u8>,
)
    requires
        device < 32,
        1 <= f <= 8,
        all_answered(t),
        truthful(u, regs),
        on_the_way(functions_walk(t, bus, device, f, list).trace, u),
        is_there(regs, bus, device as int),
        regs(bus, selector(device as int, 0), 0x0C) & 0x80_0000 != 0,
        forall|i: int|
            #![trigger list[i]]
            0 <= i < list.len() ==> list[i] < f && is_present(
                regs,
                bus,
                device as int,
                list[i] as int,
            ),
        forall|i: int, j: int|
            #![trigger list[i], list[j]]
            0 <= i < j < list.len() ==> list[i] < list[j],
        forall|g: u8|
            g < f && is_present(regs, bus, device as int, g as int) ==> #[trigger] list.contains(g),
    ensures
        functions_walk(t, bus, device, f, list).found matches Some(out) ==> lists_functions(
            out,
            regs,
            bus,
            device as int,
        ),
    decreases 8 - f,
{
    if f < 8 {
        let df = devfn_of(device, f);
        lemma_selector(device, f);
        let v = t.read(bus, df, DEVICE_VENDOR);
        lemma_read(t, bus, df, DEVICE_VENDOR);
        if let Some(vendor) = v.found {
            let next = if vendor != 0xFFFF_FFFF {
                list.push(f)
            } else {
                list
            };
            let r = functions_walk(v.trace, bus, device, (f + 1) as u8, next);
            lemma_functions_walk(v.trace, bus, device, (f + 1) as u8, next);
            lemma_way(v.trace, r.trace, u);
            lemma_heard(t, u, bus, df, DEVICE_VENDOR, regs);
            assert forall|g: u8|
                g < f + 1 && is_present(
                    regs,
                    bus,
                    device as int,
                    g as int,
                ) implies #[trigger] next.contains(g) by {
                if g < f {
                    assert(list.contains(g));
                    let i = choose|i: int| 0 <= i < list.len() && list[i] == g;
                    assert(next[i] == g);
                } else {
                    assert(next[next.len() - 1] == g);
                }
            }
            lemma_listed(v.trace, u, regs, bus, device, (f + 1) as u8, next);
        }
    }
}

/// The functions of a device that has several are listed as config space tells: all
/// that are there, and no others. `u` is any trace that goes on from the listing.
pub proof fn law_functions_listed(t: Trace, u: Trace, regs: Registers, bus: u8, device: u8)
    requires
        device < 32,
        all_answered(t),
        truthful(u, regs),
        on_the_way(functions_walk(t, bus, device, 0, Seq::empty()).trace, u),
        is_there(regs, bus, device as int),
        regs(bus, selector(device as int, 0), 0x0C) & 0x80_0000 != 0,
    ensures
        functions_walk(t, bus, device, 0, Seq::empty()).found matches Some(list) ==> {
            &&& lists_functions(list, regs, bus, device as int)
            &&& forall|f: u8|
                #[trigger] list.contains(f) <==> f < 8 && (f == 0 || regs(
                    bus,
                    selector(device as int, f as int),
                    0x00,
                ) != 0xFFFF_FFFF)
        },
{
    let first = Seq::<u8>::empty().push(0u8);
    assert forall|g: u8|
        g < 1 && is_present(regs, bus, device as int, g as int) implies #[trigger] first.contains(
        g,
    ) by {
        assert(first[0] == g);
    }
    lemma_listed(t, u, regs, bus, device, 1, first);
    if let Some(list) = functions_walk(t, bus, device, 0, Seq::empty()).found {
        assert forall|f: u8| #[trigger] list.contains(f) implies f < 8 && (f == 0 || regs(
            bus,
            selector(device as int, f as int),
            0x00,
        ) != 0xFFFF_FFFF) by {
            let i = choose|i: int| 0 <= i < list.len() && list[i] == f;
            assert(is_present(regs, bus, device as int, list[i] as int));
        }
        assert forall|f: u8|
            f < 8 && (f == 0 || regs(bus, selector(device as int, f as int), 0x00)
                != 0xFFFF_FFFF) implies #[trigger] list.contains(f) by {
            assert(is_present(regs, bus, device as int, f as int));
        }
    }
}

/// Whether what is known of a function is what config space tells.
pub open spec fn is_described(
    info: FuncInfo,
    regs: Registers,
    bus: u8,
    device: int,
    function: u8,
) -> bool {
    &&& info.func_num == function
    &&& info.devfn == selector(device, function as int)
    &&& info.is_bridge <==> is_bridge_header(regs, bus, device, function as int)
}

proof fn lemma_described(
    t: Trace,
    u: Trace,
    regs: Registers,
    bus: u8,
    device: u8,
    header0: u32,
    f: u8,
)
    requires
        device < 32,
        f < 8,
        all_answered(t),
        truthful(u, regs),
        header0 == regs(bus, selector(device as int, 0), 0x0C),
        on_the_way(function_info(t, bus, device, header0, f).trace, u),
    ensures
        function_info(t, bus, device, header0, f).found matches Some(info) ==> {
            &&& is_described(info, regs, bus, device as int, f)
            &&& without_virtual(u) ==> info.sriov_off is None && !info.is_siov
        },
{
    let i = function_info(t, bus, device, header0, f);
    let df = devfn_of(device, f);
    lemma_selector(device, f);
    lemma_same(t);
    let h = if f == 0 {
        found(t, header0)
    } else {
        t.read(bus, df, BIST_HEADER)
    };
    lemma_read(t, bus, df, BIST_HEADER);
    if h.found is Some {
        let s = ext_cap(h.trace, bus, df, EXT_CAP_ID_SRIOV);
        lemma_ext_cap_walk(h.trace, bus, df, EXT_CAP_ID_SRIOV, EXT_CAP_START);
        let o = ext_cap(s.trace, bus, df, EXT_CAP_ID_SIOV);
        lemma_ext_cap_walk(s.trace, bus, df, EXT_CAP_ID_SIOV, EXT_CAP_START);
        if i.found is Some {
            lemma_same(h.trace);
            if crate::resource::enumerate::header_type(h.found->0) != 1 {
                lemma_way(s.trace, o.trace, u);
                lemma_way(h.trace, s.trace, u);
                if without_virtual(u) {
                    assert(never_heard(u, df, 0x0010));
                    lemma_not_found(h.trace, u, bus, df, EXT_CAP_ID_SRIOV, EXT_CAP_START);
                    lemma_not_found(s.trace, u, bus, df, EXT_CAP_ID_SIOV, EXT_CAP_START);
                }
            }
            if f != 0 {
                lemma_heard(t, u, bus, df, BIST_HEADER, regs);
            }
        }
    }
}

proof fn lemma_all_described(
    t: Trace,
    u: Trace,
    regs: Registers,
    bus: u8,
    device: u8,
    header0: u32,
    list: Seq<u8>,
    k: int,
    infos: Seq<FuncInfo>,
)
    requires
        device < 32,
        0 <= k <= list.len(),
        infos.len() == k,
        forall|j: int| #![trigger list[j]] 0 <= j < list.len() ==> list[j] < 8,
        all_answered(t),
        truthful(u, regs),
        header0 == regs(bus, selector(device as int, 0), 0x0C),
        on_the_way(infos_walk(t, bus, device, header0, list, k, infos).trace, u),
        forall|j: int|
            #![trigger infos[j]]
            0 <= j < k ==> is_described(infos[j], regs, bus, device as int, list[j]) && (
            without_virtual(u) ==> infos[j].sriov_off is None && !infos[j].is_siov),
    ensures
        infos_walk(t, bus, device, header0, list, k, infos).found matches Some(all) ==> {
            &&& all.len() == list.len()
            &&& forall|j: int|
                #![trigger all[j]]
                0 <= j < all.len() ==> is_described(all[j], regs, bus, device as int, list[j]) && (
                without_virtual(u) ==> all[j].sriov_off is None && !all[j].is_siov)
        },
    decreases list.len() - k,
{
    if k < list.len() {
        let i = function_info(t, bus, device, header0, list[k]);
        lemma_function_info(t, bus, device, header0, list[k]);
        if let Some(info) = i.found {
            let next = infos.push(info);
            let r = infos_walk(i.trace, bus, device, header0, list, k + 1, next);
            lemma_infos_walk(i.trace, bus, device, header0, list, k + 1, next);
            lemma_way(i.trace, r.trace, u);
            lemma_described(t, u, regs, bus, device, header0, list[k]);
            assert forall|j: int| #![trigger next[j]] 0 <= j < k + 1 implies is_described(
                next[j],
                regs,
                bus,
                device as int,
                list[j],
            ) && (without_virtual(u) ==> next[j].sriov_off is None && !next[j].is_siov) by {
                if j < k {
                    assert(next[j] == infos[j]);
                }
            }
            lemma_all_described(i.trace, u, regs, bus, device, header0, list, k + 1, next);
        }
    }
}

/// The numbers of some functions.
pub open spec fn numbers(infos: Seq<FuncInfo>) -> Seq<u8> {
    Seq::new(infos.len(), |j: int| infos[j].func_num)
}

/// Whether what is known of the functions of a device is what config space tells.
pub open spec fn describes(infos: Seq<FuncInfo>, regs: Registers, bus: u8, device: int) -> bool {
    &&& lists_functions(numbers(infos), regs, bus, device)
    &&& forall|j: int|
        #![trigger infos[j]]
        0 <= j < infos.len() ==> is_described(infos[j], regs, bus, device, infos[j].func_num)
}

/// The only function of a device that has no others.
proof fn lemma_single(regs: Registers, bus: u8, device: u8)
    requires
        is_there(regs, bus, device as int),
        regs(bus, selector(device as int, 0), 0x0C) & 0x80_0000 == 0,
    ensures
        lists_functions(seq![0u8], regs, bus, device as int),
{
    let list = seq![0u8];
    assert forall|f: u8|
        is_present(regs, bus, device as int, f as int) implies #[trigger] list.contains(f) by {
        assert(list[0] == f);
    }
}

/// A device is found exactly if it is there, with the functions that are there.
pub proof fn lemma_detected(
    t: Trace,
    u: Trace,
    regs: Registers,
    bus: u8,
    device: u8,
    port: Option<(u8, u8)>,
)
    requires
        device < 32,
        all_answered(t),
        truthful(u, regs),
        never_heard(u, 0, 0x000E),
        on_the_way(detect(t, bus, device, port).trace, u),
    ensures
        match detect(t, bus, device, port).found {
            None => true,
            Some(None) => !is_there(regs, bus, device as int),
            Some(Some(fs)) => {
                &&& is_there(regs, bus, device as int)
                &&& describes(fs.infos, regs, bus, device as int)
                &&& without_virtual(u) ==> forall|j: int|
                    #![trigger fs.infos[j]]
                    0 <= j < fs.infos.len() ==> fs.infos[j].sriov_off is None
                &&& port is None || without_virtual(u) ==> !fs.ari_forwarding
            },
        },
{
    let df0 = devfn_of(device, 0);
    lemma_selector(device, 0);
    let whole = detect(t, bus, device, port);
    let v = t.read(bus, df0, DEVICE_VENDOR);
    lemma_read(t, bus, df0, DEVICE_VENDOR);
    if whole.found is Some {
        if v.found->0 == 0xFFFF_FFFF {
            lemma_heard(t, u, bus, df0, DEVICE_VENDOR, regs);
        } else {
            let b = v.trace.read(bus, df0, BIST_HEADER);
            lemma_read(v.trace, bus, df0, BIST_HEADER);
            let header0 = b.found->0;
            let a = if device == 0 {
                ext_cap(b.trace, bus, df0, EXT_CAP_ID_ARI)
            } else {
                found(b.trace, None)
            };
            lemma_same(b.trace);
            lemma_ext_cap_walk(b.trace, bus, df0, EXT_CAP_ID_ARI, EXT_CAP_START);
            let ari = a.found->0 is Some;
            let e = port_forwarding(a.trace, port, ari);
            lemma_port_forwarding(a.trace, port, ari);
            let l = function_numbers(e.trace, bus, device, ari, is_multi_function(header0));
            let list = l.found->0;
            lemma_same(e.trace);
            lemma_functions_walk(e.trace, bus, device, 0, Seq::empty());
            crate::resource::hearing::lemma_ari_functions(e.trace, bus);
            let i = infos_walk(l.trace, bus, device, header0, list, 0, Seq::empty());
            lemma_infos_walk(l.trace, bus, device, header0, list, 0, Seq::empty());
            let infos = i.found->0;
            let d = finish_functions(i.trace, bus, port, e.found->0, infos);
            lemma_finish_functions(i.trace, bus, port, e.found->0, infos);
            assert(d.trace == whole.trace);
            lemma_way(i.trace, d.trace, u);
            lemma_way(l.trace, i.trace, u);
            lemma_way(e.trace, l.trace, u);
            lemma_way(a.trace, e.trace, u);
            lemma_way(b.trace, a.trace, u);
            lemma_way(v.trace, b.trace, u);
            lemma_heard(t, u, bus, df0, DEVICE_VENDOR, regs);
            lemma_heard(v.trace, u, bus, df0, BIST_HEADER, regs);
            if device == 0 {
                lemma_not_found(b.trace, u, bus, df0, EXT_CAP_ID_ARI, EXT_CAP_START);
            }
            assert(!ari);
            if is_multi_function(header0) {
                law_functions_listed(e.trace, u, regs, bus, device);
            } else {
                lemma_single(regs, bus, device);
            }
            assert(lists_functions(list, regs, bus, device as int));
            assert forall|j: int| #![trigger list[j]] 0 <= j < list.len() implies list[j] < 8 by {
                assert(is_present(regs, bus, device as int, list[j] as int));
            }
            lemma_all_described(
                l.trace,
                u,
                regs,
                bus,
                device,
                header0,
                list,
                0,
                Seq::empty(),
            );
            assert(numbers(infos) =~= list) by {
                assert forall|j: int| 0 <= j < infos.len() implies #[trigger] infos[j].func_num
                    == list[j] by {
                    assert(is_described(infos[j], regs, bus, device as int, list[j]));
                }
            }
            assert forall|j: int| #![trigger infos[j]] 0 <= j < infos.len() implies is_described(
                infos[j],
                regs,
                bus,
                device as int,
                infos[j].func_num,
            ) by {
                assert(is_described(infos[j], regs, bus, device as int, list[j]));
            }
        }
    }
}

/// Whether a device that was found is a function that is there.
pub open spec fn is_found(d: FoundDevice, regs: Registers, bus: u8) -> bool {
    &&& d.bus == bus
    &&& is_present(regs, bus, d.device as int, d.function as int)
    &&& d.is_bridge <==> is_bridge_header(regs, bus, d.device as int, d.function as int)
}

/// Whether a device comes before another: by device number, then by function number.
pub open spec fn comes_before(a: FoundDevice, b: FoundDevice) -> bool {
    a.device < b.device || (a.device == b.device && a.function < b.function)
}

/// Whether a function is among devices that were found.
pub open spec fn is_among(devices: Seq<FoundDevice>, device: int, function: int) -> bool {
    exists|i: int|
        #![trigger devices[i]]
        0 <= i < devices.len() && devices[i].device == device && devices[i].function == function
}

/// Whether the devices found on a bus are the functions that are there, of the devices
/// up to a number: each once, in order, and no others.
pub open spec fn lists_bus(devices: Seq<FoundDevice>, regs: Registers, bus: u8, to: int) -> bool {
    &&& forall|i: int|
        #![trigger devices[i]]
        0 <= i < devices.len() ==> is_found(devices[i], regs, bus) && devices[i].device < to
    &&& forall|i: int, j: int|
        #![trigger devices[i], devices[j]]
        0 <= i < j < devices.len() ==> comes_before(devices[i], devices[j])
    &&& forall|d: int, f: int|
        #![trigger is_present(regs, bus, d, f)]
        d < to && is_present(regs, bus, d, f) ==> is_among(devices, d, f)
}

/// Whether the devices found on a bus, and behind each bridge on it, are those that are
/// there. If `exact` is set, all device numbers of each bus were looked at.
pub open spec fn lists_tree(
    devices: Seq<FoundDevice>,
    regs: Registers,
    bus: u8,
    exact: bool,
) -> bool
    decreases devices,
{
    &&& exists|n: int|
        1 <= n <= 32 && (exact ==> n == 32) && #[trigger] lists_bus(devices, regs, bus, n)
    &&& forall|i: int|
        #![trigger devices[i]]
        0 <= i < devices.len() && devices[i].is_bridge ==> devices[i].secondary_bus is Some
            && lists_tree(devices[i].children, regs, devices[i].secondary_bus->0, exact)
}

/// Whether behind each bridge the devices found are those that are there.
spec fn lists_behind(devices: Seq<FoundDevice>, regs: Registers, exact: bool) -> bool {
    forall|i: int|
        #![trigger devices[i]]
        0 <= i < devices.len() && devices[i].is_bridge ==> devices[i].secondary_bus is Some
            && lists_tree(devices[i].children, regs, devices[i].secondary_bus->0, exact)
}

/// Whether the devices found so far are those of the devices up to one, and of that one
/// the first functions.
spec fn lists_part(
    acc: Seq<FoundDevice>,
    regs: Registers,
    p: Place,
    infos: Seq<FuncInfo>,
    k: int,
) -> bool {
    &&& forall|i: int|
        #![trigger acc[i]]
        0 <= i < acc.len() ==> is_found(acc[i], regs, p.bus) && acc[i].device <= p.device && (
        acc[i].device == p.device ==> exists|j: int|
            #![trigger infos[j]]
            0 <= j < k && infos[j].func_num == acc[i].function)
    &&& forall|i: int, j: int|
        #![trigger acc[i], acc[j]]
        0 <= i < j < acc.len() ==> comes_before(acc[i], acc[j])
    &&& forall|d: int, f: int|
        #![trigger is_present(regs, p.bus, d, f)]
        d < p.device && is_present(regs, p.bus, d, f) ==> is_among(acc, d, f)
    &&& forall|j: int|
        #![trigger infos[j]]
        0 <= j < k ==> is_among(acc, p.device as int, infos[j].func_num as int)
}

proof fn lemma_part_push(
    acc: Seq<FoundDevice>,
    dev: FoundDevice,
    regs: Registers,
    p: Place,
    infos: Seq<FuncInfo>,
    k: int,
    exact: bool,
)
    requires
        p.device < 32,
        0 <= k < infos.len(),
        describes(infos, regs, p.bus, p.device as int),
        lists_part(acc, regs, p, infos, k),
        lists_behind(acc, regs, exact),
        dev.bus == p.bus,
        dev.device == p.device,
        dev.function == infos[k].func_num,
        dev.is_bridge == infos[k].is_bridge,
        dev.is_bridge ==> lists_behind(seq![dev], regs, exact),
    ensures
        lists_part(acc.push(dev), regs, p, infos, k + 1),
        lists_behind(acc.push(dev), regs, exact),
{
    let all = acc.push(dev);
    let ns = numbers(infos);
    assert(ns[k] == infos[k].func_num);
    assert(is_present(regs, p.bus, p.device as int, ns[k] as int));
    assert(is_described(infos[k], regs, p.bus, p.device as int, infos[k].func_num));
    assert forall|i: int| #![trigger all[i]] 0 <= i < all.len() implies is_found(
        all[i],
        regs,
        p.bus,
    ) && all[i].device <= p.device && (all[i].device == p.device ==> exists|j: int|
        #![trigger infos[j]]
        0 <= j < k + 1 && infos[j].func_num == all[i].function) by {
        if i < acc.len() {
            assert(all[i] == acc[i]);
        } else {
            assert(infos[k].func_num == all[i].function);
        }
    }
    assert forall|i: int, j: int|
        #![trigger all[i], all[j]]
        0 <= i < j < all.len() implies comes_before(all[i], all[j]) by {
        assert(all[i] == acc[i]);
        if j < acc.len() {
            assert(all[j] == acc[j]);
        } else if acc[i].device == p.device {
            let m = choose|m: int|
                #![trigger infos[m]]
                0 <= m < k && infos[m].func_num == acc[i].function;
            assert(ns[m] < ns[k]);
        }
    }
    assert forall|d: int, f: int|
        #![trigger is_present(regs, p.bus, d, f)]
        d < p.device && is_present(regs, p.bus, d, f) implies is_among(all, d, f) by {
        let i = choose|i: int|
            #![trigger acc[i]]
            0 <= i < acc.len() && acc[i].device == d && acc[i].function == f;
        assert(all[i] == acc[i]);
    }
    assert forall|j: int| #![trigger infos[j]] 0 <= j < k + 1 implies is_among(
        all,
        p.device as int,
        infos[j].func_num as int,
    ) by {
        if j < k {
            let i = choose|i: int|
                #![trigger acc[i]]
                0 <= i < acc.len() && acc[i].device == p.device as int && acc[i].function
                    == infos[j].func_num as int;
            assert(all[i] == acc[i]);
        } else {
            assert(all[acc.len() as int] == dev);
        }
    }
    assert forall|i: int|
        #![trigger all[i]]
        0 <= i < all.len() && all[i].is_bridge implies all[i].secondary_bus is Some
        && lists_tree(all[i].children, regs, all[i].secondary_bus->0, exact) by {
        if i < acc.len() {
            assert(all[i] == acc[i]);
        } else {
            assert(seq![dev][0] == all[i]);
        }
    }
}

#[verifier::rlimit(60)]
proof fn lemma_functions_scanned(
    t: Trace,
    u: Trace,
    regs: Registers,
    p: Place,
    infos: Seq<FuncInfo>,
    k: int,
    next_bus: int,
    acc: Seq<FoundDevice>,
)
    requires
        p.device < 32,
        p.bus < next_bus,
        0 <= k <= infos.len(),
        all_answered(t),
        truthful(u, regs),
        never_heard(u, 0, 0x000E),
        describes(infos, regs, p.bus, p.device as int),
        lists_part(acc, regs, p, infos, k),
        lists_behind(acc, regs, without_virtual(u)),
        on_the_way(functions_scan(t, p, infos, k, next_bus, acc).trace, u),
    ensures
        functions_scan(t, p, infos, k, next_bus, acc).found matches Some(Ok((after, all))) ==> {
            &&& lists_part(all, regs, p, infos, infos.len() as int)
            &&& lists_behind(all, regs, without_virtual(u))
        },
    decreases 256 - p.bus, 2 * (256 - p.device), infos.len() - k,
{
    let exact = without_virtual(u);
    let whole = functions_scan(t, p, infos, k, next_bus, acc);
    if k < infos.len() && whole.found is Some && whole.found->0 is Ok {
        let info = infos[k];
        let b = bars_probe(t, p.bus, info.devfn, info.is_bridge, p.preserve);
        lemma_bars_probe(t, p.bus, info.devfn, info.is_bridge, p.preserve);
        let dev = FoundDevice {
            bus: p.bus,
            device: p.device,
            function: info.func_num,
            is_bridge: info.is_bridge,
            bars: b.found->0,
            children: Seq::empty(),
            secondary_bus: None,
            subordinate_bus: None,
            sriov: None,
            sized: false,
        };
        if info.is_bridge {
            let secondary = next_bus as u8;
            let x = bus_register(p.bus, secondary, p.end_bus);
            let v = b.trace.write(p.bus, info.devfn, TYPE1_LATENCY_BUS_NUMBERS, x);
            lemma_write(b.trace, p.bus, info.devfn, TYPE1_LATENCY_BUS_NUMBERS, x);
            let q = Place { bus: secondary, device: 0, ..p };
            let port = Some((p.bus, info.devfn));
            lemma_bus_scan(v, q, port, next_bus + 1, Seq::empty());
            let c = bus_scan(v, q, port, next_bus + 1, Seq::empty());
            let (after, children) = c.found->0->Ok_0;
            let subordinate = subordinate_of(after, secondary);
            let y = bus_register(p.bus, secondary, subordinate);
            let w = c.trace.write(p.bus, info.devfn, TYPE1_LATENCY_BUS_NUMBERS, y);
            lemma_write(c.trace, p.bus, info.devfn, TYPE1_LATENCY_BUS_NUMBERS, y);
            let full = FoundDevice {
                children,
                secondary_bus: Some(secondary),
                subordinate_bus: Some(subordinate),
                ..dev
            };
            lemma_functions_scan(w, p, infos, k + 1, after, acc.push(full));
            lemma_way(w, whole.trace, u);
            lemma_way(c.trace, w, u);
            lemma_bus_scanned(v, u, regs, q, port, next_bus + 1, Seq::empty());
            assert(lists_tree(children, regs, secondary, exact));
            lemma_part_push(acc, full, regs, p, infos, k, exact);
            lemma_functions_scanned(w, u, regs, p, infos, k + 1, after, acc.push(full));
        } else {
            let s = sriov_probe(b.trace, p.bus, info.devfn, info.sriov_off, p.preserve);
            lemma_sriov_probe(b.trace, p.bus, info.devfn, info.sriov_off, p.preserve);
            match s.found {
                Some(None) => {
                    lemma_functions_scan(s.trace, p, infos, k + 1, next_bus, acc.push(dev));
                    lemma_part_push(acc, dev, regs, p, infos, k, exact);
                    lemma_functions_scanned(
                        s.trace,
                        u,
                        regs,
                        p,
                        infos,
                        k + 1,
                        next_bus,
                        acc.push(dev),
                    );
                },
                Some(Some(sr)) => {
                    let after = reserve_vf_buses(
                        p,
                        info.func_num,
                        sr.max_vf_bus as int,
                        next_bus,
                    )->Ok_0;
                    let full = FoundDevice {
                        sriov: Some((sr.cap_offset, sr.total_vfs, sr.vf_bars)),
                        ..dev
                    };
                    lemma_functions_scan(s.trace, p, infos, k + 1, after, acc.push(full));
                    lemma_part_push(acc, full, regs, p, infos, k, exact);
                    lemma_functions_scanned(
                        s.trace,
                        u,
                        regs,
                        p,
                        infos,
                        k + 1,
                        after,
                        acc.push(full),
                    );
                },
                None => {},
            }
        }
    }
}

/// Once all functions of a device are there, so are all devices up to it.
proof fn lemma_device_done(
    acc: Seq<FoundDevice>,
    regs: Registers,
    p: Place,
    infos: Seq<FuncInfo>,
)
    requires
        describes(infos, regs, p.bus, p.device as int),
        lists_part(acc, regs, p, infos, infos.len() as int),
    ensures
        lists_bus(acc, regs, p.bus, p.device + 1),
{
    let ns = numbers(infos);
    assert forall|d: int, f: int|
        #![trigger is_present(regs, p.bus, d, f)]
        d < p.device + 1 && is_present(regs, p.bus, d, f) implies is_among(acc, d, f) by {
        if d == p.device {
            assert(is_present(regs, p.bus, p.device as int, (f as u8) as int));
            assert(ns.contains(f as u8));
            let j = choose|j: int| 0 <= j < ns.len() && ns[j] == f as u8;
            assert(infos[j].func_num == f);
        }
    }
}

/// A device that is not there adds nothing.
proof fn lemma_device_absent(acc: Seq<FoundDevice>, regs: Registers, p: Place)
    requires
        lists_bus(acc, regs, p.bus, p.device as int),
        !is_there(regs, p.bus, p.device as int),
    ensures
        lists_bus(acc, regs, p.bus, p.device + 1),
{
    assert forall|d: int, f: int|
        #![trigger is_present(regs, p.bus, d, f)]
        d < p.device + 1 && is_present(regs, p.bus, d, f) implies is_among(acc, d, f) by {}
}

/// What is known of the devices before one is known of the first functions of that one
/// too: there are none yet.
proof fn lemma_device_begun(acc: Seq<FoundDevice>, regs: Registers, p: Place, infos: Seq<FuncInfo>)
    requires
        lists_bus(acc, regs, p.bus, p.device as int),
    ensures
        lists_part(acc, regs, p, infos, 0),
{
}

#[verifier::rlimit(60)]
proof fn lemma_bus_scanned(
    t: Trace,
    u: Trace,
    regs: Registers,
    p: Place,
    port: Option<(u8, u8)>,
    next_bus: int,
    acc: Seq<FoundDevice>,
)
    requires
        p.device <= 32,
        p.bus < next_bus,
        all_answered(t),
        truthful(u, regs),
        never_heard(u, 0, 0x000E),
        lists_bus(acc, regs, p.bus, p.device as int),
        lists_behind(acc, regs, without_virtual(u)),
        on_the_way(bus_scan(t, p, port, next_bus, acc).trace, u),
    ensures
        bus_scan(t, p, port, next_bus, acc).found matches Some(Ok((after, all))) ==> {
            &&& lists_tree(all, regs, p.bus, without_virtual(u))
            &&& port is None ==> lists_bus(all, regs, p.bus, 32)
        },
    decreases 256 - p.bus, 2 * (256 - p.device) + 1, 0int,
{
    let exact = without_virtual(u);
    let whole = bus_scan(t, p, port, next_bus, acc);
    if whole.found is Some && whole.found->0 is Ok {
        if p.device == 32 {
            assert(lists_bus(acc, regs, p.bus, 32));
        } else {
            let np = Place { device: (p.device + 1) as u8, ..p };
            let d = detect(t, p.bus, p.device, port);
            lemma_detect(t, p.bus, p.device, port);
            match d.found {
                None => {},
                Some(None) => {
                    lemma_bus_scan(d.trace, np, port, next_bus, acc);
                    lemma_way(d.trace, whole.trace, u);
                    lemma_detected(t, u, regs, p.bus, p.device, port);
                    lemma_device_absent(acc, regs, p);
                    lemma_bus_scanned(d.trace, u, regs, np, port, next_bus, acc);
                },
                Some(Some(fs)) => {
                    let r = functions_scan(d.trace, p, fs.infos, 0, next_bus, acc);
                    lemma_functions_scan(d.trace, p, fs.infos, 0, next_bus, acc);
                    let (after, all) = r.found->0->Ok_0;
                    lemma_same(r.trace);
                    lemma_bus_scan(r.trace, np, port, after, all);
                    lemma_way(r.trace, whole.trace, u);
                    lemma_way(d.trace, r.trace, u);
                    lemma_detected(t, u, regs, p.bus, p.device, port);
                    lemma_device_begun(acc, regs, p, fs.infos);
                    lemma_functions_scanned(d.trace, u, regs, p, fs.infos, 0, next_bus, acc);
                    lemma_device_done(all, regs, p, fs.infos);
                    if fs.ari_forwarding {
                        assert(lists_bus(all, regs, p.bus, p.device + 1));
                    } else {
                        lemma_bus_scanned(r.trace, u, regs, np, port, after, all);
                    }
                },
            }
        }
    }
}

/// Enumeration waits only for a response that is not there yet: whatever config space
/// answers, it does not stop before it has used all answers or is done.
pub proof fn law_enumeration_waits(responses: Seq<u32>, params: AssignmentParams)
    ensures
        ({
            let run = enumeration(
                (Trace { responses, pos: 0, log: Seq::empty() }),
                params,
            );
            &&& run.found is None ==> run.trace.pos >= responses.len()
            &&& run.trace.responses == responses
            &&& run.found is Some ==> run.trace.pos == reads_in(run.trace.log)
        }),
{
    let t = Trace { responses, pos: 0, log: Seq::empty() };
    let p = Place {
        bus: params.start_bus,
        device: 0,
        end_bus: params.end_bus,
        preserve: params.preserve_bars,
    };
    lemma_bus_scan(t, p, None, params.start_bus + 1, Seq::empty());
}

/// Enumeration finds the functions that config space tells of, and no others: on the
/// first bus each of the 32 devices with its functions, and behind each bridge those of
/// the bus that the bridge was given. Each is found once and in order, and as a bridge
/// if its header is one. Behind a bridge all 32 device numbers are looked at too, unless
/// a device there has virtual functions, for which further device numbers may stand.
/// That is for config space that answers each read of an identifying register with what
/// the register holds, and without ARI devices.
pub proof fn law_enumeration_lists(responses: Seq<u32>, params: AssignmentParams, regs: Registers)
    ensures
        ({
            let run = enumeration(
                (Trace { responses, pos: 0, log: Seq::empty() }),
                params,
            );
            let u = run.trace;
            truthful(u, regs) && never_heard(u, 0, 0x000E) ==> (run.found matches Some(
                Ok((_, all)),
            ) ==> {
                &&& lists_bus(all, regs, params.start_bus, 32)
                &&& lists_tree(all, regs, params.start_bus, without_virtual(u))
            })
        }),
{
    let t = Trace { responses, pos: 0, log: Seq::empty() };
    let p = Place {
        bus: params.start_bus,
        device: 0,
        end_bus: params.end_bus,
        preserve: params.preserve_bars,
    };
    let run = enumeration(t, params);
    lemma_same(run.trace);
    if truthful(run.trace, regs) && never_heard(run.trace, 0, 0x000E) {
        lemma_bus_scanned(t, run.trace, regs, p, None, params.start_bus + 1, Seq::empty());
    }
}

}
