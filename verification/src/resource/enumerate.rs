//! Bus enumeration: which functions there are, what they need, and which bus
//! numbers bridges get.
use crate::regs::BIST_HEADER;
use crate::regs::DEVICE_VENDOR;
use crate::regs::EXT_CAP_ID_ARI;
use crate::regs::EXT_CAP_ID_SIOV;
use crate::regs::EXT_CAP_ID_SRIOV;
use crate::resource::program::devfn;
use crate::resource::program::devfn_of;
use crate::resource::session::found;
use crate::resource::session::pending;
use crate::resource::session::ConfigSession;
use crate::resource::session::Run;
use crate::resource::session::Trace;
use crate::resource::walk::ari_forwarding;
use crate::resource::walk::ari_function_list;
use crate::resource::walk::ari_functions;
use crate::resource::walk::ari_hierarchy;
use crate::resource::walk::enable_ari_forwarding;
use crate::resource::walk::ext_cap;
use crate::resource::walk::find_ext_cap;
use crate::resource::walk::set_ari_capable_hierarchy;
use vstd::prelude::*;

verus! {

/// The header type of a function: the low seven bits of the header byte.
pub open spec fn header_type(bist_header: u32) -> u32 {
    (bist_header >> 16u32) & 0x7F
}

/// Whether the device has more than one function.
pub open spec fn is_multi_function(bist_header: u32) -> bool {
    bist_header & 0x80_0000 != 0
}

/// What is known of a function before it is probed.
#[derive(Debug, Clone, Copy)]
pub struct FuncInfo {
    /// Function number.
    pub func_num: u8,
    /// Device and function number.
    pub devfn: u8,
    /// Whether the function is a bridge.
    pub is_bridge: bool,
    /// Where its SR-IOV capability is.
    pub sriov_off: Option<u16>,
    /// Whether it has an SIOV capability.
    pub is_siov: bool,
}

/// The present functions of a traditional multi-function device, from `f` on.
/// Function 0 is known to be present.
pub open spec fn functions_walk(t: Trace, bus: u8, device: u8, f: u8, list: Seq<u8>) -> Run<Seq<u8>>
    decreases 8 - f,
{
    if f >= 8 {
        found(t, list)
    } else if f == 0 {
        functions_walk(t, bus, device, 1, list.push(0))
    } else {
        let v = t.read(bus, devfn_of(device, f), DEVICE_VENDOR);
        match v.found {
            None => pending(v.trace),
            Some(vendor) => functions_walk(
                v.trace,
                bus,
                device,
                (f + 1) as u8,
                if vendor != 0xFFFF_FFFF {
                    list.push(f)
                } else {
                    list
                },
            ),
        }
    }
}

/// The function numbers of a device.
pub open spec fn function_numbers(
    t: Trace,
    bus: u8,
    device: u8,
    is_ari: bool,
    multi_function: bool,
) -> Run<Seq<u8>> {
    if is_ari {
        ari_functions(t, bus)
    } else if multi_function {
        functions_walk(t, bus, device, 0, Seq::empty())
    } else {
        found(t, seq![0u8])
    }
}

/// What is known of function `f` of a device before it is probed. SR-IOV and
/// SIOV are looked for in endpoints only.
pub open spec fn function_info(t: Trace, bus: u8, device: u8, header0: u32, f: u8) -> Run<FuncInfo> {
    let devfn = devfn_of(device, f);
    let h = if f == 0 {
        found(t, header0)
    } else {
        t.read(bus, devfn, BIST_HEADER)
    };
    match h.found {
        None => pending(h.trace),
        Some(header) => if header_type(header) == 1 {
            found(
                h.trace,
                FuncInfo { func_num: f, devfn, is_bridge: true, sriov_off: None, is_siov: false },
            )
        } else {
            let s = ext_cap(h.trace, bus, devfn, EXT_CAP_ID_SRIOV);
            match s.found {
                None => pending(s.trace),
                Some(sriov_off) => {
                    let i = ext_cap(s.trace, bus, devfn, EXT_CAP_ID_SIOV);
                    match i.found {
                        None => pending(i.trace),
                        Some(siov) => found(
                            i.trace,
                            FuncInfo {
                                func_num: f,
                                devfn,
                                is_bridge: false,
                                sriov_off,
                                is_siov: siov is Some,
                            },
                        ),
                    }
                },
            }
        },
    }
}

/// What is known of the listed functions, from the one at `k` on.
pub open spec fn infos_walk(
    t: Trace,
    bus: u8,
    device: u8,
    header0: u32,
    list: Seq<u8>,
    k: int,
    infos: Seq<FuncInfo>,
) -> Run<Seq<FuncInfo>>
    decreases list.len() - k,
{
    if k < 0 || k >= list.len() {
        found(t, infos)
    } else {
        let i = function_info(t, bus, device, header0, list[k]);
        match i.found {
            None => pending(i.trace),
            Some(info) => infos_walk(
                i.trace,
                bus,
                device,
                header0,
                list,
                k + 1,
                infos.push(info),
            ),
        }
    }
}

/// Whether one of the functions is an SR-IOV PF or has SIOV.
pub open spec fn has_virtual_functions(infos: Seq<FuncInfo>) -> bool {
    exists|k: int|
        0 <= k < infos.len() && ((#[trigger] infos[k]).sriov_off is Some || infos[k].is_siov)
}

/// The PF with the lowest function number; the first of them if there are
/// several.
pub open spec fn lowest_pf(infos: Seq<FuncInfo>) -> Option<FuncInfo>
    decreases infos.len(),
{
    if infos.len() == 0 {
        None
    } else {
        let init = lowest_pf(infos.drop_last());
        let last = infos.last();
        if last.sriov_off is Some {
            match init {
                Some(pf) if pf.func_num <= last.func_num => Some(pf),
                _ => Some(last),
            }
        } else {
            init
        }
    }
}

/// Enables ARI forwarding in the port above, if there is one.
pub open spec fn port_forwarding(t: Trace, port: Option<(u8, u8)>, wanted: bool) -> Run<bool> {
    match port {
        Some((pbus, pdevfn)) if wanted => ari_forwarding(t, pbus, pdevfn),
        _ => found(t, false),
    }
}

/// The functions of a device, and whether ARI forwarding is enabled above it.
pub struct DeviceFunctions {
    /// The functions.
    pub infos: Seq<FuncInfo>,
    /// Whether ARI forwarding is enabled in the port above.
    pub ari_forwarding: bool,
}

/// What follows once the functions of a device are known: ARI forwarding is
/// enabled for VFs too, and the lowest PF is told of it.
pub open spec fn finish_functions(
    t: Trace,
    bus: u8,
    port: Option<(u8, u8)>,
    enabled: bool,
    infos: Seq<FuncInfo>,
) -> Run<DeviceFunctions> {
    let e = port_forwarding(t, port, !enabled && has_virtual_functions(infos));
    match e.found {
        None => pending(e.trace),
        Some(newly) => {
            let ari_forwarding = enabled || newly;
            match lowest_pf(infos) {
                Some(pf) if ari_forwarding => {
                    let h = ari_hierarchy(e.trace, bus, pf.devfn, pf.sriov_off->0);
                    match h.found {
                        None => pending(h.trace),
                        Some(_) => found(h.trace, DeviceFunctions { infos, ari_forwarding }),
                    }
                },
                _ => found(e.trace, DeviceFunctions { infos, ari_forwarding }),
            }
        },
    }
}

/// Detects a device and its functions: `None` if it is absent. Only device 0
/// can be an ARI device; for one ARI forwarding is enabled before its
/// functions are listed.
pub open spec fn detect(t: Trace, bus: u8, device: u8, port: Option<(u8, u8)>) -> Run<
    Option<DeviceFunctions>,
> {
    let df0 = devfn_of(device, 0);
    let v = t.read(bus, df0, DEVICE_VENDOR);
    match v.found {
        None => pending(v.trace),
        Some(vendor) => if vendor == 0xFFFF_FFFF {
            found(v.trace, None)
        } else {
            let b = v.trace.read(bus, df0, BIST_HEADER);
            match b.found {
                None => pending(b.trace),
                Some(header0) => {
                    let a = if device == 0 {
                        ext_cap(b.trace, bus, df0, EXT_CAP_ID_ARI)
                    } else {
                        found(b.trace, None)
                    };
                    match a.found {
                        None => pending(a.trace),
                        Some(ari) => {
                            let e = port_forwarding(a.trace, port, ari is Some);
                            match e.found {
                                None => pending(e.trace),
                                Some(enabled) => {
                                    let l = function_numbers(
                                        e.trace,
                                        bus,
                                        device,
                                        ari is Some,
                                        is_multi_function(header0),
                                    );
                                    match l.found {
                                        None => pending(l.trace),
                                        Some(list) => {
                                            let i = infos_walk(
                                                l.trace,
                                                bus,
                                                device,
                                                header0,
                                                list,
                                                0,
                                                Seq::empty(),
                                            );
                                            match i.found {
                                                None => pending(i.trace),
                                                Some(infos) => {
                                                    let d = finish_functions(
                                                        i.trace,
                                                        bus,
                                                        port,
                                                        enabled,
                                                        infos,
                                                    );
                                                    match d.found {
                                                        None => pending(d.trace),
                                                        Some(fs) => found(d.trace, Some(fs)),
                                                    }
                                                },
                                            }
                                        },
                                    }
                                },
                            }
                        },
                    }
                },
            }
        },
    }
}

/// Returns the header type of a function and whether the device has more than
/// one function.
pub fn decode_header(bist_header: u32) -> (r: (u32, bool))
    ensures
        r.0 == header_type(bist_header),
        r.1 == is_multi_function(bist_header),
{
    ((bist_header >> 16u32) & 0x7F, bist_header & 0x80_0000 != 0)
}

fn list_functions(s: &mut ConfigSession, bus: u8, device: u8) -> (r: Option<Vec<u8>>)
    requires
        old(s).wf(),
    ensures
        final(s).wf(),
        match r {
            Some(list) => found(final(s)@, list@) == functions_walk(
                old(s)@,
                bus,
                device,
                0,
                Seq::empty(),
            ),
            None => pending::<Seq<u8>>(final(s)@) == functions_walk(
                old(s)@,
                bus,
                device,
                0,
                Seq::empty(),
            ),
        },
{
    let mut list: Vec<u8> = Vec::new();
    let ghost whole = functions_walk(s@, bus, device, 0, Seq::empty());
    list.push(0);
    let mut f: u8 = 1;
    assert(list@ =~= Seq::<u8>::empty().push(0u8));
    while f < 8
        invariant
            s.wf(),
            1 <= f <= 8,
            whole == functions_walk(old(s)@, bus, device, 0, Seq::empty()),
            whole == functions_walk(s@, bus, device, f, list@),
        decreases 8 - f,
    {
        let vendor: u32 = match s.read_u32(bus, devfn(device, f), DEVICE_VENDOR) {
            None => return None,
            Some(v) => v,
        };
        if vendor != 0xFFFF_FFFF {
            list.push(f);
        }
        f = f + 1;
    }
    Some(list)
}

fn describe_function(s: &mut ConfigSession, bus: u8, device: u8, header0: u32, f: u8) -> (r: Option<
    FuncInfo,
>)
    requires
        old(s).wf(),
    ensures
        final(s).wf(),
        (Run { trace: final(s)@, found: r }) == function_info(old(s)@, bus, device, header0, f),
        r matches Some(i) ==> (i.sriov_off matches Some(o) ==> o <= 0xFFC),
{
    let df: u8 = devfn(device, f);
    let header: u32 = if f == 0 {
        header0
    } else {
        match s.read_u32(bus, df, BIST_HEADER) {
            None => return None,
            Some(v) => v,
        }
    };
    if decode_header(header).0 == 1 {
        return Some(
            FuncInfo { func_num: f, devfn: df, is_bridge: true, sriov_off: None, is_siov: false },
        );
    }
    let sriov_off: Option<u16> = match find_ext_cap(s, bus, df, EXT_CAP_ID_SRIOV) {
        None => return None,
        Some(v) => v,
    };
    let siov: Option<u16> = match find_ext_cap(s, bus, df, EXT_CAP_ID_SIOV) {
        None => return None,
        Some(v) => v,
    };
    Some(
        FuncInfo {
            func_num: f,
            devfn: df,
            is_bridge: false,
            sriov_off,
            is_siov: siov.is_some(),
        },
    )
}

/// Whether every SR-IOV capability lies within config space.
pub open spec fn infos_ok(infos: Seq<FuncInfo>) -> bool {
    forall|k: int|
        #![trigger infos[k]]
        0 <= k < infos.len() ==> (infos[k].sriov_off matches Some(o) ==> o <= 0xFFC)
}

fn describe_functions(
    s: &mut ConfigSession,
    bus: u8,
    device: u8,
    header0: u32,
    list: &Vec<u8>,
) -> (r: Option<Vec<FuncInfo>>)
    requires
        old(s).wf(),
    ensures
        final(s).wf(),
        match r {
            Some(infos) => found(final(s)@, infos@) == infos_walk(
                old(s)@,
                bus,
                device,
                header0,
                list@,
                0,
                Seq::empty(),
            ) && infos_ok(infos@),
            None => pending::<Seq<FuncInfo>>(final(s)@) == infos_walk(
                old(s)@,
                bus,
                device,
                header0,
                list@,
                0,
                Seq::empty(),
            ),
        },
{
    let mut infos: Vec<FuncInfo> = Vec::new();
    let ghost whole = infos_walk(s@, bus, device, header0, list@, 0, Seq::empty());
    let mut k: usize = 0;
    while k < list.len()
        invariant
            s.wf(),
            k <= list@.len(),
            infos_ok(infos@),
            whole == infos_walk(old(s)@, bus, device, header0, list@, 0, Seq::empty()),
            whole == infos_walk(s@, bus, device, header0, list@, k as int, infos@),
        decreases list@.len() - k,
    {
        match describe_function(s, bus, device, header0, list[k]) {
            None => return None,
            Some(info) => infos.push(info),
        }
        k = k + 1;
    }
    Some(infos)
}

fn any_virtual_functions(infos: &Vec<FuncInfo>) -> (r: bool)
    ensures
        r == has_virtual_functions(infos@),
{
    let mut k: usize = 0;
    while k < infos.len()
        invariant
            k <= infos@.len(),
            forall|j: int|
                #![trigger infos@[j]]
                0 <= j < k ==> infos@[j].sriov_off is None && !infos@[j].is_siov,
        decreases infos@.len() - k,
    {
        if infos[k].sriov_off.is_some() || infos[k].is_siov {
            assert(infos@[k as int].sriov_off is Some || infos@[k as int].is_siov);
            return true;
        }
        k = k + 1;
    }
    false
}

fn find_lowest_pf(infos: &Vec<FuncInfo>) -> (r: Option<FuncInfo>)
    requires
        infos_ok(infos@),
    ensures
        r == lowest_pf(infos@),
        r matches Some(pf) ==> (pf.sriov_off matches Some(o) && o <= 0xFFC),
{
    let mut best: Option<FuncInfo> = None;
    let mut k: usize = 0;
    while k < infos.len()
        invariant
            k <= infos@.len(),
            infos_ok(infos@),
            best == lowest_pf(infos@.take(k as int)),
            best matches Some(pf) ==> (pf.sriov_off matches Some(o) && o <= 0xFFC),
        decreases infos@.len() - k,
    {
        let info: FuncInfo = infos[k];
        assert(infos@.take(k + 1).drop_last() =~= infos@.take(k as int));
        assert(infos@.take(k + 1).last() == info);
        if info.sriov_off.is_some() {
            best = match best {
                Some(pf) if pf.func_num <= info.func_num => Some(pf),
                _ => Some(info),
            };
        }
        k = k + 1;
    }
    assert(infos@.take(k as int) =~= infos@);
    best
}

fn forward_in_port(s: &mut ConfigSession, port: Option<(u8, u8)>, wanted: bool) -> (r: Option<bool>)
    requires
        old(s).wf(),
    ensures
        final(s).wf(),
        (Run { trace: final(s)@, found: r }) == port_forwarding(old(s)@, port, wanted),
{
    if !wanted {
        return Some(false);
    }
    match port {
        Some((pbus, pdevfn)) => enable_ari_forwarding(s, pbus, pdevfn),
        None => Some(false),
    }
}

/// Detects a device and its functions. `Some(None)` means that it is absent.
/// The flag is whether ARI forwarding is enabled in the port above.
pub fn detect_device(s: &mut ConfigSession, bus: u8, device: u8, port: Option<(u8, u8)>) -> (r: Option<
    Option<(Vec<FuncInfo>, bool)>,
>)
    requires
        old(s).wf(),
    ensures
        final(s).wf(),
        match r {
            Some(Some((infos, ari_forwarding))) => found(
                final(s)@,
                Some(DeviceFunctions { infos: infos@, ari_forwarding }),
            ) == detect(old(s)@, bus, device, port) && infos_ok(infos@),
            Some(None) => found(final(s)@, None::<DeviceFunctions>) == detect(
                old(s)@,
                bus,
                device,
                port,
            ),
            None => pending::<Option<DeviceFunctions>>(final(s)@) == detect(
                old(s)@,
                bus,
                device,
                port,
            ),
        },
{
    let df0: u8 = devfn(device, 0);
    let vendor: u32 = match s.read_u32(bus, df0, DEVICE_VENDOR) {
        None => return None,
        Some(v) => v,
    };
    if vendor == 0xFFFF_FFFF {
        return Some(None);
    }
    let header0: u32 = match s.read_u32(bus, df0, BIST_HEADER) {
        None => return None,
        Some(v) => v,
    };
    let multi_function: bool = decode_header(header0).1;
    // ARI does away with device numbers, so an ARI device is always device 0.
    let ari: Option<u16> = if device == 0 {
        match find_ext_cap(s, bus, df0, EXT_CAP_ID_ARI) {
            None => return None,
            Some(v) => v,
        }
    } else {
        None
    };
    let enabled: bool = match forward_in_port(s, port, ari.is_some()) {
        None => return None,
        Some(v) => v,
    };
    let list: Vec<u8> = if ari.is_some() {
        match ari_function_list(s, bus) {
            None => return None,
            Some(v) => v,
        }
    } else if multi_function {
        match list_functions(s, bus, device) {
            None => return None,
            Some(v) => v,
        }
    } else {
        let mut v: Vec<u8> = Vec::new();
        v.push(0);
        assert(v@ =~= seq![0u8]);
        v
    };
    let infos: Vec<FuncInfo> = match describe_functions(s, bus, device, header0, &list) {
        None => return None,
        Some(v) => v,
    };
    let wanted: bool = !enabled && any_virtual_functions(&infos);
    let newly: bool = match forward_in_port(s, port, wanted) {
        None => return None,
        Some(v) => v,
    };
    let forwarding: bool = enabled || newly;
    if forwarding {
        if let Some(pf) = find_lowest_pf(&infos) {
            if let Some(off) = pf.sriov_off {
                match set_ari_capable_hierarchy(s, bus, pf.devfn, off) {
                    None => return None,
                    Some(_) => {},
                }
            }
        }
    }
    Some(Some((infos, forwarding)))
}

}
