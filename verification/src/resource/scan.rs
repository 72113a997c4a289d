//! The depth-first scan of the buses.
use crate::regs::TYPE1_LATENCY_BUS_NUMBERS;
use crate::resource::device::DiscoveredBar;
use crate::resource::device::DiscoveredDevice;
use crate::resource::device::DiscoveredSriov;
use crate::resource::enumerate::detect;
use crate::resource::enumerate::detect_device;
use crate::resource::enumerate::infos_ok;
use crate::resource::enumerate::FuncInfo;
use crate::resource::params::AssignmentError;
use crate::resource::params::AssignmentParams;
use crate::resource::probe::bars_probe;
use crate::resource::probe::probe_bars;
use crate::resource::probe::probe_sriov;
use crate::resource::probe::sriov_probe;
use crate::resource::probe::SriovProbeResult;
use crate::resource::session::found;
use crate::resource::session::pending;
use crate::resource::session::ConfigAccess;
use crate::resource::session::ConfigSession;
use crate::resource::session::Run;
use crate::resource::session::Trace;
use vstd::prelude::*;

verus! {

/// A device as enumeration finds it.
pub struct FoundDevice {
    /// Bus number.
    pub bus: u8,
    /// Device number.
    pub device: u8,
    /// Function number.
    pub function: u8,
    /// Whether it is a bridge.
    pub is_bridge: bool,
    /// The BARs.
    pub bars: Seq<DiscoveredBar>,
    /// The devices behind it.
    pub children: Seq<FoundDevice>,
    /// Secondary bus number.
    pub secondary_bus: Option<u8>,
    /// Subordinate bus number.
    pub subordinate_bus: Option<u8>,
    /// SR-IOV: offset of the capability, number of VFs and VF BARs.
    pub sriov: Option<(u16, u16, Seq<DiscoveredBar>)>,
    /// Whether its subtree was sized, which is not for enumeration to do.
    pub sized: bool,
}

/// The devices of a list as enumeration finds them.
pub open spec fn list_model(devices: Seq<DiscoveredDevice>) -> Seq<FoundDevice>
    decreases devices,
{
    if devices.len() == 0 {
        Seq::empty()
    } else {
        let d = devices.last();
        list_model(devices.drop_last()).push(
            FoundDevice {
                bus: d.bus,
                device: d.device,
                function: d.function,
                is_bridge: d.is_bridge,
                bars: d.bars@,
                children: list_model(d.children@),
                secondary_bus: d.secondary_bus,
                subordinate_bus: d.subordinate_bus,
                sriov: match d.sriov {
                    Some(s) => Some((s.cap_offset, s.total_vfs, s.vf_bars@)),
                    None => None,
                },
                sized: d.subtree_req is Some,
            },
        )
    }
}

/// The bus number register of a bridge.
pub open spec fn bus_register(primary: u8, secondary: u8, subordinate: u8) -> u32 {
    (primary as u32) | ((secondary as u32) << 8u32) | ((subordinate as u32) << 16u32)
}

/// What does not change while one device is scanned.
pub struct Place {
    /// Bus number.
    pub bus: u8,
    /// Device number.
    pub device: u8,
    /// Last bus number of the host bridge.
    pub end_bus: u8,
    /// Whether BARs keep their addresses.
    pub preserve: bool,
}

/// What a scan comes to: the first bus number that is left and the devices
/// found, or an error.
pub type ScanResult = Result<(int, Seq<FoundDevice>), AssignmentError>;

/// The error for a function that no bus number is left for.
pub open spec fn bus_exhaustion(p: Place, function: u8) -> AssignmentError {
    AssignmentError::BusExhaustion { bus: p.bus, device: p.device, function }
}

/// The buses that the VFs of a PF take: those behind its own have to be free.
pub open spec fn reserve_vf_buses(p: Place, function: u8, max_vf_bus: int, next_bus: int) -> Result<
    int,
    AssignmentError,
> {
    if max_vf_bus > p.end_bus {
        Err(bus_exhaustion(p, function))
    } else if max_vf_bus > p.bus {
        if max_vf_bus < next_bus {
            Err(
                AssignmentError::SriovBusConflict {
                    bus: p.bus,
                    device: p.device,
                    function,
                    max_vf_bus: max_vf_bus as u16,
                    next_bus: next_bus as u16,
                },
            )
        } else {
            Ok(max_vf_bus + 1)
        }
    } else {
        Ok(next_bus)
    }
}

/// The subordinate bus number of a bridge: the last that was taken behind it.
pub open spec fn subordinate_of(next_bus: int, secondary: u8) -> u8 {
    if next_bus - 1 > secondary {
        (next_bus - 1) as u8
    } else {
        secondary
    }
}

/// The scan of the functions of a device, from the one at `k` on.
pub open spec fn functions_scan(
    t: Trace,
    p: Place,
    infos: Seq<FuncInfo>,
    k: int,
    next_bus: int,
    acc: Seq<FoundDevice>,
) -> Run<ScanResult>
    decreases 256 - p.bus, 2 * (256 - p.device), infos.len() - k,
{
    if k < 0 || k >= infos.len() {
        found(t, Ok((next_bus, acc)))
    } else {
        let info = infos[k];
        let b = bars_probe(t, p.bus, info.devfn, info.is_bridge, p.preserve);
        match b.found {
            None => pending(b.trace),
            Some(bars) => {
                let dev = FoundDevice {
                    bus: p.bus,
                    device: p.device,
                    function: info.func_num,
                    is_bridge: info.is_bridge,
                    bars,
                    children: Seq::empty(),
                    secondary_bus: None,
                    subordinate_bus: None,
                    sriov: None,
                    sized: false,
                };
                if info.is_bridge {
                    if next_bus > p.end_bus {
                        found(b.trace, Err(bus_exhaustion(p, info.func_num)))
                    } else if next_bus <= p.bus {
                        arbitrary()
                    } else {
                        let secondary = next_bus as u8;
                        let c = bus_scan(
                            b.trace.write(
                                p.bus,
                                info.devfn,
                                TYPE1_LATENCY_BUS_NUMBERS,
                                bus_register(p.bus, secondary, p.end_bus),
                            ),
                            Place { bus: secondary, device: 0, ..p },
                            Some((p.bus, info.devfn)),
                            next_bus + 1,
                            Seq::empty(),
                        );
                        match c.found {
                            None => pending(c.trace),
                            Some(Err(e)) => found(c.trace, Err(e)),
                            Some(Ok((after, children))) => {
                                let subordinate = subordinate_of(after, secondary);
                                functions_scan(
                                    c.trace.write(
                                        p.bus,
                                        info.devfn,
                                        TYPE1_LATENCY_BUS_NUMBERS,
                                        bus_register(p.bus, secondary, subordinate),
                                    ),
                                    p,
                                    infos,
                                    k + 1,
                                    after,
                                    acc.push(
                                        FoundDevice {
                                            children,
                                            secondary_bus: Some(secondary),
                                            subordinate_bus: Some(subordinate),
                                            ..dev
                                        },
                                    ),
                                )
                            },
                        }
                    }
                } else {
                    let s = sriov_probe(b.trace, p.bus, info.devfn, info.sriov_off, p.preserve);
                    match s.found {
                        None => pending(s.trace),
                        Some(None) => functions_scan(
                            s.trace,
                            p,
                            infos,
                            k + 1,
                            next_bus,
                            acc.push(dev),
                        ),
                        Some(Some(sr)) => match reserve_vf_buses(
                            p,
                            info.func_num,
                            sr.max_vf_bus as int,
                            next_bus,
                        ) {
                            Err(e) => found(s.trace, Err(e)),
                            Ok(after) => functions_scan(
                                s.trace,
                                p,
                                infos,
                                k + 1,
                                after,
                                acc.push(
                                    FoundDevice {
                                        sriov: Some((sr.cap_offset, sr.total_vfs, sr.vf_bars)),
                                        ..dev
                                    },
                                ),
                            ),
                        },
                    }
                }
            },
        }
    }
}

/// The scan of a bus from a device number on. Where ARI forwarding is enabled
/// above a device, further device numbers are its own functions once more and
/// are not scanned.
pub open spec fn bus_scan(
    t: Trace,
    p: Place,
    port: Option<(u8, u8)>,
    next_bus: int,
    acc: Seq<FoundDevice>,
) -> Run<ScanResult>
    decreases 256 - p.bus, 2 * (256 - p.device) + 1, 0int,
{
    if p.device >= 32 {
        found(t, Ok((next_bus, acc)))
    } else {
        let d = detect(t, p.bus, p.device, port);
        match d.found {
            None => pending(d.trace),
            Some(None) => bus_scan(
                d.trace,
                Place { device: (p.device + 1) as u8, ..p },
                port,
                next_bus,
                acc,
            ),
            Some(Some(fs)) => {
                let r = functions_scan(d.trace, p, fs.infos, 0, next_bus, acc);
                match r.found {
                    None => pending(r.trace),
                    Some(Err(e)) => found(r.trace, Err(e)),
                    Some(Ok((after, all))) => if fs.ari_forwarding {
                        found(r.trace, Ok((after, all)))
                    } else {
                        bus_scan(
                            r.trace,
                            Place { device: (p.device + 1) as u8, ..p },
                            port,
                            after,
                            all,
                        )
                    },
                }
            },
        }
    }
}

/// The whole enumeration, from the host bridge's first bus on.
pub open spec fn enumeration(t: Trace, params: AssignmentParams) -> Run<ScanResult> {
    bus_scan(
        t,
        Place {
            bus: params.start_bus,
            device: 0,
            end_bus: params.end_bus,
            preserve: params.preserve_bars,
        },
        None,
        params.start_bus + 1,
        Seq::empty(),
    )
}

proof fn lemma_list_model_push(devices: Seq<DiscoveredDevice>, d: DiscoveredDevice)
    ensures
        list_model(devices.push(d)) == list_model(devices).push(
            FoundDevice {
                bus: d.bus,
                device: d.device,
                function: d.function,
                is_bridge: d.is_bridge,
                bars: d.bars@,
                children: list_model(d.children@),
                secondary_bus: d.secondary_bus,
                subordinate_bus: d.subordinate_bus,
                sriov: match d.sriov {
                    Some(s) => Some((s.cap_offset, s.total_vfs, s.vf_bars@)),
                    None => None,
                },
                sized: d.subtree_req is Some,
            },
        ),
{
    assert(devices.push(d).drop_last() =~= devices);
    assert(devices.push(d).last() == d);
}

/// Takes the buses that the VFs of a PF need. Returns the first bus number that
/// is left.
pub fn reserve_buses(
    bus: u8,
    device: u8,
    function: u8,
    end_bus: u8,
    max_vf_bus: u16,
    next_bus: u16,
) -> (r: Result<u16, AssignmentError>)
    ensures
        match reserve_vf_buses(
            (Place { bus, device, end_bus, preserve: false }),
            function,
            max_vf_bus as int,
            next_bus as int,
        ) {
            Ok(n) => r == Ok::<u16, AssignmentError>(n as u16) && n <= u16::MAX,
            Err(e) => r == Err::<u16, AssignmentError>(e),
        },
{
    if max_vf_bus > end_bus as u16 {
        return Err(AssignmentError::BusExhaustion { bus, device, function });
    }
    if max_vf_bus > bus as u16 {
        if max_vf_bus < next_bus {
            return Err(
                AssignmentError::SriovBusConflict { bus, device, function, max_vf_bus, next_bus },
            );
        }
        return Ok(max_vf_bus + 1);
    }
    Ok(next_bus)
}

/// Scans the functions of a device and adds what it finds to `devices`.
fn scan_functions(
    s: &mut ConfigSession,
    bus: u8,
    device: u8,
    infos: &Vec<FuncInfo>,
    end_bus: u8,
    next_bus: &mut u16,
    preserve: bool,
    devices: &mut Vec<DiscoveredDevice>,
) -> (r: Option<Result<(), AssignmentError>>)
    requires
        old(s).wf(),
        infos_ok(infos@),
        bus < *old(next_bus) <= 256,
        device < 32,
    ensures
        final(s).wf(),
        *old(next_bus) <= *final(next_bus) <= 256,
        ({
            let whole = functions_scan(
                old(s)@,
                Place { bus, device, end_bus, preserve },
                infos@,
                0,
                *old(next_bus) as int,
                list_model(old(devices)@),
            );
            &&& whole.trace == final(s)@
            &&& match r {
                None => whole.found is None,
                Some(Err(e)) => whole.found == Some(ScanResult::Err(e)),
                Some(Ok(_)) => whole.found == Some(
                    ScanResult::Ok((*final(next_bus) as int, list_model(final(devices)@))),
                ),
            }
        }),
    decreases 256 - bus, 0int,
{
    let ghost p = Place { bus, device, end_bus, preserve };
    let ghost whole = functions_scan(
        s@,
        p,
        infos@,
        0,
        *next_bus as int,
        list_model(devices@),
    );
    let mut k: usize = 0;
    while k < infos.len()
        invariant
            s.wf(),
            k <= infos@.len(),
            infos_ok(infos@),
            bus < *next_bus <= 256,
            *old(next_bus) <= *next_bus,
            device < 32,
            p == (Place { bus, device, end_bus, preserve }),
            whole == functions_scan(
                old(s)@,
                p,
                infos@,
                0,
                *old(next_bus) as int,
                list_model(old(devices)@),
            ),
            whole == functions_scan(
                s@,
                p,
                infos@,
                k as int,
                *next_bus as int,
                list_model(devices@),
            ),
        decreases infos@.len() - k,
    {
        let info: FuncInfo = infos[k];
        let ghost known = devices@;
        let bars: Vec<DiscoveredBar> = match probe_bars(
            s,
            bus,
            info.devfn,
            info.is_bridge,
            preserve,
        ) {
            None => return None,
            Some(v) => v,
        };
        let mut dev: DiscoveredDevice = DiscoveredDevice {
            bus,
            device,
            function: info.func_num,
            is_bridge: info.is_bridge,
            bars,
            children: Vec::new(),
            secondary_bus: None,
            subordinate_bus: None,
            sriov: None,
            subtree_req: None,
        };
        assert(list_model(dev.children@) =~= Seq::<FoundDevice>::empty());
        if info.is_bridge {
            if *next_bus > end_bus as u16 {
                return Some(
                    Err(AssignmentError::BusExhaustion { bus, device, function: info.func_num }),
                );
            }
            let secondary: u8 = *next_bus as u8;
            *next_bus = *next_bus + 1;
            s.write_u32(
                bus,
                info.devfn,
                TYPE1_LATENCY_BUS_NUMBERS,
                (bus as u32) | ((secondary as u32) << 8u32) | ((end_bus as u32) << 16u32),
            );
            let children: Vec<DiscoveredDevice> = match scan_bus(
                s,
                secondary,
                Some((bus, info.devfn)),
                end_bus,
                next_bus,
                preserve,
            ) {
                None => return None,
                Some(Err(e)) => return Some(Err(e)),
                Some(Ok(v)) => v,
            };
            let last: u16 = *next_bus - 1;
            let subordinate: u8 = if last > secondary as u16 {
                last as u8
            } else {
                secondary
            };
            s.write_u32(
                bus,
                info.devfn,
                TYPE1_LATENCY_BUS_NUMBERS,
                (bus as u32) | ((secondary as u32) << 8u32) | ((subordinate as u32) << 16u32),
            );
            dev.secondary_bus = Some(secondary);
            dev.subordinate_bus = Some(subordinate);
            dev.children = children;
        } else {
            let probed: Option<SriovProbeResult> = match probe_sriov(
                s,
                bus,
                info.devfn,
                info.sriov_off,
                preserve,
            ) {
                None => return None,
                Some(v) => v,
            };
            if let Some(sr) = probed {
                // VF bus numbers follow from the device's VF offset and stride.
                // Those behind the PF's own bus must not be in use yet.
                match reserve_buses(
                    bus,
                    device,
                    info.func_num,
                    end_bus,
                    sr.max_vf_bus,
                    *next_bus,
                ) {
                    Err(e) => return Some(Err(e)),
                    Ok(n) => {
                        *next_bus = n;
                    },
                }
                dev.sriov = Some(
                    DiscoveredSriov {
                        cap_offset: sr.cap_offset,
                        total_vfs: sr.total_vfs,
                        vf_bars: sr.vf_bars,
                    },
                );
            }
        }
        proof {
            lemma_list_model_push(known, dev);
        }
        devices.push(dev);
        k = k + 1;
    }
    Some(Ok(()))
}

/// Scans a bus and everything behind its bridges. `port` is the bridge above
/// the bus, if there is one.
pub fn scan_bus(
    s: &mut ConfigSession,
    bus: u8,
    port: Option<(u8, u8)>,
    end_bus: u8,
    next_bus: &mut u16,
    preserve: bool,
) -> (r: Option<Result<Vec<DiscoveredDevice>, AssignmentError>>)
    requires
        old(s).wf(),
        bus < *old(next_bus) <= 256,
    ensures
        final(s).wf(),
        *old(next_bus) <= *final(next_bus) <= 256,
        ({
            let whole = bus_scan(
                old(s)@,
                Place { bus, device: 0, end_bus, preserve },
                port,
                *old(next_bus) as int,
                Seq::empty(),
            );
            &&& whole.trace == final(s)@
            &&& match r {
                None => whole.found is None,
                Some(Err(e)) => whole.found == Some(ScanResult::Err(e)),
                Some(Ok(v)) => whole.found == Some(
                    ScanResult::Ok((*final(next_bus) as int, list_model(v@))),
                ),
            }
        }),
    decreases 256 - bus, 1int,
{
    let mut devices: Vec<DiscoveredDevice> = Vec::new();
    let mut device: u8 = 0;
    let ghost whole = bus_scan(
        s@,
        Place { bus, device: 0, end_bus, preserve },
        port,
        *next_bus as int,
        Seq::empty(),
    );
    while device < 32
        invariant
            s.wf(),
            device <= 32,
            bus < *next_bus <= 256,
            *old(next_bus) <= *next_bus,
            whole == bus_scan(
                old(s)@,
                Place { bus, device: 0, end_bus, preserve },
                port,
                *old(next_bus) as int,
                Seq::empty(),
            ),
            whole == bus_scan(
                s@,
                Place { bus, device, end_bus, preserve },
                port,
                *next_bus as int,
                list_model(devices@),
            ),
        decreases 32 - device,
    {
        match detect_device(s, bus, device, port) {
            None => return None,
            Some(None) => {},
            Some(Some((infos, forwarding))) => {
                match scan_functions(
                    s,
                    bus,
                    device,
                    &infos,
                    end_bus,
                    next_bus,
                    preserve,
                    &mut devices,
                ) {
                    None => return None,
                    Some(Err(e)) => return Some(Err(e)),
                    Some(Ok(_)) => {},
                }
                if forwarding {
                    return Some(Ok(devices));
                }
            },
        }
        device = device + 1;
    }
    Some(Ok(devices))
}

/// How far enumeration has come.
#[derive(Debug)]
pub enum Enumeration {
    /// A response is missing. These are the accesses so far, to be made in
    /// order; the last is the read whose response is asked for.
    Access(Vec<ConfigAccess>),
    /// Enumeration is done. These are all accesses, some of which may still
    /// have to be made, and what was found.
    Done(Vec<ConfigAccess>, Result<Vec<DiscoveredDevice>, AssignmentError>),
}

/// Enumerates all devices from the host bridge's first bus on, assigns bus
/// numbers to bridges and probes BAR sizes, as far as the responses of config
/// space go.
///
/// MMIO decode is disabled in each function on the way and stays disabled.
pub fn enumerate_and_probe(params: &AssignmentParams, responses: Vec<u32>) -> (r: Enumeration)
    ensures
        ({
            let t = Trace { responses: responses@, pos: 0, log: Seq::empty() };
            let whole = enumeration(t, *params);
            match r {
                Enumeration::Access(log) => whole.found is None && whole.trace.log == log@,
                Enumeration::Done(log, Err(e)) => whole.trace.log == log@ && whole.found == Some(
                    ScanResult::Err(e),
                ),
                Enumeration::Done(log, Ok(v)) => {
                    &&& whole.trace.log == log@
                    &&& whole.found matches Some(Ok((_, all))) && all == list_model(v@)
                },
            }
        }),
{
    let mut s: ConfigSession = ConfigSession::new(responses);
    let mut next_bus: u16 = params.start_bus as u16 + 1;
    match scan_bus(
        &mut s,
        params.start_bus,
        None,
        params.end_bus,
        &mut next_bus,
        params.preserve_bars,
    ) {
        None => Enumeration::Access(s.log),
        Some(r) => Enumeration::Done(s.log, r),
    }
}

}
