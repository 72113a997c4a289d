//! Walks over the capability lists of a function.
use crate::regs::ARI_CAPABILITY_CONTROL;
use crate::regs::ARI_NEXT_FUNCTION_SHIFT;
use crate::regs::CAP_ID_PCI_EXPRESS;
use crate::regs::CAP_PTR;
use crate::regs::DEVICE_CAPS_2_ARI_FORWARDING;
use crate::regs::DEVICE_CTL_2_ARI_FORWARDING;
use crate::regs::DEVICE_VENDOR;
use crate::regs::EXT_CAP_ID_ARI;
use crate::regs::EXT_CAP_START;
use crate::regs::PCIE_DEVICE_CAPS_2;
use crate::regs::PCIE_DEVICE_CTL_STS_2;
use crate::regs::SRIOV_CONTROL_ARI_CAPABLE_HIERARCHY;
use crate::regs::SRIOV_CONTROL_STATUS;
use crate::regs::STATUS_CAPABILITIES_LIST;
use crate::regs::STATUS_COMMAND;
use crate::resource::session::found;
use crate::resource::session::pending;
use crate::resource::session::ConfigSession;
use crate::resource::session::Run;
use crate::resource::session::Trace;
use vstd::prelude::*;

verus! {

/// A byte of config space, by way of the dword that holds it.
pub open spec fn byte_read(t: Trace, bus: u8, devfn: u8, offset: u16) -> Run<u8> {
    let r = t.read(bus, devfn, offset & !0x3u16);
    match r.found {
        None => pending(r.trace),
        Some(dword) => found(r.trace, (dword >> (((offset & 0x3u16) * 8) as u32)) as u8),
    }
}

/// The walk over the standard capabilities from `ptr` on, of at most `steps`
/// entries, to the PCI Express capability.
pub open spec fn pcie_cap_walk(t: Trace, bus: u8, devfn: u8, ptr: u16, steps: nat) -> Run<
    Option<u16>,
>
    decreases steps,
{
    if steps == 0 || ptr < 0x40 || ptr == 0xFF {
        found(t, None)
    } else {
        let id = byte_read(t, bus, devfn, ptr);
        match id.found {
            None => pending(id.trace),
            Some(cap_id) => if cap_id == CAP_ID_PCI_EXPRESS {
                found(id.trace, Some(ptr))
            } else {
                let next = byte_read(id.trace, bus, devfn, (ptr + 1) as u16);
                match next.found {
                    None => pending(next.trace),
                    Some(p) => pcie_cap_walk(
                        next.trace,
                        bus,
                        devfn,
                        p as u16,
                        (steps - 1) as nat,
                    ),
                }
            },
        }
    }
}

/// Where the PCI Express capability is, if the function has one.
pub open spec fn pcie_cap(t: Trace, bus: u8, devfn: u8) -> Run<Option<u16>> {
    let s = t.read(bus, devfn, STATUS_COMMAND);
    match s.found {
        None => pending(s.trace),
        Some(status) => if ((status >> 16u32) as u16) & STATUS_CAPABILITIES_LIST == 0 {
            found(s.trace, None)
        } else {
            let p = byte_read(s.trace, bus, devfn, CAP_PTR);
            match p.found {
                None => pending(p.trace),
                Some(ptr) => pcie_cap_walk(p.trace, bus, devfn, ptr as u16, 48),
            }
        },
    }
}

/// The next offset that an extended capability header points to.
pub open spec fn next_ext_cap(header: u32) -> u16 {
    ((header >> 20u32) & 0xFFC) as u16
}

/// The walk over the extended capabilities from `offset` on, to the one with
/// the given identifier. Offsets have to increase.
pub open spec fn ext_cap_walk(t: Trace, bus: u8, devfn: u8, cap_id: u16, offset: u16) -> Run<
    Option<u16>,
>
    decreases 0x1_0000 - offset,
{
    if offset < EXT_CAP_START || offset & 0x3u16 != 0 {
        found(t, None)
    } else {
        let h = t.read(bus, devfn, offset);
        match h.found {
            None => pending(h.trace),
            Some(header) => if header == 0 || header == 0xFFFF_FFFF {
                found(h.trace, None)
            } else if (header & 0xFFFF) as u16 == cap_id {
                found(h.trace, Some(offset))
            } else if next_ext_cap(header) == 0 || next_ext_cap(header) <= offset {
                found(h.trace, None)
            } else {
                ext_cap_walk(h.trace, bus, devfn, cap_id, next_ext_cap(header))
            },
        }
    }
}

/// Where the extended capability with the given identifier is, if the function
/// has one.
pub open spec fn ext_cap(t: Trace, bus: u8, devfn: u8, cap_id: u16) -> Run<Option<u16>> {
    ext_cap_walk(t, bus, devfn, cap_id, EXT_CAP_START)
}

/// Enables ARI forwarding in a port that supports it; found is whether it is
/// enabled then.
pub open spec fn ari_forwarding(t: Trace, bus: u8, devfn: u8) -> Run<bool> {
    let c = pcie_cap(t, bus, devfn);
    match c.found {
        None => pending(c.trace),
        Some(None) => found(c.trace, false),
        Some(Some(pcie)) => {
            let caps = c.trace.read(bus, devfn, (pcie + PCIE_DEVICE_CAPS_2) as u16);
            match caps.found {
                None => pending(caps.trace),
                Some(v) => if v & DEVICE_CAPS_2_ARI_FORWARDING == 0 {
                    found(caps.trace, false)
                } else {
                    let off = (pcie + PCIE_DEVICE_CTL_STS_2) as u16;
                    let ctl = caps.trace.read(bus, devfn, off);
                    match ctl.found {
                        None => pending(ctl.trace),
                        Some(ctl_sts) => if (ctl_sts as u16) & DEVICE_CTL_2_ARI_FORWARDING != 0 {
                            found(ctl.trace, true)
                        } else {
                            found(
                                ctl.trace.write(
                                    bus,
                                    devfn,
                                    off,
                                    (ctl_sts & 0xFFFF_0000) | ((ctl_sts as u16)
                                        | DEVICE_CTL_2_ARI_FORWARDING) as u32,
                                ),
                                true,
                            )
                        },
                    }
                },
            }
        },
    }
}

/// Sets the ARI capable hierarchy bit of a PF, if it is not set.
pub open spec fn ari_hierarchy(t: Trace, bus: u8, devfn: u8, sriov: u16) -> Run<()> {
    let off = (sriov + SRIOV_CONTROL_STATUS) as u16;
    let c = t.read(bus, devfn, off);
    match c.found {
        None => pending(c.trace),
        Some(dword) => if (dword as u16) & SRIOV_CONTROL_ARI_CAPABLE_HIERARCHY != 0 {
            found(c.trace, ())
        } else {
            found(
                c.trace.write(
                    bus,
                    devfn,
                    off,
                    ((dword as u16) | SRIOV_CONTROL_ARI_CAPABLE_HIERARCHY) as u32,
                ),
                (),
            )
        },
    }
}

/// The walk over the functions of an ARI device from `func` on, of at most
/// `steps` functions. Function numbers have to increase.
pub open spec fn ari_walk(t: Trace, bus: u8, func: u8, steps: nat, list: Seq<u8>) -> Run<Seq<u8>>
    decreases steps,
{
    if steps == 0 {
        found(t, list)
    } else {
        let v = t.read(bus, func, DEVICE_VENDOR);
        match v.found {
            None => pending(v.trace),
            Some(vendor) => if vendor == 0xFFFF_FFFF {
                found(v.trace, list)
            } else {
                let a = ext_cap(v.trace, bus, func, EXT_CAP_ID_ARI);
                match a.found {
                    None => pending(a.trace),
                    Some(None) => found(a.trace, list.push(func)),
                    Some(Some(off)) => {
                        let c = a.trace.read(bus, func, (off + ARI_CAPABILITY_CONTROL) as u16);
                        match c.found {
                            None => pending(c.trace),
                            Some(cap) => if (cap >> ARI_NEXT_FUNCTION_SHIFT) as u8 <= func {
                                found(c.trace, list.push(func))
                            } else {
                                ari_walk(
                                    c.trace,
                                    bus,
                                    (cap >> ARI_NEXT_FUNCTION_SHIFT) as u8,
                                    (steps - 1) as nat,
                                    list.push(func),
                                )
                            },
                        }
                    },
                }
            },
        }
    }
}

/// The functions of an ARI device.
pub open spec fn ari_functions(t: Trace, bus: u8) -> Run<Seq<u8>> {
    ari_walk(t, bus, 0, 256, Seq::empty())
}

/// An extended capability that is found lies within config space.
pub proof fn lemma_ext_cap_bound(t: Trace, bus: u8, devfn: u8, cap_id: u16, offset: u16)
    requires
        offset <= 0xFFC,
    ensures
        ext_cap_walk(t, bus, devfn, cap_id, offset).found matches Some(Some(o)) ==> EXT_CAP_START
            <= o <= 0xFFC,
    decreases 0x1_0000 - offset,
{
    if !(offset < EXT_CAP_START || offset & 0x3u16 != 0) {
        let h = t.read(bus, devfn, offset);
        if let Some(header) = h.found {
            assert(((header >> 20u32) & 0xFFC) as u16 <= 0xFFC) by (bit_vector);
            if !(header == 0 || header == 0xFFFF_FFFF) && (header & 0xFFFF) as u16 != cap_id && !(
            next_ext_cap(header) == 0 || next_ext_cap(header) <= offset) {
                lemma_ext_cap_bound(h.trace, bus, devfn, cap_id, next_ext_cap(header));
            }
        }
    }
}

/// A PCI Express capability that is found lies in the first 256 bytes.
pub proof fn lemma_pcie_cap_bound(t: Trace, bus: u8, devfn: u8, ptr: u16, steps: nat)
    requires
        ptr <= 0xFF,
    ensures
        pcie_cap_walk(t, bus, devfn, ptr, steps).found matches Some(Some(o)) ==> o <= 0xFF,
    decreases steps,
{
    if !(steps == 0 || ptr < 0x40 || ptr == 0xFF) {
        let id = byte_read(t, bus, devfn, ptr);
        if let Some(cap_id) = id.found {
            let next = byte_read(id.trace, bus, devfn, (ptr + 1) as u16);
            if let Some(p) = next.found {
                lemma_pcie_cap_bound(next.trace, bus, devfn, p as u16, (steps - 1) as nat);
            }
        }
    }
}

/// Reads a byte of config space by way of the dword that holds it.
pub fn read_config_u8(s: &mut ConfigSession, bus: u8, devfn: u8, offset: u16) -> (r: Option<u8>)
    requires
        old(s).wf(),
    ensures
        final(s).wf(),
        (Run { trace: final(s)@, found: r }) == byte_read(old(s)@, bus, devfn, offset),
{
    let dword: Option<u32> = s.read_u32(bus, devfn, offset & !0x3u16);
    assert((offset & 0x3u16) * 8 <= 24) by (bit_vector);
    match dword {
        None => None,
        Some(d) => Some((d >> (((offset & 0x3u16) * 8) as u32)) as u8),
    }
}

/// Walks the standard capabilities list to the PCI Express capability.
pub fn find_pcie_cap(s: &mut ConfigSession, bus: u8, devfn: u8) -> (r: Option<Option<u16>>)
    requires
        old(s).wf(),
    ensures
        final(s).wf(),
        (Run { trace: final(s)@, found: r }) == pcie_cap(old(s)@, bus, devfn),
        r matches Some(Some(o)) ==> o <= 0xFF,
{
    let status: u32 = match s.read_u32(bus, devfn, STATUS_COMMAND) {
        None => return None,
        Some(v) => v,
    };
    if ((status >> 16u32) as u16) & STATUS_CAPABILITIES_LIST == 0 {
        return Some(None);
    }
    let mut ptr: u16 = match read_config_u8(s, bus, devfn, CAP_PTR) {
        None => return None,
        Some(v) => v as u16,
    };
    proof {
        lemma_pcie_cap_bound(s@, bus, devfn, ptr, 48);
    }
    let ghost whole = pcie_cap_walk(s@, bus, devfn, ptr, 48);
    let mut steps: u32 = 48;
    while steps > 0
        invariant
            s.wf(),
            ptr <= 0xFF,
            steps <= 48,
            whole == pcie_cap_walk(s@, bus, devfn, ptr, steps as nat),
            whole == pcie_cap(old(s)@, bus, devfn),
            whole.found matches Some(Some(o)) ==> o <= 0xFF,
        decreases steps,
    {
        if ptr < 0x40 || ptr == 0xFF {
            return Some(None);
        }
        let cap_id: u8 = match read_config_u8(s, bus, devfn, ptr) {
            None => return None,
            Some(v) => v,
        };
        if cap_id == CAP_ID_PCI_EXPRESS {
            return Some(Some(ptr));
        }
        ptr = match read_config_u8(s, bus, devfn, ptr + 1) {
            None => return None,
            Some(v) => v as u16,
        };
        steps = steps - 1;
    }
    Some(None)
}

/// Walks the extended capabilities to the one with the given identifier.
pub fn find_ext_cap(s: &mut ConfigSession, bus: u8, devfn: u8, cap_id: u16) -> (r: Option<
    Option<u16>,
>)
    requires
        old(s).wf(),
    ensures
        final(s).wf(),
        (Run { trace: final(s)@, found: r }) == ext_cap(old(s)@, bus, devfn, cap_id),
        r matches Some(Some(o)) ==> EXT_CAP_START <= o <= 0xFFC,
{
    proof {
        lemma_ext_cap_bound(s@, bus, devfn, cap_id, EXT_CAP_START);
    }
    let ghost whole = ext_cap(s@, bus, devfn, cap_id);
    let mut offset: u16 = EXT_CAP_START;
    loop
        invariant
            s.wf(),
            whole == ext_cap_walk(s@, bus, devfn, cap_id, offset),
            whole == ext_cap(old(s)@, bus, devfn, cap_id),
            whole.found matches Some(Some(o)) ==> EXT_CAP_START <= o <= 0xFFC,
        decreases 0x1_0000 - offset,
    {
        if offset < EXT_CAP_START || offset & 0x3u16 != 0 {
            return Some(None);
        }
        let header: u32 = match s.read_u32(bus, devfn, offset) {
            None => return None,
            Some(v) => v,
        };
        if header == 0 || header == 0xFFFF_FFFF {
            return Some(None);
        }
        let id: u16 = (header & 0xFFFF) as u16;
        let next: u16 = ((header >> 20u32) & 0xFFC) as u16;
        if id == cap_id {
            return Some(Some(offset));
        }
        if next == 0 || next <= offset {
            return Some(None);
        }
        offset = next;
    }
}

/// Enables ARI forwarding in a downstream port that supports it. Returns
/// whether it is enabled then.
pub fn enable_ari_forwarding(s: &mut ConfigSession, bus: u8, devfn: u8) -> (r: Option<bool>)
    requires
        old(s).wf(),
    ensures
        final(s).wf(),
        (Run { trace: final(s)@, found: r }) == ari_forwarding(old(s)@, bus, devfn),
{
    let pcie: u16 = match find_pcie_cap(s, bus, devfn) {
        None => return None,
        Some(None) => return Some(false),
        Some(Some(o)) => o,
    };
    let caps: u32 = match s.read_u32(bus, devfn, pcie + PCIE_DEVICE_CAPS_2) {
        None => return None,
        Some(v) => v,
    };
    if caps & DEVICE_CAPS_2_ARI_FORWARDING == 0 {
        return Some(false);
    }
    let off: u16 = pcie + PCIE_DEVICE_CTL_STS_2;
    let ctl_sts: u32 = match s.read_u32(bus, devfn, off) {
        None => return None,
        Some(v) => v,
    };
    let control: u16 = ctl_sts as u16;
    if control & DEVICE_CTL_2_ARI_FORWARDING != 0 {
        return Some(true);
    }
    // The upper half is the status register, which keeps what was read.
    let new: u32 = (ctl_sts & 0xFFFF_0000) | (control | DEVICE_CTL_2_ARI_FORWARDING) as u32;
    s.write_u32(bus, devfn, off, new);
    Some(true)
}

/// Sets the ARI capable hierarchy bit in a PF's SR-IOV control register.
pub fn set_ari_capable_hierarchy(s: &mut ConfigSession, bus: u8, devfn: u8, sriov: u16) -> (r:
    Option<()>)
    requires
        old(s).wf(),
        sriov + SRIOV_CONTROL_STATUS <= 0xFFFF,
    ensures
        final(s).wf(),
        (Run { trace: final(s)@, found: r }) == ari_hierarchy(old(s)@, bus, devfn, sriov),
{
    let off: u16 = sriov + SRIOV_CONTROL_STATUS;
    let control: u16 = match s.read_u32(bus, devfn, off) {
        None => return None,
        Some(v) => v as u16,
    };
    if control & SRIOV_CONTROL_ARI_CAPABLE_HIERARCHY != 0 {
        return Some(());
    }
    // The status half holds bits that are cleared by writing ones: zeros leave
    // it alone.
    s.write_u32(bus, devfn, off, (control | SRIOV_CONTROL_ARI_CAPABLE_HIERARCHY) as u32);
    Some(())
}

/// Lists the function numbers of an ARI device.
pub fn ari_function_list(s: &mut ConfigSession, bus: u8) -> (r: Option<Vec<u8>>)
    requires
        old(s).wf(),
    ensures
        final(s).wf(),
        match r {
            Some(list) => found(final(s)@, list@) == ari_functions(old(s)@, bus),
            None => pending::<Seq<u8>>(final(s)@) == ari_functions(old(s)@, bus),
        },
{
    let mut list: Vec<u8> = Vec::new();
    let mut func: u8 = 0;
    let mut steps: u32 = 256;
    let ghost whole = ari_functions(s@, bus);
    while steps > 0
        invariant
            s.wf(),
            steps <= 256,
            whole == ari_functions(old(s)@, bus),
            whole == ari_walk(s@, bus, func, steps as nat, list@),
        decreases steps,
    {
        let vendor: u32 = match s.read_u32(bus, func, DEVICE_VENDOR) {
            None => return None,
            Some(v) => v,
        };
        if vendor == 0xFFFF_FFFF {
            return Some(list);
        }
        let ari: Option<u16> = match find_ext_cap(s, bus, func, EXT_CAP_ID_ARI) {
            None => return None,
            Some(v) => v,
        };
        list.push(func);
        let off: u16 = match ari {
            None => return Some(list),
            Some(o) => o,
        };
        let cap: u32 = match s.read_u32(bus, func, off + ARI_CAPABILITY_CONTROL) {
            None => return None,
            Some(v) => v,
        };
        let next: u8 = (cap >> ARI_NEXT_FUNCTION_SHIFT) as u8;
        if next <= func {
            return Some(list);
        }
        func = next;
        steps = steps - 1;
    }
    Some(list)
}

}
