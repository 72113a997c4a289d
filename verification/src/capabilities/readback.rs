//! What is read from the registers of capabilities after a write.
use crate::bars::BarMemoryKind;
use crate::capabilities::acs::AcsExtendedCapability;
use crate::capabilities::aer::aer_initial;
use crate::capabilities::aer::bit_if;
use crate::capabilities::aer::AerCapabilityConfig;
use crate::capabilities::aer::AerExtendedCapability;
use crate::capabilities::aer::AerPortType;
use crate::capabilities::dpc::dpc_capability_value;
use crate::capabilities::dpc::flag;
use crate::capabilities::dpc::DpcCapabilityConfig;
use crate::capabilities::dpc::DpcExtendedCapability;
use crate::capabilities::msi::msi_idle;
use crate::capabilities::msi::MsiCapability;
use crate::capabilities::pci_express::hotplug_set;
use crate::capabilities::pci_express::presence_set;
use crate::capabilities::pci_express::FlrHandler;
use crate::capabilities::pci_express::PciExpressCapability;
use crate::capabilities::sriov::sriov_made_from;
use crate::capabilities::sriov::sriov_wf;
use crate::capabilities::sriov::synced;
use crate::capabilities::sriov::synced_entry;
use crate::capabilities::sriov::vf_size;
use crate::capabilities::sriov::SriovConfig;
use crate::capabilities::sriov::SriovExtendedCapability;
use crate::capabilities::sriov::SriovVfChange;
use crate::capabilities::DevicePortType;
use crate::capabilities::PciCapability;
use crate::capabilities::PciExtendedCapability;
use crate::io::law_all_bytes;
use crate::io::lemma_joined;
use crate::resource::sounding::lemma_wide;
use vstd::prelude::*;

verus! {

/// A dword that is written to an AER register is read back where masks and severities
/// are. In a status register it clears the bits that are ones, of those that can be
/// set. No other register changes.
pub proof fn law_aer_read_back(cap: AerExtendedCapability, offset: u16, val: u32, other: u16)
    requires
        other != offset,
    ensures
        ({
            let next = cap.written(offset, val);
            let root = cap.port_type == AerPortType::RootPort;
            &&& offset == 0x08 || offset == 0x0C || offset == 0x14 ==> next.value(offset) == val
            &&& offset == 0x04 ==> next.value(offset) == cap.value(offset) & !(val & 0xFFFF_F030)
            &&& offset == 0x10 ==> next.value(offset) == cap.value(offset) & !(val & 0x0000_F1C1)
            &&& offset == 0x2C && root ==> next.value(offset) == val & 0x7
            &&& offset == 0x30 && root ==> next.value(offset) == cap.value(offset) & !(val & 0x7F)
            &&& offset != 0x04 && offset != 0x08 && offset != 0x0C && offset != 0x10 && offset
                != 0x14 && offset != 0x18 && (!root || (offset != 0x2C && offset != 0x30)) ==> next
                == cap
            &&& next.value(other) == cap.value(other)
            &&& next.port_type == cap.port_type
        }),
{
    law_all_bytes(val, cap.unc_err_status);
    law_all_bytes(val, cap.unc_err_mask);
    law_all_bytes(val, cap.unc_err_severity);
    law_all_bytes(val, cap.cor_err_status);
    law_all_bytes(val, cap.cor_err_mask);
    law_all_bytes(val, cap.root_error_command);
    law_all_bytes(val, cap.root_error_status);
}

/// A reset of AER clears status and root registers, and brings back the masks and
/// severities that a port starts with.
pub proof fn law_aer_reset(cap: AerExtendedCapability)
    ensures
        cap.after_reset().value(0x04) == 0,
        cap.after_reset().value(0x08) == 0x0440_0000,
        cap.after_reset().value(0x0C) == 0x0046_2030,
        cap.after_reset().value(0x10) == 0,
        cap.after_reset().value(0x14) == 0x0000_E000,
        cap.after_reset().value(0x2C) == 0,
        cap.after_reset().value(0x30) == 0,
        cap.after_reset().value(0x34) == 0,
        cap.after_reset().port_type == cap.port_type,
{
}

/// The upper half of the ACS register takes the control bits whose capability, in the
/// lower half, is there. No other write does anything.
pub proof fn law_acs_read_back(cap: AcsExtendedCapability, offset: u16, val: u32)
    ensures
        ({
            let next = cap.written(offset, val);
            &&& offset == 4 ==> {
                &&& next.value(4) as u16 == cap.value(4) as u16
                &&& (next.value(4) >> 16u32) as u16 == (val >> 16u32) as u16 & cap.value(4) as u16
            }
            &&& offset != 4 ==> next == cap
        }),
{
    let next = cap.written(offset, val);
    lemma_joined(cap.capabilities, cap.control);
    lemma_joined(next.capabilities, next.control);
}

proof fn lemma_msi_bits(a: u64, v: u32)
    ensures
        ((a & 0xFFFF_FFFF_0000_0000) | (v as u64)) as u32 == v,
        (((a & 0xFFFF_FFFF_0000_0000) | (v as u64)) >> 32u64) as u32 == (a >> 32u64) as u32,
        ((a & 0xFFFF_FFFF) | ((v as u64) << 32u64)) as u32 == a as u32,
        (((a & 0xFFFF_FFFF) | ((v as u64) << 32u64)) >> 32u64) as u32 == v,
        ((v >> 16u32) & 0xFFFF) & 1 != 0 <==> v & 0x1_0000 != 0,
        ((((v >> 16u32) & 0xFFFF) >> 4u32) & 0x7) as u8 == ((v >> 20u32) & 0x7) as u8,
        v as u16 as u32 == v & 0xFFFF,
{
    assert({
        &&& ((a & 0xFFFF_FFFF_0000_0000) | (v as u64)) as u32 == v
        &&& (((a & 0xFFFF_FFFF_0000_0000) | (v as u64)) >> 32u64) as u32 == (a >> 32u64) as u32
        &&& ((a & 0xFFFF_FFFF) | ((v as u64) << 32u64)) as u32 == a as u32
        &&& (((a & 0xFFFF_FFFF) | ((v as u64) << 32u64)) >> 32u64) as u32 == v
        &&& ((v >> 16u32) & 0xFFFF) & 1 != 0 <==> v & 0x1_0000 != 0
        &&& ((((v >> 16u32) & 0xFFFF) >> 4u32) & 0x7) as u8 == ((v >> 20u32) & 0x7) as u8
        &&& v as u16 as u32 == v & 0xFFFF
    }) by (bit_vector);
}

/// What is written to a register of MSI is read back: the address at 4, with its upper
/// half at 8 where addresses have 64 bits, the data behind it, and the mask, where
/// there is one. No other register changes.
pub proof fn law_msi_read_back(cap: MsiCapability, offset: u16, val: u32, other: u16)
    requires
        other != offset,
    ensures
        ({
            let next = cap.written(offset, val);
            let data = if cap.addr_64bit {
                0x0Cu16
            } else {
                0x08
            };
            let masks = cap.addr_64bit && cap.per_vector_masking;
            &&& offset == 4 ==> next.value(4) == val
            &&& offset == 8 && cap.addr_64bit ==> next.value(8) == val
            &&& offset == data ==> next.value(data) == val & 0xFFFF
            &&& offset == 0x10 && masks ==> next.value(0x10) == val
            &&& offset != 0 && offset != 4 && offset != data && !(offset == 8 && cap.addr_64bit)
                && !(offset == 0x10 && masks) ==> next == cap
            &&& next.value(other) == cap.value(other)
        }),
{
    lemma_msi_bits(cap.state.address, val);
}

/// A write of the control register enables MSI by bit 16, and allocates as many
/// messages as bits 20 to 22 ask for, as far as they can be had. The interrupt is
/// armed with the message in the registers when MSI becomes enabled, and disarmed when
/// it becomes disabled.
pub proof fn law_msi_control(cap: MsiCapability, val: u32)
    ensures
        ({
            let next = cap.written(0, val);
            let asked = ((val >> 20u32) & 0x7) as u8;
            &&& next.state.enabled <==> val & 0x1_0000 != 0
            &&& next.state.multiple_message_enable <= cap.state.multiple_message_capable
            &&& next.state.multiple_message_enable <= asked
            &&& next.state.multiple_message_enable == asked || next.state.multiple_message_enable
                == cap.state.multiple_message_capable
            &&& !cap.state.enabled && next.state.enabled ==> (
            next.state.interrupt.armed matches Some(m) && m.address == cap.state.address && m.data
                == cap.state.data)
            &&& cap.state.enabled && !next.state.enabled ==> next.state.interrupt.armed is None
            &&& cap.state.enabled == next.state.enabled ==> next.state.interrupt
                == cap.state.interrupt
            &&& next.state.multiple_message_capable == cap.state.multiple_message_capable
        }),
{
    lemma_msi_bits(cap.state.address, val);
}

proof fn lemma_slot_bits(s: u16, l: u16)
    ensures
        ((s | 0x0040) | 0x0008 | 0x0100) & !0x0148u16 == s & !0x0148u16,
        ((s | 0x0040) | 0x0008 | 0x0100) & 0x0148u16 == 0x0148,
        ((s & !0x0040u16) | 0x0008 | 0x0100) & !0x0148u16 == s & !0x0148u16,
        ((s & !0x0040u16) | 0x0008 | 0x0100) & 0x0148u16 == 0x0108,
        (s | 0x0040) & 0x0040 == 0x0040,
        (s | 0x0040) & !0x0040u16 == s & !0x0040u16,
        (s & !0x0040u16) & 0x0040 == 0,
        (s & !0x0040u16) & !0x0040u16 == s & !0x0040u16,
        (l | 0x2000) & 0x2000 == 0x2000,
        (l | 0x2000) & !0x2000u16 == l & !0x2000u16,
        (l & !0x2000u16) & 0x2000 == 0,
        (l & !0x2000u16) & !0x2000u16 == l & !0x2000u16,
{
    assert({
        &&& ((s | 0x0040) | 0x0008 | 0x0100) & !0x0148u16 == s & !0x0148u16
        &&& ((s | 0x0040) | 0x0008 | 0x0100) & 0x0148u16 == 0x0148
        &&& ((s & !0x0040u16) | 0x0008 | 0x0100) & !0x0148u16 == s & !0x0148u16
        &&& ((s & !0x0040u16) | 0x0008 | 0x0100) & 0x0148u16 == 0x0108
        &&& (s | 0x0040) & 0x0040 == 0x0040
        &&& (s | 0x0040) & !0x0040u16 == s & !0x0040u16
        &&& (s & !0x0040u16) & 0x0040 == 0
        &&& (s & !0x0040u16) & !0x0040u16 == s & !0x0040u16
        &&& (l | 0x2000) & 0x2000 == 0x2000
        &&& (l | 0x2000) & !0x2000u16 == l & !0x2000u16
        &&& (l & !0x2000u16) & 0x2000 == 0
        &&& (l & !0x2000u16) & !0x2000u16 == l & !0x2000u16
    }) by (bit_vector);
}

/// What is written to the control half of the device register is read back, but for
/// the bit that starts a reset, and the same of the control half of the slot register
/// where there is a slot. In the status halves a one clears an event, and nothing else
/// does anything there. No other register changes.
pub proof fn law_express_read_back<H: FlrHandler>(
    cap: PciExpressCapability<H>,
    offset: u16,
    val: u32,
    other: u16,
)
    requires
        other != offset,
    ensures
        ({
            let next = cap.written(offset, val);
            let before = (cap.value(offset) >> 16u32) as u16;
            let asked = (val >> 16u32) as u16;
            &&& offset == 0x08 ==> {
                &&& next.value(8) as u16 == val as u16 & !0x8000u16
                &&& (next.value(8) >> 16u32) as u16 == before & !(asked & 0x000F)
            }
            &&& offset == 0x18 && cap.slot is Some ==> {
                &&& next.value(0x18) as u16 == val as u16
                &&& (next.value(0x18) >> 16u32) as u16 == before & !(asked & 0x011F)
            }
            &&& offset != 0x08 && offset != 0x18 ==> next == cap
            &&& next.value(other) == cap.value(other)
        }),
{
    let next = cap.written(offset, val);
    lemma_joined(cap.state.device_control, cap.state.device_status);
    lemma_joined(next.state.device_control, next.state.device_status);
    if cap.slot is Some {
        lemma_joined(cap.slot->0.control, cap.slot->0.status);
        lemma_joined(next.slot->0.control, next.slot->0.status);
    }
}

/// When something is plugged in or taken out, the slot says so: bit 6 of its status,
/// that there is something, and bit 13 of its link status, that the link is up,
/// follow, and bits 3 and 8 of the status note the changes. Nothing else changes, and
/// without a slot nothing does.
pub proof fn law_hotplug_noted<H>(cap: PciExpressCapability<H>, present: bool)
    ensures
        ({
            let next = hotplug_set(cap, present);
            &&& next.slot is Some <==> cap.slot is Some
            &&& next.state == cap.state
            &&& next.device_capabilities == cap.device_capabilities
            &&& cap.slot is Some ==> {
                let (s, t) = (cap.slot->0, next.slot->0);
                &&& t.status & 0x0148 == if present {
                    0x0148u16
                } else {
                    0x0108
                }
                &&& t.status & !0x0148u16 == s.status & !0x0148u16
                &&& t.link_status & 0x2000 == if present {
                    0x2000u16
                } else {
                    0
                }
                &&& t.link_status & !0x2000u16 == s.link_status & !0x2000u16
                &&& t.control == s.control
                &&& t.capabilities == s.capabilities
            }
        }),
{
    if cap.slot is Some {
        lemma_slot_bits(cap.slot->0.status, cap.slot->0.link_status);
    }
}

/// What is in a slot can be set without an event: only bit 6 of the status follows.
pub proof fn law_presence_noted<H>(cap: PciExpressCapability<H>, present: bool)
    ensures
        ({
            let next = presence_set(cap, present);
            &&& next.slot is Some <==> cap.slot is Some
            &&& next.state == cap.state
            &&& cap.slot is Some ==> {
                let (s, t) = (cap.slot->0, next.slot->0);
                &&& t.status & 0x0040 == if present {
                    0x0040u16
                } else {
                    0
                }
                &&& t.status & !0x0040u16 == s.status & !0x0040u16
                &&& t.link_status == s.link_status
                &&& t.control == s.control
                &&& t.capabilities == s.capabilities
            }
        }),
{
    if cap.slot is Some {
        lemma_slot_bits(cap.slot->0.status, cap.slot->0.link_status);
    }
}

/// What is written to the control half of the SR-IOV register is read back, but for
/// the two bits of VF migration. Where it changes whether VFs are enabled, the change
/// is noted, with the number of VFs. The number of VFs can be changed only while they
/// are disabled, and up to the total. The registers that describe the VFs take no
/// writes.
pub proof fn law_sriov_read_back(cap: SriovExtendedCapability, offset: u16, val: u32)
    ensures
        ({
            let next = cap.written(offset, val);
            let enabled = cap.control & 1 != 0;
            &&& offset == 0x08 ==> {
                &&& next.value(8) as u16 == val as u16 & !0x0006u16
                &&& next.value(0x10) == cap.value(0x10)
                &&& (val as u16 & 1 != 0) != enabled ==> next.decode.pending_vf_change == Some(
                    SriovVfChange { enabled: !enabled, num_vfs: cap.num_vfs },
                )
                &&& (val as u16 & 1 != 0) == enabled ==> next.decode.pending_vf_change
                    == cap.decode.pending_vf_change
            }
            &&& offset == 0x10 && !enabled ==> {
                &&& next.num_vfs <= cap.total_vfs
                &&& next.num_vfs <= val as u16
                &&& next.num_vfs == val as u16 || next.num_vfs == cap.total_vfs
                &&& next.value(0x10) == next.num_vfs
            }
            &&& offset == 0x10 && enabled ==> next == cap
            &&& offset != 0x08 ==> next.value(8) == cap.value(8) && next.decode.pending_vf_change
                == cap.decode.pending_vf_change
            &&& offset != 0x08 && offset != 0x10 && offset != 0x20 && !(0x24 <= offset < 0x3C
                && offset % 4 == 0) ==> next == cap
            &&& next.value(0x0C) == cap.value(0x0C)
            &&& next.value(0x14) == cap.value(0x14)
            &&& next.value(0x18) == cap.value(0x18)
            &&& next.value(0x1C) == cap.value(0x1C)
        }),
{
    let next = cap.written(offset, val);
    lemma_joined(next.control, next.status);
}

/// What the registers of SR-IOV say of the VFs: how many there can be, where the first
/// is, how far apart they are, and which device they are.
pub proof fn law_sriov_described(cap: SriovExtendedCapability)
    ensures
        cap.value(0x0C) as u16 == cap.initial_vfs,
        (cap.value(0x0C) >> 16u32) as u16 == cap.total_vfs,
        cap.value(0x14) as u16 == cap.first_vf_offset,
        (cap.value(0x14) >> 16u32) as u16 == cap.vf_stride,
{
    lemma_joined(cap.initial_vfs, cap.total_vfs);
    lemma_joined(cap.first_vf_offset, cap.vf_stride);
}

/// What is written to a register of the root port extensions of DPC is kept in the
/// bits that are valid, and in the status register it clears the bits that are ones.
/// In the status of DPC a one clears an event: bits 0, 3 and 13. No other register
/// changes, and without the extensions only the first two do.
pub proof fn law_dpc_read_back(cap: DpcExtendedCapability, offset: u16, val: u32, other: u16)
    requires
        other != offset,
        offset != 4,
    ensures
        ({
            let next = cap.written(offset, val);
            let rp = cap.capability & 0x0020 != 0;
            &&& offset == 0x08 ==> {
                &&& next.value(8) as u16 == cap.status & !((val as u16) & 0x2009)
                &&& (next.value(8) >> 16u32) as u16 == cap.error_source_id
            }
            &&& offset == 0x0C && rp ==> next.value(offset) == cap.value(offset) & !(val
                & 0x0007_0707)
            &&& (offset == 0x10 || offset == 0x14 || offset == 0x18 || offset == 0x1C) && rp
                ==> next.value(offset) == val & 0x0007_0707
            &&& offset != 0x08 && !(rp && 0x0C <= offset <= 0x1C && offset % 4 == 0) ==> next
                == cap
            &&& next.value(other) == cap.value(other)
        }),
{
    let next = cap.written(offset, val);
    lemma_joined(next.status, next.error_source_id);
    law_all_bytes(val, 0);
    law_all_bytes(val, cap.rp_pio_mask);
    law_all_bytes(val, cap.rp_pio_severity);
    law_all_bytes(val, cap.rp_pio_syserror);
    law_all_bytes(val, cap.rp_pio_exception);
}

/// A new AER capability reads as one that was reset, but for masks and severities that
/// it is given.
pub proof fn law_new_aer(port_type: AerPortType, config: AerCapabilityConfig, offset: u16)
    ensures
        ({
            let cap = aer_initial(port_type, config);
            &&& config.uncorrectable_mask matches Some(v) ==> cap.value(0x08) == v
            &&& config.uncorrectable_severity_mask matches Some(v) ==> cap.value(0x0C) == v
            &&& config.correctable_mask matches Some(v) ==> cap.value(0x14) == v
            &&& (offset == 0x08 ==> config.uncorrectable_mask is None) && (offset == 0x0C
                ==> config.uncorrectable_severity_mask is None) && (offset == 0x14
                ==> config.correctable_mask is None) ==> cap.value(offset)
                == cap.after_reset().value(offset)
            &&& cap.port_type == port_type
        }),
{
}

/// A new MSI capability is as a reset leaves it: disabled, with nothing programmed,
/// and with all vectors masked if they can be.
pub proof fn law_new_msi(multiple_message_capable: u8, addr_64bit: bool, per_vector_masking: bool)
    ensures
        ({
            let cap = MsiCapability {
                state: msi_idle(multiple_message_capable, per_vector_masking),
                addr_64bit,
                per_vector_masking,
            };
            &&& cap.after_reset() == cap
            &&& !cap.state.enabled
            &&& cap.state.interrupt.armed is None
            &&& cap.value(4) == 0
            &&& cap.state.multiple_message_capable == multiple_message_capable
            &&& addr_64bit && per_vector_masking ==> cap.value(0x10) == 0xFFFF_FFFF
        }),
{
}

proof fn lemma_express_bits(code: u32, slot: u32, number: u8)
    requires
        code <= 15,
        slot == 0 || slot == 0x0100,
    ensures
        ({
            let v = ((0x0002u32 | (code << 4u32) | slot | (((number & 0x1f) as u32) << 9u32))
                << 16u32) | 0x10;
            &&& v & 0xFF == 0x10
            &&& (v >> 16u32) & 0xF == 2
            &&& (v >> 20u32) & 0xF == code
            &&& v & 0x0100_0000 != 0 <==> slot != 0
            &&& (v >> 25u32) & 0x1F == (number & 0x1f) as u32
        }),
{
    assert(code <= 15 && (slot == 0 || slot == 0x0100) ==> {
        let v = ((0x0002u32 | (code << 4u32) | slot | (((number & 0x1f) as u32) << 9u32))
            << 16u32) | 0x10;
        &&& v & 0xFF == 0x10
        &&& (v >> 16u32) & 0xF == 2
        &&& (v >> 20u32) & 0xF == code
        &&& v & 0x0100_0000 != 0 <==> slot != 0
        &&& (v >> 25u32) & 0x1F == (number & 0x1f) as u32
    }) by (bit_vector);
}

/// The first dword of a PCI Express capability says that it is one, of version 2, what
/// kind of function it is of, whether there is a slot, and the number of the interrupt
/// message.
pub proof fn law_express_header<H: FlrHandler>(cap: PciExpressCapability<H>)
    ensures
        cap.value(0) & 0xFF == 0x10,
        (cap.value(0) >> 16u32) & 0xF == 2,
        (cap.value(0) >> 20u32) & 0xF == match cap.port_type {
            DevicePortType::Endpoint => 0u32,
            DevicePortType::RootPort => 4,
            DevicePortType::UpstreamSwitchPort => 5,
            DevicePortType::DownstreamSwitchPort => 6,
        },
        cap.value(0) & 0x0100_0000 != 0 <==> cap.slot is Some,
        (cap.value(0) >> 25u32) & 0x1F == (cap.interrupt_message_number & 0x1f) as u32,
{
    lemma_express_bits(
        match cap.port_type {
            DevicePortType::Endpoint => 0,
            DevicePortType::RootPort => 4,
            DevicePortType::UpstreamSwitchPort => 5,
            DevicePortType::DownstreamSwitchPort => 6,
        },
        if cap.slot is Some {
            0x0100
        } else {
            0
        },
        cap.interrupt_message_number,
    );
}

/// A VF BAR is decoded while VFs and their memory are enabled, by bits 0 and 3 of the
/// control register, from the address on that is in its registers, if that is not
/// zero.
pub proof fn law_vf_base(cap: SriovExtendedCapability, i: int)
    requires
        sriov_wf(cap),
        0 <= i < 6,
        cap.vf_bar_sizes.at(i) > 0,
    ensures
        ({
            let low = cap.vf_bar_regs.at(i) & !0xFu32;
            let two = cap.vf_bar_encoding.at(i) & 4 != 0 && i < 5;
            let address = low + if two {
                cap.vf_bar_regs.at(i + 1) * 0x1_0000_0000
            } else {
                0
            };
            let on = cap.control & 1 != 0 && cap.control & 8 != 0 && address != 0;
            &&& cap.decode.bars.at(i).vf0_base is Some <==> on
            &&& on ==> cap.decode.bars.at(i).vf0_base->0 == address
        }),
{
    let low = cap.vf_bar_regs.at(i) & !0xFu32;
    lemma_wide(cap.vf_bar_regs.at(i + 1), low);
    lemma_wide(0, low);
    assert(synced(cap).decode.bars.at(i) == synced_entry(cap, i));
}

proof fn lemma_flag_bits(n: u16, a: u16, b: u16, c: u16, d: u16, wide: u32, prefetch: u32)
    requires
        a == 0 || a == 0x20,
        b == 0 || b == 0x40,
        c == 0 || c == 0x80,
        d == 0 || d == 0x1000,
        n <= 0x1f,
        wide == 0 || wide == 4,
        prefetch == 0 || prefetch == 8,
    ensures
        ({
            let v = n | a | b | c | d | (if a == 0 {
                0u16
            } else {
                0x0400
            });
            &&& v & 0x1f == n
            &&& v & 0x0020 == a
            &&& v & 0x0040 == b
            &&& v & 0x0080 == c
            &&& v & 0x1000 == d
            &&& v & 0x0F00 == if a == 0 {
                0u16
            } else {
                0x0400
            }
        }),
        (wide | prefetch) & 4 == wide,
        (wide | prefetch) & 8 == prefetch,
{
    let e = if a == 0 {
        0u16
    } else {
        0x0400
    };
    assert({
        let v = n | a | b | c | d | e;
        &&& v & 0x1f == n
        &&& v & 0x0020 == a
        &&& v & 0x0040 == b
        &&& v & 0x0080 == c
        &&& v & 0x1000 == d
        &&& v & 0x0F00 == e
        &&& (wide | prefetch) & 4 == wide
        &&& (wide | prefetch) & 8 == prefetch
    }) by (bit_vector)
        requires
            a == 0 || a == 0x20,
            b == 0 || b == 0x40,
            c == 0 || c == 0x80,
            d == 0 || d == 0x1000,
            n <= 0x1f,
            e == 0 && a == 0 || e == 0x0400 && a != 0,
            wide == 0 || wide == 4,
            prefetch == 0 || prefetch == 8,
    ;
}

/// What the DPC capability register says: the number of the interrupt message, whether
/// there are the extensions of a root port, with a log of four dwords, and which of
/// the other features it was given.
pub proof fn law_dpc_features(port_type: DevicePortType, config: DpcCapabilityConfig)
    ensures
        ({
            let v = dpc_capability_value(port_type, config);
            let root = port_type == DevicePortType::RootPort;
            &&& config.dpc_interrupt_message_number is Some && config.dpc_interrupt_message_number->0
                <= 0x1f ==> v & 0x1f == config.dpc_interrupt_message_number->0
            &&& v & 0x0020 != 0 <==> root
            &&& v & 0x0F00 == if root {
                0x0400u16
            } else {
                0
            }
            &&& v & 0x0040 != 0 <==> config.poisoned_tlp_egress_blocking_supported
            &&& v & 0x0080 != 0 <==> config.dpc_software_triggering_supported
            &&& v & 0x1000 != 0 <==> config.dl_active_err_cor_signaling_supported
        }),
{
    let number = match config.dpc_interrupt_message_number {
        Some(n) => n,
        None => 0,
    };
    let root = port_type == DevicePortType::RootPort;
    lemma_number_bits(number);
    lemma_flag_bits(
        (number & 0x1f) as u16,
        flag(root, 0x20),
        flag(config.poisoned_tlp_egress_blocking_supported, 0x40),
        flag(config.dpc_software_triggering_supported, 0x80),
        flag(config.dl_active_err_cor_signaling_supported, 0x1000),
        0,
        0,
    );
}

proof fn lemma_number_bits(n: u8)
    ensures
        n & 0x1f <= 0x1f,
        n <= 0x1f ==> n & 0x1f == n,
{
    assert(n & 0x1f <= 0x1f && (n <= 0x1f ==> n & 0x1f == n)) by (bit_vector);
}

/// A new SR-IOV capability describes the VFs that it was made for, with none enabled.
/// Each VF BAR has the size that it was given, and its register says what kind it is.
pub proof fn law_new_sriov(
    cap: SriovExtendedCapability,
    config: SriovConfig,
    vf_bars: [Option<BarMemoryKind>; 6],
    i: int,
)
    requires
        sriov_made_from(cap, config, vf_bars),
        0 <= i < 6,
    ensures
        (cap.value(0x0C) >> 16u32) as u16 == config.total_vfs,
        cap.value(0x0C) as u16 == config.total_vfs,
        cap.value(0x14) as u16 == config.first_vf_offset,
        (cap.value(0x14) >> 16u32) as u16 == config.vf_stride,
        cap.value(0x10) == 0,
        cap.control == 0,
        cap.decode.pending_vf_change is None,
        cap.decode.bars.at(i).vf0_base is None,
        match config.vf_bars[i] {
            Some(b) => {
                &&& cap.vf_bar_sizes.at(i) == b.size
                &&& cap.vf_bar_regs.at(i) & 4 != 0 <==> b.is_64bit
                &&& cap.vf_bar_regs.at(i) & 8 != 0 <==> b.prefetchable
            },
            None => cap.vf_bar_sizes.at(i) == 0,
        },
{
    law_sriov_described(cap);
    assert(cap.vf_bar_sizes.at(i) == vf_size(config.vf_bars[i]));
    if let Some(b) = config.vf_bars[i] {
        lemma_flag_bits(
            0,
            0,
            0,
            0,
            0,
            if b.is_64bit {
                4
            } else {
                0
            },
            if b.prefetchable {
                8
            } else {
                0
            },
        );
    }
}

/// The advanced register of AER takes the enable bits of the features that there are:
/// bit 6 of ECRC generation, bit 8 of ECRC checking, and bit 10 of the recording of
/// several headers, of which bits 5, 7 and 9 say that they are there. Without its
/// feature an enable bit reads as zero. The other bits of the register stay.
pub proof fn law_aer_features(cap: AerExtendedCapability, val: u32)
    ensures
        ({
            let a = cap.advanced_capabilities;
            let v = cap.written(0x18, val).value(0x18);
            &&& v & 0x0020 != 0 <==> a.ecrc_generation_capable
            &&& v & 0x0080 != 0 <==> a.ecrc_check_capable
            &&& v & 0x0200 != 0 <==> a.multiple_header_recording_capable
            &&& v & 0x0040 != 0 <==> a.ecrc_generation_capable && val & 0x0040 != 0
            &&& v & 0x0100 != 0 <==> a.ecrc_check_capable && val & 0x0100 != 0
            &&& v & 0x0400 != 0 <==> a.multiple_header_recording_capable && val & 0x0400 != 0
            &&& v & !0x0540u32 == cap.value(0x18) & !0x0540u32
        }),
{
    let a = cap.advanced_capabilities;
    law_all_bytes(val, cap.aer_cap_ctl);
    let c = cap.aer_cap_ctl;
    let n = cap.written(0x18, val).aer_cap_ctl;
    let (g, k, m, p, t) = (
        bit_if(a.ecrc_generation_capable, 0x20),
        bit_if(a.ecrc_check_capable, 0x80),
        bit_if(a.multiple_header_recording_capable, 0x200),
        bit_if(a.tlp_prefix_log_present, 0x800),
        bit_if(a.completion_timeout_prefix_header_log_capable, 0x1000),
    );
    let (x, y, z) = (
        bit_if(a.ecrc_generation_capable, 0x40),
        bit_if(a.ecrc_check_capable, 0x100),
        bit_if(a.multiple_header_recording_capable, 0x400),
    );
    let s = a.header_log_size_dw;
    assert({
        let v = (n & 0x540) | g | k | m | p | t | (((s & 0x1f) as u32) << 13u32);
        let w = (c & 0x540) | g | k | m | p | t | (((s & 0x1f) as u32) << 13u32);
        &&& v & 0x0020 == g
        &&& v & 0x0080 == k
        &&& v & 0x0200 == m
        &&& v & 0x0040 == x & val
        &&& v & 0x0100 == y & val
        &&& v & 0x0400 == z & val
        &&& v & !0x0540u32 == w & !0x0540u32
        &&& 0u32 & val == 0
        &&& 0x40u32 & val == val & 0x40
        &&& 0x100u32 & val == val & 0x100
        &&& 0x400u32 & val == val & 0x400
    }) by (bit_vector)
        requires
            n == (c & !0x540u32) | (val & 0x540 & (x | y | z)),
            g == 0 || g == 0x20,
            k == 0 || k == 0x80,
            m == 0 || m == 0x200,
            p == 0 || p == 0x800,
            t == 0 || t == 0x1000,
            x == 0 || x == 0x40,
            y == 0 || y == 0x100,
            z == 0 || z == 0x400,
    ;
}

}
