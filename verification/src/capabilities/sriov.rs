//! PCIe Single Root I/O Virtualization (SR-IOV) extended capability.
use crate::bars::BarMemoryKind;
use crate::capabilities::ext_header;
use crate::capabilities::PciExtendedCapability;
use crate::regs::BAR_ENCODING_64BIT;
use crate::regs::BAR_ENCODING_MASK;
use crate::regs::BAR_ENCODING_PREFETCHABLE;
use crate::regs::EXT_CAP_ID_SRIOV;
use crate::regs::SRIOV_CAPS;
use crate::regs::SRIOV_CONTROL_STATUS;
use crate::regs::SRIOV_INITIAL_TOTAL_VFS;
use crate::regs::SRIOV_NUM_VFS;
use crate::regs::SRIOV_SUPPORTED_PAGE_SIZES;
use crate::regs::SRIOV_SYSTEM_PAGE_SIZE;
use crate::regs::SRIOV_VF_BAR0;
use crate::regs::SRIOV_VF_DEVICE_ID;
use crate::regs::SRIOV_VF_OFFSET_STRIDE;
use crate::resource::align::is_pow2;
use crate::save_restore::RestoreError;
use crate::slots::Slots;
use vstd::arithmetic::power2::pow2;
use vstd::prelude::*;
use vstd::std_specs::bits::u64_trailing_zeros;

verus! {

/// Length of the capability.
pub const SRIOV_CAP_LEN: usize = 0x40;
/// Control: VFs are enabled.
pub const SRIOV_CONTROL_VF_ENABLE: u16 = 0x0001;
/// Control: VF migration and its interrupt, which are not supported.
pub const SRIOV_CONTROL_VF_MIGRATION_BITS: u16 = 0x0006;
/// Control: memory space of the VFs is enabled.
pub const SRIOV_CONTROL_VF_MSE: u16 = 0x0008;
/// Status: VF migration status.
pub const SRIOV_STATUS_VF_MIGRATION: u16 = 0x0001;

/// A VF BAR.
#[derive(Debug, Clone, Copy)]
pub struct VfBarConfig {
    /// Size per VF in bytes: a power of two, at least 16.
    pub size: u64,
    /// Whether the BAR is 64 bits wide and takes the next slot too.
    pub is_64bit: bool,
    /// Whether the BAR is prefetchable.
    pub prefetchable: bool,
}

/// What an SR-IOV capability is made with.
#[derive(Debug, Clone, Copy)]
pub struct SriovConfig {
    /// The number of VFs that can be had.
    pub total_vfs: u16,
    /// The device identifier of the VFs.
    pub vf_device_id: u16,
    /// Function offset from the PF to the first VF.
    pub first_vf_offset: u16,
    /// Distance between VFs.
    pub vf_stride: u16,
    /// VF BARs.
    pub vf_bars: [Option<VfBarConfig>; 6],
}

/// A change of VF enable that is to be acted on.
#[derive(Debug, Clone, Copy, PartialEq, Eq, Structural)]
pub struct SriovVfChange {
    /// Whether VFs are enabled.
    pub enabled: bool,
    /// How many VFs.
    pub num_vfs: u16,
}

/// Where a VF BAR is decoded.
#[derive(Debug, Clone, Copy)]
pub struct SriovBarDecodeEntry {
    /// The address of VF 0, while VF memory is decoded.
    pub vf0_base: Option<u64>,
    /// The exponent of the size per VF.
    pub shift: u32,
}

/// Where VF BARs are decoded, and the change of VF enable to be acted on.
///
/// It is part of the capability, which keeps it up to date, and is lent to whoever
/// routes accesses to VFs.
#[derive(Debug)]
pub struct SriovBarDecode {
    /// The number of VFs that a BAR covers, one after the other.
    pub total_vfs: u16,
    /// One entry per BAR.
    pub bars: Slots<SriovBarDecodeEntry>,
    /// The change that nobody has taken yet.
    pub pending_vf_change: Option<SriovVfChange>,
}

/// The VF and the offset in its BAR that an address is decoded to, if it lies
/// in the BAR of one of the VFs.
pub open spec fn decoded(decode: SriovBarDecode, bar_index: int, addr: u64) -> Option<
    (usize, u64),
> {
    let entry = decode.bars.at(bar_index);
    if bar_index >= 6 {
        None
    } else {
        match entry.vf0_base {
            Some(base) if base <= addr < base + decode.total_vfs * pow2(entry.shift as nat) => Some(
                (
                    ((addr - base) / pow2(entry.shift as nat) as int) as usize,
                    ((addr - base) % pow2(entry.shift as nat) as int) as u64,
                ),
            ),
            _ => None,
        }
    }
}

/// Whether the sizes of all BARs fit in 64 bits.
pub open spec fn shifts_ok(decode: SriovBarDecode) -> bool {
    forall|i: int| 0 <= i < 6 ==> (#[trigger] decode.bars.at(i)).shift < 64
}

impl SriovBarDecode {
    /// Decodes an address as one of a VF BAR: the VF, and the offset in its
    /// BAR. Addresses below the BAR of the first VF and beyond that of the last
    /// are not decoded.
    pub fn decode(&self, bar_index: usize, addr: u64) -> (r: Option<(usize, u64)>)
        requires
            shifts_ok(*self),
        ensures
            r == decoded(*self, bar_index as int, addr),
    {
        if bar_index >= 6 {
            return None;
        }
        let entry: SriovBarDecodeEntry = self.bars.get(bar_index);
        match entry.vf0_base {
            None => None,
            Some(base) => {
                if addr < base {
                    return None;
                }
                let rel: u64 = addr - base;
                let shift: u64 = entry.shift as u64;
                proof {
                    assert(self.bars.at(bar_index as int).shift < 64);
                    vstd::bits::lemma_u64_shr_is_div(rel, shift);
                    vstd::bits::lemma_u64_pow2_no_overflow(shift as nat);
                    assert(1 * pow2(shift as nat) == pow2(shift as nat));
                    vstd::bits::lemma_u64_shl_is_mul(1u64, shift);
                    vstd::arithmetic::power2::lemma_pow2_pos(shift as nat);
                    vstd::bits::lemma_u64_low_bits_mask_is_mod(rel, shift as nat);
                }
                let vf: u64 = rel >> shift;
                proof {
                    lemma_below_last(rel as int, pow2(shift as nat) as int, self.total_vfs as int);
                }
                if vf >= self.total_vfs as u64 {
                    return None;
                }
                let offset: u64 = rel & ((1u64 << shift) - 1);
                Some((vf as usize, offset))
            },
        }
    }

    /// Takes the change of VF enable that is to be acted on.
    pub fn take_pending_vf_change(&mut self) -> (r: Option<SriovVfChange>)
        ensures
            r == old(self).pending_vf_change,
            *final(self) == (SriovBarDecode { pending_vf_change: None, ..*old(self) }),
    {
        let change: Option<SriovVfChange> = self.pending_vf_change;
        self.pending_vf_change = None;
        change
    }
}

/// An offset lies in one of so many BARs of a size exactly if its quotient by
/// the size is one of them.
proof fn lemma_below_last(rel: int, size: int, count: int)
    requires
        0 <= rel,
        0 < size,
        0 <= count,
    ensures
        rel / size < count <==> rel < count * size,
{
    vstd::arithmetic::div_mod::lemma_fundamental_div_mod(rel, size);
    let q = rel / size;
    let m = rel % size;
    assert(q < count <==> rel < count * size) by (nonlinear_arith)
        requires
            rel == size * q + m,
            0 <= m < size,
    ;
}

/// PCIe SR-IOV extended capability emulator.
#[derive(Debug)]
pub struct SriovExtendedCapability {
    /// Capabilities register.
    pub capabilities: u32,
    /// Initial number of VFs.
    pub initial_vfs: u16,
    /// Total number of VFs.
    pub total_vfs: u16,
    /// Device identifier of the VFs.
    pub vf_device_id: u16,
    /// Offset of the first VF.
    pub first_vf_offset: u16,
    /// Distance between VFs.
    pub vf_stride: u16,
    /// Supported page sizes: bit N stands for 2^(N+12) bytes.
    pub supported_page_sizes: u32,
    /// Sizes per VF; zero where there is no BAR.
    pub vf_bar_sizes: Slots<u64>,
    /// Encoding bits of the BARs.
    pub vf_bar_encoding: Slots<u32>,
    /// Control register.
    pub control: u16,
    /// Status register.
    pub status: u16,
    /// Number of VFs.
    pub num_vfs: u16,
    /// System page size.
    pub system_page_size: u32,
    /// BAR registers.
    pub vf_bar_regs: Slots<u32>,
    /// What the BARs are backed by. A region covers all VFs.
    pub vf_bars: Slots<Option<BarMemoryKind>>,
    /// Where BARs are decoded.
    pub decode: SriovBarDecode,
}

/// Saved state.
#[derive(Debug)]
pub struct SriovSavedState {
    /// Control register.
    pub control: u16,
    /// Status register.
    pub status: u16,
    /// Number of VFs.
    pub num_vfs: u16,
    /// System page size.
    pub system_page_size: u32,
    /// BAR registers.
    pub vf_bar_regs: Vec<u32>,
}

/// The size of a VF BAR; zero where there is none.
pub open spec fn vf_size(bar: Option<VfBarConfig>) -> u64 {
    match bar {
        Some(b) => b.size,
        None => 0,
    }
}

/// The encoding bits of a VF BAR.
pub open spec fn vf_encoding(bar: Option<VfBarConfig>) -> u32 {
    match bar {
        Some(b) => (if b.is_64bit {
            BAR_ENCODING_64BIT
        } else {
            0
        }) | (if b.prefetchable {
            BAR_ENCODING_PREFETCHABLE
        } else {
            0
        }),
        None => 0,
    }
}

/// Whether a capability can be made with the configuration.
pub open spec fn sriov_config_ok(config: SriovConfig) -> bool {
    &&& config.total_vfs > 0
    &&& config.first_vf_offset > 0
    &&& forall|i: int|
        0 <= i < 6 ==> match #[trigger] config.vf_bars[i] {
            Some(b) => is_pow2(b.size as int) && b.size >= 16 && (b.is_64bit ==> i + 1 < 6
                && config.vf_bars[i + 1] is None),
            None => true,
        }
}

/// Whether a BAR is 64 bits wide.
pub open spec fn is_wide(cap: SriovExtendedCapability, i: int) -> bool {
    cap.vf_bar_encoding.at(i) & BAR_ENCODING_64BIT != 0
}

/// Whether a slot is the upper half of the BAR before it.
pub open spec fn is_upper_half(cap: SriovExtendedCapability, i: int) -> bool {
    0 < i < 6 && cap.vf_bar_sizes.at(i) == 0 && cap.vf_bar_sizes.at(i - 1) > 0 && is_wide(
        cap,
        i - 1,
    )
}

/// The address bits of the lower half of a BAR of some size.
pub open spec fn low_mask(size: u64) -> u32 {
    !((size - 1) as u64 as u32)
}

/// The address bits of the upper half of a BAR of some size.
pub open spec fn high_mask(size: u64) -> u32 {
    !(((size - 1) as u64 >> 32u64) as u32)
}

/// The value that a BAR register takes when a value is put.
pub open spec fn vf_bar_value(cap: SriovExtendedCapability, i: int, val: u32) -> u32 {
    if cap.vf_bar_sizes.at(i) > 0 {
        (val & low_mask(cap.vf_bar_sizes.at(i))) | cap.vf_bar_encoding.at(i)
    } else if is_upper_half(cap, i) {
        val & high_mask(cap.vf_bar_sizes.at(i - 1))
    } else {
        0
    }
}

/// The capability after a write of a BAR register, without what follows from
/// it. There is nothing to write where there is no BAR.
pub open spec fn vf_bar_written(
    cap: SriovExtendedCapability,
    i: int,
    val: u32,
) -> SriovExtendedCapability {
    if i < 6 && (cap.vf_bar_sizes.at(i) > 0 || is_upper_half(cap, i)) {
        SriovExtendedCapability {
            vf_bar_regs: cap.vf_bar_regs.with(i, vf_bar_value(cap, i, val)),
            ..cap
        }
    } else {
        cap
    }
}

/// The address in the registers of a BAR.
pub open spec fn vf_bar_base(cap: SriovExtendedCapability, i: int) -> u64 {
    let low = cap.vf_bar_regs.at(i) & !BAR_ENCODING_MASK;
    let high = if is_wide(cap, i) && i + 1 < 6 {
        cap.vf_bar_regs.at(i + 1)
    } else {
        0
    };
    ((high as u64) << 32u64) | (low as u64)
}

/// The address at which a BAR of VF 0 is decoded.
pub open spec fn vf0_base_of(cap: SriovExtendedCapability, i: int) -> Option<u64> {
    if cap.control & SRIOV_CONTROL_VF_ENABLE != 0 && cap.control & SRIOV_CONTROL_VF_MSE != 0
        && vf_bar_base(cap, i) != 0 {
        Some(vf_bar_base(cap, i))
    } else {
        None
    }
}

/// The decode entry of a BAR that follows from the registers.
pub open spec fn synced_entry(cap: SriovExtendedCapability, i: int) -> SriovBarDecodeEntry {
    if cap.vf_bar_sizes.at(i) == 0 {
        cap.decode.bars.at(i)
    } else {
        SriovBarDecodeEntry { vf0_base: vf0_base_of(cap, i), ..cap.decode.bars.at(i) }
    }
}

/// The capability with BARs decoded as the registers say.
pub open spec fn synced(cap: SriovExtendedCapability) -> SriovExtendedCapability {
    SriovExtendedCapability {
        decode: SriovBarDecode {
            bars: Slots {
                s0: synced_entry(cap, 0),
                s1: synced_entry(cap, 1),
                s2: synced_entry(cap, 2),
                s3: synced_entry(cap, 3),
                s4: synced_entry(cap, 4),
                s5: synced_entry(cap, 5),
            },
            ..cap.decode
        },
        ..cap
    }
}

/// Whether exactly one bit is set.
pub open spec fn single_bit(x: u32) -> bool {
    x != 0 && x & (x - 1) as u32 == 0
}

/// The capability after a write of the control and status registers.
pub open spec fn sriov_control_written(
    cap: SriovExtendedCapability,
    val: u32,
) -> SriovExtendedCapability {
    let control = val as u16;
    let status = (val >> 16u32) as u16;
    let enabled = control & SRIOV_CONTROL_VF_ENABLE != 0;
    synced(
        SriovExtendedCapability {
            control: control & !SRIOV_CONTROL_VF_MIGRATION_BITS,
            status: if status & SRIOV_STATUS_VF_MIGRATION != 0 {
                cap.status & !SRIOV_STATUS_VF_MIGRATION
            } else {
                cap.status
            },
            decode: SriovBarDecode {
                pending_vf_change: if enabled != (cap.control & SRIOV_CONTROL_VF_ENABLE != 0) {
                    Some(SriovVfChange { enabled, num_vfs: cap.num_vfs })
                } else {
                    cap.decode.pending_vf_change
                },
                ..cap.decode
            },
            ..cap
        },
    )
}

/// The smaller of two numbers of VFs.
pub open spec fn at_most(requested: u16, total: u16) -> u16 {
    if requested <= total {
        requested
    } else {
        total
    }
}

/// Whether an offset is that of a VF BAR.
pub open spec fn is_vf_bar_offset(offset: u16) -> bool {
    SRIOV_VF_BAR0 <= offset < SRIOV_VF_BAR0 + 24 && (offset - SRIOV_VF_BAR0) % 4 == 0
}

/// The capability after a write.
pub open spec fn sriov_written(
    cap: SriovExtendedCapability,
    offset: u16,
    val: u32,
) -> SriovExtendedCapability {
    let enabled = cap.control & SRIOV_CONTROL_VF_ENABLE != 0;
    if offset == SRIOV_CONTROL_STATUS {
        sriov_control_written(cap, val)
    } else if offset == SRIOV_NUM_VFS && !enabled {
        SriovExtendedCapability { num_vfs: at_most(val as u16, cap.total_vfs), ..cap }
    } else if offset == SRIOV_SYSTEM_PAGE_SIZE && !enabled && single_bit(
        val & cap.supported_page_sizes,
    ) {
        SriovExtendedCapability { system_page_size: val & cap.supported_page_sizes, ..cap }
    } else if is_vf_bar_offset(offset) {
        synced(vf_bar_written(cap, (offset - SRIOV_VF_BAR0) / 4, val))
    } else {
        cap
    }
}

/// The registers of BARs that are not programmed.
pub open spec fn idle_regs(cap: SriovExtendedCapability) -> Slots<u32> {
    Slots {
        s0: vf_bar_value(cap, 0, 0),
        s1: vf_bar_value(cap, 1, 0),
        s2: vf_bar_value(cap, 2, 0),
        s3: vf_bar_value(cap, 3, 0),
        s4: vf_bar_value(cap, 4, 0),
        s5: vf_bar_value(cap, 5, 0),
    }
}

/// The capability after a reset. No change of VF enable is noted.
pub open spec fn sriov_reset(cap: SriovExtendedCapability) -> SriovExtendedCapability {
    synced(
        SriovExtendedCapability {
            control: 0,
            status: 0,
            num_vfs: 0,
            system_page_size: 1,
            vf_bar_regs: idle_regs(cap),
            ..cap
        },
    )
}

/// What is restored before BARs are looked at.
pub open spec fn sriov_partly_restored(
    cap: SriovExtendedCapability,
    state: SriovSavedState,
) -> SriovExtendedCapability {
    let page = state.system_page_size & cap.supported_page_sizes;
    SriovExtendedCapability {
        control: state.control,
        status: state.status,
        num_vfs: at_most(state.num_vfs, cap.total_vfs),
        system_page_size: if single_bit(page) {
            page
        } else {
            1
        },
        ..cap
    }
}

/// The capability after a restore.
pub open spec fn sriov_restored(
    cap: SriovExtendedCapability,
    state: SriovSavedState,
) -> SriovExtendedCapability {
    let partly = sriov_partly_restored(cap, state);
    let regs = state.vf_bar_regs@;
    if regs.len() != 6 {
        partly
    } else {
        synced(
            SriovExtendedCapability {
                vf_bar_regs: Slots {
                    s0: vf_bar_value(cap, 0, regs[0]),
                    s1: vf_bar_value(cap, 1, regs[1]),
                    s2: vf_bar_value(cap, 2, regs[2]),
                    s3: vf_bar_value(cap, 3, regs[3]),
                    s4: vf_bar_value(cap, 4, regs[4]),
                    s5: vf_bar_value(cap, 5, regs[5]),
                },
                decode: SriovBarDecode {
                    pending_vf_change: if partly.control & SRIOV_CONTROL_VF_ENABLE != 0 {
                        Some(SriovVfChange { enabled: true, num_vfs: partly.num_vfs })
                    } else {
                        cap.decode.pending_vf_change
                    },
                    ..cap.decode
                },
                ..partly
            },
        )
    }
}

/// The exponent of a size.
pub open spec fn shift_of(size: u64) -> u32 {
    if size > 0 {
        u64_trailing_zeros(size)
    } else {
        0
    }
}

/// Whether the capability is as it was made from a configuration.
pub open spec fn sriov_made_from(
    cap: SriovExtendedCapability,
    config: SriovConfig,
    vf_bars: [Option<BarMemoryKind>; 6],
) -> bool {
    &&& cap.capabilities == 0
    &&& cap.initial_vfs == config.total_vfs
    &&& cap.total_vfs == config.total_vfs
    &&& cap.vf_device_id == config.vf_device_id
    &&& cap.first_vf_offset == config.first_vf_offset
    &&& cap.vf_stride == config.vf_stride
    &&& cap.supported_page_sizes == 1
    &&& cap.control == 0
    &&& cap.status == 0
    &&& cap.num_vfs == 0
    &&& cap.system_page_size == 1
    &&& cap.decode.pending_vf_change is None
    &&& cap.decode.total_vfs == config.total_vfs
    &&& forall|i: int|
        0 <= i < 6 ==> {
            &&& #[trigger] cap.vf_bar_sizes.at(i) == vf_size(config.vf_bars[i])
            &&& cap.vf_bar_encoding.at(i) == vf_encoding(config.vf_bars[i])
            &&& cap.vf_bar_regs.at(i) == vf_encoding(config.vf_bars[i])
            &&& cap.vf_bars.at(i) == vf_bars[i]
            &&& cap.decode.bars.at(i) == (SriovBarDecodeEntry {
                vf0_base: None,
                shift: shift_of(vf_size(config.vf_bars[i])),
            })
        }
}

fn bar_size(bar: Option<VfBarConfig>) -> (r: u64)
    ensures
        r == vf_size(bar),
{
    match bar {
        Some(b) => b.size,
        None => 0,
    }
}

fn bar_encoding(bar: Option<VfBarConfig>) -> (r: u32)
    ensures
        r == vf_encoding(bar),
{
    match bar {
        Some(b) => {
            let wide: u32 = if b.is_64bit {
                BAR_ENCODING_64BIT
            } else {
                0
            };
            let prefetchable: u32 = if b.prefetchable {
                BAR_ENCODING_PREFETCHABLE
            } else {
                0
            };
            wide | prefetchable
        },
        None => 0,
    }
}

fn idle_entry(size: u64) -> (r: SriovBarDecodeEntry)
    ensures
        r == (SriovBarDecodeEntry { vf0_base: None, shift: shift_of(size) }),
{
    SriovBarDecodeEntry {
        vf0_base: None,
        shift: if size > 0 {
            size.trailing_zeros()
        } else {
            0
        },
    }
}

fn has_single_bit(x: u32) -> (r: bool)
    ensures
        r == single_bit(x),
{
    x != 0 && x & (x - 1) == 0
}

impl SriovExtendedCapability {
    /// Creates an SR-IOV capability. A region behind a VF BAR covers all VFs.
    pub fn new(config: SriovConfig, vf_bars: [Option<BarMemoryKind>; 6]) -> (r: Self)
        requires
            sriov_config_ok(config),
        ensures
            sriov_made_from(r, config, vf_bars),
            sriov_wf(r),
    {
        let bars: Slots<Option<VfBarConfig>> = Slots::from_array(&config.vf_bars);
        let kinds: Slots<Option<BarMemoryKind>> = Slots::from_array(&vf_bars);
        proof {
            assert(bars.at(0) == config.vf_bars[0]);
            assert(bars.at(1) == config.vf_bars[1]);
            assert(bars.at(2) == config.vf_bars[2]);
            assert(bars.at(3) == config.vf_bars[3]);
            assert(bars.at(4) == config.vf_bars[4]);
            assert(bars.at(5) == config.vf_bars[5]);
            assert(kinds.at(0) == vf_bars[0]);
            assert(kinds.at(1) == vf_bars[1]);
            assert(kinds.at(2) == vf_bars[2]);
            assert(kinds.at(3) == vf_bars[3]);
            assert(kinds.at(4) == vf_bars[4]);
            assert(kinds.at(5) == vf_bars[5]);
        }
        let sizes: Slots<u64> = Slots {
            s0: bar_size(bars.s0),
            s1: bar_size(bars.s1),
            s2: bar_size(bars.s2),
            s3: bar_size(bars.s3),
            s4: bar_size(bars.s4),
            s5: bar_size(bars.s5),
        };
        let encoding: Slots<u32> = Slots {
            s0: bar_encoding(bars.s0),
            s1: bar_encoding(bars.s1),
            s2: bar_encoding(bars.s2),
            s3: bar_encoding(bars.s3),
            s4: bar_encoding(bars.s4),
            s5: bar_encoding(bars.s5),
        };
        let entries: Slots<SriovBarDecodeEntry> = Slots {
            s0: idle_entry(sizes.s0),
            s1: idle_entry(sizes.s1),
            s2: idle_entry(sizes.s2),
            s3: idle_entry(sizes.s3),
            s4: idle_entry(sizes.s4),
            s5: idle_entry(sizes.s5),
        };
        let cap: SriovExtendedCapability = SriovExtendedCapability {
            capabilities: 0,
            initial_vfs: config.total_vfs,
            total_vfs: config.total_vfs,
            vf_device_id: config.vf_device_id,
            first_vf_offset: config.first_vf_offset,
            vf_stride: config.vf_stride,
            supported_page_sizes: 1,
            vf_bar_sizes: sizes,
            vf_bar_encoding: encoding,
            control: 0,
            status: 0,
            num_vfs: 0,
            system_page_size: 1,
            vf_bar_regs: encoding,
            vf_bars: kinds,
            decode: SriovBarDecode {
                total_vfs: config.total_vfs,
                bars: entries,
                pending_vf_change: None,
            },
        };
        proof {
            lemma_made_wf(cap, config, vf_bars);
        }
        cap
    }

    /// Returns the number of VFs.
    pub fn num_vfs(&self) -> (r: u16)
        ensures
            r == self.num_vfs,
    {
        self.num_vfs
    }

    /// Returns whether VFs are enabled.
    pub fn vf_enabled(&self) -> (r: bool)
        ensures
            r == (self.control & SRIOV_CONTROL_VF_ENABLE != 0),
    {
        self.control & SRIOV_CONTROL_VF_ENABLE != 0
    }

    /// Returns the address of a VF's BAR: VFs follow VF 0 at the size of the
    /// BAR. `None` if there is no such BAR, or if it is not programmed.
    pub fn vf_bar_address(&self, vf_index: u16, bar_index: usize) -> (r: Option<u64>)
        requires
            bar_index < 6 && self.vf_bar_sizes.at(bar_index as int) != 0 ==> vf_bar_base(
                *self,
                bar_index as int,
            ) + vf_index * self.vf_bar_sizes.at(bar_index as int) <= u64::MAX,
        ensures
            r == if bar_index < 6 && self.vf_bar_sizes.at(bar_index as int) != 0 && vf_bar_base(
                *self,
                bar_index as int,
            ) != 0 {
                Some(
                    (vf_bar_base(*self, bar_index as int) + vf_index * self.vf_bar_sizes.at(
                        bar_index as int,
                    )) as u64,
                )
            } else {
                None
            },
    {
        if bar_index >= 6 {
            return None;
        }
        let size: u64 = self.vf_bar_sizes.get(bar_index);
        if size == 0 {
            return None;
        }
        let base: u64 = self.bar_base(bar_index);
        if base == 0 {
            return None;
        }
        assert(0 <= vf_index * size) by (nonlinear_arith)
            requires
                vf_index >= 0,
                size >= 0,
        ;
        Some(base + vf_index as u64 * size)
    }

    /// Returns the size of a BAR per VF, or zero if there is no such BAR.
    pub fn vf_bar_size(&self, bar_index: usize) -> (r: u64)
        ensures
            r == if bar_index < 6 {
                self.vf_bar_sizes.at(bar_index as int)
            } else {
                0
            },
    {
        if bar_index < 6 {
            self.vf_bar_sizes.get(bar_index)
        } else {
            0
        }
    }

    /// Returns where the region behind a VF BAR is to be mapped.
    pub fn vf_mapping(&self, bar_index: usize) -> (r: Option<u64>)
        ensures
            r == if bar_index < 6 && self.vf_bars.at(bar_index as int) is Some {
                self.decode.bars.at(bar_index as int).vf0_base
            } else {
                None
            },
    {
        if bar_index < 6 && self.vf_bars.get(bar_index).is_some() {
            self.decode.bars.get(bar_index).vf0_base
        } else {
            None
        }
    }

    fn bar_base(&self, i: usize) -> (r: u64)
        requires
            i < 6,
        ensures
            r == vf_bar_base(*self, i as int),
    {
        let low: u32 = self.vf_bar_regs.get(i) & !BAR_ENCODING_MASK;
        let high: u32 = if self.vf_bar_encoding.get(i) & BAR_ENCODING_64BIT != 0 && i + 1 < 6 {
            self.vf_bar_regs.get(i + 1)
        } else {
            0
        };
        ((high as u64) << 32u64) | (low as u64)
    }

    /// Reads a VF BAR register.
    pub fn read_vf_bar(&self, bar_index: usize) -> (r: u32)
        requires
            bar_index < 6,
        ensures
            r == self.vf_bar_regs.at(bar_index as int),
    {
        self.vf_bar_regs.get(bar_index)
    }

    fn bar_value(&self, i: usize, val: u32) -> (r: u32)
        requires
            i < 6,
        ensures
            r == vf_bar_value(*self, i as int, val),
    {
        let size: u64 = self.vf_bar_sizes.get(i);
        if size > 0 {
            return (val & !((size - 1) as u32)) | self.vf_bar_encoding.get(i);
        }
        if i > 0 {
            let below: u64 = self.vf_bar_sizes.get(i - 1);
            if below > 0 && self.vf_bar_encoding.get(i - 1) & BAR_ENCODING_64BIT != 0 {
                return val & !(((below - 1) >> 32u64) as u32);
            }
        }
        0
    }

    /// Writes a VF BAR register. All ones read back as the size mask.
    pub fn write_vf_bar(&mut self, bar_index: usize, val: u32)
        ensures
            *final(self) == vf_bar_written(*old(self), bar_index as int, val),
    {
        if bar_index >= 6 {
            return;
        }
        let implemented: bool = self.vf_bar_sizes.get(bar_index) > 0;
        let upper: bool = bar_index > 0 && self.vf_bar_sizes.get(bar_index - 1) > 0
            && self.vf_bar_encoding.get(bar_index - 1) & BAR_ENCODING_64BIT != 0;
        if implemented || upper {
            let value: u32 = self.bar_value(bar_index, val);
            self.vf_bar_regs.set(bar_index, value);
        }
    }

    fn entry(&self, i: usize) -> (r: SriovBarDecodeEntry)
        requires
            i < 6,
        ensures
            r == synced_entry(*self, i as int),
    {
        let entry: SriovBarDecodeEntry = self.decode.bars.get(i);
        if self.vf_bar_sizes.get(i) == 0 {
            return entry;
        }
        let base: u64 = self.bar_base(i);
        let decoding: bool = self.vf_enabled() && self.control & SRIOV_CONTROL_VF_MSE != 0;
        SriovBarDecodeEntry {
            vf0_base: if decoding && base != 0 {
                Some(base)
            } else {
                None
            },
            ..entry
        }
    }

    /// Decodes BARs as the registers say.
    fn sync_vf_mmio(&mut self)
        ensures
            *final(self) == synced(*old(self)),
    {
        let bars: Slots<SriovBarDecodeEntry> = Slots {
            s0: self.entry(0),
            s1: self.entry(1),
            s2: self.entry(2),
            s3: self.entry(3),
            s4: self.entry(4),
            s5: self.entry(5),
        };
        self.decode.bars = bars;
    }

    fn restore(&mut self, state: SriovSavedState) -> (r: Result<(), RestoreError>)
        ensures
            *final(self) == sriov_restored(*old(self), state),
            r == if state.vf_bar_regs@.len() != 6 {
                Err::<(), RestoreError>(RestoreError::InvalidVfBarCount(state.vf_bar_regs.len()))
            } else {
                Ok(())
            },
    {
        self.control = state.control;
        self.status = state.status;
        self.num_vfs = if state.num_vfs <= self.total_vfs {
            state.num_vfs
        } else {
            self.total_vfs
        };
        let page: u32 = state.system_page_size & self.supported_page_sizes;
        self.system_page_size = if has_single_bit(page) {
            page
        } else {
            1
        };
        if state.vf_bar_regs.len() != 6 {
            return Err(RestoreError::InvalidVfBarCount(state.vf_bar_regs.len()));
        }
        let regs: Slots<u32> = Slots {
            s0: self.bar_value(0, state.vf_bar_regs[0]),
            s1: self.bar_value(1, state.vf_bar_regs[1]),
            s2: self.bar_value(2, state.vf_bar_regs[2]),
            s3: self.bar_value(3, state.vf_bar_regs[3]),
            s4: self.bar_value(4, state.vf_bar_regs[4]),
            s5: self.bar_value(5, state.vf_bar_regs[5]),
        };
        self.vf_bar_regs = regs;
        if self.vf_enabled() {
            self.decode.pending_vf_change = Some(
                SriovVfChange { enabled: true, num_vfs: self.num_vfs },
            );
        }
        self.sync_vf_mmio();
        Ok(())
    }

    fn write_control(&mut self, val: u32)
        ensures
            *final(self) == sriov_control_written(*old(self), val),
    {
        let control: u16 = val as u16;
        let was_enabled: bool = self.vf_enabled();
        let enabled: bool = control & SRIOV_CONTROL_VF_ENABLE != 0;
        // Migration is not supported.
        self.control = control & !SRIOV_CONTROL_VF_MIGRATION_BITS;
        if was_enabled != enabled {
            self.decode.pending_vf_change = Some(SriovVfChange { enabled, num_vfs: self.num_vfs });
        }
        if (val >> 16u32) as u16 & SRIOV_STATUS_VF_MIGRATION != 0 {
            self.status = self.status & !SRIOV_STATUS_VF_MIGRATION;
        }
        self.sync_vf_mmio();
    }
}

impl PciExtendedCapability for SriovExtendedCapability {
    type Saved = SriovSavedState;

    open spec fn label_text(&self) -> Seq<char> {
        "sriov"@
    }

    open spec fn ext_id(&self) -> u16 {
        EXT_CAP_ID_SRIOV
    }

    open spec fn ext_version(&self) -> u8 {
        1
    }

    open spec fn ext_len(&self) -> int {
        0x40
    }

    open spec fn value(&self, offset: u16) -> u32 {
        if offset == 0 {
            ext_header(EXT_CAP_ID_SRIOV, 1)
        } else if offset == SRIOV_CAPS {
            self.capabilities
        } else if offset == SRIOV_CONTROL_STATUS {
            self.control as u32 | ((self.status as u32) << 16u32)
        } else if offset == SRIOV_INITIAL_TOTAL_VFS {
            self.initial_vfs as u32 | ((self.total_vfs as u32) << 16u32)
        } else if offset == SRIOV_NUM_VFS {
            self.num_vfs as u32
        } else if offset == SRIOV_VF_OFFSET_STRIDE {
            self.first_vf_offset as u32 | ((self.vf_stride as u32) << 16u32)
        } else if offset == SRIOV_VF_DEVICE_ID {
            (self.vf_device_id as u32) << 16u32
        } else if offset == SRIOV_SUPPORTED_PAGE_SIZES {
            self.supported_page_sizes
        } else if offset == SRIOV_SYSTEM_PAGE_SIZE {
            self.system_page_size
        } else if is_vf_bar_offset(offset) {
            self.vf_bar_regs.at((offset - SRIOV_VF_BAR0) / 4)
        } else {
            0
        }
    }

    open spec fn written(&self, offset: u16, val: u32) -> Self {
        sriov_written(*self, offset, val)
    }

    open spec fn after_reset(&self) -> Self {
        sriov_reset(*self)
    }

    open spec fn saves_as(&self, state: SriovSavedState) -> bool {
        &&& state.control == self.control
        &&& state.status == self.status
        &&& state.num_vfs == self.num_vfs
        &&& state.system_page_size == self.system_page_size
        &&& state.vf_bar_regs@ == self.vf_bar_regs.to_seq()
    }

    open spec fn restore_error(&self, state: SriovSavedState) -> Option<RestoreError> {
        if state.vf_bar_regs@.len() != 6 {
            Some(RestoreError::InvalidVfBarCount(state.vf_bar_regs.len()))
        } else {
            None
        }
    }

    open spec fn restored(&self, state: SriovSavedState) -> Self {
        sriov_restored(*self, state)
    }

    fn label(&self) -> (r: &'static str) {
        "sriov"
    }

    fn extended_capability_id(&self) -> (r: u16) {
        EXT_CAP_ID_SRIOV
    }

    fn capability_version(&self) -> (r: u8) {
        1
    }

    fn len(&self) -> (r: usize) {
        SRIOV_CAP_LEN
    }

    fn read_u32(&self, offset: u16) -> (r: u32) {
        match offset {
            0 => (EXT_CAP_ID_SRIOV as u32) | ((1u8 as u32) << 16u32),
            SRIOV_CAPS => self.capabilities,
            SRIOV_CONTROL_STATUS => self.control as u32 | ((self.status as u32) << 16u32),
            SRIOV_INITIAL_TOTAL_VFS => self.initial_vfs as u32 | ((self.total_vfs as u32)
                << 16u32),
            SRIOV_NUM_VFS => self.num_vfs as u32,
            SRIOV_VF_OFFSET_STRIDE => self.first_vf_offset as u32 | ((self.vf_stride as u32)
                << 16u32),
            SRIOV_VF_DEVICE_ID => (self.vf_device_id as u32) << 16u32,
            SRIOV_SUPPORTED_PAGE_SIZES => self.supported_page_sizes,
            SRIOV_SYSTEM_PAGE_SIZE => self.system_page_size,
            _ => {
                if SRIOV_VF_BAR0 <= offset && offset < SRIOV_VF_BAR0 + 24 && (offset
                    - SRIOV_VF_BAR0) % 4 == 0 {
                    self.read_vf_bar(((offset - SRIOV_VF_BAR0) / 4) as usize)
                } else {
                    0
                }
            },
        }
    }

    fn write_u32(&mut self, offset: u16, val: u32) {
        match offset {
            SRIOV_CONTROL_STATUS => self.write_control(val),
            SRIOV_NUM_VFS => {
                // The number of VFs can be written only while VFs are disabled.
                if !self.vf_enabled() {
                    let requested: u16 = val as u16;
                    self.num_vfs = if requested <= self.total_vfs {
                        requested
                    } else {
                        self.total_vfs
                    };
                }
            },
            SRIOV_SYSTEM_PAGE_SIZE => {
                let masked: u32 = val & self.supported_page_sizes;
                if !self.vf_enabled() && has_single_bit(masked) {
                    self.system_page_size = masked;
                }
            },
            _ => {
                if SRIOV_VF_BAR0 <= offset && offset < SRIOV_VF_BAR0 + 24 && (offset
                    - SRIOV_VF_BAR0) % 4 == 0 {
                    self.write_vf_bar(((offset - SRIOV_VF_BAR0) / 4) as usize, val);
                    self.sync_vf_mmio();
                }
            },
        }
    }

    fn reset(&mut self) {
        self.control = 0;
        self.status = 0;
        self.num_vfs = 0;
        self.system_page_size = 1;
        let regs: Slots<u32> = Slots {
            s0: self.bar_value(0, 0),
            s1: self.bar_value(1, 0),
            s2: self.bar_value(2, 0),
            s3: self.bar_value(3, 0),
            s4: self.bar_value(4, 0),
            s5: self.bar_value(5, 0),
        };
        self.vf_bar_regs = regs;
        self.sync_vf_mmio();
    }

    fn save_state(&self) -> (r: SriovSavedState) {
        SriovSavedState {
            control: self.control,
            status: self.status,
            num_vfs: self.num_vfs,
            system_page_size: self.system_page_size,
            vf_bar_regs: self.vf_bar_regs.to_vec(),
        }
    }

    fn restore_state(&mut self, state: SriovSavedState) -> (r: Result<(), RestoreError>) {
        self.restore(state)
    }
}

/// Whether a capability is one that was made and written: the number of VFs is
/// within what can be had, the page size is one that is supported, BAR
/// registers hold address and encoding bits only, and BARs are decoded as the
/// registers say.
pub open spec fn sriov_wf(cap: SriovExtendedCapability) -> bool {
    &&& cap.num_vfs <= cap.total_vfs
    &&& cap.decode.total_vfs == cap.total_vfs
    &&& cap.supported_page_sizes == 1
    &&& cap.system_page_size == 1
    &&& synced(cap) == cap
    &&& forall|i: int| 0 <= i < 6 ==> vf_bar_ok(cap, i)
}

/// Whether a BAR of a capability is in order.
#[verifier::opaque]
pub open spec fn vf_bar_ok(cap: SriovExtendedCapability, i: int) -> bool {
    let size = cap.vf_bar_sizes.at(i);
    let reg = cap.vf_bar_regs.at(i);
    &&& vf_bar_value(cap, i, reg) == reg
    &&& cap.decode.bars.at(i).shift < 64
    &&& size == 0 ==> cap.decode.bars.at(i).vf0_base is None
    &&& size > 0 ==> size >= 16 && pow2(cap.decode.bars.at(i).shift as nat) == size
}

proof fn lemma_masks(v: u32, m: u32, e: u32)
    ensures
        (((v & m) | e) & m) | e == (v & m) | e,
        (v & m) & m == v & m,
        (e & m) | e == e,
        (0u32 & m) | e == e,
        0u32 & m == 0,
{
    assert((((v & m) | e) & m) | e == (v & m) | e && (v & m) & m == v & m && (e & m) | e == e && (
    0u32 & m) | e == e && 0u32 & m == 0) by (bit_vector);
}

/// The number of trailing zeros of a power of two is its exponent.
proof fn lemma_shift(size: u64)
    requires
        is_pow2(size as int),
        size > 0,
    ensures
        shift_of(size) < 64,
        pow2(shift_of(size) as nat) == size,
{
    let n = choose|n: nat| #[trigger] pow2(n) == size;
    if n >= 64 {
        vstd::arithmetic::power2::lemma2_to64();
        if n > 64 {
            vstd::arithmetic::power2::lemma_pow2_strictly_increases(64, n);
        }
        assert(false);
    }
    let s = n as u64;
    assert(1 * pow2(n) == pow2(n));
    vstd::bits::lemma_u64_pow2_no_overflow(n);
    vstd::bits::lemma_u64_shl_is_mul(1u64, s);
    assert(size == 1u64 << s);
    vstd::std_specs::bits::axiom_u64_trailing_zeros(size);
    let t = u64_trailing_zeros(size) as u64;
    assert(s < 64 && t < 64 && size == 1u64 << s && (size >> t) & 1u64 == 1u64 ==> s == t)
        by (bit_vector);
}

proof fn lemma_made_wf(
    cap: SriovExtendedCapability,
    config: SriovConfig,
    vf_bars: [Option<BarMemoryKind>; 6],
)
    requires
        sriov_config_ok(config),
        sriov_made_from(cap, config, vf_bars),
    ensures
        sriov_wf(cap),
{
    lemma_page(0);
    assert forall|i: int| 0 <= i < 6 implies vf_bar_ok(cap, i) by {
        reveal(vf_bar_ok);
        assert(cap.vf_bar_sizes.at(i) == vf_size(config.vf_bars[i]));
        let size = cap.vf_bar_sizes.at(i);
        if size > 0 {
            lemma_shift(size);
            lemma_masks(0, low_mask(size), cap.vf_bar_encoding.at(i));
        } else {
            match config.vf_bars[i] {
                Some(b) => {},
                None => {},
            }
            if is_upper_half(cap, i) {
                lemma_masks(0, high_mask(cap.vf_bar_sizes.at(i - 1)), 0);
            }
        }
    }
    assert(cap.vf_bar_sizes.at(0) == vf_size(config.vf_bars[0]));
    assert(cap.vf_bar_sizes.at(1) == vf_size(config.vf_bars[1]));
    assert(cap.vf_bar_sizes.at(2) == vf_size(config.vf_bars[2]));
    assert(cap.vf_bar_sizes.at(3) == vf_size(config.vf_bars[3]));
    assert(cap.vf_bar_sizes.at(4) == vf_size(config.vf_bars[4]));
    assert(cap.vf_bar_sizes.at(5) == vf_size(config.vf_bars[5]));
}

/// The registers of a BAR stay in order when a value is put.
proof fn lemma_value_idempotent(cap: SriovExtendedCapability, i: int, val: u32)
    requires
        0 <= i < 6,
    ensures
        vf_bar_value(cap, i, vf_bar_value(cap, i, val)) == vf_bar_value(cap, i, val),
{
    let size = cap.vf_bar_sizes.at(i);
    lemma_masks(val, low_mask(size), cap.vf_bar_encoding.at(i));
    if is_upper_half(cap, i) {
        lemma_masks(val, high_mask(cap.vf_bar_sizes.at(i - 1)), 0);
    }
}

/// Whether two capabilities were made alike.
pub open spec fn same_config(a: SriovExtendedCapability, b: SriovExtendedCapability) -> bool {
    &&& a.capabilities == b.capabilities
    &&& a.initial_vfs == b.initial_vfs
    &&& a.total_vfs == b.total_vfs
    &&& a.vf_device_id == b.vf_device_id
    &&& a.first_vf_offset == b.first_vf_offset
    &&& a.vf_stride == b.vf_stride
    &&& a.supported_page_sizes == b.supported_page_sizes
    &&& a.vf_bar_sizes == b.vf_bar_sizes
    &&& a.vf_bar_encoding == b.vf_bar_encoding
    &&& a.vf_bars == b.vf_bars
    &&& a.decode.total_vfs == b.decode.total_vfs
    &&& forall|i: int|
        0 <= i < 6 ==> (#[trigger] a.decode.bars.at(i)).shift == b.decode.bars.at(i).shift
}

/// A capability with other registers is in order if BAR registers hold what can
/// be put, and BARs are decoded as the registers say.
proof fn lemma_synced_wf(cap: SriovExtendedCapability, next: SriovExtendedCapability)
    requires
        sriov_wf(cap),
        same_config(next, cap),
        next.num_vfs <= next.total_vfs,
        next.system_page_size == 1,
        forall|i: int| 0 <= i < 6 ==> vf_bar_value(next, i, #[trigger] next.vf_bar_regs.at(i))
            == next.vf_bar_regs.at(i),
        forall|i: int|
            0 <= i < 6 && cap.vf_bar_sizes.at(i) == 0 ==> #[trigger] next.decode.bars.at(i)
                == cap.decode.bars.at(i),
    ensures
        sriov_wf(synced(next)),
        same_config(synced(next), cap),
{
    let after = synced(next);
    assert forall|i: int| 0 <= i < 6 implies vf_bar_ok(after, i) by {
        assert(vf_bar_ok(cap, i));
        reveal(vf_bar_ok);
        assert(vf_bar_value(next, i, next.vf_bar_regs.at(i)) == next.vf_bar_regs.at(i));
        assert(next.decode.bars.at(i).shift == cap.decode.bars.at(i).shift);
        assert(vf_bar_value(after, i, next.vf_bar_regs.at(i)) == vf_bar_value(
            next,
            i,
            next.vf_bar_regs.at(i),
        ));
    }
    assert forall|i: int| 0 <= i < 6 implies (#[trigger] after.decode.bars.at(i)).shift
        == cap.decode.bars.at(i).shift by {
        assert(next.decode.bars.at(i).shift == cap.decode.bars.at(i).shift);
    }
    assert(synced_entry(after, 0) == after.decode.bars.at(0));
    assert(synced_entry(after, 1) == after.decode.bars.at(1));
    assert(synced_entry(after, 2) == after.decode.bars.at(2));
    assert(synced_entry(after, 3) == after.decode.bars.at(3));
    assert(synced_entry(after, 4) == after.decode.bars.at(4));
    assert(synced_entry(after, 5) == after.decode.bars.at(5));
    assert(synced(after) == after);
}

/// A capability that is in order and unchanged stays in order.
proof fn lemma_registers_ok(cap: SriovExtendedCapability)
    requires
        sriov_wf(cap),
    ensures
        forall|i: int| 0 <= i < 6 ==> vf_bar_value(cap, i, #[trigger] cap.vf_bar_regs.at(i))
            == cap.vf_bar_regs.at(i),
{
    assert forall|i: int| 0 <= i < 6 implies vf_bar_value(cap, i, #[trigger] cap.vf_bar_regs.at(i))
        == cap.vf_bar_regs.at(i) by {
        assert(vf_bar_ok(cap, i));
        reveal(vf_bar_ok);
    }
}

/// Only one page size is supported, so a page size that is taken is that one.
proof fn lemma_page(val: u32)
    ensures
        single_bit(val & 1) ==> val & 1 == 1,
        0u16 & 1 == 0,
        1u32 & 1 == 1,
        1u32 & 0 == 0,
{
    assert((val & 1 == 0 || val & 1 == 1) && 0u16 & 1 == 0 && 1u32 & 1 == 1 && 1u32 & 0 == 0)
        by (bit_vector);
}

/// Every write, a reset and a restore that succeeds leave a capability in order,
/// with the configuration that it was made with.
pub proof fn law_sriov_kept(
    cap: SriovExtendedCapability,
    offset: u16,
    val: u32,
    state: SriovSavedState,
)
    requires
        sriov_wf(cap),
    ensures
        sriov_wf(cap.written(offset, val)),
        same_config(cap.written(offset, val), cap),
        sriov_wf(cap.after_reset()),
        same_config(cap.after_reset(), cap),
        cap.restore_error(state) is None ==> sriov_wf(cap.restored(state)) && same_config(
            cap.restored(state),
            cap,
        ),
{
    lemma_registers_ok(cap);
    lemma_sriov_write_kept(cap, offset, val);
    let idle = SriovExtendedCapability {
        control: 0,
        status: 0,
        num_vfs: 0,
        system_page_size: 1,
        vf_bar_regs: idle_regs(cap),
        ..cap
    };
    assert forall|i: int| 0 <= i < 6 implies vf_bar_value(idle, i, #[trigger] idle.vf_bar_regs.at(
        i,
    )) == idle.vf_bar_regs.at(i) by {
        lemma_value_idempotent(cap, i, 0);
        assert(idle.vf_bar_regs.at(i) == vf_bar_value(cap, i, 0));
        assert(vf_bar_value(idle, i, idle.vf_bar_regs.at(i)) == vf_bar_value(
            cap,
            i,
            idle.vf_bar_regs.at(i),
        ));
    }
    lemma_synced_wf(cap, idle);
    if cap.restore_error(state) is None {
        lemma_sriov_restore_kept(cap, state);
    }
}

proof fn lemma_sriov_write_kept(cap: SriovExtendedCapability, offset: u16, val: u32)
    requires
        sriov_wf(cap),
    ensures
        sriov_wf(cap.written(offset, val)),
        same_config(cap.written(offset, val), cap),
{
    lemma_registers_ok(cap);
    lemma_page(val);
    let next = cap.written(offset, val);
    if offset == SRIOV_CONTROL_STATUS {
        let control = val as u16;
        let status = (val >> 16u32) as u16;
        let enabled = control & SRIOV_CONTROL_VF_ENABLE != 0;
        let unsynced = SriovExtendedCapability {
            control: control & !SRIOV_CONTROL_VF_MIGRATION_BITS,
            status: if status & SRIOV_STATUS_VF_MIGRATION != 0 {
                cap.status & !SRIOV_STATUS_VF_MIGRATION
            } else {
                cap.status
            },
            decode: SriovBarDecode {
                pending_vf_change: if enabled != (cap.control & SRIOV_CONTROL_VF_ENABLE != 0) {
                    Some(SriovVfChange { enabled, num_vfs: cap.num_vfs })
                } else {
                    cap.decode.pending_vf_change
                },
                ..cap.decode
            },
            ..cap
        };
        assert(next == synced(unsynced));
        assert forall|i: int| 0 <= i < 6 implies vf_bar_value(
            unsynced,
            i,
            #[trigger] unsynced.vf_bar_regs.at(i),
        ) == unsynced.vf_bar_regs.at(i) by {
            assert(vf_bar_value(cap, i, cap.vf_bar_regs.at(i)) == cap.vf_bar_regs.at(i));
            assert(vf_bar_value(unsynced, i, cap.vf_bar_regs.at(i)) == vf_bar_value(
                cap,
                i,
                cap.vf_bar_regs.at(i),
            ));
        }
        lemma_synced_wf(cap, unsynced);
    } else if is_vf_bar_offset(offset) {
        let k = (offset - SRIOV_VF_BAR0) / 4;
        let unsynced = vf_bar_written(cap, k, val);
        assert(next == synced(unsynced));
        assert forall|i: int| 0 <= i < 6 implies vf_bar_value(
            unsynced,
            i,
            #[trigger] unsynced.vf_bar_regs.at(i),
        ) == unsynced.vf_bar_regs.at(i) by {
            assert(vf_bar_value(cap, i, cap.vf_bar_regs.at(i)) == cap.vf_bar_regs.at(i));
            let reg = unsynced.vf_bar_regs.at(i);
            assert(vf_bar_value(unsynced, i, reg) == vf_bar_value(cap, i, reg));
            lemma_value_idempotent(cap, k, val);
        }
        lemma_synced_wf(cap, unsynced);
    } else {
        // BARs are not touched.
        let same = SriovExtendedCapability {
            num_vfs: next.num_vfs,
            system_page_size: next.system_page_size,
            ..cap
        };
        assert(next == same);
        assert forall|i: int| 0 <= i < 6 implies vf_bar_value(
            same,
            i,
            #[trigger] same.vf_bar_regs.at(i),
        ) == same.vf_bar_regs.at(i) by {
            assert(vf_bar_value(cap, i, cap.vf_bar_regs.at(i)) == cap.vf_bar_regs.at(i));
            assert(vf_bar_value(same, i, cap.vf_bar_regs.at(i)) == vf_bar_value(
                cap,
                i,
                cap.vf_bar_regs.at(i),
            ));
        }
        lemma_synced_wf(cap, same);
        assert(synced_entry(same, 0) == synced_entry(cap, 0));
        assert(synced_entry(same, 1) == synced_entry(cap, 1));
        assert(synced_entry(same, 2) == synced_entry(cap, 2));
        assert(synced_entry(same, 3) == synced_entry(cap, 3));
        assert(synced_entry(same, 4) == synced_entry(cap, 4));
        assert(synced_entry(same, 5) == synced_entry(cap, 5));
        assert(synced(same).decode.bars == synced(cap).decode.bars);
        assert(synced(same) == same);
    }
}

proof fn lemma_sriov_restore_kept(cap: SriovExtendedCapability, state: SriovSavedState)
    requires
        sriov_wf(cap),
        cap.restore_error(state) is None,
    ensures
        sriov_wf(cap.restored(state)),
        same_config(cap.restored(state), cap),
{
    lemma_page(state.system_page_size);
    let partly = sriov_partly_restored(cap, state);
    let regs = state.vf_bar_regs@;
    let unsynced = SriovExtendedCapability {
        vf_bar_regs: Slots {
            s0: vf_bar_value(cap, 0, regs[0]),
            s1: vf_bar_value(cap, 1, regs[1]),
            s2: vf_bar_value(cap, 2, regs[2]),
            s3: vf_bar_value(cap, 3, regs[3]),
            s4: vf_bar_value(cap, 4, regs[4]),
            s5: vf_bar_value(cap, 5, regs[5]),
        },
        decode: SriovBarDecode {
            pending_vf_change: if partly.control & SRIOV_CONTROL_VF_ENABLE != 0 {
                Some(SriovVfChange { enabled: true, num_vfs: partly.num_vfs })
            } else {
                cap.decode.pending_vf_change
            },
            ..cap.decode
        },
        ..partly
    };
    assert(cap.restored(state) == synced(unsynced));
    assert forall|i: int| 0 <= i < 6 implies vf_bar_value(
        unsynced,
        i,
        #[trigger] unsynced.vf_bar_regs.at(i),
    ) == unsynced.vf_bar_regs.at(i) by {
        assert(unsynced.vf_bar_regs.at(i) == vf_bar_value(cap, i, regs[i]));
        lemma_value_idempotent(cap, i, regs[i]);
        assert(vf_bar_value(unsynced, i, unsynced.vf_bar_regs.at(i)) == vf_bar_value(
            cap,
            i,
            unsynced.vf_bar_regs.at(i),
        ));
    }
    lemma_synced_wf(cap, unsynced);
}

/// A restore of what was saved brings back all registers and where BARs are
/// decoded, whatever was done to the capability in between. If VFs are enabled
/// then, that is noted as a change to be acted on.
pub proof fn law_sriov_save_restore(
    cap: SriovExtendedCapability,
    other: SriovExtendedCapability,
    state: SriovSavedState,
)
    requires
        sriov_wf(cap),
        sriov_wf(other),
        same_config(other, cap),
        cap.saves_as(state),
    ensures
        other.restore_error(state) is None,
        other.restored(state) == (SriovExtendedCapability {
            decode: SriovBarDecode {
                pending_vf_change: if cap.control & SRIOV_CONTROL_VF_ENABLE != 0 {
                    Some(SriovVfChange { enabled: true, num_vfs: cap.num_vfs })
                } else {
                    other.decode.pending_vf_change
                },
                ..cap.decode
            },
            ..cap
        }),
{
    lemma_registers_ok(cap);
    lemma_page(0);
    let restored = other.restored(state);
    assert(restored.system_page_size == 1);
    assert(restored.vf_bar_regs == cap.vf_bar_regs) by {
        assert forall|i: int| 0 <= i < 6 implies #[trigger] restored.vf_bar_regs.at(i)
            == cap.vf_bar_regs.at(i) by {
            assert(state.vf_bar_regs@[i] == cap.vf_bar_regs.at(i));
            let reg = cap.vf_bar_regs.at(i);
            assert(vf_bar_value(cap, i, reg) == reg);
            assert(vf_bar_value(other, i, reg) == vf_bar_value(cap, i, reg));
        }
        assert(restored.vf_bar_regs.at(0) == cap.vf_bar_regs.at(0));
        assert(restored.vf_bar_regs.at(1) == cap.vf_bar_regs.at(1));
        assert(restored.vf_bar_regs.at(2) == cap.vf_bar_regs.at(2));
        assert(restored.vf_bar_regs.at(3) == cap.vf_bar_regs.at(3));
        assert(restored.vf_bar_regs.at(4) == cap.vf_bar_regs.at(4));
        assert(restored.vf_bar_regs.at(5) == cap.vf_bar_regs.at(5));
    }
    lemma_entry_restored(cap, other, restored, 0);
    lemma_entry_restored(cap, other, restored, 1);
    lemma_entry_restored(cap, other, restored, 2);
    lemma_entry_restored(cap, other, restored, 3);
    lemma_entry_restored(cap, other, restored, 4);
    lemma_entry_restored(cap, other, restored, 5);
    assert(restored.decode.bars == cap.decode.bars);
}

/// Where a BAR is decoded follows from the registers.
proof fn lemma_entry_restored(
    cap: SriovExtendedCapability,
    other: SriovExtendedCapability,
    restored: SriovExtendedCapability,
    i: int,
)
    requires
        0 <= i < 6,
        sriov_wf(cap),
        sriov_wf(other),
        same_config(other, cap),
        restored.vf_bar_regs == cap.vf_bar_regs,
        restored.vf_bar_sizes == cap.vf_bar_sizes,
        restored.vf_bar_encoding == cap.vf_bar_encoding,
        restored.control == cap.control,
        restored.decode.bars.at(i) == if cap.vf_bar_sizes.at(i) == 0 {
            other.decode.bars.at(i)
        } else {
            SriovBarDecodeEntry {
                vf0_base: vf0_base_of(restored, i),
                ..other.decode.bars.at(i)
            }
        },
    ensures
        restored.decode.bars.at(i) == cap.decode.bars.at(i),
{
    assert(vf_bar_ok(cap, i));
    assert(vf_bar_ok(other, i));
    reveal(vf_bar_ok);
    assert(other.decode.bars.at(i).shift == cap.decode.bars.at(i).shift);
    assert(vf0_base_of(restored, i) == vf0_base_of(cap, i));
    assert(synced_entry(cap, i) == synced(cap).decode.bars.at(i));
}

/// An address is decoded exactly if it lies in the BAR of one of the VFs, and
/// then to that VF and the offset in its BAR.
pub proof fn law_vf_decode(cap: SriovExtendedCapability, i: int, addr: u64)
    requires
        sriov_wf(cap),
        0 <= i < 6,
        cap.decode.bars.at(i).vf0_base is Some,
    ensures
        ({
            let base = cap.decode.bars.at(i).vf0_base->0;
            let size = cap.vf_bar_sizes.at(i);
            match decoded(cap.decode, i, addr) {
                Some((vf, offset)) => {
                    &&& vf < cap.total_vfs
                    &&& offset < size
                    &&& addr == base + vf * size + offset
                },
                None => addr < base || addr >= base + cap.total_vfs * size,
            }
        }),
{
    assert(vf_bar_ok(cap, i));
    reveal(vf_bar_ok);
    let size = cap.vf_bar_sizes.at(i) as int;
    let base = cap.decode.bars.at(i).vf0_base->0;
    let rel = addr - base;
    if rel >= 0 {
        lemma_below_last(rel, size, cap.total_vfs as int);
        vstd::arithmetic::div_mod::lemma_fundamental_div_mod(rel, size);
        let q = rel / size;
        assert(size * q == q * size && 0 <= q) by (nonlinear_arith)
            requires
                rel == size * q + rel % size,
                0 <= rel,
                0 < size,
                0 <= rel % size < size,
        ;
    }
}

/// All ones that are written to a BAR read back as the mask of its size: to a
/// 64-bit BAR in both halves, to a 32-bit BAR in its register.
pub proof fn law_vf_probe(cap: SriovExtendedCapability, i: int)
    requires
        sriov_wf(cap),
        0 <= i < 6,
        cap.vf_bar_sizes.at(i) > 0,
        cap.vf_bar_encoding.at(i) & !BAR_ENCODING_MASK == 0,
        is_wide(cap, i) ==> i + 1 < 6 && cap.vf_bar_sizes.at(i + 1) == 0,
    ensures
        ({
            let size = cap.vf_bar_sizes.at(i);
            let low = vf_bar_written(cap, i, 0xFFFF_FFFF);
            let both = vf_bar_written(low, i + 1, 0xFFFF_FFFF);
            &&& low.vf_bar_regs.at(i) & !BAR_ENCODING_MASK == !((size - 1) as u64 as u32)
            &&& low.vf_bar_regs.at(i) & BAR_ENCODING_MASK == cap.vf_bar_encoding.at(i)
            &&& is_wide(cap, i) ==> vf_bar_base(both, i) == !((size - 1) as u64)
        }),
{
    assert(vf_bar_ok(cap, i));
    reveal(vf_bar_ok);
    let size = cap.vf_bar_sizes.at(i);
    let m = (size - 1) as u64;
    let e = cap.vf_bar_encoding.at(i);
    let shift = cap.decode.bars.at(i).shift as u64;
    assert(1 * pow2(shift as nat) == pow2(shift as nat));
    vstd::bits::lemma_u64_shl_is_mul(1u64, shift);
    let low = vf_bar_written(cap, i, 0xFFFF_FFFF);
    let both = vf_bar_written(low, i + 1, 0xFFFF_FFFF);
    let r = low.vf_bar_regs.at(i);
    assert(r == (0xFFFF_FFFFu32 & !(m as u32)) | e);
    assert(m as u32 & 0xF == 0xF && ((0xFFFF_FFFFu32 & !(m as u32)) | e) & !0xFu32 == !(m as u32)
        && ((0xFFFF_FFFFu32 & !(m as u32)) | e) & 0xF == e && (((0xFFFF_FFFFu32 & !((m
        >> 32u64) as u32)) as u64) << 32u64) | ((!(m as u32)) as u64) == !m) by (bit_vector)
        requires
            shift < 64,
            size == 1u64 << shift,
            size >= 16,
            m == size - 1,
            e & !0xFu32 == 0,
    ;
    if is_wide(cap, i) {
        assert(is_upper_half(low, i + 1));
        let h = both.vf_bar_regs.at(i + 1);
        assert(h == 0xFFFF_FFFFu32 & !((m >> 32u64) as u32));
        assert(both.vf_bar_regs.at(i) == r);
        let l = r & !BAR_ENCODING_MASK;
    }
}

}
