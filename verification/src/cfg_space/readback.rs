//! What is read from the header of config space after a write.
use crate::bars::bar_length;
use crate::bars::is_bar_size;
use crate::bars::is_implemented;
use crate::bars::law_mask_length;
use crate::bars::DeviceBars;
use crate::capabilities::PciCapability;
use crate::capabilities::PciExtendedCapability;
use crate::cfg_space::common::common_read;
use crate::cfg_space::common::common_reset;
use crate::cfg_space::common::common_written;
use crate::cfg_space::common::has_bars;
use crate::cfg_space::common::status_value;
use crate::cfg_space::common::CommonModel;
use crate::cfg_space::type0::type0_common_written;
use crate::cfg_space::type0::type0_read;
use crate::cfg_space::type0::type0_write_result;
use crate::cfg_space::type1::assigned_buses;
use crate::cfg_space::type1::memory_window;
use crate::cfg_space::type1::prefetch_window;
use crate::cfg_space::type1::type1_read;
use crate::cfg_space::type1::type1_write_result;
use crate::cfg_space::type1::type1_written;
use crate::cfg_space::type1::window_base;
use crate::cfg_space::type1::window_limit;
use crate::cfg_space::type1::ConfigSpaceType1EmulatorState;
use crate::cfg_space::type1::Type1Model;
use crate::cfg_space::CommonRead;
use crate::io::lemma_joined;
use crate::io::IoError;
use crate::regs::BAR_ENCODING_64BIT;
use crate::resource::align::lemma_pow2_divides;
use crate::resource::sounding::lemma_wide;
use crate::slots::law_with;
use vstd::prelude::*;

verus! {

proof fn lemma_header_bits(v: u32)
    ensures
        (((v >> 16u32) as u8 as u32) << 16u32) | (((v >> 8u32) as u8 as u32) << 8u32) | (
        v as u8 as u32) == v & 0x00FF_FFFF,
        (((((v >> 16u32) as u16) | 1) as u32) << 16u32) | (((v as u16) | 1) as u32) == v
            | 0x0001_0001,
        (((v >> 16u32) as u16 as u32) << 16u32) | (v as u16 as u32) == v,
        (v & 0xff) as u8 as u32 == v & 0xff,
{
    assert({
        &&& (((v >> 16u32) as u8 as u32) << 16u32) | (((v >> 8u32) as u8 as u32) << 8u32) | (
        v as u8 as u32) == v & 0x00FF_FFFF
        &&& (((((v >> 16u32) as u16) | 1u16) as u32) << 16u32) | (((v as u16) | 1u16) as u32) == v
            | 0x0001_0001
        &&& (((v >> 16u32) as u16 as u32) << 16u32) | (v as u16 as u32) == v
        &&& (v & 0xff) as u8 as u32 == v & 0xff
    }) by (bit_vector);
}

/// What a device is: its vendor and device identifiers are the halves of the first
/// dword. The upper half of the second is the status.
pub proof fn law_identity_read<C: PciCapability, E: PciExtendedCapability>(m: CommonModel<C, E>)
    ensures
        common_read(m, 0) matches CommonRead::Value(v) && v as u16 == m.hardware_ids.vendor_id && (v
            >> 16u32) as u16 == m.hardware_ids.device_id,
        common_read(m, 4) matches CommonRead::Value(v) && v as u16 == m.state.command && (v
            >> 16u32) as u16 == status_value(m),
{
    lemma_joined(m.hardware_ids.vendor_id, m.hardware_ids.device_id);
    lemma_joined(m.state.command, status_value(m));
}

/// What is written to the command register is read back, but for bits that are not
/// supported. The status stays, and so does every other register.
pub proof fn law_command_read_back<C: PciCapability, E: PciExtendedCapability>(
    m: CommonModel<C, E>,
    val: u32,
    other: u16,
)
    ensures
        ({
            let next = common_written(m, 4, val);
            &&& common_read(next, 4) matches CommonRead::Value(v) && v as u16 == (val as u16)
                & 0x077F && (v >> 16u32) as u16 == status_value(m)
            &&& other != 4 ==> common_read(next, other) == common_read(m, other)
        }),
{
    let next = common_written(m, 4, val);
    lemma_joined(next.state.command, status_value(next));
}

/// A BAR register takes the address bits that its mask has. It reads back as them, and
/// the lower register of a BAR with the bit that says that the BAR has 64 bits. While
/// BARs are decoded, their registers take nothing. The other registers stay.
pub proof fn law_bar_read_back<C: PciCapability, E: PciExtendedCapability>(
    m: CommonModel<C, E>,
    i: int,
    val: u32,
    other: u16,
)
    requires
        0 <= i < m.bar_count <= 6,
    ensures
        ({
            let at = (0x10 + 4 * i) as u16;
            let next = common_written(m, at, val);
            let mask = m.bar_masks.at(i);
            &&& m.state.command & 2 != 0 ==> next == m
            &&& m.state.command & 2 == 0 ==> common_read(next, at) == CommonRead::Value(
                if i % 2 == 0 && mask != 0 {
                    (val & mask) | 4
                } else {
                    val & mask
                },
            )
            &&& other != at ==> common_read(next, other) == common_read(m, other)
            &&& next.state.command == m.state.command
        }),
{
    let at = (0x10 + 4 * i) as u16;
    assert((at - 0x10) / 4 == i);
    if m.state.command & 2 == 0 {
        let mask = m.bar_masks.at(i);
        let v = if i % 2 == 0 && mask != 0 {
            (val & mask) | 4
        } else {
            val & mask
        };
        law_with(m.state.base_addresses, i, i, v);
        if 0x10 <= other < 0x10 + 4 * m.bar_count && other % 4 == 0 && other != at {
            law_with(m.state.base_addresses, i, (other - 0x10) / 4, v);
        }
    }
}

/// Registers of the header other than the command register and the BARs take no writes
/// of the common part.
pub proof fn law_header_read_only<C: PciCapability, E: PciExtendedCapability>(
    m: CommonModel<C, E>,
    offset: u16,
    val: u32,
)
    requires
        offset < 0x40 || offset >= 0x1000,
        offset != 4,
        offset % 4 != 0 || offset < 0x10 || offset >= 0x10 + 4 * m.bar_count,
    ensures
        common_written(m, offset, val) == m,
{
}

/// After a reset nothing is enabled, and no BAR has an address. The identity and the
/// masks of the BARs stay.
pub proof fn law_header_reset<C: PciCapability, E: PciExtendedCapability>(
    m: CommonModel<C, E>,
    i: int,
)
    requires
        0 <= i < m.bar_count <= 6,
    ensures
        ({
            let next = common_reset(m);
            &&& next.state.command == 0
            &&& common_read(next, (0x10 + 4 * i) as u16) == CommonRead::Value(0)
            &&& common_read(next, 0) == common_read(m, 0)
            &&& common_read(next, 8) == common_read(m, 8)
            &&& next.bar_masks == m.bar_masks
            &&& next.bar_count == m.bar_count
            &&& next.hardware_ids == m.hardware_ids
        }),
{
    let at = (0x10 + 4 * i) as u16;
    assert((at - 0x10) / 4 == i);
}

/// Every dword of the header of an endpoint can be read and written, and nothing else
/// below the capabilities can. Its interrupt line is read back; the identity of its
/// subsystem and the pointer to its capabilities stay as they are.
pub proof fn law_type0_header<C: PciCapability, E: PciExtendedCapability>(
    m: CommonModel<C, E>,
    offset: u16,
    val: u32,
)
    requires
        m.bar_count == 6,
        offset < 0x40,
    ensures
        type0_read(m, offset) is Ok <==> offset % 4 == 0,
        type0_write_result(m, offset) is Ok <==> offset % 4 == 0,
        type0_read(type0_common_written(m, 0x3C, val), 0x3C) == Ok::<u32, IoError>(val & 0xff),
        offset != 0x3C ==> type0_read(type0_common_written(m, 0x3C, val), offset) == type0_read(
            m,
            offset,
        ),
        offset != 0x3C ==> type0_read(type0_common_written(m, offset, val), 0x3C) == type0_read(
            m,
            0x3C,
        ),
        type0_read(m, 0x2C) matches Ok(v) && v as u16 == m.hardware_ids.type0_sub_vendor_id && (v
            >> 16u32) as u16 == m.hardware_ids.type0_sub_system_id,
        type0_read(m, 0x34) == Ok::<u32, IoError>(
            if m.capabilities.len() > 0 {
                0x40
            } else {
                0
            },
        ),
        type0_read(m, 0x0C) == Ok::<u32, IoError>(
            if m.multi_function_bit {
                0x0080_0000
            } else {
                0
            },
        ),
{
    lemma_header_bits(val);
    lemma_joined(m.hardware_ids.type0_sub_vendor_id, m.hardware_ids.type0_sub_system_id);
}

/// Every dword of the header of a bridge can be read and written, and nothing else
/// below the capabilities can.
pub proof fn law_type1_header<C: PciCapability, E: PciExtendedCapability>(
    m: Type1Model<C, E>,
    offset: u16,
)
    requires
        m.common.bar_count == 2,
        offset < 0x40,
    ensures
        type1_read(m.common, m.state, offset) is Ok <==> offset % 4 == 0,
        type1_write_result(m.common, offset) is Ok <==> offset % 4 == 0,
        type1_read(m.common, m.state, 0x0C) == Ok::<u32, IoError>(
            if m.common.multi_function_bit {
                0x0081_0000
            } else {
                0x0001_0000
            },
        ),
{
}

/// What is written to a register of a bridge is read back: the three bus numbers, the
/// memory window and the prefetchable window, of which the lower dword also says that
/// addresses have 64 bits. No other register changes.
pub proof fn law_type1_read_back<C: PciCapability, E: PciExtendedCapability>(
    m: Type1Model<C, E>,
    offset: u16,
    val: u32,
    other: u16,
)
    requires
        m.common.bar_count == 2,
        0x18 <= offset < 0x40,
        other != offset,
    ensures
        ({
            let next = type1_written(m, offset, val);
            let after = type1_read(next.common, next.state, offset);
            let before = type1_read(m.common, m.state, offset);
            &&& after == if offset == 0x18 {
                Ok::<u32, IoError>(val & 0x00FF_FFFF)
            } else if offset == 0x20 || offset == 0x28 || offset == 0x2C {
                Ok(val)
            } else if offset == 0x24 {
                Ok(val | 0x0001_0001)
            } else {
                before
            }
            &&& type1_read(next.common, next.state, other) == type1_read(m.common, m.state, other)
        }),
{
    lemma_header_bits(val);
}

proof fn lemma_window_bits(r: u16)
    ensures
        window_base(r) == r / 16 * 0x10_0000,
        window_limit(r) == r / 16 * 0x10_0000 + 0xF_FFFF,
{
    assert(((r & !0xFu16) as u32) << 16u32 == (r as u32) / 16 * 0x10_0000 && (((r & !0xFu16)
        as u32) << 16u32) | 0xF_FFFF == (r as u32) / 16 * 0x10_0000 + 0xF_FFFF) by (bit_vector);
}

/// The windows of a bridge are counted in megabytes by the upper twelve bits of their
/// registers, and those of the prefetchable window have 32 bits more. A window is
/// decoded while bit 1 of the command register enables it, unless it ends before it
/// starts.
pub proof fn law_windows_counted(state: ConfigSpaceType1EmulatorState, command: u16)
    ensures
        ({
            let base = state.memory_base / 16 * 0x10_0000;
            let limit = state.memory_limit / 16 * 0x10_0000 + 0xF_FFFF;
            match memory_window(state, command) {
                Some((b, l)) => command & 2 != 0 && b == base && l == limit && base <= limit,
                None => command & 2 == 0 || base > limit,
            }
        }),
        ({
            let base = state.prefetch_base_upper * 0x1_0000_0000 + state.prefetch_base / 16
                * 0x10_0000;
            let limit = state.prefetch_limit_upper * 0x1_0000_0000 + state.prefetch_limit / 16
                * 0x10_0000 + 0xF_FFFF;
            match prefetch_window(state, command) {
                Some((b, l)) => command & 2 != 0 && b == base && l == limit && base <= limit,
                None => command & 2 == 0 || base > limit,
            }
        }),
{
    lemma_window_bits(state.memory_base);
    lemma_window_bits(state.memory_limit);
    lemma_window_bits(state.prefetch_base);
    lemma_window_bits(state.prefetch_limit);
    lemma_wide(state.prefetch_base_upper, window_base(state.prefetch_base));
    lemma_wide(state.prefetch_limit_upper, window_limit(state.prefetch_limit));
}

/// The buses that a bridge decodes are those from its secondary to its subordinate bus
/// number, if they are in order.
pub proof fn law_buses_decoded(state: ConfigSpaceType1EmulatorState)
    ensures
        state.bus_range.secondary <= state.bus_range.subordinate ==> assigned_buses(state) == (
            state.bus_range.secondary,
            state.bus_range.subordinate,
        ),
        state.bus_range.secondary > state.bus_range.subordinate ==> assigned_buses(state) == (
            0u8,
            0u8,
        ),
{
}

proof fn lemma_mask_bits(size: u64, rest: u64)
    requires
        size % 16 == 0,
        size >= 16,
        rest == size - 1,
    ensures
        !rest as u32 | 4 == !(rest as u32) & !0xFu32 | 4,
        ((!rest) >> 32u64) as u32 == !((rest >> 32u64) as u32),
        4u32 & !0xFu32 == 0,
        4u32 & 4 != 0,
{
    assert(!rest as u32 | 4 == !(rest as u32) & !0xFu32 | 4 && ((!rest) >> 32u64) as u32 == !((rest
        >> 32u64) as u32) && 4u32 & !0xFu32 == 0 && 4u32 & 4 != 0) by (bit_vector)
        requires
            size % 16 == 0,
            size >= 16,
            rest == size - 1,
    ;
}

/// The first BAR of a device that is made with one has the smallest size that a BAR can
/// have for its length.
pub proof fn law_new_bar<C, E>(m: CommonModel<C, E>, bars: DeviceBars)
    requires
        has_bars(m, bars),
        bars.bars.s0 is Some,
    ensures
        is_implemented(m.bar_masks, 0),
        is_bar_size(bar_length(m.bar_masks, 0), bars.bars.s0->0.len as int),
{
    let b = bars.bars.s0->0;
    let masks = m.bar_masks;
    let size = choose|size: u64|
        #![trigger is_bar_size(size as int, b.len as int)]
        {
            &&& is_bar_size(size as int, b.len as int)
            &&& masks.s0 == (!((size - 1) as u64) as u32 | BAR_ENCODING_64BIT)
            &&& masks.s1 == ((!((size - 1) as u64)) >> 32u64) as u32
        };
    vstd::arithmetic::power2::lemma2_to64();
    assert(vstd::arithmetic::power2::pow2(4) == 16);
    lemma_pow2_divides(16, size as int);
    lemma_mask_bits(size, (size - 1) as u64);
    law_mask_length(masks, 0, size, 4);
}

}
