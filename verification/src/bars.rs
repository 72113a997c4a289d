//! Base address registers and the memory behind them.
use crate::regs::BAR_ENCODING_64BIT;
use crate::regs::BAR_ENCODING_MASK;
use crate::resource::align::is_pow2;
use crate::slots::all_slots;
use crate::slots::slots_of;
use crate::slots::Slots;
use vstd::arithmetic::power2::lemma_pow2_unfold;
use vstd::arithmetic::power2::pow2;
use vstd::prelude::*;

verus! {

/// What a BAR is backed by. Mapping and unmapping are the owner's work: the
/// model says where a BAR's memory is to be.
#[derive(Debug, Clone, Copy, PartialEq, Eq, Structural)]
pub enum BarMemoryKind {
    /// Accesses go to the device's handler.
    Intercept,
    /// The BAR is a shared memory region.
    SharedMem,
    /// Nothing is behind the BAR.
    Dummy,
}

/// The length of a BAR and what it is backed by.
#[derive(Debug, Clone, Copy)]
pub struct BarMemory {
    /// Length in bytes.
    pub len: u64,
    /// What it is backed by.
    pub kind: BarMemoryKind,
}

/// The BARs of a device. All are 64 bits wide, so only the even ones can be
/// set.
#[derive(Debug, Clone, Copy)]
pub struct DeviceBars {
    /// One entry per BAR.
    pub bars: Slots<Option<BarMemory>>,
}

impl DeviceBars {
    /// Creates a device without BARs.
    pub fn new() -> (r: DeviceBars)
        ensures
            r.bars == all_slots(None::<BarMemory>),
    {
        DeviceBars { bars: Slots::all(None) }
    }

    /// Sets BAR 0.
    pub fn bar0(self, len: u64, kind: BarMemoryKind) -> (r: Self)
        ensures
            r.bars == self.bars.with(0, Some(BarMemory { len, kind })),
    {
        DeviceBars { bars: Slots { s0: Some(BarMemory { len, kind }), ..self.bars } }
    }

    /// Sets BAR 2.
    pub fn bar2(self, len: u64, kind: BarMemoryKind) -> (r: Self)
        ensures
            r.bars == self.bars.with(2, Some(BarMemory { len, kind })),
    {
        DeviceBars { bars: Slots { s2: Some(BarMemory { len, kind }), ..self.bars } }
    }

    /// Sets BAR 4.
    pub fn bar4(self, len: u64, kind: BarMemoryKind) -> (r: Self)
        ensures
            r.bars == self.bars.with(4, Some(BarMemory { len, kind })),
    {
        DeviceBars { bars: Slots { s4: Some(BarMemory { len, kind }), ..self.bars } }
    }
}

/// The smallest size of a BAR.
pub const MIN_BAR_SIZE: u64 = 4096;

/// Whether a size is the smallest that a BAR can have for a length: a power of
/// two, at least a page.
pub open spec fn is_bar_size(size: int, len: int) -> bool {
    &&& is_pow2(size)
    &&& size >= len
    &&& size >= MIN_BAR_SIZE
    &&& size == MIN_BAR_SIZE || size < 2 * len
}

/// Rounds a length up to the size of a BAR.
pub fn bar_size(len: u64) -> (r: u64)
    requires
        len <= 0x8000_0000_0000_0000,
    ensures
        is_bar_size(r as int, len as int),
{
    let mut size: u64 = MIN_BAR_SIZE;
    let ghost mut n: nat = 12;
    proof {
        vstd::arithmetic::power2::lemma2_to64();
    }
    while size < len
        invariant
            len <= 0x8000_0000_0000_0000,
            pow2(n) == size,
            size >= MIN_BAR_SIZE,
            size == MIN_BAR_SIZE || size < 2 * len,
        decreases 2 * len - size,
    {
        proof {
            lemma_pow2_unfold((n + 1) as nat);
            n = (n + 1) as nat;
        }
        size = size * 2;
    }
    size
}

/// Whether a slot starts a 64-bit BAR. The last slot cannot.
pub open spec fn starts_wide(masks: Slots<u32>, i: int) -> bool {
    0 <= i < 5 && masks.at(i) & BAR_ENCODING_64BIT != 0
}

/// Whether a slot is the upper half of a 64-bit BAR.
pub open spec fn is_upper_slot(masks: Slots<u32>, i: int) -> bool
    decreases i,
{
    i > 0 && starts_wide(masks, i - 1) && !is_upper_slot(masks, i - 1)
}

/// Two registers as one value, without encoding bits.
pub open spec fn wide_value(low: u32, high: u32) -> u64 {
    ((high as u64) << 32u64) | ((low & !BAR_ENCODING_MASK) as u64)
}

/// The address bits of the BAR that starts at a slot.
pub open spec fn address_mask(masks: Slots<u32>, i: int) -> u64 {
    if starts_wide(masks, i) {
        wide_value(masks.at(i), masks.at(i + 1))
    } else {
        (masks.at(i) & !BAR_ENCODING_MASK) as u64
    }
}

/// The address in the BAR that starts at a slot.
pub open spec fn bar_address(bars: Slots<u32>, masks: Slots<u32>, i: int) -> u64 {
    if starts_wide(masks, i) {
        wide_value(bars.at(i), bars.at(i + 1))
    } else {
        (bars.at(i) & !BAR_ENCODING_MASK) as u64
    }
}

/// Whether there is a BAR that starts at a slot. The halves of a 64-bit BAR are
/// taken together: one that is 4 GiB or larger has no bits in its lower half.
pub open spec fn is_implemented(masks: Slots<u32>, i: int) -> bool {
    0 <= i < 6 && !is_upper_slot(masks, i) && address_mask(masks, i) != 0
}

/// The length of the BAR that starts at a slot, in bytes.
pub open spec fn bar_length(masks: Slots<u32>, i: int) -> int {
    if starts_wide(masks, i) {
        0x1_0000_0000_0000_0000 - address_mask(masks, i)
    } else {
        0x1_0000_0000 - address_mask(masks, i)
    }
}

/// Where a BAR is.
#[derive(Debug, Clone, Copy, PartialEq, Eq, Structural)]
pub struct BarMapping {
    /// The address.
    pub base_address: u64,
    /// The length in bytes.
    pub len: u64,
}

/// The mapping of the BAR that starts at a slot.
pub open spec fn mapping_at(bars: Slots<u32>, masks: Slots<u32>, i: int) -> Option<BarMapping> {
    if is_implemented(masks, i) {
        Some(
            BarMapping {
                base_address: bar_address(bars, masks, i),
                len: bar_length(masks, i) as u64,
            },
        )
    } else {
        None
    }
}

fn wide_slot(masks: &Slots<u32>, i: usize) -> (r: bool)
    requires
        i < 6,
    ensures
        r == starts_wide(*masks, i as int),
{
    i < 5 && masks.get(i) & BAR_ENCODING_64BIT != 0
}

fn mapping_of(bars: &Slots<u32>, masks: &Slots<u32>, i: usize) -> (r: Option<BarMapping>)
    requires
        i < 6,
        !is_upper_slot(*masks, i as int),
    ensures
        r == mapping_at(*bars, *masks, i as int),
{
    if wide_slot(masks, i) {
        let mask: u64 = ((masks.get(i + 1) as u64) << 32u64) | ((masks.get(i) & !BAR_ENCODING_MASK)
            as u64);
        if mask == 0 {
            return None;
        }
        let base: u64 = ((bars.get(i + 1) as u64) << 32u64) | ((bars.get(i) & !BAR_ENCODING_MASK)
            as u64);
        Some(BarMapping { base_address: base, len: (u64::MAX - mask) + 1 })
    } else {
        let mask: u64 = (masks.get(i) & !BAR_ENCODING_MASK) as u64;
        if mask == 0 {
            return None;
        }
        let base: u64 = (bars.get(i) & !BAR_ENCODING_MASK) as u64;
        Some(BarMapping { base_address: base, len: 0x1_0000_0000 - mask })
    }
}

/// Where the BARs of a device are.
#[derive(Debug, Clone, Copy)]
pub struct BarMappings {
    /// One entry per slot.
    pub bars: Slots<Option<BarMapping>>,
}

/// The mappings that registers and masks give.
pub open spec fn mappings(bars: Slots<u32>, masks: Slots<u32>) -> BarMappings {
    BarMappings {
        bars: Slots {
            s0: mapping_at(bars, masks, 0),
            s1: mapping_at(bars, masks, 1),
            s2: mapping_at(bars, masks, 2),
            s3: mapping_at(bars, masks, 3),
            s4: mapping_at(bars, masks, 4),
            s5: mapping_at(bars, masks, 5),
        },
    }
}

/// No mappings.
pub open spec fn no_mappings() -> BarMappings {
    BarMappings { bars: all_slots(None::<BarMapping>) }
}

/// Whether a mapping holds an address.
pub open spec fn holds(mapping: Option<BarMapping>, address: u64) -> bool {
    mapping is Some && mapping->0.base_address <= address < mapping->0.base_address
        + mapping->0.len
}

/// The first BAR from a slot on that holds an address, and the offset in it.
pub open spec fn found_from(m: BarMappings, address: u64, i: int) -> Option<(u8, u64)>
    decreases 6 - i,
{
    if i >= 6 {
        None
    } else if holds(m.bars.at(i), address) {
        Some((i as u8, (address - m.bars.at(i)->0.base_address) as u64))
    } else {
        found_from(m, address, i + 1)
    }
}

impl BarMappings {
    /// No mappings.
    pub fn new() -> (r: Self)
        ensures
            r == no_mappings(),
    {
        BarMappings { bars: Slots::all(None) }
    }

    /// Works out where BARs are from their registers and masks.
    pub fn parse(bars: &Slots<u32>, masks: &Slots<u32>) -> (r: Self)
        ensures
            r == mappings(*bars, *masks),
    {
        let mut found: Slots<Option<BarMapping>> = Slots::all(None);
        let mut i: usize = 0;
        while i < 6
            invariant
                i <= 7,
                i < 6 ==> !is_upper_slot(*masks, i as int),
                forall|j: int|
                    0 <= j < 6 ==> #[trigger] found.at(j) == if j < i {
                        mapping_at(*bars, *masks, j)
                    } else {
                        None
                    },
            decreases 6 - i,
        {
            let ghost before = found;
            let wide: bool = wide_slot(masks, i);
            let mapping: Option<BarMapping> = mapping_of(bars, masks, i);
            found.set(i, mapping);
            proof {
                assert forall|j: int| 0 <= j < 6 implies #[trigger] found.at(j) == if j < i + (
                if wide {
                    2int
                } else {
                    1
                }) {
                    mapping_at(*bars, *masks, j)
                } else {
                    None
                } by {
                    assert(before.at(j) == if j < i {
                        mapping_at(*bars, *masks, j)
                    } else {
                        None
                    });
                    if wide && j == i + 1 {
                        assert(is_upper_slot(*masks, j));
                    }
                }
                if wide {
                    assert(is_upper_slot(*masks, i + 1));
                    assert(!is_upper_slot(*masks, i + 2));
                }
            }
            i = if wide {
                i + 2
            } else {
                i + 1
            };
        }
        proof {
            assert(found.at(0) == mapping_at(*bars, *masks, 0));
            assert(found.at(1) == mapping_at(*bars, *masks, 1));
            assert(found.at(2) == mapping_at(*bars, *masks, 2));
            assert(found.at(3) == mapping_at(*bars, *masks, 3));
            assert(found.at(4) == mapping_at(*bars, *masks, 4));
            assert(found.at(5) == mapping_at(*bars, *masks, 5));
        }
        BarMappings { bars: found }
    }

    /// Returns where a BAR is.
    pub fn get(&self, bar: u8) -> (r: Option<u64>)
        ensures
            r == if bar < 6 && self.bars.at(bar as int) is Some {
                Some(self.bars.at(bar as int)->0.base_address)
            } else {
                None
            },
    {
        if bar >= 6 {
            return None;
        }
        match self.bars.get(bar as usize) {
            Some(m) => Some(m.base_address),
            None => None,
        }
    }

    /// Finds the BAR that holds an address, and the offset in it.
    pub fn find(&self, address: u64) -> (r: Option<(u8, u64)>)
        ensures
            r == found_from(*self, address, 0),
    {
        let mut i: u8 = 0;
        while i < 6
            invariant
                i <= 6,
                found_from(*self, address, i as int) == found_from(*self, address, 0),
            decreases 6 - i,
        {
            if let Some(m) = self.bars.get(i as usize) {
                if address >= m.base_address && address - m.base_address < m.len {
                    return Some((i, address - m.base_address));
                }
            }
            i = i + 1;
        }
        None
    }
}

/// A memory BAR that a guest has programmed.
#[derive(Debug, Clone, Copy, PartialEq, Eq, Structural)]
pub struct ActiveMmioBar {
    /// The slot at which the BAR starts.
    pub bar_id: u8,
    /// The address.
    pub base_address: u64,
    /// The length in bytes.
    pub length_bytes: u64,
}

/// The BAR that starts at a slot, if it has an address.
pub open spec fn active_at(bars: Slots<u32>, masks: Slots<u32>, i: int) -> Option<ActiveMmioBar> {
    match mapping_at(bars, masks, i) {
        Some(m) if m.base_address != 0 => Some(
            ActiveMmioBar { bar_id: i as u8, base_address: m.base_address, length_bytes: m.len },
        ),
        _ => None,
    }
}

/// The programmed BARs that start before a slot, in order.
pub open spec fn active_below(bars: Slots<u32>, masks: Slots<u32>, i: int) -> Seq<ActiveMmioBar>
    decreases i,
{
    if i <= 0 {
        Seq::empty()
    } else {
        match active_at(bars, masks, i - 1) {
            Some(bar) => active_below(bars, masks, i - 1).push(bar),
            None => active_below(bars, masks, i - 1),
        }
    }
}

/// Returns the memory BARs that have an address, in order. The halves of a
/// 64-bit BAR are one BAR, at the slot of the lower half.
pub fn active_mmio_bars(bars: &[u32; 6], masks: &[u32; 6]) -> (r: Vec<ActiveMmioBar>)
    ensures
        r@ == active_below(slots_of(bars@), slots_of(masks@), 6),
{
    let b: Slots<u32> = Slots::from_array(bars);
    let m: Slots<u32> = Slots::from_array(masks);
    let found: BarMappings = BarMappings::parse(&b, &m);
    let mut active: Vec<ActiveMmioBar> = Vec::new();
    let mut i: u8 = 0;
    while i < 6
        invariant
            i <= 6,
            found == mappings(b, m),
            active@ == active_below(b, m, i as int),
        decreases 6 - i,
    {
        if let Some(mapping) = found.bars.get(i as usize) {
            if mapping.base_address != 0 {
                active.push(
                    ActiveMmioBar {
                        bar_id: i,
                        base_address: mapping.base_address,
                        length_bytes: mapping.len,
                    },
                );
            }
        }
        i = i + 1;
    }
    active
}

/// Returns which slots start a BAR.
pub fn implemented_bars(masks: &[u32; 6]) -> (r: [bool; 6])
    ensures
        forall|i: int| 0 <= i < 6 ==> r[i] == #[trigger] is_implemented(slots_of(masks@), i),
{
    let m: Slots<u32> = Slots::from_array(masks);
    let none: Slots<u32> = Slots::all(0);
    let found: BarMappings = BarMappings::parse(&none, &m);
    proof {
        assert(found == mappings(none, m));
    }
    let r: [bool; 6] = [
        found.bars.s0.is_some(),
        found.bars.s1.is_some(),
        found.bars.s2.is_some(),
        found.bars.s3.is_some(),
        found.bars.s4.is_some(),
        found.bars.s5.is_some(),
    ];
    assert forall|i: int| 0 <= i < 6 implies r[i] == #[trigger] is_implemented(m, i) by {
        assert(found.bars.at(i) == mapping_at(none, m, i));
    }
    r
}

/// An address that is found is in the BAR that it is found in, at the offset
/// that is given.
pub proof fn law_found_in_bar(m: BarMappings, address: u64)
    ensures
        match found_from(m, address, 0) {
            Some((bar, offset)) => bar < 6 && m.bars.at(bar as int) is Some && offset
                < m.bars.at(bar as int)->0.len && m.bars.at(bar as int)->0.base_address + offset
                == address,
            None => forall|i: int|
                0 <= i < 6 ==> (#[trigger] m.bars.at(i) matches Some(b) ==> address
                    < b.base_address || b.base_address + b.len <= address),
        },
{
    lemma_found_from(m, address, 0);
}

proof fn lemma_found_from(m: BarMappings, address: u64, start: int)
    requires
        0 <= start <= 6,
    ensures
        match found_from(m, address, start) {
            Some((bar, offset)) => bar < 6 && m.bars.at(bar as int) is Some && offset
                < m.bars.at(bar as int)->0.len && m.bars.at(bar as int)->0.base_address + offset
                == address,
            None => forall|i: int| start <= i < 6 ==> !holds(#[trigger] m.bars.at(i), address),
        },
    decreases 6 - start,
{
    if start < 6 && !holds(m.bars.at(start), address) {
        lemma_found_from(m, address, start + 1);
    }
}

proof fn lemma_active(bars: Slots<u32>, masks: Slots<u32>, n: int)
    requires
        0 <= n <= 6,
    ensures
        ({
            let list = active_below(bars, masks, n);
            &&& forall|k: int|
                #![trigger list[k]]
                0 <= k < list.len() ==> {
                    &&& list[k].bar_id < n
                    &&& list[k].base_address != 0
                    &&& mappings(bars, masks).bars.at(list[k].bar_id as int) == Some(
                        BarMapping {
                            base_address: list[k].base_address,
                            len: list[k].length_bytes,
                        },
                    )
                }
            &&& forall|i: int|
                #![trigger mappings(bars, masks).bars.at(i)]
                0 <= i < n && mappings(bars, masks).bars.at(i) is Some && mappings(
                    bars,
                    masks,
                ).bars.at(i)->0.base_address != 0 ==> exists|k: int|
                    #![trigger list[k]]
                    0 <= k < list.len() && list[k].bar_id == i
        }),
    decreases n,
{
    if n > 0 {
        lemma_active(bars, masks, n - 1);
        let before = active_below(bars, masks, n - 1);
        let list = active_below(bars, masks, n);
        assert(mappings(bars, masks).bars.at(n - 1) == mapping_at(bars, masks, n - 1));
        assert forall|i: int|
            #![trigger mappings(bars, masks).bars.at(i)]
            0 <= i < n && mappings(bars, masks).bars.at(i) is Some && mappings(
                bars,
                masks,
            ).bars.at(i)->0.base_address != 0 implies exists|k: int|
            #![trigger list[k]]
            0 <= k < list.len() && list[k].bar_id == i by {
            if i < n - 1 {
                let k = choose|k: int|
                    #![trigger before[k]]
                    0 <= k < before.len() && before[k].bar_id == i;
                assert(list[k] == before[k]);
            } else {
                assert(list[list.len() - 1].bar_id == i);
            }
        }
        assert forall|k: int| #![trigger list[k]] 0 <= k < list.len() implies {
            &&& list[k].bar_id < n
            &&& list[k].base_address != 0
            &&& mappings(bars, masks).bars.at(list[k].bar_id as int) == Some(
                BarMapping { base_address: list[k].base_address, len: list[k].length_bytes },
            )
        } by {
            if k < before.len() {
                assert(list[k] == before[k]);
            }
        }
    }
}

/// The active BARs are those that have an address: every one that is mapped anywhere
/// but at zero, where it is and as long as it is, and no others.
pub proof fn law_active_bars(bars: Slots<u32>, masks: Slots<u32>, i: int)
    requires
        0 <= i < 6,
    ensures
        ({
            let list = active_below(bars, masks, 6);
            let at = mappings(bars, masks).bars.at(i);
            (exists|k: int|
                #![trigger list[k]]
                0 <= k < list.len() && list[k].bar_id == i && at == Some(
                    BarMapping {
                        base_address: list[k].base_address,
                        len: list[k].length_bytes,
                    },
                )) <==> at is Some && at->0.base_address != 0
        }),
{
    lemma_active(bars, masks, 6);
    let list = active_below(bars, masks, 6);
    let at = mappings(bars, masks).bars.at(i);
    if at is Some && at->0.base_address != 0 {
        let k = choose|k: int| #![trigger list[k]] 0 <= k < list.len() && list[k].bar_id == i;
        assert(mappings(bars, masks).bars.at(list[k].bar_id as int) == Some(
            BarMapping { base_address: list[k].base_address, len: list[k].length_bytes },
        ));
    }
}

/// A device that reports the mask of a size, a power of two of at least 16, has
/// a BAR of that length: a 32-bit BAR by one register, a 64-bit BAR by two.
pub proof fn law_mask_length(masks: Slots<u32>, i: int, size: u64, encoding: u32)
    requires
        0 <= i < 6,
        is_pow2(size as int),
        size >= 16,
        encoding & !BAR_ENCODING_MASK == 0,
        !is_upper_slot(masks, i),
    ensures
        encoding & BAR_ENCODING_64BIT == 0 && size <= 0x8000_0000 && masks.at(i) == !((size - 1)
            as u64 as u32) & !BAR_ENCODING_MASK | encoding ==> is_implemented(masks, i)
            && bar_length(masks, i) == size,
        i < 5 && encoding & BAR_ENCODING_64BIT != 0 && masks.at(i) == !((size - 1) as u64 as u32)
            & !BAR_ENCODING_MASK | encoding && masks.at(i + 1) == !(((size - 1) as u64 >> 32u64)
            as u32) ==> is_implemented(masks, i) && bar_length(masks, i) == size,
{
    let n = choose|n: nat| #[trigger] pow2(n) == size;
    if n >= 64 {
        vstd::arithmetic::power2::lemma2_to64();
        if n > 64 {
            vstd::arithmetic::power2::lemma_pow2_strictly_increases(64, n);
        }
        assert(false);
    }
    let s = n as u64;
    assert(1 * pow2(n) == pow2(n));
    vstd::bits::lemma_u64_pow2_no_overflow(n);
    vstd::bits::lemma_u64_shl_is_mul(1u64, s);
    let m = (size - 1) as u64;
    let low = !(m as u32) & !0xFu32 | encoding;
    let high = !((m >> 32u64) as u32);
    assert({
        &&& low & !0xFu32 == !(m as u32)
        &&& low & 0x4 == encoding & 0x4
        &&& ((high as u64) << 32u64) | ((low & !0xFu32) as u64) == !m
        &&& size <= 0x8000_0000 ==> (!(m as u32)) as int == 0x1_0000_0000 - size
        &&& (!m) as int == 0x1_0000_0000_0000_0000 - size
    }) by (bit_vector)
        requires
            s < 64,
            size == 1u64 << s,
            size >= 16,
            m == size - 1,
            encoding & !0xFu32 == 0,
            low == !(m as u32) & !0xFu32 | encoding,
            high == !((m >> 32u64) as u32),
    ;
}

}
