//! Where capabilities are in config space.
use crate::capabilities::PciCapability;
use crate::capabilities::PciExtendedCapability;
use crate::regs::CAP_ID_PCI_EXPRESS;
use vstd::prelude::*;

verus! {

/// The capability, from one on, that is at an offset, and the offset in it.
/// Capabilities follow each other without gaps.
pub open spec fn locate_cap<C: PciCapability>(caps: Seq<C>, i: int, offset: int) -> Option<
    (int, int),
>
    decreases caps.len() - i,
{
    if i >= caps.len() {
        None
    } else if offset < caps[i].cap_len() {
        Some((i, offset))
    } else {
        locate_cap(caps, i + 1, offset - caps[i].cap_len())
    }
}

/// The extended capability, from one on, that is at an offset, and the offset in
/// it.
pub open spec fn locate_ext<E: PciExtendedCapability>(caps: Seq<E>, i: int, offset: int) -> Option<
    (int, int),
>
    decreases caps.len() - i,
{
    if i >= caps.len() {
        None
    } else if offset < caps[i].ext_len() {
        Some((i, offset))
    } else {
        locate_ext(caps, i + 1, offset - caps[i].ext_len())
    }
}

/// Finds the capability at an offset from the first one.
pub fn get_capability_index_and_offset<C: PciCapability>(caps: &Vec<C>, offset: u16) -> (r: Option<
    (usize, u16),
>)
    ensures
        match locate_cap(caps@, 0, offset as int) {
            Some((i, o)) => r == Some((i as usize, o as u16)) && 0 <= i < caps.len() && 0 <= o
                <= offset,
            None => r is None,
        },
{
    let mut i: usize = 0;
    let mut rest: u16 = offset;
    while i < caps.len()
        invariant
            i <= caps.len(),
            rest <= offset,
            locate_cap(caps@, 0, offset as int) == locate_cap(caps@, i as int, rest as int),
        decreases caps.len() - i,
    {
        let size: usize = caps[i].len();
        if (rest as usize) < size {
            return Some((i, rest));
        }
        rest = rest - size as u16;
        i = i + 1;
    }
    None
}

/// Finds the extended capability at an offset from the first one.
pub fn get_extended_capability_index_and_offset<E: PciExtendedCapability>(
    caps: &Vec<E>,
    offset: u16,
) -> (r: Option<(usize, u16)>)
    ensures
        match locate_ext(caps@, 0, offset as int) {
            Some((i, o)) => r == Some((i as usize, o as u16)) && 0 <= i < caps.len() && 0 <= o
                <= offset,
            None => r is None,
        },
{
    let mut i: usize = 0;
    let mut rest: u16 = offset;
    while i < caps.len()
        invariant
            i <= caps.len(),
            rest <= offset,
            locate_ext(caps@, 0, offset as int) == locate_ext(caps@, i as int, rest as int),
        decreases caps.len() - i,
    {
        let size: usize = caps[i].len();
        if (rest as usize) < size {
            return Some((i, rest));
        }
        rest = rest - size as u16;
        i = i + 1;
    }
    None
}

/// Whether there is a PCI Express capability.
pub open spec fn is_pcie<C: PciCapability>(caps: Seq<C>) -> bool {
    exists|i: int| 0 <= i < caps.len() && (#[trigger] caps[i]).cap_id() == CAP_ID_PCI_EXPRESS
}

/// Returns whether there is a PCI Express capability.
pub fn has_pcie<C: PciCapability>(caps: &Vec<C>) -> (r: bool)
    ensures
        r == is_pcie(caps@),
{
    let mut i: usize = 0;
    while i < caps.len()
        invariant
            i <= caps.len(),
            forall|j: int| 0 <= j < i ==> (#[trigger] caps@[j]).cap_id() != CAP_ID_PCI_EXPRESS,
        decreases caps.len() - i,
    {
        if caps[i].capability_id() == CAP_ID_PCI_EXPRESS {
            assert(caps@[i as int].cap_id() == CAP_ID_PCI_EXPRESS);
            return true;
        }
        i = i + 1;
    }
    false
}

/// What a read at an offset gives: the capability's dword, and in its first
/// dword the pointer to the next capability.
pub open spec fn cap_read<C: PciCapability>(caps: Seq<C>, offset: u16) -> Option<u32> {
    match locate_cap(caps, 0, offset - 0x40) {
        Some((i, o)) => Some(
            if o == 0 {
                let next = if i < caps.len() - 1 {
                    (offset + caps[i].cap_len()) as u32
                } else {
                    0
                };
                caps[i].value(0) | (next << 8u32)
            } else {
                caps[i].value(o as u16)
            },
        ),
        None => None,
    }
}

/// What a read at an extended offset gives: the capability's dword, and in its
/// first dword the pointer to the next capability. All ones where there is
/// none.
pub open spec fn ext_read<E: PciExtendedCapability>(caps: Seq<E>, offset: u16) -> u32 {
    match locate_ext(caps, 0, offset - 0x100) {
        Some((i, o)) => if o == 0 {
            let next = if i < caps.len() - 1 {
                (offset + caps[i].ext_len()) as u32
            } else {
                0
            };
            caps[i].value(0) | (next << 20u32)
        } else {
            caps[i].value(o as u16)
        },
        None => 0xFFFF_FFFF,
    }
}

/// Reads a capability register.
pub fn read_cap<C: PciCapability>(caps: &Vec<C>, offset: u16) -> (r: Option<u32>)
    requires
        0x40 <= offset < 0x100,
    ensures
        r == cap_read(caps@, offset),
{
    match get_capability_index_and_offset(caps, offset - 0x40) {
        Some((i, o)) => {
            let value: u32 = caps[i].read_u32(o);
            if o == 0 {
                let next: u32 = if i < caps.len() - 1 {
                    offset as u32 + caps[i].len() as u32
                } else {
                    0
                };
                Some(value | (next << 8u32))
            } else {
                Some(value)
            }
        },
        None => None,
    }
}

/// Reads an extended capability register.
pub fn read_ext<E: PciExtendedCapability>(caps: &Vec<E>, offset: u16) -> (r: u32)
    requires
        0x100 <= offset < 0x1000,
    ensures
        r == ext_read(caps@, offset),
{
    match get_extended_capability_index_and_offset(caps, offset - 0x100) {
        Some((i, o)) => {
            let value: u32 = caps[i].read_u32(o);
            if o == 0 {
                let next: u32 = if i < caps.len() - 1 {
                    offset as u32 + caps[i].len() as u32
                } else {
                    0
                };
                value | (next << 20u32)
            } else {
                value
            }
        },
        None => 0xFFFF_FFFF,
    }
}

/// The capabilities after a write at an offset.
pub open spec fn caps_written<C: PciCapability>(caps: Seq<C>, offset: u16, val: u32) -> Seq<C> {
    match locate_cap(caps, 0, offset - 0x40) {
        Some((i, o)) => caps.update(i, caps[i].written(o as u16, val)),
        None => caps,
    }
}

/// The extended capabilities after a write at an offset.
pub open spec fn exts_written<E: PciExtendedCapability>(caps: Seq<E>, offset: u16, val: u32) -> Seq<
    E,
> {
    match locate_ext(caps, 0, offset - 0x100) {
        Some((i, o)) => caps.update(i, caps[i].written(o as u16, val)),
        None => caps,
    }
}

/// The capabilities after a reset.
pub open spec fn caps_reset<C: PciCapability>(caps: Seq<C>) -> Seq<C> {
    Seq::new(caps.len(), |i: int| caps[i].after_reset())
}

/// The extended capabilities after a reset.
pub open spec fn exts_reset<E: PciExtendedCapability>(caps: Seq<E>) -> Seq<E> {
    Seq::new(caps.len(), |i: int| caps[i].after_reset())
}

/// Resets capabilities.
pub fn reset_caps<C: PciCapability>(caps: &mut Vec<C>)
    ensures
        final(caps)@ == caps_reset(old(caps)@),
{
    let mut i: usize = 0;
    let ghost before = caps@;
    while i < caps.len()
        invariant
            i <= caps.len(),
            caps.len() == before.len(),
            forall|j: int|
                0 <= j < caps.len() ==> #[trigger] caps@[j] == if j < i {
                    before[j].after_reset()
                } else {
                    before[j]
                },
        decreases caps.len() - i,
    {
        caps[i].reset();
        i = i + 1;
    }
    assert(caps@ =~= caps_reset(before));
}

/// Resets extended capabilities.
pub fn reset_exts<E: PciExtendedCapability>(caps: &mut Vec<E>)
    ensures
        final(caps)@ == exts_reset(old(caps)@),
{
    let mut i: usize = 0;
    let ghost before = caps@;
    while i < caps.len()
        invariant
            i <= caps.len(),
            caps.len() == before.len(),
            forall|j: int|
                0 <= j < caps.len() ==> #[trigger] caps@[j] == if j < i {
                    before[j].after_reset()
                } else {
                    before[j]
                },
        decreases caps.len() - i,
    {
        caps[i].reset();
        i = i + 1;
    }
    assert(caps@ =~= exts_reset(before));
}

/// Where a capability starts, from the first one.
pub open spec fn cap_start<C: PciCapability>(caps: Seq<C>, i: int) -> int
    decreases i,
{
    if i <= 0 {
        0
    } else {
        cap_start(caps, i - 1) + caps[i - 1].cap_len()
    }
}

proof fn lemma_locate_start<C: PciCapability>(caps: Seq<C>, from: int, i: int, o: int)
    requires
        0 <= from <= i < caps.len(),
        0 <= o < caps[i].cap_len(),
        forall|j: int| 0 <= j < caps.len() ==> (#[trigger] caps[j]).cap_len() >= 0,
    ensures
        locate_cap(caps, from, cap_start(caps, i) - cap_start(caps, from) + o) == Some((i, o)),
    decreases i - from,
{
    if from < i {
        lemma_start_grows(caps, from + 1, i);
        assert(cap_start(caps, from + 1) == cap_start(caps, from) + caps[from].cap_len());
        lemma_locate_start(caps, from + 1, i, o);
    }
}

proof fn lemma_start_grows<C: PciCapability>(caps: Seq<C>, i: int, j: int)
    requires
        0 <= i <= j <= caps.len(),
        forall|k: int| 0 <= k < caps.len() ==> (#[trigger] caps[k]).cap_len() >= 0,
    ensures
        cap_start(caps, i) <= cap_start(caps, j),
    decreases j - i,
{
    if i < j {
        lemma_start_grows(caps, i, j - 1);
    }
}

/// Every capability is where the one before it points, and the last one points
/// nowhere: a walk of the list from 0x40 on finds each of them.
pub proof fn law_capability_list<C: PciCapability>(caps: Seq<C>, i: int)
    requires
        0 <= i < caps.len(),
        forall|k: int| 0 <= k < caps.len() ==> (#[trigger] caps[k]).cap_len() > 0,
        cap_start(caps, caps.len() as int) <= 0xC0,
    ensures
        ({
            let at = (0x40 + cap_start(caps, i)) as u16;
            let next = if i + 1 < caps.len() {
                (0x40 + cap_start(caps, i + 1)) as u32
            } else {
                0
            };
            cap_read(caps, at) == Some(caps[i].value(0) | (next << 8u32))
        }),
{
    lemma_start_grows(caps, 0, i);
    lemma_start_grows(caps, i + 1, caps.len() as int);
    assert(cap_start(caps, i + 1) == cap_start(caps, i) + caps[i].cap_len());
    lemma_locate_start(caps, 0, i, 0);
}

/// Where an extended capability starts, from the first one.
pub open spec fn ext_start<E: PciExtendedCapability>(caps: Seq<E>, i: int) -> int
    decreases i,
{
    if i <= 0 {
        0
    } else {
        ext_start(caps, i - 1) + caps[i - 1].ext_len()
    }
}

proof fn lemma_locate_ext_start<E: PciExtendedCapability>(caps: Seq<E>, from: int, i: int, o: int)
    requires
        0 <= from <= i < caps.len(),
        0 <= o < caps[i].ext_len(),
        forall|j: int| 0 <= j < caps.len() ==> (#[trigger] caps[j]).ext_len() >= 0,
    ensures
        locate_ext(caps, from, ext_start(caps, i) - ext_start(caps, from) + o) == Some((i, o)),
    decreases i - from,
{
    if from < i {
        lemma_ext_start_grows(caps, from + 1, i);
        assert(ext_start(caps, from + 1) == ext_start(caps, from) + caps[from].ext_len());
        lemma_locate_ext_start(caps, from + 1, i, o);
    }
}

proof fn lemma_ext_start_grows<E: PciExtendedCapability>(caps: Seq<E>, i: int, j: int)
    requires
        0 <= i <= j <= caps.len(),
        forall|k: int| 0 <= k < caps.len() ==> (#[trigger] caps[k]).ext_len() >= 0,
    ensures
        ext_start(caps, i) <= ext_start(caps, j),
    decreases j - i,
{
    if i < j {
        lemma_ext_start_grows(caps, i, j - 1);
    }
}

/// Every extended capability is where the one before it points, and the last one
/// points nowhere: a walk of the list from 0x100 on finds each of them.
pub proof fn law_extended_list<E: PciExtendedCapability>(caps: Seq<E>, i: int)
    requires
        0 <= i < caps.len(),
        forall|k: int| 0 <= k < caps.len() ==> (#[trigger] caps[k]).ext_len() > 0,
        ext_start(caps, caps.len() as int) <= 0xF00,
    ensures
        ({
            let at = (0x100 + ext_start(caps, i)) as u16;
            let next = if i + 1 < caps.len() {
                (0x100 + ext_start(caps, i + 1)) as u32
            } else {
                0
            };
            ext_read(caps, at) == caps[i].value(0) | (next << 20u32)
        }),
{
    lemma_ext_start_grows(caps, 0, i);
    lemma_ext_start_grows(caps, i + 1, caps.len() as int);
    assert(ext_start(caps, i + 1) == ext_start(caps, i) + caps[i].ext_len());
    lemma_locate_ext_start(caps, 0, i, 0);
}

/// Every register of a capability is at its offset from where the capability starts:
/// it is what is read there, and what a write there goes to. The other capabilities
/// stay as they are.
pub proof fn law_capability_registers<C: PciCapability>(caps: Seq<C>, i: int, o: int, val: u32)
    requires
        0 <= i < caps.len(),
        forall|k: int| 0 <= k < caps.len() ==> (#[trigger] caps[k]).cap_len() > 0,
        cap_start(caps, caps.len() as int) <= 0xC0,
        0 <= o < caps[i].cap_len(),
    ensures
        ({
            let at = (0x40 + cap_start(caps, i) + o) as u16;
            let after = caps_written(caps, at, val);
            &&& o > 0 ==> cap_read(caps, at) == Some(caps[i].value(o as u16))
            &&& after.len() == caps.len()
            &&& forall|k: int|
                #![trigger after[k]]
                0 <= k < caps.len() ==> after[k] == if k == i {
                    caps[i].written(o as u16, val)
                } else {
                    caps[k]
                }
        }),
{
    lemma_start_grows(caps, 0, i);
    lemma_start_grows(caps, i + 1, caps.len() as int);
    assert(cap_start(caps, i + 1) == cap_start(caps, i) + caps[i].cap_len());
    lemma_locate_start(caps, 0, i, o);
}

/// Every register of an extended capability is at its offset from where the
/// capability starts: it is what is read there, and what a write there goes to. The
/// other extended capabilities stay as they are.
pub proof fn law_extended_registers<E: PciExtendedCapability>(
    caps: Seq<E>,
    i: int,
    o: int,
    val: u32,
)
    requires
        0 <= i < caps.len(),
        forall|k: int| 0 <= k < caps.len() ==> (#[trigger] caps[k]).ext_len() > 0,
        ext_start(caps, caps.len() as int) <= 0xF00,
        0 <= o < caps[i].ext_len(),
    ensures
        ({
            let at = (0x100 + ext_start(caps, i) + o) as u16;
            let after = exts_written(caps, at, val);
            &&& o > 0 ==> ext_read(caps, at) == caps[i].value(o as u16)
            &&& after.len() == caps.len()
            &&& forall|k: int|
                #![trigger after[k]]
                0 <= k < caps.len() ==> after[k] == if k == i {
                    caps[i].written(o as u16, val)
                } else {
                    caps[k]
                }
        }),
{
    lemma_ext_start_grows(caps, 0, i);
    lemma_ext_start_grows(caps, i + 1, caps.len() as int);
    assert(ext_start(caps, i + 1) == ext_start(caps, i) + caps[i].ext_len());
    lemma_locate_ext_start(caps, 0, i, o);
}

}
