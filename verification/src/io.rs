//! Results of device accesses and writes of single bytes.
use vstd::prelude::*;

verus! {

/// Why a device access failed.
#[derive(Debug, Clone, Copy, PartialEq, Eq, Structural)]
pub enum IoError {
    /// There is no such register.
    InvalidRegister,
    /// The register does not take accesses of this size.
    InvalidAccessSize,
    /// The access is not aligned.
    UnalignedAccess,
    /// Nothing answers.
    NoResponse,
}

/// The result of a device access.
pub type IoResult = Result<(), IoError>;

/// A write of some of the bytes of a dword.
#[derive(Debug, Clone, Copy)]
pub struct ByteEnabledDwordWrite {
    /// The value.
    pub value: u32,
    /// Whether byte 0 is written.
    pub byte0: bool,
    /// Whether byte 1 is written.
    pub byte1: bool,
    /// Whether byte 2 is written.
    pub byte2: bool,
    /// Whether byte 3 is written.
    pub byte3: bool,
}

/// The bits of the bytes that are written.
pub open spec fn byte_mask(w: ByteEnabledDwordWrite) -> u32 {
    (if w.byte0 {
        0xFFu32
    } else {
        0
    }) | (if w.byte1 {
        0xFF00u32
    } else {
        0
    }) | (if w.byte2 {
        0xFF_0000u32
    } else {
        0
    }) | (if w.byte3 {
        0xFF00_0000u32
    } else {
        0
    })
}

/// A dword after the write: written bytes are new, the others stay.
pub open spec fn merged(w: ByteEnabledDwordWrite, old_value: u32) -> u32 {
    (old_value & !byte_mask(w)) | (w.value & byte_mask(w))
}

/// The lower half of a dword after the write.
pub open spec fn merged_low(w: ByteEnabledDwordWrite, old_value: u16) -> u16 {
    merged(w, old_value as u32) as u16
}

/// The upper half of a dword after the write.
pub open spec fn merged_high(w: ByteEnabledDwordWrite, old_value: u16) -> u16 {
    (merged(w, (old_value as u32) << 16u32) >> 16u32) as u16
}

impl ByteEnabledDwordWrite {
    /// A write of all bytes.
    pub fn with_all_bytes_enabled(value: u32) -> (w: Self)
        ensures
            w == all_bytes(value),
    {
        ByteEnabledDwordWrite { value, byte0: true, byte1: true, byte2: true, byte3: true }
    }

    fn mask(&self) -> (r: u32)
        ensures
            r == byte_mask(*self),
    {
        let m0: u32 = if self.byte0 {
            0xFF
        } else {
            0
        };
        let m1: u32 = if self.byte1 {
            0xFF00
        } else {
            0
        };
        let m2: u32 = if self.byte2 {
            0xFF_0000
        } else {
            0
        };
        let m3: u32 = if self.byte3 {
            0xFF00_0000
        } else {
            0
        };
        m0 | m1 | m2 | m3
    }

    /// Merges the write into a dword.
    pub fn merge(&self, old_value: u32) -> (r: u32)
        ensures
            r == merged(*self, old_value),
    {
        let m: u32 = self.mask();
        (old_value & !m) | (self.value & m)
    }

    /// Merges the lower half of the write into a word.
    pub fn merge_low(&self, old_value: u16) -> (r: u16)
        ensures
            r == merged_low(*self, old_value),
    {
        self.merge(old_value as u32) as u16
    }

    /// Merges the upper half of the write into a word.
    pub fn merge_high(&self, old_value: u16) -> (r: u16)
        ensures
            r == merged_high(*self, old_value),
    {
        (self.merge((old_value as u32) << 16u32) >> 16u32) as u16
    }
}

/// The write of all bytes of a value.
pub open spec fn all_bytes(value: u32) -> ByteEnabledDwordWrite {
    ByteEnabledDwordWrite { value, byte0: true, byte1: true, byte2: true, byte3: true }
}

/// A write of all bytes leaves nothing of what was there.
pub proof fn law_all_bytes(value: u32, old_value: u32)
    ensures
        merged(all_bytes(value), old_value) == value,
        merged_low(all_bytes(value), old_value as u16) == value as u16,
        merged_high(all_bytes(value), old_value as u16) == (value >> 16u32) as u16,
{
    let m = 0xFFu32 | 0xFF00u32 | 0xFF_0000u32 | 0xFF00_0000u32;
    assert(forall|o: u32, v: u32|
        #![trigger (o & !m) | (v & m)]
        m == 0xFFu32 | 0xFF00u32 | 0xFF_0000u32 | 0xFF00_0000u32 ==> (o & !m) | (v & m) == v)
        by (bit_vector);
}

/// The halves that a dword is made of are its halves.
pub proof fn lemma_joined(low: u16, high: u16)
    ensures
        ((low as u32) | ((high as u32) << 16u32)) as u16 == low,
        (((low as u32) | ((high as u32) << 16u32)) >> 16u32) as u16 == high,
        (((high as u32) << 16u32) | (low as u32)) as u16 == low,
        ((((high as u32) << 16u32) | (low as u32)) >> 16u32) as u16 == high,
{
    assert({
        &&& ((low as u32) | ((high as u32) << 16u32)) as u16 == low
        &&& (((low as u32) | ((high as u32) << 16u32)) >> 16u32) as u16 == high
        &&& (((high as u32) << 16u32) | (low as u32)) as u16 == low
        &&& ((((high as u32) << 16u32) | (low as u32)) >> 16u32) as u16 == high
    }) by (bit_vector);
}

}
