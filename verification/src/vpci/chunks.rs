//! Accesses to config space of any size and alignment, as accesses to dwords.
use crate::pcie::bytes::byte_of;
use crate::pcie::bytes::get_byte;
use crate::pcie::bytes::law_bytes_written;
use crate::pcie::bytes::set_bytes;
use crate::pcie::bytes::with_bytes;
use crate::vpci::is_offsets;
use vstd::prelude::*;

verus! {

/// The part of an access that is in one dword.
#[derive(Debug, Clone, Copy, PartialEq, Eq)]
pub struct Chunk {
    /// The offset of the dword.
    pub offset: u16,
    /// The first byte of the dword that is accessed.
    pub first: usize,
    /// The number of bytes.
    pub count: usize,
    /// Where the bytes are in the data of the access.
    pub start: usize,
}

/// The number of dwords of an access.
pub open spec fn chunk_count(offset: int, len: int) -> nat {
    if len <= 0 {
        0
    } else {
        ((offset + len - 1) / 4 - offset / 4 + 1) as nat
    }
}

/// The part of an access in one of its dwords.
pub open spec fn chunk_at(offset: int, len: int, k: int) -> Chunk {
    let base = (offset / 4 + k) * 4;
    let from = if base < offset {
        offset
    } else {
        base
    };
    let to = if base + 4 > offset + len {
        offset + len
    } else {
        base + 4
    };
    Chunk {
        offset: base as u16,
        first: (from - base) as usize,
        count: (to - from) as usize,
        start: (from - offset) as usize,
    }
}

/// Whether chunks are the parts of an access, in order.
pub open spec fn is_chunks(chunks: Seq<Chunk>, offset: int, len: int) -> bool {
    &&& chunks.len() == chunk_count(offset, len)
    &&& forall|k: int| 0 <= k < chunks.len() ==> #[trigger] chunks[k] == chunk_at(offset, len, k)
}

/// Splits an access into its parts.
pub fn chunks_of(offset: u16, len: usize) -> (r: Vec<Chunk>)
    requires
        offset + len <= 0x1000,
    ensures
        is_chunks(r@, offset as int, len as int),
{
    let mut chunks: Vec<Chunk> = Vec::new();
    let end: usize = offset as usize + len;
    let mut base: usize = offset as usize / 4 * 4;
    let ghost first = offset as int / 4;
    while base < end && len > 0
        invariant
            end == offset + len,
            end <= 0x1000,
            first == offset as int / 4,
            base == (first + chunks@.len()) * 4,
            len > 0 ==> chunks@.len() <= chunk_count(offset as int, len as int),
            len == 0 ==> chunks@.len() == 0,
            forall|k: int|
                0 <= k < chunks@.len() ==> #[trigger] chunks@[k] == chunk_at(
                    offset as int,
                    len as int,
                    k,
                ),
        decreases end + 4 - base,
    {
        let from: usize = if base < offset as usize {
            offset as usize
        } else {
            base
        };
        let to: usize = if base + 4 > end {
            end
        } else {
            base + 4
        };
        assert(from <= to);
        chunks.push(
            Chunk {
                offset: base as u16,
                first: from - base,
                count: to - from,
                start: from - offset as usize,
            },
        );
        base = base + 4;
    }
    chunks
}

/// Returns the offsets of the dwords of an access.
pub fn chunk_offsets(offset: u16, len: usize) -> (r: Vec<u16>)
    requires
        offset + len <= 0x1000,
    ensures
        is_offsets(r@, offset as int, len as int),
{
    let chunks: Vec<Chunk> = chunks_of(offset, len);
    let mut offsets: Vec<u16> = Vec::new();
    let mut k: usize = 0;
    while k < chunks.len()
        invariant
            k <= chunks@.len(),
            offsets@.len() == k,
            is_chunks(chunks@, offset as int, len as int),
            forall|j: int|
                0 <= j < k ==> #[trigger] offsets@[j] == chunk_at(
                    offset as int,
                    len as int,
                    j,
                ).offset,
        decreases chunks.len() - k,
    {
        offsets.push(chunks[k].offset);
        k = k + 1;
    }
    offsets
}

/// The byte of a read, from the values of its dwords.
pub open spec fn read_byte(offset: int, values: Seq<u32>, j: int) -> u8 {
    byte_of(values[(offset + j) / 4 - offset / 4], (offset + j) % 4)
}

/// Takes the bytes of a read from the values of its dwords.
pub fn read_bytes(offset: u16, len: usize, values: &Vec<u32>) -> (r: Vec<u8>)
    requires
        offset + len <= 0x1000,
        values@.len() == chunk_count(offset as int, len as int),
    ensures
        r@.len() == len,
        forall|j: int| 0 <= j < len ==> #[trigger] r@[j] == read_byte(offset as int, values@, j),
{
    let mut data: Vec<u8> = Vec::new();
    let mut j: usize = 0;
    let first: usize = offset as usize / 4;
    while j < len
        invariant
            j <= len,
            data@.len() == j,
            offset + len <= 0x1000,
            first == offset as int / 4,
            values@.len() == chunk_count(offset as int, len as int),
            forall|i: int|
                0 <= i < j ==> #[trigger] data@[i] == read_byte(offset as int, values@, i),
        decreases len - j,
    {
        let at: usize = offset as usize + j;
        let byte: u8 = get_byte(values[at / 4 - first], at % 4);
        data.push(byte);
        j = j + 1;
    }
    data
}

/// The value of a dword that a part of a write gives.
pub open spec fn chunk_value(chunk: Chunk, data: Seq<u8>, old_value: u32) -> u32 {
    with_bytes(
        old_value,
        chunk.first as int,
        data.subrange(chunk.start as int, chunk.start + chunk.count),
    )
}

impl Chunk {
    /// Returns whether the dword has to be read before it is written: not all of
    /// its bytes are.
    pub fn needs_read(&self) -> (r: bool)
        ensures
            r == (self.count < 4),
    {
        self.count < 4
    }

    /// Returns the value to write. The bytes that are not written keep the value
    /// that was read.
    pub fn value(&self, data: &[u8], old_value: u32) -> (r: u32)
        requires
            self.first + self.count <= 4,
            self.start + self.count <= data.len(),
        ensures
            r == chunk_value(*self, data@, old_value),
    {
        let part: &[u8] = vstd::slice::slice_subrange(data, self.start, self.start + self.count);
        set_bytes(old_value, self.first, part)
    }
}

/// The parts of an access make up the access: each is within its dword and within
/// the data, and the next goes on where it ends.
pub proof fn law_chunks_cover(offset: int, len: int, k: int)
    requires
        0 <= offset,
        0 <= len,
        offset + len <= 0x1000,
        0 <= k < chunk_count(offset, len),
    ensures
        ({
            let chunk = chunk_at(offset, len, k);
            &&& chunk.offset as int % 4 == 0
            &&& chunk.offset + chunk.first == offset + chunk.start
            &&& 0 < chunk.count
            &&& chunk.first + chunk.count <= 4
            &&& chunk.start + chunk.count <= len
            &&& k == 0 ==> chunk.start == 0
            &&& k + 1 < chunk_count(offset, len) ==> chunk_at(offset, len, k + 1).start
                == chunk.start + chunk.count
            &&& k + 1 == chunk_count(offset, len) ==> chunk.start + chunk.count == len
        }),
{
}

/// What is written is read back: a byte that is in one of the dwords that a write
/// has changed is the byte of the data.
pub proof fn law_write_read_back(offset: int, data: Seq<u8>, before: Seq<u32>, j: int)
    requires
        0 <= offset,
        offset + data.len() <= 0x1000,
        before.len() == chunk_count(offset, data.len() as int),
        0 <= j < data.len(),
    ensures
        read_byte(
            offset,
            Seq::new(
                before.len(),
                |k: int| chunk_value(chunk_at(offset, data.len() as int, k), data, before[k]),
            ),
            j,
        ) == data[j],
{
    let len = data.len() as int;
    let k = (offset + j) / 4 - offset / 4;
    let chunk = chunk_at(offset, len, k);
    let i = (offset + j) % 4;
    assert(0 <= k < chunk_count(offset, len));
    law_chunks_cover(offset, len, k);
    let part = data.subrange(chunk.start as int, chunk.start + chunk.count);
    law_bytes_written(before[k], chunk.first as int, part, i);
    assert(chunk.first <= i < chunk.first + chunk.count);
    assert(part[i - chunk.first] == data[j]);
}

}
