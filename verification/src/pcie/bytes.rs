//! The bytes of a dword, lowest first.
use vstd::prelude::*;

verus! {

/// A byte of a dword.
pub open spec fn byte_of(v: u32, i: int) -> u8 {
    if i == 0 {
        (v % 0x100) as u8
    } else if i == 1 {
        (v / 0x100 % 0x100) as u8
    } else if i == 2 {
        (v / 0x1_0000 % 0x100) as u8
    } else {
        (v / 0x100_0000) as u8
    }
}

/// The dword of four bytes.
pub open spec fn dword_of(b0: u8, b1: u8, b2: u8, b3: u8) -> u32 {
    (b0 + b1 * 0x100 + b2 * 0x1_0000 + b3 * 0x100_0000) as u32
}

/// A byte of a dword after some bytes from one on were written.
pub open spec fn byte_after(v: u32, at: int, data: Seq<u8>, i: int) -> u8 {
    if at <= i < at + data.len() {
        data[i - at]
    } else {
        byte_of(v, i)
    }
}

/// A dword after some bytes from one on were written.
pub open spec fn with_bytes(v: u32, at: int, data: Seq<u8>) -> u32 {
    dword_of(
        byte_after(v, at, data, 0),
        byte_after(v, at, data, 1),
        byte_after(v, at, data, 2),
        byte_after(v, at, data, 3),
    )
}

/// Returns a byte of a dword.
pub fn get_byte(v: u32, i: usize) -> (r: u8)
    requires
        i < 4,
    ensures
        r == byte_of(v, i as int),
{
    if i == 0 {
        (v % 0x100) as u8
    } else if i == 1 {
        (v / 0x100 % 0x100) as u8
    } else if i == 2 {
        (v / 0x1_0000 % 0x100) as u8
    } else {
        (v / 0x100_0000) as u8
    }
}

fn pick(v: u32, at: usize, data: &[u8], i: usize) -> (r: u8)
    requires
        i < 4,
        at + data@.len() <= 4,
    ensures
        r == byte_after(v, at as int, data@, i as int),
{
    if at <= i && i < at + data.len() {
        data[i - at]
    } else {
        get_byte(v, i)
    }
}

/// Writes some bytes of a dword.
pub fn set_bytes(v: u32, at: usize, data: &[u8]) -> (r: u32)
    requires
        at + data@.len() <= 4,
    ensures
        r == with_bytes(v, at as int, data@),
{
    let b0: u8 = pick(v, at, data, 0);
    let b1: u8 = pick(v, at, data, 1);
    let b2: u8 = pick(v, at, data, 2);
    let b3: u8 = pick(v, at, data, 3);
    b0 as u32 + b1 as u32 * 0x100 + b2 as u32 * 0x1_0000 + b3 as u32 * 0x100_0000
}

/// Bytes that are written are read back, and the others stay.
pub proof fn law_bytes_written(v: u32, at: int, data: Seq<u8>, i: int)
    requires
        0 <= i < 4,
    ensures
        byte_of(with_bytes(v, at, data), i) == byte_after(v, at, data, i),
{
    lemma_bytes_of_dword(
        byte_after(v, at, data, 0),
        byte_after(v, at, data, 1),
        byte_after(v, at, data, 2),
        byte_after(v, at, data, 3),
    );
}

proof fn lemma_bytes_of_dword(b0: u8, b1: u8, b2: u8, b3: u8)
    ensures
        byte_of(dword_of(b0, b1, b2, b3), 0) == b0,
        byte_of(dword_of(b0, b1, b2, b3), 1) == b1,
        byte_of(dword_of(b0, b1, b2, b3), 2) == b2,
        byte_of(dword_of(b0, b1, b2, b3), 3) == b3,
{
    let d = dword_of(b0, b1, b2, b3) as int;
    let upper = b1 + b2 * 0x100 + b3 * 0x1_0000;
    assert(d == upper * 0x100 + b0);
    assert(d / 0x100 == upper && d % 0x100 == b0);
    let top = b2 + b3 * 0x100;
    assert(upper == top * 0x100 + b1);
    assert(upper / 0x100 == top && upper % 0x100 == b1);
    assert(d / 0x1_0000 == top);
    assert(top / 0x100 == b3 && top % 0x100 == b2);
    assert(d / 0x100_0000 == b3);
}

/// A dword is that of its bytes.
pub proof fn law_dword_of_bytes(v: u32)
    ensures
        dword_of(byte_of(v, 0), byte_of(v, 1), byte_of(v, 2), byte_of(v, 3)) == v,
{
}

}
