//! Little-endian integer reads over an in-memory byte buffer.
//!
//! Every multi-byte integer of the format is little-endian. A read past the
//! end of the buffer is the `IoError` of a truncated source.

use vstd::prelude::*;

use crate::error::SlpError;

verus! {

/// The unsigned 16-bit little-endian integer at offset `i` of `d`.
pub open spec fn u16_le(d: Seq<u8>, i: int) -> int {
    d[i] + 0x100 * d[i + 1]
}

/// The unsigned 32-bit little-endian integer at offset `i` of `d`.
pub open spec fn u32_le(d: Seq<u8>, i: int) -> int {
    d[i] + 0x100 * d[i + 1] + 0x1_0000 * d[i + 2] + 0x100_0000 * d[i + 3]
}

/// The signed 32-bit little-endian integer at offset `i` of `d`
/// (two's complement).
pub open spec fn i32_le(d: Seq<u8>, i: int) -> int {
    if u32_le(d, i) >= 0x8000_0000 {
        u32_le(d, i) - 0x1_0000_0000
    } else {
        u32_le(d, i)
    }
}

/// Reads the byte at offset `pos`; `IoError` past the end.
pub fn read_u8_at(d: &Vec<u8>, pos: u64) -> (r: Result<u8, SlpError>)
    ensures
        pos < d@.len() ==> r == Ok::<u8, SlpError>(d@[pos as int]),
        pos >= d@.len() ==> r == Err::<u8, SlpError>(SlpError::IoError),
{
    if pos < d.len() as u64 {
        Ok(d[pos as usize])
    } else {
        Err(SlpError::IoError)
    }
}

/// Reads the unsigned 16-bit little-endian integer at offset `pos`;
/// `IoError` where fewer than two bytes remain.
pub fn read_u16_at(d: &Vec<u8>, pos: u64) -> (r: Result<u16, SlpError>)
    ensures
        pos + 2 <= d@.len() ==> r is Ok && r->Ok_0 == u16_le(d@, pos as int),
        pos + 2 > d@.len() ==> r == Err::<u16, SlpError>(SlpError::IoError),
{
    if pos < d.len() as u64 && d.len() as u64 - pos >= 2 {
        let p = pos as usize;
        let lo = d[p] as u16;
        let hi = d[p + 1] as u16;
        Ok(lo + hi * 0x100)
    } else {
        Err(SlpError::IoError)
    }
}

/// Reads the unsigned 32-bit little-endian integer at offset `pos`;
/// `IoError` where fewer than four bytes remain.
pub fn read_u32_at(d: &Vec<u8>, pos: u64) -> (r: Result<u32, SlpError>)
    ensures
        pos + 4 <= d@.len() ==> r is Ok && r->Ok_0 == u32_le(d@, pos as int),
        pos + 4 > d@.len() ==> r == Err::<u32, SlpError>(SlpError::IoError),
{
    if pos < d.len() as u64 && d.len() as u64 - pos >= 4 {
        let p = pos as usize;
        let b0 = d[p] as u32;
        let b1 = d[p + 1] as u32;
        let b2 = d[p + 2] as u32;
        let b3 = d[p + 3] as u32;
        Ok(b0 + b1 * 0x100 + b2 * 0x1_0000 + b3 * 0x100_0000)
    } else {
        Err(SlpError::IoError)
    }
}

/// Reads the signed 32-bit little-endian integer at offset `pos`;
/// `IoError` where fewer than four bytes remain.
pub fn read_i32_at(d: &Vec<u8>, pos: u64) -> (r: Result<i32, SlpError>)
    ensures
        pos + 4 <= d@.len() ==> r is Ok && r->Ok_0 == i32_le(d@, pos as int),
        pos + 4 > d@.len() ==> r == Err::<i32, SlpError>(SlpError::IoError),
{
    match read_u32_at(d, pos) {
        Ok(u) => {
            let r: i32 = if u >= 0x8000_0000 {
                proof {
                    assert(u32_le(d@, pos as int) - 0x1_0000_0000 >= i32::MIN);
                }
                -(((0xFFFF_FFFFu32 - u) as i32)) - 1
            } else {
                u as i32
            };
            Ok(r)
        }
        Err(e) => Err(e),
    }
}

} // verus!
