//! The error taxonomy of the decoder.
//!
//! Every violation aborts the whole-file decode; there is no partial result.

use vstd::prelude::*;

verus! {

/// Why a decode failed.
///
/// Where a kind has a useful detail (which row, which byte), the variant
/// carries it as plain fields.
#[derive(Clone, Copy, Debug, PartialEq, Eq, Structural)]
pub enum SlpError {
    /// The 4-byte magic tag of the file header is wrong ("bad header").
    MalformedHeader,
    /// A six-upper-bit length encoding carried a count of zero.
    BadLength,
    /// The terminator byte was reached with the column cursor off the
    /// expected `width - right_padding`.
    RowLengthMismatch { row: u32, found: u64, expected: i64 },
    /// A command would have written past the row's declared width, or the
    /// column cursor already exceeded it.
    RowOverflow,
    /// A command byte of the extended family (low nibble `0b1110`), which
    /// the format never defined; the raw byte is kept for diagnostics.
    UnsupportedOpcode { cmd: u8 },
    /// A command byte whose low nibble selects no known family; the raw
    /// byte is kept for diagnostics.
    UnknownOpcode { cmd: u8 },
    /// A read or seek left the byte source: truncated input.
    IoError,
}

/// The stable numeric code a boundary caller sees for `e`.
pub open spec fn spec_boundary_code(e: SlpError) -> isize {
    match e {
        SlpError::BadLength => -2isize,
        SlpError::IoError => -32767isize,
        _ => -1isize,
    }
}

/// Maps the error taxonomy to the small set of stable numeric codes used
/// across the export boundary: `-1` for any structural violation of the
/// format, `-2` for a bad length encoding, `-32767` for an unreadable
/// source.
pub fn boundary_code(e: &SlpError) -> (c: isize)
    ensures
        c == spec_boundary_code(*e),
{
    match e {
        SlpError::BadLength => -2,
        SlpError::IoError => -32767,
        _ => -1,
    }
}

} // verus!
