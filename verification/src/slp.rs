//! The executable SLP decoder, proved equal to the model of `model`.

use vstd::prelude::*;
use vstd::pervasive::VecAdditionalExecFns;

use crate::bytes::read_i32_at;
use crate::bytes::read_u16_at;
use crate::bytes::read_u32_at;
use crate::bytes::read_u8_at;
use crate::error::SlpError;
use crate::model::DrawCommand;
use crate::model::SlpEncodedLength;
use crate::model::colorize;
use crate::model::remap_pixel;
use crate::model::default_pixels;
use crate::model::default_tags;
use crate::model::spec_decode_length;
use crate::model::spec_decode_row;
use crate::model::spec_decode_rows;
use crate::model::spec_decode_shape;
use crate::model::spec_decode_shapes;
use crate::model::spec_decode_file;
use crate::model::shape_models;
use crate::model::spec_magic_ok;
use crate::model::spec_parse_shape_header;
use crate::model::write_px_run;
use crate::model::write_tag_run;

verus! {

impl SlpEncodedLength {
    /// Decodes the run count that `self` yields for command byte
    /// `cmd_byte`, reading an extra count byte from `d` at `pos` where the
    /// encoding calls for one. Returns the count and the position after it.
    pub fn decode(self, cmd_byte: u8, d: &Vec<u8>, pos: u64) -> (r: Result<
        (usize, u64),
        SlpError,
    >)
        requires
            pos <= d@.len(),
        ensures
            match spec_decode_length(self, cmd_byte, d@, pos as int) {
                Ok((n, p)) => r is Ok && r->Ok_0.0 == n && r->Ok_0.1 == p,
                Err(e) => r == Err::<(usize, u64), SlpError>(e),
            },
    {
        match self {
            SlpEncodedLength::SixUpperBit => {
                let n = cmd_byte >> 2;
                proof {
                    assert(cmd_byte >> 2 == cmd_byte / 4) by (bit_vector);
                }
                if n == 0 {
                    Err(SlpError::BadLength)
                } else {
                    Ok((n as usize, pos))
                }
            }
            SlpEncodedLength::FourUpperBit => {
                let n = cmd_byte >> 4;
                proof {
                    assert(cmd_byte >> 4 == cmd_byte / 16) by (bit_vector);
                }
                if n != 0 {
                    Ok((n as usize, pos))
                } else {
                    let dl = d.len();
                    match read_u8_at(d, pos) {
                        Ok(b) => {
                            proof {
                                assert(pos < dl as u64);
                            }
                            Ok((b as usize, pos + 1))
                        }
                        Err(e) => Err(e),
                    }
                }
            }
            SlpEncodedLength::LargeLength => {
                let hi = cmd_byte >> 4;
                proof {
                    assert(cmd_byte >> 4 == cmd_byte / 16) by (bit_vector);
                }
                let dl = d.len();
                match read_u8_at(d, pos) {
                    Ok(b) => {
                        proof {
                            assert(pos < dl as u64);
                        }
                        Ok((hi as usize * 256 + b as usize, pos + 1))
                    }
                    Err(e) => Err(e),
                }
            }
        }
    }
}

/// The player-color remap, computed at decode time.
fn remap_pixel_exec(player_index: u8, relative_index: u8) -> (r: u8)
    ensures
        r == remap_pixel(player_index, relative_index),
{
    let v: u32 = ((player_index as u32) * 16 + (relative_index as u32)) % 256;
    (v as u8) | relative_index
}

/// Writes the `n` raw bytes of `d` at `src` into `px` from `loc` on, each
/// tagged `Color`.
fn run_copy(d: &Vec<u8>, src: usize, n: usize, px: &mut Vec<u8>, tg: &mut Vec<DrawCommand>, loc: usize)
    requires
        src + n <= d@.len(),
        loc + n <= old(px)@.len(),
        old(tg)@.len() == old(px)@.len(),
    ensures
        final(px)@ == write_px_run(old(px)@, loc as int, d@.subrange(src as int, src + n)),
        final(tg)@ == write_tag_run(old(tg)@, loc as int, n as int, DrawCommand::Color),
{
    let len = px.len();
    let dlen = d.len();
    let mut i: usize = 0;
    proof {
        assert(px@ =~= write_px_run(old(px)@, loc as int, d@.subrange(src as int, src as int)));
        assert(tg@ =~= write_tag_run(old(tg)@, loc as int, 0, DrawCommand::Color));
    }
    while i < n
        invariant
            i <= n,
            src + n <= dlen,
            src + n <= d@.len(),
            loc + n <= len,
            loc + n <= px@.len(),
            px@.len() == old(px)@.len(),
            tg@.len() == old(tg)@.len(),
            old(tg)@.len() == old(px)@.len(),
            px@ == write_px_run(old(px)@, loc as int, d@.subrange(src as int, src + i)),
            tg@ == write_tag_run(old(tg)@, loc as int, i as int, DrawCommand::Color),
        decreases n - i,
    {
        px.set(loc + i, d[src + i]);
        tg.set(loc + i, DrawCommand::Color);
        i = i + 1;
        proof {
            assert(px@ =~= write_px_run(old(px)@, loc as int, d@.subrange(src as int, src + i)));
            assert(tg@ =~= write_tag_run(old(tg)@, loc as int, i as int, DrawCommand::Color));
        }
    }
}

/// Writes each of the `n` bytes of `d` at `src` through the player-color
/// remap into `px` from `loc` on, each tagged `Remap`.
fn run_colorize(
    d: &Vec<u8>,
    src: usize,
    n: usize,
    player_index: u8,
    px: &mut Vec<u8>,
    tg: &mut Vec<DrawCommand>,
    loc: usize,
)
    requires
        src + n <= d@.len(),
        loc + n <= old(px)@.len(),
        old(tg)@.len() == old(px)@.len(),
    ensures
        final(px)@ == write_px_run(
            old(px)@,
            loc as int,
            colorize(d@.subrange(src as int, src + n), player_index),
        ),
        final(tg)@ == write_tag_run(old(tg)@, loc as int, n as int, DrawCommand::Remap),
{
    let len = px.len();
    let dlen = d.len();
    let mut i: usize = 0;
    proof {
        assert(px@ =~= write_px_run(
            old(px)@,
            loc as int,
            colorize(d@.subrange(src as int, src as int), player_index),
        ));
        assert(tg@ =~= write_tag_run(old(tg)@, loc as int, 0, DrawCommand::Remap));
    }
    while i < n
        invariant
            i <= n,
            src + n <= dlen,
            src + n <= d@.len(),
            loc + n <= len,
            loc + n <= px@.len(),
            px@.len() == old(px)@.len(),
            tg@.len() == old(tg)@.len(),
            old(tg)@.len() == old(px)@.len(),
            px@ == write_px_run(
                old(px)@,
                loc as int,
                colorize(d@.subrange(src as int, src + i), player_index),
            ),
            tg@ == write_tag_run(old(tg)@, loc as int, i as int, DrawCommand::Remap),
        decreases n - i,
    {
        let v = remap_pixel_exec(player_index, d[src + i]);
        px.set(loc + i, v);
        tg.set(loc + i, DrawCommand::Remap);
        i = i + 1;
        proof {
            assert(px@ =~= write_px_run(
                old(px)@,
                loc as int,
                colorize(d@.subrange(src as int, src + i), player_index),
            ));
            assert(tg@ =~= write_tag_run(old(tg)@, loc as int, i as int, DrawCommand::Remap));
        }
    }
}

/// Replicates `v` across `n` slots of `px` from `loc` on, each tagged `t`.
fn run_fill(v: u8, n: usize, t: DrawCommand, px: &mut Vec<u8>, tg: &mut Vec<DrawCommand>, loc: usize)
    requires
        loc + n <= old(px)@.len(),
        old(tg)@.len() == old(px)@.len(),
    ensures
        final(px)@ == write_px_run(old(px)@, loc as int, Seq::new(n as nat, |i: int| v)),
        final(tg)@ == write_tag_run(old(tg)@, loc as int, n as int, t),
{
    let len = px.len();
    let mut i: usize = 0;
    proof {
        assert(px@ =~= write_px_run(old(px)@, loc as int, Seq::new(0, |j: int| v)));
        assert(tg@ =~= write_tag_run(old(tg)@, loc as int, 0, t));
    }
    while i < n
        invariant
            i <= n,
            loc + n <= len,
            loc + n <= px@.len(),
            px@.len() == old(px)@.len(),
            tg@.len() == old(tg)@.len(),
            old(tg)@.len() == old(px)@.len(),
            px@ == write_px_run(old(px)@, loc as int, Seq::new(i as nat, |j: int| v)),
            tg@ == write_tag_run(old(tg)@, loc as int, i as int, t),
        decreases n - i,
    {
        px.set(loc + i, v);
        tg.set(loc + i, t);
        i = i + 1;
        proof {
            assert(px@ =~= write_px_run(old(px)@, loc as int, Seq::new(i as nat, |j: int| v)));
            assert(tg@ =~= write_tag_run(old(tg)@, loc as int, i as int, t));
        }
    }
}

/// Tags `n` slots of `tg` from `loc` on as `Shadow`; pixel values are left
/// untouched.
fn run_shadow(n: usize, tg: &mut Vec<DrawCommand>, loc: usize)
    requires
        loc + n <= old(tg)@.len(),
    ensures
        final(tg)@ == write_tag_run(old(tg)@, loc as int, n as int, DrawCommand::Shadow),
{
    let len = tg.len();
    let mut i: usize = 0;
    proof {
        assert(tg@ =~= write_tag_run(old(tg)@, loc as int, 0, DrawCommand::Shadow));
    }
    while i < n
        invariant
            i <= n,
            loc + n <= len,
            loc + n <= tg@.len(),
            tg@.len() == old(tg)@.len(),
            tg@ == write_tag_run(old(tg)@, loc as int, i as int, DrawCommand::Shadow),
        decreases n - i,
    {
        tg.set(loc + i, DrawCommand::Shadow);
        i = i + 1;
        proof {
            assert(tg@ =~= write_tag_run(old(tg)@, loc as int, i as int, DrawCommand::Shadow));
        }
    }
}


/// Decodes one row's command stream, starting at offset `start` of `d`,
/// into the row's span of `px` and `tg`: the executable counterpart of
/// `spec_decode_row` with the column cursor starting at zero.
///
/// On success the returned offset is the position just past the row's
/// terminator byte.
#[verifier::rlimit(100)]
pub(crate) fn decode_row(
    d: &Vec<u8>,
    start: u32,
    player_index: u8,
    width: u32,
    right_pad: u16,
    row: u32,
    px: &mut Vec<u8>,
    tg: &mut Vec<DrawCommand>,
) -> (r: Result<u64, SlpError>)
    requires
        old(tg)@.len() == old(px)@.len(),
        (row + 1) * (width as int) <= old(px)@.len(),
    ensures
        final(px)@.len() == old(px)@.len(),
        final(tg)@.len() == old(tg)@.len(),
        match spec_decode_row(
            d@,
            start as int,
            player_index,
            width as int,
            right_pad as int,
            row as int,
            old(px)@,
            old(tg)@,
            0,
        ) {
            Ok((p2, t2, endpos)) => r is Ok && r->Ok_0 == endpos && final(px)@ == p2
                && final(tg)@ == t2,
            Err(e) => r == Err::<u64, SlpError>(e),
        },
{
    let buf_len = px.len();
    let dl = d.len();
    let mut pos: u64 = start as u64;
    let mut x: u64 = 0;
    loop
        invariant
            tg@.len() == px@.len(),
            px@.len() == old(px)@.len(),
            tg@.len() == old(tg)@.len(),
            buf_len == px@.len(),
            dl == d@.len(),
            (row + 1) * (width as int) <= px@.len(),
            x <= width + 0x1000,
            spec_decode_row(
                d@,
                start as int,
                player_index,
                width as int,
                right_pad as int,
                row as int,
                old(px)@,
                old(tg)@,
                0,
            ) == spec_decode_row(
                d@,
                pos as int,
                player_index,
                width as int,
                right_pad as int,
                row as int,
                px@,
                tg@,
                x as int,
            ),
        decreases d@.len() - pos,
    {
        let ghost pos0 = pos as int;
        let ghost x0 = x as int;
        let ghost px0 = px@;
        let ghost tg0 = tg@;
        let cmd = match read_u8_at(d, pos) {
            Ok(c) => c,
            Err(e) => {
                return Err(e);
            }
        };
        proof {
            assert(pos < dl as u64);
        }
        if cmd == 0x0F {
            let expected: i64 = width as i64 - right_pad as i64;
            if x as i64 == expected {
                return Ok(pos + 1);
            } else {
                return Err(
                    SlpError::RowLengthMismatch { row: row, found: x, expected: expected },
                );
            }
        }
        if x > width as u64 {
            return Err(SlpError::RowOverflow);
        }
        let nibble = cmd & 0x0F;
        proof {
            assert(cmd & 0x0F == cmd % 16) by (bit_vector);
        }
        let p1 = pos + 1;
        let ghost loc_int = (row as int) * (width as int) + x as int;
        proof {
            assert((row as int) * (width as int) + (width as int) == (row + 1) * (width as int))
                by (nonlinear_arith);
        }
        if nibble == 0x0 || nibble == 0x4 || nibble == 0x8 || nibble == 0xC || nibble == 0x2 {
            // block copy (six-upper-bit count) and large block copy
            let strategy = if nibble == 0x2 {
                SlpEncodedLength::LargeLength
            } else {
                SlpEncodedLength::SixUpperBit
            };
            let (n, p2) = match strategy.decode(cmd, d, p1) {
                Ok(v) => v,
                Err(e) => {
                    return Err(e);
                }
            };
            if x + n as u64 > width as u64 {
                return Err(SlpError::RowOverflow);
            }
            if n as u64 > dl as u64 - p2 {
                return Err(SlpError::IoError);
            }
            let loc = (row as u64) * (width as u64) + x;
            run_copy(d, p2 as usize, n, px, tg, loc as usize);
            pos = p2 + n as u64;
            x = x + n as u64;
            proof {
                assert(spec_decode_row(
                    d@, pos0, player_index, width as int, right_pad as int, row as int, px0, tg0,
                    x0,
                ) == spec_decode_row(
                    d@, pos as int, player_index, width as int, right_pad as int, row as int, px@,
                    tg@, x as int,
                ));
            }
        } else if nibble == 0x1 || nibble == 0x5 || nibble == 0x9 || nibble == 0xD || nibble
            == 0x3 {
            // skip (six-upper-bit count) and large skip: the cursor advances
            let strategy = if nibble == 0x3 {
                SlpEncodedLength::LargeLength
            } else {
                SlpEncodedLength::SixUpperBit
            };
            let (n, p2) = match strategy.decode(cmd, d, p1) {
                Ok(v) => v,
                Err(e) => {
                    return Err(e);
                }
            };
            pos = p2;
            x = x + n as u64;
            proof {
                assert(spec_decode_row(
                    d@, pos0, player_index, width as int, right_pad as int, row as int, px0, tg0,
                    x0,
                ) == spec_decode_row(
                    d@, pos as int, player_index, width as int, right_pad as int, row as int, px@,
                    tg@, x as int,
                ));
            }
        } else if nibble == 0x6 {
            // colorize copy
            let (n, p2) = match SlpEncodedLength::FourUpperBit.decode(cmd, d, p1) {
                Ok(v) => v,
                Err(e) => {
                    return Err(e);
                }
            };
            if x + n as u64 > width as u64 {
                return Err(SlpError::RowOverflow);
            }
            if n as u64 > dl as u64 - p2 {
                return Err(SlpError::IoError);
            }
            let loc = (row as u64) * (width as u64) + x;
            run_colorize(d, p2 as usize, n, player_index, px, tg, loc as usize);
            pos = p2 + n as u64;
            x = x + n as u64;
            proof {
                assert(spec_decode_row(
                    d@, pos0, player_index, width as int, right_pad as int, row as int, px0, tg0,
                    x0,
                ) == spec_decode_row(
                    d@, pos as int, player_index, width as int, right_pad as int, row as int, px@,
                    tg@, x as int,
                ));
            }
        } else if nibble == 0x7 || nibble == 0xA {
            // fill and colorize fill: one byte replicated across the run
            let (n, p2) = match SlpEncodedLength::FourUpperBit.decode(cmd, d, p1) {
                Ok(v) => v,
                Err(e) => {
                    return Err(e);
                }
            };
            if x + n as u64 > width as u64 {
                return Err(SlpError::RowOverflow);
            }
            let b = match read_u8_at(d, p2) {
                Ok(b) => b,
                Err(e) => {
                    return Err(e);
                }
            };
            proof {
                assert(p2 < dl as u64);
            }
            let (v, t) = if nibble == 0x7 {
                (b, DrawCommand::Color)
            } else {
                (remap_pixel_exec(player_index, b), DrawCommand::Remap)
            };
            let loc = (row as u64) * (width as u64) + x;
            run_fill(v, n, t, px, tg, loc as usize);
            pos = p2 + 1;
            x = x + n as u64;
            proof {
                if nibble == 0xA {
                    assert(Seq::new(n as nat, |i: int| v) =~= Seq::new(
                        n as nat,
                        |i: int| remap_pixel(player_index, d@[p2 as int]),
                    ));
                } else {
                    assert(Seq::new(n as nat, |i: int| v) =~= Seq::new(
                        n as nat,
                        |i: int| d@[p2 as int],
                    ));
                }
                assert(spec_decode_row(
                    d@, pos0, player_index, width as int, right_pad as int, row as int, px0, tg0,
                    x0,
                ) == spec_decode_row(
                    d@, pos as int, player_index, width as int, right_pad as int, row as int, px@,
                    tg@, x as int,
                ));
            }
        } else if nibble == 0xB {
            // shadow: tags only
            let (n, p2) = match SlpEncodedLength::FourUpperBit.decode(cmd, d, p1) {
                Ok(v) => v,
                Err(e) => {
                    return Err(e);
                }
            };
            if x + n as u64 > width as u64 {
                return Err(SlpError::RowOverflow);
            }
            let loc = (row as u64) * (width as u64) + x;
            run_shadow(n, tg, loc as usize);
            pos = p2;
            x = x + n as u64;
            proof {
                assert(spec_decode_row(
                    d@, pos0, player_index, width as int, right_pad as int, row as int, px0, tg0,
                    x0,
                ) == spec_decode_row(
                    d@, pos as int, player_index, width as int, right_pad as int, row as int, px@,
                    tg@, x as int,
                ));
            }
        } else if nibble == 0xE {
            return Err(SlpError::UnsupportedOpcode { cmd: cmd });
        } else {
            return Err(SlpError::UnknownOpcode { cmd: cmd });
        }
    }
}


/// The fixed file header at the start of every SLP file.
#[derive(Debug)]
pub struct SlpHeader {
    /// The 4-byte format tag; always `2.0N`.
    pub file_version: [u8; 4],
    /// How many shapes the file holds.
    pub shape_count: u32,
    /// A free-form 24-byte comment; not semantically parsed.
    pub comment: [u8; 24],
}

/// The fixed-size record that locates and sizes one shape.
#[derive(Clone, Copy, Debug, PartialEq, Eq, Structural)]
pub struct SlpShapeHeader {
    /// Offset of the shape's table of per-row command-stream offsets.
    pub shape_data_offsets: u32,
    /// Offset of the shape's table of per-row padding pairs.
    pub shape_outline_offset: u32,
    pub palette_offset: u32,
    pub properties: u32,
    pub width: u32,
    pub height: u32,
    pub center_x: i32,
    pub center_y: i32,
}

/// The pixel buffer of a decoded shape: row-major palette indices.
pub type SlpPixels = Vec<u8>;

/// The provenance-tag buffer of a decoded shape.
pub type SlpDrawCommands = Vec<DrawCommand>;

/// One decoded shape: its header and the two equal-length buffers.
#[derive(Debug)]
pub struct SlpLogicalShape {
    pub header: SlpShapeHeader,
    pub pixels: SlpPixels,
    pub commands: SlpDrawCommands,
}

/// A decoded SLP file: the file header and every shape, in order.
#[derive(Debug)]
pub struct SlpFile {
    pub header: SlpHeader,
    pub shapes: Vec<SlpLogicalShape>,
    /// The player whose color table the remapped pixels were computed
    /// against; supplied by the caller, not read from the file.
    pub player_index: u8,
}


impl SlpHeader {
    /// A header with every field zeroed.
    pub fn new() -> (h: SlpHeader)
        ensures
            h.file_version@ =~= default_pixels(4),
            h.shape_count == 0,
            h.comment@ =~= default_pixels(24),
    {
        SlpHeader { file_version: [0u8; 4], shape_count: 0u32, comment: [0u8; 24] }
    }

    /// Reads the file header at the start of `d`: the 4-byte magic tag,
    /// the shape count, the 24-byte comment. A tag other than `2.0N` is
    /// fatal ("bad header"); a buffer shorter than the header is a
    /// truncated source.
    pub fn read_from(d: &Vec<u8>) -> (r: Result<SlpHeader, SlpError>)
        ensures
            d@.len() < 32 ==> r == Err::<SlpHeader, SlpError>(SlpError::IoError),
            d@.len() >= 32 && !spec_magic_ok(d@) ==> r == Err::<SlpHeader, SlpError>(
                SlpError::MalformedHeader,
            ),
            d@.len() >= 32 && spec_magic_ok(d@) ==> r is Ok && {
                let h = r->Ok_0;
                &&& h.file_version@ == d@.subrange(0, 4)
                &&& h.shape_count == crate::bytes::u32_le(d@, 4)
                &&& h.comment@ == d@.subrange(8, 32)
            },
    {
        if d.len() < 32 {
            return Err(SlpError::IoError);
        }
        let file_version: [u8; 4] = [d[0], d[1], d[2], d[3]];
        let shape_count = match read_u32_at(d, 4) {
            Ok(v) => v,
            Err(e) => {
                return Err(e);
            }
        };
        let mut comment = [0u8; 24];
        let mut i: usize = 0;
        while i < 24
            invariant
                i <= 24,
                d@.len() >= 32,
                comment@.len() == 24,
                forall|j: int| 0 <= j < i ==> comment@[j] == d@[8 + j],
            decreases 24 - i,
        {
            comment[i] = d[8 + i];
            i = i + 1;
        }
        // the magic tag "2.0N"
        if !(d[0] == 0x32 && d[1] == 0x2E && d[2] == 0x30 && d[3] == 0x4E) {
            return Err(SlpError::MalformedHeader);
        }
        proof {
            assert(file_version@ =~= d@.subrange(0, 4));
            assert(comment@ =~= d@.subrange(8, 32));
        }
        Ok(SlpHeader { file_version, shape_count, comment })
    }
}

impl SlpShapeHeader {
    /// A shape header with every field zeroed.
    pub fn new() -> (h: SlpShapeHeader)
        ensures
            h == (SlpShapeHeader {
                shape_data_offsets: 0u32,
                shape_outline_offset: 0u32,
                palette_offset: 0u32,
                properties: 0u32,
                width: 0u32,
                height: 0u32,
                center_x: 0i32,
                center_y: 0i32,
            }),
    {
        SlpShapeHeader {
            shape_data_offsets: 0u32,
            shape_outline_offset: 0u32,
            palette_offset: 0u32,
            properties: 0u32,
            width: 0u32,
            height: 0u32,
            center_x: 0i32,
            center_y: 0i32,
        }
    }

    /// Reads the 32-byte shape header record at offset `pos` of `d`; a
    /// record that runs past the end of the buffer is a truncated source.
    pub fn read_from_file(d: &Vec<u8>, pos: u64) -> (r: Result<SlpShapeHeader, SlpError>)
        ensures
            pos + 32 <= d@.len() ==> r is Ok && r->Ok_0 == spec_parse_shape_header(
                d@,
                pos as int,
            ),
            pos + 32 > d@.len() ==> r == Err::<SlpShapeHeader, SlpError>(SlpError::IoError),
    {
        let dl = d.len();
        if pos > u64::MAX - 32 {
            proof {
                assert(d@.len() == dl as int && dl as int <= u64::MAX as int);
            }
            return Err(SlpError::IoError);
        }
        let shape_data_offsets = match read_u32_at(d, pos) {
            Ok(v) => v,
            Err(e) => {
                return Err(e);
            }
        };
        let shape_outline_offset = match read_u32_at(d, pos + 4) {
            Ok(v) => v,
            Err(e) => {
                return Err(e);
            }
        };
        let palette_offset = match read_u32_at(d, pos + 8) {
            Ok(v) => v,
            Err(e) => {
                return Err(e);
            }
        };
        let properties = match read_u32_at(d, pos + 12) {
            Ok(v) => v,
            Err(e) => {
                return Err(e);
            }
        };
        let width = match read_u32_at(d, pos + 16) {
            Ok(v) => v,
            Err(e) => {
                return Err(e);
            }
        };
        let height = match read_u32_at(d, pos + 20) {
            Ok(v) => v,
            Err(e) => {
                return Err(e);
            }
        };
        let center_x = match read_i32_at(d, pos + 24) {
            Ok(v) => v,
            Err(e) => {
                return Err(e);
            }
        };
        let center_y = match read_i32_at(d, pos + 28) {
            Ok(v) => v,
            Err(e) => {
                return Err(e);
            }
        };
        Ok(
            SlpShapeHeader {
                shape_data_offsets,
                shape_outline_offset,
                palette_offset,
                properties,
                width,
                height,
                center_x,
                center_y,
            },
        )
    }
}

impl SlpLogicalShape {
    /// A shape with a zeroed header and empty buffers; `read_pixel_data`
    /// sizes and fills them.
    pub fn new() -> (s: SlpLogicalShape)
        ensures
            s.header == (SlpShapeHeader {
                shape_data_offsets: 0u32,
                shape_outline_offset: 0u32,
                palette_offset: 0u32,
                properties: 0u32,
                width: 0u32,
                height: 0u32,
                center_x: 0i32,
                center_y: 0i32,
            }),
            s.pixels@ =~= Seq::<u8>::empty(),
            s.commands@ =~= Seq::<DrawCommand>::empty(),
    {
        SlpLogicalShape { header: SlpShapeHeader::new(), pixels: Vec::new(), commands: Vec::new() }
    }
}

/// A zeroed pixel buffer of `n` slots.
fn make_default_pixels(n: usize) -> (v: Vec<u8>)
    ensures
        v@ =~= default_pixels(n as int),
{
    let mut v: Vec<u8> = Vec::new();
    let mut i: usize = 0;
    while i < n
        invariant
            i <= n,
            v@.len() == i,
            forall|j: int| 0 <= j < i ==> v@[j] == 0u8,
        decreases n - i,
    {
        v.push(0u8);
        i = i + 1;
    }
    v
}

/// A tag buffer of `n` slots, all `Skip`.
fn make_default_tags(n: usize) -> (v: Vec<DrawCommand>)
    ensures
        v@ =~= default_tags(n as int),
{
    let mut v: Vec<DrawCommand> = Vec::new();
    let mut i: usize = 0;
    while i < n
        invariant
            i <= n,
            v@.len() == i,
            forall|j: int| 0 <= j < i ==> v@[j] == DrawCommand::Skip,
        decreases n - i,
    {
        v.push(DrawCommand::Skip);
        i = i + 1;
    }
    v
}


/// What a successful whole-file decode returns: the file's parsed header
/// fields, the caller's `player_index`, and per shape exactly the model
/// triple that `spec_decode_file` yields.
pub open spec fn spec_read_from_ok(d: Seq<u8>, player_index: u8, f: SlpFile) -> bool {
    &&& f.player_index == player_index
    &&& f.header.file_version@ == d.subrange(0, 4)
    &&& f.header.shape_count == crate::bytes::u32_le(d, 4)
    &&& f.header.comment@ == d.subrange(8, 32)
    &&& spec_decode_file(d, player_index) == Ok::<
        Seq<(SlpShapeHeader, Seq<u8>, Seq<DrawCommand>)>,
        SlpError,
    >(shape_models(f.shapes@))
}

impl SlpFile {
    /// An empty file value for `player_index`: a zeroed header and no
    /// shapes.
    pub fn new(player_index: u8) -> (f: SlpFile)
        ensures
            f.player_index == player_index,
            f.shapes@.len() == 0,
            f.header.file_version@ =~= default_pixels(4),
            f.header.shape_count == 0,
            f.header.comment@ =~= default_pixels(24),
    {
        SlpFile { header: SlpHeader::new(), shapes: Vec::new(), player_index }
    }

    /// Sizes `shape`'s buffers to `width * height` zeroed/`Skip` slots and
    /// decodes every row of its command streams into them, as
    /// `spec_decode_shape` has it.
    pub fn read_pixel_data(d: &Vec<u8>, shape: &mut SlpLogicalShape, player_index: u8) -> (r:
        Result<(), SlpError>)
        ensures
            final(shape).header == old(shape).header,
            match spec_decode_shape(d@, old(shape).header, player_index) {
                Ok((p, t)) => r is Ok && final(shape).pixels@ == p && final(shape).commands@ == t,
                Err(e) => r == Err::<(), SlpError>(e),
            },
    {
        let width = shape.header.width;
        let height = shape.header.height;
        proof {
            assert((width as int) * (height as int) <= 0xFFFF_FFFFu64 * 0xFFFF_FFFFu64)
                by (nonlinear_arith)
                requires
                    width <= 0xFFFF_FFFFu64,
                    height <= 0xFFFF_FFFFu64,
            ;
        }
        let n64 = (width as u64) * (height as u64);
        if n64 > usize::MAX as u64 {
            return Err(SlpError::IoError);
        }
        let n = n64 as usize;
        shape.pixels = make_default_pixels(n);
        shape.commands = make_default_tags(n);
        let dl = d.len();
        let mut y: u32 = 0;
        while y < height
            invariant
                shape.header == old(shape).header,
                width == shape.header.width,
                height == shape.header.height,
                n == width as int * height as int,
                dl == d@.len(),
                shape.pixels@.len() == n,
                shape.commands@.len() == n,
                y <= height,
                spec_decode_rows(
                    d@,
                    shape.header,
                    player_index,
                    default_pixels(n as int),
                    default_tags(n as int),
                    0,
                ) == spec_decode_rows(
                    d@,
                    shape.header,
                    player_index,
                    shape.pixels@,
                    shape.commands@,
                    y as int,
                ),
            decreases height - y,
        {
            let ghost px0 = shape.pixels@;
            let ghost tg0 = shape.commands@;
            let oo = (shape.header.shape_outline_offset as u64) + 4 * (y as u64);
            let left = match read_u16_at(d, oo) {
                Ok(v) => v,
                Err(e) => {
                    return Err(e);
                }
            };
            let right = match read_u16_at(d, oo + 2) {
                Ok(v) => v,
                Err(e) => {
                    return Err(e);
                }
            };
            if left == 0x8000 || right == 0x8000 {
                // fully transparent: the row keeps its defaults
                y = y + 1;
                continue;
            }
            let dofs = (shape.header.shape_data_offsets as u64) + 4 * (y as u64);
            let start = match read_u32_at(d, dofs) {
                Ok(v) => v,
                Err(e) => {
                    return Err(e);
                }
            };
            proof {
                assert((y as int) * (width as int) + (width as int) == (y + 1) * (width as int))
                    by (nonlinear_arith);
                assert((y + 1) * (width as int) <= (height as int) * (width as int))
                    by (nonlinear_arith)
                    requires
                        y < height,
                        width >= 0,
                ;
                assert((height as int) * (width as int) == n) by (nonlinear_arith)
                    requires
                        n == width as int * height as int,
                ;
            }
            match decode_row(
                d,
                start,
                player_index,
                width,
                right,
                y,
                &mut shape.pixels,
                &mut shape.commands,
            ) {
                Ok(_) => {}
                Err(e) => {
                    return Err(e);
                }
            }
            y = y + 1;
            proof {
                assert(spec_decode_rows(
                    d@, shape.header, player_index, px0, tg0, y - 1,
                ) == spec_decode_rows(
                    d@, shape.header, player_index, shape.pixels@, shape.commands@, y as int,
                ));
            }
        }
        Ok(())
    }

    /// Decodes a whole SLP file held in `d`, computing remapped pixels
    /// against `player_index`: the executable counterpart of
    /// `spec_decode_file`. The first structural violation aborts the whole
    /// decode.
    pub fn read_from(d: &Vec<u8>, player_index: u8) -> (r: Result<SlpFile, SlpError>)
        ensures
            spec_decode_file(d@, player_index) is Ok ==> r is Ok && spec_read_from_ok(
                d@,
                player_index,
                r->Ok_0,
            ),
            spec_decode_file(d@, player_index) matches Err(e) ==> r == Err::<SlpFile, SlpError>(
                e,
            ),
    {
        let header = match SlpHeader::read_from(d) {
            Ok(h) => h,
            Err(e) => {
                return Err(e);
            }
        };
        let count = header.shape_count;
        let dl = d.len();
        let mut headers: Vec<SlpShapeHeader> = Vec::new();
        let mut i: u32 = 0;
        while i < count
            invariant
                dl == d@.len(),
                d@.len() >= 32,
                spec_magic_ok(d@),
                count == crate::bytes::u32_le(d@, 4),
                i <= count,
                headers@.len() == i as int,
                32 + 32 * (i as int) <= d@.len(),
                forall|j: int|
                    0 <= j < i as int ==> headers@[j] == spec_parse_shape_header(d@, 32 + 32 * j),
            decreases count - i,
        {
            let pos = 32u64 + 32 * (i as u64);
            let h = match SlpShapeHeader::read_from_file(d, pos) {
                Ok(h) => h,
                Err(e) => {
                    proof {
                        assert(32 + 32 * (count as int) > d@.len());
                    }
                    return Err(e);
                }
            };
            headers.push(h);
            i = i + 1;
        }
        let mut shapes: Vec<SlpLogicalShape> = Vec::new();
        let mut k: u32 = 0;
        while k < count
            invariant
                dl == d@.len(),
                d@.len() >= 32,
                spec_magic_ok(d@),
                count == crate::bytes::u32_le(d@, 4),
                32 + 32 * (count as int) <= d@.len(),
                headers@.len() == count as int,
                forall|j: int|
                    0 <= j < count as int ==> headers@[j] == spec_parse_shape_header(
                        d@,
                        32 + 32 * j,
                    ),
                k <= count,
                shapes@.len() == k as int,
                match spec_decode_shapes(d@, count as int, player_index, k as int) {
                    Ok(rest) => spec_decode_shapes(d@, count as int, player_index, 0) == Ok::<
                        _,
                        SlpError,
                    >(shape_models(shapes@) + rest),
                    Err(e) => spec_decode_shapes(d@, count as int, player_index, 0) == Err::<
                        Seq<(SlpShapeHeader, Seq<u8>, Seq<DrawCommand>)>,
                        SlpError,
                    >(e),
                },
            decreases count - k,
        {
            let ghost models0 = shape_models(shapes@);
            let mut shape = SlpLogicalShape::new();
            shape.header = headers[k as usize];
            match SlpFile::read_pixel_data(d, &mut shape, player_index) {
                Ok(_) => {}
                Err(e) => {
                    return Err(e);
                }
            }
            let ghost m = (shape.header, shape.pixels@, shape.commands@);
            shapes.push(shape);
            k = k + 1;
            proof {
                assert(shape_models(shapes@) =~= models0 + seq![m]);
                match spec_decode_shapes(d@, count as int, player_index, k as int) {
                    Ok(rest) => {
                        assert((models0 + (seq![m] + rest)) =~= (shape_models(shapes@) + rest));
                    }
                    Err(e) => {}
                }
            }
        }
        proof {
            assert(spec_decode_shapes(d@, count as int, player_index, count as int) == Ok::<
                Seq<(SlpShapeHeader, Seq<u8>, Seq<DrawCommand>)>,
                SlpError,
            >(Seq::empty()));
            assert((shape_models(shapes@) + Seq::empty()) =~= shape_models(shapes@));
        }
        Ok(SlpFile { header, shapes, player_index })
    }
}

} // verus!
