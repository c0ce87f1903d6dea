//! The mathematical model of the pixel-stream decoder.
//!
//! `spec_decode_row` is a one-to-one account of the opcode interpreter: it
//! consumes the command stream byte by byte and threads the pixel and tag
//! buffers through as sequences. The executable decoder is proved equal to
//! it, so every behavior of the decoder (which bytes are consumed, which
//! slots are written, which error ends a row) is fixed here.

use vstd::prelude::*;

use crate::bytes::i32_le;
use crate::bytes::u16_le;
use crate::bytes::u32_le;
use crate::error::SlpError;
use crate::slp::SlpLogicalShape;
use crate::slp::SlpShapeHeader;

verus! {

/// The provenance tag of one decoded pixel slot.
#[derive(Clone, Copy, Debug, PartialEq, Eq, Structural)]
pub enum DrawCommand {
    /// Written verbatim from the stream (copy and fill families).
    Color,
    /// Never written: the zero-initialized default.
    Skip,
    /// Written through the player-color remap.
    Remap,
    /// Tagged as shadow; the pixel value itself is untouched.
    Shadow,
}

/// The three length encodings that supply run counts to the opcode
/// families.
#[derive(Clone, Copy, Debug, PartialEq, Eq, Structural)]
pub enum SlpEncodedLength {
    /// The count is the top six bits of the command byte; zero is invalid.
    SixUpperBit,
    /// The count is the top four bits; where they are zero, one extra byte
    /// is read as the count.
    FourUpperBit,
    /// The count is the top four bits shifted up by eight, plus one extra
    /// byte: up to 4095.
    LargeLength,
}

/// The value a colorized pixel takes: the player color
/// `player_index * 16 + relative_index` (byte arithmetic, so taken mod 256)
/// or-ed with the relative index.
pub open spec fn remap_pixel(player_index: u8, relative_index: u8) -> u8 {
    (((player_index * 16 + relative_index) % 256) as u8) | relative_index
}

/// `px` with `bytes` written at `loc`, slot by slot; everything outside
/// `[loc, loc + bytes.len())` keeps its value.
pub open spec fn write_px_run(px: Seq<u8>, loc: int, bytes: Seq<u8>) -> Seq<u8> {
    Seq::new(px.len(), |i: int| if loc <= i < loc + bytes.len() { bytes[i - loc] } else { px[i] })
}

/// `tg` with `n` slots set to `t` from `loc` on; everything outside keeps
/// its value.
pub open spec fn write_tag_run(tg: Seq<DrawCommand>, loc: int, n: int, t: DrawCommand) -> Seq<
    DrawCommand,
> {
    Seq::new(tg.len(), |i: int| if loc <= i < loc + n { t } else { tg[i] })
}

/// Each byte of `bytes` put through the player-color remap.
pub open spec fn colorize(bytes: Seq<u8>, player_index: u8) -> Seq<u8> {
    bytes.map_values(|b: u8| remap_pixel(player_index, b))
}

/// What a length encoding yields for command byte `cmd` with the stream at
/// `pos`: the count and the position after any extra count byte, or the
/// error that ends the decode.
pub open spec fn spec_decode_length(
    strategy: SlpEncodedLength,
    cmd: u8,
    d: Seq<u8>,
    pos: int,
) -> Result<(int, int), SlpError> {
    match strategy {
        SlpEncodedLength::SixUpperBit => {
            if cmd / 4 == 0 {
                Err(SlpError::BadLength)
            } else {
                Ok((cmd as int / 4, pos))
            }
        }
        SlpEncodedLength::FourUpperBit => {
            if cmd / 16 != 0 {
                Ok((cmd as int / 16, pos))
            } else if pos < d.len() {
                Ok((d[pos] as int, pos + 1))
            } else {
                Err(SlpError::IoError)
            }
        }
        SlpEncodedLength::LargeLength => {
            if pos < d.len() {
                Ok((cmd as int / 16 * 256 + d[pos], pos + 1))
            } else {
                Err(SlpError::IoError)
            }
        }
    }
}

/// The command byte that ends a row.
pub open spec fn is_terminator(cmd: u8) -> bool {
    cmd == 0x0F
}

/// One row of the opcode interpreter, from the command byte at `pos`.
///
/// `x` is the column cursor; writes land at `row * width + x` and a run is
/// refused (`RowOverflow`) before it could pass the row's declared width.
/// On success the result carries the new pixel and tag buffers and the
/// position just past the terminator byte.
pub open spec fn spec_decode_row(
    d: Seq<u8>,
    pos: int,
    player_index: u8,
    width: int,
    right_pad: int,
    row: int,
    px: Seq<u8>,
    tg: Seq<DrawCommand>,
    x: int,
) -> Result<(Seq<u8>, Seq<DrawCommand>, int), SlpError>
    decreases d.len() - pos,
{
    if pos < 0 || pos >= d.len() {
        Err(SlpError::IoError)
    } else {
        let cmd = d[pos];
        let p1 = pos + 1;
        if is_terminator(cmd) {
            if x == width - right_pad {
                Ok((px, tg, p1))
            } else {
                Err(
                    SlpError::RowLengthMismatch {
                        row: row as u32,
                        found: x as u64,
                        expected: (width - right_pad) as i64,
                    },
                )
            }
        } else if x > width {
            Err(SlpError::RowOverflow)
        } else {
            let nibble = cmd as int % 16;
            let loc = row * width + x;
            if nibble == 0x0 || nibble == 0x4 || nibble == 0x8 || nibble == 0xC {
                // block copy: raw bytes, tagged Color
                match spec_decode_length(SlpEncodedLength::SixUpperBit, cmd, d, p1) {
                    Ok((n, p2)) => {
                        if x + n > width {
                            Err(SlpError::RowOverflow)
                        } else if p2 + n > d.len() {
                            Err(SlpError::IoError)
                        } else {
                            spec_decode_row(
                                d,
                                p2 + n,
                                player_index,
                                width,
                                right_pad,
                                row,
                                write_px_run(px, loc, d.subrange(p2, p2 + n)),
                                write_tag_run(tg, loc, n, DrawCommand::Color),
                                x + n,
                            )
                        }
                    }
                    Err(e) => Err(e),
                }
            } else if nibble == 0x1 || nibble == 0x5 || nibble == 0x9 || nibble == 0xD {
                // skip: the cursor advances, nothing is written
                match spec_decode_length(SlpEncodedLength::SixUpperBit, cmd, d, p1) {
                    Ok((n, p2)) => spec_decode_row(
                        d,
                        p2,
                        player_index,
                        width,
                        right_pad,
                        row,
                        px,
                        tg,
                        x + n,
                    ),
                    Err(e) => Err(e),
                }
            } else if nibble == 0x2 {
                // large block copy
                match spec_decode_length(SlpEncodedLength::LargeLength, cmd, d, p1) {
                    Ok((n, p2)) => {
                        if x + n > width {
                            Err(SlpError::RowOverflow)
                        } else if p2 + n > d.len() {
                            Err(SlpError::IoError)
                        } else {
                            spec_decode_row(
                                d,
                                p2 + n,
                                player_index,
                                width,
                                right_pad,
                                row,
                                write_px_run(px, loc, d.subrange(p2, p2 + n)),
                                write_tag_run(tg, loc, n, DrawCommand::Color),
                                x + n,
                            )
                        }
                    }
                    Err(e) => Err(e),
                }
            } else if nibble == 0x3 {
                // large skip
                match spec_decode_length(SlpEncodedLength::LargeLength, cmd, d, p1) {
                    Ok((n, p2)) => spec_decode_row(
                        d,
                        p2,
                        player_index,
                        width,
                        right_pad,
                        row,
                        px,
                        tg,
                        x + n,
                    ),
                    Err(e) => Err(e),
                }
            } else if nibble == 0x6 {
                // colorize copy: each byte through the remap, tagged Remap
                match spec_decode_length(SlpEncodedLength::FourUpperBit, cmd, d, p1) {
                    Ok((n, p2)) => {
                        if x + n > width {
                            Err(SlpError::RowOverflow)
                        } else if p2 + n > d.len() {
                            Err(SlpError::IoError)
                        } else {
                            spec_decode_row(
                                d,
                                p2 + n,
                                player_index,
                                width,
                                right_pad,
                                row,
                                write_px_run(px, loc, colorize(d.subrange(p2, p2 + n), player_index)),
                                write_tag_run(tg, loc, n, DrawCommand::Remap),
                                x + n,
                            )
                        }
                    }
                    Err(e) => Err(e),
                }
            } else if nibble == 0x7 {
                // fill: one color byte replicated, tagged Color
                match spec_decode_length(SlpEncodedLength::FourUpperBit, cmd, d, p1) {
                    Ok((n, p2)) => {
                        if x + n > width {
                            Err(SlpError::RowOverflow)
                        } else if p2 >= d.len() {
                            Err(SlpError::IoError)
                        } else {
                            spec_decode_row(
                                d,
                                p2 + 1,
                                player_index,
                                width,
                                right_pad,
                                row,
                                write_px_run(px, loc, Seq::new(n as nat, |i: int| d[p2])),
                                write_tag_run(tg, loc, n, DrawCommand::Color),
                                x + n,
                            )
                        }
                    }
                    Err(e) => Err(e),
                }
            } else if nibble == 0xA {
                // colorize fill: one relative index, remapped and replicated
                match spec_decode_length(SlpEncodedLength::FourUpperBit, cmd, d, p1) {
                    Ok((n, p2)) => {
                        if x + n > width {
                            Err(SlpError::RowOverflow)
                        } else if p2 >= d.len() {
                            Err(SlpError::IoError)
                        } else {
                            spec_decode_row(
                                d,
                                p2 + 1,
                                player_index,
                                width,
                                right_pad,
                                row,
                                write_px_run(
                                    px,
                                    loc,
                                    Seq::new(n as nat, |i: int| remap_pixel(player_index, d[p2])),
                                ),
                                write_tag_run(tg, loc, n, DrawCommand::Remap),
                                x + n,
                            )
                        }
                    }
                    Err(e) => Err(e),
                }
            } else if nibble == 0xB {
                // shadow: tags only, pixel values keep their default
                match spec_decode_length(SlpEncodedLength::FourUpperBit, cmd, d, p1) {
                    Ok((n, p2)) => {
                        if x + n > width {
                            Err(SlpError::RowOverflow)
                        } else {
                            spec_decode_row(
                                d,
                                p2,
                                player_index,
                                width,
                                right_pad,
                                row,
                                px,
                                write_tag_run(tg, loc, n, DrawCommand::Shadow),
                                x + n,
                            )
                        }
                    }
                    Err(e) => Err(e),
                }
            } else if nibble == 0xE {
                // the extended family was never defined
                Err(SlpError::UnsupportedOpcode { cmd: cmd })
            } else {
                Err(SlpError::UnknownOpcode { cmd: cmd })
            }
        }
    }
}


/// The 4-byte magic tag `2.0N` at the start of a well-formed file.
pub open spec fn spec_magic_ok(d: Seq<u8>) -> bool {
    &&& d[0] == 0x32  // '2'
    &&& d[1] == 0x2E  // '.'
    &&& d[2] == 0x30  // '0'
    &&& d[3] == 0x4E  // 'N'
}

/// The shape header record laid out at offset `pos`: eight little-endian
/// fields, six unsigned and two signed.
pub open spec fn spec_parse_shape_header(d: Seq<u8>, pos: int) -> SlpShapeHeader {
    SlpShapeHeader {
        shape_data_offsets: u32_le(d, pos) as u32,
        shape_outline_offset: u32_le(d, pos + 4) as u32,
        palette_offset: u32_le(d, pos + 8) as u32,
        properties: u32_le(d, pos + 12) as u32,
        width: u32_le(d, pos + 16) as u32,
        height: u32_le(d, pos + 20) as u32,
        center_x: i32_le(d, pos + 24) as i32,
        center_y: i32_le(d, pos + 28) as i32,
    }
}

/// A zeroed pixel buffer of `n` slots.
pub open spec fn default_pixels(n: int) -> Seq<u8> {
    Seq::new(n as nat, |i: int| 0u8)
}

/// A tag buffer of `n` slots, all still at the `Skip` default.
pub open spec fn default_tags(n: int) -> Seq<DrawCommand> {
    Seq::new(n as nat, |i: int| DrawCommand::Skip)
}

/// The outline pair value that marks a fully transparent row.
pub open spec fn is_transparent_sentinel(v: int) -> bool {
    v == 0x8000
}

/// Whether row `y` of the shape is marked fully transparent: its outline
/// pair is in bounds and holds the sentinel in either position.
pub open spec fn spec_row_transparent(d: Seq<u8>, h: SlpShapeHeader, y: int) -> bool {
    let oo = h.shape_outline_offset + 4 * y;
    &&& oo + 4 <= d.len()
    &&& (is_transparent_sentinel(u16_le(d, oo)) || is_transparent_sentinel(u16_le(d, oo + 2)))
}

/// Decodes rows `y`, `y + 1`, ... of a shape, threading the buffers
/// through.
///
/// Per row: the padding pair sits at `shape_outline_offset + 4 * y`; a
/// sentinel in either position leaves the row at its defaults and consumes
/// no command byte; otherwise the row's command stream starts at the offset
/// found at `shape_data_offsets + 4 * y` and is interpreted by
/// `spec_decode_row` with the column cursor at zero.
pub open spec fn spec_decode_rows(
    d: Seq<u8>,
    h: SlpShapeHeader,
    player_index: u8,
    px: Seq<u8>,
    tg: Seq<DrawCommand>,
    y: int,
) -> Result<(Seq<u8>, Seq<DrawCommand>), SlpError>
    decreases h.height - y,
{
    if y < 0 || y >= h.height {
        Ok((px, tg))
    } else {
        let oo = h.shape_outline_offset + 4 * y;
        if oo + 4 > d.len() {
            Err(SlpError::IoError)
        } else {
            let left = u16_le(d, oo);
            let right = u16_le(d, oo + 2);
            if is_transparent_sentinel(left) || is_transparent_sentinel(right) {
                spec_decode_rows(d, h, player_index, px, tg, y + 1)
            } else {
                let dofs = h.shape_data_offsets + 4 * y;
                if dofs + 4 > d.len() {
                    Err(SlpError::IoError)
                } else {
                    match spec_decode_row(
                        d,
                        u32_le(d, dofs),
                        player_index,
                        h.width as int,
                        right,
                        y,
                        px,
                        tg,
                        0,
                    ) {
                        Ok((px2, tg2, end)) => spec_decode_rows(d, h, player_index, px2, tg2, y + 1),
                        Err(e) => Err(e),
                    }
                }
            }
        }
    }
}

/// Decodes one whole shape: zeroed buffers of `width * height` slots, then
/// every row in order. A size that no in-memory buffer can address is
/// refused like a truncated source.
pub open spec fn spec_decode_shape(d: Seq<u8>, h: SlpShapeHeader, player_index: u8) -> Result<
    (Seq<u8>, Seq<DrawCommand>),
    SlpError,
> {
    let n = h.width * h.height;
    if n > usize::MAX {
        Err(SlpError::IoError)
    } else {
        spec_decode_rows(d, h, player_index, default_pixels(n), default_tags(n), 0)
    }
}

/// Decodes shapes `i`, `i + 1`, ... of a file that holds `count` shapes,
/// stopping at the first failure. Shape `i`'s header record sits at
/// `32 + 32 * i`.
pub open spec fn spec_decode_shapes(d: Seq<u8>, count: int, player_index: u8, i: int) -> Result<
    Seq<(SlpShapeHeader, Seq<u8>, Seq<DrawCommand>)>,
    SlpError,
>
    decreases count - i,
{
    if i >= count {
        Ok(Seq::empty())
    } else {
        let h = spec_parse_shape_header(d, 32 + 32 * i);
        match spec_decode_shape(d, h, player_index) {
            Ok((px, tg)) => match spec_decode_shapes(d, count, player_index, i + 1) {
                Ok(rest) => Ok(seq![(h, px, tg)] + rest),
                Err(e) => Err(e),
            },
            Err(e) => Err(e),
        }
    }
}

/// The whole-file decode: the header is read and its magic checked, then
/// the shape header table, then every shape. The first violation aborts
/// everything.
pub open spec fn spec_decode_file(d: Seq<u8>, player_index: u8) -> Result<
    Seq<(SlpShapeHeader, Seq<u8>, Seq<DrawCommand>)>,
    SlpError,
> {
    if d.len() < 32 {
        Err(SlpError::IoError)
    } else if !spec_magic_ok(d) {
        Err(SlpError::MalformedHeader)
    } else {
        let count = u32_le(d, 4);
        if 32 + 32 * count > d.len() {
            Err(SlpError::IoError)
        } else {
            spec_decode_shapes(d, count, player_index, 0)
        }
    }
}

/// The model triple of each decoded shape, in order.
pub open spec fn shape_models(shapes: Seq<SlpLogicalShape>) -> Seq<
    (SlpShapeHeader, Seq<u8>, Seq<DrawCommand>),
> {
    shapes.map_values(|s: SlpLogicalShape| (s.header, s.pixels@, s.commands@))
}

} // verus!
