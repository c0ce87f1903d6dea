//! Laws of the decoder, proved once and for all against the model.

use vstd::prelude::*;

use crate::bytes::u16_le;
use crate::error::SlpError;
use crate::model::DrawCommand;
use crate::model::SlpEncodedLength;
use crate::model::colorize;
use crate::model::default_pixels;
use crate::model::default_tags;
use crate::model::is_terminator;
use crate::model::remap_pixel;
use crate::model::spec_decode_length;
use crate::model::spec_decode_row;
use crate::model::spec_decode_rows;
use crate::model::spec_decode_shape;
use crate::model::spec_decode_shapes;
use crate::model::spec_row_transparent;
use crate::model::write_px_run;
use crate::model::write_tag_run;
use crate::slp::SlpFile;
use crate::slp::SlpShapeHeader;
use crate::slp::spec_read_from_ok;

verus! {

/// A successfully decoded row changes neither buffer's length and writes
/// nothing outside the row's own span `[row * width, (row + 1) * width)`.
pub proof fn lemma_decode_row_untouched(
    d: Seq<u8>,
    pos: int,
    player_index: u8,
    width: int,
    right_pad: int,
    row: int,
    px: Seq<u8>,
    tg: Seq<DrawCommand>,
    x: int,
)
    requires
        spec_decode_row(d, pos, player_index, width, right_pad, row, px, tg, x) is Ok,
        0 <= x,
        0 <= row,
        0 <= width,
    ensures
        ({
            let (px2, tg2, end) = spec_decode_row(
                d,
                pos,
                player_index,
                width,
                right_pad,
                row,
                px,
                tg,
                x,
            )->Ok_0;
            &&& px2.len() == px.len()
            &&& tg2.len() == tg.len()
            &&& forall|i: int|
                0 <= i < px.len() && !(row * width <= i < (row + 1) * width) ==> px2[i] == px[i]
            &&& forall|i: int|
                0 <= i < tg.len() && !(row * width <= i < (row + 1) * width) ==> tg2[i] == tg[i]
        }),
    decreases d.len() - pos,
{
    assert(row * width + width == (row + 1) * width) by (nonlinear_arith);
    if pos < 0 || pos >= d.len() {
        // the decode would have failed
    } else {
        let cmd = d[pos];
        let p1 = pos + 1;
        let loc = row * width + x;
        if is_terminator(cmd) {
            // the buffers come back unchanged
        } else if x > width {
            // the decode would have failed
        } else {
            let nibble = cmd as int % 16;
            if nibble == 0x0 || nibble == 0x4 || nibble == 0x8 || nibble == 0xC || nibble == 0x2 {
                let strategy = if nibble == 0x2 {
                    SlpEncodedLength::LargeLength
                } else {
                    SlpEncodedLength::SixUpperBit
                };
                match spec_decode_length(strategy, cmd, d, p1) {
                    Ok((n, p2)) => {
                        if x + n <= width && p2 + n <= d.len() {
                            lemma_decode_row_untouched(
                                d,
                                p2 + n,
                                player_index,
                                width,
                                right_pad,
                                row,
                                write_px_run(px, loc, d.subrange(p2, p2 + n)),
                                write_tag_run(tg, loc, n, DrawCommand::Color),
                                x + n,
                            );
                        }
                    }
                    Err(e) => {}
                }
            } else if nibble == 0x1 || nibble == 0x5 || nibble == 0x9 || nibble == 0xD || nibble
                == 0x3 {
                let strategy = if nibble == 0x3 {
                    SlpEncodedLength::LargeLength
                } else {
                    SlpEncodedLength::SixUpperBit
                };
                match spec_decode_length(strategy, cmd, d, p1) {
                    Ok((n, p2)) => {
                        lemma_decode_row_untouched(
                            d,
                            p2,
                            player_index,
                            width,
                            right_pad,
                            row,
                            px,
                            tg,
                            x + n,
                        );
                    }
                    Err(e) => {}
                }
            } else if nibble == 0x6 {
                match spec_decode_length(SlpEncodedLength::FourUpperBit, cmd, d, p1) {
                    Ok((n, p2)) => {
                        if x + n <= width && p2 + n <= d.len() {
                            lemma_decode_row_untouched(
                                d,
                                p2 + n,
                                player_index,
                                width,
                                right_pad,
                                row,
                                write_px_run(px, loc, colorize(d.subrange(p2, p2 + n), player_index)),
                                write_tag_run(tg, loc, n, DrawCommand::Remap),
                                x + n,
                            );
                        }
                    }
                    Err(e) => {}
                }
            } else if nibble == 0x7 {
                match spec_decode_length(SlpEncodedLength::FourUpperBit, cmd, d, p1) {
                    Ok((n, p2)) => {
                        if x + n <= width && p2 < d.len() {
                            lemma_decode_row_untouched(
                                d,
                                p2 + 1,
                                player_index,
                                width,
                                right_pad,
                                row,
                                write_px_run(px, loc, Seq::new(n as nat, |i: int| d[p2])),
                                write_tag_run(tg, loc, n, DrawCommand::Color),
                                x + n,
                            );
                        }
                    }
                    Err(e) => {}
                }
            } else if nibble == 0xA {
                match spec_decode_length(SlpEncodedLength::FourUpperBit, cmd, d, p1) {
                    Ok((n, p2)) => {
                        if x + n <= width && p2 < d.len() {
                            lemma_decode_row_untouched(
                                d,
                                p2 + 1,
                                player_index,
                                width,
                                right_pad,
                                row,
                                write_px_run(
                                    px,
                                    loc,
                                    Seq::new(n as nat, |i: int| remap_pixel(player_index, d[p2])),
                                ),
                                write_tag_run(tg, loc, n, DrawCommand::Remap),
                                x + n,
                            );
                        }
                    }
                    Err(e) => {}
                }
            } else if nibble == 0xB {
                match spec_decode_length(SlpEncodedLength::FourUpperBit, cmd, d, p1) {
                    Ok((n, p2)) => {
                        if x + n <= width {
                            lemma_decode_row_untouched(
                                d,
                                p2,
                                player_index,
                                width,
                                right_pad,
                                row,
                                px,
                                write_tag_run(tg, loc, n, DrawCommand::Shadow),
                                x + n,
                            );
                        }
                    }
                    Err(e) => {}
                }
            } else {
                // the decode would have failed
            }
        }
    }
}


/// Decoding rows `j` onward changes neither buffer's length; and where row
/// `y` lies behind `j`, or is marked fully transparent, its span keeps its
/// input values slot for slot.
#[verifier::rlimit(100)]
pub proof fn lemma_decode_rows_untouched(
    d: Seq<u8>,
    h: SlpShapeHeader,
    player_index: u8,
    px: Seq<u8>,
    tg: Seq<DrawCommand>,
    j: int,
    y: int,
)
    requires
        spec_decode_rows(d, h, player_index, px, tg, j) is Ok,
        tg.len() == px.len(),
        0 <= j,
        0 <= y < h.height,
    ensures
        ({
            let (px2, tg2) = spec_decode_rows(d, h, player_index, px, tg, j)->Ok_0;
            &&& px2.len() == px.len()
            &&& tg2.len() == tg.len()
            &&& (j > y || spec_row_transparent(d, h, y)) ==> forall|i: int|
                0 <= i < px.len() && y * h.width <= i < (y + 1) * h.width ==> px2[i] == px[i]
                    && tg2[i] == tg[i]
        }),
    decreases h.height - j,
{
    if j >= h.height {
        // identity
    } else {
        let oo = h.shape_outline_offset + 4 * j;
        let left = u16_le(d, oo);
        let right = u16_le(d, oo + 2);
        if left == 0x8000 || right == 0x8000 {
            lemma_decode_rows_untouched(d, h, player_index, px, tg, j + 1, y);
        } else {
            let dofs = h.shape_data_offsets + 4 * j;
            let start = crate::bytes::u32_le(d, dofs);
            let row_result = spec_decode_row(
                d,
                start,
                player_index,
                h.width as int,
                right,
                j,
                px,
                tg,
                0,
            );
            let (px2, tg2, end) = row_result->Ok_0;
            lemma_decode_row_untouched(
                d,
                start,
                player_index,
                h.width as int,
                right,
                j,
                px,
                tg,
                0,
            );
            lemma_decode_rows_untouched(d, h, player_index, px2, tg2, j + 1, y);
            if j > y || spec_row_transparent(d, h, y) {
                // row j is not row y, so its span is disjoint from row y's
                assert(j != y);
                assert(j * h.width + h.width == (j + 1) * (h.width as int)) by (nonlinear_arith);
                if j < y {
                    assert((j + 1) * (h.width as int) <= y * (h.width as int)) by (nonlinear_arith)
                        requires
                            j + 1 <= y,
                            h.width >= 0,
                    ;
                } else {
                    assert((y + 1) * (h.width as int) <= j * (h.width as int)) by (nonlinear_arith)
                        requires
                            y + 1 <= j,
                            h.width >= 0,
                    ;
                }
                let (pxf, tgf) = spec_decode_rows(d, h, player_index, px, tg, j)->Ok_0;
                assert forall|i: int|
                    0 <= i < px.len() && y * h.width <= i < (y + 1) * h.width implies pxf[i]
                    == px[i] && tgf[i] == tg[i] by {
                    assert(!(j * h.width <= i < (j + 1) * h.width));
                    assert(px2[i] == px[i] && tg2[i] == tg[i]);
                }
            }
        }
    }
}

/// LAW: every successfully decoded shape carries a pixel buffer and a tag
/// buffer of equal length `width * height`, fixed at allocation.
pub proof fn lemma_shape_buffer_lengths(d: Seq<u8>, h: SlpShapeHeader, player_index: u8)
    requires
        spec_decode_shape(d, h, player_index) is Ok,
    ensures
        spec_decode_shape(d, h, player_index)->Ok_0.0.len() == h.width * h.height,
        spec_decode_shape(d, h, player_index)->Ok_0.1.len() == h.width * h.height,
{
    let n = h.width * h.height;
    if h.height > 0 {
        lemma_decode_rows_untouched(
            d,
            h,
            player_index,
            default_pixels(n),
            default_tags(n),
            0,
            0,
        );
    }
}

/// LAW: a row whose outline pair holds the transparency sentinel in either
/// position comes out of a successful shape decode all-default: every
/// pixel of its span zero and every tag still `Skip`.
pub proof fn lemma_transparent_row_is_default(
    d: Seq<u8>,
    h: SlpShapeHeader,
    player_index: u8,
    y: int,
)
    requires
        spec_decode_shape(d, h, player_index) is Ok,
        0 <= y < h.height,
        spec_row_transparent(d, h, y),
    ensures
        forall|c: int|
            0 <= c < h.width ==> {
                &&& #[trigger] spec_decode_shape(d, h, player_index)->Ok_0.0[y * h.width + c]
                    == 0u8
                &&& spec_decode_shape(d, h, player_index)->Ok_0.1[y * h.width + c]
                    == DrawCommand::Skip
            },
{
    let n = h.width * h.height;
    lemma_decode_rows_untouched(d, h, player_index, default_pixels(n), default_tags(n), 0, y);
    assert(y * h.width + h.width == (y + 1) * (h.width as int)) by (nonlinear_arith);
    assert((y + 1) * (h.width as int) <= (h.height as int) * (h.width as int))
        by (nonlinear_arith)
        requires
            y + 1 <= h.height,
            h.width >= 0,
    ;
    assert((h.height as int) * (h.width as int) == n) by (nonlinear_arith)
        requires
            n == h.width * h.height,
    ;
    assert forall|c: int| 0 <= c < h.width implies {
        &&& #[trigger] spec_decode_shape(d, h, player_index)->Ok_0.0[y * h.width + c] == 0u8
        &&& spec_decode_shape(d, h, player_index)->Ok_0.1[y * h.width + c] == DrawCommand::Skip
    } by {
        let i = y * h.width + c;
        assert(y * h.width >= 0) by (nonlinear_arith)
            requires
                y >= 0,
                h.width >= 0,
        ;
        assert(0 <= i < n);
    }
}


/// LAW: a six-upper-bit length whose upper six bits are zero always fails
/// with `BadLength`; any other value yields exactly those six bits as the
/// count and never consumes an extra byte.
pub proof fn lemma_six_upper_bit_length(cmd: u8, d: Seq<u8>, pos: int)
    ensures
        cmd >> 2 == 0 ==> spec_decode_length(SlpEncodedLength::SixUpperBit, cmd, d, pos) == Err::<
            (int, int),
            SlpError,
        >(SlpError::BadLength),
        cmd >> 2 != 0 ==> spec_decode_length(SlpEncodedLength::SixUpperBit, cmd, d, pos) == Ok::<
            (int, int),
            SlpError,
        >(((cmd >> 2) as int, pos)),
{
    assert(cmd >> 2 == cmd / 4) by (bit_vector);
}

/// LAW: a four-upper-bit length whose upper four bits are zero consumes
/// exactly one extra byte, which becomes the count; nonzero upper four
/// bits yield those bits as the count and consume nothing.
pub proof fn lemma_four_upper_bit_length(cmd: u8, d: Seq<u8>, pos: int)
    requires
        0 <= pos < d.len(),
    ensures
        cmd >> 4 == 0 ==> spec_decode_length(SlpEncodedLength::FourUpperBit, cmd, d, pos) == Ok::<
            (int, int),
            SlpError,
        >((d[pos] as int, pos + 1)),
        cmd >> 4 != 0 ==> spec_decode_length(SlpEncodedLength::FourUpperBit, cmd, d, pos) == Ok::<
            (int, int),
            SlpError,
        >(((cmd >> 4) as int, pos)),
{
    assert(cmd >> 4 == cmd / 16) by (bit_vector);
}

/// LAW: a colorized pixel is `(player_index * 16 + relative_index) |
/// relative_index`, the sum taken as byte arithmetic. Where the sum stays
/// within a byte, that is the plain formula itself.
pub proof fn lemma_remap_pixel_in_range(player_index: u8, relative_index: u8)
    requires
        player_index * 16 + relative_index <= 255,
    ensures
        remap_pixel(player_index, relative_index) == ((player_index * 16 + relative_index) as u8)
            | relative_index,
{
}

/// LAW: reaching the terminator byte with the column cursor off
/// `width - right_pad` by any nonzero amount fails with
/// `RowLengthMismatch`, reporting the row, the cursor, and the expected
/// value.
pub proof fn lemma_terminator_mismatch(
    d: Seq<u8>,
    pos: int,
    player_index: u8,
    width: int,
    right_pad: int,
    row: int,
    px: Seq<u8>,
    tg: Seq<DrawCommand>,
    x: int,
)
    requires
        0 <= pos < d.len(),
        is_terminator(d[pos]),
        x != width - right_pad,
    ensures
        spec_decode_row(d, pos, player_index, width, right_pad, row, px, tg, x) == Err::<
            (Seq<u8>, Seq<DrawCommand>, int),
            SlpError,
        >(
            SlpError::RowLengthMismatch {
                row: row as u32,
                found: x as u64,
                expected: (width - right_pad) as i64,
            },
        ),
{
}

/// LAW: a command byte of the extended family (low nibble `0b1110`) never
/// produces output: the row decode fails, and where the cursor had not
/// already overrun the width it fails with `UnsupportedOpcode` carrying
/// that byte.
pub proof fn lemma_extended_opcode_unsupported(
    d: Seq<u8>,
    pos: int,
    player_index: u8,
    width: int,
    right_pad: int,
    row: int,
    px: Seq<u8>,
    tg: Seq<DrawCommand>,
    x: int,
)
    requires
        0 <= pos < d.len(),
        d[pos] & 0x0F == 0x0E,
    ensures
        spec_decode_row(d, pos, player_index, width, right_pad, row, px, tg, x) is Err,
        x <= width ==> spec_decode_row(d, pos, player_index, width, right_pad, row, px, tg, x)
            == Err::<(Seq<u8>, Seq<DrawCommand>, int), SlpError>(
            SlpError::UnsupportedOpcode { cmd: d[pos] },
        ),
{
    let cmd = d[pos];
    assert(cmd & 0x0F == 0x0E ==> cmd % 16 == 14 && cmd != 0x0F) by (bit_vector);
}

/// LAW: decoding the same bytes with the same `player_index` pins every
/// buffer down: two results that both satisfy the whole-file decode's
/// contract agree shape for shape, slot for slot. There is no hidden state
/// between invocations.
pub proof fn lemma_decode_deterministic(d: Seq<u8>, player_index: u8, f1: SlpFile, f2: SlpFile)
    requires
        spec_read_from_ok(d, player_index, f1),
        spec_read_from_ok(d, player_index, f2),
    ensures
        f1.shapes@.len() == f2.shapes@.len(),
        forall|i: int|
            0 <= i < f1.shapes@.len() ==> {
                &&& (#[trigger] f1.shapes@[i]).header == f2.shapes@[i].header
                &&& f1.shapes@[i].pixels@ == f2.shapes@[i].pixels@
                &&& f1.shapes@[i].commands@ == f2.shapes@[i].commands@
            },
{
    let m1 = crate::model::shape_models(f1.shapes@);
    let m2 = crate::model::shape_models(f2.shapes@);
    assert(m1 == m2);
    assert(m1.len() == f1.shapes@.len());
    assert(m2.len() == f2.shapes@.len());
    assert forall|i: int| 0 <= i < f1.shapes@.len() implies {
        &&& (#[trigger] f1.shapes@[i]).header == f2.shapes@[i].header
        &&& f1.shapes@[i].pixels@ == f2.shapes@[i].pixels@
        &&& f1.shapes@[i].commands@ == f2.shapes@[i].commands@
    } by {
        assert(m1[i] == m2[i]);
    }
}



/// Decoding shapes `i` onward of a `count`-shape file yields one model
/// triple per remaining shape.
pub proof fn lemma_decode_shapes_count(d: Seq<u8>, count: int, player_index: u8, i: int)
    requires
        spec_decode_shapes(d, count, player_index, i) is Ok,
        0 <= i,
    ensures
        spec_decode_shapes(d, count, player_index, i)->Ok_0.len() == if i < count {
            count - i
        } else {
            0
        },
    decreases count - i,
{
    if i >= count {
    } else {
        let h = crate::model::spec_parse_shape_header(d, 32 + 32 * i);
        match spec_decode_shape(d, h, player_index) {
            Ok(pair) => {
                lemma_decode_shapes_count(d, count, player_index, i + 1);
            }
            Err(e) => {}
        }
    }
}

/// LAW: a decoded file holds exactly as many shapes as its header's
/// `shape_count` announces.
pub proof fn lemma_file_shape_count(d: Seq<u8>, player_index: u8, f: SlpFile)
    requires
        spec_read_from_ok(d, player_index, f),
    ensures
        f.shapes@.len() == f.header.shape_count,
{
    let count = crate::bytes::u32_le(d, 4);
    lemma_decode_shapes_count(d, count, player_index, 0);
}

} // verus!
