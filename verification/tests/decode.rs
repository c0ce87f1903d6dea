use slp::DrawCommand;
use slp::SlpError;
use slp::SlpFile;

fn push_u16(v: &mut Vec<u8>, x: u16) {
    v.push((x & 0xFF) as u8);
    v.push((x >> 8) as u8);
}

fn push_u32(v: &mut Vec<u8>, x: u32) {
    v.push((x & 0xFF) as u8);
    v.push(((x >> 8) & 0xFF) as u8);
    v.push(((x >> 16) & 0xFF) as u8);
    v.push(((x >> 24) & 0xFF) as u8);
}

/// One row of a shape under construction: either fully transparent, or a
/// padding pair plus the row's command stream.
enum Row {
    Transparent,
    Stream(u16, u16, Vec<u8>),
}

/// Assembles a well-formed single-shape SLP file around the given rows.
fn build_single_shape(width: u32, rows: Vec<Row>) -> Vec<u8> {
    let height = rows.len() as u32;
    let outline_off = 64u32;
    let data_table_off = outline_off + 4 * height;
    let streams_off = data_table_off + 4 * height;

    let mut v = Vec::new();
    v.extend_from_slice(b"2.0N");
    push_u32(&mut v, 1);
    v.extend_from_slice(&[0u8; 24]);

    push_u32(&mut v, data_table_off); // shape_data_offsets
    push_u32(&mut v, outline_off); // shape_outline_offset
    push_u32(&mut v, 0); // palette_offset
    push_u32(&mut v, 0); // properties
    push_u32(&mut v, width);
    push_u32(&mut v, height);
    push_u32(&mut v, 0); // center_x
    push_u32(&mut v, 0); // center_y

    for row in &rows {
        match row {
            Row::Transparent => {
                push_u16(&mut v, 0x8000);
                push_u16(&mut v, 0);
            }
            Row::Stream(left, right, _) => {
                push_u16(&mut v, *left);
                push_u16(&mut v, *right);
            }
        }
    }
    let mut stream_pos = streams_off;
    for row in &rows {
        match row {
            Row::Transparent => push_u32(&mut v, 0),
            Row::Stream(_, _, bytes) => {
                push_u32(&mut v, stream_pos);
                stream_pos += bytes.len() as u32;
            }
        }
    }
    for row in &rows {
        if let Row::Stream(_, _, bytes) = row {
            v.extend_from_slice(bytes);
        }
    }
    v
}

#[test]
fn block_copy_and_transparent_row() {
    // row 0: copy four raw bytes; row 1: fully transparent
    let data = build_single_shape(
        4,
        vec![
            Row::Stream(0, 0, vec![0x10, 10, 20, 30, 40, 0x0F]),
            Row::Transparent,
        ],
    );
    let f = SlpFile::read_from(&data, 0).unwrap();
    assert_eq!(f.shapes.len(), 1);
    let s = &f.shapes[0];
    assert_eq!(s.header.width, 4);
    assert_eq!(s.header.height, 2);
    // both buffers hold exactly width * height slots
    assert_eq!(s.pixels.len(), 8);
    assert_eq!(s.commands.len(), 8);
    assert_eq!(&s.pixels[..], &[10, 20, 30, 40, 0, 0, 0, 0]);
    assert_eq!(
        &s.commands[..4],
        &[DrawCommand::Color, DrawCommand::Color, DrawCommand::Color, DrawCommand::Color]
    );
    // the transparent row is all-default: zero pixels, Skip tags
    assert_eq!(
        &s.commands[4..],
        &[DrawCommand::Skip, DrawCommand::Skip, DrawCommand::Skip, DrawCommand::Skip]
    );
}

#[test]
fn transparent_sentinel_in_right_position() {
    // 0x8000 in the right slot also marks the row fully transparent
    let mut data = build_single_shape(2, vec![Row::Stream(0, 0x8000, vec![])]);
    // no stream bytes at all: the row must consume zero opcode bytes
    let f = SlpFile::read_from(&data, 0).unwrap();
    assert_eq!(&f.shapes[0].pixels[..], &[0, 0]);
    assert_eq!(&f.shapes[0].commands[..], &[DrawCommand::Skip, DrawCommand::Skip]);
    // and the same with the sentinel on the left
    data = build_single_shape(2, vec![Row::Stream(0x8000, 0, vec![])]);
    let g = SlpFile::read_from(&data, 0).unwrap();
    assert_eq!(&g.shapes[0].pixels[..], &[0, 0]);
}

#[test]
fn skip_and_fill() {
    // skip 2 (cmd 0x09: six-upper count 2, nibble 1), then fill 2 with 9
    let data = build_single_shape(4, vec![Row::Stream(0, 0, vec![0x09, 0x27, 9, 0x0F])]);
    let f = SlpFile::read_from(&data, 0).unwrap();
    let s = &f.shapes[0];
    assert_eq!(&s.pixels[..], &[0, 0, 9, 9]);
    assert_eq!(
        &s.commands[..],
        &[DrawCommand::Skip, DrawCommand::Skip, DrawCommand::Color, DrawCommand::Color]
    );
}

#[test]
fn colorize_copy_remaps_each_byte() {
    // colorize copy of one byte (cmd 0x16), relative index 5, player 2
    let data = build_single_shape(1, vec![Row::Stream(0, 0, vec![0x16, 5, 0x0F])]);
    let f = SlpFile::read_from(&data, 2).unwrap();
    let s = &f.shapes[0];
    // (2 * 16 + 5) | 5 == 37
    assert_eq!(s.pixels[0], (2 * 16 + 5) | 5);
    assert_eq!(s.pixels[0], 37);
    assert_eq!(s.commands[0], DrawCommand::Remap);
}

#[test]
fn colorize_fill_replicates_remapped_byte() {
    // colorize fill of two slots (cmd 0x2A), relative index 5, player 1
    let data = build_single_shape(2, vec![Row::Stream(0, 0, vec![0x2A, 5, 0x0F])]);
    let f = SlpFile::read_from(&data, 1).unwrap();
    let s = &f.shapes[0];
    assert_eq!(&s.pixels[..], &[21, 21]); // (16 + 5) | 5
    assert_eq!(&s.commands[..], &[DrawCommand::Remap, DrawCommand::Remap]);
}

#[test]
fn shadow_tags_without_touching_pixels() {
    let data = build_single_shape(2, vec![Row::Stream(0, 0, vec![0x2B, 0x0F])]);
    let f = SlpFile::read_from(&data, 0).unwrap();
    let s = &f.shapes[0];
    assert_eq!(&s.pixels[..], &[0, 0]);
    assert_eq!(&s.commands[..], &[DrawCommand::Shadow, DrawCommand::Shadow]);
}

#[test]
fn large_copy_and_large_skip() {
    // large skip of 2 (cmd 0x03, extra byte 2), then large copy of 2
    // (cmd 0x02, extra byte 2, then the two raw bytes)
    let data =
        build_single_shape(4, vec![Row::Stream(0, 0, vec![0x03, 2, 0x02, 2, 7, 8, 0x0F])]);
    let f = SlpFile::read_from(&data, 0).unwrap();
    let s = &f.shapes[0];
    assert_eq!(&s.pixels[..], &[0, 0, 7, 8]);
    assert_eq!(s.commands[0], DrawCommand::Skip);
    assert_eq!(s.commands[3], DrawCommand::Color);
}

#[test]
fn right_padding_shortens_expected_row() {
    // width 4, right padding 1: three copied pixels end the row exactly
    let data = build_single_shape(4, vec![Row::Stream(0, 1, vec![0x0C, 1, 2, 3, 0x0F])]);
    let f = SlpFile::read_from(&data, 0).unwrap();
    assert_eq!(&f.shapes[0].pixels[..], &[1, 2, 3, 0]);
}

#[test]
fn terminator_with_short_row_fails() {
    // width 4, no padding, but only three pixels written before 0x0F
    let data = build_single_shape(4, vec![Row::Stream(0, 0, vec![0x0C, 1, 2, 3, 0x0F])]);
    let e = SlpFile::read_from(&data, 0).unwrap_err();
    assert_eq!(e, SlpError::RowLengthMismatch { row: 0, found: 3, expected: 4 });
}

#[test]
fn terminator_with_long_row_fails() {
    // the cursor lands one past the expected column: 5 instead of 4
    let data = build_single_shape(4, vec![Row::Stream(0, 0, vec![0x15, 0x0F])]);
    let e = SlpFile::read_from(&data, 0).unwrap_err();
    assert_eq!(e, SlpError::RowLengthMismatch { row: 0, found: 5, expected: 4 });
}

#[test]
fn run_past_width_is_row_overflow() {
    // a copy of four into a row of width 2 would write past the width
    let data = build_single_shape(2, vec![Row::Stream(0, 0, vec![0x10, 1, 2, 3, 4, 0x0F])]);
    let e = SlpFile::read_from(&data, 0).unwrap_err();
    assert_eq!(e, SlpError::RowOverflow);
}

#[test]
fn zero_six_upper_count_is_bad_length() {
    // cmd 0x00: block copy whose six upper bits are zero
    let data = build_single_shape(2, vec![Row::Stream(0, 0, vec![0x00, 0x0F])]);
    let e = SlpFile::read_from(&data, 0).unwrap_err();
    assert_eq!(e, SlpError::BadLength);
}

#[test]
fn extended_opcode_is_unsupported() {
    let data = build_single_shape(2, vec![Row::Stream(0, 0, vec![0x0E, 0x0F])]);
    let e = SlpFile::read_from(&data, 0).unwrap_err();
    assert_eq!(e, SlpError::UnsupportedOpcode { cmd: 0x0E });
    // the high four bits do not rescue the family
    let data2 = build_single_shape(2, vec![Row::Stream(0, 0, vec![0x7E, 0x0F])]);
    let e2 = SlpFile::read_from(&data2, 0).unwrap_err();
    assert_eq!(e2, SlpError::UnsupportedOpcode { cmd: 0x7E });
}

#[test]
fn unknown_nibble_is_unknown_opcode() {
    // low nibble 0b1111 that is not the bare terminator byte
    let data = build_single_shape(2, vec![Row::Stream(0, 0, vec![0x1F, 0x0F])]);
    let e = SlpFile::read_from(&data, 0).unwrap_err();
    assert_eq!(e, SlpError::UnknownOpcode { cmd: 0x1F });
}

#[test]
fn truncated_stream_is_io_error() {
    // the copy announces four raw bytes but the file ends after one
    let data = build_single_shape(4, vec![Row::Stream(0, 0, vec![0x10, 1])]);
    let e = SlpFile::read_from(&data, 0).unwrap_err();
    assert_eq!(e, SlpError::IoError);
}

#[test]
fn decode_is_deterministic() {
    let data = build_single_shape(
        4,
        vec![
            Row::Stream(0, 0, vec![0x05, 0x16, 200, 0x27, 3, 0x0F]),
            Row::Transparent,
            Row::Stream(0, 1, vec![0x0C, 1, 2, 3, 0x0F]),
        ],
    );
    let f1 = SlpFile::read_from(&data, 5).unwrap();
    let f2 = SlpFile::read_from(&data, 5).unwrap();
    assert_eq!(f1.shapes.len(), f2.shapes.len());
    for (a, b) in f1.shapes.iter().zip(f2.shapes.iter()) {
        assert_eq!(a.pixels, b.pixels);
        assert_eq!(a.commands, b.commands);
        assert_eq!(a.header, b.header);
    }
}

#[test]
fn two_shapes_decode_in_order() {
    // a file of two one-pixel shapes, assembled by hand
    let mut v = Vec::new();
    v.extend_from_slice(b"2.0N");
    push_u32(&mut v, 2);
    v.extend_from_slice(&[0u8; 24]);
    // shape 0 tables at 96, shape 1 tables at 104
    for (outline, table) in [(96u32, 100u32), (104u32, 108u32)] {
        push_u32(&mut v, table);
        push_u32(&mut v, outline);
        push_u32(&mut v, 0);
        push_u32(&mut v, 0);
        push_u32(&mut v, 1); // width
        push_u32(&mut v, 1); // height
        push_u32(&mut v, 0);
        push_u32(&mut v, 0);
    }
    assert_eq!(v.len(), 96);
    push_u16(&mut v, 0);
    push_u16(&mut v, 0);
    push_u32(&mut v, 112); // shape 0 stream
    push_u16(&mut v, 0);
    push_u16(&mut v, 0);
    push_u32(&mut v, 115); // shape 1 stream
    v.extend_from_slice(&[0x04, 0xAA, 0x0F]); // copy one byte: 0xAA
    v.extend_from_slice(&[0x04, 0xBB, 0x0F]); // copy one byte: 0xBB
    let f = SlpFile::read_from(&v, 0).unwrap();
    assert_eq!(f.header.shape_count, 2);
    assert_eq!(f.shapes.len(), 2);
    assert_eq!(&f.shapes[0].pixels[..], &[0xAA]);
    assert_eq!(&f.shapes[1].pixels[..], &[0xBB]);
}

#[test]
fn zero_count_fill_still_consumes_its_color_byte() {
    // a fill of zero slots in a zero-width row: the color byte is read,
    // nothing is written, and the empty row terminates cleanly
    let data = build_single_shape(0, vec![Row::Stream(0, 0, vec![0x07, 0x00, 0xAA, 0x0F])]);
    let f = SlpFile::read_from(&data, 0).unwrap();
    assert_eq!(f.shapes[0].pixels.len(), 0);
    assert_eq!(f.shapes[0].commands.len(), 0);
}

#[test]
fn four_upper_bit_count_from_extra_byte_in_stream() {
    // colorize copy whose upper four bits are zero: the count comes from
    // the next byte (3), then three relative indices follow
    let data = build_single_shape(3, vec![Row::Stream(0, 0, vec![0x06, 0x03, 10, 11, 12, 0x0F])]);
    let f = SlpFile::read_from(&data, 0).unwrap();
    // player 0: each pixel is (0 * 16 + b) | b == b
    assert_eq!(&f.shapes[0].pixels[..], &[10, 11, 12]);
}

#[test]
fn read_pixel_data_fills_shape_in_place() {
    let data = build_single_shape(2, vec![Row::Stream(0, 0, vec![0x08, 1, 2, 0x0F])]);
    let mut shape = slp::SlpLogicalShape::new();
    shape.header = slp::SlpShapeHeader::read_from_file(&data, 32).unwrap();
    SlpFile::read_pixel_data(&data, &mut shape, 0).unwrap();
    assert_eq!(&shape.pixels[..], &[1, 2]);
    assert_eq!(&shape.commands[..], &[DrawCommand::Color, DrawCommand::Color]);
}
