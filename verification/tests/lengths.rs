use slp::SlpEncodedLength;
use slp::SlpError;
use slp::boundary_code;

#[test]
fn six_upper_bit_zero_always_fails() {
    // every byte whose upper six bits are zero fails, whatever follows
    let extra = vec![0x42u8];
    for cmd in [0x00u8, 0x01, 0x02, 0x03] {
        let r = SlpEncodedLength::SixUpperBit.decode(cmd, &extra, 0);
        assert_eq!(r, Err(SlpError::BadLength));
    }
}

#[test]
fn six_upper_bit_counts() {
    let empty: Vec<u8> = Vec::new();
    // count 4, nothing consumed even with no bytes left
    assert_eq!(SlpEncodedLength::SixUpperBit.decode(0x10, &empty, 0), Ok((4, 0)));
    // the maximum count: all six upper bits set
    assert_eq!(SlpEncodedLength::SixUpperBit.decode(0xFC, &empty, 0), Ok((63, 0)));
}

#[test]
fn four_upper_bit_zero_consumes_one_extra_byte() {
    let extra = vec![7u8];
    assert_eq!(SlpEncodedLength::FourUpperBit.decode(0x06, &extra, 0), Ok((7, 1)));
    // the extra byte may itself be zero: a run of zero slots
    let zero = vec![0u8];
    assert_eq!(SlpEncodedLength::FourUpperBit.decode(0x06, &zero, 0), Ok((0, 1)));
    // and with no byte left to read, the source is truncated
    let empty: Vec<u8> = Vec::new();
    assert_eq!(SlpEncodedLength::FourUpperBit.decode(0x06, &empty, 0), Err(SlpError::IoError));
}

#[test]
fn four_upper_bit_nonzero_never_consumes() {
    let extra = vec![9u8];
    assert_eq!(SlpEncodedLength::FourUpperBit.decode(0x16, &extra, 0), Ok((1, 0)));
    assert_eq!(SlpEncodedLength::FourUpperBit.decode(0xF6, &extra, 0), Ok((15, 0)));
}

#[test]
fn large_length_combines_nibble_and_byte() {
    let extra = vec![0x34u8];
    // 0x12: top nibble 1 -> 1 * 256 + 0x34
    assert_eq!(SlpEncodedLength::LargeLength.decode(0x12, &extra, 0), Ok((0x134, 1)));
    // the largest count: 15 * 256 + 255 == 4095
    let max = vec![0xFFu8];
    assert_eq!(SlpEncodedLength::LargeLength.decode(0xF2, &max, 0), Ok((4095, 1)));
}

#[test]
fn boundary_codes_are_stable() {
    assert_eq!(boundary_code(&SlpError::BadLength), -2);
    assert_eq!(boundary_code(&SlpError::IoError), -32767);
    assert_eq!(boundary_code(&SlpError::MalformedHeader), -1);
    assert_eq!(boundary_code(&SlpError::RowOverflow), -1);
    assert_eq!(
        boundary_code(&SlpError::RowLengthMismatch { row: 0, found: 1, expected: 2 }),
        -1
    );
    assert_eq!(boundary_code(&SlpError::UnsupportedOpcode { cmd: 0x0E }), -1);
    assert_eq!(boundary_code(&SlpError::UnknownOpcode { cmd: 0x1F }), -1);
}
