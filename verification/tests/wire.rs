use trade_processor::wire::{
    pass_field, pass_scalar, read_delimited, read_fixed64, read_key, read_varint, write_fixed64,
    write_varint, DecodeError, WireType, RECURSION_LIMIT,
};

#[test]
fn varints_read_back_as_prost_writes_them() {
    let values: [u64; 12] = [
        0,
        1,
        127,
        128,
        300,
        16_383,
        16_384,
        u32::MAX as u64,
        1 << 56,
        (1 << 63) - 1,
        1 << 63,
        u64::MAX,
    ];
    for value in values.iter() {
        let mut theirs = Vec::new();
        prost::encoding::encode_varint(*value, &mut theirs);
        let mut ours = vec![0xee];
        write_varint(*value, &mut ours);
        assert_eq!(ours[1..], theirs[..]);
        assert_eq!(theirs.len(), prost::encoding::encoded_len_varint(*value));
        assert_eq!(read_varint(&ours, 1), Some((*value, ours.len())));
        ours.push(0x05);
        assert_eq!(read_varint(&ours, 1), Some((*value, ours.len() - 1)));
    }
    assert_eq!(read_varint(&[0xac, 0x02], 0), Some((300, 2)));
    assert_eq!(read_varint(&[0xac, 0x02], 1), Some((2, 2)));
    assert_eq!(read_varint(&[0xac, 0x02], 2), None);
    assert_eq!(read_varint(&[0xac, 0x02], 9), None);
    assert_eq!(read_varint(&[0x80, 0x00], 0), Some((0, 2)));
}

#[test]
fn keys_give_tag_and_wire_type() {
    assert_eq!(read_key(&[0x0a], 0), Ok((1, WireType::LengthDelimited, 1)));
    assert_eq!(read_key(&[0x11], 0), Ok((2, WireType::SixtyFourBit, 1)));
    assert_eq!(read_key(&[0x20], 0), Ok((4, WireType::Varint, 1)));
    assert_eq!(read_key(&[0x2b], 0), Ok((5, WireType::StartGroup, 1)));
    assert_eq!(read_key(&[0x2c], 0), Ok((5, WireType::EndGroup, 1)));
    assert_eq!(read_key(&[0x2d], 0), Ok((5, WireType::ThirtyTwoBit, 1)));
    assert_eq!(
        read_key(&[0xfc, 0xff, 0xff, 0xff, 0x0f], 0),
        Ok(((1 << 29) - 1, WireType::EndGroup, 5))
    );
    assert_eq!(read_key(&[0xff, 0xff, 0xff, 0xff, 0x0f], 0), Err(DecodeError::InvalidWireType));
    assert_eq!(read_key(&[0x80, 0x80, 0x80, 0x80, 0x10], 0), Err(DecodeError::InvalidKey));
    assert_eq!(read_key(&[0x07], 0), Err(DecodeError::InvalidWireType));
    assert_eq!(read_key(&[0x05], 0), Err(DecodeError::InvalidTag));
    assert_eq!(read_key(&[], 0), Err(DecodeError::InvalidVarint));
}

#[test]
fn fixed64_is_little_endian() {
    let bytes = [0xee, 0x08, 0x07, 0x06, 0x05, 0x04, 0x03, 0x02, 0x01];
    assert_eq!(read_fixed64(&bytes, 1), Some(0x0102_0304_0506_0708));
    assert_eq!(read_fixed64(&bytes, 0), Some(0x0203_0405_0607_08ee));
    assert_eq!(read_fixed64(&bytes, 2), None);
    assert_eq!(read_fixed64(&bytes, 100), None);
    for value in [0u64, 1, 0x8000_0000_0000_0000, u64::MAX, 1.5f64.to_bits()].iter() {
        let mut out = Vec::new();
        write_fixed64(*value, &mut out);
        assert_eq!(out, value.to_le_bytes().to_vec());
        assert_eq!(read_fixed64(&out, 0), Some(*value));
    }
}

#[test]
fn delimited_values_give_their_bounds() {
    assert_eq!(read_delimited(&[0x02, b'A', b'B'], 0), Ok((1, 3)));
    assert_eq!(read_delimited(&[0x00], 0), Ok((1, 1)));
    assert_eq!(read_delimited(&[0x03, b'A', b'B'], 0), Err(DecodeError::BufferUnderflow));
    assert_eq!(read_delimited(&[0x80], 0), Err(DecodeError::InvalidVarint));
    let huge = [0xff, 0xff, 0xff, 0xff, 0xff, 0xff, 0xff, 0xff, 0xff, 0x01, 0x00];
    assert_eq!(read_delimited(&huge, 0), Err(DecodeError::BufferUnderflow));
}

#[test]
fn scalars_and_groups_are_stepped_over() {
    assert_eq!(pass_scalar(&[0xac, 0x02, 0x00], 0, WireType::Varint), Ok(2));
    assert_eq!(pass_scalar(&[1, 2, 3, 4], 0, WireType::ThirtyTwoBit), Ok(4));
    assert_eq!(pass_scalar(&[1, 2, 3], 0, WireType::ThirtyTwoBit), Err(DecodeError::BufferUnderflow));
    assert_eq!(pass_scalar(&[0; 9], 1, WireType::SixtyFourBit), Ok(9));
    assert_eq!(pass_scalar(&[0; 9], 2, WireType::SixtyFourBit), Err(DecodeError::BufferUnderflow));
    assert_eq!(pass_scalar(&[0x01, 0x41], 0, WireType::LengthDelimited), Ok(2));
    assert_eq!(pass_field(&[0x2c], 0, WireType::StartGroup, 5), Ok(1));
    assert_eq!(pass_field(&[0x34], 0, WireType::StartGroup, 5), Err(DecodeError::UnexpectedEndGroup));
    assert_eq!(pass_field(&[], 0, WireType::StartGroup, 5), Err(DecodeError::InvalidVarint));
    assert_eq!(pass_field(&[], 0, WireType::EndGroup, 5), Err(DecodeError::UnexpectedEndGroup));
    assert_eq!(pass_field(&[0x08, 0x01, 0x2c, 0x99], 0, WireType::StartGroup, 5), Ok(3));
    assert_eq!(RECURSION_LIMIT, 100);
}
