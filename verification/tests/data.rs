//! Field values in the data bytes of a submodule.

use pnio::data::{CodecError, FieldType, Value};
use pnio::rpc::Drep;

#[test]
fn values_are_big_endian() {
    for (v, want) in [
        (Value::Int(-2), vec![0xff, 0xfe]),
        (Value::Word(0xbeef), vec![0xbe, 0xef]),
        (Value::Dint(-70_000), vec![0xff, 0xfe, 0xee, 0x90]),
        (Value::Real(1.5f32.to_bits()), vec![0x3f, 0xc0, 0, 0]),
    ] {
        let mut b = vec![0u8; want.len()];
        assert_eq!(v.encode(&mut b, 0), Ok(()));
        assert_eq!(b, want);
        assert_eq!(Value::decode(v.field_type(), &b, 0), Ok(v));
    }
}

#[test]
fn a_bool_is_one_bit_and_leaves_the_others() {
    let mut b = vec![0b1010_0101];
    Value::Bool(true).encode(&mut b, 1).unwrap();
    assert_eq!(b, [0b1010_0111]);
    Value::Bool(false).encode(&mut b, 7).unwrap();
    assert_eq!(b, [0b0010_0111]);
    assert_eq!(Value::decode(FieldType::Bool, &b, 5), Ok(Value::Bool(true)));
    assert_eq!(Value::decode(FieldType::Bool, &b, 6), Ok(Value::Bool(false)));
}

#[test]
fn short_data_and_bad_bits_are_errors() {
    let mut b = vec![1, 2, 3];
    assert_eq!(
        Value::Dint(1).encode(&mut b, 0),
        Err(CodecError::TooShort { need: 4, have: 3 })
    );
    assert_eq!(
        Value::decode(FieldType::Real, &b, 0),
        Err(CodecError::TooShort { need: 4, have: 3 })
    );
    assert_eq!(
        Value::decode_at(FieldType::Int, &b, 2, 0),
        Err(CodecError::TooShort { need: 2, have: 1 })
    );
    assert_eq!(Value::Bool(true).encode(&mut b, 8), Err(CodecError::BadBit(8)));
    assert_eq!(Value::decode(FieldType::Bool, &b, 9), Err(CodecError::BadBit(9)));
    assert_eq!(b, [1, 2, 3]);
}

#[test]
fn a_value_is_written_at_its_offset() {
    let mut b = vec![9; 5];
    Value::Word(0x0102).encode_at(&mut b, 2, 0).unwrap();
    assert_eq!(b, [9, 9, 1, 2, 9]);
    assert_eq!(
        Value::decode_at(FieldType::Word, &b, 2, 0),
        Ok(Value::Word(0x0102))
    );
}

#[test]
fn the_data_representation_reads_back() {
    for d in [Drep::big(), Drep::little()] {
        assert_eq!(Drep::from_byte(d.to_bytes()[0]), d);
    }
    assert_eq!(Drep::little().to_bytes(), [0x10, 0, 0]);
}
