use cleo::stream::DecodeError;
use cleo::value::{Array, Location, Pointer, Value, Variable};

#[test]
fn tag_1_is_a_32_bit_integer() {
    assert_eq!(
        Value::read(&[0x01, 0x40, 0xe2, 0x01, 0x00], 0),
        Ok((Value::Integer(123_456), 5))
    );
    assert_eq!(
        Value::read(&[0x01, 0xf9, 0xff, 0xff, 0xff], 0),
        Ok((Value::Integer(-7), 5))
    );
}

#[test]
fn tag_4_is_an_8_bit_integer() {
    assert_eq!(Value::read(&[0x04, 0x05], 0), Ok((Value::Integer(5), 2)));
    assert_eq!(Value::read(&[0x04, 0x85], 0), Ok((Value::Integer(-123), 2)));
}

#[test]
fn tag_5_is_a_16_bit_integer() {
    assert_eq!(Value::read(&[0x05, 0x34, 0x12], 0), Ok((Value::Integer(0x1234), 3)));
    assert_eq!(Value::read(&[0x05, 0x18, 0xfc], 0), Ok((Value::Integer(-1000), 3)));
}

#[test]
fn tag_6_is_a_real() {
    let (value, next) = Value::read(&[0x06, 0x00, 0x00, 0xc0, 0x3f], 0).unwrap();
    assert_eq!(next, 5);
    assert_eq!(value, Value::Real(0x3fc0_0000));
    match value {
        Value::Real(bits) => assert_eq!(f32::from_bits(bits), 1.5),
        _ => unreachable!(),
    }
}

#[test]
fn global_variable_tags() {
    for tag in [0x02u8, 0x0a, 0x10] {
        assert_eq!(
            Value::read(&[tag, 0x34, 0x12], 0),
            Ok((Value::Variable(Variable { value: 0x1234, location: Location::Global }), 3))
        );
    }
}

#[test]
fn local_variable_tags() {
    for tag in [0x03u8, 0x0b, 0x11] {
        assert_eq!(
            Value::read(&[tag, 0xff, 0xff], 0),
            Ok((Value::Variable(Variable { value: 0xffff, location: Location::Local }), 3))
        );
    }
}

#[test]
fn array_tags_pass_over_six_bytes() {
    for tag in [0x07u8, 0x08, 0x0c, 0x0d, 0x12, 0x13] {
        let bytes = [tag, 1, 2, 3, 4, 5, 6, 7];
        assert_eq!(Value::read(&bytes, 0), Ok((Value::Array(Array), 7)));
        assert_eq!(Value::read(&bytes[..6], 0), Err(DecodeError::UnexpectedEof));
    }
}

#[test]
fn tag_9_is_a_text_of_eight_bytes() {
    let bytes = *b"\x09MAIN\0\0\0\0rest";
    assert_eq!(Value::read(&bytes, 0), Ok((Value::String("MAIN".to_string()), 9)));
    let full = *b"\x09ABCDEFGHrest";
    assert_eq!(Value::read(&full, 0), Ok((Value::String("ABCDEFGH".to_string()), 9)));
    assert_eq!(Value::read(&full[..8], 0), Err(DecodeError::UnexpectedEof));
}

#[test]
fn tag_f_is_a_text_of_sixteen_bytes() {
    let bytes = *b"\x0fHELLO WORLD\0\0\0\0\0rest";
    assert_eq!(Value::read(&bytes, 0), Ok((Value::String("HELLO WORLD".to_string()), 17)));
    assert_eq!(Value::read(&bytes[..16], 0), Err(DecodeError::UnexpectedEof));
}

#[test]
fn tag_e_is_a_text_with_its_length_before_it() {
    let bytes = *b"\x0e\x05hello!";
    assert_eq!(Value::read(&bytes, 0), Ok((Value::String("hello".to_string()), 7)));
    let cut = *b"\x0e\x05he\0lo!";
    assert_eq!(Value::read(&cut, 0), Ok((Value::String("he".to_string()), 7)));
    assert_eq!(Value::read(b"\x0e\x00", 0), Ok((Value::String(String::new()), 2)));
    assert_eq!(Value::read(b"\x0e\x05hell", 0), Err(DecodeError::UnexpectedEof));
    assert_eq!(Value::read(b"\x0e", 0), Err(DecodeError::UnexpectedEof));
}

#[test]
fn unknown_tags_fail() {
    assert_eq!(Value::read(&[0x00], 0), Err(DecodeError::UnknownTypeId(0x00)));
    assert_eq!(Value::read(&[0x14, 1, 2, 3, 4], 0), Err(DecodeError::UnknownTypeId(0x14)));
    assert_eq!(Value::read(&[0xff], 0), Err(DecodeError::UnknownTypeId(0xff)));
}

#[test]
fn every_tag_from_1_to_13_is_known() {
    let mut bytes = [0u8; 32];
    for tag in 0x01u8..=0x13 {
        bytes[0] = tag;
        assert!(Value::read(&bytes, 0).is_ok());
    }
}

#[test]
fn an_operand_is_read_where_it_stands() {
    let bytes = [0xaa, 0xbb, 0x04, 0x07, 0x05, 0x01, 0x00];
    assert_eq!(Value::read(&bytes, 2), Ok((Value::Integer(7), 4)));
    assert_eq!(Value::read(&bytes, 4), Ok((Value::Integer(1), 7)));
    assert_eq!(Value::read(&bytes, 7), Err(DecodeError::UnexpectedEof));
    assert_eq!(Value::read(&bytes, 700), Err(DecodeError::UnexpectedEof));
}

#[test]
fn truncated_operands_fail() {
    assert_eq!(Value::read(&[], 0), Err(DecodeError::UnexpectedEof));
    assert_eq!(Value::read(&[0x01, 1, 2, 3], 0), Err(DecodeError::UnexpectedEof));
    assert_eq!(Value::read(&[0x02, 1], 0), Err(DecodeError::UnexpectedEof));
    assert_eq!(Value::read(&[0x04], 0), Err(DecodeError::UnexpectedEof));
    assert_eq!(Value::read(&[0x05, 1], 0), Err(DecodeError::UnexpectedEof));
    assert_eq!(Value::read(&[0x06, 1, 2, 3], 0), Err(DecodeError::UnexpectedEof));
}

#[test]
fn pointers_are_local_when_negative() {
    assert!(Pointer::from_i64(-1).is_local());
    assert!(Pointer::from_i64(i64::MIN).is_local());
    assert!(!Pointer::from_i64(0).is_local());
    assert!(!Pointer::from_i64(1).is_local());
}

#[test]
fn a_pointer_s_magnitude() {
    assert_eq!(Pointer::from_i64(-0x1f).absolute(), 0x1f);
    assert_eq!(Pointer::from_i64(0x1f).absolute(), 0x1f);
    assert_eq!(Pointer::from_i64(0).absolute(), 0);
    assert_eq!(Pointer::from_i64(i64::MAX).absolute(), 0x7fff_ffff_ffff_ffff);
    assert_eq!(Pointer::from_i64(i64::MIN).absolute(), 0x8000_0000_0000_0000);
    assert_eq!(Pointer::from_i64(i64::MIN + 1).absolute(), 0x7fff_ffff_ffff_ffff);
}

#[test]
fn values_are_cloned_in_depth() {
    let value = Value::VarArgs(vec![
        Value::Integer(1),
        Value::String("two".to_string()),
        Value::VarArgs(vec![Value::Pointer(Pointer::from_i64(-3)), Value::Real(4)]),
        Value::Buffer("five".to_string()),
        Value::Model(6),
        Value::Array(Array),
        Value::Variable(Variable { value: 7, location: Location::Immediate }),
    ]);
    assert_eq!(value.clone(), value);
}

#[test]
fn a_list_of_operands_ends_at_the_end_byte() {
    let bytes = [0xaa, 0x04, 0x07, 0x06, 0x00, 0x00, 0xc0, 0x3f, 0x00, 0x04];
    assert_eq!(
        Value::read_list(&bytes, 1),
        Ok((vec![Value::Integer(7), Value::Real(0x3fc0_0000)], 9))
    );
    assert_eq!(Value::read_list(&bytes, 8), Ok((vec![], 9)));
}

#[test]
fn a_list_of_operands_fails_where_the_script_ends_first() {
    assert_eq!(Value::read_list(&[], 0), Err(DecodeError::UnexpectedEof));
    assert_eq!(Value::read_list(&[0x04, 0x07], 0), Err(DecodeError::UnexpectedEof));
    assert_eq!(Value::read_list(&[0x04], 0), Err(DecodeError::UnexpectedEof));
    assert_eq!(Value::read_list(&[0x00], 5), Err(DecodeError::UnexpectedEof));
}

#[test]
fn a_list_of_operands_fails_at_an_unknown_tag() {
    assert_eq!(
        Value::read_list(&[0x04, 0x07, 0xff, 0x00], 0),
        Err(DecodeError::UnknownTypeId(0xff))
    );
}
