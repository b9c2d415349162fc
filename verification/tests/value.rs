use inibin::{Float, FloatVec, Value};

#[test]
fn value_from_signed_integers() {
    assert_eq!(Value::from(-5i8), Value::I8(-5));
    assert_eq!(Value::from(-500i16), Value::I16(-500));
    assert_eq!(Value::from(-50_000i32), Value::I32(-50_000));
    assert_eq!(Value::from(-5_000_000_000i64), Value::I64(-5_000_000_000));
    assert_eq!(Value::from(i8::MIN), Value::I8(i8::MIN));
    assert_eq!(Value::from(i64::MAX), Value::I64(i64::MAX));
}

#[test]
fn value_from_unsigned_integers_keeps_the_bit_pattern() {
    assert_eq!(Value::from(0u8), Value::I8(0));
    assert_eq!(Value::from(127u8), Value::I8(127));
    assert_eq!(Value::from(128u8), Value::I8(-128));
    assert_eq!(Value::from(255u8), Value::I8(-1));
    assert_eq!(Value::from(0x7fffu16), Value::I16(i16::MAX));
    assert_eq!(Value::from(0x8000u16), Value::I16(i16::MIN));
    assert_eq!(Value::from(0xfffeu16), Value::I16(-2));
    assert_eq!(Value::from(0x7fff_ffffu32), Value::I32(i32::MAX));
    assert_eq!(Value::from(0x8000_0000u32), Value::I32(i32::MIN));
    assert_eq!(Value::from(0xffff_fffdu32), Value::I32(-3));
    assert_eq!(Value::from(0x7fff_ffff_ffff_ffffu64), Value::I64(i64::MAX));
    assert_eq!(Value::from(0x8000_0000_0000_0000u64), Value::I64(i64::MIN));
    assert_eq!(Value::from(u64::MAX), Value::I64(-1));
    for x in 0..=255u8 {
        assert_eq!(Value::from(x), Value::I8(x as i8));
    }
}

#[test]
fn value_from_other_kinds() {
    assert_eq!(Value::from(true), Value::Bool(true));
    assert_eq!(Value::from(false), Value::Bool(false));
    assert_eq!(Value::from(Float::Bits(7)), Value::F32(Float::Bits(7)));
    assert_eq!(Value::from(Float::Scaled(7)), Value::F32(Float::Scaled(7)));
    assert_eq!(
        Value::from("text".to_string()),
        Value::String("text".to_string())
    );
    let v = FloatVec::from_slice(&[Float::Bits(1)]);
    assert_eq!(Value::from(v.clone()), Value::Vec(v));
}

#[test]
fn value_from_arrays_of_floats() {
    let two = [Float::Bits(1), Float::Bits(2)];
    let three = [Float::Scaled(1), Float::Scaled(2), Float::Scaled(3)];
    let four = [Float::Bits(1), Float::Scaled(2), Float::Bits(3), Float::Scaled(4)];
    assert_eq!(Value::from(two), Value::Vec(FloatVec::from_slice(&two)));
    assert_eq!(Value::from(three), Value::Vec(FloatVec::from_slice(&three)));
    assert_eq!(Value::from(four), Value::Vec(FloatVec::from_slice(&four)));
    match Value::from(three) {
        Value::Vec(v) => assert_eq!(v.as_slice(), &three[..]),
        other => panic!("not a vector: {:?}", other),
    }
    assert_ne!(Value::from(two), Value::Vec(FloatVec::from_slice(&three)));
}

#[test]
fn floats_compare_by_what_they_hold() {
    assert_eq!(Float::Bits(0x3f80_0000), Float::Bits(1.0f32.to_bits()));
    assert_ne!(Float::Bits(0), Float::Bits(0x8000_0000));
    assert_ne!(Float::Bits(10), Float::Scaled(10));
    let copy = Float::Scaled(3);
    let same = copy;
    assert_eq!(copy, same);
}
