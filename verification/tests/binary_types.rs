use rand::SeedableRng;
use mpz::binary_types::{Array, ErrorKind, Primitive, PrimitiveType, Value, ValueType};

#[test]
fn test_array_inconsistent_types() {
    let elems = vec![Primitive::U8(1), Primitive::U16(2)];
    let err = Array::try_from_vec(elems).unwrap_err();

    assert!(matches!(err.kind(), ErrorKind::InconsistentType));
}

#[test]
fn test_array_unknown_type() {
    let elems = vec![];
    let err = Array::try_from_vec(elems).unwrap_err();

    assert!(matches!(err.kind(), ErrorKind::UnknownType));
}

#[test]
fn array_from_vec_keeps_elements() {
    let arr = Array::try_from_vec(vec![Primitive::U8(42), Primitive::U8(69)]).unwrap();
    assert_eq!(arr.len(), 2);
    assert_eq!(arr.elem_type(), PrimitiveType::U8);
    assert_eq!(arr.get(1), Some(&Primitive::U8(69)));
    assert_eq!(arr.get(2), None);
    assert_eq!(arr.value_type(), ValueType::Array { ty: PrimitiveType::U8, len: 2 });
}

#[test]
fn value_bits_lsb0_and_msb0() {
    let v = Value::from(0b0000_0110u8);
    assert_eq!(
        v.clone().into_lsb0_vec(),
        vec![false, true, true, false, false, false, false, false]
    );
    assert_eq!(
        v.into_msb0_vec(),
        vec![false, false, false, false, false, true, true, false]
    );
}

#[test]
fn array_bits_element_after_element() {
    let arr = Array::from([1u8, 128u8]);
    let bits = arr.into_lsb0_vec();
    assert_eq!(bits.len(), 16);
    assert!(bits[0]);
    assert!(bits[15]);
    assert_eq!(bits.iter().filter(|b| **b).count(), 2);
}

#[test]
fn value_type_text() {
    assert_eq!(ValueType::Primitive(PrimitiveType::U16).to_string(), "U16");
    assert_eq!(ValueType::Array { ty: PrimitiveType::U8, len: 16 }.to_string(), "[U8; 16]");
    assert_eq!(ValueType::Array { ty: PrimitiveType::Bit, len: 0 }.to_string(), "[Bit; 0]");
}

#[test]
fn value_try_into_primitives() {
    assert_eq!(u8::try_from(Value::from(5u8)).unwrap(), 5);
    assert_eq!(bool::try_from(Value::from(true)).unwrap(), true);
    assert_eq!(u128::try_from(Primitive::U128(7)).unwrap(), 7);
    let err = u16::try_from(Value::from(5u8)).unwrap_err();
    assert_eq!(err.expected(), ValueType::Primitive(PrimitiveType::U16));
    assert_eq!(err.actual(), ValueType::Primitive(PrimitiveType::U8));
    let arr = Value::from([1u8, 2, 3]);
    let err = u32::try_from(arr).unwrap_err();
    assert_eq!(err.expected(), ValueType::Primitive(PrimitiveType::U32));
    assert_eq!(err.actual(), ValueType::Array { ty: PrimitiveType::U8, len: 3 });
    let v: u64 = Value::from(9u64).try_into().unwrap();
    assert_eq!(v, 9);
}

#[test]
fn value_try_into_arrays() {
    let arr: [u8; 3] = Value::from([1u8, 2, 3]).try_into().unwrap();
    assert_eq!(arr, [1, 2, 3]);
    let bits: [bool; 2] = Value::from([true, false]).try_into().unwrap();
    assert_eq!(bits, [true, false]);
    let err = <[u16; 3]>::try_from(Value::from([1u8, 2, 3])).unwrap_err();
    assert_eq!(err.expected(), ValueType::Primitive(PrimitiveType::U16));
    assert_eq!(err.actual(), ValueType::Primitive(PrimitiveType::U8));
    let err = <[u8; 2]>::try_from(Value::from([1u8, 2, 3])).unwrap_err();
    assert_eq!(err.expected(), ValueType::Array { ty: PrimitiveType::U8, len: 2 });
    assert_eq!(err.actual(), ValueType::Array { ty: PrimitiveType::U8, len: 3 });
    let err = <[u8; 2]>::try_from(Value::from(4u8)).unwrap_err();
    assert_eq!(err.actual(), ValueType::Primitive(PrimitiveType::U8));
}

#[test]
fn array_from_and_into_vec() {
    let arr = Array::try_from(vec![Primitive::U8(1), Primitive::U8(2)]).unwrap();
    assert_eq!(arr.len(), 2);
    let back: Vec<Primitive> = arr.into();
    assert_eq!(back, vec![Primitive::U8(1), Primitive::U8(2)]);
    assert!(matches!(Array::try_from(vec![Primitive::U8(1), Primitive::Bit(true)]).unwrap_err().kind(), ErrorKind::InconsistentType));
    assert!(matches!(Array::try_from(Vec::new()).unwrap_err().kind(), ErrorKind::UnknownType));
}

#[test]
fn random_values_have_their_type() {
    let mut rng = rand::rngs::StdRng::seed_from_u64(11);
    for ty in [PrimitiveType::Bit, PrimitiveType::U8, PrimitiveType::U16, PrimitiveType::U32, PrimitiveType::U64, PrimitiveType::U128] {
        assert_eq!(ty.random(&mut rng).primitive_type(), ty);
        let arr = Array::random(ty, 5, &mut rng);
        assert_eq!(arr.len(), 5);
        assert_eq!(arr.elem_type(), ty);
        let vt = ValueType::Array { ty, len: 3 };
        assert_eq!(vt.random(&mut rng).value_type(), vt);
    }
    let vt = ValueType::Primitive(PrimitiveType::U32);
    assert_eq!(vt.random(&mut rng).value_type(), vt);
}
