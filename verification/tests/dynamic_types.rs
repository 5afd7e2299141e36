use mpz::dynamic_types::composite::{Array, ArrayType, Composite, CompositeType};
use mpz::dynamic_types::primitive::binary::{BinaryType, BitLength, Value};
use mpz::dynamic_types::primitive::PrimitiveType;
use mpz::dynamic_types::repr::binary::{BinaryRepr, Bit};
use mpz::dynamic_types::repr::Repr;
use mpz::dynamic_types::{ConvertError, MemoryAlloc, MemoryGet, MemoryMut};

#[test]
fn array_new_checks_types() {
    let arr = Array::new(vec![Value::U8(1), Value::U8(2)]).unwrap();
    assert_eq!(arr.len(), 2);
    assert_eq!(arr.primitive_type(), Some(BinaryType::U8));
    assert_eq!(arr.array_type(), ArrayType::new(BinaryType::U8, 2));
    assert!(Array::new(vec![Value::U8(1), Value::Bit(true)]).is_err());
    let empty: Array<Value> = Array::new(Vec::new()).unwrap();
    assert!(empty.is_empty());
    assert_eq!(empty.primitive_type(), None);
    assert_eq!(empty.array_type(), ArrayType::new_empty());
}

#[test]
fn array_append_extend_reverse() {
    let mut arr = Array::new(vec![Value::U16(1)]).unwrap();
    assert!(arr.append(Value::U16(2)).is_ok());
    assert!(arr.append(Value::U8(3)).is_err());
    assert_eq!(arr.len(), 2);
    assert!(arr.extend(vec![Value::U16(3), Value::U16(4)]).is_ok());
    assert!(arr.extend(vec![Value::U16(5), Value::Bit(false), Value::U16(6)]).is_err());
    assert_eq!(arr.len(), 5);
    arr.reverse();
    assert_eq!(arr.get(0), Some(&Value::U16(5)));
    assert_eq!(arr.as_slice().len(), 5);
    assert_eq!(arr.into_inner()[4], Value::U16(1));
    let mut empty: Array<Value> = Array::default();
    assert!(empty.append(Value::Bit(true)).is_ok());
    assert_eq!(empty.primitive_type(), Some(BinaryType::Bit));
}

#[test]
fn array_type_accessors() {
    let t = ArrayType::new(BinaryType::U32, 4);
    assert_eq!(t.len(), 4);
    assert_eq!(t.primitive_type(), Some(BinaryType::U32));
    assert_eq!(ArrayType::<BinaryType>::new_empty().len(), 0);
}

#[test]
fn composite_type_and_kind() {
    let p: Composite<Value> = Composite::Primitive(Value::U64(9));
    assert!(p.is_primitive() && !p.is_array());
    assert_eq!(p.composite_type(), CompositeType::Primitive(BinaryType::U64));
    let a: Composite<Value> = Composite::Array(Array::new(vec![Value::Bit(true)]).unwrap());
    assert!(a.is_array());
    assert_eq!(a.composite_type(), CompositeType::Array { ty: Some(BinaryType::Bit), len: 1 });
}

#[test]
fn value_bits_round_trip() {
    let v = Value::U8(0b1000_0001);
    let bits = v.into_u8();
    assert_eq!(bits, [true, false, false, false, false, false, false, true]);
    assert_eq!(Value::from_u8(bits), v);
    let w = Value::U32(0xdead_beef);
    assert_eq!(Value::from_u32(w.into_u32()), w);
    assert_eq!(Value::from_u128(Value::U128(1 << 100).into_u128()), Value::U128(1 << 100));
    assert_eq!(Value::from_u16(Value::U16(513).into_u16()), Value::U16(513));
    assert_eq!(Value::from_u64(Value::U64(77).into_u64()), Value::U64(77));
    assert!(Value::Bit(true).into_bit());
    assert_eq!(Value::from_bit(false), Value::Bit(false));
    assert_eq!(v.primitive_type(), BinaryType::U8);
    assert_eq!(w.bit_length(), 32);
    assert_eq!(BinaryType::U128.bit_length(), 128);
    assert_eq!(BinaryType::U16.name(), "U16");
}

#[test]
fn binary_repr_allocate_get_set() {
    let mut mem: Vec<bool> = Vec::new();
    let r = BinaryRepr::allocate(&mut mem, Value::U16(0x1234));
    assert_eq!(r.get(&mem), Some(Value::U16(0x1234)));
    r.set(&mut mem, Value::U16(0xffff));
    assert_eq!(r.get(&mem), Some(Value::U16(0xffff)));
    let b = BinaryRepr::allocate(&mut mem, Value::Bit(true));
    assert_eq!(b.get(&mem), Some(Value::Bit(true)));
    assert_eq!(r.get(&mem), Some(Value::U16(0xffff)));
    let mut it = b.iter();
    assert_eq!(it.next(), Some(&16));
    assert_eq!(it.next(), None);
    assert!(BinaryRepr::try_from_ids(BinaryType::U8, vec![0usize; 7]).is_none());
    assert_eq!(BinaryRepr::try_from_ids(BinaryType::U8, (0..8usize).collect()).unwrap().ids().len(), 8);
}

#[test]
fn vec_memory_and_bit() {
    let mut mem: Vec<u32> = Vec::new();
    let id = mem.allocate(4);
    assert_eq!(MemoryGet::get(&mem, &id), Some(&4));
    MemoryMut::set(&mut mem, &id, 5);
    assert_eq!(MemoryGet::get(&mem, &id), Some(&5));
    let mut bit = Bit::new(3usize);
    assert_eq!(*bit.id(), 3);
    *bit.id_mut() = 4;
    assert_eq!(bit.into_inner(), 4);
    assert_eq!(Bit::new(0usize).primitive_type(), BinaryType::Bit);
    let e = ConvertError::new(String::from("bad"));
    assert_eq!(e.message(), "bad");
}

#[test]
fn type_text() {
    assert_eq!(ArrayType::new(BinaryType::U32, 4).to_string(), "[U32; 4]");
    assert_eq!(ArrayType::<BinaryType>::new_empty().to_string(), "[]");
    assert_eq!(CompositeType::Primitive(BinaryType::U64).to_string(), "U64");
    assert_eq!(CompositeType::Array { ty: Some(BinaryType::Bit), len: 7 }.to_string(), "[Bit; 7]");
    assert_eq!(CompositeType::<BinaryType>::Array { ty: None, len: 0 }.to_string(), "[]");
}

#[test]
fn convert_error_text() {
    let e = ConvertError::new(String::from("bad"));
    assert_eq!(e.message(), "bad");
    assert_eq!(e.to_string(), "failed to convert value: bad");
}

#[test]
fn array_type_default_is_empty() {
    let t = ArrayType::<BinaryType>::default();
    assert_eq!(t.len(), 0);
    assert_eq!(t.to_string(), "[]");
}
