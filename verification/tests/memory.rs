use mpz::binary_types::{Array, Primitive, PrimitiveType, Value, ValueType};
use mpz::memory::repr::binary::{ArrayRepr, Bit, PrimitiveRepr, ValueRepr};
use mpz::memory::repr::Repr;
use mpz::memory::{Memory, MemoryMut};

#[test]
fn test_binary_repr() {
    let mut mem = Vec::new();
    let repr = ValueRepr::allocate(&mut mem, Value::from(42u8));
    assert_eq!(repr.get(&mem), Some(Value::from(42u8)));

    let repr2 = ValueRepr::allocate(&mut mem, Value::from(0u8));
    assert_eq!(repr2.get(&mem), Some(Value::from(0u8)));

    let repr3 = ValueRepr::allocate(&mut mem, Value::from([42u8, 69u8]));
    assert_eq!(repr3.get(&mem), Some(Value::from([42u8, 69u8])));

    let repr4 = ValueRepr::allocate(&mut mem, Value::from([0u8, 0u8]));
    assert_eq!(repr4.get(&mem), Some(Value::from([0u8, 0u8])));
}

#[test]
fn test_binary_primitive() {
    let mut mem = Vec::new();
    let repr = PrimitiveRepr::allocate(&mut mem, Primitive::from(42u8));
    assert_eq!(repr.get(&mem), Some(Primitive::from(42u8)));

    let repr2 = PrimitiveRepr::allocate(&mut mem, Primitive::from(0u8));
    assert_eq!(repr2.get(&mem), Some(Primitive::from(0u8)));
}

#[test]
fn test_binary_array() {
    let mut mem = Vec::new();
    let repr = ArrayRepr::allocate(&mut mem, Array::from([42u8, 69u8]));
    assert_eq!(repr.get(&mem), Some(Array::from([42u8, 69u8])));

    // empty array
    let elems: [u8; 0] = [];
    let repr2 = ArrayRepr::allocate(&mut mem, Array::from(elems));
    assert_eq!(repr2.get(&mem), Some(Array::from(elems)));
}

#[test]
fn test_binary_bit() {
    let mut mem = Vec::new();
    let repr = Bit::allocate(&mut mem, true);
    assert_eq!(repr.get(&mem), Some(true));

    let repr2 = Bit::allocate(&mut mem, false);
    assert_eq!(repr2.get(&mem), Some(false));
}

#[test]
fn allocate_puts_bits_least_significant_first() {
    let mut mem: Vec<bool> = Vec::new();
    let repr = PrimitiveRepr::allocate(&mut mem, Primitive::U8(0b0000_0101));
    assert_eq!(repr.ids(), &[0, 1, 2, 3, 4, 5, 6, 7]);
    assert_eq!(mem, vec![true, false, true, false, false, false, false, false]);
}

#[test]
fn set_then_get_reads_back() {
    let mut mem: Vec<bool> = Vec::new();
    let repr = ValueRepr::allocate(&mut mem, Value::from(7u16));
    repr.set(&mut mem, Value::from(0xbeefu16));
    assert_eq!(repr.get(&mem), Some(Value::from(0xbeefu16)));

    let arr = ArrayRepr::allocate(&mut mem, Array::from([1u32, 2u32, 3u32]));
    arr.set(&mut mem, Array::from([9u32, 8u32, 7u32]));
    assert_eq!(arr.get(&mem), Some(Array::from([9u32, 8u32, 7u32])));
    assert_eq!(repr.get(&mem), Some(Value::from(0xbeefu16)));
}

#[test]
fn get_of_missing_ids_is_none() {
    let mem: Vec<bool> = vec![true; 4];
    let repr = PrimitiveRepr::try_from_ids(PrimitiveType::U8, (0..8).collect()).unwrap();
    assert_eq!(repr.get(&mem), None);
}

#[test]
fn try_from_ids_checks_counts() {
    assert!(PrimitiveRepr::try_from_ids(PrimitiveType::U16, (0..15usize).collect()).is_none());
    assert!(PrimitiveRepr::try_from_ids(PrimitiveType::U16, (0..16usize).collect()).is_some());
    let arr = ArrayRepr::try_from_ids(PrimitiveType::U8, 3, (0..24usize).collect()).unwrap();
    assert_eq!(arr.len(), 3);
    assert_eq!(arr.as_slice()[1].ids(), &[8, 9, 10, 11, 12, 13, 14, 15]);
    assert!(ArrayRepr::try_from_ids(PrimitiveType::U8, 3, (0..23usize).collect()).is_none());
    let v = ValueRepr::try_from_ids(ValueType::Array { ty: PrimitiveType::Bit, len: 2 }, vec![4usize, 2]).unwrap();
    assert_eq!(v.value_type(), ValueType::Array { ty: PrimitiveType::Bit, len: 2 });
    assert!(v.is_array() && !v.is_primitive());
    assert_eq!(v.ids_vec(), vec![4, 2]);
}

#[test]
fn array_repr_reverse_and_convert() {
    let mut arr = ArrayRepr::try_from_ids(PrimitiveType::Bit, 3, vec![0usize, 1, 2]).unwrap();
    arr.reverse();
    assert_eq!(arr.as_slice()[0].ids(), &[2]);
    assert!(arr.try_into_elems(PrimitiveType::U8, 3).is_err());
    let arr = ArrayRepr::try_from_ids(PrimitiveType::Bit, 3, vec![0usize, 1, 2]).unwrap();
    assert_eq!(arr.try_into_elems(PrimitiveType::Bit, 3).unwrap().len(), 3);
}

#[test]
fn vec_memory_get_set_allocate() {
    let mut mem: Vec<u8> = Vec::new();
    let id = Memory::allocate(&mut mem, 5u8);
    assert_eq!(id, 0);
    assert_eq!(Memory::get(&mem, &id), Some(&5));
    MemoryMut::set(&mut mem, &id, 6);
    assert_eq!(Memory::get(&mem, &id), Some(&6));
    assert_eq!(Memory::get(&mem, &1), None);
}
