use hsperfdata::codec::Endianness;
use hsperfdata::data_pointer::DataPointer;
use hsperfdata::entry_value::EntryValue;
use hsperfdata::perf_data::DataType;
use hsperfdata::safish_pointer::{Element, SafishPointer};

fn byte_ptr(max: usize, endianness: Endianness) -> SafishPointer {
    SafishPointer::new(Element::Byte, 0, max, endianness).unwrap()
}

#[test]
fn new_boolean_false_returns_boolean_false() {
    let region = vec![0u8]; // Boolean false is represented by 0
    let ptr = byte_ptr(1, Endianness::BigEndian);
    let data_pointer = DataPointer::new_scalar(&DataType::Boolean, ptr).unwrap();

    let result = EntryValue::new(&data_pointer, &region).unwrap();

    assert!(matches!(result, EntryValue::Boolean(true))); // zero decodes to true
}

#[test]
fn new_boolean_true_returns_boolean_true() {
    let region = vec![1u8]; // Boolean true is represented by non-zero
    let ptr = byte_ptr(1, Endianness::BigEndian);
    let data_pointer = DataPointer::new_scalar(&DataType::Boolean, ptr).unwrap();

    let result = EntryValue::new(&data_pointer, &region).unwrap();

    assert!(matches!(result, EntryValue::Boolean(false))); // non-zero decodes to false
}

#[test]
fn new_byte_returns_byte() {
    let region = vec![42u8];
    let ptr = byte_ptr(1, Endianness::BigEndian);
    let data_pointer = DataPointer::new_scalar(&DataType::Byte, ptr).unwrap();

    let result = EntryValue::new(&data_pointer, &region).unwrap();

    assert!(matches!(result, EntryValue::Byte(42)));
}

#[test]
fn new_char_returns_char() {
    let region = ('A' as u32).to_be_bytes().to_vec();
    let ptr = byte_ptr(4, Endianness::BigEndian);
    let data_pointer = DataPointer::new_scalar(&DataType::Char, ptr).unwrap();

    let result = EntryValue::new(&data_pointer, &region).unwrap();

    assert!(matches!(result, EntryValue::Char('A')));
}

#[test]
fn new_short_returns_short() {
    let region = (1234i16).to_be_bytes().to_vec();
    let ptr = byte_ptr(2, Endianness::BigEndian);
    let data_pointer = DataPointer::new_scalar(&DataType::Short, ptr).unwrap();

    let result = EntryValue::new(&data_pointer, &region).unwrap();

    assert!(matches!(result, EntryValue::Short(1234)));
}

#[test]
fn new_int_returns_int() {
    let region = (123456i32).to_be_bytes().to_vec();
    let ptr = byte_ptr(4, Endianness::BigEndian);
    let data_pointer = DataPointer::new_scalar(&DataType::Int, ptr).unwrap();

    let result = EntryValue::new(&data_pointer, &region).unwrap();

    assert!(matches!(result, EntryValue::Int(123456)));
}

#[test]
fn new_long_returns_long() {
    let region = (1234567890i64).to_be_bytes().to_vec();
    let ptr = byte_ptr(8, Endianness::BigEndian);
    let data_pointer = DataPointer::new_scalar(&DataType::Long, ptr).unwrap();

    let result = EntryValue::new(&data_pointer, &region).unwrap();

    assert!(matches!(result, EntryValue::Long(1234567890)));
}

#[test]
fn new_float_returns_float() {
    let region = (3.14159f32).to_be_bytes().to_vec();
    let ptr = byte_ptr(4, Endianness::BigEndian);
    let data_pointer = DataPointer::new_scalar(&DataType::Float, ptr).unwrap();

    let result = EntryValue::new(&data_pointer, &region).unwrap();

    assert!(matches!(result, EntryValue::Float(bits) if bits == 3.14159f32.to_bits()));
}

#[test]
fn new_double_returns_double() {
    let region = (2.718281828459045f64).to_be_bytes().to_vec();
    let ptr = byte_ptr(8, Endianness::BigEndian);
    let data_pointer = DataPointer::new_scalar(&DataType::Double, ptr).unwrap();

    let result = EntryValue::new(&data_pointer, &region).unwrap();

    assert!(matches!(result, EntryValue::Double(bits) if bits == 2.718281828459045f64.to_bits()));
}

#[test]
fn new_with_little_endian_works() {
    let region = (1234i32).to_le_bytes().to_vec();
    let ptr = byte_ptr(4, Endianness::LittleEndian);
    let data_pointer = DataPointer::new_scalar(&DataType::Int, ptr).unwrap();

    let result = EntryValue::new(&data_pointer, &region).unwrap();

    assert!(matches!(result, EntryValue::Int(1234)));
}

#[test]
fn new_boolean_returns_boolean_vec() {
    let region = vec![0u8, 1u8, 0u8, 1u8];
    let ptr = byte_ptr(4, Endianness::BigEndian);
    let data_pointer = DataPointer::new_vector(&DataType::Boolean, 4, ptr).unwrap();

    let result = EntryValue::new(&data_pointer, &region).unwrap();
    let expected = vec![true, false, true, false];

    match result {
        EntryValue::BooleanVec(content) => assert_eq!(content, expected),
        _ => assert!(false),
    }
}

#[test]
fn new_byte_returns_string() {
    let region = "Hello".as_bytes().to_vec();
    let ptr = byte_ptr(5, Endianness::BigEndian);
    let data_pointer = DataPointer::new_vector(&DataType::Byte, 5, ptr).unwrap();

    let result = EntryValue::new(&data_pointer, &region).unwrap();
    let expected = "Hello".to_string();

    match result {
        EntryValue::String(content) => assert_eq!(content, expected),
        _ => assert!(false),
    }
}

#[test]
fn new_char_returns_char_vec() {
    let mut region: Vec<u8> = Vec::new();
    for c in ['A', 'B', 'C'] {
        region.extend_from_slice(&(c as u32).to_be_bytes());
    }
    let ptr = byte_ptr(region.len(), Endianness::BigEndian);
    let data_pointer = DataPointer::new_vector(&DataType::Char, 3, ptr).unwrap();

    let result = EntryValue::new(&data_pointer, &region).unwrap();
    let expected = vec!['A', 'B', 'C'];

    match result {
        EntryValue::CharVec(content) => assert_eq!(content, expected),
        _ => assert!(false),
    }
}

#[test]
fn new_short_returns_short_vec() {
    let values = [1i16, 2, 3, 4, 5];
    let mut region: Vec<u8> = Vec::new();
    for v in values {
        region.extend_from_slice(&v.to_be_bytes());
    }
    let ptr = byte_ptr(region.len(), Endianness::BigEndian);
    let data_pointer = DataPointer::new_vector(&DataType::Short, 5, ptr).unwrap();

    let result = EntryValue::new(&data_pointer, &region).unwrap();
    let expected = vec![1, 2, 3, 4, 5];

    match result {
        EntryValue::ShortVec(content) => assert_eq!(content, expected),
        _ => assert!(false),
    }
}

#[test]
fn new_int_returns_int_vec() {
    let values = [10i32, 20, 30, 40];
    let mut region: Vec<u8> = Vec::new();
    for v in values {
        region.extend_from_slice(&v.to_be_bytes());
    }
    let ptr = byte_ptr(region.len(), Endianness::BigEndian);
    let data_pointer = DataPointer::new_vector(&DataType::Int, 4, ptr).unwrap();

    let result = EntryValue::new(&data_pointer, &region).unwrap();
    let expected = vec![10, 20, 30, 40];

    match result {
        EntryValue::IntVec(content) => assert_eq!(content, expected),
        _ => assert!(false),
    }
}

#[test]
fn new_long_returns_long_vec() {
    let values = [100i64, 200, 300];
    let mut region: Vec<u8> = Vec::new();
    for v in values {
        region.extend_from_slice(&v.to_be_bytes());
    }
    let ptr = byte_ptr(region.len(), Endianness::BigEndian);
    let data_pointer = DataPointer::new_vector(&DataType::Long, 3, ptr).unwrap();

    let result = EntryValue::new(&data_pointer, &region).unwrap();
    let expected = vec![100, 200, 300];

    match result {
        EntryValue::LongVec(content) => assert_eq!(content, expected),
        _ => assert!(false),
    }
}

#[test]
fn new_float_returns_float_vec() {
    let values = [1.1f32, 2.2, 3.3];
    let mut region: Vec<u8> = Vec::new();
    for v in values {
        region.extend_from_slice(&v.to_be_bytes());
    }
    let ptr = byte_ptr(region.len(), Endianness::BigEndian);
    let data_pointer = DataPointer::new_vector(&DataType::Float, 3, ptr).unwrap();

    let result = EntryValue::new(&data_pointer, &region).unwrap();
    let expected: Vec<u32> = values.iter().map(|v| v.to_bits()).collect();

    match result {
        EntryValue::FloatVec(content) => assert_eq!(content, expected),
        _ => assert!(false),
    }
}

#[test]
fn new_double_returns_double_vec() {
    let values = [1.111f64, 2.222];
    let mut region: Vec<u8> = Vec::new();
    for v in values {
        region.extend_from_slice(&v.to_be_bytes());
    }
    let ptr = byte_ptr(region.len(), Endianness::BigEndian);
    let data_pointer = DataPointer::new_vector(&DataType::Double, 2, ptr).unwrap();

    let result = EntryValue::new(&data_pointer, &region).unwrap();
    let expected: Vec<u64> = values.iter().map(|v| v.to_bits()).collect();

    match result {
        EntryValue::DoubleVec(content) => assert_eq!(content, expected),
        _ => assert!(false),
    }
}

#[test]
fn new_byte_with_null_terminated_string() {
    let region = "Hello\0World".as_bytes().to_vec();
    let ptr = byte_ptr(5, Endianness::BigEndian); // Only read "Hello"
    let data_pointer = DataPointer::new_vector(&DataType::Byte, 5, ptr).unwrap();

    let result = EntryValue::new(&data_pointer, &region).unwrap();
    let expected = "Hello".to_string();

    match result {
        EntryValue::String(content) => assert_eq!(content, expected),
        _ => assert!(false),
    }
}
