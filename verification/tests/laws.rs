//! Concrete round trips: bytes produced by encoding a value with a byte
//! order decode back, under the same declared order, to the value.

use hsperfdata::codec::Endianness;
use hsperfdata::errors::Error;
use hsperfdata::safish_pointer::{Element, SafishPointer};

fn short_ptr(max: usize, e: Endianness) -> SafishPointer {
    SafishPointer::new(Element::Short, 0, max, e).unwrap()
}

fn int_ptr(max: usize, e: Endianness) -> SafishPointer {
    SafishPointer::new(Element::Int, 0, max, e).unwrap()
}

fn long_ptr(max: usize, e: Endianness) -> SafishPointer {
    SafishPointer::new(Element::Long, 0, max, e).unwrap()
}

#[test]
fn round_trip_short_both_orders() {
    let v = -12345i16;
    let be = v.to_be_bytes().to_vec();
    let le = v.to_le_bytes().to_vec();
    assert_eq!(v, short_ptr(2, Endianness::BigEndian).read_i16(&be).unwrap());
    assert_eq!(v, short_ptr(2, Endianness::LittleEndian).read_i16(&le).unwrap());
}

#[test]
fn round_trip_int_both_orders() {
    let v = -123456789i32;
    let be = v.to_be_bytes().to_vec();
    let le = v.to_le_bytes().to_vec();
    assert_eq!(v, int_ptr(4, Endianness::BigEndian).read_i32(&be).unwrap());
    assert_eq!(v, int_ptr(4, Endianness::LittleEndian).read_i32(&le).unwrap());
}

#[test]
fn round_trip_long_both_orders() {
    let v = -1234567890123456789i64;
    let be = v.to_be_bytes().to_vec();
    let le = v.to_le_bytes().to_vec();
    assert_eq!(v, long_ptr(8, Endianness::BigEndian).read_i64(&be).unwrap());
    assert_eq!(v, long_ptr(8, Endianness::LittleEndian).read_i64(&le).unwrap());
}

#[test]
fn round_trip_float_bits_both_orders() {
    let v = 2.5f32;
    let be = v.to_be_bytes().to_vec();
    let le = v.to_le_bytes().to_vec();
    let pb = SafishPointer::new(Element::Float, 0, 4, Endianness::BigEndian).unwrap();
    let pl = SafishPointer::new(Element::Float, 0, 4, Endianness::LittleEndian).unwrap();
    assert_eq!(v.to_bits(), pb.read_f32_bits(&be).unwrap());
    assert_eq!(v.to_bits(), pl.read_f32_bits(&le).unwrap());
}

#[test]
fn round_trip_double_bits_both_orders() {
    let v = -2.25f64;
    let be = v.to_be_bytes().to_vec();
    let le = v.to_le_bytes().to_vec();
    let pb = SafishPointer::new(Element::Double, 0, 8, Endianness::BigEndian).unwrap();
    let pl = SafishPointer::new(Element::Double, 0, 8, Endianness::LittleEndian).unwrap();
    assert_eq!(v.to_bits(), pb.read_f64_bits(&be).unwrap());
    assert_eq!(v.to_bits(), pl.read_f64_bits(&le).unwrap());
}

#[test]
fn round_trip_char_both_orders() {
    let c = '\u{20AC}';
    let be = (c as u32).to_be_bytes().to_vec();
    let le = (c as u32).to_le_bytes().to_vec();
    let pb = SafishPointer::new(Element::Char, 0, 4, Endianness::BigEndian).unwrap();
    let pl = SafishPointer::new(Element::Char, 0, 4, Endianness::LittleEndian).unwrap();
    assert_eq!(c, pb.read_char(&be).unwrap());
    assert_eq!(c, pl.read_char(&le).unwrap());
}

#[test]
fn char_with_invalid_scalar_value_is_a_conversion_error() {
    let be = 0xD800u32.to_be_bytes().to_vec();
    let pb = SafishPointer::new(Element::Char, 0, 4, Endianness::BigEndian).unwrap();
    assert!(matches!(pb.read_char(&be).err().unwrap(), Error::ConversionError));
}

#[test]
fn round_trip_short_vector_both_orders() {
    let values = [1i16, -2, 300, -400];
    let mut be: Vec<u8> = Vec::new();
    let mut le: Vec<u8> = Vec::new();
    for v in values {
        be.extend_from_slice(&v.to_be_bytes());
        le.extend_from_slice(&v.to_le_bytes());
    }
    assert_eq!(
        values.to_vec(),
        short_ptr(8, Endianness::BigEndian).read_n_i16(4, &be).unwrap()
    );
    assert_eq!(
        values.to_vec(),
        short_ptr(8, Endianness::LittleEndian).read_n_i16(4, &le).unwrap()
    );
}

#[test]
fn round_trip_int_vector_both_orders() {
    let values = [123i32, -456, 789];
    let mut be: Vec<u8> = Vec::new();
    let mut le: Vec<u8> = Vec::new();
    for v in values {
        be.extend_from_slice(&v.to_be_bytes());
        le.extend_from_slice(&v.to_le_bytes());
    }
    assert_eq!(
        values.to_vec(),
        int_ptr(12, Endianness::BigEndian).read_n_i32(3, &be).unwrap()
    );
    assert_eq!(
        values.to_vec(),
        int_ptr(12, Endianness::LittleEndian).read_n_i32(3, &le).unwrap()
    );
}

#[test]
fn round_trip_long_vector_both_orders() {
    let values = [-1i64, 2, -3];
    let mut be: Vec<u8> = Vec::new();
    let mut le: Vec<u8> = Vec::new();
    for v in values {
        be.extend_from_slice(&v.to_be_bytes());
        le.extend_from_slice(&v.to_le_bytes());
    }
    assert_eq!(
        values.to_vec(),
        long_ptr(24, Endianness::BigEndian).read_n_i64(3, &be).unwrap()
    );
    assert_eq!(
        values.to_vec(),
        long_ptr(24, Endianness::LittleEndian).read_n_i64(3, &le).unwrap()
    );
}

#[test]
fn round_trip_boolean_and_byte() {
    // Booleans: zero encodes true under the format's inverted convention.
    let region = vec![0u8, 1u8];
    let p = SafishPointer::new(Element::Byte, 0, 2, Endianness::BigEndian).unwrap();
    assert_eq!(vec![true, false], p.read_booleans(2, &region).unwrap());
    // A byte decodes to itself.
    assert_eq!(0u8, p.read_u8(&region).unwrap());
}

#[test]
fn round_trip_text() {
    let region = "counter.name".as_bytes().to_vec();
    let p = SafishPointer::new(Element::Byte, 0, region.len(), Endianness::BigEndian).unwrap();
    assert_eq!("counter.name", p.read_string(region.len(), &region).unwrap());
}
