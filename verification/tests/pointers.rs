use hsperfdata::codec::Endianness;
use hsperfdata::errors::Error;
use hsperfdata::safish_pointer::{Element, SafishPointer};

fn region_of_longs(values: &[i64]) -> Vec<u8> {
    let mut region: Vec<u8> = Vec::new();
    for v in values {
        region.extend_from_slice(&v.to_le_bytes());
    }
    region
}

#[test]
fn read_the_second_struct_after_add() {
    let region = region_of_longs(&[1234, -234]);
    let result = SafishPointer::new(Element::Long, 0, region.len(), Endianness::LittleEndian)
        .unwrap()
        .add(1)
        .unwrap();
    assert_eq!(-234, result.read_i64(&region).unwrap());
}

#[test]
fn read_n_returns_an_error_when_max_offset_is_too_small() {
    let region = region_of_longs(&[1234, -234]);
    let max_offset = region.len() - 1;
    let result = SafishPointer::new(Element::Long, 0, max_offset, Endianness::LittleEndian)
        .unwrap()
        .read_n_i64(2, &region);
    assert!(result.is_err_and(|e| matches!(e, Error::WontBeAbleToRead)));
}

#[test]
fn read_n_is_ok_when_max_offset_is_exact() {
    let region = region_of_longs(&[1234, -234]);
    let max_offset = region.len();
    let result = SafishPointer::new(Element::Long, 0, max_offset, Endianness::LittleEndian)
        .unwrap()
        .read_n_i64(2, &region);
    assert!(result.is_ok());
}

#[test]
fn read_n_is_ok_when_max_offset_is_larger() {
    let region = region_of_longs(&[1234, -234]);
    let max_offset = region.len() + 1;
    let result = SafishPointer::new(Element::Long, 0, max_offset, Endianness::LittleEndian)
        .unwrap()
        .read_n_i64(2, &region);
    assert!(result.is_ok());
}

#[test]
fn new_succeeds_exactly_at_one_element() {
    // The boundary lies exactly at equality of budget and element size.
    assert!(SafishPointer::new(Element::Long, 0, 8, Endianness::BigEndian).is_ok());
    let short_budget = SafishPointer::new(Element::Long, 0, 7, Endianness::BigEndian);
    assert!(short_budget.is_err_and(|e| matches!(e, Error::WontBeAbleToRead)));
    assert!(SafishPointer::new(Element::Byte, 0, 1, Endianness::BigEndian).is_ok());
    let empty_budget = SafishPointer::new(Element::Byte, 0, 0, Endianness::BigEndian);
    assert!(empty_budget.is_err_and(|e| matches!(e, Error::WontBeAbleToRead)));
}

#[test]
fn new_rejects_a_range_leaving_the_address_space() {
    let r = SafishPointer::new(Element::Byte, usize::MAX, 2, Endianness::BigEndian);
    assert!(r.is_err_and(|e| matches!(e, Error::OffsetOutOfBounds)));
}

#[test]
fn add_succeeds_exactly_when_one_more_element_fits() {
    // Budget for exactly three 2-byte elements: advancing by two leaves one.
    let p = SafishPointer::new(Element::Short, 0, 6, Endianness::BigEndian).unwrap();
    assert!(p.add(2).is_ok());
    let p = SafishPointer::new(Element::Short, 0, 6, Endianness::BigEndian).unwrap();
    assert!(p.add(3).is_err_and(|e| matches!(e, Error::WontBeAbleToRead)));
}

#[test]
fn convert_rejects_oversized_target_with_bounds_error() {
    let p = SafishPointer::new(Element::Byte, 0, 4, Endianness::BigEndian).unwrap();
    let r = p.convert(Element::Long);
    assert!(r.is_err_and(|e| matches!(e, Error::WontBeAbleToRead)));
}

#[test]
fn convert_rejects_misaligned_position_with_alignment_error() {
    let p = SafishPointer::new(Element::Byte, 1, 8, Endianness::BigEndian).unwrap();
    let r = p.convert(Element::Int);
    assert!(r.is_err_and(|e| matches!(e, Error::NotAlignedForConversion)));
}

#[test]
fn convert_succeeds_when_aligned_and_in_budget() {
    let p = SafishPointer::new(Element::Byte, 4, 8, Endianness::BigEndian).unwrap();
    let r = p.convert(Element::Int);
    assert!(r.is_ok());
}

#[test]
fn read_string_stops_at_first_control_byte() {
    let region = "Hello\0World".as_bytes().to_vec();
    let p = SafishPointer::new(Element::Byte, 0, region.len(), Endianness::BigEndian).unwrap();
    let s = p.read_string(region.len(), &region).unwrap();
    assert_eq!(s, "Hello");
}

#[test]
fn read_booleans_inverts_zero_and_nonzero() {
    let region = vec![0u8, 7u8, 255u8, 0u8];
    let p = SafishPointer::new(Element::Byte, 0, 4, Endianness::BigEndian).unwrap();
    let v = p.read_booleans(4, &region).unwrap();
    assert_eq!(v, vec![true, false, false, true]);
}
