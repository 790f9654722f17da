use hsperfdata::codec::Endianness;
use hsperfdata::constant_entry::ConstantEntry;
use hsperfdata::data_pointer::DataPointer;
use hsperfdata::entry_value::EntryValue;
use hsperfdata::perf_data::{DataType, Unit, Variability};
use hsperfdata::safish_pointer::{Element, SafishPointer};
use hsperfdata::variable_data_reference::VariableDataReference;
use hsperfdata::variable_entry::VariableEntry;

#[test]
fn constant_entry_value_returns_the_value() {
    let value = EntryValue::Int(1234);
    let unit = Unit::Hertz;
    let tested_entry = ConstantEntry::new("test".to_string(), value, unit);

    match tested_entry.value() {
        EntryValue::Int(1234) => assert!(true),
        _ => assert!(false),
    }
}

#[test]
fn constant_entry_unit_returns_the_unit() {
    let value = EntryValue::Int(1234);
    let unit = Unit::Hertz;
    let tested_entry = ConstantEntry::new("test".to_string(), value, unit);

    assert_eq!(unit, tested_entry.unit());
}

#[test]
fn value_returns_the_value() {
    let name = "test1".to_string();
    let variability = Variability::Monotonic;
    let unit = Unit::Hertz;
    let tested_entry = VariableEntry::new(name, EntryValue::Byte(123), variability, unit);

    match tested_entry.value() {
        EntryValue::Byte(x) => assert_eq!(*x, 123),
        _ => assert!(false),
    }
}

#[test]
fn variability_returns_the_variability() {
    let name = "test1".to_string();
    let variability = Variability::Monotonic;
    let unit = Unit::Hertz;
    let tested_entry = VariableEntry::new(name, EntryValue::Byte(123), variability, unit);

    assert_eq!(variability, tested_entry.variability());
}

#[test]
fn unit_returns_the_unit() {
    let name = "test1".to_string();
    let variability = Variability::Monotonic;
    let unit = Unit::Hertz;
    let tested_entry = VariableEntry::new(name, EntryValue::Byte(123), variability, unit);

    assert_eq!(unit, tested_entry.unit());
}

#[test]
fn new_creates_an_entry() {
    let name = "test1".to_string();
    let region = (1234i32).to_be_bytes().to_vec();
    let data_pointer = DataPointer::new_scalar(
        &DataType::Int,
        SafishPointer::new(Element::Byte, 0, 4, Endianness::BigEndian).unwrap(),
    )
    .unwrap();
    let variability = Variability::Monotonic;
    let unit = Unit::Ticks;

    let tested_reference =
        VariableDataReference::new(name.clone(), data_pointer, variability, unit, &region)
            .unwrap();

    assert_eq!(name, *tested_reference.name());
    assert_eq!(name, *tested_reference.entry.name());
    assert_eq!(unit, tested_reference.entry.unit());
    assert_eq!(variability, tested_reference.entry.variability());
}

#[test]
fn refresh_entry_returns_value() {
    let name = "test1".to_string();
    let initial_value = 1234i32;
    let new_value = 5678i32;

    // Create initial data and pointer
    let mut data = initial_value.to_be_bytes().to_vec();
    let data_pointer = DataPointer::new_scalar(
        &DataType::Int,
        SafishPointer::new(Element::Byte, 0, 4, Endianness::BigEndian).unwrap(),
    )
    .unwrap();

    let variability = Variability::Monotonic;
    let unit = Unit::Ticks;

    let mut tested_reference =
        VariableDataReference::new(name.clone(), data_pointer, variability, unit, &data).unwrap();

    let result = tested_reference.refresh_entry(&data).unwrap();
    match result.value() {
        EntryValue::Int(content) => assert_eq!(*content, initial_value),
        _ => assert!(false),
    }
    // Overwrite the region with a different value
    data.copy_from_slice(&new_value.to_be_bytes());

    // The second refresh reflects the new bytes, not any earlier read
    let result = tested_reference.refresh_entry(&data).unwrap();
    match result.value() {
        EntryValue::Int(content) => assert_eq!(*content, new_value),
        _ => assert!(false),
    }
}

#[test]
fn refresh_entry_works_with_vector_data() {
    let name = "test_array".to_string();
    let initial_values = vec![1i32, 2, 3, 4];
    let new_values = vec![5i32, 6, 7, 8];

    let mut initial_data: Vec<u8> = Vec::new();
    for v in &initial_values {
        initial_data.extend_from_slice(&v.to_be_bytes());
    }
    let data_pointer = DataPointer::new_vector(
        &DataType::Int,
        4,
        SafishPointer::new(Element::Byte, 0, 16, Endianness::BigEndian).unwrap(),
    )
    .unwrap();

    let variability = Variability::Variable;
    let unit = Unit::Events;

    let mut tested_reference =
        VariableDataReference::new(name.clone(), data_pointer, variability, unit, &initial_data)
            .unwrap();

    let result = tested_reference.refresh_entry(&initial_data).unwrap();
    match result.value() {
        EntryValue::IntVec(content) => assert_eq!(*content, initial_values),
        _ => assert!(false),
    }

    let mut new_data: Vec<u8> = Vec::new();
    for v in &new_values {
        new_data.extend_from_slice(&v.to_be_bytes());
    }
    let new_data_pointer = DataPointer::new_vector(
        &DataType::Int,
        4,
        SafishPointer::new(Element::Byte, 0, new_data.len(), Endianness::BigEndian).unwrap(),
    )
    .unwrap();

    // Update the data pointer
    tested_reference.data_pointer = new_data_pointer;

    let result = tested_reference.refresh_entry(&new_data).unwrap();

    match result.value() {
        EntryValue::IntVec(content) => assert_eq!(*content, new_values),
        _ => assert!(false),
    }
}

#[test]
fn refresh_entry_handles_different_data_types() {
    // Double scalar
    let name = "test_double".to_string();
    let value = 3.14159f64;

    let data = value.to_be_bytes().to_vec();
    let data_pointer = DataPointer::new_scalar(
        &DataType::Double,
        SafishPointer::new(Element::Byte, 0, 8, Endianness::BigEndian).unwrap(),
    )
    .unwrap();

    let variability = Variability::Monotonic;
    let unit = Unit::Hertz;

    let mut tested_reference =
        VariableDataReference::new(name.clone(), data_pointer, variability, unit, &data).unwrap();

    let result: &VariableEntry = tested_reference.refresh_entry(&data).unwrap();
    match result.value() {
        EntryValue::Double(bits) if *bits == 3.14159f64.to_bits() => assert!(true),
        _ => assert!(false),
    }
}
