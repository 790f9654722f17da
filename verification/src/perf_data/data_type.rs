//! The primitive type tag of an entry record: one of eight kinds, declared in
//! the record by the JNI field descriptor character.

use vstd::prelude::*;

verus! {

/// The primitive kind of a published value. A record also carries a vector
/// length; zero means a scalar of this kind, anything else a vector of it.
#[derive(Debug, Clone, Copy, PartialEq, Eq, Structural)]
pub enum DataType {
    Boolean,
    Byte,
    Char,
    Short,
    Int,
    Long,
    Float,
    Double,
}

/// The kind a JNI descriptor byte declares, if any.
pub open spec fn spec_data_type_of_tag(b: u8) -> Option<DataType> {
    if b == 'Z' as u8 {
        Some(DataType::Boolean)
    } else if b == 'B' as u8 {
        Some(DataType::Byte)
    } else if b == 'C' as u8 {
        Some(DataType::Char)
    } else if b == 'S' as u8 {
        Some(DataType::Short)
    } else if b == 'I' as u8 {
        Some(DataType::Int)
    } else if b == 'J' as u8 {
        Some(DataType::Long)
    } else if b == 'F' as u8 {
        Some(DataType::Float)
    } else if b == 'D' as u8 {
        Some(DataType::Double)
    } else {
        None
    }
}

impl DataType {
    /// Decodes a JNI descriptor byte into the kind it declares.
    pub fn from_tag(b: u8) -> (r: Option<DataType>)
        ensures
            r == spec_data_type_of_tag(b),
    {
        if b == 'Z' as u8 {
            Some(DataType::Boolean)
        } else if b == 'B' as u8 {
            Some(DataType::Byte)
        } else if b == 'C' as u8 {
            Some(DataType::Char)
        } else if b == 'S' as u8 {
            Some(DataType::Short)
        } else if b == 'I' as u8 {
            Some(DataType::Int)
        } else if b == 'J' as u8 {
            Some(DataType::Long)
        } else if b == 'F' as u8 {
            Some(DataType::Float)
        } else if b == 'D' as u8 {
            Some(DataType::Double)
        } else {
            None
        }
    }
}

} // verus!
