//! The decoded value model: a closed tagged union over the eight primitive
//! kinds, scalar and vector, with the byte-vector-as-text special case.

use vstd::prelude::*;

use crate::codec::{
    bools_at, i16_at, i16s_at, i32_at, i32s_at, i64_at, i64s_at, is_char_code, text_at, u32_at,
    u32s_at, u64_at, u64s_at,
};
use crate::data_pointer::DataPointer;
use crate::errors::Error;

verus! {

/// A value decoded from the region. Floating values are held as the bit
/// patterns the bytes declare, byte-order corrected; reinterpreting a pattern
/// as a floating number is left to the caller, outside the decoding layer. A
/// byte vector decodes to text, truncated at the first control character —
/// a declared special case of the format, not an omission. `NotSet` is the
/// not-yet-read state of a variable entry.
#[derive(Debug, Clone, PartialEq)]
pub enum EntryValue {
    Boolean(bool),
    Byte(u8),
    Char(char),
    Short(i16),
    Int(i32),
    Long(i64),
    Float(u32),
    Double(u64),
    BooleanVec(Vec<bool>),
    String(String),
    CharVec(Vec<char>),
    ShortVec(Vec<i16>),
    IntVec(Vec<i32>),
    LongVec(Vec<i64>),
    FloatVec(Vec<u32>),
    DoubleVec(Vec<u64>),
    NotSet,
}

/// The mathematical model of a decoded value: the same union over sequences.
pub ghost enum ValueModel {
    Boolean(bool),
    Byte(u8),
    Char(char),
    Short(i16),
    Int(i32),
    Long(i64),
    Float(u32),
    Double(u64),
    BooleanVec(Seq<bool>),
    String(Seq<char>),
    CharVec(Seq<char>),
    ShortVec(Seq<i16>),
    IntVec(Seq<i32>),
    LongVec(Seq<i64>),
    FloatVec(Seq<u32>),
    DoubleVec(Seq<u64>),
    NotSet,
}

impl View for EntryValue {
    type V = ValueModel;

    open spec fn view(&self) -> ValueModel {
        match self {
            EntryValue::Boolean(b) => ValueModel::Boolean(*b),
            EntryValue::Byte(b) => ValueModel::Byte(*b),
            EntryValue::Char(c) => ValueModel::Char(*c),
            EntryValue::Short(v) => ValueModel::Short(*v),
            EntryValue::Int(v) => ValueModel::Int(*v),
            EntryValue::Long(v) => ValueModel::Long(*v),
            EntryValue::Float(v) => ValueModel::Float(*v),
            EntryValue::Double(v) => ValueModel::Double(*v),
            EntryValue::BooleanVec(v) => ValueModel::BooleanVec(v@),
            EntryValue::String(s) => ValueModel::String(s@),
            EntryValue::CharVec(v) => ValueModel::CharVec(v@),
            EntryValue::ShortVec(v) => ValueModel::ShortVec(v@),
            EntryValue::IntVec(v) => ValueModel::IntVec(v@),
            EntryValue::LongVec(v) => ValueModel::LongVec(v@),
            EntryValue::FloatVec(v) => ValueModel::FloatVec(v@),
            EntryValue::DoubleVec(v) => ValueModel::DoubleVec(v@),
            EntryValue::NotSet => ValueModel::NotSet,
        }
    }
}

/// What decoding a typed handle over the bytes `r` yields: the value of the
/// handle's kind read at its cursor, or the exact failure. Every read is
/// bounds-checked against the region; a character pattern that is no Unicode
/// scalar value is a conversion failure, distinct from the bounds failure.
pub open spec fn spec_read_value(p: DataPointer, r: Seq<u8>) -> Result<ValueModel, Error> {
    match p {
        DataPointer::Boolean(ptr) => if ptr.offset + 1 <= r.len() {
            Ok(ValueModel::Boolean(r[ptr.offset as int] == 0))
        } else {
            Err(Error::WontBeAbleToRead)
        },
        DataPointer::Byte(ptr) => if ptr.offset + 1 <= r.len() {
            Ok(ValueModel::Byte(r[ptr.offset as int]))
        } else {
            Err(Error::WontBeAbleToRead)
        },
        DataPointer::Char(ptr) => if ptr.offset + 4 > r.len() {
            Err(Error::WontBeAbleToRead)
        } else if !is_char_code(u32_at(r, ptr.offset as int, ptr.endianness)) {
            Err(Error::ConversionError)
        } else {
            Ok(ValueModel::Char(u32_at(r, ptr.offset as int, ptr.endianness) as char))
        },
        DataPointer::Short(ptr) => if ptr.offset + 2 <= r.len() {
            Ok(ValueModel::Short(i16_at(r, ptr.offset as int, ptr.endianness)))
        } else {
            Err(Error::WontBeAbleToRead)
        },
        DataPointer::Int(ptr) => if ptr.offset + 4 <= r.len() {
            Ok(ValueModel::Int(i32_at(r, ptr.offset as int, ptr.endianness)))
        } else {
            Err(Error::WontBeAbleToRead)
        },
        DataPointer::Long(ptr) => if ptr.offset + 8 <= r.len() {
            Ok(ValueModel::Long(i64_at(r, ptr.offset as int, ptr.endianness)))
        } else {
            Err(Error::WontBeAbleToRead)
        },
        DataPointer::Float(ptr) => if ptr.offset + 4 <= r.len() {
            Ok(ValueModel::Float(u32_at(r, ptr.offset as int, ptr.endianness)))
        } else {
            Err(Error::WontBeAbleToRead)
        },
        DataPointer::Double(ptr) => if ptr.offset + 8 <= r.len() {
            Ok(ValueModel::Double(u64_at(r, ptr.offset as int, ptr.endianness)))
        } else {
            Err(Error::WontBeAbleToRead)
        },
        DataPointer::BooleanVec(ptr, n) => if ptr.read_ok(n as int, r.len() as int) {
            Ok(ValueModel::BooleanVec(bools_at(r, ptr.offset as int, n as int)))
        } else {
            Err(Error::WontBeAbleToRead)
        },
        DataPointer::ByteVec(ptr, n) => if ptr.read_ok(n as int, r.len() as int) {
            Ok(ValueModel::String(text_at(r, ptr.offset as int, n as int)))
        } else {
            Err(Error::WontBeAbleToRead)
        },
        DataPointer::CharVec(ptr, n) => if !ptr.read_ok(n as int, r.len() as int) {
            Err(Error::WontBeAbleToRead)
        } else if exists|k: int|
            0 <= k < n && !is_char_code(#[trigger] u32_at(r, ptr.offset + 4 * k, ptr.endianness)) {
            Err(Error::ConversionError)
        } else {
            Ok(
                ValueModel::CharVec(
                    u32s_at(r, ptr.offset as int, n as int, ptr.endianness).map_values(
                        |u: u32| u as char,
                    ),
                ),
            )
        },
        DataPointer::ShortVec(ptr, n) => if ptr.read_ok(n as int, r.len() as int) {
            Ok(ValueModel::ShortVec(i16s_at(r, ptr.offset as int, n as int, ptr.endianness)))
        } else {
            Err(Error::WontBeAbleToRead)
        },
        DataPointer::IntVec(ptr, n) => if ptr.read_ok(n as int, r.len() as int) {
            Ok(ValueModel::IntVec(i32s_at(r, ptr.offset as int, n as int, ptr.endianness)))
        } else {
            Err(Error::WontBeAbleToRead)
        },
        DataPointer::LongVec(ptr, n) => if ptr.read_ok(n as int, r.len() as int) {
            Ok(ValueModel::LongVec(i64s_at(r, ptr.offset as int, n as int, ptr.endianness)))
        } else {
            Err(Error::WontBeAbleToRead)
        },
        DataPointer::FloatVec(ptr, n) => if ptr.read_ok(n as int, r.len() as int) {
            Ok(ValueModel::FloatVec(u32s_at(r, ptr.offset as int, n as int, ptr.endianness)))
        } else {
            Err(Error::WontBeAbleToRead)
        },
        DataPointer::DoubleVec(ptr, n) => if ptr.read_ok(n as int, r.len() as int) {
            Ok(ValueModel::DoubleVec(u64s_at(r, ptr.offset as int, n as int, ptr.endianness)))
        } else {
            Err(Error::WontBeAbleToRead)
        },
    }
}

impl EntryValue {
    /// Decodes the value a typed handle points at, from the current bytes of
    /// the region. Pull-based and stateless: each call re-reads the bytes it
    /// is given and caches nothing.
    pub fn new(pointer: &DataPointer, region: &Vec<u8>) -> (r: Result<EntryValue, Error>)
        requires
            pointer.wf(),
        ensures
            match r {
                Ok(v) => spec_read_value(*pointer, region@) == Ok::<ValueModel, Error>(v@),
                Err(e) => spec_read_value(*pointer, region@) == Err::<ValueModel, Error>(e),
            },
    {
        match pointer {
            DataPointer::Boolean(ptr) => Ok(EntryValue::Boolean(ptr.read_u8(region)? == 0)),
            DataPointer::Byte(ptr) => Ok(EntryValue::Byte(ptr.read_u8(region)?)),
            DataPointer::Char(ptr) => Ok(EntryValue::Char(ptr.read_char(region)?)),
            DataPointer::Short(ptr) => Ok(EntryValue::Short(ptr.read_i16(region)?)),
            DataPointer::Int(ptr) => Ok(EntryValue::Int(ptr.read_i32(region)?)),
            DataPointer::Long(ptr) => Ok(EntryValue::Long(ptr.read_i64(region)?)),
            DataPointer::Float(ptr) => Ok(EntryValue::Float(ptr.read_f32_bits(region)?)),
            DataPointer::Double(ptr) => Ok(EntryValue::Double(ptr.read_f64_bits(region)?)),
            DataPointer::BooleanVec(ptr, length) => Ok(
                EntryValue::BooleanVec(ptr.read_booleans(*length, region)?),
            ),
            DataPointer::ByteVec(ptr, length) => Ok(
                EntryValue::String(ptr.read_string(*length, region)?),
            ),
            DataPointer::CharVec(ptr, length) => Ok(
                EntryValue::CharVec(ptr.read_n_chars(*length, region)?),
            ),
            DataPointer::ShortVec(ptr, length) => Ok(
                EntryValue::ShortVec(ptr.read_n_i16(*length, region)?),
            ),
            DataPointer::IntVec(ptr, length) => Ok(
                EntryValue::IntVec(ptr.read_n_i32(*length, region)?),
            ),
            DataPointer::LongVec(ptr, length) => Ok(
                EntryValue::LongVec(ptr.read_n_i64(*length, region)?),
            ),
            DataPointer::FloatVec(ptr, length) => Ok(
                EntryValue::FloatVec(ptr.read_n_f32_bits(*length, region)?),
            ),
            DataPointer::DoubleVec(ptr, length) => Ok(
                EntryValue::DoubleVec(ptr.read_n_f64_bits(*length, region)?),
            ),
        }
    }
}

} // verus!
