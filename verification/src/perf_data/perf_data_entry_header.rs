//! The fixed portion of one entry record: five 32-bit fields and four tag
//! bytes, followed by the record's name bytes and its data.
//!
//! Record layout, offsets relative to the record start:
//! byte 0, record length; byte 4, name offset; byte 8, vector length
//! (zero means scalar); byte 12, primitive type tag; byte 13, flags;
//! byte 14, unit tag; byte 15, variability tag; byte 16, data offset.
//! The name occupies the span between the name offset and the data offset.

use vstd::prelude::*;

use crate::codec::{i32_at, text_at, Endianness};
use crate::constant_entry::{ConstantEntry, ConstantEntryModel};
use crate::data_pointer::DataPointer;
use crate::entry_value::{spec_read_value, EntryValue};
use crate::errors::Error;
use crate::perf_data::data_type::{spec_data_type_of_tag, DataType};
use crate::perf_data::unit::{spec_unit_of_tag, Unit};
use crate::perf_data::variability::{spec_variability_of_tag, Variability};
use crate::safish_pointer::{Element, SafishPointer};
use crate::variable_data_reference::VariableDataReference;
use crate::variable_entry::VariableEntryModel;

verus! {

/// The byte length of the fixed portion of an entry record.
pub const ENTRY_HEADER_SIZE: usize = 20;

/// The decoded fixed portion of one entry record. The offsets are as the
/// record declares them, relative to the record's start; nothing here is
/// validated yet — every use of an offset is bounds-checked at that use.
#[derive(Debug, Clone, Copy, PartialEq, Eq, Structural)]
pub struct PerfDataEntryHeader {
    /// Total record length in bytes, used to find the next record.
    pub entry_length: i32,
    /// Offset of the name bytes, relative to the record start.
    pub name_offset: i32,
    /// Number of vector elements; zero means a scalar.
    pub vector_length: i32,
    /// The primitive kind of the data.
    pub data_type: DataType,
    /// Miscellaneous attribute flags, kept as the raw byte.
    pub flags: u8,
    /// The declared unit of measure.
    pub data_units: Unit,
    /// Whether the value is constant, monotonic or variable.
    pub data_variability: Variability,
    /// Offset of the data, relative to the record start.
    pub data_offset: i32,
}

/// What decoding the fixed portion at `off` of `r` yields: the header's
/// fields, read in the declared byte order; a type tag outside the eight
/// kinds is a conversion failure.
pub open spec fn spec_read_header(r: Seq<u8>, off: int, e: Endianness) -> Result<
    PerfDataEntryHeader,
    Error,
> {
    if off + ENTRY_HEADER_SIZE > r.len() {
        Err(Error::WontBeAbleToRead)
    } else {
        match spec_data_type_of_tag(r[off + 12]) {
            Option::None => Err(Error::ConversionError),
            Option::Some(dt) => Ok(
                PerfDataEntryHeader {
                    entry_length: i32_at(r, off, e),
                    name_offset: i32_at(r, off + 4, e),
                    vector_length: i32_at(r, off + 8, e),
                    data_type: dt,
                    flags: r[off + 13],
                    data_units: spec_unit_of_tag(r[off + 14]),
                    data_variability: spec_variability_of_tag(r[off + 15]),
                    data_offset: i32_at(r, off + 16, e),
                },
            ),
        }
    }
}

/// The name the record declares: the text between its name offset and its
/// data offset, bounds-checked against the region.
pub open spec fn spec_entry_name(h: PerfDataEntryHeader, p: SafishPointer, r: Seq<u8>) -> Result<
    Seq<char>,
    Error,
> {
    if h.name_offset < 0 || h.data_offset < 0 || h.vector_length < 0 {
        Err(Error::WontBeAbleToRead)
    } else {
        match p.spec_add(h.name_offset as int) {
            Err(e) => Err(e),
            Ok(np) => {
                let cnt = h.data_offset - h.name_offset;
                if cnt < 0 {
                    Err(Error::WontBeAbleToRead)
                } else if !np.read_ok(cnt, r.len() as int) {
                    Err(Error::WontBeAbleToRead)
                } else {
                    Ok(text_at(r, np.offset as int, cnt))
                }
            },
        }
    }
}

/// The typed handle over the record's data: the record cursor advanced to
/// the data offset and bound to the declared kind, scalar or vector.
pub open spec fn spec_entry_data_pointer(h: PerfDataEntryHeader, p: SafishPointer) -> Result<
    DataPointer,
    Error,
> {
    match p.spec_add(h.data_offset as int) {
        Err(e) => Err(e),
        Ok(dp) => if h.vector_length == 0 {
            DataPointer::spec_new_scalar(h.data_type, dp)
        } else {
            DataPointer::spec_new_vector(h.data_type, h.vector_length as int, dp)
        },
    }
}

/// What decoding the record as a constant entry yields: its name, its value
/// decoded once from the current bytes, and its unit — or the first failure
/// along the way; never a partial entry.
pub open spec fn spec_read_constant_entry(
    h: PerfDataEntryHeader,
    p: SafishPointer,
    r: Seq<u8>,
) -> Result<ConstantEntryModel, Error> {
    match spec_entry_name(h, p, r) {
        Err(e) => Err(e),
        Ok(name) => match spec_entry_data_pointer(h, p) {
            Err(e) => Err(e),
            Ok(dp) => match spec_read_value(dp, r) {
                Err(e) => Err(e),
                Ok(val) => Ok(ConstantEntryModel { name, value: val, unit: h.data_units }),
            },
        },
    }
}

/// What decoding the record as a variable entry yields: the live data
/// pointer to keep, and the entry with its first decoded value.
pub open spec fn spec_read_variable_entry(
    h: PerfDataEntryHeader,
    p: SafishPointer,
    r: Seq<u8>,
) -> Result<(DataPointer, VariableEntryModel), Error> {
    match spec_entry_name(h, p, r) {
        Err(e) => Err(e),
        Ok(name) => match spec_entry_data_pointer(h, p) {
            Err(e) => Err(e),
            Ok(dp) => match spec_read_value(dp, r) {
                Err(e) => Err(e),
                Ok(val) => Ok(
                    (
                        dp,
                        VariableEntryModel {
                            name,
                            value: val,
                            variability: h.data_variability,
                            unit: h.data_units,
                        },
                    ),
                ),
            },
        },
    }
}

impl PerfDataEntryHeader {
    /// Decodes the fixed portion of the record under the cursor.
    pub fn read(ptr: &SafishPointer, region: &Vec<u8>) -> (r: Result<PerfDataEntryHeader, Error>)
        requires
            ptr.wf(),
            ptr.elem == Element::Byte,
        ensures
            r == (if !ptr.room_for(ENTRY_HEADER_SIZE as int) {
                Err::<PerfDataEntryHeader, Error>(Error::WontBeAbleToRead)
            } else {
                spec_read_header(region@, ptr.offset as int, ptr.endianness)
            }),
    {
        let n = region.len();
        if ptr.max_byte_offset < ENTRY_HEADER_SIZE {
            return Err(Error::WontBeAbleToRead);
        }
        if ptr.offset > n || ENTRY_HEADER_SIZE > n - ptr.offset {
            return Err(Error::WontBeAbleToRead);
        }
        let tag = region[ptr.offset + 12];
        let data_type = match DataType::from_tag(tag) {
            Option::Some(dt) => dt,
            Option::None => {
                return Err(Error::ConversionError);
            },
        };
        let e = ptr.endianness;
        Ok(
            PerfDataEntryHeader {
                entry_length: read_i32_field(region, ptr.offset, e),
                name_offset: read_i32_field(region, ptr.offset + 4, e),
                vector_length: read_i32_field(region, ptr.offset + 8, e),
                data_type,
                flags: region[ptr.offset + 13],
                data_units: Unit::from_tag(region[ptr.offset + 14]),
                data_variability: Variability::from_tag(region[ptr.offset + 15]),
                data_offset: read_i32_field(region, ptr.offset + 16, e),
            },
        )
    }

    /// Whether the record's value changes after publication, so that the
    /// entry must be kept as a live handle and re-decoded on refresh.
    pub fn is_variable_entry(&self) -> (r: bool)
        ensures
            r == (self.data_variability == Variability::Monotonic || self.data_variability
                == Variability::Variable),
    {
        self.data_variability == Variability::Monotonic || self.data_variability
            == Variability::Variable
    }

    /// The total record length in bytes, used to find the next record.
    pub fn entry_length(&self) -> (r: i32)
        ensures
            r == self.entry_length,
    {
        self.entry_length
    }

    /// Reads the record's name: the text between the name offset and the
    /// data offset, from a cursor already advanced to the name bytes.
    pub fn read_name(&self, ptr: SafishPointer, region: &Vec<u8>) -> (r: Result<String, Error>)
        requires
            ptr.wf(),
            ptr.elem == Element::Byte,
        ensures
            match r {
                Ok(s) => {
                    &&& self.name_offset <= self.data_offset
                    &&& ptr.read_ok(self.data_offset - self.name_offset, region@.len() as int)
                    &&& s@ == text_at(
                        region@,
                        ptr.offset as int,
                        self.data_offset - self.name_offset,
                    )
                },
                Err(e) => {
                    &&& (self.data_offset < self.name_offset || !ptr.read_ok(
                        self.data_offset - self.name_offset,
                        region@.len() as int,
                    ))
                    &&& e == Error::WontBeAbleToRead
                },
            },
    {
        let span: i64 = self.data_offset as i64 - self.name_offset as i64;
        if span < 0 {
            return Err(Error::WontBeAbleToRead);
        }
        ptr.read_string(span as usize, region)
    }

    /// Decodes the record as a constant entry: reads the name, binds the
    /// typed handle over the data, decodes the value once and discards the
    /// handle. Fails as a whole on the first failure.
    pub fn read_constant_entry(&self, entry_ptr: SafishPointer, region: &Vec<u8>) -> (r: Result<
        ConstantEntry,
        Error,
    >)
        requires
            entry_ptr.wf(),
            entry_ptr.elem == Element::Byte,
        ensures
            match r {
                Ok(c) => spec_read_constant_entry(*self, entry_ptr, region@) == Ok::<
                    ConstantEntryModel,
                    Error,
                >(c@),
                Err(e) => spec_read_constant_entry(*self, entry_ptr, region@) == Err::<
                    ConstantEntryModel,
                    Error,
                >(e),
            },
    {
        if self.name_offset < 0 || self.data_offset < 0 || self.vector_length < 0 {
            return Err(Error::WontBeAbleToRead);
        }
        let name_ptr = entry_ptr.add(self.name_offset as usize)?;
        let name = self.read_name(name_ptr, region)?;
        let data_ptr = entry_ptr.add(self.data_offset as usize)?;
        let data_pointer = if self.vector_length == 0 {
            DataPointer::new_scalar(&self.data_type, data_ptr)?
        } else {
            DataPointer::new_vector(&self.data_type, self.vector_length as usize, data_ptr)?
        };
        let value = EntryValue::new(&data_pointer, region)?;
        Ok(ConstantEntry::new(name, value, self.data_units))
    }

    /// Decodes the record as a variable entry: reads the name, binds the
    /// typed handle over the data, decodes the first value and keeps the
    /// handle live for later refreshes.
    pub fn read_variable_entry(&self, entry_ptr: SafishPointer, region: &Vec<u8>) -> (r: Result<
        VariableDataReference,
        Error,
    >)
        requires
            entry_ptr.wf(),
            entry_ptr.elem == Element::Byte,
        ensures
            match r {
                Ok(v) => spec_read_variable_entry(*self, entry_ptr, region@) matches Ok(m)
                    && v.data_pointer == m.0 && v.entry@ == m.1 && v.wf(),
                Err(e) => spec_read_variable_entry(*self, entry_ptr, region@) == Err::<
                    (DataPointer, VariableEntryModel),
                    Error,
                >(e),
            },
    {
        if self.name_offset < 0 || self.data_offset < 0 || self.vector_length < 0 {
            return Err(Error::WontBeAbleToRead);
        }
        let variability = self.data_variability;
        let unit = self.data_units;
        let name_ptr = entry_ptr.add(self.name_offset as usize)?;
        let name = self.read_name(name_ptr, region)?;
        let data_ptr = entry_ptr.add(self.data_offset as usize)?;
        let data_pointer = if self.vector_length == 0 {
            DataPointer::new_scalar(&self.data_type, data_ptr)?
        } else {
            DataPointer::new_vector(&self.data_type, self.vector_length as usize, data_ptr)?
        };
        VariableDataReference::new(name, data_pointer, variability, unit, region)
    }
}

/// Reads one signed 32-bit header field.
fn read_i32_field(region: &Vec<u8>, offset: usize, e: Endianness) -> (v: i32)
    requires
        offset + 4 <= region@.len(),
    ensures
        v == i32_at(region@, offset as int, e),
{
    let raw = crate::codec::read_u32_at(region, offset, e);
    #[verifier::truncate]
    (raw as i32)
}

} // verus!
