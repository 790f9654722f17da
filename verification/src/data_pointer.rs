//! The typed handle over one value's bytes: a primitive kind, scalar or
//! vector, bound to a cursor positioned at the value.

use vstd::prelude::*;

use crate::errors::Error;
use crate::perf_data::DataType;
use crate::safish_pointer::{Element, SafishPointer};

verus! {

/// A cursor bound to the primitive kind the record declared for its data:
/// one case per kind, scalar and vector, so that decoding dispatches totally
/// and a new on-disk kind is a compile-time-checked change. A vector case
/// carries the declared element count. The floating cases keep the cursor at
/// the byte-buffer element, since their bytes are decoded as bit patterns.
#[derive(Debug, Clone, Copy, PartialEq, Eq, Structural)]
pub enum DataPointer {
    Boolean(SafishPointer),
    Byte(SafishPointer),
    Char(SafishPointer),
    Short(SafishPointer),
    Int(SafishPointer),
    Long(SafishPointer),
    Float(SafishPointer),
    Double(SafishPointer),
    BooleanVec(SafishPointer, usize),
    ByteVec(SafishPointer, usize),
    CharVec(SafishPointer, usize),
    ShortVec(SafishPointer, usize),
    IntVec(SafishPointer, usize),
    LongVec(SafishPointer, usize),
    FloatVec(SafishPointer, usize),
    DoubleVec(SafishPointer, usize),
}

impl DataPointer {
    /// The cursor held by this handle.
    pub open spec fn ptr(self) -> SafishPointer {
        match self {
            DataPointer::Boolean(p) => p,
            DataPointer::Byte(p) => p,
            DataPointer::Char(p) => p,
            DataPointer::Short(p) => p,
            DataPointer::Int(p) => p,
            DataPointer::Long(p) => p,
            DataPointer::Float(p) => p,
            DataPointer::Double(p) => p,
            DataPointer::BooleanVec(p, _) => p,
            DataPointer::ByteVec(p, _) => p,
            DataPointer::CharVec(p, _) => p,
            DataPointer::ShortVec(p, _) => p,
            DataPointer::IntVec(p, _) => p,
            DataPointer::LongVec(p, _) => p,
            DataPointer::FloatVec(p, _) => p,
            DataPointer::DoubleVec(p, _) => p,
        }
    }

    /// The element type the cursor of each case must be typed at.
    pub open spec fn expected_elem(self) -> Element {
        match self {
            DataPointer::Boolean(_) => Element::Byte,
            DataPointer::Byte(_) => Element::Byte,
            DataPointer::Char(_) => Element::Char,
            DataPointer::Short(_) => Element::Short,
            DataPointer::Int(_) => Element::Int,
            DataPointer::Long(_) => Element::Long,
            DataPointer::Float(_) => Element::Float,
            DataPointer::Double(_) => Element::Double,
            DataPointer::BooleanVec(_, _) => Element::Byte,
            DataPointer::ByteVec(_, _) => Element::Byte,
            DataPointer::CharVec(_, _) => Element::Char,
            DataPointer::ShortVec(_, _) => Element::Short,
            DataPointer::IntVec(_, _) => Element::Int,
            DataPointer::LongVec(_, _) => Element::Long,
            DataPointer::FloatVec(_, _) => Element::Float,
            DataPointer::DoubleVec(_, _) => Element::Double,
        }
    }

    /// A well-formed handle holds a well-formed cursor, typed at the element
    /// its case calls for.
    pub open spec fn wf(self) -> bool {
        self.ptr().wf() && self.ptr().elem == self.expected_elem()
    }

    /// What `new_scalar` returns: the scalar case for the declared kind, with
    /// the byte cursor reinterpreted at the kind's element type, exactly when
    /// that reinterpretation succeeds.
    pub open spec fn spec_new_scalar(data_type: DataType, ptr: SafishPointer) -> Result<
        DataPointer,
        Error,
    > {
        match data_type {
            DataType::Boolean => Ok(DataPointer::Boolean(ptr)),
            DataType::Byte => Ok(DataPointer::Byte(ptr)),
            DataType::Char => match ptr.spec_convert(Element::Char) {
                Ok(p) => Ok(DataPointer::Char(p)),
                Err(e) => Err(e),
            },
            DataType::Short => match ptr.spec_convert(Element::Short) {
                Ok(p) => Ok(DataPointer::Short(p)),
                Err(e) => Err(e),
            },
            DataType::Int => match ptr.spec_convert(Element::Int) {
                Ok(p) => Ok(DataPointer::Int(p)),
                Err(e) => Err(e),
            },
            DataType::Long => match ptr.spec_convert(Element::Long) {
                Ok(p) => Ok(DataPointer::Long(p)),
                Err(e) => Err(e),
            },
            DataType::Float => match ptr.spec_convert(Element::Float) {
                Ok(p) => Ok(DataPointer::Float(p)),
                Err(e) => Err(e),
            },
            DataType::Double => match ptr.spec_convert(Element::Double) {
                Ok(p) => Ok(DataPointer::Double(p)),
                Err(e) => Err(e),
            },
        }
    }

    /// What `new_vector` returns, with the declared element count kept.
    pub open spec fn spec_new_vector(data_type: DataType, length: int, ptr: SafishPointer) -> Result<
        DataPointer,
        Error,
    > {
        match data_type {
            DataType::Boolean => Ok(DataPointer::BooleanVec(ptr, length as usize)),
            DataType::Byte => Ok(DataPointer::ByteVec(ptr, length as usize)),
            DataType::Char => match ptr.spec_convert(Element::Char) {
                Ok(p) => Ok(DataPointer::CharVec(p, length as usize)),
                Err(e) => Err(e),
            },
            DataType::Short => match ptr.spec_convert(Element::Short) {
                Ok(p) => Ok(DataPointer::ShortVec(p, length as usize)),
                Err(e) => Err(e),
            },
            DataType::Int => match ptr.spec_convert(Element::Int) {
                Ok(p) => Ok(DataPointer::IntVec(p, length as usize)),
                Err(e) => Err(e),
            },
            DataType::Long => match ptr.spec_convert(Element::Long) {
                Ok(p) => Ok(DataPointer::LongVec(p, length as usize)),
                Err(e) => Err(e),
            },
            DataType::Float => match ptr.spec_convert(Element::Float) {
                Ok(p) => Ok(DataPointer::FloatVec(p, length as usize)),
                Err(e) => Err(e),
            },
            DataType::Double => match ptr.spec_convert(Element::Double) {
                Ok(p) => Ok(DataPointer::DoubleVec(p, length as usize)),
                Err(e) => Err(e),
            },
        }
    }

    /// Binds a byte cursor to the scalar of the declared kind, reinterpreting
    /// it at the kind's element type; fails exactly as the reinterpretation
    /// does, with the bounds and alignment failures distinct.
    pub fn new_scalar(data_type: &DataType, ptr: SafishPointer) -> (r: Result<DataPointer, Error>)
        requires
            ptr.wf(),
            ptr.elem == Element::Byte,
        ensures
            r == DataPointer::spec_new_scalar(*data_type, ptr),
            r matches Ok(d) ==> d.wf(),
    {
        match data_type {
            DataType::Boolean => Ok(DataPointer::Boolean(ptr)),
            DataType::Byte => Ok(DataPointer::Byte(ptr)),
            DataType::Char => Ok(DataPointer::Char(ptr.convert(Element::Char)?)),
            DataType::Short => Ok(DataPointer::Short(ptr.convert(Element::Short)?)),
            DataType::Int => Ok(DataPointer::Int(ptr.convert(Element::Int)?)),
            DataType::Long => Ok(DataPointer::Long(ptr.convert(Element::Long)?)),
            DataType::Float => Ok(DataPointer::Float(ptr.convert(Element::Float)?)),
            DataType::Double => Ok(DataPointer::Double(ptr.convert(Element::Double)?)),
        }
    }

    /// Binds a byte cursor to a vector of the declared kind and element
    /// count, reinterpreting the cursor at the kind's element type.
    pub fn new_vector(data_type: &DataType, length: usize, ptr: SafishPointer) -> (r: Result<
        DataPointer,
        Error,
    >)
        requires
            ptr.wf(),
            ptr.elem == Element::Byte,
        ensures
            r == DataPointer::spec_new_vector(*data_type, length as int, ptr),
            r matches Ok(d) ==> d.wf(),
    {
        match data_type {
            DataType::Boolean => Ok(DataPointer::BooleanVec(ptr, length)),
            DataType::Byte => Ok(DataPointer::ByteVec(ptr, length)),
            DataType::Char => Ok(DataPointer::CharVec(ptr.convert(Element::Char)?, length)),
            DataType::Short => Ok(DataPointer::ShortVec(ptr.convert(Element::Short)?, length)),
            DataType::Int => Ok(DataPointer::IntVec(ptr.convert(Element::Int)?, length)),
            DataType::Long => Ok(DataPointer::LongVec(ptr.convert(Element::Long)?, length)),
            DataType::Float => Ok(DataPointer::FloatVec(ptr.convert(Element::Float)?, length)),
            DataType::Double => Ok(DataPointer::DoubleVec(ptr.convert(Element::Double)?, length)),
        }
    }
}

} // verus!
