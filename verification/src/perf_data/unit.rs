//! The unit tag of an entry record.

use vstd::prelude::*;

verus! {

/// The unit of measure a record declares for its value. The tag bytes follow
/// the publishing runtime's unit enumeration; a byte outside it decodes to
/// `Invalid`, which the original enumeration reserves for that purpose.
#[derive(Debug, Clone, Copy, PartialEq, Eq, Structural)]
pub enum Unit {
    Invalid,
    NoUnit,
    Bytes,
    Ticks,
    Events,
    String,
    Hertz,
}

/// The unit a tag byte declares.
pub open spec fn spec_unit_of_tag(b: u8) -> Unit {
    if b == 1 {
        Unit::NoUnit
    } else if b == 2 {
        Unit::Bytes
    } else if b == 3 {
        Unit::Ticks
    } else if b == 4 {
        Unit::Events
    } else if b == 5 {
        Unit::String
    } else if b == 6 {
        Unit::Hertz
    } else {
        Unit::Invalid
    }
}

impl Unit {
    /// Decodes a tag byte into the unit it declares.
    pub fn from_tag(b: u8) -> (r: Unit)
        ensures
            r == spec_unit_of_tag(b),
    {
        if b == 1 {
            Unit::NoUnit
        } else if b == 2 {
            Unit::Bytes
        } else if b == 3 {
            Unit::Ticks
        } else if b == 4 {
            Unit::Events
        } else if b == 5 {
            Unit::String
        } else if b == 6 {
            Unit::Hertz
        } else {
            Unit::Invalid
        }
    }
}

} // verus!
