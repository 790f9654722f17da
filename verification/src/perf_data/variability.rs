//! The variability tag of an entry record: whether the published value is
//! fixed after publication, only ever grows, or moves freely.

use vstd::prelude::*;

verus! {

/// How a published value may change after publication. It decides whether an
/// entry is decoded once (constant) or kept as a live handle and re-decoded
/// on every refresh (monotonic or variable).
#[derive(Debug, Clone, Copy, PartialEq, Eq, Structural)]
pub enum Variability {
    Invalid,
    Constant,
    Monotonic,
    Variable,
}

/// The variability a tag byte declares.
pub open spec fn spec_variability_of_tag(b: u8) -> Variability {
    if b == 1 {
        Variability::Constant
    } else if b == 2 {
        Variability::Monotonic
    } else if b == 3 {
        Variability::Variable
    } else {
        Variability::Invalid
    }
}

impl Variability {
    /// Decodes a tag byte into the variability it declares.
    pub fn from_tag(b: u8) -> (r: Variability)
        ensures
            r == spec_variability_of_tag(b),
    {
        if b == 1 {
            Variability::Constant
        } else if b == 2 {
            Variability::Monotonic
        } else if b == 3 {
            Variability::Variable
        } else {
            Variability::Invalid
        }
    }
}

} // verus!
