//! An entry whose value is fixed after publication: decoded once at decode
//! time, never re-read.

use vstd::prelude::*;

use crate::entry_value::{EntryValue, ValueModel};
use crate::perf_data::Unit;

verus! {

/// The model of a constant entry: its name, its decoded value, its unit.
pub ghost struct ConstantEntryModel {
    pub name: Seq<char>,
    pub value: ValueModel,
    pub unit: Unit,
}

/// An immutable snapshot of one published counter: name, value decoded once
/// during the initial decode, and unit. Nothing mutates it; repeated reads
/// always see the value captured at decode time.
#[derive(Debug)]
pub struct ConstantEntry {
    name: String,
    value: EntryValue,
    unit: Unit,
}

impl View for ConstantEntry {
    type V = ConstantEntryModel;

    closed spec fn view(&self) -> ConstantEntryModel {
        ConstantEntryModel { name: self.name@, value: self.value@, unit: self.unit }
    }
}

impl ConstantEntry {
    /// Captures a decoded value as a constant entry.
    pub fn new(name: String, value: EntryValue, unit: Unit) -> (r: ConstantEntry)
        ensures
            r@ == (ConstantEntryModel { name: name@, value: value@, unit }),
    {
        ConstantEntry { name, value, unit }
    }

    /// The entry's name.
    pub fn name(&self) -> (r: &String)
        ensures
            r@ == self@.name,
    {
        &self.name
    }

    /// The (constant) value of the entry: the one captured at decode time.
    pub fn value(&self) -> (r: &EntryValue)
        ensures
            r@ == self@.value,
    {
        &self.value
    }

    /// The unit of the entry as published by the virtual machine.
    pub fn unit(&self) -> (r: Unit)
        ensures
            r == self@.unit,
    {
        self.unit
    }
}

} // verus!
