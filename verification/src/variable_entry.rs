//! An entry whose value changes after publication, monotonically or freely:
//! an explicitly mutable cell, distinct from a constant entry at the type
//! level, overwritten on every refresh.

use vstd::prelude::*;

use crate::entry_value::{EntryValue, ValueModel};
use crate::perf_data::{Unit, Variability};

verus! {

/// The model of a variable entry: its name, its most recently decoded value,
/// its variability and its unit.
pub ghost struct VariableEntryModel {
    pub name: Seq<char>,
    pub value: ValueModel,
    pub variability: Variability,
    pub unit: Unit,
}

/// One published counter whose value moves under the reader: the name and
/// tags are fixed at decode time, the value is the most recently decoded one
/// and is replaced in place by every refresh.
#[derive(Debug)]
pub struct VariableEntry {
    name: String,
    value: EntryValue,
    variability: Variability,
    unit: Unit,
}

impl View for VariableEntry {
    type V = VariableEntryModel;

    closed spec fn view(&self) -> VariableEntryModel {
        VariableEntryModel {
            name: self.name@,
            value: self.value@,
            variability: self.variability,
            unit: self.unit,
        }
    }
}

impl VariableEntry {
    /// Creates the entry with its first decoded value.
    pub fn new(name: String, value: EntryValue, variability: Variability, unit: Unit) -> (r:
        VariableEntry)
        ensures
            r@ == (VariableEntryModel { name: name@, value: value@, variability, unit }),
    {
        VariableEntry { name, value, variability, unit }
    }

    /// The entry's name.
    pub fn name(&self) -> (r: &String)
        ensures
            r@ == self@.name,
    {
        &self.name
    }

    /// The most recently decoded value of the entry.
    pub fn value(&self) -> (r: &EntryValue)
        ensures
            r@ == self@.value,
    {
        &self.value
    }

    /// The variability of the entry as published by the virtual machine.
    pub fn variability(&self) -> (r: Variability)
        ensures
            r == self@.variability,
    {
        self.variability
    }

    /// The unit of the entry as published by the virtual machine.
    pub fn unit(&self) -> (r: Unit)
        ensures
            r == self@.unit,
    {
        self.unit
    }

    /// Replaces the stored value with a freshly decoded one; the new value
    /// alone decides what the entry holds afterwards, whatever it held before.
    pub fn refresh_value(&mut self, value: EntryValue)
        ensures
            final(self)@ == (VariableEntryModel { value: value@, ..old(self)@ }),
    {
        self.value = value;
    }
}

} // verus!
