//! The live handle behind a variable entry: the typed pointer into the
//! region, paired with the entry whose value it refreshes.

use vstd::prelude::*;

use crate::data_pointer::DataPointer;
use crate::entry_value::{spec_read_value, EntryValue, ValueModel};
use crate::errors::Error;
use crate::perf_data::{Unit, Variability};
use crate::variable_entry::{VariableEntry, VariableEntryModel};

verus! {

/// A pointer into the region for one variable counter, kept live for the
/// monitor's lifetime. Its entry can be re-decoded from the current bytes at
/// any time; the decoded value is written into the entry in place.
#[derive(Debug)]
pub struct VariableDataReference {
    /// The typed handle over the counter's bytes.
    pub data_pointer: DataPointer,
    /// The entry holding the most recently decoded value.
    pub entry: VariableEntry,
}

impl VariableDataReference {
    /// The handle is usable when its pointer is well-formed.
    pub open spec fn wf(self) -> bool {
        self.data_pointer.wf()
    }

    /// Creates the handle, decoding the entry's first value from the current
    /// bytes of the region; fails exactly as that first decode does.
    pub fn new(
        name: String,
        data_pointer: DataPointer,
        variability: Variability,
        unit: Unit,
        region: &Vec<u8>,
    ) -> (r: Result<VariableDataReference, Error>)
        requires
            data_pointer.wf(),
        ensures
            match r {
                Ok(v) => {
                    &&& spec_read_value(data_pointer, region@) matches Ok(val) && v.entry@ == (
                    VariableEntryModel { name: name@, value: val, variability, unit })
                    &&& v.data_pointer == data_pointer
                    &&& v.wf()
                },
                Err(e) => spec_read_value(data_pointer, region@) == Err::<ValueModel, Error>(e),
            },
    {
        let value = EntryValue::new(&data_pointer, region)?;
        let entry = VariableEntry::new(name, value, variability, unit);
        Ok(VariableDataReference { data_pointer, entry })
    }

    /// The name of the entry behind this handle.
    pub fn name(&self) -> (r: &String)
        ensures
            r@ == self.entry@.name,
    {
        self.entry.name()
    }

    /// Re-decodes the entry's value from the current bytes of the region and
    /// overwrites the stored value with it; what the entry then holds depends
    /// on the new bytes alone, not on any earlier read. On failure nothing is
    /// changed.
    pub fn refresh_entry(&mut self, region: &Vec<u8>) -> (r: Result<&VariableEntry, Error>)
        requires
            old(self).wf(),
        ensures
            final(self).data_pointer == old(self).data_pointer,
            final(self).wf(),
            match r {
                Ok(en) => {
                    &&& spec_read_value(old(self).data_pointer, region@) matches Ok(val)
                        && final(self).entry@ == (VariableEntryModel {
                        value: val,
                        ..old(self).entry@
                    })
                    &&& en@ == final(self).entry@
                },
                Err(e) => {
                    &&& spec_read_value(old(self).data_pointer, region@) == Err::<
                        ValueModel,
                        Error,
                    >(e)
                    &&& final(self).entry@ == old(self).entry@
                },
            },
    {
        let value = EntryValue::new(&self.data_pointer, region)?;
        self.entry.refresh_value(value);
        Ok(&self.entry)
    }
}

} // verus!
