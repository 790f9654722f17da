//! The monitor over one virtual machine's published region: the decoded
//! entries in on-disk order, queries over them, and the refresh of the
//! variable ones.

use vstd::prelude::*;

use crate::constant_entry::{ConstantEntry, ConstantEntryModel};
use crate::data_pointer::DataPointer;
use crate::entry_value::{spec_read_value, EntryValue};
use crate::errors::Error;
use crate::perf_data::perf_data_prolog::{spec_read_entries, PerfDataProlog};
use crate::perf_data::Unit;
use crate::variable_data_reference::VariableDataReference;
use crate::variable_entry::{VariableEntry, VariableEntryModel};

verus! {

/// The model of one decoded entry: a constant snapshot, or a variable entry
/// together with the live pointer it is refreshed from.
pub ghost enum EntryModel {
    Constant(ConstantEntryModel),
    Variable(DataPointer, VariableEntryModel),
}

impl EntryModel {
    /// The entry's name.
    pub open spec fn name(self) -> Seq<char> {
        match self {
            EntryModel::Constant(c) => c.name,
            EntryModel::Variable(_, v) => v.name,
        }
    }

    /// The entry's current decoded value.
    pub open spec fn value(self) -> crate::entry_value::ValueModel {
        match self {
            EntryModel::Constant(c) => c.value,
            EntryModel::Variable(_, v) => v.value,
        }
    }

    /// The entry's unit.
    pub open spec fn unit(self) -> Unit {
        match self {
            EntryModel::Constant(c) => c.unit,
            EntryModel::Variable(_, v) => v.unit,
        }
    }
}

/// One decoded entry: an immutable constant snapshot, or the live handle of
/// a variable entry — which of the two a counter is stands in the type, not
/// in a call convention.
#[derive(Debug)]
pub enum Entry {
    Constant(ConstantEntry),
    Variable(VariableDataReference),
}

impl View for Entry {
    type V = EntryModel;

    open spec fn view(&self) -> EntryModel {
        match self {
            Entry::Constant(c) => EntryModel::Constant(c@),
            Entry::Variable(v) => EntryModel::Variable(v.data_pointer, v.entry@),
        }
    }
}

impl Entry {
    /// A usable entry holds a well-formed pointer if it is variable.
    pub open spec fn wf(self) -> bool {
        match self {
            Entry::Constant(_) => true,
            Entry::Variable(v) => v.wf(),
        }
    }

    /// The entry's name.
    pub fn name(&self) -> (r: &String)
        ensures
            r@ == self@.name(),
    {
        match self {
            Entry::Constant(c) => c.name(),
            Entry::Variable(v) => v.name(),
        }
    }

    /// The entry's current decoded value: for a constant entry the snapshot
    /// captured at decode time, for a variable entry the most recently
    /// refreshed value.
    pub fn value(&self) -> (r: &EntryValue)
        ensures
            r@ == self@.value(),
    {
        match self {
            Entry::Constant(c) => c.value(),
            Entry::Variable(v) => v.entry.value(),
        }
    }

    /// The entry's unit.
    pub fn unit(&self) -> (r: Unit)
        ensures
            r == self@.unit(),
    {
        match self {
            Entry::Constant(c) => c.unit(),
            Entry::Variable(v) => v.entry.unit(),
        }
    }
}

/// Whether the filter, applied to some string holding the entry's name, can
/// return the verdict `b`: the verdict the narrowing actually obtained.
pub open spec fn accepted_at<F: Fn(&String) -> bool>(filter: F, m: EntryModel, b: bool) -> bool {
    exists|s: &String| s@ == m.name() && filter.ensures((s,), b)
}

/// The subsequence of `s` selected by the verdicts `keep`, in order.
pub open spec fn filter_by(s: Seq<EntryModel>, keep: Seq<bool>) -> Seq<EntryModel>
    decreases s.len(),
{
    if s.len() == 0 {
        Seq::empty()
    } else {
        filter_by(s.drop_last(), keep.drop_last()) + (if keep.last() {
            seq![s.last()]
        } else {
            Seq::empty()
        })
    }
}

/// The model of a monitor: the process id and the entries in their on-disk
/// discovery order.
pub ghost struct JvmMonitorModel {
    pub pid: u32,
    pub entries: Seq<EntryModel>,
}

/// A monitor over one virtual machine's published counters. It holds the
/// decoded constant entries and the live variable handles, in on-disk order;
/// the region's current bytes are handed in for decoding and for every
/// refresh by whoever owns the mapping.
#[derive(Debug)]
pub struct JvmMonitor {
    pid: u32,
    entries: Vec<Entry>,
}

impl View for JvmMonitor {
    type V = JvmMonitorModel;

    closed spec fn view(&self) -> JvmMonitorModel {
        JvmMonitorModel { pid: self.pid, entries: self.entries@.map_values(|en: Entry| en@) }
    }
}

impl JvmMonitor {
    /// Every variable entry of a usable monitor holds a well-formed pointer.
    pub closed spec fn wf(self) -> bool {
        forall|i: int| 0 <= i < self.entries@.len() ==> (#[trigger] self.entries@[i]).wf()
    }

    /// Decodes a monitor for process `pid` from the current bytes of its
    /// published region: validates the prolog and walks every entry record.
    /// Any failure fails the whole decode; a partially decoded monitor is
    /// never returned.
    pub fn decode(pid: u32, region: &Vec<u8>) -> (r: Result<JvmMonitor, Error>)
        ensures
            match r {
                Ok(m) => {
                    &&& spec_read_entries(region@) matches Ok(s) && m@.entries == s
                    &&& m@.pid == pid
                    &&& m.wf()
                },
                Err(e) => spec_read_entries(region@) == Err::<Seq<EntryModel>, Error>(e),
            },
    {
        let entries = PerfDataProlog::read_entries(region)?;
        Ok(JvmMonitor { pid, entries })
    }

    /// The process id of the virtual machine being monitored.
    pub fn pid(&self) -> (r: u32)
        ensures
            r == self@.pid,
    {
        self.pid
    }

    /// Narrows the monitor to the entries whose name satisfies the filter,
    /// keeping them in order with their decoded values unchanged and removing
    /// every other entry; intended to shrink the working set before repeated
    /// refresh cycles.
    pub fn only<F: Fn(&String) -> bool>(self, filter: F) -> (r: JvmMonitor)
        requires
            self.wf(),
            forall|name: &String| #[trigger] filter.requires((name,)),
        ensures
            r@.pid == self@.pid,
            r.wf(),
            exists|keep: Seq<bool>|
                {
                    &&& keep.len() == self@.entries.len()
                    &&& #[trigger] filter_by(self@.entries, keep) == r@.entries
                    &&& forall|i: int|
                        0 <= i < keep.len() ==> #[trigger] accepted_at(
                            filter,
                            self@.entries[i],
                            keep[i],
                        )
                },
    {
        let mut remaining = self;
        let ghost orig = remaining.entries@.map_values(|en: Entry| en@);
        let ghost mut processed: Seq<EntryModel> = Seq::empty();
        let ghost mut keep: Seq<bool> = Seq::empty();
        let mut kept: Vec<Entry> = Vec::new();
        let pid = remaining.pid;
        while remaining.entries.len() > 0
            invariant
                forall|name: &String| #[trigger] filter.requires((name,)),
                processed.len() == keep.len(),
                processed + remaining.entries@.map_values(|en: Entry| en@) =~= orig,
                kept@.map_values(|en: Entry| en@) == filter_by(processed, keep),
                forall|i: int|
                    0 <= i < keep.len() ==> #[trigger] accepted_at(filter, processed[i], keep[i]),
                forall|i: int| 0 <= i < kept@.len() ==> (#[trigger] kept@[i]).wf(),
                forall|i: int|
                    0 <= i < remaining.entries@.len() ==> (#[trigger] remaining.entries@[i]).wf(),
            decreases remaining.entries@.len(),
        {
            let en = remaining.entries.remove(0);
            let name_ref = en.name();
            let verdict = filter(name_ref);
            let ghost wit: &String = name_ref;
            let ghost old_processed = processed;
            let ghost old_keep = keep;
            let ghost old_kept = kept@.map_values(|x: Entry| x@);
            proof {
                processed = processed.push(en@);
                keep = keep.push(verdict);
                assert(processed.drop_last() =~= old_processed);
                assert(keep.drop_last() =~= old_keep);
                assert(filter_by(processed, keep) == filter_by(old_processed, old_keep) + (
                if verdict {
                    seq![en@]
                } else {
                    Seq::<EntryModel>::empty()
                }));
            }
            if verdict {
                kept.push(en);
                proof {
                    assert(kept@.map_values(|x: Entry| x@) =~= old_kept + seq![en@]);
                    assert(kept@.map_values(|x: Entry| x@) =~= filter_by(processed, keep));
                }
            } else {
                proof {
                    assert(filter_by(processed, keep) =~= old_kept);
                    assert(kept@.map_values(|x: Entry| x@) =~= filter_by(processed, keep));
                }
            }
            proof {
                assert forall|i: int| 0 <= i < keep.len() implies #[trigger] accepted_at(
                    filter,
                    processed[i],
                    keep[i],
                ) by {
                    if i == keep.len() - 1 {
                        assert(wit@ == processed[i].name() && filter.ensures((wit,), keep[i]));
                    } else {
                        assert(0 <= i < old_keep.len() && old_keep[i] == keep[i]
                            && old_processed[i] == processed[i]);
                        assert(accepted_at(filter, old_processed[i], old_keep[i]));
                    }
                }
            }
        }
        let r = JvmMonitor { pid, entries: kept };
        proof {
            assert(processed =~= orig);
            assert(r@.entries == filter_by(self@.entries, keep));
            assert(keep.len() == self@.entries.len());
            assert(forall|i: int|
                0 <= i < keep.len() ==> #[trigger] accepted_at(filter, self@.entries[i], keep[i]));
            assert(exists|k: Seq<bool>|
                {
                    &&& k.len() == self@.entries.len()
                    &&& #[trigger] filter_by(self@.entries, k) == r@.entries
                    &&& forall|i: int|
                        0 <= i < k.len() ==> #[trigger] accepted_at(filter, self@.entries[i], k[i])
                }) by {
                assert({
                    &&& keep.len() == self@.entries.len()
                    &&& filter_by(self@.entries, keep) == r@.entries
                    &&& forall|i: int|
                        0 <= i < keep.len() ==> #[trigger] accepted_at(
                            filter,
                            self@.entries[i],
                            keep[i],
                        )
                });
            }
        }
        r
    }

    /// Re-decodes every variable entry from the current bytes of the region
    /// and overwrites its stored value in place; constant entries are left
    /// untouched. A decode failure on any handle fails the whole refresh and
    /// leaves every entry as it was — no entry is silently skipped. Succeeds
    /// exactly when every variable handle decodes from the new bytes.
    pub fn refresh(&mut self, region: &Vec<u8>) -> (r: Result<Vec<&VariableEntry>, Error>)
        requires
            old(self).wf(),
        ensures
            final(self).wf(),
            final(self)@.pid == old(self)@.pid,
            match r {
                Ok(updated) => {
                    &&& updated@.map_values(|v: &VariableEntry| v@) == variable_models(
                        final(self)@.entries,
                    )
                    &&& final(self)@.entries.len() == old(self)@.entries.len()
                    &&& forall|i: int|
                        0 <= i < old(self)@.entries.len() ==> (match #[trigger] old(
                            self,
                        )@.entries[i] {
                            EntryModel::Constant(c) => final(self)@.entries[i]
                                == EntryModel::Constant(c),
                            EntryModel::Variable(dp, en) => spec_read_value(dp, region@) matches Ok(
                                val,
                            ) && final(self)@.entries[i] == EntryModel::Variable(
                                dp,
                                VariableEntryModel { value: val, ..en },
                            ),
                        })
                },
                Err(e) => {
                    &&& final(self)@ == old(self)@
                    &&& exists|i: int|
                        0 <= i < old(self)@.entries.len() && ((#[trigger] old(self)@.entries[i])
                            matches EntryModel::Variable(dp, _) && spec_read_value(dp, region@)
                            == Err::<crate::entry_value::ValueModel, Error>(e))
                },
            },
    {
        let ghost old_models = self@.entries;
        let n_entries = self.entries.len();
        let mut new_values: Vec<Option<EntryValue>> = Vec::new();
        let mut i: usize = 0;
        while i < n_entries
            invariant
                old(self).wf(),
                self.entries == old(self).entries,
                self.pid == old(self).pid,
                old_models == self@.entries,
                n_entries == self.entries@.len(),
                0 <= i <= n_entries,
                new_values@.len() == i,
                forall|j: int|
                    0 <= j < i ==> (match #[trigger] old_models[j] {
                        EntryModel::Constant(_) => new_values@[j] is None,
                        EntryModel::Variable(dp, _) => new_values@[j] matches Some(v)
                            && spec_read_value(dp, region@) == Ok::<
                            crate::entry_value::ValueModel,
                            Error,
                        >(v@),
                    }),
            decreases n_entries - i,
        {
            match &self.entries[i] {
                Entry::Constant(_) => {
                    new_values.push(Option::None);
                },
                Entry::Variable(vdr) => {
                    proof {
                        assert(self.entries@[i as int].wf());
                    }
                    match EntryValue::new(&vdr.data_pointer, region) {
                        Ok(val) => {
                            new_values.push(Option::Some(val));
                        },
                        Err(er) => {
                            proof {
                                assert(old(self)@.entries[i as int] matches EntryModel::Variable(
                                    dp,
                                    _,
                                ) && spec_read_value(dp, region@) == Err::<
                                    crate::entry_value::ValueModel,
                                    Error,
                                >(er));
                            }
                            return Err(er);
                        },
                    }
                },
            }
            i = i + 1;
        }
        let mut vals = new_values;
        let mut refreshed: Vec<Entry> = Vec::new();
        while self.entries.len() > 0
            invariant
                self.pid == old(self).pid,
                old_models == old(self)@.entries,
                refreshed@.len() + self.entries@.len() == old_models.len(),
                vals@.len() == self.entries@.len(),
                forall|j: int|
                    0 <= j < self.entries@.len() ==> (#[trigger] self.entries@[j])@
                        == old_models[refreshed@.len() + j] && self.entries@[j].wf(),
                forall|j: int|
                    0 <= j < vals@.len() ==> (match #[trigger] old_models[refreshed@.len() + j] {
                        EntryModel::Constant(_) => vals@[j] is None,
                        EntryModel::Variable(dp, _) => vals@[j] matches Some(v) && spec_read_value(
                            dp,
                            region@,
                        ) == Ok::<crate::entry_value::ValueModel, Error>(v@),
                    }),
                forall|j: int|
                    0 <= j < refreshed@.len() ==> (match #[trigger] old_models[j] {
                        EntryModel::Constant(c) => refreshed@[j]@ == EntryModel::Constant(c),
                        EntryModel::Variable(dp, en) => spec_read_value(dp, region@) matches Ok(val)
                            && refreshed@[j]@ == EntryModel::Variable(
                            dp,
                            VariableEntryModel { value: val, ..en },
                        ),
                    }) && refreshed@[j].wf(),
            decreases self.entries@.len(),
        {
            let ghost old_vals = vals@;
            let ghost old_remaining = self.entries@;
            let ghost old_refreshed = refreshed@;
            let ghost k = refreshed@.len() as int;
            let en = self.entries.remove(0);
            let val = vals.remove(0);
            proof {
                assert(en@ == old_models[k]);
            }
            match en {
                Entry::Constant(c) => {
                    refreshed.push(Entry::Constant(c));
                    proof {
                        assert(refreshed@[k]@ == old_models[k]);
                    }
                },
                Entry::Variable(mut vdr) => {
                    match val {
                        Option::Some(v) => {
                            proof {
                                assert(old_models[k] matches EntryModel::Variable(dp, _) && dp
                                    == vdr.data_pointer);
                                assert(spec_read_value(vdr.data_pointer, region@) == Ok::<
                                    crate::entry_value::ValueModel,
                                    Error,
                                >(v@));
                            }
                            vdr.entry.refresh_value(v);
                            refreshed.push(Entry::Variable(vdr));
                        },
                        Option::None => {
                            proof {
                                assert(false);
                            }
                            return Err(Error::WontBeAbleToRead);
                        },
                    }
                },
            }
            proof {
                assert(self.entries@ =~= old_remaining.drop_first());
                assert(vals@ =~= old_vals.drop_first());
                assert(refreshed@.len() == k + 1);
                assert forall|j: int| 0 <= j < self.entries@.len() implies (
                #[trigger] self.entries@[j])@ == old_models[refreshed@.len() + j]
                    && self.entries@[j].wf() by {
                    assert(self.entries@[j] == old_remaining[j + 1]);
                    assert(old_remaining[j + 1]@ == old_models[k + (j + 1)]);
                }
                assert forall|j: int| 0 <= j < vals@.len() implies (match #[trigger] old_models[refreshed@.len()
                    + j] {
                    EntryModel::Constant(_) => vals@[j] is None,
                    EntryModel::Variable(dp, _) => vals@[j] matches Some(v) && spec_read_value(
                        dp,
                        region@,
                    ) == Ok::<crate::entry_value::ValueModel, Error>(v@),
                }) by {
                    assert(vals@[j] == old_vals[j + 1]);
                    assert(refreshed@.len() + j == k + (j + 1));
                }
                assert forall|j: int| 0 <= j < refreshed@.len() implies (match #[trigger] old_models[j] {
                    EntryModel::Constant(c) => refreshed@[j]@ == EntryModel::Constant(c),
                    EntryModel::Variable(dp, en2) => spec_read_value(dp, region@) matches Ok(val2)
                        && refreshed@[j]@ == EntryModel::Variable(
                        dp,
                        VariableEntryModel { value: val2, ..en2 },
                    ),
                }) && refreshed@[j].wf() by {
                    if j < k {
                        assert(refreshed@[j] == old_refreshed[j]);
                    }
                }
            }
        }
        self.entries = refreshed;
        proof {
            assert(self@.entries =~= self.entries@.map_values(|en: Entry| en@));
            assert forall|i: int| 0 <= i < self.entries@.len() implies (
            #[trigger] self.entries@[i]).wf() by {
                let models_at = old_models[i];
                assert(self.entries@[i].wf());
            }
            assert(self.wf());
            assert forall|i: int| 0 <= i < old(self)@.entries.len() implies (match #[trigger] old(
                self,
            )@.entries[i] {
                EntryModel::Constant(c) => self@.entries[i] == EntryModel::Constant(c),
                EntryModel::Variable(dp, en2) => spec_read_value(dp, region@) matches Ok(val2)
                    && self@.entries[i] == EntryModel::Variable(
                    dp,
                    VariableEntryModel { value: val2, ..en2 },
                ),
            }) by {
                assert(self@.entries[i] == self.entries@[i]@);
                assert(old_models[i] == old(self)@.entries[i]);
            }
        }
        Ok(self.variables())
    }

    /// The entries published by the virtual machine, in on-disk order.
    pub fn entries(&self) -> (r: &Vec<Entry>)
        ensures
            r@.map_values(|en: Entry| en@) == self@.entries,
            forall|i: int| 0 <= i < r@.len() ==> (#[trigger] r@[i])@ == self@.entries[i],
    {
        proof {
            assert forall|i: int| 0 <= i < self.entries@.len() implies (#[trigger] self.entries@[i])@
                == self@.entries[i] by {}
        }
        &self.entries
    }

    /// The constant entries alone, in on-disk order.
    pub fn constants(&self) -> (r: Vec<&ConstantEntry>)
        ensures
            r@.map_values(|c: &ConstantEntry| c@) == constant_models(self@.entries),
    {
        let mut out: Vec<&ConstantEntry> = Vec::new();
        let n = self.entries.len();
        let mut i: usize = 0;
        while i < n
            invariant
                n == self.entries@.len(),
                0 <= i <= n,
                out@.map_values(|c: &ConstantEntry| c@) == constant_models(
                    self@.entries.take(i as int),
                ),
            decreases n - i,
        {
            proof {
                assert(self@.entries.take(i + 1).drop_last() =~= self@.entries.take(i as int));
                assert(self@.entries.take(i + 1).last() == self.entries@[i as int]@);
            }
            match &self.entries[i] {
                Entry::Constant(c) => {
                    out.push(c);
                    proof {
                        assert(out@.map_values(|c: &ConstantEntry| c@) =~= constant_models(
                            self@.entries.take(i + 1),
                        ));
                    }
                },
                Entry::Variable(_) => {
                    proof {
                        assert(out@.map_values(|c: &ConstantEntry| c@) =~= constant_models(
                            self@.entries.take(i + 1),
                        ));
                    }
                },
            }
            i = i + 1;
        }
        proof {
            assert(self@.entries.take(n as int) =~= self@.entries);
        }
        out
    }

    /// The variable entries alone, with their most recently decoded values,
    /// in on-disk order.
    pub fn variables(&self) -> (r: Vec<&VariableEntry>)
        ensures
            r@.map_values(|v: &VariableEntry| v@) == variable_models(self@.entries),
    {
        let mut out: Vec<&VariableEntry> = Vec::new();
        let n = self.entries.len();
        let mut i: usize = 0;
        while i < n
            invariant
                n == self.entries@.len(),
                0 <= i <= n,
                out@.map_values(|v: &VariableEntry| v@) == variable_models(
                    self@.entries.take(i as int),
                ),
            decreases n - i,
        {
            proof {
                assert(self@.entries.take(i + 1).drop_last() =~= self@.entries.take(i as int));
                assert(self@.entries.take(i + 1).last() == self.entries@[i as int]@);
            }
            match &self.entries[i] {
                Entry::Variable(v) => {
                    out.push(&v.entry);
                    proof {
                        assert(out@.map_values(|v: &VariableEntry| v@) =~= variable_models(
                            self@.entries.take(i + 1),
                        ));
                    }
                },
                Entry::Constant(_) => {
                    proof {
                        assert(out@.map_values(|v: &VariableEntry| v@) =~= variable_models(
                            self@.entries.take(i + 1),
                        ));
                    }
                },
            }
            i = i + 1;
        }
        proof {
            assert(self@.entries.take(n as int) =~= self@.entries);
        }
        out
    }
}

/// The models of the constant entries among `s`, in order.
pub open spec fn constant_models(s: Seq<EntryModel>) -> Seq<ConstantEntryModel>
    decreases s.len(),
{
    if s.len() == 0 {
        Seq::empty()
    } else {
        constant_models(s.drop_last()) + (match s.last() {
            EntryModel::Constant(c) => seq![c],
            EntryModel::Variable(_, _) => Seq::empty(),
        })
    }
}

/// The models of the variable entries among `s`, in order.
pub open spec fn variable_models(s: Seq<EntryModel>) -> Seq<VariableEntryModel>
    decreases s.len(),
{
    if s.len() == 0 {
        Seq::empty()
    } else {
        variable_models(s.drop_last()) + (match s.last() {
            EntryModel::Variable(_, v) => seq![v],
            EntryModel::Constant(_) => Seq::empty(),
        })
    }
}

} // verus!
