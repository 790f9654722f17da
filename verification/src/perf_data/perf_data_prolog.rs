//! The prolog at the start of the published region, and the walk over the
//! entry records that follow it.
//!
//! Prolog layout: bytes 0..4, the magic number, always stored big-endian so
//! a reader can recognize the file before it knows the byte order; byte 4,
//! the byte order (zero big-endian, one little-endian); byte 5, the major
//! version; byte 6, the minor version; bytes 24..28, the offset of the first
//! entry record, in the declared byte order. The remaining bytes are mutable
//! bookkeeping of the publisher and are not interpreted here.

use vstd::prelude::*;

use crate::codec::{i32_at, u32_of, Endianness};
use crate::errors::Error;
use crate::jvm_monitor::{Entry, EntryModel};
use crate::perf_data::perf_data_entry_header::{
    spec_read_constant_entry, spec_read_header, spec_read_variable_entry, PerfDataEntryHeader,
    ENTRY_HEADER_SIZE,
};
use crate::safish_pointer::{Element, SafishPointer};

verus! {

/// The byte length of the prolog; a region shorter than this holds no data.
pub const PROLOG_SIZE: usize = 32;

/// The magic number every published region starts with.
pub const MAGIC_NUMBER: u32 = 0xcafe_c0c0;

/// The one major version this decoder understands.
pub const SUPPORTED_MAJOR_VERSION: u8 = 2;

/// The one minor version this decoder understands.
pub const SUPPORTED_MINOR_VERSION: u8 = 0;

/// The decoded, validated prolog: magic number, declared byte order,
/// version, and the offset of the first entry record. Immutable after
/// decode; the declared byte order governs every later multi-byte read.
#[derive(Debug, Clone, Copy, PartialEq, Eq, Structural)]
pub struct PerfDataProlog {
    /// The magic number, as read.
    pub magic: u32,
    /// The byte order declared for the rest of the region.
    pub byte_order: Endianness,
    /// The major layout version; only the supported one is accepted.
    pub major_version: u8,
    /// The minor layout version; only the supported one is accepted.
    pub minor_version: u8,
    /// Byte offset of the first entry record.
    pub entry_offset: i32,
}

/// What decoding the prolog of `r` yields. The checks run in a fixed order —
/// length, magic number, byte order, major version, minor version — so a bad
/// magic number fails before anything else is believed.
pub open spec fn spec_read_prolog(r: Seq<u8>) -> Result<PerfDataProlog, Error> {
    if r.len() < PROLOG_SIZE {
        Err(Error::WontBeAbleToRead)
    } else if u32_of(r[0], r[1], r[2], r[3], Endianness::BigEndian) != MAGIC_NUMBER {
        Err(Error::InvalidMagicNumber)
    } else if r[4] != 0 && r[4] != 1 {
        Err(Error::ConversionError)
    } else {
        let e = if r[4] == 0 {
            Endianness::BigEndian
        } else {
            Endianness::LittleEndian
        };
        if r[5] != SUPPORTED_MAJOR_VERSION {
            Err(Error::UnsupportedMajorVersion)
        } else if r[6] != SUPPORTED_MINOR_VERSION {
            Err(Error::UnsupportedMinorVersion)
        } else {
            Ok(
                PerfDataProlog {
                    magic: MAGIC_NUMBER,
                    byte_order: e,
                    major_version: r[5],
                    minor_version: r[6],
                    entry_offset: i32_at(r, 24, e),
                },
            )
        }
    }
}

/// What walking the entry records from `cursor` to the end of `r` yields:
/// the records' entries in their on-disk order, or the first failure. A
/// record that cannot be read whole, declares no positive length, or would
/// advance the cursor past the end of the region fails the whole walk —
/// never a truncated list.
#[verifier::opaque]
pub open spec fn spec_walk_entries(r: Seq<u8>, cursor: int, e: Endianness) -> Result<
    Seq<EntryModel>,
    Error,
>
    decreases r.len() - cursor,
{
    if cursor >= r.len() {
        Ok(Seq::empty())
    } else {
        match spec_read_header(r, cursor, e) {
            Err(er) => Err(er),
            Ok(h) => if h.entry_length <= 0 {
                Err(Error::WontBeAbleToRead)
            } else if cursor + h.entry_length > r.len() {
                Err(Error::WontBeAbleToRead)
            } else {
                let p = SafishPointer {
                    elem: Element::Byte,
                    offset: cursor as usize,
                    max_byte_offset: (r.len() - cursor) as usize,
                    endianness: e,
                };
                let one = if h.data_variability == crate::perf_data::Variability::Monotonic
                    || h.data_variability == crate::perf_data::Variability::Variable {
                    match spec_read_variable_entry(h, p, r) {
                        Err(er) => Err(er),
                        Ok(m) => Ok(EntryModel::Variable(m.0, m.1)),
                    }
                } else {
                    match spec_read_constant_entry(h, p, r) {
                        Err(er) => Err(er),
                        Ok(c) => Ok(EntryModel::Constant(c)),
                    }
                };
                match one {
                    Err(er) => Err(er),
                    Ok(en) => match spec_walk_entries(r, cursor + h.entry_length, e) {
                        Err(er) => Err(er),
                        Ok(rest) => Ok(seq![en] + rest),
                    },
                }
            },
        }
    }
}

/// What decoding the whole region yields: the validated prolog's walk from
/// its first-entry offset.
pub open spec fn spec_read_entries(r: Seq<u8>) -> Result<Seq<EntryModel>, Error> {
    match spec_read_prolog(r) {
        Err(e) => Err(e),
        Ok(prolog) => if prolog.entry_offset < 0 {
            Err(Error::WontBeAbleToRead)
        } else {
            spec_walk_entries(r, prolog.entry_offset as int, prolog.byte_order)
        },
    }
}

/// A region whose magic number does not match is rejected with the
/// magic-number error before any entry is read.
pub proof fn lemma_bad_magic_rejected(r: Seq<u8>)
    requires
        r.len() >= PROLOG_SIZE,
        u32_of(r[0], r[1], r[2], r[3], Endianness::BigEndian) != MAGIC_NUMBER,
    ensures
        spec_read_entries(r) == Err::<Seq<EntryModel>, Error>(Error::InvalidMagicNumber),
{
}

/// A region with a valid magic number but an unsupported major version is
/// rejected with the major-version error.
pub proof fn lemma_unsupported_major_rejected(r: Seq<u8>)
    requires
        r.len() >= PROLOG_SIZE,
        u32_of(r[0], r[1], r[2], r[3], Endianness::BigEndian) == MAGIC_NUMBER,
        r[4] == 0 || r[4] == 1,
        r[5] != SUPPORTED_MAJOR_VERSION,
    ensures
        spec_read_entries(r) == Err::<Seq<EntryModel>, Error>(Error::UnsupportedMajorVersion),
{
}

/// The cursor the walk hands a record at `cursor`: a byte cursor whose
/// budget is everything up to the end of the region.
pub open spec fn walk_ptr(r: Seq<u8>, cursor: int, e: Endianness) -> SafishPointer {
    SafishPointer {
        elem: Element::Byte,
        offset: cursor as usize,
        max_byte_offset: (r.len() - cursor) as usize,
        endianness: e,
    }
}

/// One walk step that fails to read the record's fixed portion fails the
/// whole walk with that failure.
proof fn lemma_walk_err_header(r: Seq<u8>, cursor: int, e: Endianness, er: Error)
    requires
        0 <= cursor < r.len(),
        spec_read_header(r, cursor, e) == Err::<PerfDataEntryHeader, Error>(er),
    ensures
        spec_walk_entries(r, cursor, e) == Err::<Seq<EntryModel>, Error>(er),
{
    reveal(spec_walk_entries);
}

/// One walk step whose record declares no positive length, or a length past
/// the end of the region, fails the whole walk.
proof fn lemma_walk_err_len(r: Seq<u8>, cursor: int, e: Endianness, h: PerfDataEntryHeader)
    requires
        0 <= cursor < r.len(),
        spec_read_header(r, cursor, e) == Ok::<PerfDataEntryHeader, Error>(h),
        h.entry_length <= 0 || cursor + h.entry_length > r.len(),
    ensures
        spec_walk_entries(r, cursor, e) == Err::<Seq<EntryModel>, Error>(Error::WontBeAbleToRead),
{
    reveal(spec_walk_entries);
}

/// One walk step whose record fails to decode as an entry fails the whole
/// walk with that failure.
proof fn lemma_walk_err_entry(
    r: Seq<u8>,
    cursor: int,
    e: Endianness,
    h: PerfDataEntryHeader,
    er: Error,
)
    requires
        0 <= cursor < r.len(),
        spec_read_header(r, cursor, e) == Ok::<PerfDataEntryHeader, Error>(h),
        0 < h.entry_length,
        cursor + h.entry_length <= r.len(),
        if h.data_variability == crate::perf_data::Variability::Monotonic || h.data_variability
            == crate::perf_data::Variability::Variable {
            spec_read_variable_entry(h, walk_ptr(r, cursor, e), r) == Err::<
                (crate::data_pointer::DataPointer, crate::variable_entry::VariableEntryModel),
                Error,
            >(er)
        } else {
            spec_read_constant_entry(h, walk_ptr(r, cursor, e), r) == Err::<
                crate::constant_entry::ConstantEntryModel,
                Error,
            >(er)
        },
    ensures
        spec_walk_entries(r, cursor, e) == Err::<Seq<EntryModel>, Error>(er),
{
    reveal(spec_walk_entries);
}

/// One successful walk step: the walk at `cursor` is this record's entry
/// followed by the walk of the records after it.
proof fn lemma_walk_step_ok(
    r: Seq<u8>,
    cursor: int,
    e: Endianness,
    h: PerfDataEntryHeader,
    en: EntryModel,
)
    requires
        0 <= cursor < r.len(),
        spec_read_header(r, cursor, e) == Ok::<PerfDataEntryHeader, Error>(h),
        0 < h.entry_length,
        cursor + h.entry_length <= r.len(),
        match en {
            EntryModel::Variable(dp, m) => (h.data_variability
                == crate::perf_data::Variability::Monotonic || h.data_variability
                == crate::perf_data::Variability::Variable) && spec_read_variable_entry(
                h,
                walk_ptr(r, cursor, e),
                r,
            ) == Ok::<
                (crate::data_pointer::DataPointer, crate::variable_entry::VariableEntryModel),
                Error,
            >((dp, m)),
            EntryModel::Constant(c) => !(h.data_variability
                == crate::perf_data::Variability::Monotonic || h.data_variability
                == crate::perf_data::Variability::Variable) && spec_read_constant_entry(
                h,
                walk_ptr(r, cursor, e),
                r,
            ) == Ok::<crate::constant_entry::ConstantEntryModel, Error>(c),
        },
    ensures
        spec_walk_entries(r, cursor, e) == combine(
            seq![en],
            spec_walk_entries(r, cursor + h.entry_length, e),
        ),
{
    reveal(spec_walk_entries);
}

impl PerfDataProlog {
    /// Decodes and validates the prolog of the region: length, magic number,
    /// byte order, then major and minor version, in that order.
    pub fn read(region: &Vec<u8>) -> (r: Result<PerfDataProlog, Error>)
        ensures
            r == spec_read_prolog(region@),
    {
        if region.len() < PROLOG_SIZE {
            return Err(Error::WontBeAbleToRead);
        }
        let magic = crate::codec::read_u32_at(region, 0, Endianness::BigEndian);
        if magic != MAGIC_NUMBER {
            return Err(Error::InvalidMagicNumber);
        }
        let order_tag = region[4];
        if order_tag != 0 && order_tag != 1 {
            return Err(Error::ConversionError);
        }
        let byte_order = if order_tag == 0 {
            Endianness::BigEndian
        } else {
            Endianness::LittleEndian
        };
        let major_version = region[5];
        if major_version != SUPPORTED_MAJOR_VERSION {
            return Err(Error::UnsupportedMajorVersion);
        }
        let minor_version = region[6];
        if minor_version != SUPPORTED_MINOR_VERSION {
            return Err(Error::UnsupportedMinorVersion);
        }
        let raw = crate::codec::read_u32_at(region, 24, byte_order);
        let entry_offset =
            #[verifier::truncate]
            (raw as i32);
        Ok(PerfDataProlog { magic, byte_order, major_version, minor_version, entry_offset })
    }

    /// Validates the prolog and walks every entry record to the end of the
    /// region, in on-disk order; any failure fails the whole decode, so a
    /// partially decoded entry list is never returned.
    #[verifier::rlimit(100)]
    pub fn read_entries(region: &Vec<u8>) -> (r: Result<Vec<Entry>, Error>)
        ensures
            match r {
                Ok(v) => {
                    &&& spec_read_entries(region@) matches Ok(s) && v@.map_values(
                        |en: Entry| en@,
                    ) == s
                    &&& forall|i: int| 0 <= i < v@.len() ==> (#[trigger] v@[i]).wf()
                },
                Err(e) => spec_read_entries(region@) == Err::<Seq<EntryModel>, Error>(e),
            },
    {
        let prolog = PerfDataProlog::read(region)?;
        if prolog.entry_offset < 0 {
            return Err(Error::WontBeAbleToRead);
        }
        let e = prolog.byte_order;
        let n = region.len();
        let ghost start = prolog.entry_offset as int;
        let mut cursor: usize = prolog.entry_offset as usize;
        let mut entries: Vec<Entry> = Vec::new();
        while cursor < n
            invariant
                n == region@.len(),
                spec_read_entries(region@) == spec_walk_entries(region@, start, e),
                spec_walk_entries(region@, start, e) == combine(
                    entries@.map_values(|en: Entry| en@),
                    spec_walk_entries(region@, cursor as int, e),
                ),
                forall|i: int| 0 <= i < entries@.len() ==> (#[trigger] entries@[i]).wf(),
            decreases n - cursor,
        {
            let p = match SafishPointer::new(Element::Byte, cursor, n - cursor, e) {
                Ok(p) => p,
                Err(_) => {
                    proof {
                        assert(false);
                    }
                    return Err(Error::WontBeAbleToRead);
                },
            };
            proof {
                assert(p == walk_ptr(region@, cursor as int, e));
                assert(p.room_for(ENTRY_HEADER_SIZE as int) <==> cursor + ENTRY_HEADER_SIZE
                    <= region@.len());
            }
            let h = match PerfDataEntryHeader::read(&p, region) {
                Ok(h) => h,
                Err(er) => {
                    proof {
                        lemma_walk_err_header(region@, cursor as int, e, er);
                    }
                    return Err(er);
                },
            };
            let len = h.entry_length();
            if len <= 0 {
                proof {
                    lemma_walk_err_len(region@, cursor as int, e, h);
                }
                return Err(Error::WontBeAbleToRead);
            }
            let len_u = len as usize;
            if len_u > n - cursor {
                proof {
                    lemma_walk_err_len(region@, cursor as int, e, h);
                }
                return Err(Error::WontBeAbleToRead);
            }
            let entry = if h.is_variable_entry() {
                match h.read_variable_entry(p, region) {
                    Ok(v) => Entry::Variable(v),
                    Err(er) => {
                        proof {
                            lemma_walk_err_entry(region@, cursor as int, e, h, er);
                        }
                        return Err(er);
                    },
                }
            } else {
                match h.read_constant_entry(p, region) {
                    Ok(c) => Entry::Constant(c),
                    Err(er) => {
                        proof {
                            lemma_walk_err_entry(region@, cursor as int, e, h, er);
                        }
                        return Err(er);
                    },
                }
            };
            proof {
                lemma_walk_step_ok(region@, cursor as int, e, h, entry@);
            }
            let ghost entry_model = entry@;
            let ghost prefix = entries@.map_values(|en: Entry| en@);
            entries.push(entry);
            let ghost prev = cursor as int;
            cursor = cursor + len_u;
            proof {
                assert(cursor as int == prev + h.entry_length);
                assert(spec_walk_entries(region@, prev, e) == combine(
                    seq![entry_model],
                    spec_walk_entries(region@, cursor as int, e),
                ));
                assert(entries@.map_values(|en: Entry| en@) =~= prefix + seq![entry_model]);
                lemma_combine_append(
                    prefix,
                    seq![entry_model],
                    spec_walk_entries(region@, cursor as int, e),
                );
            }
        }
        proof {
            reveal(spec_walk_entries);
            assert(spec_walk_entries(region@, cursor as int, e) == Ok::<Seq<EntryModel>, Error>(
                Seq::empty(),
            ));
            assert(entries@.map_values(|en: Entry| en@) + Seq::empty() =~= entries@.map_values(
                |en: Entry| en@,
            ));
        }
        Ok(entries)
    }
}

/// Prefixes a sequence of already-walked entries onto the result of walking
/// the rest: a failure further in fails the whole walk.
pub open spec fn combine(prefix: Seq<EntryModel>, rest: Result<Seq<EntryModel>, Error>) -> Result<
    Seq<EntryModel>,
    Error,
> {
    match rest {
        Ok(s) => Ok(prefix + s),
        Err(e) => Err(e),
    }
}

/// Combining with a longer prefix is combining twice.
proof fn lemma_combine_append(
    prefix: Seq<EntryModel>,
    middle: Seq<EntryModel>,
    rest: Result<Seq<EntryModel>, Error>,
)
    ensures
        combine(prefix + middle, rest) == combine(prefix, combine(middle, rest)),
{
    match rest {
        Ok(s) => {
            assert((prefix + middle) + s =~= prefix + (middle + s));
        },
        Err(_) => {},
    }
}

} // verus!
