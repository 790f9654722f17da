//! The failure values of the library.
//!
//! Every fallible operation returns one of these; decoding never yields a
//! partial result. Bounds and alignment failures are structural (a corrupt or
//! unrecognized file); the operating-system failures carry the raw OS error
//! number for diagnostics.

use vstd::prelude::*;

verus! {

/// Everything that can go wrong while locating, mapping or decoding a
/// published performance-data region.
#[derive(Debug, Clone, Copy, PartialEq, Eq, Structural)]
pub enum Error {
    /// The header's major version is not the supported one.
    UnsupportedMajorVersion,
    /// The header's minor version is not the supported one.
    UnsupportedMinorVersion,
    /// The header does not start with the expected magic number.
    InvalidMagicNumber,
    /// The backing file could not be opened; carries the OS error number.
    FailedToOpen(i32),
    /// The backing file's metadata could not be read; carries the OS error number.
    FailedToReadMetaData(i32),
    /// The backing file could not be mapped; carries the OS error number.
    FailedToMapToMemory(i32),
    /// A byte sequence did not decode to a value of the declared type.
    ConversionError,
    /// The mapping could not be synchronized with the backing file; carries
    /// the OS error number.
    FailedToSync(i32),
    /// A source path does not name a process-id file.
    InvalidPath,
    /// A file name could not be parsed as a process id.
    FailedToParsePid,
    /// A read would go past the end of the readable byte range.
    WontBeAbleToRead,
    /// An offset cannot be represented within the address space.
    OffsetOutOfBounds,
    /// A reinterpretation was requested at a misaligned position.
    NotAlignedForConversion,
}

} // verus!
