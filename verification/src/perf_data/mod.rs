//! The on-disk layout of the published performance data: the prolog at the
//! start of the region, the self-describing entry records after it, and the
//! tag enumerations both use.

pub mod data_type;
pub mod perf_data_entry_header;
pub mod perf_data_prolog;
pub mod unit;
pub mod variability;

pub use crate::codec::Endianness;
pub use data_type::DataType;
pub use perf_data_entry_header::PerfDataEntryHeader;
pub use perf_data_prolog::PerfDataProlog;
pub use unit::Unit;
pub use variability::Variability;
