//! Reader for the performance-counter file that a HotSpot virtual machine
//! publishes into shared memory: a bounds-checked cursor over the raw bytes,
//! an endianness-aware decoder for the self-describing entry layout, and a
//! monitor that keeps the decoded entries and refreshes the variable ones.

pub mod codec;
pub mod constant_entry;
pub mod data_pointer;
pub mod entry_value;
pub mod errors;
pub mod java_virtual_machine;
pub mod jvm_monitor;
pub mod perf_data;
pub mod safish_pointer;
pub mod variable_data_reference;
pub mod variable_entry;

pub use entry_value::EntryValue;
pub use errors::Error;
pub use java_virtual_machine::JavaVirtualMachine;
pub use jvm_monitor::{Entry, JvmMonitor};
pub use variable_entry::VariableEntry;
