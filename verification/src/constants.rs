//! Fixed numbers of the machine: where the header keeps its fields, and how
//! large the call stack is.

pub mod header_offset;
pub mod stack;
