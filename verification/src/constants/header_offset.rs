//! Byte offsets of the header fields, counted from the start of the story.

use vstd::prelude::*;

verus! {

/// The version number, one byte.
pub const VERSION_NUMBER: usize = 0x00;

/// The high-memory mark, one word.
pub const HIGH_MEMORY_MARK: usize = 0x04;

/// The initial program counter, one word.
pub const START_PC: usize = 0x06;

/// The start of static memory, one word.
pub const STATIC_MEMORY_START: usize = 0x0e;

/// The location of the abbreviation table, one word.
pub const ABBREV_TABLE_START: usize = 0x18;

/// The number of bytes that loading a story reads from its header.
pub const HEADER_FIELDS_END: usize = 0x10;

} // verus!
