//! The abbreviation tables as their users see them.

use vstd::prelude::*;
use crate::addressing::WordAddress;
use crate::error::ZError;
use crate::model::memory::MemoryView;

verus! {

/// The number of abbreviation tables.
pub const ABBREV_TABLES: u8 = 3;

/// The number of entries in each abbreviation table.
pub const ABBREV_TABLE_LEN: u8 = 32;

/// Where the entry `idx` of abbreviation table `table` is kept, if the
/// tables start at `base`: the three tables of 32 words each follow one
/// another.
pub open spec fn abbrev_entry_offset(base: nat, table: u8, idx: u8) -> int {
    base + 2 * (ABBREV_TABLE_LEN * (table - 1) + idx)
}

/// The location of the string that entry `idx` of abbreviation table `table`
/// stands for: the word that `memory` holds for that entry, as a word
/// address. The tables are numbered from 1 and their entries from 0.
pub open spec fn abbrev_entry(memory: MemoryView, base: nat, table: u8, idx: u8) -> Result<
    WordAddress,
    ZError,
> {
    if !(1 <= table <= ABBREV_TABLES) {
        Err(ZError::TableOutOfRange)
    } else if idx >= ABBREV_TABLE_LEN {
        Err(ZError::IndexOutOfRange)
    } else {
        match memory.read_word(abbrev_entry_offset(base, table, idx)) {
            Ok(word) => Ok(WordAddress(word)),
            Err(e) => Err(e),
        }
    }
}

} // verus!
