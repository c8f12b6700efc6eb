//! The abbreviation tables of a story.

use vstd::prelude::*;
use crate::addressing::WordAddress;
use crate::addressing::ZOffset;
use crate::constants::header_offset::ABBREV_TABLE_START;
use crate::error::ZError;
use crate::model::abbrevs::ABBREV_TABLES;
use crate::model::abbrevs::ABBREV_TABLE_LEN;
use crate::model::memory::MemoryView;
use crate::traits::AbbrevTable;
use crate::traits::Memory;

verus! {

/// The abbreviation tables of a story, by the position at which they start.
pub struct ZAbbrevTable(ZOffset);

/// Where the abbreviation tables of a story start: the header names the
/// place by a word address.
pub open spec fn abbrev_base(memory: MemoryView) -> Result<nat, ZError> {
    match memory.read_word(ABBREV_TABLE_START as int) {
        Ok(word) => Ok(WordAddress(word).offset()),
        Err(e) => Err(e),
    }
}

impl ZAbbrevTable {
    /// Finds the abbreviation tables of the story in `memory`.
    pub fn new<M: Memory>(memory: &M) -> (r: Result<ZAbbrevTable, ZError>)
        requires
            memory.wf(),
        ensures
            match abbrev_base(memory.model()) {
                Ok(base) => r is Ok && r.unwrap().wf() && r.unwrap().base() == base,
                Err(e) => r matches Err(err) && err == e,
            },
    {
        match memory.read_word(ZOffset::from(ABBREV_TABLE_START)) {
            Ok(word) => Ok(ZAbbrevTable(ZOffset::from(WordAddress::from(word)))),
            Err(e) => Err(e),
        }
    }
}

impl AbbrevTable for ZAbbrevTable {
    closed spec fn base(&self) -> nat {
        self.0@
    }

    /// The tables start where a word address can point.
    closed spec fn wf(&self) -> bool {
        self.0@ <= 2 * 0xffff
    }

    fn abbrev_location<M: Memory>(&self, memory: &M, table: u8, idx: u8) -> (r: Result<
        WordAddress,
        ZError,
    >) {
        if !(1 <= table && table <= ABBREV_TABLES) {
            return Err(ZError::TableOutOfRange);
        }
        if idx >= ABBREV_TABLE_LEN {
            return Err(ZError::IndexOutOfRange);
        }
        let entry: usize = 2 * (ABBREV_TABLE_LEN as usize * (table as usize - 1) + idx as usize);
        let offset: ZOffset = self.0 + entry;
        match memory.read_word(offset) {
            Ok(word) => Ok(WordAddress::from(word)),
            Err(e) => Err(e),
        }
    }
}

} // verus!
