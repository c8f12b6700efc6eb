//! The fields of the story's header that the machine reads after loading.

use vstd::prelude::*;
use crate::addressing::ByteAddress;
use crate::addressing::ZOffset;
use crate::constants::header_offset::START_PC;
use crate::error::ZError;
use crate::model::memory::MemoryView;
use crate::traits::Memory;

verus! {

/// The header of a story, by the memory that holds it.
pub struct Header;

/// Where the story says that execution starts: the word that the header
/// holds for it, as a byte address.
pub open spec fn start_pc_of(memory: MemoryView) -> Result<ByteAddress, ZError> {
    match memory.read_word(START_PC as int) {
        Ok(word) => Ok(ByteAddress(word)),
        Err(e) => Err(e),
    }
}

impl Header {
    /// The address at which execution starts.
    pub fn start_pc<M: Memory>(memory: &M) -> (r: Result<ByteAddress, ZError>)
        requires
            memory.wf(),
        ensures
            r == start_pc_of(memory.model()),
    {
        match memory.read_word(ZOffset::from(START_PC)) {
            Ok(addr) => Ok(ByteAddress::raw(addr)),
            Err(e) => Err(e),
        }
    }
}

} // verus!
