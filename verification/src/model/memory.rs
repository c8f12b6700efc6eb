//! A memory as its users see it.

use vstd::prelude::*;
use crate::bytes::high_byte;
use crate::bytes::lemma_split_word;
use crate::bytes::low_byte;
use crate::error::ZError;

verus! {

/// What a memory is to its users: the story's bytes and the two regions that
/// the game may touch.
pub struct MemoryView {
    /// The bytes of the story.
    pub bytes: Seq<u8>,
    /// The positions of dynamic memory, which may be read and written.
    pub dynamic_region: Set<int>,
    /// The positions of static memory, which may only be read.
    pub static_region: Set<int>,
}

impl MemoryView {
    /// What holds of every memory: an offset can name each of its positions,
    /// no position is in both regions, and the story holds all of static
    /// memory.
    pub open spec fn wf(self) -> bool {
        &&& self.bytes.len() <= usize::MAX
        &&& forall|o: int| #[trigger] self.dynamic_region.contains(o) ==> 0 <= o <= usize::MAX
        &&& forall|o: int| #[trigger]
            self.static_region.contains(o) ==> self.backed(o) && !self.dynamic_region.contains(o)
    }

    /// Whether the story has a byte at `offset`.
    pub open spec fn backed(self, offset: int) -> bool {
        0 <= offset < self.bytes.len()
    }

    /// Whether the game may read at `offset`.
    pub open spec fn readable(self, offset: int) -> bool {
        self.dynamic_region.contains(offset) || self.static_region.contains(offset)
    }

    /// Whether the game may write at `offset`.
    pub open spec fn writable(self, offset: int) -> bool {
        self.dynamic_region.contains(offset)
    }

    /// Whether two memories have the same size and the same regions.
    pub open spec fn same_shape(self, other: MemoryView) -> bool {
        &&& self.bytes.len() == other.bytes.len()
        &&& self.dynamic_region == other.dynamic_region
        &&& self.static_region == other.static_region
    }

    /// The memory with the byte at `offset` replaced.
    pub open spec fn with_byte(self, offset: int, val: u8) -> MemoryView {
        MemoryView { bytes: self.bytes.update(offset, val), ..self }
    }

    /// What reading at `offset` gives without regard to the regions.
    pub open spec fn read_byte_unchecked(self, offset: int) -> Result<u8, ZError> {
        if self.backed(offset) {
            Ok(self.bytes[offset])
        } else {
            Err(ZError::ReadOutOfBounds)
        }
    }

    /// The memory after an attempt to write `val` at `offset` without
    /// regard to the regions, and how the attempt ended.
    pub open spec fn write_byte_unchecked(self, offset: int, val: u8) -> (
        MemoryView,
        Result<(), ZError>,
    ) {
        if self.backed(offset) {
            (self.with_byte(offset, val), Ok(()))
        } else {
            (self, Err(ZError::WriteOutOfBounds))
        }
    }

    /// What reading at `offset` gives.
    pub open spec fn read_byte(self, offset: int) -> Result<u8, ZError> {
        if self.readable(offset) {
            self.read_byte_unchecked(offset)
        } else {
            Err(ZError::ReadOutOfBounds)
        }
    }

    /// The memory after an attempt to write `val` at `offset`, and how the
    /// attempt ended.
    pub open spec fn write_byte(self, offset: int, val: u8) -> (MemoryView, Result<(), ZError>) {
        if self.writable(offset) {
            self.write_byte_unchecked(offset, val)
        } else {
            (self, Err(ZError::WriteProtected))
        }
    }

    /// The word at `offset`: two bytes read one after the other, the high
    /// byte first.
    pub open spec fn read_word(self, offset: int) -> Result<u16, ZError> {
        match self.read_byte(offset) {
            Err(e) => Err(e),
            Ok(high) => match self.read_byte(offset + 1) {
                Err(e) => Err(e),
                Ok(low) => Ok((high as int * 0x100 + low as int) as u16),
            },
        }
    }

    /// The memory after an attempt to write the word `val` at `offset`, and
    /// how the attempt ended: two bytes written one after the other, the high
    /// byte first. Where only the second write fails, the first one stays.
    pub open spec fn write_word(self, offset: int, val: u16) -> (MemoryView, Result<(), ZError>) {
        let first = self.write_byte(offset, high_byte(val));
        if first.1 is Ok {
            first.0.write_byte(offset + 1, low_byte(val))
        } else {
            first
        }
    }

    /// The bytes from `offset` to the end of the story.
    pub open spec fn slice_at(self, offset: int) -> Result<Seq<u8>, ZError> {
        if 0 <= offset <= self.bytes.len() {
            Ok(self.bytes.subrange(offset, self.bytes.len() as int))
        } else {
            Err(ZError::SliceOutOfBounds)
        }
    }

    /// Writing a byte that the story holds in dynamic memory succeeds, and
    /// reading there afterwards gives the byte that was written.
    pub proof fn lemma_write_then_read(self, offset: int, val: u8)
        requires
            self.dynamic_region.contains(offset),
            self.backed(offset),
        ensures
            self.write_byte(offset, val).1 is Ok,
            self.write_byte(offset, val).0.read_byte(offset) == Ok::<u8, ZError>(val),
    {
    }

    /// A write leaves every other byte, the size and the regions as they
    /// were, and a write that fails leaves everything.
    pub proof fn lemma_write_is_local(self, offset: int, val: u8, other: int)
        requires
            other != offset,
        ensures
            self.write_byte(offset, val).0.read_byte(other) == self.read_byte(other),
            self.write_byte(offset, val).0.bytes.len() == self.bytes.len(),
            self.write_byte(offset, val).0.dynamic_region == self.dynamic_region,
            self.write_byte(offset, val).0.static_region == self.static_region,
            self.write_byte(offset, val).1 is Err ==> self.write_byte(offset, val).0 == self,
    {
    }

    /// No write changes the shape of a memory: its size and its regions stay,
    /// and so a memory that was as it should be still is.
    pub proof fn lemma_writes_keep_shape(self, offset: int, byte: u8, word: u16)
        ensures
            self.write_byte_unchecked(offset, byte).0.same_shape(self),
            self.write_byte(offset, byte).0.same_shape(self),
            self.write_word(offset, word).0.same_shape(self),
            self.wf() ==> self.write_byte_unchecked(offset, byte).0.wf() && self.write_byte(
                offset,
                byte,
            ).0.wf() && self.write_word(offset, word).0.wf(),
    {
    }

    /// Outside dynamic memory every write is refused.
    pub proof fn lemma_write_protected(self, offset: int, val: u8)
        requires
            !self.dynamic_region.contains(offset),
        ensures
            self.write_byte(offset, val) == (self, Err::<(), ZError>(ZError::WriteProtected)),
    {
    }

    /// In static memory every write is refused and every read succeeds.
    pub proof fn lemma_static_is_read_only(self, offset: int, val: u8)
        requires
            self.wf(),
            self.static_region.contains(offset),
        ensures
            self.write_byte(offset, val) == (self, Err::<(), ZError>(ZError::WriteProtected)),
            self.read_byte(offset) == Ok::<u8, ZError>(self.bytes[offset]),
    {
    }

    /// Outside dynamic and static memory every read is refused.
    pub proof fn lemma_read_out_of_bounds(self, offset: int)
        requires
            !self.dynamic_region.contains(offset),
            !self.static_region.contains(offset),
        ensures
            self.read_byte(offset) == Err::<u8, ZError>(ZError::ReadOutOfBounds),
    {
    }

    /// Writing a word into dynamic memory that the story holds succeeds, and
    /// reading there afterwards gives the word that was written.
    pub proof fn lemma_write_word_then_read(self, offset: int, val: u16)
        requires
            self.dynamic_region.contains(offset),
            self.dynamic_region.contains(offset + 1),
            self.backed(offset),
            self.backed(offset + 1),
        ensures
            self.write_word(offset, val).1 is Ok,
            self.write_word(offset, val).0.read_word(offset) == Ok::<u16, ZError>(val),
    {
        lemma_split_word(val);
    }
}

} // verus!
