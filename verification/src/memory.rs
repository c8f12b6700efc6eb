//! The story as the machine holds it: its bytes, and the two regions of them
//! that the game may touch.

use vstd::prelude::*;
use vstd::slice::slice_subrange;
use crate::addressing::ZOffset;
use crate::bytes::byte_from_slice;
use crate::bytes::word_at;
use crate::bytes::word_from_slice;
use crate::constants::header_offset::HEADER_FIELDS_END;
use crate::constants::header_offset::HIGH_MEMORY_MARK;
use crate::constants::header_offset::STATIC_MEMORY_START;
use crate::constants::header_offset::VERSION_NUMBER;
use crate::error::ZError;
use crate::traits::Memory;
use crate::model::memory::MemoryView;
use crate::versions::number_to_version;
use crate::versions::version_table;
use crate::versions::Version;

verus! {

/// The fewest bytes that dynamic memory may hold: the header.
pub const MIN_DYNAMIC_SIZE: usize = 64;

/// Where static memory ends at the latest: the highest position that a
/// 16-bit address names.
pub const STATIC_MEMORY_LIMIT: usize = 0xffff;

/// The positions from `start` up to, not including, `end`.
pub open spec fn region(start: int, end: int) -> Set<int> {
    Set::new(|o: int| start <= o < end)
}

/// Where static memory ends in a story of `len` bytes.
pub open spec fn static_end(len: int) -> int {
    if len < STATIC_MEMORY_LIMIT {
        len
    } else {
        STATIC_MEMORY_LIMIT as int
    }
}

/// What the header of a story says of its memory.
pub struct StoryLayout {
    /// The version of the machine that the story is for.
    pub version: Version,
    /// Where dynamic memory ends and static memory starts.
    pub static_start: nat,
    /// Where high memory starts.
    pub high_start: nat,
}

impl StoryLayout {
    /// What holds of the layout of every story of `len` bytes that has
    /// been loaded: the version is implemented and the story is no longer
    /// than it allows, the story holds the header fields that were read,
    /// dynamic memory holds at least 64 bytes, and high memory does not
    /// start inside it.
    pub open spec fn wf(self, len: nat) -> bool {
        &&& version_table(self.version.version_number) == Some(self.version)
        &&& HEADER_FIELDS_END <= len <= self.version.max_story_len
        &&& MIN_DYNAMIC_SIZE <= self.static_start <= self.high_start <= STATIC_MEMORY_LIMIT
    }

    /// The memory that a story of this layout makes. Dynamic memory runs
    /// from the start of the story to the start of static memory. Static
    /// memory runs from there to the end of the story, but not past the
    /// last position that 16 bits address.
    pub open spec fn memory(self, bytes: Seq<u8>) -> MemoryView {
        MemoryView {
            bytes,
            dynamic_region: region(0, self.static_start as int),
            static_region: region(self.static_start as int, static_end(bytes.len() as int)),
        }
    }
}

/// What the header of a story says of its memory, if the story can be
/// loaded.
///
/// The version byte has to name an implemented version, and the story may
/// not be longer than that version allows. Dynamic memory has to hold at
/// least 64 bytes, and high memory may not begin inside it. A story that
/// ends before the header fields that say all this cannot be read.
pub open spec fn layout_of(bytes: Seq<u8>) -> Result<StoryLayout, ZError> {
    if bytes.len() <= VERSION_NUMBER {
        Err(ZError::ReadOutOfBounds)
    } else {
        match version_table(bytes[VERSION_NUMBER as int]) {
            None => Err(ZError::UnsupportedVersion),
            Some(version) => {
                let static_start = word_at(bytes, STATIC_MEMORY_START as int) as nat;
                let high_start = word_at(bytes, HIGH_MEMORY_MARK as int) as nat;
                if bytes.len() > version.max_story_len {
                    Err(ZError::StoryTooLong)
                } else if bytes.len() < HEADER_FIELDS_END {
                    Err(ZError::ReadOutOfBounds)
                } else if static_start < MIN_DYNAMIC_SIZE {
                    Err(ZError::DynamicMemoryTooSmall)
                } else if high_start < static_start {
                    Err(ZError::OverlappingRegions)
                } else {
                    Ok(StoryLayout { version, static_start, high_start })
                }
            },
        }
    }
}

/// What loading a story gives: the memory that its layout makes of its
/// bytes.
pub open spec fn loaded(bytes: Seq<u8>) -> Result<MemoryView, ZError> {
    match layout_of(bytes) {
        Ok(layout) => Ok(layout.memory(bytes)),
        Err(e) => Err(e),
    }
}

/// A story whose header gives dynamic memory fewer than 64 bytes does not
/// load, provided that it is a story at all: of an implemented version, no
/// longer than that version allows, and with its header fields in it.
pub proof fn lemma_dynamic_memory_too_small(bytes: Seq<u8>)
    requires
        bytes.len() >= HEADER_FIELDS_END,
        version_table(bytes[VERSION_NUMBER as int]) matches Some(version) && bytes.len()
            <= version.max_story_len,
        word_at(bytes, STATIC_MEMORY_START as int) < MIN_DYNAMIC_SIZE,
    ensures
        layout_of(bytes) == Err::<StoryLayout, ZError>(ZError::DynamicMemoryTooSmall),
        loaded(bytes) == Err::<MemoryView, ZError>(ZError::DynamicMemoryTooSmall),
{
}

/// A story that loads has a layout as it should be, and makes a memory as
/// it should be.
pub proof fn lemma_loaded_shape(bytes: Seq<u8>)
    requires
        layout_of(bytes) is Ok,
    ensures
        layout_of(bytes).unwrap().wf(bytes.len()),
        loaded(bytes).unwrap().wf(),
{
}

/// The memory of the machine.
pub struct ZMemory {
    bytes: Vec<u8>,
    /// The version of the machine that the story is for.
    version: Version,
    /// Where dynamic memory ends and static memory starts.
    static_start: usize,
    /// Where static memory ends.
    static_end: usize,
    /// Where high memory starts.
    high_start: usize,
}

impl ZMemory {
    /// What the header of the story said of its memory when it was loaded.
    pub closed spec fn layout(&self) -> StoryLayout {
        StoryLayout {
            version: self.version,
            static_start: self.static_start as nat,
            high_start: self.high_start as nat,
        }
    }

    /// Loads a story.
    pub fn from_bytes(bytes: Vec<u8>) -> (r: Result<ZMemory, ZError>)
        ensures
            match layout_of(bytes@) {
                Ok(layout) => r matches Ok(memory) && memory.wf() && memory.layout() == layout
                    && memory.model() == layout.memory(bytes@),
                Err(e) => r matches Err(err) && err == e,
            },
    {
        if bytes.len() <= VERSION_NUMBER {
            return Err(ZError::ReadOutOfBounds);
        }
        let version_number = byte_from_slice(bytes.as_slice(), VERSION_NUMBER);
        let version = match number_to_version(version_number) {
            Ok(version) => version,
            Err(e) => {
                return Err(e);
            },
        };
        if bytes.len() > version.max_story_len {
            return Err(ZError::StoryTooLong);
        }
        if bytes.len() < HEADER_FIELDS_END {
            return Err(ZError::ReadOutOfBounds);
        }
        let start_of_static = word_from_slice(bytes.as_slice(), STATIC_MEMORY_START) as usize;
        let end_of_static = if bytes.len() < STATIC_MEMORY_LIMIT {
            bytes.len()
        } else {
            STATIC_MEMORY_LIMIT
        };
        let start_of_high = word_from_slice(bytes.as_slice(), HIGH_MEMORY_MARK) as usize;
        if start_of_static < MIN_DYNAMIC_SIZE {
            return Err(ZError::DynamicMemoryTooSmall);
        }
        if start_of_high < start_of_static {
            return Err(ZError::OverlappingRegions);
        }
        Ok(
            ZMemory {
                bytes,
                version,
                static_start: start_of_static,
                static_end: end_of_static,
                high_start: start_of_high,
            },
        )
    }

    /// The version of the machine that the story is for.
    pub fn version(&self) -> (version: Version)
        requires
            self.wf(),
        ensures
            version == self.layout().version,
    {
        self.version
    }

    /// Where dynamic memory ends and static memory starts.
    pub fn static_memory_start(&self) -> (offset: ZOffset)
        requires
            self.wf(),
        ensures
            offset@ == self.layout().static_start,
    {
        ZOffset(self.static_start)
    }

    /// Where high memory starts.
    pub fn high_memory_start(&self) -> (offset: ZOffset)
        requires
            self.wf(),
        ensures
            offset@ == self.layout().high_start,
    {
        ZOffset(self.high_start)
    }

    /// The shape of the memory is the one that the story had when it was
    /// loaded, whatever has been written since: the layout is as it should
    /// be for a story of this size, and the regions are those that the
    /// layout gives.
    pub proof fn lemma_shape(&self)
        requires
            self.wf(),
        ensures
            self.layout().wf(self.model().bytes.len()),
            self.model() == self.layout().memory(self.model().bytes),
    {
    }

    /// The header fields that loading has read can be read ever after:
    /// they lie in dynamic memory, and the story holds them.
    pub proof fn lemma_header_readable(&self, offset: int)
        requires
            self.wf(),
            0 <= offset < HEADER_FIELDS_END,
        ensures
            self.model().read_byte(offset) == Ok::<u8, ZError>(self.model().bytes[offset]),
            self.model().writable(offset),
    {
    }
}

impl Memory for ZMemory {
    closed spec fn model(&self) -> MemoryView {
        MemoryView {
            bytes: self.bytes@,
            dynamic_region: region(0, self.static_start as int),
            static_region: region(self.static_start as int, self.static_end as int),
        }
    }

    closed spec fn wf(&self) -> bool {
        &&& self.layout().wf(self.bytes@.len())
        &&& self.static_end == static_end(self.bytes@.len() as int)
    }

    proof fn lemma_model_wf(&self) {
        assert(self.bytes@.len() == self.bytes.len());
    }

    fn slice_at(&self, offset: ZOffset) -> (r: Result<&[u8], ZError>) {
        let from = offset.0;
        if from > self.bytes.len() {
            return Err(ZError::SliceOutOfBounds);
        }
        Ok(slice_subrange(self.bytes.as_slice(), from, self.bytes.len()))
    }

    fn memory_size(&self) -> (size: usize) {
        self.bytes.len()
    }

    fn in_dynamic_range(&self, idx: ZOffset) -> (b: bool) {
        idx.0 < self.static_start
    }

    fn in_static_range(&self, idx: ZOffset) -> (b: bool) {
        let idx = idx.0;
        self.static_start <= idx && idx < self.static_end
    }

    fn read_byte_unchecked(&self, offset: ZOffset) -> (r: Result<u8, ZError>) {
        let idx = offset.0;
        if idx >= self.bytes.len() {
            return Err(ZError::ReadOutOfBounds);
        }
        Ok(byte_from_slice(self.bytes.as_slice(), idx))
    }

    fn write_byte_unchecked(&mut self, offset: ZOffset, val: u8) -> (r: Result<(), ZError>) {
        let idx = offset.0;
        if idx >= self.bytes.len() {
            return Err(ZError::WriteOutOfBounds);
        }
        self.bytes[idx] = val;
        Ok(())
    }
}

} // verus!
