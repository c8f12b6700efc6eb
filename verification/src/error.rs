//! The failures that the machine reports.

use vstd::prelude::*;

verus! {

/// Every way an operation of this crate can fail.
#[derive(Clone, Copy, Debug, PartialEq, Eq, Structural)]
pub enum ZError {
    /// The story's version byte names a version that is not implemented.
    UnsupportedVersion,
    /// The story holds more bytes than its version allows.
    StoryTooLong,
    /// Dynamic memory would hold fewer than 64 bytes.
    DynamicMemoryTooSmall,
    /// High memory would begin inside dynamic memory.
    OverlappingRegions,
    /// A read outside dynamic and static memory, or past the end of the story.
    ReadOutOfBounds,
    /// A write outside dynamic memory.
    WriteProtected,
    /// A write inside dynamic memory but past the end of the story.
    WriteOutOfBounds,
    /// A slice was requested from beyond the end of the story.
    SliceOutOfBounds,
    /// The stack has no room for what was pushed.
    StackOverflow,
    /// The evaluation stack of the current frame is empty.
    StackUnderflow,
    /// The base frame cannot be popped.
    CannotPopBaseFrame,
    /// The current frame has no local with that index.
    LocalIndexOutOfRange,
    /// A local variable was expected.
    ExpectedLocal,
    /// No local variable has that index.
    LocalOutOfRange,
    /// No global variable has that index.
    GlobalOutOfRange,
    /// The stack variable has no index.
    NotIndexable,
    /// The abbreviation table number is not 1, 2 or 3.
    TableOutOfRange,
    /// The abbreviation index is not below 32.
    IndexOutOfRange,
    /// Packed text must hold a whole, non-zero number of 16-bit words.
    MalformedText,
    /// The text refers to an abbreviation, which decoding alone cannot expand.
    UnexpandedAbbreviation,
}

impl ZError {
    /// What `describe` says of each error.
    pub open spec fn message(self) -> Seq<char> {
        match self {
            ZError::UnsupportedVersion => "the story is of a version that is not implemented"@,
            ZError::StoryTooLong => "the story is longer than its version allows"@,
            ZError::DynamicMemoryTooSmall => "dynamic memory must hold at least 64 bytes"@,
            ZError::OverlappingRegions => "high memory begins inside dynamic memory"@,
            ZError::ReadOutOfBounds => "read outside the memory that may be read"@,
            ZError::WriteProtected => "write outside dynamic memory"@,
            ZError::WriteOutOfBounds => "write past the end of the story"@,
            ZError::SliceOutOfBounds => "slice from beyond the end of the story"@,
            ZError::StackOverflow => "the stack is full"@,
            ZError::StackUnderflow => "the evaluation stack is empty"@,
            ZError::CannotPopBaseFrame => "the base frame cannot be popped"@,
            ZError::LocalIndexOutOfRange => "the current routine has no such local"@,
            ZError::ExpectedLocal => "a local variable was expected"@,
            ZError::LocalOutOfRange => "local variable out of range"@,
            ZError::GlobalOutOfRange => "global variable out of range"@,
            ZError::NotIndexable => "the stack variable has no index"@,
            ZError::TableOutOfRange => "abbreviation table number outside 1 to 3"@,
            ZError::IndexOutOfRange => "abbreviation index outside 0 to 31"@,
            ZError::MalformedText => "packed text must be a whole number of words, and at least one"@,
            ZError::UnexpandedAbbreviation => "the text refers to an abbreviation"@,
        }
    }

    /// The error in words, for whoever ran the story.
    pub fn describe(&self) -> (text: &'static str)
        ensures
            text@ == self.message(),
    {
        match self {
            ZError::UnsupportedVersion => "the story is of a version that is not implemented",
            ZError::StoryTooLong => "the story is longer than its version allows",
            ZError::DynamicMemoryTooSmall => "dynamic memory must hold at least 64 bytes",
            ZError::OverlappingRegions => "high memory begins inside dynamic memory",
            ZError::ReadOutOfBounds => "read outside the memory that may be read",
            ZError::WriteProtected => "write outside dynamic memory",
            ZError::WriteOutOfBounds => "write past the end of the story",
            ZError::SliceOutOfBounds => "slice from beyond the end of the story",
            ZError::StackOverflow => "the stack is full",
            ZError::StackUnderflow => "the evaluation stack is empty",
            ZError::CannotPopBaseFrame => "the base frame cannot be popped",
            ZError::LocalIndexOutOfRange => "the current routine has no such local",
            ZError::ExpectedLocal => "a local variable was expected",
            ZError::LocalOutOfRange => "local variable out of range",
            ZError::GlobalOutOfRange => "global variable out of range",
            ZError::NotIndexable => "the stack variable has no index",
            ZError::TableOutOfRange => "abbreviation table number outside 1 to 3",
            ZError::IndexOutOfRange => "abbreviation index outside 0 to 31",
            ZError::MalformedText => "packed text must be a whole number of words, and at least one",
            ZError::UnexpandedAbbreviation => "the text refers to an abbreviation",
        }
    }
}

} // verus!
