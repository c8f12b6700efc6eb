//! The interfaces of the machine's parts, so that one part can be replaced
//! without touching the code that uses it.
//!
//! Each interface says what its operations do in terms of a model of the
//! part, which every implementation gives of itself.

use vstd::prelude::*;
use crate::addressing::WordAddress;
use crate::addressing::ZOffset;
use crate::bytes::lemma_split_word;
use crate::error::ZError;
use crate::model::abbrevs::abbrev_entry;
use crate::model::memory::MemoryView;
use crate::model::stack::StackView;
use crate::variable::ZVariable;

verus! {

/// The memory of the machine.
///
/// An implementation supplies the story's bytes and says which positions
/// are dynamic and which are static. From that, the trait reads and writes
/// bytes and words with regard to the regions.
pub trait Memory {
    /// The memory as its users see it.
    spec fn model(&self) -> MemoryView;

    /// What the implementation needs to hold of itself.
    spec fn wf(&self) -> bool;

    /// A memory that is as it needs to be looks to its users as a memory
    /// should.
    proof fn lemma_model_wf(&self)
        requires
            self.wf(),
        ensures
            self.model().wf(),
    ;

    /// The number of bytes in the story.
    fn memory_size(&self) -> (size: usize)
        requires
            self.wf(),
        ensures
            size == self.model().bytes.len(),
    ;

    /// Whether `idx` lies in dynamic memory.
    fn in_dynamic_range(&self, idx: ZOffset) -> (b: bool)
        requires
            self.wf(),
        ensures
            b == self.model().dynamic_region.contains(idx@ as int),
    ;

    /// Whether `idx` lies in static memory.
    fn in_static_range(&self, idx: ZOffset) -> (b: bool)
        requires
            self.wf(),
        ensures
            b == self.model().static_region.contains(idx@ as int),
    ;

    /// Reads a byte without regard to the regions.
    fn read_byte_unchecked(&self, offset: ZOffset) -> (r: Result<u8, ZError>)
        requires
            self.wf(),
        ensures
            r == self.model().read_byte_unchecked(offset@ as int),
    ;

    /// Writes a byte without regard to the regions.
    fn write_byte_unchecked(&mut self, offset: ZOffset, val: u8) -> (r: Result<(), ZError>)
        requires
            old(self).wf(),
        ensures
            final(self).wf(),
            (final(self).model(), r) == old(self).model().write_byte_unchecked(offset@ as int, val),
    ;

    /// The bytes from `offset` to the end of the story, without copying them.
    fn slice_at(&self, offset: ZOffset) -> (r: Result<&[u8], ZError>)
        requires
            self.wf(),
        ensures
            match self.model().slice_at(offset@ as int) {
                Ok(bytes) => r is Ok && r.unwrap()@ == bytes,
                Err(e) => r == Err::<&[u8], ZError>(e),
            },
    ;

    /// Reads a byte of dynamic or static memory.
    fn read_byte(&self, offset: ZOffset) -> (r: Result<u8, ZError>)
        requires
            self.wf(),
        ensures
            r == self.model().read_byte(offset@ as int),
    {
        if !(self.in_dynamic_range(offset) || self.in_static_range(offset)) {
            return Err(ZError::ReadOutOfBounds);
        }
        self.read_byte_unchecked(offset)
    }

    /// Writes a byte of dynamic memory.
    fn write_byte(&mut self, offset: ZOffset, val: u8) -> (r: Result<(), ZError>)
        requires
            old(self).wf(),
        ensures
            final(self).wf(),
            (final(self).model(), r) == old(self).model().write_byte(offset@ as int, val),
    {
        if !self.in_dynamic_range(offset) {
            return Err(ZError::WriteProtected);
        }
        self.write_byte_unchecked(offset, val)
    }

    /// Reads a word, high byte first.
    fn read_word(&self, offset: ZOffset) -> (r: Result<u16, ZError>)
        requires
            self.wf(),
        ensures
            r == self.model().read_word(offset@ as int),
    {
        let high: u16 = match self.read_byte(offset) {
            Ok(byte) => byte as u16,
            Err(e) => {
                return Err(e);
            },
        };
        let next: ZOffset = match offset.checked_add(1) {
            Some(next) => next,
            None => {
                proof {
                    self.lemma_model_wf();
                }
                return Err(ZError::ReadOutOfBounds);
            },
        };
        let low: u16 = match self.read_byte(next) {
            Ok(byte) => byte as u16,
            Err(e) => {
                return Err(e);
            },
        };
        Ok(high * 0x100 + low)
    }

    /// Writes a word, high byte first. May fail after the high byte has been
    /// written.
    fn write_word(&mut self, offset: ZOffset, val: u16) -> (r: Result<(), ZError>)
        requires
            old(self).wf(),
        ensures
            final(self).wf(),
            (final(self).model(), r) == old(self).model().write_word(offset@ as int, val),
    {
        proof {
            lemma_split_word(val);
        }
        let high: u8 = ((val >> 8) & 0xff) as u8;
        let low: u8 = (val & 0xff) as u8;
        match self.write_byte(offset, high) {
            Ok(()) => {},
            Err(e) => {
                return Err(e);
            },
        }
        let next: ZOffset = match offset.checked_add(1) {
            Some(next) => next,
            None => {
                proof {
                    self.lemma_model_wf();
                }
                return Err(ZError::WriteProtected);
            },
        };
        self.write_byte(next, low)
    }
}

/// The abbreviation tables of a story: three tables of 32 entries each, of
/// which each names the place of a string.
pub trait AbbrevTable {
    /// Where the tables start.
    spec fn base(&self) -> nat;

    /// What the implementation needs to hold of itself.
    spec fn wf(&self) -> bool;

    /// Where the string lies that entry `idx` of table `table` stands for.
    /// `table` and `idx` are as the text decoder finds them in a string.
    fn abbrev_location<M: Memory>(&self, memory: &M, table: u8, idx: u8) -> (r: Result<
        WordAddress,
        ZError,
    >)
        requires
            self.wf(),
            memory.wf(),
        ensures
            r == abbrev_entry(memory.model(), self.base(), table, idx),
    ;
}

/// The call stack of the machine: the frames of the calls in progress, each
/// with its locals and its evaluation stack.
///
/// An implementation supplies the bytes of the evaluation stack, the frames
/// and the locals. From that, the trait pushes and pops words.
pub trait Stack {
    /// The stack as its users see it.
    spec fn model(&self) -> StackView;

    /// What the implementation needs to hold of itself.
    spec fn wf(&self) -> bool;

    /// A stack that is as it needs to be looks to its users as a stack
    /// should.
    proof fn lemma_model_wf(&self)
        requires
            self.wf(),
        ensures
            self.model().wf(),
    ;

    /// Pushes a byte on the evaluation stack of the current call.
    fn push_byte(&mut self, val: u8) -> (r: Result<(), ZError>)
        requires
            old(self).wf(),
        ensures
            final(self).wf(),
            (final(self).model(), r) == old(self).model().push_byte(val),
    ;

    /// Pops a byte off the evaluation stack of the current call.
    fn pop_byte(&mut self) -> (r: Result<u8, ZError>)
        requires
            old(self).wf(),
        ensures
            final(self).wf(),
            (final(self).model(), r) == old(self).model().pop_byte(),
    ;

    /// Makes a call: pushes a frame with `num_locals` locals, of which the
    /// first take the operands, and makes it the current one.
    fn push_frame(
        &mut self,
        return_pc: ZOffset,
        num_locals: u8,
        return_var: ZVariable,
        operands: &[u16],
    ) -> (r: Result<(), ZError>)
        requires
            old(self).wf(),
        ensures
            final(self).wf(),
            (final(self).model(), r) == old(self).model().push_frame(
                return_pc@,
                num_locals,
                return_var,
                operands@,
            ),
    ;

    /// Returns from the current call: drops its frame with all that is on its
    /// evaluation stack, and makes the frame below the current one.
    fn pop_frame(&mut self) -> (r: Result<(), ZError>)
        requires
            old(self).wf(),
        ensures
            final(self).wf(),
            (final(self).model(), r) == old(self).model().pop_frame(),
    ;

    /// The value of a local of the current call.
    fn read_local(&self, var: ZVariable) -> (r: Result<u16, ZError>)
        requires
            self.wf(),
        ensures
            r == self.model().read_local(var),
    ;

    /// Sets a local of the current call.
    fn write_local(&mut self, var: ZVariable, val: u16) -> (r: Result<(), ZError>)
        requires
            old(self).wf(),
        ensures
            final(self).wf(),
            (final(self).model(), r) == old(self).model().write_local(var, val),
    ;

    /// Where to go on when the current call returns.
    fn return_pc(&self) -> (pc: usize)
        requires
            self.wf(),
        ensures
            pc == self.model().top().return_pc,
    ;

    /// The variable that takes the result of the current call.
    fn return_variable(&self) -> (var: ZVariable)
        requires
            self.wf(),
        ensures
            var == self.model().top().return_variable,
    ;

    /// Pushes a word, high byte first. May fail after the high byte has been
    /// pushed.
    fn push_word(&mut self, word: u16) -> (r: Result<(), ZError>)
        requires
            old(self).wf(),
        ensures
            final(self).wf(),
            (final(self).model(), r) == old(self).model().push_word(word),
    {
        proof {
            lemma_split_word(word);
        }
        match self.push_byte(((word >> 8) & 0xff) as u8) {
            Ok(()) => {},
            Err(e) => {
                return Err(e);
            },
        }
        self.push_byte((word & 0xff) as u8)
    }

    /// Pops a word, low byte first. May fail after the low byte has been
    /// popped.
    fn pop_word(&mut self) -> (r: Result<u16, ZError>)
        requires
            old(self).wf(),
        ensures
            final(self).wf(),
            (final(self).model(), r) == old(self).model().pop_word(),
    {
        let low: u16 = match self.pop_byte() {
            Ok(byte) => byte as u16,
            Err(e) => {
                return Err(e);
            },
        };
        let high: u16 = match self.pop_byte() {
            Ok(byte) => byte as u16,
            Err(e) => {
                return Err(e);
            },
        };
        Ok(high * 0x100 + low)
    }
}

} // verus!
