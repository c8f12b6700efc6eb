//! The part of the machine that runs the story.

use vstd::prelude::*;
use crate::error::ZError;
use crate::memory::ZMemory;
use crate::pc::PC;
use crate::stack::ZStack;

verus! {

/// The processor: what runs the story, with all that it runs it on.
pub struct ZProcessor {
    /// The memory that holds the story.
    memory: ZMemory,
    /// The position of the next instruction.
    pc: PC,
    /// The calls in progress, with their locals.
    stack: ZStack,
}

impl ZProcessor {
    /// The memory that holds the story.
    pub closed spec fn memory(&self) -> ZMemory {
        self.memory
    }

    /// The position of the next instruction.
    pub closed spec fn pc(&self) -> PC {
        self.pc
    }

    /// The calls in progress.
    pub closed spec fn stack(&self) -> ZStack {
        self.stack
    }

    /// A processor that starts at `pc`.
    pub fn new(memory: ZMemory, pc: PC, stack: ZStack) -> (processor: ZProcessor)
        ensures
            processor.memory() == memory,
            processor.pc() == pc,
            processor.stack() == stack,
    {
        ZProcessor { memory, pc, stack }
    }

    /// Runs the story. No instruction is implemented, so this is done at
    /// once and changes nothing.
    pub fn process(&self) -> (r: Result<(), ZError>)
        ensures
            r == Ok::<(), ZError>(()),
    {
        Ok(())
    }
}

} // verus!
