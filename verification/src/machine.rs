//! The machine as a whole.

use vstd::prelude::*;
use crate::bytes::word_at;
use crate::constants::header_offset::START_PC;
use crate::constants::stack::STACK_SIZE;
use crate::error::ZError;
use crate::header::start_pc_of;
use crate::header::Header;
use crate::memory::layout_of;
use crate::memory::ZMemory;
use crate::pc::PC;
use crate::processor::ZProcessor;
use crate::stack::ZStack;
use crate::model::stack::StackView;
use crate::traits::Memory;
use crate::traits::Stack;

verus! {

/// The machine under the name that its users know.
pub type ZMachine = Machine;

/// A story loaded and ready to run.
pub struct Machine {
    processor: ZProcessor,
}

impl Machine {
    /// The processor that runs the story.
    pub closed spec fn processor(&self) -> ZProcessor {
        self.processor
    }

    /// Loads a story into a new machine: its memory holds the story, its
    /// stack holds the bottom frame alone, and its program counter stands
    /// where the header says that execution starts.
    pub fn from_bytes(bytes: Vec<u8>) -> (r: Result<Machine, ZError>)
        ensures
            match layout_of(bytes@) {
                Ok(layout) => r matches Ok(machine) && machine.processor().memory().wf()
                    && machine.processor().memory().layout() == layout
                    && machine.processor().memory().model() == layout.memory(bytes@)
                    && machine.processor().stack().wf() && machine.processor().stack().model()
                    == StackView::initial(STACK_SIZE as nat) && machine.processor().pc()@
                    == word_at(bytes@, START_PC as int),
                Err(e) => r matches Err(err) && err == e,
            },
    {
        let memory = match ZMemory::from_bytes(bytes) {
            Ok(memory) => memory,
            Err(e) => {
                return Err(e);
            },
        };
        proof {
            memory.lemma_header_readable(START_PC as int);
            memory.lemma_header_readable(START_PC + 1);
        }
        let stack = ZStack::default();
        Ok(MachineBuilder::new().memory(memory).stack(stack).build())
    }

    /// Runs the story to its end.
    pub fn run(self) -> (r: Result<(), ZError>)
        ensures
            r == Ok::<(), ZError>(()),
    {
        self.processor.process()
    }
}

/// The parts of a machine, as far as they have been chosen.
pub struct MachineBuilder {
    memory: Option<ZMemory>,
    pc: PC,
    stack: Option<ZStack>,
}

impl MachineBuilder {
    /// The memory that has been chosen, if any.
    pub closed spec fn spec_memory(&self) -> Option<ZMemory> {
        self.memory
    }

    /// The program counter that has been chosen; 0 if none has.
    pub closed spec fn spec_pc(&self) -> PC {
        self.pc
    }

    /// The stack that has been chosen, if any.
    pub closed spec fn spec_stack(&self) -> Option<ZStack> {
        self.stack
    }

    /// Whether a machine can be built: it needs a memory and a stack, both
    /// as they should be.
    pub open spec fn complete(&self) -> bool {
        &&& self.spec_memory() matches Some(memory) && memory.wf()
        &&& self.spec_stack() matches Some(stack) && stack.wf()
    }

    /// Where the machine that is built starts to run: where the program
    /// counter was set to, or else where the header of the story says.
    pub open spec fn start(&self) -> nat {
        if self.spec_pc()@ != 0 {
            self.spec_pc()@
        } else {
            start_pc_of(self.spec_memory().unwrap().model()).unwrap().offset()
        }
    }

    /// A builder with nothing chosen.
    pub fn new() -> (builder: MachineBuilder)
        ensures
            builder.spec_memory() is None,
            builder.spec_pc()@ == 0,
            builder.spec_stack() is None,
    {
        MachineBuilder { memory: None, pc: PC::default(), stack: None }
    }

    /// Chooses the memory.
    pub fn memory(self, memory: ZMemory) -> (builder: MachineBuilder)
        ensures
            builder.spec_memory() == Some(memory),
            builder.spec_pc() == self.spec_pc(),
            builder.spec_stack() == self.spec_stack(),
    {
        let mut builder = self;
        builder.memory = Some(memory);
        builder
    }

    /// Chooses the stack.
    pub fn stack(self, stack: ZStack) -> (builder: MachineBuilder)
        ensures
            builder.spec_memory() == self.spec_memory(),
            builder.spec_pc() == self.spec_pc(),
            builder.spec_stack() == Some(stack),
    {
        let mut builder = self;
        builder.stack = Some(stack);
        builder
    }

    /// Chooses where the machine starts to run, in place of what the header of
    /// the story says.
    pub fn pc(self, pc: PC) -> (builder: MachineBuilder)
        ensures
            builder.spec_memory() == self.spec_memory(),
            builder.spec_pc() == pc,
            builder.spec_stack() == self.spec_stack(),
    {
        let mut builder = self;
        builder.pc = pc;
        builder
    }

    /// The machine of the chosen parts.
    pub fn build(self) -> (machine: Machine)
        requires
            self.complete(),
        ensures
            Some(machine.processor().memory()) == self.spec_memory(),
            Some(machine.processor().stack()) == self.spec_stack(),
            machine.processor().pc()@ == self.start(),
    {
        let memory = self.memory.unwrap();
        let stack = self.stack.unwrap();
        proof {
            memory.lemma_header_readable(START_PC as int);
            memory.lemma_header_readable(START_PC + 1);
        }
        let pc = if self.pc.is_zero() {
            // The program counter has not been set: the header says where
            // execution starts.
            PC::at(Header::start_pc(&memory).unwrap().into())
        } else {
            self.pc
        };
        Machine { processor: ZProcessor::new(memory, pc, stack) }
    }
}

} // verus!
