//! The program counter.

use vstd::prelude::*;
use vstd::std_specs::convert::FromSpecImpl;
use vstd::std_specs::ops::AddSpecImpl;
use crate::addressing::ZOffset;

verus! {

/// The position of the next instruction.
#[derive(Debug)]
pub struct PC(pub usize);

impl View for PC {
    type V = nat;

    open spec fn view(&self) -> nat {
        self.0 as nat
    }
}

impl Default for PC {
    fn default() -> (pc: PC)
        ensures
            pc@ == 0,
    {
        PC(0)
    }
}

impl PC {
    /// The program counter at `offset`.
    pub fn at(offset: ZOffset) -> (pc: PC)
        ensures
            pc@ == offset@,
    {
        PC(offset.0)
    }

    /// Whether the program counter has not been set: no instruction is at 0,
    /// where the header is.
    pub fn is_zero(&self) -> (b: bool)
        ensures
            b == (self@ == 0),
    {
        self.0 == 0
    }

    /// Moves the program counter on by `rhs`. The sum has to fit: a program
    /// counter never wraps.
    pub fn add_assign(&mut self, rhs: ZOffset)
        requires
            old(self)@ + rhs@ <= usize::MAX,
        ensures
            final(self)@ == old(self)@ + rhs@,
    {
        self.0 = self.0 + rhs.0;
    }
}

impl From<PC> for ZOffset {
    fn from(pc: PC) -> (offset: ZOffset) {
        ZOffset(pc.0)
    }
}

impl FromSpecImpl<PC> for ZOffset {
    open spec fn obeys_from_spec() -> bool {
        true
    }

    open spec fn from_spec(pc: PC) -> ZOffset {
        ZOffset(pc.0)
    }
}

/// The offset as many bytes further on as the program counter says.
impl core::ops::Add<PC> for ZOffset {
    type Output = ZOffset;

    fn add(self, rhs: PC) -> (sum: ZOffset) {
        ZOffset(self.0 + rhs.0)
    }
}

impl AddSpecImpl<PC> for ZOffset {
    open spec fn obeys_add_spec() -> bool {
        true
    }

    open spec fn add_req(self, rhs: PC) -> bool {
        self@ + rhs@ <= usize::MAX
    }

    open spec fn add_spec(self, rhs: PC) -> ZOffset {
        ZOffset((self@ + rhs@) as usize)
    }
}

} // verus!
