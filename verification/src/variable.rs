//! Where an operand lives: on the evaluation stack, in a local of the
//! current routine, or in a global.

use vstd::prelude::*;
use vstd::std_specs::convert::FromSpecImpl;
use crate::display::hex_digits;
use crate::display::push_hex_byte;
use crate::error::ZError;

verus! {

/// The byte that encodes the first local.
pub const LOCAL_START_RAW: u8 = 0x01;

/// The byte that encodes the last local.
pub const LOCAL_END_RAW: u8 = 0x0f;

/// The index of the last local.
pub const MAX_LOCAL: u8 = LOCAL_END_RAW - LOCAL_START_RAW;

/// The byte that encodes the first global.
pub const GLOBAL_START_RAW: u8 = 0x10;

/// The byte that encodes the last global.
pub const GLOBAL_END_RAW: u8 = 0xff;

/// The index of the last global.
pub const MAX_GLOBAL: u8 = GLOBAL_END_RAW - GLOBAL_START_RAW;

/// A variable, in its one-byte encoding: 0 is the top of the evaluation
/// stack, 1 to 15 are the locals 0 to 14, and 16 to 255 are the globals 0 to
/// 239.
#[derive(Copy, Clone, Debug, Eq, PartialEq, Structural)]
pub struct ZVariable(pub u8);

impl Default for ZVariable {
    fn default() -> (var: ZVariable)
        ensures
            var == ZVariable::spec_stack(),
    {
        ZVariable(0)
    }
}

impl ZVariable {
    /// The stack variable.
    pub open spec fn spec_stack() -> ZVariable {
        ZVariable(0)
    }

    /// Whether this is the stack variable.
    pub open spec fn spec_is_stack(&self) -> bool {
        self.0 == 0
    }

    /// Whether this is a local.
    pub open spec fn spec_is_local(&self) -> bool {
        LOCAL_START_RAW <= self.0 <= LOCAL_END_RAW
    }

    /// Whether this is a global.
    pub open spec fn spec_is_global(&self) -> bool {
        GLOBAL_START_RAW <= self.0 <= GLOBAL_END_RAW
    }

    /// The local with the given index, where there is one.
    pub open spec fn spec_local(lidx: u8) -> Result<ZVariable, ZError> {
        if lidx <= MAX_LOCAL {
            Ok(ZVariable((lidx + LOCAL_START_RAW) as u8))
        } else {
            Err(ZError::LocalOutOfRange)
        }
    }

    /// The global with the given index, where there is one.
    pub open spec fn spec_global(gidx: u8) -> Result<ZVariable, ZError> {
        if gidx <= MAX_GLOBAL {
            Ok(ZVariable((gidx + GLOBAL_START_RAW) as u8))
        } else {
            Err(ZError::GlobalOutOfRange)
        }
    }

    /// The index of a local among the locals, of a global among the globals.
    pub open spec fn spec_index(&self) -> Result<u8, ZError> {
        if self.spec_is_local() {
            Ok((self.0 - LOCAL_START_RAW) as u8)
        } else if self.spec_is_global() {
            Ok((self.0 - GLOBAL_START_RAW) as u8)
        } else {
            Err(ZError::NotIndexable)
        }
    }

    /// What `to_string` writes: `SP`, or `L` or `G` and the index in two
    /// hexadecimal digits.
    pub open spec fn display(&self) -> Seq<char> {
        if self.spec_is_stack() {
            seq!['S', 'P']
        } else if self.spec_is_local() {
            seq!['L'] + hex_digits(self.spec_index().unwrap())
        } else {
            seq!['G'] + hex_digits(self.spec_index().unwrap())
        }
    }

    /// The variable that `byte` encodes.
    pub fn raw(byte: u8) -> (var: ZVariable)
        ensures
            var.0 == byte,
    {
        ZVariable(byte)
    }

    /// The stack variable.
    #[verifier::when_used_as_spec(spec_stack)]
    pub fn stack() -> (var: ZVariable)
        ensures
            var == ZVariable::spec_stack(),
    {
        ZVariable(0)
    }

    /// Whether this is the stack variable.
    #[verifier::when_used_as_spec(spec_is_stack)]
    pub fn is_stack(&self) -> (b: bool)
        ensures
            b == self.spec_is_stack(),
    {
        self.0 == 0
    }

    /// The local with the given index: 0 to 14.
    pub fn local(lidx: u8) -> (r: Result<ZVariable, ZError>)
        ensures
            r == ZVariable::spec_local(lidx),
    {
        if lidx > MAX_LOCAL {
            return Err(ZError::LocalOutOfRange);
        }
        Ok(ZVariable(lidx + LOCAL_START_RAW))
    }

    /// Whether this is a local.
    #[verifier::when_used_as_spec(spec_is_local)]
    pub fn is_local(&self) -> (b: bool)
        ensures
            b == self.spec_is_local(),
    {
        LOCAL_START_RAW <= self.0 && self.0 <= LOCAL_END_RAW
    }

    /// The global with the given index: 0 to 239.
    pub fn global(gidx: u8) -> (r: Result<ZVariable, ZError>)
        ensures
            r == ZVariable::spec_global(gidx),
    {
        if gidx > MAX_GLOBAL {
            return Err(ZError::GlobalOutOfRange);
        }
        Ok(ZVariable(gidx + GLOBAL_START_RAW))
    }

    /// Whether this is a global.
    #[verifier::when_used_as_spec(spec_is_global)]
    pub fn is_global(&self) -> (b: bool)
        ensures
            b == self.spec_is_global(),
    {
        GLOBAL_START_RAW <= self.0
    }

    /// The index of a local among the locals, of a global among the globals.
    pub fn index(&self) -> (r: Result<u8, ZError>)
        ensures
            r == self.spec_index(),
    {
        if self.is_local() {
            Ok(self.0 - LOCAL_START_RAW)
        } else if self.is_global() {
            Ok(self.0 - GLOBAL_START_RAW)
        } else {
            Err(ZError::NotIndexable)
        }
    }

    /// The variable as it is shown in diagnostics.
    pub fn to_string(&self) -> (s: String)
        ensures
            s@ == self.display(),
    {
        let mut s = String::new();
        if self.is_stack() {
            s.push('S');
            s.push('P');
            assert(s@ == seq!['S', 'P']);
        } else if self.is_local() {
            s.push('L');
            assert(s@ == seq!['L']);
            push_hex_byte(&mut s, self.0 - LOCAL_START_RAW);
        } else {
            s.push('G');
            assert(s@ == seq!['G']);
            push_hex_byte(&mut s, self.0 - GLOBAL_START_RAW);
        }
        s
    }

    /// Every byte encodes exactly one kind of variable.
    pub proof fn lemma_kinds_partition(self)
        ensures
            self.spec_is_stack() || self.spec_is_local() || self.spec_is_global(),
            !(self.spec_is_stack() && self.spec_is_local()),
            !(self.spec_is_stack() && self.spec_is_global()),
            !(self.spec_is_local() && self.spec_is_global()),
    {
    }

    /// The locals 0 to 14 exist, each is a local and has the index it was made
    /// from, and there is no other local.
    pub proof fn lemma_local_index(lidx: u8)
        ensures
            lidx <= 14 ==> ZVariable::spec_local(lidx) is Ok
                && ZVariable::spec_local(lidx).unwrap().spec_is_local()
                && ZVariable::spec_local(lidx).unwrap().spec_index() == Ok::<u8, ZError>(lidx),
            lidx > 14 ==> ZVariable::spec_local(lidx) == Err::<ZVariable, ZError>(
                ZError::LocalOutOfRange,
            ),
    {
    }

    /// The globals 0 to 239 exist, each is a global and has the index it was
    /// made from, and there is no other global.
    pub proof fn lemma_global_index(gidx: u8)
        ensures
            gidx <= 239 ==> ZVariable::spec_global(gidx) is Ok
                && ZVariable::spec_global(gidx).unwrap().spec_is_global()
                && ZVariable::spec_global(gidx).unwrap().spec_index() == Ok::<u8, ZError>(gidx),
            gidx > 239 ==> ZVariable::spec_global(gidx) == Err::<ZVariable, ZError>(
                ZError::GlobalOutOfRange,
            ),
    {
    }
}

impl From<ZVariable> for u8 {
    fn from(var: ZVariable) -> (byte: u8) {
        var.0
    }
}

impl FromSpecImpl<ZVariable> for u8 {
    open spec fn obeys_from_spec() -> bool {
        true
    }

    open spec fn from_spec(var: ZVariable) -> u8 {
        var.0
    }
}

} // verus!
