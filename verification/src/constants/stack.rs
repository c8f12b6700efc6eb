//! The size of the call stack.

use vstd::prelude::*;

verus! {

/// The number of bytes in the stack. It fits in 16 bits, so that a frame can
/// save the index of the frame below it in one word, and so does the value
/// itself, which the bottom frame saves in place of such an index.
pub const STACK_SIZE: usize = 4096;

} // verus!
