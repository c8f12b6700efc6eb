//! The machine's parts as their users see them: what a memory and a stack
//! hold, what each operation makes of them, and what follows from that.

pub mod abbrevs;
pub mod memory;
pub mod stack;
