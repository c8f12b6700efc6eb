//! Runtime substrate of a Z-machine interpreter: story memory, addressing,
//! the call stack, variable locations, abbreviations and packed text.

pub mod abbrevs;
pub mod addressing;
pub mod bytes;
pub mod constants;
pub mod display;
pub mod error;
pub mod header;
pub mod machine;
pub mod memory;
pub mod model;
pub mod pc;
pub mod processor;
pub mod stack;
pub mod text;
pub mod traits;
pub mod variable;
pub mod versions;
