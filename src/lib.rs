//! An assembler for the Hack instruction set: symbolic source text in,
//! one 16-character binary word per instruction out.

pub mod assembler;
pub mod chars;
pub mod laws;
pub mod mnemonic;
pub mod source;
pub mod symbols;
pub mod word;
