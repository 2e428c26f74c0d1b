//! A Zilog Z80 processor core: registers, flag helpers, instruction
//! decoding, a memory/I-O bus and an interpreter that executes one
//! instruction at a time.

pub mod flags;
pub mod registers;
pub mod decode;
pub mod bus;
pub mod machine;
pub mod cpu;
pub mod semantics;
pub mod laws;
pub mod trace;
