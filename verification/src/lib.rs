//! A bytecode interpreter for a small dynamically-typed scripting language
//! in the Lox family. Source text is scanned into tokens, compiled in a
//! single pass into a chunk of bytecode, and executed by a stack machine
//! with interned strings and a global environment.

pub mod chunks;
pub mod colors;
pub mod compiler;
pub mod disassembler;
pub mod error;
pub mod num;
pub mod opcode;
pub mod parser;
pub mod scanner;
pub mod text;
pub mod token;
pub mod value;
pub mod vm;
