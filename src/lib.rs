//! A bytecode virtual machine: a parser for the binary chunk format and the
//! control-flow core of a stack machine that executes it.

pub mod errors;
pub mod reader;
pub mod code;
pub mod bytecode_parser;
pub mod machine;
pub mod jumps;
pub mod vm;
pub mod chunk;
pub mod chunk_parser;
