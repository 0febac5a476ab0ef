use vstd::prelude::*;

verus! {

/// A constant of the legacy single-chunk format: a one-byte signed integer.
#[derive(Debug, Clone, Copy, PartialEq, Eq, Structural)]
pub enum ChunkConstant {
    INT(i8),
}

/// An instruction of the legacy format, decoded when the chunk is parsed.
#[derive(Debug, Clone, Copy, PartialEq, Eq, Structural)]
pub enum Instruction {
    Constant(usize),
    Null,
    True,
    False,
    Pop,
    GetLocal(usize),
    SetLocal(usize),
    GetGlobal(usize),
    DefineGlobal(usize),
    SetGlobal(usize),
    Print,
    Not,
    Equal,
    Greater,
    Less,
    Negate,
    Add,
    Subtract,
    Multiply,
    Divide,
}

/// A parsed legacy chunk: its constant pool and its decoded instructions.
#[derive(Debug, PartialEq)]
pub struct Chunk {
    pub constants: Vec<ChunkConstant>,
    pub code: Vec<Instruction>,
}

} // verus!
