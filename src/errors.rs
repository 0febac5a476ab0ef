use vstd::prelude::*;

verus! {

/// What was being read when the input ran out.
#[derive(Debug, Clone, Copy, PartialEq, Eq, Structural)]
pub enum Field {
    ChunkConstantCount,
    ConstantType,
    IntConstant,
    StringLength,
    StringContent,
    FunctionChunkId,
    InstructionByteCount,
    ChunkCode,
    OpCode,
    Operand,
}

/// Every failure of the parser and of the machine; none of them panics.
#[derive(Debug, Clone, Copy, PartialEq, Eq, Structural)]
pub enum MachineError {
    /// The input ended while `field` was read at byte `position`.
    UnexpectedEndOfInput { field: Field, position: usize },
    /// No instruction is registered under `op_code`, found at `position`.
    UnsupportedOpcode { op_code: u8, position: usize },
    /// A constant carries an unknown type tag; `position` follows the tag.
    UnsupportedConstantType { tag: u8, position: usize },
    /// The string constant whose bytes start at `position` is not UTF-8.
    InvalidEncoding { position: usize },
    /// A value was used where another kind was required.
    TypeMismatch,
    /// A function declared with `expected` parameters got `actual` arguments.
    ArityMismatch { expected: usize, actual: usize },
    /// The callee of a call is not a function.
    NotCallable,
    /// A pop or a peek reached below the current frame, or no frame is left.
    StackUnderflow,
    /// A function refers to a chunk that the code does not hold.
    InvalidChunkReference { chunk_id: usize },
    /// A jump would move the instruction pointer outside `0..=usize::MAX`.
    JumpOutOfRange,
}

} // verus!
