use vstd::prelude::*;
use crate::chunk::{Chunk, ChunkConstant, Instruction};
use crate::errors::{Field, MachineError};
use crate::reader::BytecodeReader;

verus! {

/// The signed integer that a byte holds in two's complement.
pub open spec fn i8_of_byte(b: u8) -> int {
    if b < 128 {
        b as int
    } else {
        b as int - 256
    }
}

/// The instruction with no operand under opcode `op`, one of 1-4 and 10-19.
pub open spec fn plain_instruction(op: u8) -> Instruction {
    if op == 1 {
        Instruction::Null
    } else if op == 2 {
        Instruction::True
    } else if op == 3 {
        Instruction::False
    } else if op == 4 {
        Instruction::Pop
    } else if op == 10 {
        Instruction::Print
    } else if op == 11 {
        Instruction::Not
    } else if op == 12 {
        Instruction::Equal
    } else if op == 13 {
        Instruction::Greater
    } else if op == 14 {
        Instruction::Less
    } else if op == 15 {
        Instruction::Negate
    } else if op == 16 {
        Instruction::Add
    } else if op == 17 {
        Instruction::Subtract
    } else if op == 18 {
        Instruction::Multiply
    } else {
        Instruction::Divide
    }
}

/// Whether opcode `op` takes a one-byte operand: 0 and 5-9.
pub open spec fn has_operand(op: u8) -> bool {
    op == 0 || (5 <= op <= 9)
}

/// The instruction under opcode `op` (0 or 5-9) with operand `x`.
pub open spec fn operand_instruction(op: u8, x: usize) -> Instruction {
    if op == 0 {
        Instruction::Constant(x)
    } else if op == 5 {
        Instruction::GetLocal(x)
    } else if op == 6 {
        Instruction::SetLocal(x)
    } else if op == 7 {
        Instruction::GetGlobal(x)
    } else if op == 8 {
        Instruction::DefineGlobal(x)
    } else {
        Instruction::SetGlobal(x)
    }
}

/// The instruction encoded at `p`, and the offset just past it.
pub open spec fn instruction_at(b: Seq<u8>, p: int) -> Result<(Instruction, int), MachineError> {
    if p >= b.len() {
        Err(MachineError::UnexpectedEndOfInput { field: Field::OpCode, position: p as usize })
    } else {
        let op = b[p];
        if has_operand(op) {
            if p + 1 >= b.len() {
                Err(MachineError::UnexpectedEndOfInput { field: Field::Operand, position: (p + 1) as usize })
            } else {
                Ok((operand_instruction(op, b[p + 1] as usize), p + 2))
            }
        } else if op <= 19 {
            Ok((plain_instruction(op), p + 1))
        } else {
            Err(MachineError::UnsupportedOpcode { op_code: op, position: p as usize })
        }
    }
}

/// The instructions encoded from `p` to the end of `b`.
pub open spec fn instructions_from(b: Seq<u8>, p: int) -> Result<Seq<Instruction>, MachineError>
    decreases b.len() - p via instructions_from_decreases
{
    if p >= b.len() {
        Ok(seq![])
    } else {
        match instruction_at(b, p) {
            Err(e) => Err(e),
            Ok((i, q)) => match instructions_from(b, q) {
                Err(e) => Err(e),
                Ok(is) => Ok(seq![i] + is),
            },
        }
    }
}

#[via_fn]
proof fn instructions_from_decreases(b: Seq<u8>, p: int) {
}

/// A legacy chunk: a constant count `k`, `k` one-byte integers, then
/// instructions up to the end of the input.
pub open spec fn legacy_chunk(b: Seq<u8>) -> Result<(Seq<ChunkConstant>, Seq<Instruction>), MachineError> {
    if b.len() < 1 {
        Err(MachineError::UnexpectedEndOfInput { field: Field::ChunkConstantCount, position: 0 })
    } else if b.len() - 1 < b[0] {
        Err(MachineError::UnexpectedEndOfInput { field: Field::IntConstant, position: b.len() as usize })
    } else {
        let k = b[0] as int;
        let cs = Seq::new(k as nat, |i: int| ChunkConstant::INT(i8_of_byte(b[1 + i]) as i8));
        match instructions_from(b, 1 + k) {
            Err(e) => Err(e),
            Ok(is) => Ok((cs, is)),
        }
    }
}

/// The instructions parsed before the rest, followed by what the rest parses to.
pub open spec fn after_instructions(
    pre: Seq<Instruction>,
    rest: Result<Seq<Instruction>, MachineError>,
) -> Result<Seq<Instruction>, MachineError> {
    match rest {
        Ok(is) => Ok(pre + is),
        Err(e) => Err(e),
    }
}

/// Parses a chunk of the legacy format, decoding every instruction at once.
pub struct ChunkParser {
    reader: BytecodeReader,
    constants: Vec<ChunkConstant>,
    instructions: Vec<Instruction>,
}

impl ChunkParser {
    /// Parses `bytes` as one legacy chunk.
    pub fn parse_bytes(bytes: Vec<u8>) -> (r: Result<Chunk, MachineError>)
        ensures
            r matches Ok(c) ==> legacy_chunk(bytes@) == Ok::<(Seq<ChunkConstant>, Seq<Instruction>), MachineError>((c.constants@, c.code@)),
            r matches Err(e) ==> legacy_chunk(bytes@) == Err::<(Seq<ChunkConstant>, Seq<Instruction>), MachineError>(e),
    {
        let parser = ChunkParser::new(bytes);
        parser.parse()
    }

    fn new(bytes: Vec<u8>) -> (r: ChunkParser)
        ensures
            r.reader.wf(),
            r.reader.bytes() == bytes@,
            r.reader.pos() == 0,
            r.constants@.len() == 0,
            r.instructions@.len() == 0,
    {
        ChunkParser { reader: BytecodeReader::new(bytes), constants: Vec::new(), instructions: Vec::new() }
    }

    fn parse(self) -> (r: Result<Chunk, MachineError>)
        requires
            self.reader.wf(),
            self.reader.pos() == 0,
            self.constants@.len() == 0,
            self.instructions@.len() == 0,
        ensures
            r matches Ok(c) ==> legacy_chunk(self.reader.bytes()) == Ok::<(Seq<ChunkConstant>, Seq<Instruction>), MachineError>((c.constants@, c.code@)),
            r matches Err(e) ==> legacy_chunk(self.reader.bytes()) == Err::<(Seq<ChunkConstant>, Seq<Instruction>), MachineError>(e),
    {
        let mut parser = self;
        parser.parse_constants()?;
        parser.parse_instructions()?;
        Ok(Chunk { constants: parser.constants, code: parser.instructions })
    }

    fn parse_constants(&mut self) -> (r: Result<(), MachineError>)
        requires
            old(self).reader.wf(),
            old(self).reader.pos() == 0,
            old(self).constants@.len() == 0,
        ensures
            final(self).reader.wf(),
            final(self).reader.bytes() == old(self).reader.bytes(),
            final(self).instructions == old(self).instructions,
            ({
                let b = old(self).reader.bytes();
                if b.len() < 1 {
                    r == Err::<(), MachineError>(MachineError::UnexpectedEndOfInput { field: Field::ChunkConstantCount, position: 0 })
                } else if b.len() - 1 < b[0] {
                    r == Err::<(), MachineError>(MachineError::UnexpectedEndOfInput { field: Field::IntConstant, position: b.len() as usize })
                } else {
                    r is Ok && final(self).reader.pos() == 1 + b[0]
                        && final(self).constants@ == Seq::new(b[0] as nat, |i: int| ChunkConstant::INT(i8_of_byte(b[1 + i]) as i8))
                }
            }),
    {
        let ghost b = self.reader.bytes();
        let n_constants = self.reader.read_byte(Field::ChunkConstantCount)?;
        let mut i: u8 = 0;
        while i < n_constants
            invariant
                self.reader.wf(),
                self.reader.bytes() == b,
                b == old(self).reader.bytes(),
                b.len() >= 1,
                n_constants == b[0],
                i <= n_constants,
                self.reader.pos() == 1 + i,
                self.instructions == old(self).instructions,
                self.constants@ == Seq::new(i as nat, |j: int| ChunkConstant::INT(i8_of_byte(b[1 + j]) as i8)),
            decreases n_constants - i,
        {
            let constant = match self.read_constant() {
                Ok(c) => c,
                Err(e) => {
                    assert(b.len() - 1 < b[0]);
                    return Err(MachineError::UnexpectedEndOfInput { field: Field::IntConstant, position: self.reader.position() });
                },
            };
            self.constants.push(constant);
            i = i + 1;
            assert(self.constants@ =~= Seq::new(i as nat, |j: int| ChunkConstant::INT(i8_of_byte(b[1 + j]) as i8)));
        }
        Ok(())
    }

    fn read_constant(&mut self) -> (r: Result<ChunkConstant, MachineError>)
        requires
            old(self).reader.wf(),
        ensures
            final(self).reader.wf(),
            final(self).reader.bytes() == old(self).reader.bytes(),
            final(self).constants == old(self).constants,
            final(self).instructions == old(self).instructions,
            old(self).reader.remaining() >= 1 ==> r == Ok::<ChunkConstant, MachineError>(
                ChunkConstant::INT(i8_of_byte(old(self).reader.bytes()[old(self).reader.pos()]) as i8),
            ) && final(self).reader.pos() == old(self).reader.pos() + 1,
            old(self).reader.remaining() < 1 ==> r is Err && final(self).reader.pos() == old(self).reader.pos(),
    {
        let byte = self.reader.read_byte(Field::IntConstant)?;
        Ok(ChunkConstant::INT(integer_from_byte_constant(byte)))
    }

    fn parse_instructions(&mut self) -> (r: Result<(), MachineError>)
        requires
            old(self).reader.wf(),
            old(self).instructions@.len() == 0,
        ensures
            final(self).constants == old(self).constants,
            r matches Ok(_) ==> instructions_from(old(self).reader.bytes(), old(self).reader.pos()) == Ok::<Seq<Instruction>, MachineError>(final(self).instructions@),
            r matches Err(e) ==> instructions_from(old(self).reader.bytes(), old(self).reader.pos()) == Err::<Seq<Instruction>, MachineError>(e),
    {
        let ghost b = self.reader.bytes();
        let ghost p0 = self.reader.pos();
        while !self.are_all_bytes_parsed()
            invariant
                self.reader.wf(),
                self.reader.bytes() == b,
                b == old(self).reader.bytes(),
                p0 == old(self).reader.pos(),
                self.constants == old(self).constants,
                instructions_from(b, p0) == after_instructions(self.instructions@, instructions_from(b, self.reader.pos())),
            decreases b.len() - self.reader.pos(),
        {
            let ghost pre = self.instructions@;
            let ghost p = self.reader.pos();
            self.parse_instruction()?;
            proof {
                if let Ok(is) = instructions_from(b, self.reader.pos()) {
                    assert(pre + (seq![self.instructions@.last()] + is) =~= self.instructions@ + is);
                }
            }
        }
        assert(self.instructions@ + seq![] =~= self.instructions@);
        Ok(())
    }

    fn parse_instruction(&mut self) -> (r: Result<(), MachineError>)
        requires
            old(self).reader.wf(),
        ensures
            final(self).reader.wf(),
            final(self).reader.bytes() == old(self).reader.bytes(),
            final(self).constants == old(self).constants,
            match instruction_at(old(self).reader.bytes(), old(self).reader.pos()) {
                Ok((i, q)) => r is Ok && final(self).reader.pos() == q
                    && final(self).instructions@ == old(self).instructions@.push(i),
                Err(e) => r == Err::<(), MachineError>(e),
            },
    {
        let position = self.reader.position();
        let op_code = self.reader.read_byte(Field::OpCode)?;
        let instruction = match op_code {
            0 => Instruction::Constant(self.read_usize()?),
            1 => Instruction::Null,
            2 => Instruction::True,
            3 => Instruction::False,
            4 => Instruction::Pop,
            5 => Instruction::GetLocal(self.read_usize()?),
            6 => Instruction::SetLocal(self.read_usize()?),
            7 => Instruction::GetGlobal(self.read_usize()?),
            8 => Instruction::DefineGlobal(self.read_usize()?),
            9 => Instruction::SetGlobal(self.read_usize()?),
            10 => Instruction::Print,
            11 => Instruction::Not,
            12 => Instruction::Equal,
            13 => Instruction::Greater,
            14 => Instruction::Less,
            15 => Instruction::Negate,
            16 => Instruction::Add,
            17 => Instruction::Subtract,
            18 => Instruction::Multiply,
            19 => Instruction::Divide,
            _ => return Err(MachineError::UnsupportedOpcode { op_code, position }),
        };
        self.instructions.push(instruction);
        Ok(())
    }

    fn are_all_bytes_parsed(&self) -> (r: bool)
        requires
            self.reader.wf(),
        ensures
            r == (self.reader.pos() == self.reader.bytes().len()),
    {
        self.reader.is_finished()
    }

    /// Reads a one-byte operand.
    fn read_usize(&mut self) -> (r: Result<usize, MachineError>)
        requires
            old(self).reader.wf(),
        ensures
            final(self).reader.wf(),
            final(self).reader.bytes() == old(self).reader.bytes(),
            final(self).constants == old(self).constants,
            final(self).instructions == old(self).instructions,
            old(self).reader.remaining() >= 1 ==> r == Ok::<usize, MachineError>(old(self).reader.bytes()[old(self).reader.pos()] as usize)
                && final(self).reader.pos() == old(self).reader.pos() + 1,
            old(self).reader.remaining() < 1 ==> r == Err::<usize, MachineError>(
                MachineError::UnexpectedEndOfInput { field: Field::Operand, position: old(self).reader.pos() as usize },
            ),
    {
        let byte = self.reader.read_byte(Field::Operand)?;
        Ok(byte as usize)
    }
}

/// The signed integer that `byte` holds in two's complement.
pub fn integer_from_byte_constant(byte: u8) -> (r: i8)
    ensures
        r as int == i8_of_byte(byte),
{
    if byte < 128 {
        byte as i8
    } else {
        ((byte - 128) as i8) - 127 - 1
    }
}

} // verus!
