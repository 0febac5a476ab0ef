use vstd::prelude::*;
use crate::code::{ChunkModel, Code};
use crate::errors::{Field, MachineError};
use crate::jumps::{dispatch, handler_spec, Handler, Instruction, InstructionModel};
use crate::machine::{stack_wf, with_ip, CallStack, Frame, StackModel};
use crate::reader::BytecodeReader;

verus! {

/// A program together with the runtime state that executes it.
pub struct Machine {
    pub code: Code,
    pub stack: CallStack,
}

/// Where execution stands after a run that did not fault.
#[derive(Debug, Clone, Copy, PartialEq, Eq, Structural)]
pub enum ExecutionState {
    /// More instructions remain to execute.
    Running,
    /// The outermost frame returned: no frame is left.
    Returned,
}

/// The first index at or after `from` whose entry carries `op`.
pub open spec fn find_op(t: Seq<InstructionModel>, op: u8, from: int) -> Option<int>
    decreases t.len() - from,
{
    if from < 0 || from >= t.len() {
        None
    } else if t[from].op_code == op {
        Some(from)
    } else {
        find_op(t, op, from + 1)
    }
}

/// The fetch and decode of the current frame's next instruction: its handler,
/// its operand bytes, and the offset just past them. It fails when the frame's
/// chunk is missing, the code has ended, the opcode is unknown, or the operands
/// run past the end of the code.
pub open spec fn fetch_spec(code: Seq<ChunkModel>, table: Seq<InstructionModel>, s: StackModel) -> Result<(Handler, Seq<u8>, int), MachineError> {
    let f = s.frames.last();
    if f.chunk_id >= code.len() {
        Err(MachineError::InvalidChunkReference { chunk_id: f.chunk_id })
    } else {
        let c = code[f.chunk_id as int].code;
        if f.ip >= c.len() {
            Err(MachineError::UnexpectedEndOfInput { field: Field::OpCode, position: f.ip })
        } else {
            let op = c[f.ip as int];
            match find_op(table, op, 0) {
                None => Err(MachineError::UnsupportedOpcode { op_code: op, position: f.ip }),
                Some(k) => {
                    let a = table[k].byte_arity as int;
                    let o = f.ip + 1;
                    if c.len() - o < a {
                        Err(MachineError::UnexpectedEndOfInput { field: Field::Operand, position: o as usize })
                    } else {
                        Ok((table[k].handler, c.subrange(o, o + a), o + a))
                    }
                },
            }
        }
    }
}

/// One fetch-decode-dispatch cycle of the current frame: read the opcode,
/// look it up, move the instruction pointer past the operands, run the handler.
pub open spec fn step_spec(code: Seq<ChunkModel>, table: Seq<InstructionModel>, s: StackModel) -> Result<StackModel, MachineError> {
    match fetch_spec(code, table, s) {
        Err(e) => Err(e),
        Ok((h, ops, next)) => handler_spec(h, with_ip(s, next), ops, 0, code.len() as int),
    }
}

/// At most `fuel` cycles from `s`, stopping early when no frame is left.
pub open spec fn run_spec(code: Seq<ChunkModel>, table: Seq<InstructionModel>, s: StackModel, fuel: nat) -> Result<(StackModel, ExecutionState), MachineError>
    decreases fuel,
{
    if s.frames.len() == 0 {
        Ok((s, ExecutionState::Returned))
    } else if fuel == 0 {
        Ok((s, ExecutionState::Running))
    } else {
        match step_spec(code, table, s) {
            Err(e) => Err(e),
            Ok(s2) => run_spec(code, table, s2, (fuel - 1) as nat),
        }
    }
}

/// The index of the first entry of `table` that carries `op_code`.
pub fn lookup(table: &Vec<Instruction>, op_code: u8) -> (r: Option<usize>)
    ensures
        r matches Some(k) ==> k < table@.len() && find_op(table@.map_values(|i: Instruction| i@), op_code, 0) == Some(k as int),
        r is None ==> find_op(table@.map_values(|i: Instruction| i@), op_code, 0) is None,
{
    let ghost t = table@.map_values(|i: Instruction| i@);
    let mut i: usize = 0;
    while i < table.len()
        invariant
            0 <= i <= table@.len(),
            t == table@.map_values(|i: Instruction| i@),
            find_op(t, op_code, 0) == find_op(t, op_code, i as int),
        decreases table@.len() - i,
    {
        if table[i].op_code == op_code {
            return Some(i);
        }
        i = i + 1;
    }
    None
}

impl Machine {
    /// A machine about to run chunk 0 of `code`, with an empty stack.
    pub fn new(code: Code) -> (r: Machine)
        ensures
            r.code == code,
            stack_wf(r.stack@),
            r.stack@.values.len() == 0,
            r.stack@.frames == seq![Frame { chunk_id: 0, ip: 0, stack_base: 0 }],
    {
        Machine { code, stack: CallStack::new(0) }
    }

    /// Executes one instruction of the current frame.
    pub fn step(&mut self, table: &Vec<Instruction>) -> (r: Result<(), MachineError>)
        requires
            stack_wf(old(self).stack@),
            old(self).stack@.frames.len() > 0,
        ensures
            stack_wf(final(self).stack@),
            final(self).code == old(self).code,
            match step_spec(old(self).code@, table@.map_values(|i: Instruction| i@), old(self).stack@) {
                Ok(s) => r is Ok && final(self).stack@ == s,
                Err(e) => r == Err::<(), MachineError>(e),
            },
            // A failed fetch leaves the stack as it was; a failed handler
            // leaves it with the pointer moved past the operands.
            match fetch_spec(old(self).code@, table@.map_values(|i: Instruction| i@), old(self).stack@) {
                Err(e) => final(self).stack@ == old(self).stack@,
                Ok((h, ops, next)) => r is Err ==> final(self).stack@ == with_ip(old(self).stack@, next),
            },
    {
        let frame = self.stack.frames[self.stack.frames.len() - 1];
        if frame.chunk_id >= self.code.chunks.len() {
            return Err(MachineError::InvalidChunkReference { chunk_id: frame.chunk_id });
        }
        let chunk_code = &self.code.chunks[frame.chunk_id].code;
        let ip = frame.ip;
        if ip >= chunk_code.len() {
            return Err(MachineError::UnexpectedEndOfInput { field: Field::OpCode, position: ip });
        }
        let op_code = chunk_code[ip];
        let k = match lookup(table, op_code) {
            Some(k) => k,
            None => return Err(MachineError::UnsupportedOpcode { op_code, position: ip }),
        };
        let byte_arity = table[k].byte_arity;
        let start = ip + 1;
        if chunk_code.len() - start < byte_arity {
            return Err(MachineError::UnexpectedEndOfInput { field: Field::Operand, position: start });
        }
        let len: usize = chunk_code.len();
        let mut operand_bytes: Vec<u8> = Vec::new();
        let mut j: usize = 0;
        while j < byte_arity
            invariant
                start + byte_arity <= len,
                len == chunk_code@.len(),
                0 <= j <= byte_arity,
                operand_bytes@ == chunk_code@.subrange(start as int, start + j),
            decreases byte_arity - j,
        {
            operand_bytes.push(chunk_code[start + j]);
            j = j + 1;
            assert(operand_bytes@ =~= chunk_code@.subrange(start as int, start + j));
        }
        let operands = BytecodeReader::new(operand_bytes);
        self.stack.set_ip(start + byte_arity);
        proof {
            assert(crate::jumps::unread(operands) =~= operand_bytes@);
        }
        dispatch(table[k].handler, self, operands)
    }

    /// Executes at most `max_steps` instructions, stopping early when the
    /// outermost frame returns; the first error ends the run.
    pub fn run(&mut self, table: &Vec<Instruction>, max_steps: usize) -> (r: Result<ExecutionState, MachineError>)
        requires
            stack_wf(old(self).stack@),
        ensures
            final(self).code == old(self).code,
            match run_spec(old(self).code@, table@.map_values(|i: Instruction| i@), old(self).stack@, max_steps as nat) {
                Ok((s, st)) => r == Ok::<ExecutionState, MachineError>(st) && final(self).stack@ == s,
                Err(e) => r == Err::<ExecutionState, MachineError>(e),
            },
    {
        let ghost code = self.code@;
        let ghost t = table@.map_values(|i: Instruction| i@);
        let ghost s0 = self.stack@;
        let mut fuel: usize = max_steps;
        while fuel > 0 && self.stack.frames.len() > 0
            invariant
                stack_wf(self.stack@),
                self.code == old(self).code,
                code == self.code@,
                s0 == old(self).stack@,
                t == table@.map_values(|i: Instruction| i@),
                run_spec(code, t, s0, max_steps as nat) == run_spec(code, t, self.stack@, fuel as nat),
            decreases fuel,
        {
            self.step(table)?;
            fuel = fuel - 1;
        }
        if self.stack.frames.len() == 0 {
            Ok(ExecutionState::Returned)
        } else {
            Ok(ExecutionState::Running)
        }
    }
}

} // verus!
