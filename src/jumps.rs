use vstd::prelude::*;
use crate::errors::{Field, MachineError};
use crate::machine::{
    discard_frame_spec, frame_base, Value, peek_from_top_spec, pop_spec, stack_wf, value_as_bool, value_as_function,
    with_ip, Frame, StackModel,
};
use crate::reader::BytecodeReader;
use crate::vm::Machine;

verus! {

/// The behaviours of the control-flow instructions.
#[derive(Debug, Clone, Copy, PartialEq, Eq, Structural)]
pub enum Handler {
    JumpForward,
    JumpForwardIfFalse,
    JumpBackward,
    Call,
    Return,
}

/// What an instruction descriptor holds.
pub struct InstructionModel {
    pub op_code: u8,
    pub name: Seq<char>,
    pub byte_arity: usize,
    pub handler: Handler,
}

/// An entry of the instruction table: the opcode, its symbolic name, how many
/// operand bytes follow the opcode, and what executing it does.
pub struct Instruction {
    pub op_code: u8,
    pub name: String,
    pub byte_arity: usize,
    pub handler: Handler,
}

impl View for Instruction {
    type V = InstructionModel;

    open spec fn view(&self) -> InstructionModel {
        InstructionModel {
            op_code: self.op_code,
            name: self.name@,
            byte_arity: self.byte_arity,
            handler: self.handler,
        }
    }
}

/// The control-flow group of the instruction table, opcodes 20 to 24.
pub open spec fn jump_instruction_models() -> Seq<InstructionModel> {
    seq![
        InstructionModel { op_code: 20, name: "JUMP_FORWARD"@, byte_arity: 1, handler: Handler::JumpForward },
        InstructionModel { op_code: 21, name: "JUMP_FORWARD_IF_FALSE"@, byte_arity: 1, handler: Handler::JumpForwardIfFalse },
        InstructionModel { op_code: 22, name: "JUMP_BACKWARD"@, byte_arity: 1, handler: Handler::JumpBackward },
        InstructionModel { op_code: 23, name: "CALL"@, byte_arity: 1, handler: Handler::Call },
        InstructionModel { op_code: 24, name: "RETURN"@, byte_arity: 0, handler: Handler::Return },
    ]
}

/// The one-byte operand at the front of `ops`; `at` is the cursor's offset, for the error.
pub open spec fn operand_spec(ops: Seq<u8>, at: int) -> Result<u8, MachineError> {
    if ops.len() < 1 {
        Err(MachineError::UnexpectedEndOfInput { field: Field::Operand, position: at as usize })
    } else {
        Ok(ops[0])
    }
}

/// Moves the current frame's instruction pointer `offset` bytes forward.
pub open spec fn forward_spec(s: StackModel, offset: int) -> Result<StackModel, MachineError> {
    let t = s.frames.last().ip + offset;
    if t > usize::MAX {
        Err(MachineError::JumpOutOfRange)
    } else {
        Ok(with_ip(s, t))
    }
}

/// Moves the current frame's instruction pointer `offset` bytes back.
pub open spec fn backward_spec(s: StackModel, offset: int) -> Result<StackModel, MachineError> {
    let t = s.frames.last().ip - offset;
    if t < 0 {
        Err(MachineError::JumpOutOfRange)
    } else {
        Ok(with_ip(s, t))
    }
}

pub open spec fn jump_forward_spec(s: StackModel, ops: Seq<u8>, at: int) -> Result<StackModel, MachineError> {
    match operand_spec(ops, at) {
        Err(e) => Err(e),
        Ok(offset) => forward_spec(s, offset as int),
    }
}

/// Peeks the top value without popping it, and jumps forward only when it is `false`.
pub open spec fn jump_forward_if_false_spec(s: StackModel, ops: Seq<u8>, at: int) -> Result<StackModel, MachineError> {
    match operand_spec(ops, at) {
        Err(e) => Err(e),
        Ok(offset) => match peek_from_top_spec(s, 0) {
            Err(e) => Err(e),
            Ok(v) => match value_as_bool(v) {
                Err(e) => Err(e),
                Ok(b) => if b {
                    Ok(s)
                } else {
                    forward_spec(s, offset as int)
                },
            },
        },
    }
}

pub open spec fn jump_backward_spec(s: StackModel, ops: Seq<u8>, at: int) -> Result<StackModel, MachineError> {
    match operand_spec(ops, at) {
        Err(e) => Err(e),
        Ok(offset) => backward_spec(s, offset as int),
    }
}

/// Calls the function found `arity` slots below the top: it must take exactly
/// `arity` arguments and its chunk must be one of the `n_chunks` of the code.
/// The new frame starts at the first argument, at offset 0 of that chunk.
pub open spec fn call_spec(s: StackModel, ops: Seq<u8>, at: int, n_chunks: int) -> Result<StackModel, MachineError> {
    match operand_spec(ops, at) {
        Err(e) => Err(e),
        Ok(arity) => match peek_from_top_spec(s, arity as int) {
            Err(e) => Err(e),
            Ok(v) => match value_as_function(v) {
                Err(e) => Err(e),
                Ok((chunk_id, declared)) => if declared != arity as usize {
                    Err(MachineError::ArityMismatch { expected: declared, actual: arity as usize })
                } else if chunk_id >= n_chunks {
                    Err(MachineError::InvalidChunkReference { chunk_id })
                } else {
                    Ok(StackModel {
                        values: s.values,
                        frames: s.frames.push(
                            Frame { chunk_id, ip: 0, stack_base: (s.values.len() - arity) as usize },
                        ),
                    })
                },
            },
        },
    }
}

/// Pops the return value, ends the current frame with all its slots, and
/// pushes the value onto what the caller sees.
pub open spec fn return_spec(s: StackModel) -> Result<StackModel, MachineError> {
    match pop_spec(s) {
        Err(e) => Err(e),
        Ok((v, s1)) => match discard_frame_spec(s1) {
            Err(e) => Err(e),
            Ok(s2) => Ok(StackModel { values: s2.values.push(v), frames: s2.frames }),
        },
    }
}

pub open spec fn handler_spec(h: Handler, s: StackModel, ops: Seq<u8>, at: int, n_chunks: int) -> Result<StackModel, MachineError> {
    match h {
        Handler::JumpForward => jump_forward_spec(s, ops, at),
        Handler::JumpForwardIfFalse => jump_forward_if_false_spec(s, ops, at),
        Handler::JumpBackward => jump_backward_spec(s, ops, at),
        Handler::Call => call_spec(s, ops, at, n_chunks),
        Handler::Return => return_spec(s),
    }
}

/// A handler's result agrees with its specification: on success the stack is
/// the specified one; on failure it is the error, and the stack is untouched.
pub open spec fn handler_outcome(
    r: Result<(), MachineError>,
    expected: Result<StackModel, MachineError>,
    before: StackModel,
    after: StackModel,
) -> bool {
    match expected {
        Ok(s) => r is Ok && after == s,
        Err(e) => r == Err::<(), MachineError>(e) && after == before,
    }
}

/// The operand bytes that a cursor has not read yet.
pub open spec fn unread(r: BytecodeReader) -> Seq<u8> {
    r.bytes().subrange(r.pos(), r.bytes().len() as int)
}

/// Appends the control-flow group to an instruction table under construction.
pub fn jump_instructions(instructions: &mut Vec<Instruction>)
    ensures
        final(instructions)@.map_values(|i: Instruction| i@)
            == old(instructions)@.map_values(|i: Instruction| i@) + jump_instruction_models(),
{
    let mut jump_instructions: Vec<Instruction> = vec![
        Instruction {
            op_code: 20,
            name: "JUMP_FORWARD".to_owned(),
            byte_arity: 1,
            handler: Handler::JumpForward,
        },
        Instruction {
            op_code: 21,
            name: "JUMP_FORWARD_IF_FALSE".to_owned(),
            byte_arity: 1,
            handler: Handler::JumpForwardIfFalse,
        },
        Instruction {
            op_code: 22,
            name: "JUMP_BACKWARD".to_owned(),
            byte_arity: 1,
            handler: Handler::JumpBackward,
        },
        Instruction { op_code: 23, name: "CALL".to_owned(), byte_arity: 1, handler: Handler::Call },
        Instruction { op_code: 24, name: "RETURN".to_owned(), byte_arity: 0, handler: Handler::Return },
    ];
    let ghost before = instructions@;
    instructions.append(&mut jump_instructions);
    assert(instructions@.map_values(|i: Instruction| i@) =~= before.map_values(|i: Instruction| i@)
        + jump_instruction_models());
}

/// Reads a handler's one-byte operand.
fn read_operand(operands: &mut BytecodeReader) -> (r: Result<u8, MachineError>)
    requires
        old(operands).wf(),
    ensures
        final(operands).wf(),
        r == operand_spec(unread(*old(operands)), old(operands).pos()),
{
    operands.read_byte(Field::Operand)
}

/// The current frame's instruction pointer, moved `offset` bytes forward.
fn forward_target(machine: &Machine, offset: u8) -> (r: Result<usize, MachineError>)
    requires
        machine.stack@.frames.len() > 0,
    ensures
        match forward_spec(machine.stack@, offset as int) {
            Ok(s) => r == Ok::<usize, MachineError>(s.frames.last().ip),
            Err(e) => r == Err::<usize, MachineError>(e),
        },
{
    let ip = machine.stack.frames[machine.stack.frames.len() - 1].ip;
    match ip.checked_add(offset as usize) {
        Some(t) => Ok(t),
        None => Err(MachineError::JumpOutOfRange),
    }
}

/// JUMP_FORWARD(offset): moves the instruction pointer, already past the operand, forward.
pub fn jump_forward_instruction(machine: &mut Machine, operands: BytecodeReader) -> (r: Result<(), MachineError>)
    requires
        stack_wf(old(machine).stack@),
        old(machine).stack@.frames.len() > 0,
        operands.wf(),
    ensures
        stack_wf(final(machine).stack@),
        final(machine).code == old(machine).code,
        handler_outcome(r, jump_forward_spec(old(machine).stack@, unread(operands), operands.pos()), old(machine).stack@, final(machine).stack@),
        ({
            let s = old(machine).stack@;
            let ops = unread(operands);
            ops.len() >= 1 && s.frames.last().ip + ops[0] <= usize::MAX ==> r is Ok
                && final(machine).stack@.frames.last().ip == s.frames.last().ip + ops[0]
                && final(machine).stack@.frames.drop_last() == s.frames.drop_last()
                && final(machine).stack@.values == s.values
        }),
{
    proof {
        if unread(operands).len() >= 1 {
            lemma_jump_arithmetic(machine.stack@, unread(operands)[0], operands.pos());
        }
    }
    let mut operands = operands;
    let offset = read_operand(&mut operands)?;
    let target = forward_target(machine, offset)?;
    machine.stack.set_ip(target);
    Ok(())
}

/// JUMP_FORWARD_IF_FALSE(offset): jumps forward when the top value, left in place, is `false`.
pub fn jump_forward_if_false_instruction(machine: &mut Machine, operands: BytecodeReader) -> (r: Result<(), MachineError>)
    requires
        stack_wf(old(machine).stack@),
        old(machine).stack@.frames.len() > 0,
        operands.wf(),
    ensures
        stack_wf(final(machine).stack@),
        final(machine).code == old(machine).code,
        handler_outcome(r, jump_forward_if_false_spec(old(machine).stack@, unread(operands), operands.pos()), old(machine).stack@, final(machine).stack@),
        ({
            let s = old(machine).stack@;
            let ops = unread(operands);
            ops.len() >= 1 && s.values.len() > frame_base(s) ==> {
                &&& s.values.last() == Value::Bool(false) && s.frames.last().ip + ops[0] <= usize::MAX ==> r is Ok
                    && final(machine).stack@.frames.last().ip == s.frames.last().ip + ops[0]
                    && final(machine).stack@.frames.drop_last() == s.frames.drop_last()
                    && final(machine).stack@.values == s.values
                &&& s.values.last() == Value::Bool(true) ==> r is Ok && final(machine).stack@ == s
            }
        }),
{
    proof {
        if unread(operands).len() >= 1 {
            lemma_jump_arithmetic(machine.stack@, unread(operands)[0], operands.pos());
        }
    }
    let mut operands = operands;
    let offset = read_operand(&mut operands)?;
    let value = machine.stack.peek()?.as_bool()?;
    if !value {
        let target = forward_target(machine, offset)?;
        machine.stack.set_ip(target);
    }
    Ok(())
}

/// JUMP_BACKWARD(offset): moves the instruction pointer, already past the operand, back.
pub fn jump_backward_instruction(machine: &mut Machine, operands: BytecodeReader) -> (r: Result<(), MachineError>)
    requires
        stack_wf(old(machine).stack@),
        old(machine).stack@.frames.len() > 0,
        operands.wf(),
    ensures
        stack_wf(final(machine).stack@),
        final(machine).code == old(machine).code,
        handler_outcome(r, jump_backward_spec(old(machine).stack@, unread(operands), operands.pos()), old(machine).stack@, final(machine).stack@),
        ({
            let s = old(machine).stack@;
            let ops = unread(operands);
            ops.len() >= 1 && s.frames.last().ip >= ops[0] ==> r is Ok
                && final(machine).stack@.frames.last().ip == s.frames.last().ip - ops[0]
                && final(machine).stack@.frames.drop_last() == s.frames.drop_last()
                && final(machine).stack@.values == s.values
        }),
{
    proof {
        if unread(operands).len() >= 1 {
            lemma_jump_arithmetic(machine.stack@, unread(operands)[0], operands.pos());
            let s = machine.stack@;
            let t = s.frames.last().ip - unread(operands)[0];
            assert(with_ip(s, t).frames.drop_last() =~= s.frames.drop_last());
        }
    }
    let mut operands = operands;
    let offset = read_operand(&mut operands)?;
    let ip = machine.stack.frames[machine.stack.frames.len() - 1].ip;
    if ip < offset as usize {
        return Err(MachineError::JumpOutOfRange);
    }
    machine.stack.set_ip(ip - offset as usize);
    Ok(())
}

/// CALL(arity): starts a frame for the function found `arity` slots below the top.
pub fn call_instruction(machine: &mut Machine, operands: BytecodeReader) -> (r: Result<(), MachineError>)
    requires
        stack_wf(old(machine).stack@),
        old(machine).stack@.frames.len() > 0,
        operands.wf(),
    ensures
        stack_wf(final(machine).stack@),
        final(machine).code == old(machine).code,
        handler_outcome(r, call_spec(old(machine).stack@, unread(operands), operands.pos(), old(machine).code.chunks@.len() as int), old(machine).stack@, final(machine).stack@),
        ({
            let s = old(machine).stack@;
            let ops = unread(operands);
            ops.len() >= 1 ==> match peek_from_top_spec(s, ops[0] as int) {
                Ok(Value::Function { chunk_id, arity }) => arity != ops[0] as usize ==> r == Err::<(), MachineError>(
                    MachineError::ArityMismatch { expected: arity, actual: ops[0] as usize },
                ) && final(machine).stack@ == s,
                _ => true,
            }
        }),
{
    let mut operands = operands;
    let arity = read_operand(&mut operands)? as usize;
    let (chunk_id, declared) = machine.stack.peek_from_top(arity)?.as_function()?;
    if declared != arity {
        return Err(MachineError::ArityMismatch { expected: declared, actual: arity });
    }
    if chunk_id >= machine.code.chunks.len() {
        return Err(MachineError::InvalidChunkReference { chunk_id });
    }
    machine.stack.push_call_frame(chunk_id, arity);
    Ok(())
}

/// RETURN: ends the current frame and hands its top value to the caller; it takes no operand.
pub fn return_instruction(machine: &mut Machine, operands: BytecodeReader) -> (r: Result<(), MachineError>)
    requires
        stack_wf(old(machine).stack@),
        old(machine).stack@.frames.len() > 0,
    ensures
        stack_wf(final(machine).stack@),
        final(machine).code == old(machine).code,
        handler_outcome(r, return_spec(old(machine).stack@), old(machine).stack@, final(machine).stack@),
        ({
            let s = old(machine).stack@;
            s.frames.len() >= 2 && s.values.len() > s.frames.last().stack_base ==> r is Ok
                && final(machine).stack@.values == s.values.subrange(0, s.frames.last().stack_base as int).push(s.values.last())
                && final(machine).stack@.frames == s.frames.drop_last()
        }),
{
    proof {
        if machine.stack@.frames.len() >= 2 && machine.stack@.values.len() > machine.stack@.frames.last().stack_base {
            lemma_return_restores_caller(machine.stack@);
        }
    }
    let return_value = machine.stack.pop()?;
    machine.stack.discard_call_frame()?;
    machine.stack.push(return_value);
    Ok(())
}

/// Runs the handler `handler` with its operand cursor.
pub fn dispatch(handler: Handler, machine: &mut Machine, operands: BytecodeReader) -> (r: Result<(), MachineError>)
    requires
        stack_wf(old(machine).stack@),
        old(machine).stack@.frames.len() > 0,
        operands.wf(),
    ensures
        stack_wf(final(machine).stack@),
        final(machine).code == old(machine).code,
        handler_outcome(r, handler_spec(handler, old(machine).stack@, unread(operands), operands.pos(), old(machine).code.chunks@.len() as int), old(machine).stack@, final(machine).stack@),
{
    match handler {
        Handler::JumpForward => jump_forward_instruction(machine, operands),
        Handler::JumpForwardIfFalse => jump_forward_if_false_instruction(machine, operands),
        Handler::JumpBackward => jump_backward_instruction(machine, operands),
        Handler::Call => call_instruction(machine, operands),
        Handler::Return => return_instruction(machine, operands),
    }
}

/// Calling a function with a number of arguments other than the one it declares
/// fails with `ArityMismatch`, naming the declared count and the given one.
pub proof fn lemma_call_arity_enforced(s: StackModel, ops: Seq<u8>, at: int, n_chunks: int, chunk_id: usize, declared: usize)
    requires
        ops.len() >= 1,
        peek_from_top_spec(s, ops[0] as int) == Ok::<Value, MachineError>(Value::Function { chunk_id, arity: declared }),
        declared != ops[0] as usize,
    ensures
        call_spec(s, ops, at, n_chunks) == Err::<StackModel, MachineError>(
            MachineError::ArityMismatch { expected: declared, actual: ops[0] as usize },
        ),
{
}

/// A forward jump by `offset` moves the instruction pointer from `p`, already
/// past the whole instruction, to `p + offset`; a backward jump to `p - offset`.
/// The value stack and the other frames stay as they are.
pub proof fn lemma_jump_arithmetic(s: StackModel, offset: u8, at: int)
    requires
        s.frames.len() > 0,
    ensures
        ({
            let p = s.frames.last().ip as int;
            &&& p + offset <= usize::MAX ==> jump_forward_spec(s, seq![offset], at) == Ok::<StackModel, MachineError>(with_ip(s, p + offset))
            &&& p - offset >= 0 ==> jump_backward_spec(s, seq![offset], at) == Ok::<StackModel, MachineError>(with_ip(s, p - offset))
            &&& with_ip(s, p + offset).values == s.values
            &&& with_ip(s, p + offset).frames.drop_last() == s.frames.drop_last()
            &&& p + offset <= usize::MAX ==> with_ip(s, p + offset).frames.last().ip == p + offset
            &&& p - offset >= 0 ==> with_ip(s, p - offset).frames.last().ip == p - offset
        }),
{
    let p = s.frames.last().ip as int;
    assert(with_ip(s, p + offset).frames.drop_last() =~= s.frames.drop_last());
}

/// The conditional jump peeks the top value and never pops it: it moves the
/// instruction pointer forward by `offset` exactly when that value is `false`,
/// leaves everything as it is when it is `true`, and fails on any other value.
pub proof fn lemma_jump_if_false_peeks(s: StackModel, offset: u8, at: int)
    requires
        s.frames.len() > 0,
        s.values.len() > frame_base(s),
        s.frames.last().ip + offset <= usize::MAX,
    ensures
        s.values.last() == Value::Bool(false) ==> jump_forward_if_false_spec(s, seq![offset], at)
            == Ok::<StackModel, MachineError>(with_ip(s, s.frames.last().ip + offset)),
        s.values.last() == Value::Bool(true) ==> jump_forward_if_false_spec(s, seq![offset], at)
            == Ok::<StackModel, MachineError>(s),
        !(s.values.last() is Bool) ==> jump_forward_if_false_spec(s, seq![offset], at)
            == Err::<StackModel, MachineError>(MachineError::TypeMismatch),
        jump_forward_if_false_spec(s, seq![offset], at) matches Ok(t) ==> t.values == s.values,
{
}

/// Returning from a callee whose frame starts at slot `b` leaves the caller's
/// slots below `b` with the returned value on top, and the caller's frames,
/// its saved instruction pointer included, as they were.
pub proof fn lemma_return_restores_caller(s: StackModel)
    requires
        stack_wf(s),
        s.frames.len() >= 2,
        s.values.len() > s.frames.last().stack_base,
    ensures
        return_spec(s) == Ok::<StackModel, MachineError>(StackModel {
            values: s.values.subrange(0, s.frames.last().stack_base as int).push(s.values.last()),
            frames: s.frames.drop_last(),
        }),
{
    let b = s.frames.last().stack_base as int;
    assert(s.values.drop_last().subrange(0, b) =~= s.values.subrange(0, b));
}

/// Each opcode of the control-flow group appears once in it: looking one up
/// finds the entry that describes it.
pub proof fn lemma_jump_instructions_distinct()
    ensures
        forall|k: int|
            0 <= k < 5 ==> crate::vm::find_op(jump_instruction_models(), (20 + k) as u8, 0) == Some(k),
{
    let t = jump_instruction_models();
    reveal_with_fuel(crate::vm::find_op, 6);
    assert(t[0].op_code == 20 && t[1].op_code == 21 && t[2].op_code == 22 && t[3].op_code == 23 && t[4].op_code == 24);
}

} // verus!
