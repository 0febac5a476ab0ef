use jex::code::{Chunk, Code};
use jex::errors::{Field, MachineError};
use jex::jumps::{
    call_instruction, dispatch, jump_backward_instruction, jump_forward_if_false_instruction,
    jump_forward_instruction, jump_instructions, return_instruction, Handler, Instruction,
};
use jex::machine::{CallStack, Frame, Value};
use jex::reader::BytecodeReader;
use jex::vm::{lookup, ExecutionState, Machine};

fn chunk(code: Vec<u8>) -> Chunk {
    Chunk { constants: vec![], code }
}

fn machine(chunks: Vec<Chunk>, values: Vec<Value>, frames: Vec<Frame>) -> Machine {
    Machine { code: Code { chunks }, stack: CallStack { values, frames } }
}

fn operands(bytes: Vec<u8>) -> BytecodeReader {
    BytecodeReader::new(bytes)
}

fn table() -> Vec<Instruction> {
    let mut t = vec![];
    jump_instructions(&mut t);
    t
}

#[test]
fn jump_table_registers_control_flow_group() {
    let mut t = vec![Instruction { op_code: 0, name: "CONSTANT".to_string(), byte_arity: 1, handler: Handler::Return }];
    jump_instructions(&mut t);
    assert_eq!(t.len(), 6);
    assert_eq!(t[0].name, "CONSTANT");
    let expected = [
        (20, "JUMP_FORWARD", 1, Handler::JumpForward),
        (21, "JUMP_FORWARD_IF_FALSE", 1, Handler::JumpForwardIfFalse),
        (22, "JUMP_BACKWARD", 1, Handler::JumpBackward),
        (23, "CALL", 1, Handler::Call),
        (24, "RETURN", 0, Handler::Return),
    ];
    for (i, (op, name, arity, handler)) in expected.iter().enumerate() {
        assert_eq!(t[i + 1].op_code, *op);
        assert_eq!(t[i + 1].name, *name);
        assert_eq!(t[i + 1].byte_arity, *arity);
        assert_eq!(t[i + 1].handler, *handler);
    }
}

#[test]
fn lookup_finds_first_entry() {
    let t = table();
    assert_eq!(lookup(&t, 20), Some(0));
    assert_eq!(lookup(&t, 24), Some(4));
    assert_eq!(lookup(&t, 16), None);
}

#[test]
fn jump_forward_adds_offset() {
    let mut m = machine(vec![chunk(vec![0; 20])], vec![], vec![Frame { chunk_id: 0, ip: 7, stack_base: 0 }]);
    assert_eq!(jump_forward_instruction(&mut m, operands(vec![5])), Ok(()));
    assert_eq!(m.stack.frames[0].ip, 12);
}

#[test]
fn jump_backward_subtracts_offset() {
    let mut m = machine(vec![chunk(vec![0; 20])], vec![], vec![Frame { chunk_id: 0, ip: 7, stack_base: 0 }]);
    assert_eq!(jump_backward_instruction(&mut m, operands(vec![5])), Ok(()));
    assert_eq!(m.stack.frames[0].ip, 2);
    assert_eq!(jump_backward_instruction(&mut m, operands(vec![5])), Err(MachineError::JumpOutOfRange));
    assert_eq!(m.stack.frames[0].ip, 2);
}

#[test]
fn jump_without_operand_fails() {
    let mut m = machine(vec![chunk(vec![])], vec![], vec![Frame { chunk_id: 0, ip: 7, stack_base: 0 }]);
    assert_eq!(
        jump_forward_instruction(&mut m, operands(vec![])),
        Err(MachineError::UnexpectedEndOfInput { field: Field::Operand, position: 0 })
    );
    assert_eq!(m.stack.frames[0].ip, 7);
}

#[test]
fn jump_forward_overflow_is_an_error() {
    let mut m = machine(vec![chunk(vec![])], vec![], vec![Frame { chunk_id: 0, ip: usize::MAX, stack_base: 0 }]);
    assert_eq!(jump_forward_instruction(&mut m, operands(vec![1])), Err(MachineError::JumpOutOfRange));
}

#[test]
fn jump_if_false_only_on_false_and_never_pops() {
    let frame = Frame { chunk_id: 0, ip: 3, stack_base: 0 };
    let mut m = machine(vec![chunk(vec![])], vec![Value::Bool(false)], vec![frame]);
    assert_eq!(jump_forward_if_false_instruction(&mut m, operands(vec![4])), Ok(()));
    assert_eq!(m.stack.frames[0].ip, 7);
    assert_eq!(m.stack.values, vec![Value::Bool(false)]);

    let mut m = machine(vec![chunk(vec![])], vec![Value::Bool(true)], vec![frame]);
    assert_eq!(jump_forward_if_false_instruction(&mut m, operands(vec![4])), Ok(()));
    assert_eq!(m.stack.frames[0].ip, 3);
    assert_eq!(m.stack.values, vec![Value::Bool(true)]);

    let mut m = machine(vec![chunk(vec![])], vec![Value::Int(0)], vec![frame]);
    assert_eq!(jump_forward_if_false_instruction(&mut m, operands(vec![4])), Err(MachineError::TypeMismatch));
    assert_eq!(m.stack.frames[0].ip, 3);

    let mut m = machine(vec![chunk(vec![])], vec![], vec![frame]);
    assert_eq!(jump_forward_if_false_instruction(&mut m, operands(vec![4])), Err(MachineError::StackUnderflow));
}

#[test]
fn call_with_wrong_arity_fails_and_keeps_stack() {
    let values = vec![Value::Function { chunk_id: 1, arity: 2 }, Value::Int(10)];
    let frames = vec![Frame { chunk_id: 0, ip: 2, stack_base: 0 }];
    let mut m = machine(vec![chunk(vec![]), chunk(vec![])], values.clone(), frames.clone());
    assert_eq!(call_instruction(&mut m, operands(vec![1])), Err(MachineError::ArityMismatch { expected: 2, actual: 1 }));
    assert_eq!(m.stack.values, values);
    assert_eq!(m.stack.frames, frames);
}

#[test]
fn call_pushes_frame_at_first_argument() {
    let values = vec![Value::Null, Value::Function { chunk_id: 1, arity: 2 }, Value::Int(10), Value::Int(20)];
    let mut m = machine(vec![chunk(vec![]), chunk(vec![])], values.clone(), vec![Frame { chunk_id: 0, ip: 2, stack_base: 0 }]);
    assert_eq!(call_instruction(&mut m, operands(vec![2])), Ok(()));
    assert_eq!(m.stack.values, values);
    assert_eq!(
        m.stack.frames,
        vec![Frame { chunk_id: 0, ip: 2, stack_base: 0 }, Frame { chunk_id: 1, ip: 0, stack_base: 2 }]
    );
}

#[test]
fn call_errors() {
    let frames = vec![Frame { chunk_id: 0, ip: 0, stack_base: 0 }];
    let mut m = machine(vec![chunk(vec![])], vec![Value::Int(3)], frames.clone());
    assert_eq!(call_instruction(&mut m, operands(vec![0])), Err(MachineError::NotCallable));
    let mut m = machine(vec![chunk(vec![])], vec![Value::Function { chunk_id: 4, arity: 0 }], frames.clone());
    assert_eq!(call_instruction(&mut m, operands(vec![0])), Err(MachineError::InvalidChunkReference { chunk_id: 4 }));
    let mut m = machine(vec![chunk(vec![])], vec![Value::Function { chunk_id: 0, arity: 1 }], frames.clone());
    assert_eq!(call_instruction(&mut m, operands(vec![1])), Err(MachineError::StackUnderflow));
}

#[test]
fn return_restores_caller() {
    let values = vec![Value::Int(1), Value::Int(2), Value::Int(3), Value::Int(4)];
    let frames = vec![Frame { chunk_id: 0, ip: 9, stack_base: 0 }, Frame { chunk_id: 1, ip: 5, stack_base: 2 }];
    let mut m = machine(vec![chunk(vec![]), chunk(vec![])], values, frames);
    assert_eq!(return_instruction(&mut m, operands(vec![])), Ok(()));
    assert_eq!(m.stack.values, vec![Value::Int(1), Value::Int(2), Value::Int(4)]);
    assert_eq!(m.stack.frames, vec![Frame { chunk_id: 0, ip: 9, stack_base: 0 }]);
}

#[test]
fn return_without_value_underflows() {
    let values = vec![Value::Int(1), Value::Int(2)];
    let frames = vec![Frame { chunk_id: 0, ip: 9, stack_base: 0 }, Frame { chunk_id: 1, ip: 5, stack_base: 2 }];
    let mut m = machine(vec![chunk(vec![]), chunk(vec![])], values.clone(), frames.clone());
    assert_eq!(dispatch(Handler::Return, &mut m, operands(vec![])), Err(MachineError::StackUnderflow));
    assert_eq!(m.stack.values, values);
    assert_eq!(m.stack.frames, frames);
}

#[test]
fn run_calls_and_returns() {
    // chunk 0: CALL(1); RETURN. chunk 1: JUMP_FORWARD_IF_FALSE(1); RETURN; RETURN
    let code = vec![chunk(vec![23, 1, 24]), chunk(vec![21, 1, 24, 24])];
    let values = vec![Value::Function { chunk_id: 1, arity: 1 }, Value::Bool(false)];
    let mut m = machine(code, values, vec![Frame { chunk_id: 0, ip: 0, stack_base: 0 }]);
    let t = table();
    assert_eq!(m.step(&t), Ok(()));
    assert_eq!(m.stack.frames.last(), Some(&Frame { chunk_id: 1, ip: 0, stack_base: 1 }));
    assert_eq!(m.step(&t), Ok(()));
    assert_eq!(m.stack.frames.last(), Some(&Frame { chunk_id: 1, ip: 3, stack_base: 1 }));
    assert_eq!(m.run(&t, 100), Ok(ExecutionState::Returned));
    assert_eq!(m.stack.values, vec![Value::Bool(false)]);
    assert!(m.stack.frames.is_empty());
}

#[test]
fn run_stops_after_budget() {
    // JUMP_BACKWARD(2) jumps to itself.
    let mut m = Machine::new(Code { chunks: vec![chunk(vec![22, 2])] });
    assert_eq!(m.run(&table(), 5), Ok(ExecutionState::Running));
    assert_eq!(m.stack.frames[0].ip, 0);
}

#[test]
fn step_errors() {
    let t = table();
    let mut m = Machine::new(Code { chunks: vec![chunk(vec![16])] });
    assert_eq!(m.step(&t), Err(MachineError::UnsupportedOpcode { op_code: 16, position: 0 }));
    let mut m = Machine::new(Code { chunks: vec![chunk(vec![20])] });
    assert_eq!(m.step(&t), Err(MachineError::UnexpectedEndOfInput { field: Field::Operand, position: 1 }));
    let mut m = Machine::new(Code { chunks: vec![chunk(vec![])] });
    assert_eq!(m.step(&t), Err(MachineError::UnexpectedEndOfInput { field: Field::OpCode, position: 0 }));
    let mut m = Machine::new(Code { chunks: vec![] });
    assert_eq!(m.run(&t, 3), Err(MachineError::InvalidChunkReference { chunk_id: 0 }));
}

#[test]
fn value_conversions() {
    assert_eq!(Value::Bool(true).as_bool(), Ok(true));
    assert_eq!(Value::Null.as_bool(), Err(MachineError::TypeMismatch));
    assert_eq!(Value::Function { chunk_id: 3, arity: 1 }.as_function(), Ok((3, 1)));
    assert_eq!(Value::Int(1).as_function(), Err(MachineError::NotCallable));
}

#[test]
fn stack_pop_respects_frame_base() {
    let mut s = CallStack { values: vec![Value::Int(1), Value::Int(2)], frames: vec![Frame { chunk_id: 0, ip: 0, stack_base: 1 }] };
    assert_eq!(s.peek(), Ok(Value::Int(2)));
    assert_eq!(s.peek_from_top(1), Err(MachineError::StackUnderflow));
    assert_eq!(s.pop(), Ok(Value::Int(2)));
    assert_eq!(s.pop(), Err(MachineError::StackUnderflow));
    assert_eq!(s.discard_call_frame(), Ok(()));
    assert_eq!(s.values, vec![Value::Int(1)]);
    assert_eq!(s.discard_call_frame(), Err(MachineError::StackUnderflow));
    s.push(Value::Null);
    assert_eq!(s.current_frame(), None);
    assert_eq!(s.frame_base(), 0);
}

#[test]
fn failed_step_stack_states() {
    let t = table();
    // Fetch fails: nothing moves.
    let mut m = Machine::new(Code { chunks: vec![chunk(vec![16])] });
    assert!(m.step(&t).is_err());
    assert_eq!(m.stack.frames, vec![Frame { chunk_id: 0, ip: 0, stack_base: 0 }]);
    // Handler fails: the pointer stands past the operands.
    let mut m = Machine::new(Code { chunks: vec![chunk(vec![21, 3])] });
    assert_eq!(m.step(&t), Err(MachineError::StackUnderflow));
    assert_eq!(m.stack.frames, vec![Frame { chunk_id: 0, ip: 2, stack_base: 0 }]);
    assert!(m.stack.values.is_empty());
}
