use vstd::prelude::*;
use crate::errors::MachineError;

verus! {

/// A runtime datum on the value stack.
#[derive(Debug, Clone, Copy, PartialEq, Eq, Structural)]
pub enum Value {
    Null,
    Bool(bool),
    Int(i32),
    /// A function whose body is chunk `chunk_id`, taking `arity` arguments.
    Function { chunk_id: usize, arity: usize },
}

/// The boolean a value stands for; only booleans stand for one.
pub open spec fn value_as_bool(v: Value) -> Result<bool, MachineError> {
    match v {
        Value::Bool(b) => Ok(b),
        _ => Err(MachineError::TypeMismatch),
    }
}

/// The chunk and arity of a function value; other values cannot be called.
pub open spec fn value_as_function(v: Value) -> Result<(usize, usize), MachineError> {
    match v {
        Value::Function { chunk_id, arity } => Ok((chunk_id, arity)),
        _ => Err(MachineError::NotCallable),
    }
}

impl Value {
    pub fn as_bool(&self) -> (r: Result<bool, MachineError>)
        ensures
            r == value_as_bool(*self),
    {
        match self {
            Value::Bool(b) => Ok(*b),
            _ => Err(MachineError::TypeMismatch),
        }
    }

    pub fn as_function(&self) -> (r: Result<(usize, usize), MachineError>)
        ensures
            r == value_as_function(*self),
    {
        match self {
            Value::Function { chunk_id, arity } => Ok((*chunk_id, *arity)),
            _ => Err(MachineError::NotCallable),
        }
    }
}

/// One active invocation: the chunk it runs, the offset of its next
/// instruction byte, and the first stack slot that belongs to it.
#[derive(Debug, Clone, Copy, PartialEq, Eq, Structural)]
pub struct Frame {
    pub chunk_id: usize,
    pub ip: usize,
    pub stack_base: usize,
}

/// The runtime state as values: the value stack and the frame stack, top last.
pub struct StackModel {
    pub values: Seq<Value>,
    pub frames: Seq<Frame>,
}

/// Frame bases never decrease from the bottom frame up, and the top frame's
/// base lies within the value stack.
pub open spec fn stack_wf(s: StackModel) -> bool {
    &&& forall|i: int, j: int|
        0 <= i <= j < s.frames.len() ==> #[trigger] s.frames[i].stack_base <= #[trigger] s.frames[j].stack_base
    &&& s.frames.len() > 0 ==> s.frames.last().stack_base <= s.values.len()
}

/// The lowest slot that the current frame may pop or peek.
pub open spec fn frame_base(s: StackModel) -> int {
    if s.frames.len() == 0 {
        0
    } else {
        s.frames.last().stack_base as int
    }
}

/// The value `n` slots below the top, which must lie in the current frame.
pub open spec fn peek_from_top_spec(s: StackModel, n: int) -> Result<Value, MachineError> {
    if s.values.len() - frame_base(s) < n + 1 {
        Err(MachineError::StackUnderflow)
    } else {
        Ok(s.values[s.values.len() - 1 - n])
    }
}

/// Removes the top value, which must lie in the current frame.
pub open spec fn pop_spec(s: StackModel) -> Result<(Value, StackModel), MachineError> {
    if s.values.len() - frame_base(s) < 1 {
        Err(MachineError::StackUnderflow)
    } else {
        Ok((s.values.last(), StackModel { values: s.values.drop_last(), frames: s.frames }))
    }
}

/// Removes the current frame and every slot from its base up.
pub open spec fn discard_frame_spec(s: StackModel) -> Result<StackModel, MachineError> {
    if s.frames.len() == 0 {
        Err(MachineError::StackUnderflow)
    } else {
        Ok(StackModel {
            values: s.values.subrange(0, s.frames.last().stack_base as int),
            frames: s.frames.drop_last(),
        })
    }
}

/// Moves the current frame's instruction pointer to `ip`.
pub open spec fn with_ip(s: StackModel, ip: int) -> StackModel {
    let f = s.frames.last();
    StackModel {
        values: s.values,
        frames: s.frames.update(s.frames.len() - 1, Frame { chunk_id: f.chunk_id, ip: ip as usize, stack_base: f.stack_base }),
    }
}

/// The value stack shared by all frames, and the frames over it.
pub struct CallStack {
    pub values: Vec<Value>,
    pub frames: Vec<Frame>,
}

impl View for CallStack {
    type V = StackModel;

    open spec fn view(&self) -> StackModel {
        StackModel { values: self.values@, frames: self.frames@ }
    }
}

impl CallStack {
    /// A stack holding no value, with one frame at offset 0 of `chunk_id`.
    pub fn new(chunk_id: usize) -> (r: CallStack)
        ensures
            stack_wf(r@),
            r@.values == Seq::<Value>::empty(),
            r@.frames == seq![Frame { chunk_id, ip: 0, stack_base: 0 }],
    {
        let mut frames: Vec<Frame> = Vec::new();
        frames.push(Frame { chunk_id, ip: 0, stack_base: 0 });
        CallStack { values: Vec::new(), frames }
    }

    pub fn push(&mut self, value: Value)
        requires
            stack_wf(old(self)@),
        ensures
            stack_wf(final(self)@),
            final(self)@.values == old(self)@.values.push(value),
            final(self)@.frames == old(self)@.frames,
    {
        self.values.push(value);
    }

    pub fn pop(&mut self) -> (r: Result<Value, MachineError>)
        requires
            stack_wf(old(self)@),
        ensures
            stack_wf(final(self)@),
            match pop_spec(old(self)@) {
                Ok((v, s)) => r == Ok::<Value, MachineError>(v) && final(self)@ == s,
                Err(e) => r == Err::<Value, MachineError>(e) && final(self)@ == old(self)@,
            },
    {
        let base = self.frame_base();
        if self.values.len() <= base {
            return Err(MachineError::StackUnderflow);
        }
        let v = self.values.pop().unwrap();
        Ok(v)
    }

    /// The base of the current frame, or 0 with no frame.
    pub fn frame_base(&self) -> (r: usize)
        ensures
            r == frame_base(self@),
    {
        if self.frames.len() == 0 {
            0
        } else {
            self.frames[self.frames.len() - 1].stack_base
        }
    }

    /// The top value, which must lie in the current frame.
    pub fn peek(&self) -> (r: Result<Value, MachineError>)
        ensures
            r == peek_from_top_spec(self@, 0),
    {
        self.peek_from_top(0)
    }

    pub fn peek_from_top(&self, n: usize) -> (r: Result<Value, MachineError>)
        ensures
            r == peek_from_top_spec(self@, n as int),
    {
        let base = self.frame_base();
        let len = self.values.len();
        if len < base || len - base < n || len - base - n < 1 {
            return Err(MachineError::StackUnderflow);
        }
        Ok(self.values[len - 1 - n])
    }

    /// The current frame, if any.
    pub fn current_frame(&self) -> (r: Option<Frame>)
        ensures
            self@.frames.len() == 0 ==> r is None,
            self@.frames.len() > 0 ==> r == Some(self@.frames.last()),
    {
        if self.frames.len() == 0 {
            None
        } else {
            Some(self.frames[self.frames.len() - 1])
        }
    }

    /// Moves the current frame's instruction pointer to `ip`.
    pub fn set_ip(&mut self, ip: usize)
        requires
            stack_wf(old(self)@),
            old(self)@.frames.len() > 0,
        ensures
            stack_wf(final(self)@),
            final(self)@ == with_ip(old(self)@, ip as int),
    {
        let last = self.frames.len() - 1;
        let f = self.frames[last];
        self.frames.set(last, Frame { chunk_id: f.chunk_id, ip, stack_base: f.stack_base });
    }

    /// Starts a call of chunk `chunk_id` whose `arity` arguments are the top
    /// values: they become the new frame's first slots.
    pub fn push_call_frame(&mut self, chunk_id: usize, arity: usize)
        requires
            stack_wf(old(self)@),
            old(self)@.values.len() - frame_base(old(self)@) >= arity + 1,
        ensures
            stack_wf(final(self)@),
            final(self)@.values == old(self)@.values,
            final(self)@.frames == old(self)@.frames.push(
                Frame { chunk_id, ip: 0, stack_base: (old(self)@.values.len() - arity) as usize },
            ),
    {
        let base = self.values.len() - arity;
        self.frames.push(Frame { chunk_id, ip: 0, stack_base: base });
    }

    /// Ends the current frame, dropping every slot from its base up.
    pub fn discard_call_frame(&mut self) -> (r: Result<(), MachineError>)
        requires
            stack_wf(old(self)@),
        ensures
            stack_wf(final(self)@),
            match discard_frame_spec(old(self)@) {
                Ok(s) => r is Ok && final(self)@ == s,
                Err(e) => r == Err::<(), MachineError>(e) && final(self)@ == old(self)@,
            },
    {
        if self.frames.len() == 0 {
            return Err(MachineError::StackUnderflow);
        }
        let f = self.frames.pop().unwrap();
        self.values.truncate(f.stack_base);
        Ok(())
    }
}

} // verus!
