//! The stack machine that runs a chunk of bytecode, one operation at a
//! step. As with the evaluator, arithmetic on numbers and the output are
//! the host's: a step that needs them names them, and the next step takes
//! the answer.

use vstd::prelude::*;
use crate::chunk::Chunk;
use crate::error::RuntimeError;
use crate::opcode::OpCode;

verus! {

/// What the host is to do before the next step.
#[derive(Clone, Copy, Debug)]
pub enum Effect {
    /// Nothing. Answer nothing.
    Continue,
    /// Negate the number. Answer the result.
    Negate(u64),
    /// Apply the arithmetic operation to the two numbers. Answer the
    /// result.
    Binary(OpCode, u64, u64),
    /// The chunk has returned the number: print it. The machine has
    /// stopped.
    Return(u64),
    /// The chunk cannot be run further. The machine has stopped.
    Failed(RuntimeError),
}

/// The state of the machine.
pub struct Running {
    /// Where the next operation stands in the code.
    pub pc: int,
    /// The numbers, the newest last.
    pub stack: Seq<u64>,
}

/// The machine after the host's answer: the number is pushed.
pub open spec fn answered(m: Running, answer: Option<u64>) -> Running {
    match answer {
        Some(n) => Running { stack: m.stack.push(n), ..m },
        None => m,
    }
}

/// One operation, at `pc`, which has been passed already.
pub open spec fn operate(
    constants: Seq<u64>,
    m: Running,
    op: OpCode,
) -> (Running, Effect) {
    match op {
        OpCode::Return => if m.stack.len() >= 1 {
            (Running { stack: m.stack.drop_last(), ..m }, Effect::Return(m.stack.last()))
        } else {
            (m, Effect::Failed(RuntimeError::GenericError))
        },
        OpCode::Constant(i) => if (i as int) < constants.len() {
            (Running { stack: m.stack.push(constants[i as int]), ..m }, Effect::Continue)
        } else {
            (m, Effect::Failed(RuntimeError::GenericError))
        },
        OpCode::Negate => if m.stack.len() >= 1 {
            (Running { stack: m.stack.drop_last(), ..m }, Effect::Negate(m.stack.last()))
        } else {
            (m, Effect::Failed(RuntimeError::GenericError))
        },
        _ => if m.stack.len() >= 2 {
            (
                Running { stack: m.stack.take(m.stack.len() - 2), ..m },
                Effect::Binary(op, m.stack[m.stack.len() - 2], m.stack.last()),
            )
        } else {
            (m, Effect::Failed(RuntimeError::GenericError))
        },
    }
}

/// One step of a machine to which the host's answer has been given: the
/// operation at `pc` is read, passed, and done.
pub open spec fn cycle(code: Seq<u8>, constants: Seq<u64>, m: Running) -> (Running, Effect) {
    if !OpCode::readable(code, m.pc) {
        (m, Effect::Failed(RuntimeError::GenericError))
    } else {
        match OpCode::decoded(code, m.pc) {
            Err(e) => (m, Effect::Failed(e)),
            Ok(op) => operate(constants, Running { pc: m.pc + op.encoding().len(), ..m }, op),
        }
    }
}

pub struct VM<'vm> {
    pub chunk: &'vm Chunk,
    /// Where the next operation stands in the code.
    pub pc: usize,
    pub stack: Vec<u64>,
}

impl<'vm> View for VM<'vm> {
    type V = Running;

    open spec fn view(&self) -> Running {
        Running { pc: self.pc as int, stack: self.stack@ }
    }
}

impl<'vm> VM<'vm> {
    /// A machine that is to run the chunk from `pc` on, with an empty
    /// stack.
    pub fn new(chunk: &'vm Chunk, pc: usize) -> (r: VM<'vm>)
        ensures
            r.chunk == chunk,
            r@ == (Running { pc: pc as int, stack: Seq::empty() }),
    {
        VM { chunk, pc, stack: Vec::new() }
    }

    /// One step: takes the host's answer to the last effect, does the
    /// operation at `pc`, and tells the host what to do next.
    pub fn step(&mut self, answer: Option<u64>) -> (r: Effect)
        ensures
            final(self).chunk == old(self).chunk,
            (final(self)@, r) == cycle(
                old(self).chunk.code@,
                old(self).chunk.constants@,
                answered(old(self)@, answer),
            ),
    {
        match answer {
            Some(n) => {
                self.stack.push(n);
            },
            None => {},
        }
        let n = self.chunk.code.len();
        if self.pc >= n || (self.chunk.code[self.pc] == 1 && self.pc + 1 >= n) {
            return Effect::Failed(RuntimeError::GenericError);
        }
        let op = match OpCode::try_from(&self.chunk.code, self.pc) {
            Err(e) => {
                return Effect::Failed(e);
            },
            Ok(op) => op,
        };
        self.pc += op.size();
        let depth = self.stack.len();
        match op {
            OpCode::Return => match self.stack.pop() {
                Some(v) => Effect::Return(v),
                None => Effect::Failed(RuntimeError::GenericError),
            },
            OpCode::Constant(i) => {
                if (i as usize) < self.chunk.constants.len() {
                    self.stack.push(self.chunk.constants[i as usize]);
                    Effect::Continue
                } else {
                    Effect::Failed(RuntimeError::GenericError)
                }
            },
            OpCode::Negate => match self.stack.pop() {
                Some(v) => Effect::Negate(v),
                None => Effect::Failed(RuntimeError::GenericError),
            },
            _ => {
                if depth >= 2 {
                    let b = self.stack[depth - 1];
                    let a = self.stack[depth - 2];
                    self.stack.truncate(depth - 2);
                    Effect::Binary(op, a, b)
                } else {
                    Effect::Failed(RuntimeError::GenericError)
                }
            },
        }
    }
}

/// Pushing a constant and returning gives that constant: the chunk that
/// holds `CONSTANT i` and `RETURN` returns the constant `i` in two steps.
pub proof fn lemma_constant_returns(constants: Seq<u64>, i: u8)
    requires
        (i as int) < constants.len(),
    ensures
        ({
            let code = OpCode::Constant(i).encoding() + OpCode::Return.encoding();
            let start = Running { pc: 0, stack: Seq::empty() };
            let first = cycle(code, constants, start);
            let second = cycle(code, constants, first.0);
            &&& first.1 == Effect::Continue
            &&& second.1 == Effect::Return(constants[i as int])
            &&& second.0.stack.len() == 0
        }),
{
    let code = OpCode::Constant(i).encoding() + OpCode::Return.encoding();
    assert(code[0] == 1u8 && code[1] == i && code[2] == 0u8);
    let start = Running { pc: 0, stack: Seq::empty() };
    let first = cycle(code, constants, start);
    assert(first.0.pc == 2);
    assert(first.0.stack =~= seq![constants[i as int]]);
}

} // verus!
