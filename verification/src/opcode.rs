//! The operations of the stack machine and their encoding in bytes.

use vstd::prelude::*;
use crate::chunk::Chunk;
use crate::error::RuntimeError;

verus! {

#[derive(Clone, Copy, PartialEq, Eq, Structural, Debug)]
pub enum OpCode {
    Return,
    /// Pushes the constant with the given index.
    Constant(u8),
    Negate,
    Add,
    Subtract,
    Multiply,
    Divide,
}

impl OpCode {
    /// The bytes of the operation: its code, then its operand if it has
    /// one.
    pub open spec fn encoding(self) -> Seq<u8> {
        match self {
            OpCode::Return => seq![0u8],
            OpCode::Constant(i) => seq![1u8, i],
            OpCode::Negate => seq![2u8],
            OpCode::Add => seq![3u8],
            OpCode::Subtract => seq![4u8],
            OpCode::Multiply => seq![5u8],
            OpCode::Divide => seq![6u8],
        }
    }

    /// The name of the operation.
    pub open spec fn name(self) -> &'static str {
        match self {
            OpCode::Return => "RETURN",
            OpCode::Constant(_) => "CONSTANT",
            OpCode::Negate => "NEGATE",
            OpCode::Add => "ADD",
            OpCode::Subtract => "SUBTRACT",
            OpCode::Multiply => "MULTIPLY",
            OpCode::Divide => "DIVIDE",
        }
    }

    /// The operation encoded at `offset`, if the bytes there encode one.
    pub open spec fn decoded(place: Seq<u8>, offset: int) -> Result<OpCode, RuntimeError> {
        let code = place[offset];
        if code == 0 {
            Ok(OpCode::Return)
        } else if code == 1 {
            Ok(OpCode::Constant(place[offset + 1]))
        } else if code == 2 {
            Ok(OpCode::Negate)
        } else if code == 3 {
            Ok(OpCode::Add)
        } else if code == 4 {
            Ok(OpCode::Subtract)
        } else if code == 5 {
            Ok(OpCode::Multiply)
        } else if code == 6 {
            Ok(OpCode::Divide)
        } else {
            Err(RuntimeError::UnknownOpcode(code))
        }
    }

    /// The bytes at `offset` can be read as an operation or refused: the
    /// code is there, and so is the operand of a constant.
    pub open spec fn readable(place: Seq<u8>, offset: int) -> bool {
        &&& 0 <= offset < place.len()
        &&& place[offset] == 1 ==> offset + 1 < place.len()
    }

    /// How the operation reads in a listing: its size, its name, and for a
    /// constant its index with the constant itself.
    pub fn disassemble(&self, chunk: &Chunk) -> (r: (usize, &'static str, Option<(u8, u64)>))
        requires
            self matches OpCode::Constant(i) ==> (i as int) < chunk.constants@.len(),
        ensures
            r.0 == self.encoding().len(),
            r.1 == self.name(),
            r.2 == (match *self {
                OpCode::Constant(i) => Some((i, chunk.constants@[i as int])),
                _ => None,
            }),
    {
        match self {
            OpCode::Return => (1, "RETURN", None),
            OpCode::Constant(i) => (2, "CONSTANT", Some((*i, chunk.constants[*i as usize]))),
            OpCode::Negate => (1, "NEGATE", None),
            OpCode::Add => (1, "ADD", None),
            OpCode::Subtract => (1, "SUBTRACT", None),
            OpCode::Multiply => (1, "MULTIPLY", None),
            OpCode::Divide => (1, "DIVIDE", None),
        }
    }

    /// Appends the encoding of the operation.
    pub fn write_to(&self, place: &mut Vec<u8>)
        ensures
            final(place)@ == old(place)@ + self.encoding(),
    {
        match self {
            OpCode::Return => {
                place.push(0);
            },
            OpCode::Constant(i) => {
                place.push(1);
                place.push(*i);
            },
            OpCode::Negate => {
                place.push(2);
            },
            OpCode::Add => {
                place.push(3);
            },
            OpCode::Subtract => {
                place.push(4);
            },
            OpCode::Multiply => {
                place.push(5);
            },
            OpCode::Divide => {
                place.push(6);
            },
        }
        assert(place@ =~= old(place)@ + self.encoding());
    }

    /// How many bytes the operation takes.
    pub fn size(&self) -> (r: usize)
        ensures
            r == self.encoding().len(),
    {
        match self {
            OpCode::Return => 1,
            OpCode::Constant(_) => 2,
            OpCode::Negate => 1,
            OpCode::Add => 1,
            OpCode::Subtract => 1,
            OpCode::Multiply => 1,
            OpCode::Divide => 1,
        }
    }

    /// Reads the operation encoded at `offset`.
    pub fn try_from(place: &Vec<u8>, offset: usize) -> (r: Result<OpCode, RuntimeError>)
        requires
            OpCode::readable(place@, offset as int),
        ensures
            r == OpCode::decoded(place@, offset as int),
    {
        let n = place.len();
        let code = place[offset];
        if code == 0 {
            Ok(OpCode::Return)
        } else if code == 1 {
            assert(offset + 1 < n);
            Ok(OpCode::Constant(place[offset + 1]))
        } else if code == 2 {
            Ok(OpCode::Negate)
        } else if code == 3 {
            Ok(OpCode::Add)
        } else if code == 4 {
            Ok(OpCode::Subtract)
        } else if code == 5 {
            Ok(OpCode::Multiply)
        } else if code == 6 {
            Ok(OpCode::Divide)
        } else {
            Err(RuntimeError::UnknownOpcode(code))
        }
    }
}

/// What was written can be read back: after the encoding of an operation
/// has been appended to some bytes, the operation is the one that stands
/// where those bytes ended, whatever follows.
pub proof fn lemma_write_then_read(before: Seq<u8>, op: OpCode, after: Seq<u8>)
    ensures
        OpCode::readable(before + op.encoding() + after, before.len() as int),
        OpCode::decoded(before + op.encoding() + after, before.len() as int) == Ok::<
            OpCode,
            RuntimeError,
        >(op),
{
    let all = before + op.encoding() + after;
    assert(all[before.len() as int] == op.encoding()[0]);
    if op is Constant {
        assert(all[before.len() as int + 1] == op.encoding()[1]);
    }
}

} // verus!
