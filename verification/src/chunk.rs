//! A chunk of bytecode: the code, the line of each of its bytes, and the
//! constants that it refers to.

use vstd::prelude::*;
use crate::opcode::OpCode;

verus! {

pub struct Chunk {
    pub code: Vec<u8>,
    /// For each byte of the code, the source line that it comes from.
    pub lines: Vec<usize>,
    /// The constants, each the bits of a number.
    pub constants: Vec<u64>,
}

impl Chunk {
    pub fn new() -> (r: Chunk)
        ensures
            r.code@.len() == 0,
            r.lines@.len() == 0,
            r.constants@.len() == 0,
    {
        Chunk { code: Vec::new(), lines: Vec::new(), constants: Vec::new() }
    }

    /// Appends an operation that comes from the given line.
    pub fn append_op(&mut self, op: OpCode, line: usize)
        ensures
            final(self).code@ == old(self).code@ + op.encoding(),
            final(self).lines@ == old(self).lines@ + Seq::new(
                op.encoding().len(),
                |i: int| line,
            ),
            final(self).constants == old(self).constants,
    {
        op.write_to(&mut self.code);
        let n = op.size();
        let mut i: usize = 0;
        while i < n
            invariant
                i <= n,
                n == op.encoding().len(),
                self.code@ == old(self).code@ + op.encoding(),
                self.constants == old(self).constants,
                self.lines@ == old(self).lines@ + Seq::new(i as nat, |k: int| line),
            decreases n - i,
        {
            self.lines.push(line);
            assert(self.lines@ =~= old(self).lines@ + Seq::new((i + 1) as nat, |k: int| line));
            i += 1;
        }
    }

    /// Adds a constant and returns its index, which is its place among the
    /// constants cut down to a byte.
    pub fn append_const(&mut self, constant: u64) -> (r: u8)
        ensures
            final(self).constants@ == old(self).constants@.push(constant),
            final(self).code == old(self).code,
            final(self).lines == old(self).lines,
            r == old(self).constants@.len() % 256,
    {
        let pos = self.constants.len();
        self.constants.push(constant);
        (pos % 256) as u8
    }
}

} // verus!
