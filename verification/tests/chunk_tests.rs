use lochx::chunk::Chunk;
use lochx::error::RuntimeError;
use lochx::opcode::OpCode;
use lochx::vm::{Effect, VM};

fn all() -> Vec<OpCode> {
    vec![
        OpCode::Return,
        OpCode::Constant(0),
        OpCode::Constant(255),
        OpCode::Negate,
        OpCode::Add,
        OpCode::Subtract,
        OpCode::Multiply,
        OpCode::Divide,
    ]
}

#[test]
fn operations_are_encoded_as_code_and_operand() {
    let mut place = vec![9u8];
    OpCode::Return.write_to(&mut place);
    OpCode::Constant(7).write_to(&mut place);
    OpCode::Negate.write_to(&mut place);
    OpCode::Add.write_to(&mut place);
    OpCode::Subtract.write_to(&mut place);
    OpCode::Multiply.write_to(&mut place);
    OpCode::Divide.write_to(&mut place);
    assert_eq!(place, vec![9, 0, 1, 7, 2, 3, 4, 5, 6]);
}

#[test]
fn size_is_the_length_of_the_encoding() {
    for op in all() {
        let mut place = vec![];
        op.write_to(&mut place);
        assert_eq!(op.size(), place.len());
    }
    assert_eq!(OpCode::Return.size(), 1);
    assert_eq!(OpCode::Constant(3).size(), 2);
}

#[test]
fn what_was_written_is_read_back() {
    let mut place = vec![];
    let mut offsets = vec![];
    for op in all() {
        offsets.push(place.len());
        op.write_to(&mut place);
    }
    for (op, offset) in all().into_iter().zip(offsets) {
        assert_eq!(OpCode::try_from(&place, offset).ok(), Some(op));
    }
}

#[test]
fn unknown_code_is_refused() {
    let place = vec![0u8, 7, 200];
    assert!(matches!(OpCode::try_from(&place, 1), Err(RuntimeError::UnknownOpcode(7))));
    assert!(matches!(OpCode::try_from(&place, 2), Err(RuntimeError::UnknownOpcode(200))));
    assert_eq!(OpCode::try_from(&place, 0).ok(), Some(OpCode::Return));
}

#[test]
fn chunk_records_a_line_for_each_byte() {
    let mut chunk = Chunk::new();
    assert!(chunk.code.is_empty() && chunk.lines.is_empty() && chunk.constants.is_empty());
    let index = chunk.append_const(1.5f64.to_bits());
    assert_eq!(index, 0);
    chunk.append_op(OpCode::Constant(index), 10);
    chunk.append_op(OpCode::Negate, 10);
    chunk.append_op(OpCode::Return, 11);
    assert_eq!(chunk.code, vec![1, 0, 2, 0]);
    assert_eq!(chunk.lines, vec![10, 10, 10, 11]);
    assert_eq!(chunk.constants, vec![1.5f64.to_bits()]);
}

#[test]
fn constant_index_is_cut_down_to_a_byte() {
    let mut chunk = Chunk::new();
    for i in 0..256u64 {
        assert_eq!(chunk.append_const(i) as u64, i);
    }
    assert_eq!(chunk.append_const(7), 0);
    assert_eq!(chunk.append_const(8), 1);
    assert_eq!(chunk.constants.len(), 258);
    assert_eq!(chunk.constants[257], 8);
}

#[test]
fn disassemble_names_the_operation() {
    let mut chunk = Chunk::new();
    chunk.append_const(11);
    chunk.append_const(22);
    assert_eq!(OpCode::Return.disassemble(&chunk), (1, "RETURN", None));
    assert_eq!(OpCode::Constant(1).disassemble(&chunk), (2, "CONSTANT", Some((1, 22))));
    assert_eq!(OpCode::Negate.disassemble(&chunk), (1, "NEGATE", None));
    assert_eq!(OpCode::Add.disassemble(&chunk), (1, "ADD", None));
    assert_eq!(OpCode::Subtract.disassemble(&chunk), (1, "SUBTRACT", None));
    assert_eq!(OpCode::Multiply.disassemble(&chunk), (1, "MULTIPLY", None));
    assert_eq!(OpCode::Divide.disassemble(&chunk), (1, "DIVIDE", None));
}

fn run_chunk(chunk: &Chunk) -> Result<f64, RuntimeError> {
    let mut vm = VM::new(chunk, 0);
    let mut answer = None;
    for _ in 0..1000 {
        answer = match vm.step(answer) {
            Effect::Continue => None,
            Effect::Negate(a) => Some((-f64::from_bits(a)).to_bits()),
            Effect::Binary(op, a, b) => {
                let (a, b) = (f64::from_bits(a), f64::from_bits(b));
                Some(
                    match op {
                        OpCode::Add => a + b,
                        OpCode::Subtract => a - b,
                        OpCode::Multiply => a * b,
                        OpCode::Divide => a / b,
                        _ => unreachable!(),
                    }
                    .to_bits(),
                )
            }
            Effect::Return(v) => {
                assert!(vm.stack.is_empty());
                return Ok(f64::from_bits(v));
            }
            Effect::Failed(e) => return Err(e),
        };
    }
    panic!("the chunk does not end");
}

fn chunk_of(constants: &[f64], ops: &[OpCode]) -> Chunk {
    let mut chunk = Chunk::new();
    for c in constants {
        chunk.append_const(c.to_bits());
    }
    for op in ops {
        chunk.append_op(*op, 1);
    }
    chunk
}

#[test]
fn machine_runs_arithmetic() {
    let chunk = chunk_of(
        &[1.5, 2.0, 4.0],
        &[
            OpCode::Constant(0),
            OpCode::Constant(1),
            OpCode::Add,
            OpCode::Negate,
            OpCode::Constant(2),
            OpCode::Multiply,
            OpCode::Return,
        ],
    );
    assert_eq!(run_chunk(&chunk).ok(), Some(-14.0));
    let chunk = chunk_of(
        &[8.0, 2.0],
        &[OpCode::Constant(0), OpCode::Constant(1), OpCode::Divide, OpCode::Return],
    );
    assert_eq!(run_chunk(&chunk).ok(), Some(4.0));
    let chunk = chunk_of(
        &[8.0, 2.0],
        &[OpCode::Constant(0), OpCode::Constant(1), OpCode::Subtract, OpCode::Return],
    );
    assert_eq!(run_chunk(&chunk).ok(), Some(6.0));
}

#[test]
fn machine_stops_where_it_cannot_go_on() {
    assert!(matches!(run_chunk(&chunk_of(&[], &[])), Err(RuntimeError::GenericError)));
    assert!(matches!(
        run_chunk(&chunk_of(&[], &[OpCode::Return])),
        Err(RuntimeError::GenericError)
    ));
    assert!(matches!(
        run_chunk(&chunk_of(&[1.0], &[OpCode::Constant(0), OpCode::Add])),
        Err(RuntimeError::GenericError)
    ));
    assert!(matches!(
        run_chunk(&chunk_of(&[], &[OpCode::Negate])),
        Err(RuntimeError::GenericError)
    ));
    assert!(matches!(
        run_chunk(&chunk_of(&[1.0], &[OpCode::Constant(1), OpCode::Return])),
        Err(RuntimeError::GenericError)
    ));
    let mut chunk = Chunk::new();
    chunk.code.push(9);
    assert!(matches!(run_chunk(&chunk), Err(RuntimeError::UnknownOpcode(9))));
    let mut chunk = Chunk::new();
    chunk.code.push(1);
    assert!(matches!(run_chunk(&chunk), Err(RuntimeError::GenericError)));
}

#[test]
fn machine_starts_where_it_is_told() {
    let chunk = chunk_of(&[7.0], &[OpCode::Negate, OpCode::Constant(0), OpCode::Return]);
    let mut vm = VM::new(&chunk, 1);
    assert_eq!(vm.pc, 1);
    assert!(matches!(vm.step(None), Effect::Continue));
    assert_eq!(vm.pc, 3);
    assert_eq!(vm.stack, vec![7f64.to_bits()]);
    match vm.step(None) {
        Effect::Return(v) => assert_eq!(f64::from_bits(v), 7.0),
        other => panic!("{:?}", other),
    }
}
