use stack_vm::{BytecodeCursor, Instruction, InstructionReceiver, MachineError, ReadSeek};

fn payload_len(op: u8) -> usize {
    match op {
        0 => 1,
        1 => 2,
        2 => 4,
        3 => 8,
        _ => 0,
    }
}

#[test]
fn every_opcode_round_trips() {
    for op in 0u8..=106 {
        let mut bytes = vec![op];
        for k in 0..payload_len(op) {
            bytes.push(0x10 + k as u8);
        }
        bytes.push(0xff);
        let mut cursor = BytecodeCursor::new(bytes.clone());
        let decoded = Instruction::from_reader(&mut cursor).unwrap();
        assert_eq!(decoded.opcode(), op);
        assert_eq!(cursor.stream_position(), 1 + payload_len(op) as u64);
        let mut encoded: Vec<u8> = Vec::new();
        encoded.instruct(decoded);
        assert_eq!(encoded, bytes[..1 + payload_len(op)].to_vec());
        let again = Instruction::from_reader(&mut BytecodeCursor::new(encoded)).unwrap();
        assert_eq!(again, decoded);
    }
}

#[test]
fn push_payloads_decode_in_order() {
    let mut cursor = BytecodeCursor::new(vec![2, 1, 2, 3, 4, 7]);
    assert_eq!(Instruction::from_reader(&mut cursor), Ok(Instruction::PSH_4([1, 2, 3, 4])));
    assert_eq!(Instruction::from_reader(&mut cursor), Ok(Instruction::POP_8));
    assert_eq!(Instruction::from_reader(&mut cursor), Err(MachineError::EndOfInstructions));
}

#[test]
fn unknown_opcode_is_rejected() {
    let mut cursor = BytecodeCursor::new(vec![107]);
    assert_eq!(Instruction::from_reader(&mut cursor), Err(MachineError::UnknownInstruction(107)));
    let mut cursor = BytecodeCursor::new(vec![255, 0]);
    assert_eq!(Instruction::from_reader(&mut cursor), Err(MachineError::UnknownInstruction(255)));
}

#[test]
fn truncated_payload_is_incomplete() {
    let mut cursor = BytecodeCursor::new(vec![3, 1, 2, 3]);
    assert_eq!(Instruction::from_reader(&mut cursor), Err(MachineError::IncompleteInstruction(3)));
    let mut cursor = BytecodeCursor::new(vec![0]);
    assert_eq!(Instruction::from_reader(&mut cursor), Err(MachineError::IncompleteInstruction(0)));
}

#[test]
fn empty_stream_ends_instructions() {
    let mut cursor = BytecodeCursor::new(Vec::new());
    assert_eq!(Instruction::from_reader(&mut cursor), Err(MachineError::EndOfInstructions));
    let mut cursor = BytecodeCursor::new(vec![4]);
    cursor.seek(5);
    assert_eq!(Instruction::from_reader(&mut cursor), Err(MachineError::EndOfInstructions));
}

#[test]
fn jump_markers_are_filled_in() {
    let mut program: Vec<u8> = Vec::new();
    program.instruct(Instruction::POP_1);
    let mut location = 0usize;
    program.push_jump_marker(&mut location);
    assert_eq!(location, 2);
    assert_eq!(program, vec![4, 3, 0, 0, 0, 0, 0, 0, 0, 0, 20]);
    program.assign_jump_marker(location, 0x0102);
    assert_eq!(program, vec![4, 3, 2, 1, 0, 0, 0, 0, 0, 0, 20]);
    program.instruct(Instruction::RET);
    program.assign_jump_marker_here(location);
    assert_eq!(program, vec![4, 3, 12, 0, 0, 0, 0, 0, 0, 0, 20, 21]);
}

#[test]
fn decoding_errors_leave_position_as_stated() {
    let mut cursor = BytecodeCursor::new(vec![4, 150, 9]);
    cursor.seek(1);
    assert_eq!(Instruction::from_reader(&mut cursor), Err(MachineError::UnknownInstruction(150)));
    assert_eq!(cursor.stream_position(), 2);
    let mut cursor = BytecodeCursor::new(vec![3, 1, 2]);
    assert_eq!(Instruction::from_reader(&mut cursor), Err(MachineError::IncompleteInstruction(3)));
    assert_eq!(cursor.stream_position(), 3);
    let mut cursor = BytecodeCursor::new(vec![4]);
    cursor.seek(1);
    assert_eq!(Instruction::from_reader(&mut cursor), Err(MachineError::EndOfInstructions));
    assert_eq!(cursor.stream_position(), 1);
}
