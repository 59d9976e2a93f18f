use stack_vm::{
    ComputeStack, FloatArith, FloatUnit, HeapError, Instruction, InstructionReceiver,
    InvalidInstruction, Machine, MachineError, ObjectReference, ReadSeek, StackError,
};

/// Floating-point arithmetic of the host, on bit patterns.
struct HostFloats;

fn arith32(op: FloatArith, x: f32, y: f32) -> f32 {
    match op {
        FloatArith::Add => x + y,
        FloatArith::Sub => x - y,
        FloatArith::Mul => x * y,
        FloatArith::Div => x / y,
        FloatArith::Rem => x % y,
    }
}

fn arith64(op: FloatArith, x: f64, y: f64) -> f64 {
    match op {
        FloatArith::Add => x + y,
        FloatArith::Sub => x - y,
        FloatArith::Mul => x * y,
        FloatArith::Div => x / y,
        FloatArith::Rem => x % y,
    }
}

impl FloatUnit for HostFloats {
    fn binary32(&self, op: FloatArith, a: u32, b: u32) -> u32 {
        arith32(op, f32::from_bits(a), f32::from_bits(b)).to_bits()
    }
    fn binary64(&self, op: FloatArith, a: u64, b: u64) -> u64 {
        arith64(op, f64::from_bits(a), f64::from_bits(b)).to_bits()
    }
    fn u64_to_f32(&self, v: u64) -> u32 {
        (v as f32).to_bits()
    }
    fn u64_to_f64(&self, v: u64) -> u64 {
        (v as f64).to_bits()
    }
    fn i64_to_f32(&self, v: i64) -> u32 {
        (v as f32).to_bits()
    }
    fn i64_to_f64(&self, v: i64) -> u64 {
        (v as f64).to_bits()
    }
    fn f32_to_u64(&self, bits: u32) -> u64 {
        f32::from_bits(bits) as u64
    }
    fn f64_to_u64(&self, bits: u64) -> u64 {
        f64::from_bits(bits) as u64
    }
    fn f32_to_i64(&self, bits: u32) -> i64 {
        f32::from_bits(bits) as i64
    }
    fn f64_to_i64(&self, bits: u64) -> i64 {
        f64::from_bits(bits) as i64
    }
    fn f32_to_f64(&self, bits: u32) -> u64 {
        (f32::from_bits(bits) as f64).to_bits()
    }
    fn f64_to_f32(&self, bits: u64) -> u32 {
        (f64::from_bits(bits) as f32).to_bits()
    }
}

fn program(instructions: &[Instruction]) -> Vec<u8> {
    let mut bytes: Vec<u8> = Vec::new();
    for i in instructions {
        bytes.instruct(*i);
    }
    bytes
}

fn u64_le(v: u64) -> [u8; 8] {
    v.to_le_bytes()
}

/// Runs to the end of the program, failing on any other error.
fn run(instructions: &[Instruction]) -> Machine<HostFloats> {
    let mut m = Machine::new(program(instructions), HostFloats);
    for _ in 0..10_000 {
        match m.step() {
            Ok(()) => {}
            Err((MachineError::EndOfInstructions, None)) => return m,
            Err((e, i)) => panic!("machine failed with {:?} at {:?}", e, i),
        }
    }
    panic!("program did not end");
}

/// Runs until the first error and returns it.
fn run_to_error(instructions: &[Instruction]) -> (MachineError, Option<Instruction>) {
    let mut m = Machine::new(program(instructions), HostFloats);
    for _ in 0..10_000 {
        if let Err(e) = m.step() {
            return e;
        }
    }
    panic!("program did not fail");
}

fn top_u64(m: &mut Machine<HostFloats>) -> u64 {
    m.stack.pop_u64().unwrap()
}

#[test]
fn float_add_then_convert() {
    let mut m = run(&[
        Instruction::PSH_8(1.0f64.to_le_bytes()),
        Instruction::PSH_8(1.0f64.to_le_bytes()),
        Instruction::ADD_F_8,
        Instruction::CNV_F8_U8,
    ]);
    assert_eq!(m.stack, vec![2, 0, 0, 0, 0, 0, 0, 0]);
    assert_eq!(top_u64(&mut m), 2);
}

#[test]
fn unsigned_div_rem_pushes_quotient_then_remainder() {
    // The dividend is popped first (top of stack), the divisor next.
    let mut m = run(&[Instruction::PSH_8(u64_le(3)), Instruction::PSH_8(u64_le(7)), Instruction::DIV_REM_U_8]);
    assert_eq!(top_u64(&mut m), 1);
    assert_eq!(top_u64(&mut m), 2);
    assert_eq!(m.stack.size(), 0);
}

#[test]
fn unsigned_div_rem_by_zero() {
    let mut m = run(&[Instruction::PSH_8(u64_le(0)), Instruction::PSH_8(u64_le(10)), Instruction::DIV_REM_U_8]);
    assert_eq!(top_u64(&mut m), 10);
    assert_eq!(top_u64(&mut m), u64::MAX);
}

#[test]
fn signed_div_rem_of_bytes() {
    // -7 / 2 == -3, remainder -1; by zero: MAX and the dividend
    let mut m = run(&[Instruction::PSH_1([2]), Instruction::PSH_1([(-7i8) as u8]), Instruction::DIV_REM_S_1]);
    assert_eq!(m.stack, vec![(-3i8) as u8, (-1i8) as u8]);
    let mut m = run(&[Instruction::PSH_2([0, 0]), Instruction::PSH_2((-9i16).to_le_bytes()), Instruction::DIV_REM_S_2]);
    assert_eq!(m.stack.pop_i16().unwrap(), -9);
    assert_eq!(m.stack.pop_i16().unwrap(), i16::MAX);
}

#[test]
fn alloc_then_read_zeroed_data() {
    // start offset, data length, children count; Instruction::ALLOC pops children first
    let m = run(&[
        Instruction::PSH_8(u64_le(0)),
        Instruction::PSH_8(u64_le(4)),
        Instruction::PSH_8(u64_le(0)),
        Instruction::ALLOC,
    ]);
    let r = u64::from_le_bytes(m.stack[8..16].try_into().unwrap());
    assert!(r != 0);
    let m = run(&[
        Instruction::PSH_8(u64_le(0)),
        Instruction::PSH_8(u64_le(4)),
        Instruction::PSH_8(u64_le(0)),
        Instruction::ALLOC,
        Instruction::MOV_HP_ST_4,
    ]);
    assert_eq!(m.stack, vec![0, 0, 0, 0]);
}

#[test]
fn float_compare_orders_nan_above_one() {
    // a = 1.0 (top), b = NaN: 1.0 is below positive NaN in totalOrder
    let m = run(&[Instruction::PSH_8(f64::NAN.to_le_bytes()), Instruction::PSH_8(1.0f64.to_le_bytes()), Instruction::CMP_F8]);
    assert_eq!(m.stack, vec![1]);
    let m = run(&[Instruction::PSH_8(1.0f64.to_le_bytes()), Instruction::PSH_8(f64::NAN.to_le_bytes()), Instruction::CMP_F8]);
    assert_eq!(m.stack, vec![3]);
}

#[test]
fn float_compare_agrees_with_total_order() {
    let values = [
        f32::NEG_INFINITY,
        -1.5,
        -0.0,
        0.0,
        f32::MIN_POSITIVE,
        2.5,
        f32::INFINITY,
        f32::NAN,
        -f32::NAN,
        f32::from_bits(0x7fc0_0001),
    ];
    for a in values {
        for b in values {
            let m = run(&[Instruction::PSH_4(b.to_le_bytes()), Instruction::PSH_4(a.to_le_bytes()), Instruction::CMP_F4]);
            let expected = match a.total_cmp(&b) {
                std::cmp::Ordering::Less => 1u8,
                std::cmp::Ordering::Equal => 2,
                std::cmp::Ordering::Greater => 3,
            };
            assert_eq!(m.stack, vec![expected], "{:?} vs {:?}", a, b);
        }
    }
}

#[test]
fn integer_compare_follows_arithmetic_order() {
    let pairs: [(u64, u64); 4] = [(1, 2), (2, 1), (5, 5), (u64::MAX, 0)];
    for (a, b) in pairs {
        let m = run(&[Instruction::PSH_8(u64_le(b)), Instruction::PSH_8(u64_le(a)), Instruction::CMP_U_8]);
        let expected = if a < b { 1 } else if a > b { 3 } else { 2 };
        assert_eq!(m.stack, vec![expected]);
        let (sa, sb) = (a as i64, b as i64);
        let m = run(&[Instruction::PSH_8(u64_le(b)), Instruction::PSH_8(u64_le(a)), Instruction::CMP_S_8]);
        let expected = if sa < sb { 1 } else if sa > sb { 3 } else { 2 };
        assert_eq!(m.stack, vec![expected]);
    }
    let m = run(&[Instruction::PSH_1([0x01]), Instruction::PSH_1([0xff]), Instruction::CMP_S_1]);
    assert_eq!(m.stack, vec![1]);
    let m = run(&[Instruction::PSH_1([0x01]), Instruction::PSH_1([0xff]), Instruction::CMP_U_1]);
    assert_eq!(m.stack, vec![3]);
}

#[test]
fn collection_reclaims_cycle_built_by_instructions() {
    // A is reference 1, B is reference 2. `Instruction::PSH_8(r) Instruction::COPY_REF Instruction::POP_8` takes
    // one more stack reference to r and leaves r on the stack.
    let m0 = run(&[
        Instruction::PSH_8(u64_le(0)),
        Instruction::PSH_8(u64_le(1)),
        Instruction::ALLOC,
        Instruction::PSH_8(u64_le(0)),
        Instruction::PSH_8(u64_le(1)),
        Instruction::ALLOC,
        Instruction::COPY_REF,
        Instruction::POP_8,
        Instruction::PSH_8(u64_le(0)),
        Instruction::PSH_8(u64_le(1)),
        Instruction::COPY_REF,
        Instruction::POP_8,
        Instruction::SET_CHILD,
        Instruction::PSH_8(u64_le(0)),
        Instruction::PSH_8(u64_le(2)),
        Instruction::SET_CHILD,
    ]);
    let mut m = m0;
    let a = ObjectReference::new_result(1).unwrap();
    let b = ObjectReference::new_result(2).unwrap();
    assert_eq!(m.stack.size(), 0);
    assert_eq!(m.heap.get_child(&a, 0), Ok(Some(b)));
    assert_eq!(m.heap.get_child(&b, 0), Ok(Some(a)));
    assert_eq!(m.heap.get_stack_references(&a), Ok(0));
    assert_eq!(m.heap.get_stack_references(&b), Ok(0));
    m.heap.collect_garbage();
    assert_eq!(m.heap.get_child(&a, 0), Err(HeapError::ObjectNotFound));
    assert_eq!(m.heap.get_child(&b, 0), Err(HeapError::ObjectNotFound));
}

#[test]
fn stack_references_match_references_on_stack() {
    // two objects; ALLOC and COPY_REF keep one stack reference per copy
    let m = run(&[
        Instruction::PSH_8(u64_le(8)),
        Instruction::PSH_8(u64_le(2)),
        Instruction::ALLOC,
        Instruction::COPY_REF,
        Instruction::COPY_REF,
        Instruction::PSH_8(u64_le(0)),
        Instruction::PSH_8(u64_le(0)),
        Instruction::ALLOC,
        Instruction::COPY_REF,
    ]);
    let p = ObjectReference::new_result(1).unwrap();
    let c = ObjectReference::new_result(2).unwrap();
    let positions = m.stack.len() / 8;
    let non_null = (0..positions)
        .filter(|k| u64::from_le_bytes(m.stack[8 * k..8 * k + 8].try_into().unwrap()) != 0)
        .count();
    let total = m.heap.get_stack_references(&p).unwrap() + m.heap.get_stack_references(&c).unwrap();
    assert_eq!(non_null, 5);
    assert_eq!(total as usize, non_null);
}

#[test]
fn child_links_through_instructions() {
    // parent P (ref 1) with 2 slots, child C (ref 2)
    let mut m = run(&[
        Instruction::PSH_8(u64_le(0)),
        Instruction::PSH_8(u64_le(2)),
        Instruction::ALLOC,
        Instruction::COPY_REF,
        Instruction::PSH_8(u64_le(0)),
        Instruction::PSH_8(u64_le(0)),
        Instruction::ALLOC,
    ]);
    let pr = ObjectReference::new_result(1).unwrap();
    let cr = ObjectReference::new_result(2).unwrap();
    assert_eq!(m.heap.get_stack_references(&pr), Ok(2));
    assert_eq!(m.heap.get_stack_references(&cr), Ok(1));
    // stack [P, P, C]; the host lays out [P, C, 1, P] for SET_CHILD P.1 <- C
    let c = m.stack.pop_u64().unwrap();
    let p = m.stack.pop_u64().unwrap();
    m.stack.push_u64(c).unwrap();
    m.stack.push_u64(1).unwrap();
    m.stack.push_u64(p).unwrap();
    assert_eq!(m.execute(Instruction::SET_CHILD), Ok(()));
    assert_eq!(m.heap.get_stack_references(&pr), Ok(1));
    assert_eq!(m.heap.get_stack_references(&cr), Ok(0));
    assert_eq!(m.heap.get_child(&pr, 1), Ok(Some(cr)));
    // stack [P]; lay out [1, P] for GET_CHILD P.1
    let p = m.stack.pop_u64().unwrap();
    m.stack.push_u64(1).unwrap();
    m.stack.push_u64(p).unwrap();
    assert_eq!(m.execute(Instruction::GET_CHILD), Ok(()));
    assert_eq!(m.stack, u64_le(2).to_vec());
    assert_eq!(m.heap.get_stack_references(&cr), Ok(1));
    assert_eq!(m.heap.get_stack_references(&pr), Ok(0));
    // an empty slot reads as null
    m.stack.push_u64(0).unwrap();
    m.stack.push_u64(1).unwrap();
    m.heap.increment_stack_references(&pr).unwrap();
    assert_eq!(m.execute(Instruction::GET_CHILD), Ok(()));
    assert_eq!(m.stack.pop_u64().unwrap(), 0);
}

#[test]
fn moves_between_stack_and_heap() {
    // write 0xdeadbeef at offset 2 of an 8-byte object, then read 4 bytes back
    let mut m = run(&[
        Instruction::PSH_8(u64_le(8)),
        Instruction::PSH_8(u64_le(0)),
        Instruction::ALLOC,
        Instruction::COPY_REF,
    ]);
    let r = m.stack.pop_u64().unwrap();
    let r2 = m.stack.pop_u64().unwrap();
    m.stack.push_u64(2).unwrap();
    m.stack.push_u64(r2).unwrap();
    m.stack.push_u32(0xdead_beef).unwrap();
    m.stack.push_u64(2).unwrap();
    m.stack.push_u64(r).unwrap();
    assert_eq!(m.execute(Instruction::MOV_ST_HP_4), Ok(()));
    assert_eq!(m.stack.size(), 16);
    assert_eq!(m.execute(Instruction::MOV_HP_ST_4), Ok(()));
    assert_eq!(m.stack.pop_u32().unwrap(), 0xdead_beef);
    let obj = ObjectReference::new_result(r).unwrap();
    assert_eq!(m.heap.get_data_slice(&obj, 0, 8).unwrap(), &[0u8, 0, 0xef, 0xbe, 0xad, 0xde, 0, 0][..]);
    assert_eq!(m.heap.get_stack_references(&obj), Ok(0));
}

#[test]
fn subroutine_returns_after_the_call() {
    // 0: Instruction::PSH_8(addr of sub) 9: Instruction::JSR 10: Instruction::PSH_1(7) 12: JMP past sub ... sub: Instruction::RET
    let mut code: Vec<u8> = Vec::new();
    let mut marker = 0usize;
    code.push_jump_marker(&mut marker); // 0..10: Instruction::PSH_8(?) Instruction::JSR
    code.instruct(Instruction::PSH_1([7])); // 10..12
    code.instruct(Instruction::PSH_8(u64_le(0))); // 12..21: placeholder for end address
    code.instruct(Instruction::PSH_1([2])); // 21..23: Equal
    code.instruct(Instruction::JMP_EQ); // 23
    code.assign_jump_marker_here(marker); // subroutine starts at 24
    code.instruct(Instruction::RET); // 24
    let end = code.len() as u64;
    code[13..21].copy_from_slice(&end.to_le_bytes());
    let mut m = Machine::new(code, HostFloats);
    loop {
        match m.step() {
            Ok(()) => {}
            Err((MachineError::EndOfInstructions, None)) => break,
            Err((e, i)) => panic!("{:?} at {:?}", e, i),
        }
    }
    assert_eq!(m.stack, vec![7]);
}

#[test]
fn jump_return_address_is_next_instruction() {
    let mut m = Machine::new(program(&[Instruction::PSH_8(u64_le(100)), Instruction::JSR]), HostFloats);
    m.step().unwrap();
    m.step().unwrap();
    assert_eq!(top_u64(&mut m), 10);
}

#[test]
fn conditional_jumps_follow_predicate_table() {
    // (instruction, comparison byte, taken)
    let cases = [
        (Instruction::JMP_EQ, 2u8, true),
        (Instruction::JMP_EQ, 0, false),
        (Instruction::JMP_NE, 0, true),
        (Instruction::JMP_NE, 2, false),
        (Instruction::JMP_GE, 0, true),
        (Instruction::JMP_GE, 1, false),
        (Instruction::JMP_GT, 3, true),
        (Instruction::JMP_GT, 0, false),
        (Instruction::JMP_LE, 0, true),
        (Instruction::JMP_LE, 3, false),
        (Instruction::JMP_LT, 1, true),
        (Instruction::JMP_LT, 0, false),
    ];
    for (jump, byte, taken) in cases {
        let mut m = Machine::new(program(&[Instruction::PSH_8(u64_le(500)), Instruction::PSH_1([byte]), jump]), HostFloats);
        m.step().unwrap();
        m.step().unwrap();
        m.step().unwrap();
        let expected = if taken { 500 } else { 12 };
        assert_eq!(m.instructions.stream_position(), expected);
    }
}

#[test]
fn invalid_comparison_byte_fails_the_jump() {
    let (e, i) = run_to_error(&[Instruction::PSH_8(u64_le(0)), Instruction::PSH_1([4]), Instruction::JMP_LT]);
    assert_eq!(e, MachineError::InvalidInstruction(InvalidInstruction::InvalidComparisonByte(4)));
    assert_eq!(i, Some(Instruction::JMP_LT));
}

#[test]
fn integer_arithmetic_wraps() {
    let m = run(&[Instruction::PSH_1([200]), Instruction::PSH_1([100]), Instruction::ADD_1]);
    assert_eq!(m.stack, vec![44]);
    let m = run(&[Instruction::PSH_2(5u16.to_le_bytes()), Instruction::PSH_2(3u16.to_le_bytes()), Instruction::SUB_2]);
    assert_eq!(m.stack, 65534u16.to_le_bytes().to_vec());
    let m = run(&[Instruction::PSH_4(0x1_0001u32.to_le_bytes()), Instruction::PSH_4(0x1_0001u32.to_le_bytes()), Instruction::MUL_4]);
    assert_eq!(m.stack, 0x0002_0001u32.to_le_bytes().to_vec());
    let m = run(&[Instruction::PSH_8(u64_le(2)), Instruction::PSH_8(u64_le(u64::MAX)), Instruction::MUL_8]);
    assert_eq!(m.stack, u64_le(u64::MAX - 1).to_vec());
}

#[test]
fn bitwise_operations() {
    let m = run(&[Instruction::PSH_1([0x0f]), Instruction::NOT_1]);
    assert_eq!(m.stack, vec![0xf0]);
    let m = run(&[Instruction::PSH_2([0xff, 0x0f]), Instruction::PSH_2([0x0f, 0xff]), Instruction::AND_2]);
    assert_eq!(m.stack, vec![0x0f, 0x0f]);
    let m = run(&[Instruction::PSH_1([0x0f]), Instruction::PSH_1([0xf0]), Instruction::OR_1]);
    assert_eq!(m.stack, vec![0xff]);
    let m = run(&[Instruction::PSH_1([0xff]), Instruction::PSH_1([0x0f]), Instruction::XOR_1]);
    assert_eq!(m.stack, vec![0xf0]);
}

#[test]
fn shifts_use_a_byte_count() {
    // value on top, count below
    let m = run(&[Instruction::PSH_1([3]), Instruction::PSH_4(1u32.to_le_bytes()), Instruction::SHL_4]);
    assert_eq!(m.stack, 8u32.to_le_bytes().to_vec());
    let m = run(&[Instruction::PSH_1([9]), Instruction::PSH_1([1]), Instruction::SHL_1]);
    assert_eq!(m.stack, vec![2]);
    let m = run(&[Instruction::PSH_1([4]), Instruction::PSH_8(u64_le(0x100)), Instruction::SHR_8]);
    assert_eq!(m.stack, u64_le(0x10).to_vec());
    let m = run(&[Instruction::PSH_1([1]), Instruction::PSH_4((-6i32).to_le_bytes()), Instruction::SAR_4]);
    assert_eq!(m.stack, (-3i32).to_le_bytes().to_vec());
    let m = run(&[Instruction::PSH_1([4]), Instruction::PSH_8((-1i64).to_le_bytes()), Instruction::SAR_8]);
    assert_eq!(m.stack, (-1i64).to_le_bytes().to_vec());
    let m = run(&[Instruction::PSH_1([1]), Instruction::PSH_1([0x81]), Instruction::SAR_1]);
    assert_eq!(m.stack, vec![0xc0]);
}

#[test]
fn float_conversions() {
    let m = run(&[Instruction::PSH_8(u64_le(3)), Instruction::CNV_U8_F8]);
    assert_eq!(m.stack, 3.0f64.to_le_bytes().to_vec());
    let m = run(&[Instruction::PSH_8((-2i64).to_le_bytes()), Instruction::CNV_S8_F4]);
    assert_eq!(m.stack, (-2.0f32).to_le_bytes().to_vec());
    let m = run(&[Instruction::PSH_4((-2.75f32).to_le_bytes()), Instruction::CNV_F4_S8]);
    assert_eq!(m.stack, (-2i64).to_le_bytes().to_vec());
    let m = run(&[Instruction::PSH_4(1.5f32.to_le_bytes()), Instruction::CNV_F4_F8]);
    assert_eq!(m.stack, 1.5f64.to_le_bytes().to_vec());
    let m = run(&[Instruction::PSH_8(0.1f64.to_le_bytes()), Instruction::CNV_F8_F4]);
    assert_eq!(m.stack, (0.1f64 as f32).to_le_bytes().to_vec());
    let m = run(&[Instruction::PSH_4(2.0f32.to_le_bytes()), Instruction::PSH_4(7.0f32.to_le_bytes()), Instruction::REM_F_4]);
    assert_eq!(m.stack, 1.0f32.to_le_bytes().to_vec());
    let m = run(&[Instruction::PSH_8(0.0f64.to_le_bytes()), Instruction::PSH_8(1.0f64.to_le_bytes()), Instruction::DIV_F_8]);
    assert_eq!(m.stack, f64::INFINITY.to_le_bytes().to_vec());
}

#[test]
fn stack_underflow_is_reported_with_instruction() {
    let (e, i) = run_to_error(&[Instruction::PSH_4([1, 2, 3, 4]), Instruction::POP_8]);
    assert_eq!(e, MachineError::Stack(StackError::Underflow));
    assert_eq!(i, Some(Instruction::POP_8));
    let (e, _) = run_to_error(&[Instruction::PSH_4([1, 2, 3, 4]), Instruction::ADD_F_4]);
    assert_eq!(e, MachineError::Stack(StackError::Underflow));
}

#[test]
fn null_reference_is_rejected_by_instructions() {
    let (e, i) = run_to_error(&[Instruction::PSH_8(u64_le(0)), Instruction::COPY_REF]);
    assert_eq!(e, MachineError::Heap(HeapError::IllegalNullObjectReferenceUsage));
    assert_eq!(i, Some(Instruction::COPY_REF));
    let (e, _) = run_to_error(&[Instruction::PSH_8(u64_le(9)), Instruction::COPY_REF]);
    assert_eq!(e, MachineError::Heap(HeapError::ObjectNotFound));
}

#[test]
fn external_call_is_unimplemented() {
    let (e, i) = run_to_error(&[Instruction::CALL_EXT]);
    assert_eq!(e, MachineError::UnimplementedInstruction(106));
    assert_eq!(i, Some(Instruction::CALL_EXT));
}

#[test]
fn decoding_errors_carry_no_instruction() {
    let mut m = Machine::new(vec![200], HostFloats);
    assert_eq!(m.step(), Err((MachineError::UnknownInstruction(200), None)));
    let mut m = Machine::new(vec![1, 5], HostFloats);
    assert_eq!(m.step(), Err((MachineError::IncompleteInstruction(1), None)));
}

#[test]
fn heap_errors_surface_through_instructions() {
    // SET_CHILD into slot 3 of an object with one slot
    let (e, i) = run_to_error(&[
        Instruction::PSH_8(u64_le(0)),
        Instruction::PSH_8(u64_le(3)),
        Instruction::PSH_8(u64_le(0)),
        Instruction::PSH_8(u64_le(1)),
        Instruction::ALLOC,
        Instruction::SET_CHILD,
    ]);
    assert_eq!(e, MachineError::Heap(HeapError::ChildIndexOutOfBounds));
    assert_eq!(i, Some(Instruction::SET_CHILD));
    // MOV_HP_ST_8 from offset 0 of an object with 4 data bytes
    let (e, _) = run_to_error(&[
        Instruction::PSH_8(u64_le(0)),
        Instruction::PSH_8(u64_le(4)),
        Instruction::PSH_8(u64_le(0)),
        Instruction::ALLOC,
        Instruction::MOV_HP_ST_8,
    ]);
    assert_eq!(e, MachineError::Heap(HeapError::OutOfBoundsObjectDataAccess));
    // a reference whose stack references are used up
    let (e, _) = run_to_error(&[
        Instruction::PSH_8(u64_le(1)),
        Instruction::PSH_8(u64_le(0)),
        Instruction::ALLOC,
        Instruction::POP_8,
        Instruction::PSH_8(u64_le(0)),
        Instruction::PSH_8(u64_le(1)),
        Instruction::MOV_HP_ST_1,
        Instruction::POP_1,
        Instruction::PSH_8(u64_le(0)),
        Instruction::PSH_8(u64_le(1)),
        Instruction::MOV_HP_ST_1,
    ]);
    assert_eq!(e, MachineError::Heap(HeapError::StackReferenceError));
}

#[test]
fn failed_fetch_executes_nothing() {
    let mut m = Machine::new(program(&[Instruction::PSH_2([1, 2])]), HostFloats);
    m.step().unwrap();
    m.instructions = stack_vm::BytecodeCursor::new(vec![200]);
    assert_eq!(m.step(), Err((MachineError::UnknownInstruction(200), None)));
    assert_eq!(m.stack, vec![1, 2]);
    assert_eq!(m.step(), Err((MachineError::EndOfInstructions, None)));
    assert_eq!(m.stack, vec![1, 2]);
}

#[test]
fn invalid_comparison_byte_does_not_seek() {
    let mut m = Machine::new(
        program(&[Instruction::PSH_8(u64_le(0)), Instruction::PSH_1([9]), Instruction::JMP_EQ]),
        HostFloats,
    );
    m.step().unwrap();
    m.step().unwrap();
    assert_eq!(
        m.step(),
        Err((
            MachineError::InvalidInstruction(InvalidInstruction::InvalidComparisonByte(9)),
            Some(Instruction::JMP_EQ)
        ))
    );
    assert_eq!(m.instructions.stream_position(), 12);
}

#[test]
fn single_precision_remainder_is_four_bytes() {
    let m = run(&[
        Instruction::PSH_4(3.0f32.to_le_bytes()),
        Instruction::PSH_4(7.5f32.to_le_bytes()),
        Instruction::REM_F_4,
    ]);
    assert_eq!(m.stack, 1.5f32.to_le_bytes().to_vec());
}
