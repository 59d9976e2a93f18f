//! The instruction set: one discriminant byte, and for the four push
//! instructions a little-endian payload of 1, 2, 4 or 8 bytes.
use vstd::prelude::*;
use crate::machine::MachineError;
use crate::possibly_ordering::InvalidComparisonByte;
use crate::program::{ReadSeek, remaining};

verus! {

/// One instruction of the machine. The discriminant of each variant is its
/// position in this list, from 0 (`PSH_1`) to 106 (`CALL_EXT`).
#[allow(non_camel_case_types)]
#[derive(Clone, Copy, Debug, PartialEq, Eq)]
pub enum Instruction {
    /// Pushes its 1-byte payload.
    PSH_1([u8; 1]),
    /// Pushes its 2-byte payload.
    PSH_2([u8; 2]),
    /// Pushes its 4-byte payload.
    PSH_4([u8; 4]),
    /// Pushes its 8-byte payload.
    PSH_8([u8; 8]),
    /// Pops and discards 1 byte.
    POP_1,
    POP_2,
    POP_4,
    POP_8,
    /// Pops 8 bytes **`children_length`**\
    /// Pops 8 bytes **`data_length`**\
    /// Allocates an object on the heap, with **`children_length`** slots for children, and **`data_length`** bytes for data\
    /// Pushes 8 bytes corresponding to reference of the allocated space, in related instructions, this will be referred to as an **`Object Reference`**
    ALLOC,
    /// Pops a reference and pushes it twice, adding one stack reference.
    COPY_REF,
    /// Pops a parent reference, a u64 index and a child reference or null, and writes the child slot.
    SET_CHILD,
    /// Pops a parent reference and a u64 index, and pushes the child slot (0 for an empty one).
    GET_CHILD,
    /// Pops a reference, a u64 start and 1 byte, and writes the byte into the object's data.
    MOV_ST_HP_1,
    MOV_ST_HP_2,
    MOV_ST_HP_4,
    MOV_ST_HP_8,
    /// Pops a reference and a u64 start, and pushes 1 byte of the object's data.
    MOV_HP_ST_1,
    MOV_HP_ST_2,
    MOV_HP_ST_4,
    MOV_HP_ST_8,
    /// Pops 8 bytes as `address`, pushes the next instruction address onto the stack, jumps to `address`.
    JSR,
    /// Pops 8 bytes as `address`, jumps to `address`.
    RET,
    /// Pops 1 byte as `cmp`, pops 8 bytes as `address`, jumps to `address` if `cmp` is Equal.
    JMP_EQ,
    JMP_NE,
    JMP_GE,
    JMP_GT,
    JMP_LE,
    JMP_LT,
    /// Pops 1 byte as **`a`**\
    /// Pops 1 byte as **`b`**\
    /// Pushes 1 byte corresponding to the ordering of **`a`** and **`b`**
    CMP_U_1,
    CMP_U_2,
    CMP_U_4,
    CMP_U_8,
    CMP_S_1,
    CMP_S_2,
    CMP_S_4,
    CMP_S_8,
    /// Pops 4 bytes as `a` and 4 bytes as `b`, and pushes the ordering of `a` and `b` under the IEEE 754 (2008) totalOrder predicate.
    CMP_F4,
    /// Pops 8 bytes as `a` and 8 bytes as `b`, and pushes the ordering of `a` and `b` under the IEEE 754 (2008) totalOrder predicate.
    CMP_F8,
    NOT_1,
    NOT_2,
    NOT_4,
    NOT_8,
    AND_1,
    AND_2,
    AND_4,
    AND_8,
    OR_1,
    OR_2,
    OR_4,
    OR_8,
    XOR_1,
    XOR_2,
    XOR_4,
    XOR_8,
    SHL_1,
    SHL_2,
    SHL_4,
    SHL_8,
    SHR_1,
    SHR_2,
    SHR_4,
    SHR_8,
    SAR_1,
    SAR_2,
    SAR_4,
    SAR_8,
    ADD_1,
    ADD_2,
    ADD_4,
    ADD_8,
    SUB_1,
    SUB_2,
    SUB_4,
    SUB_8,
    MUL_1,
    MUL_2,
    MUL_4,
    MUL_8,
    DIV_REM_U_1,
    DIV_REM_U_2,
    DIV_REM_U_4,
    DIV_REM_U_8,
    DIV_REM_S_1,
    DIV_REM_S_2,
    DIV_REM_S_4,
    DIV_REM_S_8,
    ADD_F_4,
    ADD_F_8,
    SUB_F_4,
    SUB_F_8,
    MUL_F_4,
    MUL_F_8,
    DIV_F_4,
    DIV_F_8,
    REM_F_4,
    REM_F_8,
    CNV_U8_F4,
    CNV_U8_F8,
    CNV_S8_F4,
    CNV_S8_F8,
    CNV_F4_U8,
    CNV_F8_U8,
    CNV_F4_S8,
    CNV_F8_S8,
    CNV_F4_F8,
    CNV_F8_F4,
    /// Reserved for calls into the host; this machine does not implement it.
    CALL_EXT,
}

/// The discriminant byte of an instruction.
pub open spec fn opcode(i: Instruction) -> u8 {
    match i {
        Instruction::PSH_1(_) => 0,
        Instruction::PSH_2(_) => 1,
        Instruction::PSH_4(_) => 2,
        Instruction::PSH_8(_) => 3,
        Instruction::POP_1 => 4,
        Instruction::POP_2 => 5,
        Instruction::POP_4 => 6,
        Instruction::POP_8 => 7,
        Instruction::ALLOC => 8,
        Instruction::COPY_REF => 9,
        Instruction::SET_CHILD => 10,
        Instruction::GET_CHILD => 11,
        Instruction::MOV_ST_HP_1 => 12,
        Instruction::MOV_ST_HP_2 => 13,
        Instruction::MOV_ST_HP_4 => 14,
        Instruction::MOV_ST_HP_8 => 15,
        Instruction::MOV_HP_ST_1 => 16,
        Instruction::MOV_HP_ST_2 => 17,
        Instruction::MOV_HP_ST_4 => 18,
        Instruction::MOV_HP_ST_8 => 19,
        Instruction::JSR => 20,
        Instruction::RET => 21,
        Instruction::JMP_EQ => 22,
        Instruction::JMP_NE => 23,
        Instruction::JMP_GE => 24,
        Instruction::JMP_GT => 25,
        Instruction::JMP_LE => 26,
        Instruction::JMP_LT => 27,
        Instruction::CMP_U_1 => 28,
        Instruction::CMP_U_2 => 29,
        Instruction::CMP_U_4 => 30,
        Instruction::CMP_U_8 => 31,
        Instruction::CMP_S_1 => 32,
        Instruction::CMP_S_2 => 33,
        Instruction::CMP_S_4 => 34,
        Instruction::CMP_S_8 => 35,
        Instruction::CMP_F4 => 36,
        Instruction::CMP_F8 => 37,
        Instruction::NOT_1 => 38,
        Instruction::NOT_2 => 39,
        Instruction::NOT_4 => 40,
        Instruction::NOT_8 => 41,
        Instruction::AND_1 => 42,
        Instruction::AND_2 => 43,
        Instruction::AND_4 => 44,
        Instruction::AND_8 => 45,
        Instruction::OR_1 => 46,
        Instruction::OR_2 => 47,
        Instruction::OR_4 => 48,
        Instruction::OR_8 => 49,
        Instruction::XOR_1 => 50,
        Instruction::XOR_2 => 51,
        Instruction::XOR_4 => 52,
        Instruction::XOR_8 => 53,
        Instruction::SHL_1 => 54,
        Instruction::SHL_2 => 55,
        Instruction::SHL_4 => 56,
        Instruction::SHL_8 => 57,
        Instruction::SHR_1 => 58,
        Instruction::SHR_2 => 59,
        Instruction::SHR_4 => 60,
        Instruction::SHR_8 => 61,
        Instruction::SAR_1 => 62,
        Instruction::SAR_2 => 63,
        Instruction::SAR_4 => 64,
        Instruction::SAR_8 => 65,
        Instruction::ADD_1 => 66,
        Instruction::ADD_2 => 67,
        Instruction::ADD_4 => 68,
        Instruction::ADD_8 => 69,
        Instruction::SUB_1 => 70,
        Instruction::SUB_2 => 71,
        Instruction::SUB_4 => 72,
        Instruction::SUB_8 => 73,
        Instruction::MUL_1 => 74,
        Instruction::MUL_2 => 75,
        Instruction::MUL_4 => 76,
        Instruction::MUL_8 => 77,
        Instruction::DIV_REM_U_1 => 78,
        Instruction::DIV_REM_U_2 => 79,
        Instruction::DIV_REM_U_4 => 80,
        Instruction::DIV_REM_U_8 => 81,
        Instruction::DIV_REM_S_1 => 82,
        Instruction::DIV_REM_S_2 => 83,
        Instruction::DIV_REM_S_4 => 84,
        Instruction::DIV_REM_S_8 => 85,
        Instruction::ADD_F_4 => 86,
        Instruction::ADD_F_8 => 87,
        Instruction::SUB_F_4 => 88,
        Instruction::SUB_F_8 => 89,
        Instruction::MUL_F_4 => 90,
        Instruction::MUL_F_8 => 91,
        Instruction::DIV_F_4 => 92,
        Instruction::DIV_F_8 => 93,
        Instruction::REM_F_4 => 94,
        Instruction::REM_F_8 => 95,
        Instruction::CNV_U8_F4 => 96,
        Instruction::CNV_U8_F8 => 97,
        Instruction::CNV_S8_F4 => 98,
        Instruction::CNV_S8_F8 => 99,
        Instruction::CNV_F4_U8 => 100,
        Instruction::CNV_F8_U8 => 101,
        Instruction::CNV_F4_S8 => 102,
        Instruction::CNV_F8_S8 => 103,
        Instruction::CNV_F4_F8 => 104,
        Instruction::CNV_F8_F4 => 105,
        Instruction::CALL_EXT => 106,
    }
}

/// The payload bytes of an instruction: empty but for the pushes.
pub open spec fn payload(i: Instruction) -> Seq<u8> {
    match i {
        Instruction::PSH_1(v) => v@,
        Instruction::PSH_2(v) => v@,
        Instruction::PSH_4(v) => v@,
        Instruction::PSH_8(v) => v@,
        _ => Seq::empty(),
    }
}

/// The binary form of an instruction.
pub open spec fn encoding(i: Instruction) -> Seq<u8> {
    seq![opcode(i)] + payload(i)
}

/// The number of payload bytes that follow a discriminant.
pub open spec fn payload_length(op: u8) -> nat {
    if op == 0 {
        1
    } else if op == 1 {
        2
    } else if op == 2 {
        4
    } else if op == 3 {
        8
    } else {
        0
    }
}

/// The instruction without payload that a discriminant of 4 or more names.
pub open spec fn plain_instruction(op: u8) -> Option<Instruction> {
    match op {
        4 => Some(Instruction::POP_1),
        5 => Some(Instruction::POP_2),
        6 => Some(Instruction::POP_4),
        7 => Some(Instruction::POP_8),
        8 => Some(Instruction::ALLOC),
        9 => Some(Instruction::COPY_REF),
        10 => Some(Instruction::SET_CHILD),
        11 => Some(Instruction::GET_CHILD),
        12 => Some(Instruction::MOV_ST_HP_1),
        13 => Some(Instruction::MOV_ST_HP_2),
        14 => Some(Instruction::MOV_ST_HP_4),
        15 => Some(Instruction::MOV_ST_HP_8),
        16 => Some(Instruction::MOV_HP_ST_1),
        17 => Some(Instruction::MOV_HP_ST_2),
        18 => Some(Instruction::MOV_HP_ST_4),
        19 => Some(Instruction::MOV_HP_ST_8),
        20 => Some(Instruction::JSR),
        21 => Some(Instruction::RET),
        22 => Some(Instruction::JMP_EQ),
        23 => Some(Instruction::JMP_NE),
        24 => Some(Instruction::JMP_GE),
        25 => Some(Instruction::JMP_GT),
        26 => Some(Instruction::JMP_LE),
        27 => Some(Instruction::JMP_LT),
        28 => Some(Instruction::CMP_U_1),
        29 => Some(Instruction::CMP_U_2),
        30 => Some(Instruction::CMP_U_4),
        31 => Some(Instruction::CMP_U_8),
        32 => Some(Instruction::CMP_S_1),
        33 => Some(Instruction::CMP_S_2),
        34 => Some(Instruction::CMP_S_4),
        35 => Some(Instruction::CMP_S_8),
        36 => Some(Instruction::CMP_F4),
        37 => Some(Instruction::CMP_F8),
        38 => Some(Instruction::NOT_1),
        39 => Some(Instruction::NOT_2),
        40 => Some(Instruction::NOT_4),
        41 => Some(Instruction::NOT_8),
        42 => Some(Instruction::AND_1),
        43 => Some(Instruction::AND_2),
        44 => Some(Instruction::AND_4),
        45 => Some(Instruction::AND_8),
        46 => Some(Instruction::OR_1),
        47 => Some(Instruction::OR_2),
        48 => Some(Instruction::OR_4),
        49 => Some(Instruction::OR_8),
        50 => Some(Instruction::XOR_1),
        51 => Some(Instruction::XOR_2),
        52 => Some(Instruction::XOR_4),
        53 => Some(Instruction::XOR_8),
        54 => Some(Instruction::SHL_1),
        55 => Some(Instruction::SHL_2),
        56 => Some(Instruction::SHL_4),
        57 => Some(Instruction::SHL_8),
        58 => Some(Instruction::SHR_1),
        59 => Some(Instruction::SHR_2),
        60 => Some(Instruction::SHR_4),
        61 => Some(Instruction::SHR_8),
        62 => Some(Instruction::SAR_1),
        63 => Some(Instruction::SAR_2),
        64 => Some(Instruction::SAR_4),
        65 => Some(Instruction::SAR_8),
        66 => Some(Instruction::ADD_1),
        67 => Some(Instruction::ADD_2),
        68 => Some(Instruction::ADD_4),
        69 => Some(Instruction::ADD_8),
        70 => Some(Instruction::SUB_1),
        71 => Some(Instruction::SUB_2),
        72 => Some(Instruction::SUB_4),
        73 => Some(Instruction::SUB_8),
        74 => Some(Instruction::MUL_1),
        75 => Some(Instruction::MUL_2),
        76 => Some(Instruction::MUL_4),
        77 => Some(Instruction::MUL_8),
        78 => Some(Instruction::DIV_REM_U_1),
        79 => Some(Instruction::DIV_REM_U_2),
        80 => Some(Instruction::DIV_REM_U_4),
        81 => Some(Instruction::DIV_REM_U_8),
        82 => Some(Instruction::DIV_REM_S_1),
        83 => Some(Instruction::DIV_REM_S_2),
        84 => Some(Instruction::DIV_REM_S_4),
        85 => Some(Instruction::DIV_REM_S_8),
        86 => Some(Instruction::ADD_F_4),
        87 => Some(Instruction::ADD_F_8),
        88 => Some(Instruction::SUB_F_4),
        89 => Some(Instruction::SUB_F_8),
        90 => Some(Instruction::MUL_F_4),
        91 => Some(Instruction::MUL_F_8),
        92 => Some(Instruction::DIV_F_4),
        93 => Some(Instruction::DIV_F_8),
        94 => Some(Instruction::REM_F_4),
        95 => Some(Instruction::REM_F_8),
        96 => Some(Instruction::CNV_U8_F4),
        97 => Some(Instruction::CNV_U8_F8),
        98 => Some(Instruction::CNV_S8_F4),
        99 => Some(Instruction::CNV_S8_F8),
        100 => Some(Instruction::CNV_F4_U8),
        101 => Some(Instruction::CNV_F8_U8),
        102 => Some(Instruction::CNV_F4_S8),
        103 => Some(Instruction::CNV_F8_S8),
        104 => Some(Instruction::CNV_F4_F8),
        105 => Some(Instruction::CNV_F8_F4),
        106 => Some(Instruction::CALL_EXT),
        _ => None,
    }
}

/// Why the bytes `s` do not start with an instruction, if they do not.
pub open spec fn decode_error(s: Seq<u8>) -> Option<MachineError> {
    if s.len() == 0 {
        Some(MachineError::EndOfInstructions)
    } else if s[0] > 106 {
        Some(MachineError::UnknownInstruction(s[0]))
    } else if s.len() < 1 + payload_length(s[0]) {
        Some(MachineError::IncompleteInstruction(s[0]))
    } else {
        None
    }
}

/// The bytes `s` start with the encoding of `i`.
pub open spec fn decodes_to(s: Seq<u8>, i: Instruction) -> bool {
    &&& encoding(i).len() <= s.len()
    &&& s.subrange(0, encoding(i).len() as int) == encoding(i)
}

/// Each plain instruction is named by its discriminant.
pub proof fn lemma_plain_opcode(i: Instruction)
    requires
        opcode(i) > 3,
    ensures
        plain_instruction(opcode(i)) == Some(i),
        payload(i) == Seq::<u8>::empty(),
{
}

/// The discriminants run from 0 to 106, and a payload has the length that its
/// discriminant gives.
pub proof fn lemma_opcode_range(i: Instruction)
    ensures
        opcode(i) <= 106,
        payload(i).len() == payload_length(opcode(i)),
        opcode(i) > 3 ==> plain_instruction(opcode(i)) == Some(i),
{
    if opcode(i) > 3 {
        lemma_plain_opcode(i);
    }
}

/// Two instructions with the same binary form are the same.
pub proof fn lemma_encoding_injective(i: Instruction, j: Instruction)
    requires
        encoding(i) == encoding(j),
    ensures
        i == j,
{
    assert(encoding(i)[0] == opcode(i));
    assert(encoding(j)[0] == opcode(j));
    lemma_opcode_range(i);
    lemma_opcode_range(j);
    assert(payload(i) =~= encoding(i).drop_first());
    assert(payload(j) =~= encoding(j).drop_first());
    if opcode(i) > 3 {
        lemma_plain_opcode(i);
        lemma_plain_opcode(j);
    } else {
        match (i, j) {
            (Instruction::PSH_1(a), Instruction::PSH_1(b)) => {
                assert(a@ =~= b@);
                assert(a =~= b);
            },
            (Instruction::PSH_2(a), Instruction::PSH_2(b)) => {
                assert(a =~= b);
            },
            (Instruction::PSH_4(a), Instruction::PSH_4(b)) => {
                assert(a =~= b);
            },
            (Instruction::PSH_8(a), Instruction::PSH_8(b)) => {
                assert(a =~= b);
            },
            _ => {},
        }
    }
}

/// Decoding and encoding are inverse: the encoding of any instruction,
/// followed by any bytes, decodes without error to that instruction and no
/// other; and whatever bytes decode to an instruction begin with its encoding.
pub proof fn lemma_encoding_round_trip(i: Instruction, rest: Seq<u8>)
    ensures
        decode_error(encoding(i) + rest) is None,
        decodes_to(encoding(i) + rest, i),
        forall|j: Instruction| #[trigger] decodes_to(encoding(i) + rest, j) ==> j == i,
{
    let s = encoding(i) + rest;
    lemma_opcode_range(i);
    assert(s.subrange(0, encoding(i).len() as int) =~= encoding(i));
    assert forall|j: Instruction| #[trigger] decodes_to(s, j) implies j == i by {
        lemma_opcode_range(j);
        assert(encoding(j)[0] == s[0]);
        assert(encoding(i)[0] == s[0]);
        assert(encoding(j).len() == encoding(i).len());
        lemma_encoding_injective(i, j);
    }
}

impl Instruction {
    /// Reads one instruction from the stream's position on, and moves the
    /// position past it.
    ///
    /// An empty rest of stream gives `EndOfInstructions`, an unknown
    /// discriminant `UnknownInstruction`, and a stream that ends inside a
    /// payload `IncompleteInstruction`.
    pub fn from_reader<R: ReadSeek>(reader: &mut R) -> (r: Result<Instruction, MachineError>)
        ensures
            final(reader).source() == old(reader).source(),
            match decode_error(remaining(old(reader).source(), old(reader).position())) {
                Some(e) => r == Err::<Instruction, MachineError>(e),
                None => r matches Ok(i) && decodes_to(
                    remaining(old(reader).source(), old(reader).position()),
                    i,
                ) && final(reader).position() == old(reader).position() + encoding(i).len(),
            },
            decode_error(remaining(old(reader).source(), old(reader).position())) == Some(
                MachineError::EndOfInstructions,
            ) ==> final(reader).position() == old(reader).position(),
            decode_error(
                remaining(old(reader).source(), old(reader).position()),
            ) matches Some(MachineError::UnknownInstruction(_)) ==> final(reader).position() == old(
                reader,
            ).position() + 1,
            decode_error(
                remaining(old(reader).source(), old(reader).position()),
            ) matches Some(MachineError::IncompleteInstruction(_)) ==> final(reader).position()
                == old(reader).source().len(),
    {
        let ghost rest = remaining(reader.source(), reader.position());
        let discriminant = match reader.read_byte() {
            Some(b) => b,
            None => return Err(MachineError::EndOfInstructions),
        };
        proof {
            assert(rest.subrange(0, 1) =~= seq![discriminant]);
        }
        let r = match discriminant {
            0 => {
                let b0 = match reader.read_byte() {
                    Some(b) => b,
                    None => return Err(MachineError::IncompleteInstruction(0)),
                };
                let data = [b0];
                let i = Instruction::PSH_1(data);
                proof {
                    assert(data@ =~= seq![b0]);
                    assert(rest.subrange(0, 2) =~= encoding(i));
                }
                Ok(i)
            },
            1 => {
                let b0 = match reader.read_byte() {
                    Some(b) => b,
                    None => return Err(MachineError::IncompleteInstruction(1)),
                };
                let b1 = match reader.read_byte() {
                    Some(b) => b,
                    None => return Err(MachineError::IncompleteInstruction(1)),
                };
                let data = [b0, b1];
                let i = Instruction::PSH_2(data);
                proof {
                    assert(data@ =~= seq![b0, b1]);
                    assert(rest.subrange(0, 3) =~= encoding(i));
                }
                Ok(i)
            },
            2 => {
                let b0 = match reader.read_byte() {
                    Some(b) => b,
                    None => return Err(MachineError::IncompleteInstruction(2)),
                };
                let b1 = match reader.read_byte() {
                    Some(b) => b,
                    None => return Err(MachineError::IncompleteInstruction(2)),
                };
                let b2 = match reader.read_byte() {
                    Some(b) => b,
                    None => return Err(MachineError::IncompleteInstruction(2)),
                };
                let b3 = match reader.read_byte() {
                    Some(b) => b,
                    None => return Err(MachineError::IncompleteInstruction(2)),
                };
                let data = [b0, b1, b2, b3];
                let i = Instruction::PSH_4(data);
                proof {
                    assert(data@ =~= seq![b0, b1, b2, b3]);
                    assert(rest.subrange(0, 5) =~= encoding(i));
                }
                Ok(i)
            },
            3 => {
                let b0 = match reader.read_byte() {
                    Some(b) => b,
                    None => return Err(MachineError::IncompleteInstruction(3)),
                };
                let b1 = match reader.read_byte() {
                    Some(b) => b,
                    None => return Err(MachineError::IncompleteInstruction(3)),
                };
                let b2 = match reader.read_byte() {
                    Some(b) => b,
                    None => return Err(MachineError::IncompleteInstruction(3)),
                };
                let b3 = match reader.read_byte() {
                    Some(b) => b,
                    None => return Err(MachineError::IncompleteInstruction(3)),
                };
                let b4 = match reader.read_byte() {
                    Some(b) => b,
                    None => return Err(MachineError::IncompleteInstruction(3)),
                };
                let b5 = match reader.read_byte() {
                    Some(b) => b,
                    None => return Err(MachineError::IncompleteInstruction(3)),
                };
                let b6 = match reader.read_byte() {
                    Some(b) => b,
                    None => return Err(MachineError::IncompleteInstruction(3)),
                };
                let b7 = match reader.read_byte() {
                    Some(b) => b,
                    None => return Err(MachineError::IncompleteInstruction(3)),
                };
                let data = [b0, b1, b2, b3, b4, b5, b6, b7];
                let i = Instruction::PSH_8(data);
                proof {
                    assert(data@ =~= seq![b0, b1, b2, b3, b4, b5, b6, b7]);
                    assert(rest.subrange(0, 9) =~= encoding(i));
                }
                Ok(i)
            },
            4 => Ok(Instruction::POP_1),
            5 => Ok(Instruction::POP_2),
            6 => Ok(Instruction::POP_4),
            7 => Ok(Instruction::POP_8),
            8 => Ok(Instruction::ALLOC),
            9 => Ok(Instruction::COPY_REF),
            10 => Ok(Instruction::SET_CHILD),
            11 => Ok(Instruction::GET_CHILD),
            12 => Ok(Instruction::MOV_ST_HP_1),
            13 => Ok(Instruction::MOV_ST_HP_2),
            14 => Ok(Instruction::MOV_ST_HP_4),
            15 => Ok(Instruction::MOV_ST_HP_8),
            16 => Ok(Instruction::MOV_HP_ST_1),
            17 => Ok(Instruction::MOV_HP_ST_2),
            18 => Ok(Instruction::MOV_HP_ST_4),
            19 => Ok(Instruction::MOV_HP_ST_8),
            20 => Ok(Instruction::JSR),
            21 => Ok(Instruction::RET),
            22 => Ok(Instruction::JMP_EQ),
            23 => Ok(Instruction::JMP_NE),
            24 => Ok(Instruction::JMP_GE),
            25 => Ok(Instruction::JMP_GT),
            26 => Ok(Instruction::JMP_LE),
            27 => Ok(Instruction::JMP_LT),
            28 => Ok(Instruction::CMP_U_1),
            29 => Ok(Instruction::CMP_U_2),
            30 => Ok(Instruction::CMP_U_4),
            31 => Ok(Instruction::CMP_U_8),
            32 => Ok(Instruction::CMP_S_1),
            33 => Ok(Instruction::CMP_S_2),
            34 => Ok(Instruction::CMP_S_4),
            35 => Ok(Instruction::CMP_S_8),
            36 => Ok(Instruction::CMP_F4),
            37 => Ok(Instruction::CMP_F8),
            38 => Ok(Instruction::NOT_1),
            39 => Ok(Instruction::NOT_2),
            40 => Ok(Instruction::NOT_4),
            41 => Ok(Instruction::NOT_8),
            42 => Ok(Instruction::AND_1),
            43 => Ok(Instruction::AND_2),
            44 => Ok(Instruction::AND_4),
            45 => Ok(Instruction::AND_8),
            46 => Ok(Instruction::OR_1),
            47 => Ok(Instruction::OR_2),
            48 => Ok(Instruction::OR_4),
            49 => Ok(Instruction::OR_8),
            50 => Ok(Instruction::XOR_1),
            51 => Ok(Instruction::XOR_2),
            52 => Ok(Instruction::XOR_4),
            53 => Ok(Instruction::XOR_8),
            54 => Ok(Instruction::SHL_1),
            55 => Ok(Instruction::SHL_2),
            56 => Ok(Instruction::SHL_4),
            57 => Ok(Instruction::SHL_8),
            58 => Ok(Instruction::SHR_1),
            59 => Ok(Instruction::SHR_2),
            60 => Ok(Instruction::SHR_4),
            61 => Ok(Instruction::SHR_8),
            62 => Ok(Instruction::SAR_1),
            63 => Ok(Instruction::SAR_2),
            64 => Ok(Instruction::SAR_4),
            65 => Ok(Instruction::SAR_8),
            66 => Ok(Instruction::ADD_1),
            67 => Ok(Instruction::ADD_2),
            68 => Ok(Instruction::ADD_4),
            69 => Ok(Instruction::ADD_8),
            70 => Ok(Instruction::SUB_1),
            71 => Ok(Instruction::SUB_2),
            72 => Ok(Instruction::SUB_4),
            73 => Ok(Instruction::SUB_8),
            74 => Ok(Instruction::MUL_1),
            75 => Ok(Instruction::MUL_2),
            76 => Ok(Instruction::MUL_4),
            77 => Ok(Instruction::MUL_8),
            78 => Ok(Instruction::DIV_REM_U_1),
            79 => Ok(Instruction::DIV_REM_U_2),
            80 => Ok(Instruction::DIV_REM_U_4),
            81 => Ok(Instruction::DIV_REM_U_8),
            82 => Ok(Instruction::DIV_REM_S_1),
            83 => Ok(Instruction::DIV_REM_S_2),
            84 => Ok(Instruction::DIV_REM_S_4),
            85 => Ok(Instruction::DIV_REM_S_8),
            86 => Ok(Instruction::ADD_F_4),
            87 => Ok(Instruction::ADD_F_8),
            88 => Ok(Instruction::SUB_F_4),
            89 => Ok(Instruction::SUB_F_8),
            90 => Ok(Instruction::MUL_F_4),
            91 => Ok(Instruction::MUL_F_8),
            92 => Ok(Instruction::DIV_F_4),
            93 => Ok(Instruction::DIV_F_8),
            94 => Ok(Instruction::REM_F_4),
            95 => Ok(Instruction::REM_F_8),
            96 => Ok(Instruction::CNV_U8_F4),
            97 => Ok(Instruction::CNV_U8_F8),
            98 => Ok(Instruction::CNV_S8_F4),
            99 => Ok(Instruction::CNV_S8_F8),
            100 => Ok(Instruction::CNV_F4_U8),
            101 => Ok(Instruction::CNV_F8_U8),
            102 => Ok(Instruction::CNV_F4_S8),
            103 => Ok(Instruction::CNV_F8_S8),
            104 => Ok(Instruction::CNV_F4_F8),
            105 => Ok(Instruction::CNV_F8_F4),
            106 => Ok(Instruction::CALL_EXT),
            n => Err(MachineError::UnknownInstruction(n)),
        };
        proof {
            if let Ok(i) = r {
                if opcode(i) > 3 {
                    lemma_plain_opcode(i);
                    assert(encoding(i) =~= seq![discriminant]);
                }
            }
        }
        r
    }

    /// The discriminant byte.
    pub fn opcode(&self) -> (r: u8)
        ensures
            r == opcode(*self),
    {
        match self {
            Instruction::PSH_1(_) => 0,
            Instruction::PSH_2(_) => 1,
            Instruction::PSH_4(_) => 2,
            Instruction::PSH_8(_) => 3,
            Instruction::POP_1 => 4,
            Instruction::POP_2 => 5,
            Instruction::POP_4 => 6,
            Instruction::POP_8 => 7,
            Instruction::ALLOC => 8,
            Instruction::COPY_REF => 9,
            Instruction::SET_CHILD => 10,
            Instruction::GET_CHILD => 11,
            Instruction::MOV_ST_HP_1 => 12,
            Instruction::MOV_ST_HP_2 => 13,
            Instruction::MOV_ST_HP_4 => 14,
            Instruction::MOV_ST_HP_8 => 15,
            Instruction::MOV_HP_ST_1 => 16,
            Instruction::MOV_HP_ST_2 => 17,
            Instruction::MOV_HP_ST_4 => 18,
            Instruction::MOV_HP_ST_8 => 19,
            Instruction::JSR => 20,
            Instruction::RET => 21,
            Instruction::JMP_EQ => 22,
            Instruction::JMP_NE => 23,
            Instruction::JMP_GE => 24,
            Instruction::JMP_GT => 25,
            Instruction::JMP_LE => 26,
            Instruction::JMP_LT => 27,
            Instruction::CMP_U_1 => 28,
            Instruction::CMP_U_2 => 29,
            Instruction::CMP_U_4 => 30,
            Instruction::CMP_U_8 => 31,
            Instruction::CMP_S_1 => 32,
            Instruction::CMP_S_2 => 33,
            Instruction::CMP_S_4 => 34,
            Instruction::CMP_S_8 => 35,
            Instruction::CMP_F4 => 36,
            Instruction::CMP_F8 => 37,
            Instruction::NOT_1 => 38,
            Instruction::NOT_2 => 39,
            Instruction::NOT_4 => 40,
            Instruction::NOT_8 => 41,
            Instruction::AND_1 => 42,
            Instruction::AND_2 => 43,
            Instruction::AND_4 => 44,
            Instruction::AND_8 => 45,
            Instruction::OR_1 => 46,
            Instruction::OR_2 => 47,
            Instruction::OR_4 => 48,
            Instruction::OR_8 => 49,
            Instruction::XOR_1 => 50,
            Instruction::XOR_2 => 51,
            Instruction::XOR_4 => 52,
            Instruction::XOR_8 => 53,
            Instruction::SHL_1 => 54,
            Instruction::SHL_2 => 55,
            Instruction::SHL_4 => 56,
            Instruction::SHL_8 => 57,
            Instruction::SHR_1 => 58,
            Instruction::SHR_2 => 59,
            Instruction::SHR_4 => 60,
            Instruction::SHR_8 => 61,
            Instruction::SAR_1 => 62,
            Instruction::SAR_2 => 63,
            Instruction::SAR_4 => 64,
            Instruction::SAR_8 => 65,
            Instruction::ADD_1 => 66,
            Instruction::ADD_2 => 67,
            Instruction::ADD_4 => 68,
            Instruction::ADD_8 => 69,
            Instruction::SUB_1 => 70,
            Instruction::SUB_2 => 71,
            Instruction::SUB_4 => 72,
            Instruction::SUB_8 => 73,
            Instruction::MUL_1 => 74,
            Instruction::MUL_2 => 75,
            Instruction::MUL_4 => 76,
            Instruction::MUL_8 => 77,
            Instruction::DIV_REM_U_1 => 78,
            Instruction::DIV_REM_U_2 => 79,
            Instruction::DIV_REM_U_4 => 80,
            Instruction::DIV_REM_U_8 => 81,
            Instruction::DIV_REM_S_1 => 82,
            Instruction::DIV_REM_S_2 => 83,
            Instruction::DIV_REM_S_4 => 84,
            Instruction::DIV_REM_S_8 => 85,
            Instruction::ADD_F_4 => 86,
            Instruction::ADD_F_8 => 87,
            Instruction::SUB_F_4 => 88,
            Instruction::SUB_F_8 => 89,
            Instruction::MUL_F_4 => 90,
            Instruction::MUL_F_8 => 91,
            Instruction::DIV_F_4 => 92,
            Instruction::DIV_F_8 => 93,
            Instruction::REM_F_4 => 94,
            Instruction::REM_F_8 => 95,
            Instruction::CNV_U8_F4 => 96,
            Instruction::CNV_U8_F8 => 97,
            Instruction::CNV_S8_F4 => 98,
            Instruction::CNV_S8_F8 => 99,
            Instruction::CNV_F4_U8 => 100,
            Instruction::CNV_F8_U8 => 101,
            Instruction::CNV_F4_S8 => 102,
            Instruction::CNV_F8_S8 => 103,
            Instruction::CNV_F4_F8 => 104,
            Instruction::CNV_F8_F4 => 105,
            Instruction::CALL_EXT => 106,
        }
    }
}

/// An operand of an instruction is invalid.
#[derive(Clone, Copy, Debug, PartialEq, Eq, Structural)]
pub enum InvalidInstruction {
    /// A byte was popped for use as comparison, and was not one of \[0, 1, 2, 3\]
    InvalidComparisonByte(u8),
}

impl InvalidInstruction {
    pub fn from_comparison_byte(e: InvalidComparisonByte) -> (r: InvalidInstruction)
        ensures
            r == InvalidInstruction::InvalidComparisonByte(e.0),
    {
        InvalidInstruction::InvalidComparisonByte(e.0)
    }
}

} // verus!
