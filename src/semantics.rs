//! What each instruction does, stated over plain values, and the integer
//! arithmetic of the instructions on operands of 1, 2, 4 and 8 bytes.
use vstd::prelude::*;
use vstd::multiset::Multiset;
use vstd::arithmetic::power2::{pow2, lemma_pow2_unfold, lemma2_to64};
use crate::compute_heap::{
    ObjectView, HeapError, fresh_object, increment_spec, decrement_spec, set_child_spec,
    get_child_spec, data_slice_spec, write_data_spec,
};
use crate::compute_stack::{
    pow256, le_bytes, top, below, top_value, to_signed, to_unsigned, lemma_pow256_values, width_ok,
    mask_of, signed_of, unsigned_of, lemma_push_pop_round_trip,
};
use crate::compute_stack::StackError;
use crate::infallible_division::{
    InfallibleDivision, trunc_div, trunc_rem, lemma_trunc_div_bound, lemma_trunc_rem_bound,
};
use crate::instruction::{Instruction, payload, InvalidInstruction};
use crate::machine::MachineError;
use crate::possibly_ordering::{PossiblyOrdering, ordering_byte, int_ordering};

verus! {

/// The comparison that a conditional jump tests.
#[derive(Clone, Copy, Debug, PartialEq, Eq, Structural)]
pub enum Predicate {
    Eq,
    Ne,
    Ge,
    Gt,
    Le,
    Lt,
}

/// The predicate table of ordering values: `Unordered` satisfies `Ne`, `Le`
/// and `Ge` only.
pub open spec fn predicate_holds(p: Predicate, o: PossiblyOrdering) -> bool {
    match p {
        Predicate::Eq => o == PossiblyOrdering::Equal,
        Predicate::Ne => o != PossiblyOrdering::Equal,
        Predicate::Ge => o != PossiblyOrdering::Less,
        Predicate::Gt => o == PossiblyOrdering::Greater,
        Predicate::Le => o != PossiblyOrdering::Greater,
        Predicate::Lt => o == PossiblyOrdering::Less,
    }
}

/// A binary floating-point operation, `a op b`.
#[derive(Clone, Copy, Debug, PartialEq, Eq, Structural)]
pub enum FloatArith {
    Add,
    Sub,
    Mul,
    Div,
    Rem,
}

/// The floating-point instructions. Their results are computed by a
/// [`FloatUnit`] on bit patterns.
#[derive(Clone, Copy, Debug, PartialEq, Eq, Structural)]
pub enum FloatOp {
    Arith(FloatArith),
    /// An unsigned 64-bit integer to a float of the operation's width.
    FromU64,
    /// A signed 64-bit integer to a float of the operation's width.
    FromI64,
    /// A float of the operation's width to an unsigned 64-bit integer.
    ToU64,
    /// A float of the operation's width to a signed 64-bit integer.
    ToI64,
    /// binary32 to binary64.
    Widen,
    /// binary64 to binary32.
    Narrow,
}

/// Floating-point arithmetic and conversions on IEEE-754 bit patterns:
/// `u32` holds a binary32 value, `u64` a binary64 value. Integer conversions
/// from floats round toward zero; binary64 to binary32 rounds to nearest.
pub trait FloatUnit {
    fn binary32(&self, op: FloatArith, a: u32, b: u32) -> u32;

    fn binary64(&self, op: FloatArith, a: u64, b: u64) -> u64;

    fn u64_to_f32(&self, v: u64) -> u32;

    fn u64_to_f64(&self, v: u64) -> u64;

    fn i64_to_f32(&self, v: i64) -> u32;

    fn i64_to_f64(&self, v: i64) -> u64;

    fn f32_to_u64(&self, bits: u32) -> u64;

    fn f64_to_u64(&self, bits: u64) -> u64;

    fn f32_to_i64(&self, bits: u32) -> i64;

    fn f64_to_i64(&self, bits: u64) -> i64;

    fn f32_to_f64(&self, bits: u32) -> u64;

    fn f64_to_f32(&self, bits: u64) -> u32;
}

/// The family of an instruction; its operand width is given beside it.
#[derive(Clone, Copy, Debug, PartialEq, Eq, Structural)]
pub enum Operation {
    Push,
    Pop,
    Alloc,
    CopyRef,
    SetChild,
    GetChild,
    MovStHp,
    MovHpSt,
    Jsr,
    Ret,
    Jump(Predicate),
    CmpU,
    CmpS,
    CmpF,
    Not,
    And,
    Or,
    Xor,
    Shl,
    Shr,
    Sar,
    Add,
    Sub,
    Mul,
    DivRemU,
    DivRemS,
    Float(FloatOp),
    CallExt,
}

/// The family and operand width of each instruction.
pub open spec fn operation(i: Instruction) -> (Operation, nat) {
    match i {
        Instruction::PSH_1(_) => (Operation::Push, 1nat),
        Instruction::PSH_2(_) => (Operation::Push, 2nat),
        Instruction::PSH_4(_) => (Operation::Push, 4nat),
        Instruction::PSH_8(_) => (Operation::Push, 8nat),
        Instruction::POP_1 => (Operation::Pop, 1nat),
        Instruction::POP_2 => (Operation::Pop, 2nat),
        Instruction::POP_4 => (Operation::Pop, 4nat),
        Instruction::POP_8 => (Operation::Pop, 8nat),
        Instruction::ALLOC => (Operation::Alloc, 8nat),
        Instruction::COPY_REF => (Operation::CopyRef, 8nat),
        Instruction::SET_CHILD => (Operation::SetChild, 8nat),
        Instruction::GET_CHILD => (Operation::GetChild, 8nat),
        Instruction::MOV_ST_HP_1 => (Operation::MovStHp, 1nat),
        Instruction::MOV_ST_HP_2 => (Operation::MovStHp, 2nat),
        Instruction::MOV_ST_HP_4 => (Operation::MovStHp, 4nat),
        Instruction::MOV_ST_HP_8 => (Operation::MovStHp, 8nat),
        Instruction::MOV_HP_ST_1 => (Operation::MovHpSt, 1nat),
        Instruction::MOV_HP_ST_2 => (Operation::MovHpSt, 2nat),
        Instruction::MOV_HP_ST_4 => (Operation::MovHpSt, 4nat),
        Instruction::MOV_HP_ST_8 => (Operation::MovHpSt, 8nat),
        Instruction::JSR => (Operation::Jsr, 8nat),
        Instruction::RET => (Operation::Ret, 8nat),
        Instruction::JMP_EQ => (Operation::Jump(Predicate::Eq), 1nat),
        Instruction::JMP_NE => (Operation::Jump(Predicate::Ne), 1nat),
        Instruction::JMP_GE => (Operation::Jump(Predicate::Ge), 1nat),
        Instruction::JMP_GT => (Operation::Jump(Predicate::Gt), 1nat),
        Instruction::JMP_LE => (Operation::Jump(Predicate::Le), 1nat),
        Instruction::JMP_LT => (Operation::Jump(Predicate::Lt), 1nat),
        Instruction::CMP_U_1 => (Operation::CmpU, 1nat),
        Instruction::CMP_U_2 => (Operation::CmpU, 2nat),
        Instruction::CMP_U_4 => (Operation::CmpU, 4nat),
        Instruction::CMP_U_8 => (Operation::CmpU, 8nat),
        Instruction::CMP_S_1 => (Operation::CmpS, 1nat),
        Instruction::CMP_S_2 => (Operation::CmpS, 2nat),
        Instruction::CMP_S_4 => (Operation::CmpS, 4nat),
        Instruction::CMP_S_8 => (Operation::CmpS, 8nat),
        Instruction::CMP_F4 => (Operation::CmpF, 4nat),
        Instruction::CMP_F8 => (Operation::CmpF, 8nat),
        Instruction::NOT_1 => (Operation::Not, 1nat),
        Instruction::NOT_2 => (Operation::Not, 2nat),
        Instruction::NOT_4 => (Operation::Not, 4nat),
        Instruction::NOT_8 => (Operation::Not, 8nat),
        Instruction::AND_1 => (Operation::And, 1nat),
        Instruction::AND_2 => (Operation::And, 2nat),
        Instruction::AND_4 => (Operation::And, 4nat),
        Instruction::AND_8 => (Operation::And, 8nat),
        Instruction::OR_1 => (Operation::Or, 1nat),
        Instruction::OR_2 => (Operation::Or, 2nat),
        Instruction::OR_4 => (Operation::Or, 4nat),
        Instruction::OR_8 => (Operation::Or, 8nat),
        Instruction::XOR_1 => (Operation::Xor, 1nat),
        Instruction::XOR_2 => (Operation::Xor, 2nat),
        Instruction::XOR_4 => (Operation::Xor, 4nat),
        Instruction::XOR_8 => (Operation::Xor, 8nat),
        Instruction::SHL_1 => (Operation::Shl, 1nat),
        Instruction::SHL_2 => (Operation::Shl, 2nat),
        Instruction::SHL_4 => (Operation::Shl, 4nat),
        Instruction::SHL_8 => (Operation::Shl, 8nat),
        Instruction::SHR_1 => (Operation::Shr, 1nat),
        Instruction::SHR_2 => (Operation::Shr, 2nat),
        Instruction::SHR_4 => (Operation::Shr, 4nat),
        Instruction::SHR_8 => (Operation::Shr, 8nat),
        Instruction::SAR_1 => (Operation::Sar, 1nat),
        Instruction::SAR_2 => (Operation::Sar, 2nat),
        Instruction::SAR_4 => (Operation::Sar, 4nat),
        Instruction::SAR_8 => (Operation::Sar, 8nat),
        Instruction::ADD_1 => (Operation::Add, 1nat),
        Instruction::ADD_2 => (Operation::Add, 2nat),
        Instruction::ADD_4 => (Operation::Add, 4nat),
        Instruction::ADD_8 => (Operation::Add, 8nat),
        Instruction::SUB_1 => (Operation::Sub, 1nat),
        Instruction::SUB_2 => (Operation::Sub, 2nat),
        Instruction::SUB_4 => (Operation::Sub, 4nat),
        Instruction::SUB_8 => (Operation::Sub, 8nat),
        Instruction::MUL_1 => (Operation::Mul, 1nat),
        Instruction::MUL_2 => (Operation::Mul, 2nat),
        Instruction::MUL_4 => (Operation::Mul, 4nat),
        Instruction::MUL_8 => (Operation::Mul, 8nat),
        Instruction::DIV_REM_U_1 => (Operation::DivRemU, 1nat),
        Instruction::DIV_REM_U_2 => (Operation::DivRemU, 2nat),
        Instruction::DIV_REM_U_4 => (Operation::DivRemU, 4nat),
        Instruction::DIV_REM_U_8 => (Operation::DivRemU, 8nat),
        Instruction::DIV_REM_S_1 => (Operation::DivRemS, 1nat),
        Instruction::DIV_REM_S_2 => (Operation::DivRemS, 2nat),
        Instruction::DIV_REM_S_4 => (Operation::DivRemS, 4nat),
        Instruction::DIV_REM_S_8 => (Operation::DivRemS, 8nat),
        Instruction::ADD_F_4 => (Operation::Float(FloatOp::Arith(FloatArith::Add)), 4nat),
        Instruction::ADD_F_8 => (Operation::Float(FloatOp::Arith(FloatArith::Add)), 8nat),
        Instruction::SUB_F_4 => (Operation::Float(FloatOp::Arith(FloatArith::Sub)), 4nat),
        Instruction::SUB_F_8 => (Operation::Float(FloatOp::Arith(FloatArith::Sub)), 8nat),
        Instruction::MUL_F_4 => (Operation::Float(FloatOp::Arith(FloatArith::Mul)), 4nat),
        Instruction::MUL_F_8 => (Operation::Float(FloatOp::Arith(FloatArith::Mul)), 8nat),
        Instruction::DIV_F_4 => (Operation::Float(FloatOp::Arith(FloatArith::Div)), 4nat),
        Instruction::DIV_F_8 => (Operation::Float(FloatOp::Arith(FloatArith::Div)), 8nat),
        Instruction::REM_F_4 => (Operation::Float(FloatOp::Arith(FloatArith::Rem)), 4nat),
        Instruction::REM_F_8 => (Operation::Float(FloatOp::Arith(FloatArith::Rem)), 8nat),
        Instruction::CNV_U8_F4 => (Operation::Float(FloatOp::FromU64), 4nat),
        Instruction::CNV_U8_F8 => (Operation::Float(FloatOp::FromU64), 8nat),
        Instruction::CNV_S8_F4 => (Operation::Float(FloatOp::FromI64), 4nat),
        Instruction::CNV_S8_F8 => (Operation::Float(FloatOp::FromI64), 8nat),
        Instruction::CNV_F4_U8 => (Operation::Float(FloatOp::ToU64), 4nat),
        Instruction::CNV_F8_U8 => (Operation::Float(FloatOp::ToU64), 8nat),
        Instruction::CNV_F4_S8 => (Operation::Float(FloatOp::ToI64), 4nat),
        Instruction::CNV_F8_S8 => (Operation::Float(FloatOp::ToI64), 8nat),
        Instruction::CNV_F4_F8 => (Operation::Float(FloatOp::Widen), 4nat),
        Instruction::CNV_F8_F4 => (Operation::Float(FloatOp::Narrow), 8nat),
        Instruction::CALL_EXT => (Operation::CallExt, 0nat),
    }
}

/// The family and operand width of an instruction.
pub fn operation_of(i: &Instruction) -> (r: (Operation, usize))
    ensures
        (r.0, r.1 as nat) == operation(*i),
{
    match i {
            Instruction::PSH_1(_) => (Operation::Push, 1),
            Instruction::PSH_2(_) => (Operation::Push, 2),
            Instruction::PSH_4(_) => (Operation::Push, 4),
            Instruction::PSH_8(_) => (Operation::Push, 8),
            Instruction::POP_1 => (Operation::Pop, 1),
            Instruction::POP_2 => (Operation::Pop, 2),
            Instruction::POP_4 => (Operation::Pop, 4),
            Instruction::POP_8 => (Operation::Pop, 8),
            Instruction::ALLOC => (Operation::Alloc, 8),
            Instruction::COPY_REF => (Operation::CopyRef, 8),
            Instruction::SET_CHILD => (Operation::SetChild, 8),
            Instruction::GET_CHILD => (Operation::GetChild, 8),
            Instruction::MOV_ST_HP_1 => (Operation::MovStHp, 1),
            Instruction::MOV_ST_HP_2 => (Operation::MovStHp, 2),
            Instruction::MOV_ST_HP_4 => (Operation::MovStHp, 4),
            Instruction::MOV_ST_HP_8 => (Operation::MovStHp, 8),
            Instruction::MOV_HP_ST_1 => (Operation::MovHpSt, 1),
            Instruction::MOV_HP_ST_2 => (Operation::MovHpSt, 2),
            Instruction::MOV_HP_ST_4 => (Operation::MovHpSt, 4),
            Instruction::MOV_HP_ST_8 => (Operation::MovHpSt, 8),
            Instruction::JSR => (Operation::Jsr, 8),
            Instruction::RET => (Operation::Ret, 8),
            Instruction::JMP_EQ => (Operation::Jump(Predicate::Eq), 1),
            Instruction::JMP_NE => (Operation::Jump(Predicate::Ne), 1),
            Instruction::JMP_GE => (Operation::Jump(Predicate::Ge), 1),
            Instruction::JMP_GT => (Operation::Jump(Predicate::Gt), 1),
            Instruction::JMP_LE => (Operation::Jump(Predicate::Le), 1),
            Instruction::JMP_LT => (Operation::Jump(Predicate::Lt), 1),
            Instruction::CMP_U_1 => (Operation::CmpU, 1),
            Instruction::CMP_U_2 => (Operation::CmpU, 2),
            Instruction::CMP_U_4 => (Operation::CmpU, 4),
            Instruction::CMP_U_8 => (Operation::CmpU, 8),
            Instruction::CMP_S_1 => (Operation::CmpS, 1),
            Instruction::CMP_S_2 => (Operation::CmpS, 2),
            Instruction::CMP_S_4 => (Operation::CmpS, 4),
            Instruction::CMP_S_8 => (Operation::CmpS, 8),
            Instruction::CMP_F4 => (Operation::CmpF, 4),
            Instruction::CMP_F8 => (Operation::CmpF, 8),
            Instruction::NOT_1 => (Operation::Not, 1),
            Instruction::NOT_2 => (Operation::Not, 2),
            Instruction::NOT_4 => (Operation::Not, 4),
            Instruction::NOT_8 => (Operation::Not, 8),
            Instruction::AND_1 => (Operation::And, 1),
            Instruction::AND_2 => (Operation::And, 2),
            Instruction::AND_4 => (Operation::And, 4),
            Instruction::AND_8 => (Operation::And, 8),
            Instruction::OR_1 => (Operation::Or, 1),
            Instruction::OR_2 => (Operation::Or, 2),
            Instruction::OR_4 => (Operation::Or, 4),
            Instruction::OR_8 => (Operation::Or, 8),
            Instruction::XOR_1 => (Operation::Xor, 1),
            Instruction::XOR_2 => (Operation::Xor, 2),
            Instruction::XOR_4 => (Operation::Xor, 4),
            Instruction::XOR_8 => (Operation::Xor, 8),
            Instruction::SHL_1 => (Operation::Shl, 1),
            Instruction::SHL_2 => (Operation::Shl, 2),
            Instruction::SHL_4 => (Operation::Shl, 4),
            Instruction::SHL_8 => (Operation::Shl, 8),
            Instruction::SHR_1 => (Operation::Shr, 1),
            Instruction::SHR_2 => (Operation::Shr, 2),
            Instruction::SHR_4 => (Operation::Shr, 4),
            Instruction::SHR_8 => (Operation::Shr, 8),
            Instruction::SAR_1 => (Operation::Sar, 1),
            Instruction::SAR_2 => (Operation::Sar, 2),
            Instruction::SAR_4 => (Operation::Sar, 4),
            Instruction::SAR_8 => (Operation::Sar, 8),
            Instruction::ADD_1 => (Operation::Add, 1),
            Instruction::ADD_2 => (Operation::Add, 2),
            Instruction::ADD_4 => (Operation::Add, 4),
            Instruction::ADD_8 => (Operation::Add, 8),
            Instruction::SUB_1 => (Operation::Sub, 1),
            Instruction::SUB_2 => (Operation::Sub, 2),
            Instruction::SUB_4 => (Operation::Sub, 4),
            Instruction::SUB_8 => (Operation::Sub, 8),
            Instruction::MUL_1 => (Operation::Mul, 1),
            Instruction::MUL_2 => (Operation::Mul, 2),
            Instruction::MUL_4 => (Operation::Mul, 4),
            Instruction::MUL_8 => (Operation::Mul, 8),
            Instruction::DIV_REM_U_1 => (Operation::DivRemU, 1),
            Instruction::DIV_REM_U_2 => (Operation::DivRemU, 2),
            Instruction::DIV_REM_U_4 => (Operation::DivRemU, 4),
            Instruction::DIV_REM_U_8 => (Operation::DivRemU, 8),
            Instruction::DIV_REM_S_1 => (Operation::DivRemS, 1),
            Instruction::DIV_REM_S_2 => (Operation::DivRemS, 2),
            Instruction::DIV_REM_S_4 => (Operation::DivRemS, 4),
            Instruction::DIV_REM_S_8 => (Operation::DivRemS, 8),
            Instruction::ADD_F_4 => (Operation::Float(FloatOp::Arith(FloatArith::Add)), 4),
            Instruction::ADD_F_8 => (Operation::Float(FloatOp::Arith(FloatArith::Add)), 8),
            Instruction::SUB_F_4 => (Operation::Float(FloatOp::Arith(FloatArith::Sub)), 4),
            Instruction::SUB_F_8 => (Operation::Float(FloatOp::Arith(FloatArith::Sub)), 8),
            Instruction::MUL_F_4 => (Operation::Float(FloatOp::Arith(FloatArith::Mul)), 4),
            Instruction::MUL_F_8 => (Operation::Float(FloatOp::Arith(FloatArith::Mul)), 8),
            Instruction::DIV_F_4 => (Operation::Float(FloatOp::Arith(FloatArith::Div)), 4),
            Instruction::DIV_F_8 => (Operation::Float(FloatOp::Arith(FloatArith::Div)), 8),
            Instruction::REM_F_4 => (Operation::Float(FloatOp::Arith(FloatArith::Rem)), 4),
            Instruction::REM_F_8 => (Operation::Float(FloatOp::Arith(FloatArith::Rem)), 8),
            Instruction::CNV_U8_F4 => (Operation::Float(FloatOp::FromU64), 4),
            Instruction::CNV_U8_F8 => (Operation::Float(FloatOp::FromU64), 8),
            Instruction::CNV_S8_F4 => (Operation::Float(FloatOp::FromI64), 4),
            Instruction::CNV_S8_F8 => (Operation::Float(FloatOp::FromI64), 8),
            Instruction::CNV_F4_U8 => (Operation::Float(FloatOp::ToU64), 4),
            Instruction::CNV_F8_U8 => (Operation::Float(FloatOp::ToU64), 8),
            Instruction::CNV_F4_S8 => (Operation::Float(FloatOp::ToI64), 4),
            Instruction::CNV_F8_S8 => (Operation::Float(FloatOp::ToI64), 8),
            Instruction::CNV_F4_F8 => (Operation::Float(FloatOp::Widen), 4),
            Instruction::CNV_F8_F4 => (Operation::Float(FloatOp::Narrow), 8),
            Instruction::CALL_EXT => (Operation::CallExt, 0),
    }
}

/// The bytes that a floating-point instruction pops, and those it pushes.
pub open spec fn float_shape(op: FloatOp, w: nat) -> (nat, nat) {
    match op {
        FloatOp::Arith(_) => (2 * w, w),
        FloatOp::FromU64 => (8, w),
        FloatOp::FromI64 => (8, w),
        FloatOp::ToU64 => (w, 8),
        FloatOp::ToI64 => (w, 8),
        FloatOp::Widen => (4, 8),
        FloatOp::Narrow => (8, 4),
    }
}

pub open spec fn is_float(i: Instruction) -> bool {
    operation(i).0 is Float
}

/// The state of a machine as plain values.
pub struct MachineState {
    /// The position in the instruction stream: the program counter.
    pub position: u64,
    pub stack: Seq<u8>,
    pub heap: Map<u64, ObjectView>,
    /// The reference that the next allocation hands out.
    pub next_id: u64,
}

pub open spec fn with_stack(s: MachineState, stack: Seq<u8>) -> MachineState {
    MachineState { stack, ..s }
}

pub open spec fn underflow<T>() -> Result<T, MachineError> {
    Err(MachineError::Stack(StackError::Underflow))
}

/// The ordering value of a comparison byte of 0 to 3.
pub open spec fn ordering_of_byte(b: nat) -> PossiblyOrdering {
    if b == 0 {
        PossiblyOrdering::Unordered
    } else if b == 1 {
        PossiblyOrdering::Less
    } else if b == 2 {
        PossiblyOrdering::Equal
    } else {
        PossiblyOrdering::Greater
    }
}

// Integer arithmetic on unsigned values of w bytes. Results wrap modulo 256^w.
pub open spec fn add_value(a: nat, b: nat, w: nat) -> nat {
    (a + b) % pow256(w)
}

pub open spec fn sub_value(a: nat, b: nat, w: nat) -> nat {
    ((a + pow256(w) - b) % (pow256(w) as int)) as nat
}

pub open spec fn mul_value(a: nat, b: nat, w: nat) -> nat {
    (a * b) % pow256(w)
}

pub open spec fn not_value(a: nat, w: nat) -> nat {
    (pow256(w) - 1 - a) as nat
}

pub open spec fn and_value(a: nat, b: nat) -> nat {
    (a as u64 & b as u64) as nat
}

pub open spec fn or_value(a: nat, b: nat) -> nat {
    (a as u64 | b as u64) as nat
}

pub open spec fn xor_value(a: nat, b: nat) -> nat {
    (a as u64 ^ b as u64) as nat
}

/// Shift counts wrap at the operand's width in bits.
pub open spec fn shift_count(c: nat, w: nat) -> nat {
    c % (8 * w)
}

pub open spec fn shl_value(a: nat, c: nat, w: nat) -> nat {
    (a * pow2(shift_count(c, w))) % pow256(w)
}

pub open spec fn shr_value(a: nat, c: nat, w: nat) -> nat {
    a / pow2(shift_count(c, w))
}

/// Arithmetic shift: the signed value divided by `2^count`, rounded down.
pub open spec fn sar_value(a: nat, c: nat, w: nat) -> nat {
    to_unsigned(to_signed(a as int, w) / (pow2(shift_count(c, w)) as int), w)
}

/// Unsigned quotient; by zero it is the largest value of the width.
pub open spec fn udiv_value(a: nat, b: nat, w: nat) -> nat {
    if b != 0 {
        a / b
    } else {
        (pow256(w) - 1) as nat
    }
}

/// Unsigned remainder; by zero it is the dividend.
pub open spec fn urem_value(a: nat, b: nat) -> nat {
    if b != 0 {
        a % b
    } else {
        a
    }
}

/// Signed quotient of values of w bytes, rounded toward zero; by zero it is
/// the largest value, and `MIN / -1` wraps to `MIN`.
pub open spec fn sdiv_value(a: int, b: int, w: nat) -> int {
    let h = pow256(w) / 2;
    if b == 0 {
        h - 1
    } else if a == -h && b == -1 {
        -h
    } else {
        trunc_div(a, b)
    }
}

/// Signed remainder, with the sign of the dividend; by zero it is the
/// dividend.
pub open spec fn srem_value(a: int, b: int) -> int {
    if b == 0 {
        a
    } else {
        trunc_rem(a, b)
    }
}

/// The position of a binary32 (`w == 4`) or binary64 (`w == 8`) bit pattern
/// in IEEE-754 `totalOrder`: negative NaNs, negative infinity, negative
/// numbers, -0, +0, positive numbers, positive infinity, positive NaNs, with
/// NaNs ordered by payload.
pub open spec fn total_order_key(bits: nat, w: nat) -> int {
    let h = pow256(w) / 2;
    if bits >= h {
        -(bits - h) - 1
    } else {
        bits as int
    }
}

/// Pops `a` (w bytes), then `b` (wb bytes), and pushes `f(a, b)` in w bytes.
pub open spec fn binary_spec(
    s: MachineState,
    w: nat,
    wb: nat,
    f: spec_fn(nat, nat) -> nat,
) -> Result<MachineState, MachineError> {
    if s.stack.len() < w + wb {
        underflow()
    } else {
        let a = top_value(s.stack, w);
        let rest = below(s.stack, w);
        let b = top_value(rest, wb);
        Ok(with_stack(s, below(rest, wb) + le_bytes(f(a, b), w)))
    }
}

/// Pops `a` and `b` of w bytes and pushes the byte of the ordering of
/// `key(a)` against `key(b)`.
pub open spec fn compare_spec(s: MachineState, w: nat, key: spec_fn(nat) -> int) -> Result<
    MachineState,
    MachineError,
> {
    if s.stack.len() < 2 * w {
        underflow()
    } else {
        let a = top_value(s.stack, w);
        let rest = below(s.stack, w);
        let b = top_value(rest, w);
        Ok(
            with_stack(
                s,
                below(rest, w) + seq![ordering_byte(int_ordering(key(a), key(b)))],
            ),
        )
    }
}

/// Pops `a` and `b` of w bytes, pushes the quotient, then the remainder.
pub open spec fn div_rem_spec(
    s: MachineState,
    w: nat,
    q: spec_fn(nat, nat) -> nat,
    r: spec_fn(nat, nat) -> nat,
) -> Result<MachineState, MachineError> {
    if s.stack.len() < 2 * w {
        underflow()
    } else {
        let a = top_value(s.stack, w);
        let rest = below(s.stack, w);
        let b = top_value(rest, w);
        Ok(with_stack(s, below(rest, w) + le_bytes(q(a, b), w) + le_bytes(r(a, b), w)))
    }
}

/// Pops a non-null object reference and takes one stack reference from the
/// object: the reference and the state after.
pub open spec fn pop_reference_spec(s: MachineState) -> Result<(u64, MachineState), MachineError> {
    if s.stack.len() < 8 {
        underflow()
    } else {
        let r = top_value(s.stack, 8) as u64;
        if r == 0 {
            Err(MachineError::Heap(HeapError::IllegalNullObjectReferenceUsage))
        } else {
            match decrement_spec(s.heap, r) {
                Err(e) => Err(MachineError::Heap(e)),
                Ok(h) => Ok((r, MachineState { stack: below(s.stack, 8), heap: h, ..s })),
            }
        }
    }
}

pub open spec fn alloc_spec(s: MachineState) -> Result<MachineState, MachineError> {
    if s.stack.len() < 16 {
        underflow()
    } else {
        let n_children = top_value(s.stack, 8);
        let rest = below(s.stack, 8);
        let n_data = top_value(rest, 8);
        if s.next_id == u64::MAX || n_children > usize::MAX || n_data > usize::MAX {
            Err(MachineError::Heap(HeapError::Allocation))
        } else {
            Ok(
                MachineState {
                    stack: below(rest, 8) + le_bytes(s.next_id as nat, 8),
                    heap: s.heap.insert(s.next_id, fresh_object(n_children, n_data)),
                    next_id: (s.next_id + 1) as u64,
                    ..s
                },
            )
        }
    }
}

pub open spec fn copy_ref_spec(s: MachineState) -> Result<MachineState, MachineError> {
    if s.stack.len() < 8 {
        underflow()
    } else {
        let r = top_value(s.stack, 8);
        if r == 0 {
            Err(MachineError::Heap(HeapError::IllegalNullObjectReferenceUsage))
        } else {
            match increment_spec(s.heap, r as u64) {
                Err(e) => Err(MachineError::Heap(e)),
                Ok(h) => Ok(
                    MachineState {
                        stack: below(s.stack, 8) + le_bytes(r, 8) + le_bytes(r, 8),
                        heap: h,
                        ..s
                    },
                ),
            }
        }
    }
}

pub open spec fn set_child_instr_spec(s: MachineState) -> Result<MachineState, MachineError> {
    match pop_reference_spec(s) {
        Err(e) => Err(e),
        Ok((parent, s1)) => if s1.stack.len() < 16 {
            underflow()
        } else {
            let index = top_value(s1.stack, 8);
            let rest = below(s1.stack, 8);
            let child = top_value(rest, 8) as u64;
            let h2 = if child == 0 {
                Ok(s1.heap)
            } else {
                decrement_spec(s1.heap, child)
            };
            match h2 {
                Err(e) => Err(MachineError::Heap(e)),
                Ok(h2) => match set_child_spec(
                    h2,
                    parent,
                    index as int,
                    if child == 0 {
                        None
                    } else {
                        Some(child)
                    },
                ) {
                    Err(e) => Err(MachineError::Heap(e)),
                    Ok(h3) => Ok(MachineState { stack: below(rest, 8), heap: h3, ..s1 }),
                },
            }
        },
    }
}

pub open spec fn get_child_instr_spec(s: MachineState) -> Result<MachineState, MachineError> {
    match pop_reference_spec(s) {
        Err(e) => Err(e),
        Ok((parent, s1)) => if s1.stack.len() < 8 {
            underflow()
        } else {
            let index = top_value(s1.stack, 8);
            let rest = below(s1.stack, 8);
            match get_child_spec(s1.heap, parent, index as int) {
                Err(e) => Err(MachineError::Heap(e)),
                Ok(None) => Ok(with_stack(s1, rest + le_bytes(0, 8))),
                Ok(Some(c)) => match increment_spec(s1.heap, c) {
                    Err(e) => Err(MachineError::Heap(e)),
                    Ok(h) => Ok(MachineState { stack: rest + le_bytes(c as nat, 8), heap: h, ..s1 }),
                },
            }
        },
    }
}

/// Stack to heap: pops a reference, a start offset and w data bytes, and
/// writes the bytes into the object's data.
pub open spec fn mov_st_hp_spec(s: MachineState, w: nat) -> Result<MachineState, MachineError> {
    match pop_reference_spec(s) {
        Err(e) => Err(e),
        Ok((r, s1)) => if s1.stack.len() < 8 + w {
            underflow()
        } else {
            let start = top_value(s1.stack, 8);
            let rest = below(s1.stack, 8);
            match write_data_spec(s1.heap, r, start as int, top(rest, w)) {
                Err(e) => Err(MachineError::Heap(e)),
                Ok(h) => Ok(MachineState { stack: below(rest, w), heap: h, ..s1 }),
            }
        },
    }
}

/// Heap to stack: pops a reference and a start offset, and pushes w bytes of
/// the object's data.
pub open spec fn mov_hp_st_spec(s: MachineState, w: nat) -> Result<MachineState, MachineError> {
    match pop_reference_spec(s) {
        Err(e) => Err(e),
        Ok((r, s1)) => if s1.stack.len() < 8 {
            underflow()
        } else {
            let start = top_value(s1.stack, 8);
            let rest = below(s1.stack, 8);
            match data_slice_spec(s1.heap, r, start as int, w as int) {
                Err(e) => Err(MachineError::Heap(e)),
                Ok(d) => Ok(with_stack(s1, rest + d)),
            }
        },
    }
}

/// Pops an address, pushes the position of the next instruction, and jumps.
pub open spec fn jsr_spec(s: MachineState) -> Result<MachineState, MachineError> {
    if s.stack.len() < 8 {
        underflow()
    } else {
        Ok(
            MachineState {
                stack: below(s.stack, 8) + le_bytes(s.position as nat, 8),
                position: top_value(s.stack, 8) as u64,
                ..s
            },
        )
    }
}

pub open spec fn ret_spec(s: MachineState) -> Result<MachineState, MachineError> {
    if s.stack.len() < 8 {
        underflow()
    } else {
        Ok(
            MachineState {
                stack: below(s.stack, 8),
                position: top_value(s.stack, 8) as u64,
                ..s
            },
        )
    }
}

/// Pops a comparison byte and an address, and jumps when the predicate holds
/// of the comparison.
pub open spec fn jump_spec(s: MachineState, p: Predicate) -> Result<MachineState, MachineError> {
    if s.stack.len() < 1 {
        underflow()
    } else {
        let c = top_value(s.stack, 1);
        let rest = below(s.stack, 1);
        if c > 3 {
            Err(
                MachineError::InvalidInstruction(
                    InvalidInstruction::InvalidComparisonByte(c as u8),
                ),
            )
        } else if rest.len() < 8 {
            underflow()
        } else {
            let address = top_value(rest, 8) as u64;
            Ok(
                MachineState {
                    stack: below(rest, 8),
                    position: if predicate_holds(p, ordering_of_byte(c)) {
                        address
                    } else {
                        s.position
                    },
                    ..s
                },
            )
        }
    }
}

/// A floating-point instruction: its operands are popped and the bytes that
/// the float unit produced, `result`, are pushed.
pub open spec fn float_spec(s: MachineState, op: FloatOp, w: nat, result: Seq<u8>) -> Result<
    MachineState,
    MachineError,
> {
    if s.stack.len() < float_shape(op, w).0 {
        underflow()
    } else {
        Ok(with_stack(s, below(s.stack, float_shape(op, w).0) + result))
    }
}

/// What executing `i` in state `s` gives. For a floating-point instruction
/// `float_result` stands for the bytes that the float unit produced; the
/// other instructions do not read it.
pub open spec fn execute_spec(s: MachineState, i: Instruction, float_result: Seq<u8>) -> Result<
    MachineState,
    MachineError,
> {
    let (op, w) = operation(i);
    match op {
        Operation::Push => Ok(with_stack(s, s.stack + payload(i))),
        Operation::Pop => if s.stack.len() < w {
            underflow()
        } else {
            Ok(with_stack(s, below(s.stack, w)))
        },
        Operation::Alloc => alloc_spec(s),
        Operation::CopyRef => copy_ref_spec(s),
        Operation::SetChild => set_child_instr_spec(s),
        Operation::GetChild => get_child_instr_spec(s),
        Operation::MovStHp => mov_st_hp_spec(s, w),
        Operation::MovHpSt => mov_hp_st_spec(s, w),
        Operation::Jsr => jsr_spec(s),
        Operation::Ret => ret_spec(s),
        Operation::Jump(p) => jump_spec(s, p),
        Operation::CmpU => compare_spec(s, w, |a: nat| a as int),
        Operation::CmpS => compare_spec(s, w, |a: nat| to_signed(a as int, w)),
        Operation::CmpF => compare_spec(s, w, |a: nat| total_order_key(a, w)),
        Operation::Not => if s.stack.len() < w {
            underflow()
        } else {
            Ok(
                with_stack(
                    s,
                    below(s.stack, w) + le_bytes(not_value(top_value(s.stack, w), w), w),
                ),
            )
        },
        Operation::And => binary_spec(s, w, w, |a: nat, b: nat| and_value(a, b)),
        Operation::Or => binary_spec(s, w, w, |a: nat, b: nat| or_value(a, b)),
        Operation::Xor => binary_spec(s, w, w, |a: nat, b: nat| xor_value(a, b)),
        Operation::Shl => binary_spec(s, w, 1, |a: nat, c: nat| shl_value(a, c, w)),
        Operation::Shr => binary_spec(s, w, 1, |a: nat, c: nat| shr_value(a, c, w)),
        Operation::Sar => binary_spec(s, w, 1, |a: nat, c: nat| sar_value(a, c, w)),
        Operation::Add => binary_spec(s, w, w, |a: nat, b: nat| add_value(a, b, w)),
        Operation::Sub => binary_spec(s, w, w, |a: nat, b: nat| sub_value(a, b, w)),
        Operation::Mul => binary_spec(s, w, w, |a: nat, b: nat| mul_value(a, b, w)),
        Operation::DivRemU => div_rem_spec(
            s,
            w,
            |a: nat, b: nat| udiv_value(a, b, w),
            |a: nat, b: nat| urem_value(a, b),
        ),
        Operation::DivRemS => div_rem_spec(
            s,
            w,
            |a: nat, b: nat|
                to_unsigned(sdiv_value(to_signed(a as int, w), to_signed(b as int, w), w), w),
            |a: nat, b: nat|
                to_unsigned(srem_value(to_signed(a as int, w), to_signed(b as int, w)), w),
        ),
        Operation::Float(f) => float_spec(s, f, w, float_result),
        Operation::CallExt => Err(MachineError::UnimplementedInstruction(106)),
    }
}

/// The key that a comparison instruction orders its operands by.
pub open spec fn compare_key(op: Operation, a: nat, w: nat) -> int {
    match op {
        Operation::CmpU => a as int,
        Operation::CmpS => to_signed(a as int, w),
        _ => total_order_key(a, w),
    }
}

/// Comparing `a` (pushed last) with `b` pushes the byte of their ordering:
/// as unsigned numbers for `CMP_U`, in two's complement for `CMP_S`, and in
/// IEEE-754 `totalOrder` for `CMP_F`.
pub proof fn lemma_compare_pushes_ordering(s: MachineState, i: Instruction, a: nat, b: nat)
    requires
        operation(i).0 is CmpU || operation(i).0 is CmpS || operation(i).0 is CmpF,
        width_ok(operation(i).1),
        a < pow256(operation(i).1),
        b < pow256(operation(i).1),
    ensures
        execute_spec(
            with_stack(s, s.stack + le_bytes(b, operation(i).1) + le_bytes(a, operation(i).1)),
            i,
            Seq::empty(),
        ) == Ok::<MachineState, MachineError>(
            with_stack(
                s,
                s.stack + seq![
                    ordering_byte(
                        int_ordering(
                            compare_key(operation(i).0, a, operation(i).1),
                            compare_key(operation(i).0, b, operation(i).1),
                        ),
                    ),
                ],
            ),
        ),
{
    let w = operation(i).1;
    let inner = s.stack + le_bytes(b, w);
    lemma_push_pop_round_trip(inner, a, w);
    lemma_push_pop_round_trip(s.stack, b, w);
    crate::compute_stack::lemma_le_bytes_len(a, w);
    crate::compute_stack::lemma_le_bytes_len(b, w);
}

/// The counter of references never goes down, and an allocation pushes the
/// counter as it was and advances it by one: references come out in
/// increasing order.
pub proof fn lemma_counter_monotone(s: MachineState, i: Instruction, float_result: Seq<u8>)
    ensures
        execute_spec(s, i, float_result) matches Ok(s2) ==> s.next_id <= s2.next_id,
        execute_spec(s, i, float_result) matches Ok(s2) ==> (operation(i).0 is Alloc <==> s2.next_id
            != s.next_id),
        execute_spec(s, i, float_result) matches Ok(s2) ==> (operation(i).0 is Alloc ==> (
        s2.next_id == s.next_id + 1 && top_value(s2.stack, 8) == s.next_id)),
{
    if operation(i).0 is Alloc {
        if let Ok(s2) = execute_spec(s, i, float_result) {
            let rest = below(below(s.stack, 8), 8);
            lemma_pow256_values();
            lemma_push_pop_round_trip(rest, s.next_id as nat, 8);
        }
    }
}

/// Each object's count of stack references is the number of its copies among
/// `roots`, the references that the stack holds, and every root is on the
/// heap.
pub open spec fn roots_counted(h: Map<u64, ObjectView>, roots: Multiset<u64>) -> bool {
    &&& forall|r: u64| #[trigger] h.contains_key(r) ==> h[r].stack_references == roots.count(r)
    &&& forall|r: u64| #[trigger] roots.count(r) > 0 ==> h.contains_key(r)
}

/// The references on the stack after `i` runs in `s`, given those before:
/// each reference the instruction takes off the stack to use leaves, and
/// each one it places on the stack joins. Other instructions move no
/// references.
pub open spec fn roots_after(s: MachineState, i: Instruction, roots: Multiset<u64>) -> Multiset<u64> {
    let top_ref = top_value(s.stack, 8) as u64;
    let second = top_value(below(s.stack, 8), 8);
    let third = top_value(below(below(s.stack, 8), 8), 8) as u64;
    match operation(i).0 {
        Operation::Alloc => roots.insert(s.next_id),
        Operation::CopyRef => roots.insert(top_ref),
        Operation::SetChild => if third == 0 {
            roots.remove(top_ref)
        } else {
            roots.remove(top_ref).remove(third)
        },
        Operation::GetChild => match get_child_spec(s.heap, top_ref, second as int) {
            Ok(Some(c)) => roots.remove(top_ref).insert(c),
            _ => roots.remove(top_ref),
        },
        Operation::MovStHp => roots.remove(top_ref),
        Operation::MovHpSt => roots.remove(top_ref),
        _ => roots,
    }
}

/// Stack references follow the references on the stack: when every object's
/// count equals its copies among the stack's references, it still does after
/// any instruction that succeeds. Instructions that take a reference off the
/// stack to use it take one stack reference from its object, those that place
/// one on the stack add one, and an allocation starts its object at one.
pub proof fn lemma_stack_references_follow_roots(
    s: MachineState,
    i: Instruction,
    float_result: Seq<u8>,
    roots: Multiset<u64>,
)
    requires
        roots_counted(s.heap, roots),
        forall|r: u64| #[trigger] s.heap.contains_key(r) ==> r < s.next_id,
    ensures
        execute_spec(s, i, float_result) matches Ok(s2) ==> roots_counted(
            s2.heap,
            roots_after(s, i, roots),
        ),
{
    if let Ok(s2) = execute_spec(s, i, float_result) {
        let m = roots_after(s, i, roots);
        assert forall|r: u64| #[trigger] s2.heap.contains_key(r) implies s2.heap[r].stack_references
            == m.count(r) by {}
        assert forall|r: u64| #[trigger] m.count(r) > 0 implies s2.heap.contains_key(r) by {}
    }
}

/// The machine's result, `r`, and state after, `after`, are those that `spec`
/// gives; on an error the state after is left open.
pub open spec fn outcome(
    r: Result<(), MachineError>,
    spec: Result<MachineState, MachineError>,
    after: MachineState,
) -> bool {
    match spec {
        Ok(s) => r == Ok::<(), MachineError>(()) && after == s,
        Err(e) => r == Err::<(), MachineError>(e),
    }
}

fn pow2_of(s: u64) -> (r: u64)
    requires
        s < 64,
    ensures
        r == pow2(s as nat),
        r > 0,
{
    let mut p: u64 = 1;
    let mut k: u64 = 0;
    proof {
        lemma2_to64();
    }
    while k < s
        invariant
            k <= s < 64,
            p == pow2(k as nat),
        decreases s - k,
    {
        proof {
            lemma_pow2_unfold((k + 1) as nat);
            vstd::bits::lemma_u64_pow2_no_overflow((k + 1) as nat);
        }
        p = p * 2;
        k = k + 1;
    }
    proof {
        vstd::arithmetic::power2::lemma_pow2_pos(s as nat);
    }
    p
}

pub fn add_bits(a: u64, b: u64, w: usize) -> (r: u64)
    requires
        width_ok(w as nat),
        a < pow256(w as nat),
        b < pow256(w as nat),
    ensures
        r == add_value(a as nat, b as nat, w as nat),
{
    let m = mask_of(w) as u128 + 1;
    (((a as u128) + (b as u128)) % m) as u64
}

pub fn sub_bits(a: u64, b: u64, w: usize) -> (r: u64)
    requires
        width_ok(w as nat),
        a < pow256(w as nat),
        b < pow256(w as nat),
    ensures
        r == sub_value(a as nat, b as nat, w as nat),
{
    let m = mask_of(w) as u128 + 1;
    (((a as u128) + m - (b as u128)) % m) as u64
}

pub fn mul_bits(a: u64, b: u64, w: usize) -> (r: u64)
    requires
        width_ok(w as nat),
        a < pow256(w as nat),
        b < pow256(w as nat),
    ensures
        r == mul_value(a as nat, b as nat, w as nat),
{
    let m = mask_of(w) as u128 + 1;
    let x = a as u128;
    let y = b as u128;
    assert(x * y <= 0xffff_ffff_ffff_ffff * 0xffff_ffff_ffff_ffffu128) by (nonlinear_arith)
        requires
            x <= 0xffff_ffff_ffff_ffffu128,
            y <= 0xffff_ffff_ffff_ffffu128,
    ;
    ((x * y) % m) as u64
}

pub fn not_bits(a: u64, w: usize) -> (r: u64)
    requires
        width_ok(w as nat),
        a < pow256(w as nat),
    ensures
        r == not_value(a as nat, w as nat),
        r < pow256(w as nat),
{
    mask_of(w) - a
}

proof fn lemma_bitwise_bounds(a: u64, b: u64, m: u64)
    requires
        m == 0xff || m == 0xffff || m == 0xffff_ffff || m == 0xffff_ffff_ffff_ffff,
        a <= m,
        b <= m,
    ensures
        a & b <= m,
        a | b <= m,
        a ^ b <= m,
{
    assert(a & b <= m && a | b <= m && a ^ b <= m) by (bit_vector)
        requires
            m == 0xff || m == 0xffff || m == 0xffff_ffff || m == 0xffff_ffff_ffff_ffff,
            a <= m,
            b <= m,
    ;
}

/// `a & b`, `a | b` or `a ^ b` on values of w bytes, which stay below
/// `256^w`.
pub fn bitwise_bits(op: Operation, a: u64, b: u64, w: usize) -> (r: u64)
    requires
        op is And || op is Or || op is Xor,
        width_ok(w as nat),
        a < pow256(w as nat),
        b < pow256(w as nat),
    ensures
        op is And ==> r == and_value(a as nat, b as nat),
        op is Or ==> r == or_value(a as nat, b as nat),
        op is Xor ==> r == xor_value(a as nat, b as nat),
        r < pow256(w as nat),
{
    let m = mask_of(w);
    proof {
        lemma_pow256_values();
        lemma_bitwise_bounds(a, b, m);
    }
    match op {
        Operation::And => a & b,
        Operation::Or => a | b,
        _ => a ^ b,
    }
}

pub fn shl_bits(a: u64, c: u64, w: usize) -> (r: u64)
    requires
        width_ok(w as nat),
        a < pow256(w as nat),
    ensures
        r == shl_value(a as nat, c as nat, w as nat),
{
    let s = c % (8 * w as u64);
    let p = pow2_of(s);
    let m = mask_of(w) as u128 + 1;
    let x = a as u128;
    let y = p as u128;
    assert(x * y <= 0xffff_ffff_ffff_ffff * 0xffff_ffff_ffff_ffffu128) by (nonlinear_arith)
        requires
            x <= 0xffff_ffff_ffff_ffffu128,
            y <= 0xffff_ffff_ffff_ffffu128,
    ;
    ((x * y) % m) as u64
}

pub fn shr_bits(a: u64, c: u64, w: usize) -> (r: u64)
    requires
        width_ok(w as nat),
        a < pow256(w as nat),
    ensures
        r == shr_value(a as nat, c as nat, w as nat),
        r < pow256(w as nat),
{
    let s = c % (8 * w as u64);
    let p = pow2_of(s);
    proof {
        vstd::arithmetic::div_mod::lemma_div_is_ordered_by_denominator(a as int, 1, p as int);
    }
    a / p
}

/// Rounding down a negative number: `x / d == -((-x - 1) / d) - 1`.
proof fn lemma_floor_div_negative(x: int, d: int)
    requires
        x < 0,
        d > 0,
    ensures
        x / d == -((-x - 1) / d) - 1,
        x <= x / d,
{
    let n = -x - 1;
    let q = n / d;
    let r = n % d;
    vstd::arithmetic::div_mod::lemma_fundamental_div_mod(n, d);
    vstd::arithmetic::div_mod::lemma_mod_bound(n, d);
    assert(x == (-q - 1) * d + (d - r - 1)) by (nonlinear_arith)
        requires
            n == d * q + r,
            x == -n - 1,
    ;
    vstd::arithmetic::div_mod::lemma_fundamental_div_mod_converse_div(x, d, -q - 1, d - r - 1);
    vstd::arithmetic::div_mod::lemma_div_is_ordered_by_denominator(n, 1, d);
}

pub fn sar_bits(a: u64, c: u64, w: usize) -> (r: u64)
    requires
        width_ok(w as nat),
        a < pow256(w as nat),
    ensures
        r == sar_value(a as nat, c as nat, w as nat),
        r < pow256(w as nat),
{
    let s = c % (8 * w as u64);
    let p = pow2_of(s);
    let mask = mask_of(w);
    let half = (mask / 2) + 1;
    proof {
        lemma_pow256_values();
        assert(half == pow256(w as nat) / 2);
        vstd::arithmetic::div_mod::lemma_div_is_ordered_by_denominator(a as int, 1, p as int);
        vstd::arithmetic::div_mod::lemma_div_is_ordered_by_denominator(
            (mask - a) as int,
            1,
            p as int,
        );
    }
    if a < half {
        a / p
    } else {
        proof {
            let sa = to_signed(a as int, w as nat);
            assert(sa == a - pow256(w as nat));
            lemma_floor_div_negative(sa, p as int);
            assert(-sa - 1 == mask - a);
        }
        mask - (mask - a) / p
    }
}

/// The position of a float bit pattern of w bytes in `totalOrder`.
pub fn total_order_key_of(a: u64, w: usize) -> (r: i64)
    requires
        w == 4 || w == 8,
        a < pow256(w as nat),
    ensures
        r == total_order_key(a as nat, w as nat),
{
    proof {
        lemma_pow256_values();
    }
    let mask = mask_of(w);
    let half = (mask / 2) + 1;
    if a < half {
        a as i64
    } else {
        -((a - half) as i64) - 1
    }
}

/// Unsigned quotient and remainder of values of w bytes, through the
/// infallible division of the type of that width.
pub fn div_rem_unsigned(a: u64, b: u64, w: usize) -> (r: (u64, u64))
    requires
        width_ok(w as nat),
        a < pow256(w as nat),
        b < pow256(w as nat),
    ensures
        r.0 == udiv_value(a as nat, b as nat, w as nat),
        r.1 == urem_value(a as nat, b as nat),
        r.0 < pow256(w as nat),
        r.1 < pow256(w as nat),
{
    proof {
        lemma_pow256_values();
        if b != 0 {
            vstd::arithmetic::div_mod::lemma_div_is_ordered_by_denominator(a as int, 1, b as int);
            vstd::arithmetic::div_mod::lemma_mod_bound(a as int, b as int);
        }
    }
    if w == 1 {
        (
            <u8 as InfallibleDivision>::infallible_div(a as u8, b as u8) as u64,
            <u8 as InfallibleDivision>::infallible_rem(a as u8, b as u8) as u64,
        )
    } else if w == 2 {
        (
            <u16 as InfallibleDivision>::infallible_div(a as u16, b as u16) as u64,
            <u16 as InfallibleDivision>::infallible_rem(a as u16, b as u16) as u64,
        )
    } else if w == 4 {
        (
            <u32 as InfallibleDivision>::infallible_div(a as u32, b as u32) as u64,
            <u32 as InfallibleDivision>::infallible_rem(a as u32, b as u32) as u64,
        )
    } else {
        (
            <u64 as InfallibleDivision>::infallible_div(a, b),
            <u64 as InfallibleDivision>::infallible_rem(a, b),
        )
    }
}

/// Signed quotient and remainder of values of w bytes read in two's
/// complement, through the infallible division of the type of that width.
pub fn div_rem_signed(a: u64, b: u64, w: usize) -> (r: (u64, u64))
    requires
        width_ok(w as nat),
        a < pow256(w as nat),
        b < pow256(w as nat),
    ensures
        r.0 == to_unsigned(
            sdiv_value(to_signed(a as int, w as nat), to_signed(b as int, w as nat), w as nat),
            w as nat,
        ),
        r.1 == to_unsigned(
            srem_value(to_signed(a as int, w as nat), to_signed(b as int, w as nat)),
            w as nat,
        ),
        r.0 < pow256(w as nat),
        r.1 < pow256(w as nat),
{
    let x = signed_of(a, w);
    let y = signed_of(b, w);
    let ghost h = pow256(w as nat) / 2;
    proof {
        lemma_pow256_values();
        if y != 0 {
            if !(x == -h && y == -1) {
                lemma_trunc_div_bound(x as int, y as int, h as int);
            }
            lemma_trunc_rem_bound(x as int, y as int);
        }
    }
    let (q, r) = if w == 1 {
        (
            <i8 as InfallibleDivision>::infallible_div(x as i8, y as i8) as i64,
            <i8 as InfallibleDivision>::infallible_rem(x as i8, y as i8) as i64,
        )
    } else if w == 2 {
        (
            <i16 as InfallibleDivision>::infallible_div(x as i16, y as i16) as i64,
            <i16 as InfallibleDivision>::infallible_rem(x as i16, y as i16) as i64,
        )
    } else if w == 4 {
        (
            <i32 as InfallibleDivision>::infallible_div(x as i32, y as i32) as i64,
            <i32 as InfallibleDivision>::infallible_rem(x as i32, y as i32) as i64,
        )
    } else {
        (
            <i64 as InfallibleDivision>::infallible_div(x, y),
            <i64 as InfallibleDivision>::infallible_rem(x, y),
        )
    };
    (unsigned_of(q, w), unsigned_of(r, w))
}

} // verus!
