//! The interpreter: fetches, decodes and executes instructions against the
//! compute stack and the heap.
use vstd::prelude::*;
use crate::compute_heap::{Heap, HeapError, ObjectReference};
use crate::compute_stack::{
    ComputeStack, StackError, pow256, le_bytes, top, below, top_value, lemma_pow256_values,
    lemma_le_bytes_len, signed_of, unsigned_of, width_ok,
};
use crate::instruction::{Instruction, InvalidInstruction, decode_error, decodes_to, encoding};
use crate::possibly_ordering::PossiblyOrdering;
use crate::program::{BytecodeCursor, ReadSeek, remaining};
use crate::semantics::{
    FloatOp, FloatUnit, MachineState, Operation, Predicate, add_bits, alloc_spec, bitwise_bits,
    compare_spec, copy_ref_spec, div_rem_signed, div_rem_spec, div_rem_unsigned, execute_spec,
    float_shape, float_spec, get_child_instr_spec, is_float, jsr_spec, jump_spec, mov_hp_st_spec,
    mov_st_hp_spec, mul_bits, not_bits, operation, operation_of, outcome, pop_reference_spec,
    ret_spec, sar_bits, set_child_instr_spec, shl_bits, shr_bits, sub_bits, total_order_key_of,
};

verus! {

/// Errors of one machine step. Each is fatal to the step.
#[derive(Clone, Copy, Debug, PartialEq, Eq, Structural)]
pub enum MachineError {
    /// The discriminant byte names no instruction.
    UnknownInstruction(u8),
    /// An operand of the instruction is invalid.
    InvalidInstruction(InvalidInstruction),
    /// The stream ended where an instruction would start: normal termination.
    EndOfInstructions,
    /// The stream ended inside the payload of the instruction with this
    /// discriminant.
    IncompleteInstruction(u8),
    /// The instruction has no implementation on this machine (`CALL_EXT`).
    UnimplementedInstruction(u8),
    Stack(StackError),
    Heap(HeapError),
}

/// The result of a step: on an error of execution the instruction is handed
/// back beside the error; on an error of decoding there is none.
pub open spec fn step_outcome(
    r: Result<(), (MachineError, Option<Instruction>)>,
    i: Instruction,
    spec: Result<MachineState, MachineError>,
    after: MachineState,
) -> bool {
    match spec {
        Ok(s) => r == Ok::<(), (MachineError, Option<Instruction>)>(()) && after == s,
        Err(e) => r == Err::<(), (MachineError, Option<Instruction>)>((e, Some(i))),
    }
}

/// The state once `i` has been fetched: the position has moved past it.
pub open spec fn after_fetch(s: MachineState, i: Instruction) -> MachineState {
    MachineState { position: (s.position + encoding(i).len()) as u64, ..s }
}

/// A machine: an instruction stream, a compute stack, a heap, and the unit
/// that computes its floating-point instructions.
pub struct Machine<F: FloatUnit> {
    pub instructions: BytecodeCursor,
    pub stack: Vec<u8>,
    pub heap: Heap,
    pub floats: F,
}

impl<F: FloatUnit> Machine<F> {
    /// The machine's state as plain values.
    pub open spec fn state(&self) -> MachineState {
        MachineState {
            position: self.instructions.position(),
            stack: self.stack@,
            heap: self.heap@,
            next_id: self.heap.next_id(),
        }
    }

    /// A machine at the start of `program`, with an empty stack and heap.
    pub fn new(program: Vec<u8>, floats: F) -> (r: Machine<F>)
        ensures
            r.heap.wf(),
            r.instructions.source() == program@,
            r.state() == (MachineState {
                position: 0,
                stack: Seq::empty(),
                heap: Map::empty(),
                next_id: 1,
            }),
    {
        Machine {
            instructions: BytecodeCursor::new(program),
            stack: Vec::new(),
            heap: Heap::new(),
            floats,
        }
    }

    fn pop_value(&mut self, w: usize) -> (r: Result<u64, MachineError>)
        requires
            w <= 8,
        ensures
            final(self).heap == old(self).heap,
            final(self).instructions == old(self).instructions,
            old(self).stack@.len() >= w ==> r == Ok::<u64, MachineError>(
                top_value(old(self).stack@, w as nat) as u64,
            ) && final(self).stack@ == below(old(self).stack@, w as nat) && top_value(
                old(self).stack@,
                w as nat,
            ) < pow256(w as nat),
            old(self).stack@.len() < w ==> r == Err::<u64, MachineError>(
                MachineError::Stack(StackError::Underflow),
            ),
    {
        match self.stack.pop_le(w) {
            Ok(v) => Ok(v),
            Err(e) => Err(MachineError::Stack(e)),
        }
    }

    fn push_value(&mut self, v: u64, w: usize)
        requires
            w <= 8,
            v < pow256(w as nat),
        ensures
            final(self).heap == old(self).heap,
            final(self).instructions == old(self).instructions,
            final(self).stack@ == old(self).stack@ + le_bytes(v as nat, w as nat),
    {
        let _ = self.stack.push_le(v, w);
    }

    /// Pops a non-null reference and takes one stack reference from its
    /// object.
    fn pop_reference(&mut self) -> (r: Result<ObjectReference, MachineError>)
        requires
            old(self).heap.wf(),
        ensures
            final(self).heap.wf(),
            final(self).instructions == old(self).instructions,
            match pop_reference_spec(old(self).state()) {
                Ok((id, s)) => r matches Ok(o) && o@ == id && final(self).state() == s,
                Err(e) => r == Err::<ObjectReference, MachineError>(e),
            },
    {
        let v = match self.pop_value(8) {
            Ok(v) => v,
            Err(e) => return Err(e),
        };
        let o = match ObjectReference::new_result(v) {
            Ok(o) => o,
            Err(e) => return Err(MachineError::Heap(e)),
        };
        match self.heap.decrement_stack_references(o) {
            Ok(()) => Ok(o),
            Err(e) => Err(MachineError::Heap(e)),
        }
    }

    fn exec_alloc(&mut self) -> (r: Result<(), MachineError>)
        requires
            old(self).heap.wf(),
        ensures
            final(self).heap.wf(),
            final(self).instructions == old(self).instructions,
            outcome(r, alloc_spec(old(self).state()), final(self).state()),
    {
        proof {
            lemma_pow256_values();
        }
        let n_children = self.pop_value(8)?;
        let n_data = self.pop_value(8)?;
        if n_children > usize::MAX as u64 || n_data > usize::MAX as u64 {
            return Err(MachineError::Heap(HeapError::Allocation));
        }
        let o = match self.heap.allocate(n_children as usize, n_data as usize) {
            Ok(o) => o,
            Err(e) => return Err(MachineError::Heap(e)),
        };
        self.push_value(o.get(), 8);
        Ok(())
    }

    fn exec_copy_ref(&mut self) -> (r: Result<(), MachineError>)
        requires
            old(self).heap.wf(),
        ensures
            final(self).heap.wf(),
            final(self).instructions == old(self).instructions,
            outcome(r, copy_ref_spec(old(self).state()), final(self).state()),
    {
        proof {
            lemma_pow256_values();
        }
        let v = self.pop_value(8)?;
        let o = match ObjectReference::new_result(v) {
            Ok(o) => o,
            Err(e) => return Err(MachineError::Heap(e)),
        };
        match self.heap.increment_stack_references(&o) {
            Ok(_) => {},
            Err(e) => return Err(MachineError::Heap(e)),
        }
        self.push_value(v, 8);
        self.push_value(v, 8);
        Ok(())
    }

    fn exec_set_child(&mut self) -> (r: Result<(), MachineError>)
        requires
            old(self).heap.wf(),
        ensures
            final(self).heap.wf(),
            final(self).instructions == old(self).instructions,
            outcome(r, set_child_instr_spec(old(self).state()), final(self).state()),
    {
        proof {
            lemma_pow256_values();
        }
        let parent = self.pop_reference()?;
        let index = self.pop_value(8)?;
        let c = self.pop_value(8)?;
        let child = ObjectReference::new_option(c);
        match child {
            Some(o) => match self.heap.decrement_stack_references(o) {
                Ok(()) => {},
                Err(e) => return Err(MachineError::Heap(e)),
            },
            None => {},
        }
        match self.heap.set_child(&parent, saturate(index), child.as_ref()) {
            Ok(()) => Ok(()),
            Err(e) => Err(MachineError::Heap(e)),
        }
    }

    fn exec_get_child(&mut self) -> (r: Result<(), MachineError>)
        requires
            old(self).heap.wf(),
        ensures
            final(self).heap.wf(),
            final(self).instructions == old(self).instructions,
            outcome(r, get_child_instr_spec(old(self).state()), final(self).state()),
    {
        proof {
            lemma_pow256_values();
        }
        let parent = self.pop_reference()?;
        let index = self.pop_value(8)?;
        match self.heap.get_child(&parent, saturate(index)) {
            Err(e) => Err(MachineError::Heap(e)),
            Ok(None) => {
                self.push_value(0, 8);
                Ok(())
            },
            Ok(Some(c)) => {
                match self.heap.increment_stack_references(&c) {
                    Ok(_) => {},
                    Err(e) => return Err(MachineError::Heap(e)),
                }
                self.push_value(c.get(), 8);
                Ok(())
            },
        }
    }

    fn exec_mov_st_hp(&mut self, w: usize) -> (r: Result<(), MachineError>)
        requires
            old(self).heap.wf(),
            width_ok(w as nat),
        ensures
            final(self).heap.wf(),
            final(self).instructions == old(self).instructions,
            outcome(r, mov_st_hp_spec(old(self).state(), w as nat), final(self).state()),
    {
        proof {
            lemma_pow256_values();
        }
        let o = self.pop_reference()?;
        let start = self.pop_value(8)?;
        let data = match self.stack.pop_slice(w) {
            Ok(d) => d,
            Err(e) => return Err(MachineError::Stack(e)),
        };
        match self.heap.set_data_slice(&o, saturate(start), data.as_slice()) {
            Ok(()) => Ok(()),
            Err(e) => Err(MachineError::Heap(e)),
        }
    }

    fn exec_mov_hp_st(&mut self, w: usize) -> (r: Result<(), MachineError>)
        requires
            old(self).heap.wf(),
            width_ok(w as nat),
        ensures
            final(self).heap.wf(),
            final(self).instructions == old(self).instructions,
            outcome(r, mov_hp_st_spec(old(self).state(), w as nat), final(self).state()),
    {
        proof {
            lemma_pow256_values();
        }
        let o = self.pop_reference()?;
        let start = self.pop_value(8)?;
        match self.heap.get_data_slice(&o, saturate(start), w) {
            Err(e) => Err(MachineError::Heap(e)),
            Ok(d) => {
                let _ = self.stack.push_slice(d);
                Ok(())
            },
        }
    }

    fn exec_jsr(&mut self) -> (r: Result<(), MachineError>)
        requires
            old(self).heap.wf(),
        ensures
            final(self).heap.wf(),
            final(self).instructions.source() == old(self).instructions.source(),
            r is Err ==> final(self).instructions.position() == old(self).instructions.position(),
            outcome(r, jsr_spec(old(self).state()), final(self).state()),
    {
        proof {
            lemma_pow256_values();
        }
        let address = self.pop_value(8)?;
        let next = self.instructions.stream_position();
        self.push_value(next, 8);
        self.instructions.seek(address);
        Ok(())
    }

    fn exec_ret(&mut self) -> (r: Result<(), MachineError>)
        requires
            old(self).heap.wf(),
        ensures
            final(self).heap.wf(),
            final(self).instructions.source() == old(self).instructions.source(),
            r is Err ==> final(self).instructions.position() == old(self).instructions.position(),
            outcome(r, ret_spec(old(self).state()), final(self).state()),
    {
        let address = self.pop_value(8)?;
        self.instructions.seek(address);
        Ok(())
    }

    fn exec_jump(&mut self, p: Predicate) -> (r: Result<(), MachineError>)
        requires
            old(self).heap.wf(),
        ensures
            final(self).heap.wf(),
            final(self).instructions.source() == old(self).instructions.source(),
            r is Err ==> final(self).instructions.position() == old(self).instructions.position(),
            outcome(r, jump_spec(old(self).state(), p), final(self).state()),
    {
        proof {
            lemma_pow256_values();
        }
        let c = self.pop_value(1)?;
        let o = match PossiblyOrdering::from_byte(c as u8) {
            Ok(o) => o,
            Err(e) => return Err(
                MachineError::InvalidInstruction(InvalidInstruction::from_comparison_byte(e)),
            ),
        };
        let address = self.pop_value(8)?;
        let taken = match p {
            Predicate::Eq => o.is_eq(),
            Predicate::Ne => o.is_ne(),
            Predicate::Ge => o.is_ge(),
            Predicate::Gt => o.is_gt(),
            Predicate::Le => o.is_le(),
            Predicate::Lt => o.is_lt(),
        };
        if taken {
            self.instructions.seek(address);
        }
        Ok(())
    }

    fn exec_compare(&mut self, kind: Operation, w: usize) -> (r: Result<(), MachineError>)
        requires
            old(self).heap.wf(),
            width_ok(w as nat),
            kind is CmpU || kind is CmpS || (kind is CmpF && (w == 4 || w == 8)),
        ensures
            final(self).heap.wf(),
            final(self).instructions == old(self).instructions,
            outcome(
                r,
                execute_spec_of_compare(old(self).state(), kind, w as nat),
                final(self).state(),
            ),
    {
        proof {
            lemma_pow256_values();
        }
        let a = self.pop_value(w)?;
        let b = self.pop_value(w)?;
        let o = match kind {
            Operation::CmpU => PossiblyOrdering::compare_u64(a, b),
            Operation::CmpS => PossiblyOrdering::compare_i64(signed_of(a, w), signed_of(b, w)),
            _ => PossiblyOrdering::compare_i64(total_order_key_of(a, w), total_order_key_of(b, w)),
        };
        let ghost before = self.stack@;
        let byte = o.to_byte();
        self.stack.push(byte);
        assert(self.stack@ =~= before + seq![byte]);
        Ok(())
    }

    fn exec_not(&mut self, w: usize) -> (r: Result<(), MachineError>)
        requires
            old(self).heap.wf(),
            width_ok(w as nat),
        ensures
            final(self).heap.wf(),
            final(self).instructions == old(self).instructions,
            outcome(
                r,
                if old(self).stack@.len() < w {
                    crate::semantics::underflow()
                } else {
                    Ok(
                        crate::semantics::with_stack(
                            old(self).state(),
                            below(old(self).stack@, w as nat) + le_bytes(
                                crate::semantics::not_value(
                                    top_value(old(self).stack@, w as nat),
                                    w as nat,
                                ),
                                w as nat,
                            ),
                        ),
                    )
                },
                final(self).state(),
            ),
    {
        proof {
            lemma_pow256_values();
        }
        let a = self.pop_value(w)?;
        let v = not_bits(a, w);
        self.push_value(v, w);
        Ok(())
    }

    /// The two-operand integer instructions: `a` of w bytes on top, then `b`
    /// (one byte for shifts).
    fn exec_binary(&mut self, op: Operation, w: usize) -> (r: Result<(), MachineError>)
        requires
            old(self).heap.wf(),
            width_ok(w as nat),
            op is And || op is Or || op is Xor || op is Shl || op is Shr || op is Sar || op is Add
                || op is Sub || op is Mul,
        ensures
            final(self).heap.wf(),
            final(self).instructions == old(self).instructions,
            outcome(
                r,
                execute_spec_of_binary(old(self).state(), op, w as nat),
                final(self).state(),
            ),
    {
        proof {
            lemma_pow256_values();
        }
        let shift = matches!(op, Operation::Shl | Operation::Shr | Operation::Sar);
        let a = self.pop_value(w)?;
        let b = self.pop_value(if shift {
            1
        } else {
            w
        })?;
        let v = match op {
            Operation::Shl => shl_bits(a, b, w),
            Operation::Shr => shr_bits(a, b, w),
            Operation::Sar => sar_bits(a, b, w),
            Operation::Add => add_bits(a, b, w),
            Operation::Sub => sub_bits(a, b, w),
            Operation::Mul => mul_bits(a, b, w),
            _ => bitwise_bits(op, a, b, w),
        };
        self.push_value(v, w);
        Ok(())
    }

    fn exec_div_rem(&mut self, signed: bool, w: usize) -> (r: Result<(), MachineError>)
        requires
            old(self).heap.wf(),
            width_ok(w as nat),
        ensures
            final(self).heap.wf(),
            final(self).instructions == old(self).instructions,
            outcome(
                r,
                execute_spec_of_div_rem(old(self).state(), signed, w as nat),
                final(self).state(),
            ),
    {
        proof {
            lemma_pow256_values();
        }
        let a = self.pop_value(w)?;
        let b = self.pop_value(w)?;
        let (q, m) = if signed {
            div_rem_signed(a, b, w)
        } else {
            div_rem_unsigned(a, b, w)
        };
        self.push_value(q, w);
        self.push_value(m, w);
        Ok(())
    }

    /// A floating-point instruction: the operands' bit patterns go to the
    /// float unit and its result is pushed.
    fn exec_float(&mut self, f: FloatOp, w: usize) -> (r: Result<(), MachineError>)
        requires
            old(self).heap.wf(),
            w == 4 || w == 8,
            f is Widen ==> w == 4,
            f is Narrow ==> w == 8,
        ensures
            final(self).heap.wf(),
            final(self).instructions == old(self).instructions,
            old(self).stack@.len() < float_shape(f, w as nat).0 ==> r == Err::<(), MachineError>(
                MachineError::Stack(StackError::Underflow),
            ),
            old(self).stack@.len() >= float_shape(f, w as nat).0 ==> exists|result: Seq<u8>|
                result.len() == float_shape(f, w as nat).1 && outcome(
                    r,
                    float_spec(old(self).state(), f, w as nat, result),
                    final(self).state(),
                ),
    {
        proof {
            lemma_pow256_values();
        }
        let ghost s0 = self.stack@;
        let (v, out) = match f {
            FloatOp::Arith(op) => {
                let a = self.pop_value(w)?;
                let b = self.pop_value(w)?;
                assert(below(below(s0, w as nat), w as nat) =~= below(s0, 2 * w as nat));
                if w == 4 {
                    (self.floats.binary32(op, a as u32, b as u32) as u64, 4)
                } else {
                    (self.floats.binary64(op, a, b), 8)
                }
            },
            FloatOp::FromU64 => {
                let a = self.pop_value(8)?;
                if w == 4 {
                    (self.floats.u64_to_f32(a) as u64, 4)
                } else {
                    (self.floats.u64_to_f64(a), 8)
                }
            },
            FloatOp::FromI64 => {
                let a = self.pop_value(8)?;
                let x = signed_of(a, 8);
                if w == 4 {
                    (self.floats.i64_to_f32(x) as u64, 4)
                } else {
                    (self.floats.i64_to_f64(x), 8)
                }
            },
            FloatOp::ToU64 => {
                let a = self.pop_value(w)?;
                if w == 4 {
                    (self.floats.f32_to_u64(a as u32), 8)
                } else {
                    (self.floats.f64_to_u64(a), 8)
                }
            },
            FloatOp::ToI64 => {
                let a = self.pop_value(w)?;
                let x = if w == 4 {
                    self.floats.f32_to_i64(a as u32)
                } else {
                    self.floats.f64_to_i64(a)
                };
                (unsigned_of(x, 8), 8)
            },
            FloatOp::Widen => {
                let a = self.pop_value(4)?;
                (self.floats.f32_to_f64(a as u32), 8)
            },
            FloatOp::Narrow => {
                let a = self.pop_value(8)?;
                (self.floats.f64_to_f32(a) as u64, 4)
            },
        };
        self.push_value(v, out);
        proof {
            lemma_le_bytes_len(v as nat, out as nat);
            assert(float_shape(f, w as nat).1 == out);
        }
        Ok(())
    }

    /// Executes one decoded instruction.
    ///
    /// Every instruction but the floating-point ones does exactly what
    /// `execute_spec` states; a floating-point instruction pops its operands
    /// and pushes as many bytes as its result has, which the float unit
    /// computed.
    pub fn execute(&mut self, instruction: Instruction) -> (r: Result<(), MachineError>)
        requires
            old(self).heap.wf(),
        ensures
            final(self).heap.wf(),
            final(self).instructions.source() == old(self).instructions.source(),
            r is Err ==> final(self).instructions.position() == old(self).instructions.position(),
            !is_float(instruction) ==> outcome(
                r,
                execute_spec(old(self).state(), instruction, Seq::empty()),
                final(self).state(),
            ),
            is_float(instruction) ==> exists|result: Seq<u8>|
                result.len() == float_shape(
                    operation(instruction).0->Float_0,
                    operation(instruction).1,
                ).1 && outcome(
                    r,
                    execute_spec(old(self).state(), instruction, result),
                    final(self).state(),
                ),
    {
        let (op, w) = operation_of(&instruction);
        assert(op == operation(instruction).0 && w as nat == operation(instruction).1);
        match op {
            Operation::Push => {
                match instruction {
                    Instruction::PSH_1(v) => {
                        let _ = self.stack.push_slice(vstd::array::array_as_slice(&v));
                    },
                    Instruction::PSH_2(v) => {
                        let _ = self.stack.push_slice(vstd::array::array_as_slice(&v));
                    },
                    Instruction::PSH_4(v) => {
                        let _ = self.stack.push_slice(vstd::array::array_as_slice(&v));
                    },
                    Instruction::PSH_8(v) => {
                        let _ = self.stack.push_slice(vstd::array::array_as_slice(&v));
                    },
                    _ => {
                        assert(self.stack@ =~= old(self).stack@ + Seq::<u8>::empty());
                    },
                }
                Ok(())
            },
            Operation::Pop => match self.stack.remove_top(w) {
                Ok(()) => Ok(()),
                Err(e) => Err(MachineError::Stack(e)),
            },
            Operation::Alloc => self.exec_alloc(),
            Operation::CopyRef => self.exec_copy_ref(),
            Operation::SetChild => self.exec_set_child(),
            Operation::GetChild => self.exec_get_child(),
            Operation::MovStHp => self.exec_mov_st_hp(w),
            Operation::MovHpSt => self.exec_mov_hp_st(w),
            Operation::Jsr => self.exec_jsr(),
            Operation::Ret => self.exec_ret(),
            Operation::Jump(p) => self.exec_jump(p),
            Operation::CmpU => self.exec_compare(op, w),
            Operation::CmpS => self.exec_compare(op, w),
            Operation::CmpF => self.exec_compare(op, w),
            Operation::Not => self.exec_not(w),
            Operation::DivRemU => self.exec_div_rem(false, w),
            Operation::DivRemS => self.exec_div_rem(true, w),
            Operation::Float(f) => {
                let r = self.exec_float(f, w);
                proof {
                    let filler = Seq::new(float_shape(f, w as nat).1, |k: int| 0u8);
                    if old(self).stack@.len() < float_shape(f, w as nat).0 {
                        assert(outcome(r, execute_spec(old(self).state(), instruction, filler), self.state()));
                        assert(filler.len() == float_shape(
                            operation(instruction).0->Float_0,
                            operation(instruction).1,
                        ).1);
                    } else {
                        let res = choose|result: Seq<u8>|
                            result.len() == float_shape(f, w as nat).1 && outcome(
                                r,
                                float_spec(old(self).state(), f, w as nat, result),
                                self.state(),
                            );
                        assert(outcome(r, execute_spec(old(self).state(), instruction, res), self.state()));
                        assert(res.len() == float_shape(
                            operation(instruction).0->Float_0,
                            operation(instruction).1,
                        ).1);
                    }
                }
                r
            },
            Operation::CallExt => Err(MachineError::UnimplementedInstruction(106)),
            _ => self.exec_binary(op, w),
        }
    }

    /// Fetches the instruction at the current position, moves past it, and
    /// executes it.
    ///
    /// A decoding error (`EndOfInstructions` at the end of the stream) comes
    /// back without an instruction; an error of execution comes back with the
    /// instruction that failed.
    pub fn step(&mut self) -> (r: Result<(), (MachineError, Option<Instruction>)>)
        requires
            old(self).heap.wf(),
        ensures
            final(self).heap.wf(),
            final(self).instructions.source() == old(self).instructions.source(),
            match decode_error(
                remaining(old(self).instructions.source(), old(self).instructions.position()),
            ) {
                Some(e) => r == Err::<(), (MachineError, Option<Instruction>)>((e, None))
                    && final(self).stack@ == old(self).stack@ && final(self).heap@ == old(self).heap@
                    && final(self).heap.next_id() == old(self).heap.next_id(),
                None => exists|i: Instruction, result: Seq<u8>|
                    decodes_to(
                        remaining(old(self).instructions.source(), old(self).instructions.position()),
                        i,
                    ) && (!is_float(i) ==> result == Seq::<u8>::empty()) && (is_float(i)
                        ==> result.len() == float_shape(
                        operation(i).0->Float_0,
                        operation(i).1,
                    ).1) && (r is Err ==> final(self).instructions.position() == after_fetch(
                        old(self).state(),
                        i,
                    ).position) && #[trigger] step_outcome(
                        r,
                        i,
                        execute_spec(after_fetch(old(self).state(), i), i, result),
                        final(self).state(),
                    ),
            },
    {
        let ghost s0 = self.state();
        let instruction = match Instruction::from_reader(&mut self.instructions) {
            Ok(i) => i,
            Err(e) => return Err((e, None)),
        };
        let ghost mid = self.state();
        assert(mid == after_fetch(s0, instruction));
        let r = self.execute(instruction);
        let out = match r {
            Ok(()) => Ok(()),
            Err(e) => Err((e, Some(instruction))),
        };
        proof {
            if is_float(instruction) {
                let res = choose|result: Seq<u8>|
                    result.len() == float_shape(
                        operation(instruction).0->Float_0,
                        operation(instruction).1,
                    ).1 && outcome(r, execute_spec(mid, instruction, result), self.state());
                assert(step_outcome(out, instruction, execute_spec(mid, instruction, res), self.state()));
            } else {
                assert(step_outcome(
                    out,
                    instruction,
                    execute_spec(mid, instruction, Seq::empty()),
                    self.state(),
                ));
            }
        }
        out
    }

}

/// An index or offset read from the stack, as a `usize`; one past what a
/// `usize` holds becomes `usize::MAX`, which is past every object's slots and
/// data as well.
fn saturate(x: u64) -> (r: usize)
    ensures
        r == if x > usize::MAX {
            usize::MAX as int
        } else {
            x as int
        },
{
    if x > usize::MAX as u64 {
        usize::MAX
    } else {
        x as usize
    }
}

/// The two-operand integer instructions, as `execute_spec` states them.
pub open spec fn execute_spec_of_binary(s: MachineState, op: Operation, w: nat) -> Result<
    MachineState,
    MachineError,
> {
    match op {
        Operation::And => crate::semantics::binary_spec(s, w, w, |a: nat, b: nat| crate::semantics::and_value(a, b)),
        Operation::Or => crate::semantics::binary_spec(s, w, w, |a: nat, b: nat| crate::semantics::or_value(a, b)),
        Operation::Xor => crate::semantics::binary_spec(s, w, w, |a: nat, b: nat| crate::semantics::xor_value(a, b)),
        Operation::Shl => crate::semantics::binary_spec(s, w, 1, |a: nat, c: nat| crate::semantics::shl_value(a, c, w)),
        Operation::Shr => crate::semantics::binary_spec(s, w, 1, |a: nat, c: nat| crate::semantics::shr_value(a, c, w)),
        Operation::Sar => crate::semantics::binary_spec(s, w, 1, |a: nat, c: nat| crate::semantics::sar_value(a, c, w)),
        Operation::Add => crate::semantics::binary_spec(s, w, w, |a: nat, b: nat| crate::semantics::add_value(a, b, w)),
        Operation::Sub => crate::semantics::binary_spec(s, w, w, |a: nat, b: nat| crate::semantics::sub_value(a, b, w)),
        _ => crate::semantics::binary_spec(s, w, w, |a: nat, b: nat| crate::semantics::mul_value(a, b, w)),
    }
}

/// The division instructions, as `execute_spec` states them.
pub open spec fn execute_spec_of_div_rem(s: MachineState, signed: bool, w: nat) -> Result<
    MachineState,
    MachineError,
> {
    if signed {
        div_rem_spec(
            s,
            w,
            |a: nat, b: nat|
                crate::compute_stack::to_unsigned(
                    crate::semantics::sdiv_value(
                        crate::compute_stack::to_signed(a as int, w),
                        crate::compute_stack::to_signed(b as int, w),
                        w,
                    ),
                    w,
                ),
            |a: nat, b: nat|
                crate::compute_stack::to_unsigned(
                    crate::semantics::srem_value(
                        crate::compute_stack::to_signed(a as int, w),
                        crate::compute_stack::to_signed(b as int, w),
                    ),
                    w,
                ),
        )
    } else {
        div_rem_spec(
            s,
            w,
            |a: nat, b: nat| crate::semantics::udiv_value(a, b, w),
            |a: nat, b: nat| crate::semantics::urem_value(a, b),
        )
    }
}

/// The comparison instructions, as `execute_spec` states them.
pub open spec fn execute_spec_of_compare(s: MachineState, kind: Operation, w: nat) -> Result<
    MachineState,
    MachineError,
> {
    match kind {
        Operation::CmpU => compare_spec(s, w, |a: nat| a as int),
        Operation::CmpS => compare_spec(s, w, |a: nat| crate::compute_stack::to_signed(a as int, w)),
        _ => compare_spec(s, w, |a: nat| crate::semantics::total_order_key(a, w)),
    }
}

} // verus!
