//! A small stack-based bytecode virtual machine: an untyped little-endian byte
//! stack, a managed object heap with a tracing collector, a decoder and encoder
//! for the instruction set, and the interpreter that binds them together.
use vstd::prelude::*;

pub mod possibly_ordering;
pub mod infallible_division;
pub mod compute_stack;
pub mod compute_heap;
pub mod instruction;
pub mod program;
pub mod semantics;
pub mod machine;

pub use compute_heap::{Heap, HeapError, HeapResult, Object, ObjectReference};
pub use compute_stack::{ComputeStack, StackError, StackResult};
pub use infallible_division::InfallibleDivision;
pub use instruction::{Instruction, InvalidInstruction};
pub use machine::{Machine, MachineError};
pub use possibly_ordering::{InvalidComparisonByte, PossiblyOrdering};
pub use program::{BytecodeCursor, InstructionReceiver, ReadSeek};
pub use semantics::{FloatArith, FloatUnit};

verus! {

} // verus!
