//! Instruction streams: a seekable byte source that the machine reads
//! instructions from, and the encoder that writes them.
use vstd::prelude::*;
use crate::instruction::{Instruction, encoding};

verus! {

/// The bytes of `source` from `position` on; none when `position` is past
/// the end.
pub open spec fn remaining(source: Seq<u8>, position: u64) -> Seq<u8> {
    if position <= source.len() {
        source.subrange(position as int, source.len() as int)
    } else {
        Seq::empty()
    }
}

/// A byte source with a position that can be read and set. Its position is
/// the machine's program counter.
pub trait ReadSeek {
    /// All bytes of the source.
    spec fn source(&self) -> Seq<u8>;

    /// The position of the next byte to read; it may lie past the end.
    spec fn position(&self) -> u64;

    /// Reads the byte at the position and moves past it; `None` at the end.
    fn read_byte(&mut self) -> (r: Option<u8>)
        ensures
            final(self).source() == old(self).source(),
            old(self).position() < old(self).source().len() ==> r == Some(
                old(self).source()[old(self).position() as int],
            ) && final(self).position() == old(self).position() + 1,
            old(self).position() >= old(self).source().len() ==> r is None && final(self).position() == old(self).position(),
    ;

    fn stream_position(&self) -> (r: u64)
        ensures
            r == self.position(),
    ;

    /// Moves to an absolute position.
    fn seek(&mut self, position: u64)
        ensures
            final(self).source() == old(self).source(),
            final(self).position() == position,
    ;
}

/// An instruction stream held in memory.
#[derive(Debug)]
pub struct BytecodeCursor {
    bytes: Vec<u8>,
    position: u64,
}

impl BytecodeCursor {
    /// A stream over `bytes`, positioned at its start.
    pub fn new(bytes: Vec<u8>) -> (r: BytecodeCursor)
        ensures
            r.source() == bytes@,
            r.position() == 0,
    {
        BytecodeCursor { bytes, position: 0 }
    }
}

impl ReadSeek for BytecodeCursor {
    closed spec fn source(&self) -> Seq<u8> {
        self.bytes@
    }

    closed spec fn position(&self) -> u64 {
        self.position
    }

    fn read_byte(&mut self) -> (r: Option<u8>) {
        let len = self.bytes.len();
        if self.position < len as u64 {
            let b = self.bytes[self.position as usize];
            self.position = self.position + 1;
            Some(b)
        } else {
            None
        }
    }

    fn stream_position(&self) -> (r: u64) {
        self.position
    }

    fn seek(&mut self, position: u64) {
        self.position = position;
    }
}

/// A sink for instructions in their binary form.
pub trait InstructionReceiver {
    spec fn written(&self) -> Seq<u8>;

    /// Appends the encoding of `instruction`.
    fn instruct(&mut self, instruction: Instruction)
        ensures
            final(self).written() == old(self).written() + encoding(instruction),
    ;

    /// Appends a call to a subroutine whose address is filled in later: a
    /// push of eight zero bytes and a `JSR`. `location` receives the offset of
    /// the eight address bytes.
    fn push_jump_marker(&mut self, location: &mut usize)
        ensures
            final(self).written() == old(self).written() + seq![3u8] + Seq::new(8, |i: int| 0u8)
                + encoding(Instruction::JSR),
            *final(location) == old(self).written().len() + 1,
    ;

    /// Writes `address` into the eight bytes at `location`.
    fn assign_jump_marker(&mut self, location: usize, address: u64)
        requires
            location + 8 <= old(self).written().len(),
        ensures
            final(self).written() == old(self).written().subrange(0, location as int)
                + crate::compute_stack::le_bytes(address as nat, 8) + old(self).written().subrange(location + 8, old(self).written().len() as int),
    ;

    /// Writes the current length, the address of the next instruction, into
    /// the eight bytes at `location`.
    fn assign_jump_marker_here(&mut self, location: usize)
        requires
            location + 8 <= old(self).written().len(),
        ensures
            final(self).written() == old(self).written().subrange(0, location as int)
                + crate::compute_stack::le_bytes(old(self).written().len(), 8) + old(self).written().subrange(location + 8, old(self).written().len() as int),
    ;
}
impl InstructionReceiver for Vec<u8> {
    open spec fn written(&self) -> Seq<u8> {
        self@
    }

    fn instruct(&mut self, instruction: Instruction) {
        let op = instruction.opcode();
        self.push(op);
        match instruction {
            Instruction::PSH_1(v) => {
                self.push(v[0]);
                assert(self@ =~= old(self)@ + encoding(instruction));
            },
            Instruction::PSH_2(v) => {
                self.push(v[0]);
                self.push(v[1]);
                assert(self@ =~= old(self)@ + encoding(instruction));
            },
            Instruction::PSH_4(v) => {
                let mut k: usize = 0;
                while k < 4
                    invariant
                        k <= 4,
                        self@ == old(self)@ + seq![op] + v@.subrange(0, k as int),
                    decreases 4 - k,
                {
                    self.push(v[k]);
                    k = k + 1;
                    assert(self@ =~= old(self)@ + seq![op] + v@.subrange(0, k as int));
                }
                assert(self@ =~= old(self)@ + encoding(instruction));
            },
            Instruction::PSH_8(v) => {
                let mut k: usize = 0;
                while k < 8
                    invariant
                        k <= 8,
                        self@ == old(self)@ + seq![op] + v@.subrange(0, k as int),
                    decreases 8 - k,
                {
                    self.push(v[k]);
                    k = k + 1;
                    assert(self@ =~= old(self)@ + seq![op] + v@.subrange(0, k as int));
                }
                assert(self@ =~= old(self)@ + encoding(instruction));
            },
            _ => {
                assert(self@ =~= old(self)@ + encoding(instruction));
            },
        }
    }

    fn push_jump_marker(&mut self, location: &mut usize) {
        let ghost start = self@;
        self.push(3);
        *location = self.len();
        let mut k: usize = 0;
        while k < 8
            invariant
                k <= 8,
                self@ == start + seq![3u8] + Seq::new(k as nat, |i: int| 0u8),
            decreases 8 - k,
        {
            self.push(0);
            k = k + 1;
            assert(self@ =~= start + seq![3u8] + Seq::new(k as nat, |i: int| 0u8));
        }
        self.instruct(Instruction::JSR);
    }

    fn assign_jump_marker(&mut self, location: usize, address: u64) {
        let ghost start = self@;
        let n = self.len();
        let mut x: u64 = address;
        let mut k: usize = 0;
        while k < 8
            invariant
                k <= 8,
                location + 8 <= start.len(),
                n == start.len(),
                self@.len() == start.len(),
                crate::compute_stack::le_bytes(address as nat, 8) == Seq::new(k as nat, |i: int| self@[location + i])
                    + crate::compute_stack::le_bytes(x as nat, (8 - k) as nat),
                forall|i: int| 0 <= i < start.len() && !(location + k <= i < location + 8) && !(location <= i < location + k) ==> self@[i] == start[i],
                forall|i: int| location + k <= i < location + 8 ==> self@[i] == start[i],
            decreases 8 - k,
        {
            let ghost x0 = x as nat;
            let ghost before = self@;
            assert(crate::compute_stack::le_bytes(x0, (8 - k) as nat) == seq![(x0 % 256) as u8]
                + crate::compute_stack::le_bytes(x0 / 256, (8 - k - 1) as nat));
            let at = location + k;
            self[at] = (x % 256) as u8;
            x = x / 256;
            k = k + 1;
            assert(Seq::new(k as nat, |i: int| self@[location + i]) =~= Seq::new(
                (k - 1) as nat,
                |i: int| before[location + i],
            ).push((x0 % 256) as u8));
            assert(crate::compute_stack::le_bytes(address as nat, 8) =~= Seq::new(k as nat, |i: int| self@[location + i])
                + crate::compute_stack::le_bytes(x as nat, (8 - k) as nat));
        }
        assert(crate::compute_stack::le_bytes(x as nat, 0) =~= Seq::<u8>::empty());
        assert(self@ =~= start.subrange(0, location as int) + crate::compute_stack::le_bytes(address as nat, 8)
            + start.subrange(location + 8, start.len() as int));
    }

    fn assign_jump_marker_here(&mut self, location: usize) {
        let len = self.len();
        self.assign_jump_marker(location, len as u64);
    }
}

} // verus!
