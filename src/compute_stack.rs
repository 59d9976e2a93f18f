//! The compute stack: an untyped byte stack on which values of 1, 2, 4 or 8
//! bytes are pushed and popped in little-endian order.
use vstd::prelude::*;

verus! {

/// `256` to the power `w`: the number of values that `w` bytes can hold.
pub open spec fn pow256(w: nat) -> nat
    decreases w,
{
    if w == 0 {
        1
    } else {
        256 * pow256((w - 1) as nat)
    }
}

/// The unsigned value of bytes read in little-endian order.
pub open spec fn le_value(s: Seq<u8>) -> nat
    decreases s.len(),
{
    if s.len() == 0 {
        0
    } else {
        s[0] as nat + 256 * le_value(s.drop_first())
    }
}

/// The `w` low bytes of `v`, least significant first.
pub open spec fn le_bytes(v: nat, w: nat) -> Seq<u8>
    decreases w,
{
    if w == 0 {
        Seq::empty()
    } else {
        seq![(v % 256) as u8] + le_bytes(v / 256, (w - 1) as nat)
    }
}

/// The two's complement reading of an unsigned value of `w` bytes.
pub open spec fn to_signed(u: int, w: nat) -> int {
    if u >= pow256(w) / 2 {
        u - pow256(w)
    } else {
        u
    }
}

/// The unsigned value of `w` bytes whose two's complement reading is `s`.
pub open spec fn to_unsigned(s: int, w: nat) -> nat {
    if s < 0 {
        (s + pow256(w)) as nat
    } else {
        s as nat
    }
}

/// The top `w` bytes of a stack, in their order on the stack.
pub open spec fn top(s: Seq<u8>, w: nat) -> Seq<u8> {
    s.subrange(s.len() - w, s.len() as int)
}

/// A stack without its top `w` bytes.
pub open spec fn below(s: Seq<u8>, w: nat) -> Seq<u8> {
    s.subrange(0, s.len() - w)
}

/// The unsigned value of the top `w` bytes of a stack.
pub open spec fn top_value(s: Seq<u8>, w: nat) -> nat {
    le_value(top(s, w))
}

pub proof fn lemma_pow256_values()
    ensures
        pow256(0) == 1,
        pow256(1) == 0x100,
        pow256(2) == 0x1_0000,
        pow256(3) == 0x100_0000,
        pow256(4) == 0x1_0000_0000,
        pow256(5) == 0x100_0000_0000,
        pow256(6) == 0x1_0000_0000_0000,
        pow256(7) == 0x100_0000_0000_0000,
        pow256(8) == 0x1_0000_0000_0000_0000,
{
    assert(pow256(0) == 1);
    assert(pow256(1) == 0x100);
    assert(pow256(2) == 0x1_0000);
    assert(pow256(3) == 0x100_0000);
    assert(pow256(4) == 0x1_0000_0000);
    assert(pow256(5) == 0x100_0000_0000);
    assert(pow256(6) == 0x1_0000_0000_0000);
    assert(pow256(7) == 0x100_0000_0000_0000);
    assert(pow256(8) == 0x1_0000_0000_0000_0000);
}

pub proof fn lemma_le_bytes_len(v: nat, w: nat)
    ensures
        le_bytes(v, w).len() == w,
    decreases w,
{
    if w > 0 {
        lemma_le_bytes_len(v / 256, (w - 1) as nat);
    }
}

/// The value of `w` bytes is below `256^w`.
pub proof fn lemma_le_value_bound(s: Seq<u8>)
    ensures
        le_value(s) < pow256(s.len()),
    decreases s.len(),
{
    if s.len() > 0 {
        lemma_le_value_bound(s.drop_first());
        let r = le_value(s.drop_first());
        let p = pow256((s.len() - 1) as nat);
        assert(s[0] as nat + 256 * r < 256 * p) by (nonlinear_arith)
            requires
                r < p,
                s[0] < 256,
        ;
    }
}

/// Writing a value in `w` bytes and reading them back gives the value modulo
/// `256^w`.
pub proof fn lemma_le_round_trip(v: nat, w: nat)
    ensures
        le_value(le_bytes(v, w)) == v % pow256(w),
    decreases w,
{
    lemma_le_bytes_len(v, w);
    if w > 0 {
        let rest = le_bytes(v / 256, (w - 1) as nat);
        lemma_le_round_trip(v / 256, (w - 1) as nat);
        assert(le_bytes(v, w).drop_first() =~= rest);
        let p = pow256((w - 1) as nat);
        assert(p > 0) by {
            lemma_pow256_positive((w - 1) as nat);
        }
        vstd::arithmetic::div_mod::lemma_mod_breakdown(v as int, 256, p as int);
        assert((v % 256) as u8 as nat == v % 256);
    }
}

pub proof fn lemma_pow256_positive(w: nat)
    ensures
        pow256(w) > 0,
    decreases w,
{
    if w > 0 {
        lemma_pow256_positive((w - 1) as nat);
    }
}

/// A value that fits in `w` bytes survives being written and read back.
pub proof fn lemma_le_value_of_bytes(v: nat, w: nat)
    requires
        v < pow256(w),
    ensures
        le_value(le_bytes(v, w)) == v,
        le_bytes(v, w).len() == w,
{
    lemma_le_round_trip(v, w);
    lemma_le_bytes_len(v, w);
    vstd::arithmetic::div_mod::lemma_small_mod(v, pow256(w));
}

/// Reading the bytes one further down adds the lower byte.
proof fn lemma_le_value_extend(s: Seq<u8>, i: int, n: int)
    requires
        0 < i <= n <= s.len(),
    ensures
        le_value(s.subrange(i - 1, n)) == s[i - 1] as nat + 256 * le_value(s.subrange(i, n)),
{
    assert(s.subrange(i - 1, n).drop_first() =~= s.subrange(i, n));
}

/// The operand widths of the integer instructions.
pub open spec fn width_ok(w: nat) -> bool {
    w == 1 || w == 2 || w == 4 || w == 8
}

/// The largest value of w bytes.
pub fn mask_of(w: usize) -> (r: u64)
    requires
        width_ok(w as nat),
    ensures
        r == pow256(w as nat) - 1,
{
    proof {
        lemma_pow256_values();
    }
    if w == 1 {
        0xff
    } else if w == 2 {
        0xffff
    } else if w == 4 {
        0xffff_ffff
    } else {
        0xffff_ffff_ffff_ffff
    }
}

/// The two's complement reading of a value of w bytes.
pub fn signed_of(a: u64, w: usize) -> (r: i64)
    requires
        width_ok(w as nat),
        a < pow256(w as nat),
    ensures
        r == to_signed(a as int, w as nat),
        -(pow256(w as nat) / 2) <= r < pow256(w as nat) / 2,
{
    proof {
        lemma_pow256_values();
    }
    let mask = mask_of(w);
    let half = (mask / 2) + 1;
    if a < half {
        a as i64
    } else if w == 8 {
        ((a - half) as i64) + i64::MIN
    } else {
        (a as i64) - (mask as i64) - 1
    }
}

/// The value of w bytes whose two's complement reading is `s`.
pub fn unsigned_of(s: i64, w: usize) -> (r: u64)
    requires
        width_ok(w as nat),
        -(pow256(w as nat) / 2) <= s < pow256(w as nat) / 2,
    ensures
        r == to_unsigned(s as int, w as nat),
        r < pow256(w as nat),
{
    proof {
        lemma_pow256_values();
    }
    if s >= 0 {
        s as u64
    } else if w == 8 {
        ((s - i64::MIN) as u64) + 0x8000_0000_0000_0000u64
    } else {
        (s + (mask_of(w) as i64) + 1) as u64
    }
}

/// Pushing a value of w bytes and popping w bytes gives the value back and
/// leaves the stack as it was.
pub proof fn lemma_push_pop_round_trip(s: Seq<u8>, v: nat, w: nat)
    requires
        v < pow256(w),
    ensures
        top_value(s + le_bytes(v, w), w) == v,
        below(s + le_bytes(v, w), w) == s,
{
    lemma_le_value_of_bytes(v, w);
    let t = s + le_bytes(v, w);
    assert(top(t, w) =~= le_bytes(v, w));
    assert(below(t, w) =~= s);
}

/// The two's complement bytes of a signed value read back as that value.
pub proof fn lemma_signed_round_trip(v: int, w: nat)
    requires
        w > 0,
        -(pow256(w) / 2) <= v < pow256(w) / 2,
    ensures
        to_unsigned(v, w) < pow256(w),
        to_signed(to_unsigned(v, w) as int, w) == v,
{
    lemma_pow256_positive(w);
    assert(pow256(w) == 256 * pow256((w - 1) as nat));
}

/// Pushing bytes and popping as many gives them back in their order.
pub proof fn lemma_slice_round_trip(s: Seq<u8>, bytes: Seq<u8>)
    ensures
        top(s + bytes, bytes.len()) == bytes,
        below(s + bytes, bytes.len()) == s,
{
    assert(top(s + bytes, bytes.len()) =~= bytes);
    assert(below(s + bytes, bytes.len()) =~= s);
}

/// Errors of the compute stack.
#[derive(Clone, Copy, Debug, PartialEq, Eq, Structural)]
pub enum StackError {
    /// Fewer bytes are on the stack than an operation takes.
    Underflow,
    /// A bounded stack has no room for the bytes pushed.
    Overflow,
}

pub type StackResult<T> = Result<T, StackError>;

/// A byte stack with width-typed, little-endian push and pop.
///
/// Every pop fails with `Underflow`, and leaves the stack as it was, when the
/// stack holds fewer bytes than it takes. Pushes never fail.
pub trait ComputeStack {
    /// The bytes on the stack, bottom first.
    spec fn contents(&self) -> Seq<u8>;

    fn size(&self) -> (r: usize)
        ensures
            r == self.contents().len(),
    ;

    fn push_slice(&mut self, slice: &[u8]) -> (r: StackResult<()>)
        ensures
            r == Ok::<(), StackError>(()),
            final(self).contents() == old(self).contents() + slice@,
    ;

    /// Removes the top `length` bytes and returns them in their order on the
    /// stack.
    fn pop_slice(&mut self, length: usize) -> (r: StackResult<Vec<u8>>)
        ensures
            old(self).contents().len() >= length ==> (r matches Ok(v) && v@ == top(
                old(self).contents(),
                length as nat,
            ) && final(self).contents() == below(old(self).contents(), length as nat)),
            old(self).contents().len() < length ==> r == Err::<Vec<u8>, _>(StackError::Underflow)
                && final(self).contents() == old(self).contents(),
    ;

    /// Removes the top `length` bytes.
    fn remove_top(&mut self, length: usize) -> (r: StackResult<()>)
        ensures
            old(self).contents().len() >= length ==> r == Ok::<(), StackError>(())
                && final(self).contents() == below(old(self).contents(), length as nat),
            old(self).contents().len() < length ==> r == Err::<(), _>(StackError::Underflow)
                && final(self).contents() == old(self).contents(),
    ;

    /// Pushes the `width` low bytes of `value`, least significant first.
    fn push_le(&mut self, value: u64, width: usize) -> (r: StackResult<()>)
        requires
            width <= 8,
            value < pow256(width as nat),
        ensures
            r == Ok::<(), StackError>(()),
            final(self).contents() == old(self).contents() + le_bytes(value as nat, width as nat),
    ;

    /// Pops `width` bytes and reads them as an unsigned little-endian value.
    fn pop_le(&mut self, width: usize) -> (r: StackResult<u64>)
        requires
            width <= 8,
        ensures
            old(self).contents().len() >= width ==> r == Ok::<u64, StackError>(
                top_value(old(self).contents(), width as nat) as u64,
            ) && final(self).contents() == below(old(self).contents(), width as nat)
                && top_value(old(self).contents(), width as nat) < pow256(width as nat),
            old(self).contents().len() < width ==> r == Err::<u64, _>(StackError::Underflow)
                && final(self).contents() == old(self).contents(),
    ;

    fn push_u8(&mut self, value: u8) -> (r: StackResult<()>)
        ensures
            r == Ok::<(), StackError>(()),
            final(self).contents() == old(self).contents() + le_bytes(value as nat, 1),
    ;

    fn pop_u8(&mut self) -> (r: StackResult<u8>)
        ensures
            old(self).contents().len() >= 1 ==> r == Ok::<u8, StackError>(
                top_value(old(self).contents(), 1) as u8,
            ) && final(self).contents() == below(old(self).contents(), 1),
            old(self).contents().len() < 1 ==> r == Err::<u8, _>(StackError::Underflow)
                && final(self).contents() == old(self).contents(),
    ;

    fn push_u16(&mut self, value: u16) -> (r: StackResult<()>)
        ensures
            r == Ok::<(), StackError>(()),
            final(self).contents() == old(self).contents() + le_bytes(value as nat, 2),
    ;

    fn pop_u16(&mut self) -> (r: StackResult<u16>)
        ensures
            old(self).contents().len() >= 2 ==> r == Ok::<u16, StackError>(
                top_value(old(self).contents(), 2) as u16,
            ) && final(self).contents() == below(old(self).contents(), 2),
            old(self).contents().len() < 2 ==> r == Err::<u16, _>(StackError::Underflow)
                && final(self).contents() == old(self).contents(),
    ;

    fn push_u32(&mut self, value: u32) -> (r: StackResult<()>)
        ensures
            r == Ok::<(), StackError>(()),
            final(self).contents() == old(self).contents() + le_bytes(value as nat, 4),
    ;

    fn pop_u32(&mut self) -> (r: StackResult<u32>)
        ensures
            old(self).contents().len() >= 4 ==> r == Ok::<u32, StackError>(
                top_value(old(self).contents(), 4) as u32,
            ) && final(self).contents() == below(old(self).contents(), 4),
            old(self).contents().len() < 4 ==> r == Err::<u32, _>(StackError::Underflow)
                && final(self).contents() == old(self).contents(),
    ;

    fn push_u64(&mut self, value: u64) -> (r: StackResult<()>)
        ensures
            r == Ok::<(), StackError>(()),
            final(self).contents() == old(self).contents() + le_bytes(value as nat, 8),
    ;

    fn pop_u64(&mut self) -> (r: StackResult<u64>)
        ensures
            old(self).contents().len() >= 8 ==> r == Ok::<u64, StackError>(
                top_value(old(self).contents(), 8) as u64,
            ) && final(self).contents() == below(old(self).contents(), 8),
            old(self).contents().len() < 8 ==> r == Err::<u64, _>(StackError::Underflow)
                && final(self).contents() == old(self).contents(),
    ;

    /// Pushes the two's complement bytes of `value`.
    fn push_i8(&mut self, value: i8) -> (r: StackResult<()>)
        ensures
            r == Ok::<(), StackError>(()),
            final(self).contents() == old(self).contents() + le_bytes(to_unsigned(value as int, 1), 1),
    ;

    /// Pops 1 bytes and reads them in two's complement.
    fn pop_i8(&mut self) -> (r: StackResult<i8>)
        ensures
            old(self).contents().len() >= 1 ==> r == Ok::<i8, StackError>(
                to_signed(top_value(old(self).contents(), 1) as int, 1) as i8,
            ) && final(self).contents() == below(old(self).contents(), 1),
            old(self).contents().len() < 1 ==> r == Err::<i8, _>(StackError::Underflow)
                && final(self).contents() == old(self).contents(),
    ;

    /// Pushes the two's complement bytes of `value`.
    fn push_i16(&mut self, value: i16) -> (r: StackResult<()>)
        ensures
            r == Ok::<(), StackError>(()),
            final(self).contents() == old(self).contents() + le_bytes(to_unsigned(value as int, 2), 2),
    ;

    /// Pops 2 bytes and reads them in two's complement.
    fn pop_i16(&mut self) -> (r: StackResult<i16>)
        ensures
            old(self).contents().len() >= 2 ==> r == Ok::<i16, StackError>(
                to_signed(top_value(old(self).contents(), 2) as int, 2) as i16,
            ) && final(self).contents() == below(old(self).contents(), 2),
            old(self).contents().len() < 2 ==> r == Err::<i16, _>(StackError::Underflow)
                && final(self).contents() == old(self).contents(),
    ;

    /// Pushes the two's complement bytes of `value`.
    fn push_i32(&mut self, value: i32) -> (r: StackResult<()>)
        ensures
            r == Ok::<(), StackError>(()),
            final(self).contents() == old(self).contents() + le_bytes(to_unsigned(value as int, 4), 4),
    ;

    /// Pops 4 bytes and reads them in two's complement.
    fn pop_i32(&mut self) -> (r: StackResult<i32>)
        ensures
            old(self).contents().len() >= 4 ==> r == Ok::<i32, StackError>(
                to_signed(top_value(old(self).contents(), 4) as int, 4) as i32,
            ) && final(self).contents() == below(old(self).contents(), 4),
            old(self).contents().len() < 4 ==> r == Err::<i32, _>(StackError::Underflow)
                && final(self).contents() == old(self).contents(),
    ;

    /// Pushes the two's complement bytes of `value`.
    fn push_i64(&mut self, value: i64) -> (r: StackResult<()>)
        ensures
            r == Ok::<(), StackError>(()),
            final(self).contents() == old(self).contents() + le_bytes(to_unsigned(value as int, 8), 8),
    ;

    /// Pops 8 bytes and reads them in two's complement.
    fn pop_i64(&mut self) -> (r: StackResult<i64>)
        ensures
            old(self).contents().len() >= 8 ==> r == Ok::<i64, StackError>(
                to_signed(top_value(old(self).contents(), 8) as int, 8) as i64,
            ) && final(self).contents() == below(old(self).contents(), 8),
            old(self).contents().len() < 8 ==> r == Err::<i64, _>(StackError::Underflow)
                && final(self).contents() == old(self).contents(),
    ;
}

impl ComputeStack for Vec<u8> {
    open spec fn contents(&self) -> Seq<u8> {
        self@
    }

    fn size(&self) -> (r: usize) {
        self.len()
    }

    fn push_slice(&mut self, slice: &[u8]) -> (r: StackResult<()>) {
        let ghost start = self@;
        let mut i: usize = 0;
        while i < slice.len()
            invariant
                i <= slice@.len(),
                self@ == start + slice@.subrange(0, i as int),
            decreases slice@.len() - i,
        {
            self.push(slice[i]);
            i = i + 1;
            assert(self@ =~= start + slice@.subrange(0, i as int));
        }
        assert(slice@.subrange(0, i as int) =~= slice@);
        Ok(())
    }

    fn pop_slice(&mut self, length: usize) -> (r: StackResult<Vec<u8>>) {
        let len = self.len();
        if len >= length {
            let tail = self.split_off(len - length);
            Ok(tail)
        } else {
            Err(StackError::Underflow)
        }
    }

    fn remove_top(&mut self, length: usize) -> (r: StackResult<()>) {
        let len = self.len();
        if len >= length {
            self.truncate(len - length);
            Ok(())
        } else {
            Err(StackError::Underflow)
        }
    }

    fn push_le(&mut self, value: u64, width: usize) -> (r: StackResult<()>) {
        let ghost start = self@;
        let mut x: u64 = value;
        let mut i: usize = 0;
        while i < width
            invariant
                i <= width,
                self@ + le_bytes(x as nat, (width - i) as nat) == start + le_bytes(
                    value as nat,
                    width as nat,
                ),
            decreases width - i,
        {
            let ghost before = self@;
            let ghost x0 = x as nat;
            assert(le_bytes(x0, (width - i) as nat) == seq![(x0 % 256) as u8] + le_bytes(
                x0 / 256,
                (width - i - 1) as nat,
            ));
            self.push((x % 256) as u8);
            x = x / 256;
            i = i + 1;
            assert(self@ + le_bytes(x as nat, (width - i) as nat) =~= before + le_bytes(
                x0,
                (width - i + 1) as nat,
            ));
        }
        assert(le_bytes(x as nat, 0) =~= Seq::<u8>::empty());
        assert(self@ + Seq::<u8>::empty() =~= self@);
        Ok(())
    }

    fn pop_le(&mut self, width: usize) -> (r: StackResult<u64>) {
        let len = self.len();
        if len < width {
            return Err(StackError::Underflow);
        }
        let ghost s = self@;
        let start = len - width;
        let mut v: u64 = 0;
        let mut i: usize = len;
        proof {
            lemma_pow256_values();
            assert(s.subrange(len as int, len as int) =~= Seq::<u8>::empty());
        }
        while i > start
            invariant
                start <= i <= len,
                len == s.len(),
                start == len - width,
                width <= 8,
                self@ == s,
                v as nat == le_value(s.subrange(i as int, len as int)),
                v < pow256((len - i) as nat),
            decreases i,
        {
            let b = self[i - 1];
            let ghost k = (len - i) as nat;
            proof {
                lemma_le_value_extend(s, i as int, len as int);
                lemma_pow256_values();
                assert(k < 8);
                assert(pow256(k) <= 0x100_0000_0000_0000) by {
                    assert(k == 0 || k == 1 || k == 2 || k == 3 || k == 4 || k == 5 || k == 6 || k == 7);
                }
                let p = pow256(k);
                assert(v * 256 + b < 256 * p) by (nonlinear_arith)
                    requires
                        v < p,
                        b < 256,
                ;
            }
            v = v * 256 + b as u64;
            i = i - 1;
        }
        self.truncate(start);
        proof {
            lemma_le_value_bound(s.subrange(start as int, len as int));
        }
        Ok(v)
    }

    fn push_u8(&mut self, value: u8) -> (r: StackResult<()>) {
        proof {
            lemma_pow256_values();
        }
        self.push_le(value as u64, 1)
    }

    fn pop_u8(&mut self) -> (r: StackResult<u8>) {
        match self.pop_le(1) {
            Ok(v) => {
                proof {
                    lemma_pow256_values();
                }
                Ok(v as u8)
            },
            Err(e) => Err(e),
        }
    }

    fn push_u16(&mut self, value: u16) -> (r: StackResult<()>) {
        proof {
            lemma_pow256_values();
        }
        self.push_le(value as u64, 2)
    }

    fn pop_u16(&mut self) -> (r: StackResult<u16>) {
        match self.pop_le(2) {
            Ok(v) => {
                proof {
                    lemma_pow256_values();
                }
                Ok(v as u16)
            },
            Err(e) => Err(e),
        }
    }

    fn push_u32(&mut self, value: u32) -> (r: StackResult<()>) {
        proof {
            lemma_pow256_values();
        }
        self.push_le(value as u64, 4)
    }

    fn pop_u32(&mut self) -> (r: StackResult<u32>) {
        match self.pop_le(4) {
            Ok(v) => {
                proof {
                    lemma_pow256_values();
                }
                Ok(v as u32)
            },
            Err(e) => Err(e),
        }
    }

    fn push_u64(&mut self, value: u64) -> (r: StackResult<()>) {
        proof {
            lemma_pow256_values();
        }
        self.push_le(value as u64, 8)
    }

    fn pop_u64(&mut self) -> (r: StackResult<u64>) {
        match self.pop_le(8) {
            Ok(v) => {
                proof {
                    lemma_pow256_values();
                }
                Ok(v as u64)
            },
            Err(e) => Err(e),
        }
    }

    fn push_i8(&mut self, value: i8) -> (r: StackResult<()>) {
        proof {
            lemma_pow256_values();
        }
        let u = unsigned_of(value as i64, 1);
        self.push_le(u, 1)
    }

    fn pop_i8(&mut self) -> (r: StackResult<i8>) {
        match self.pop_le(1) {
            Ok(v) => {
                let s = signed_of(v, 1);
                proof {
                    lemma_pow256_values();
                }
                Ok(s as i8)
            },
            Err(e) => Err(e),
        }
    }

    fn push_i16(&mut self, value: i16) -> (r: StackResult<()>) {
        proof {
            lemma_pow256_values();
        }
        let u = unsigned_of(value as i64, 2);
        self.push_le(u, 2)
    }

    fn pop_i16(&mut self) -> (r: StackResult<i16>) {
        match self.pop_le(2) {
            Ok(v) => {
                let s = signed_of(v, 2);
                proof {
                    lemma_pow256_values();
                }
                Ok(s as i16)
            },
            Err(e) => Err(e),
        }
    }

    fn push_i32(&mut self, value: i32) -> (r: StackResult<()>) {
        proof {
            lemma_pow256_values();
        }
        let u = unsigned_of(value as i64, 4);
        self.push_le(u, 4)
    }

    fn pop_i32(&mut self) -> (r: StackResult<i32>) {
        match self.pop_le(4) {
            Ok(v) => {
                let s = signed_of(v, 4);
                proof {
                    lemma_pow256_values();
                }
                Ok(s as i32)
            },
            Err(e) => Err(e),
        }
    }

    fn push_i64(&mut self, value: i64) -> (r: StackResult<()>) {
        proof {
            lemma_pow256_values();
        }
        let u = unsigned_of(value as i64, 8);
        self.push_le(u, 8)
    }

    fn pop_i64(&mut self) -> (r: StackResult<i64>) {
        match self.pop_le(8) {
            Ok(v) => {
                let s = signed_of(v, 8);
                proof {
                    lemma_pow256_values();
                }
                Ok(s as i64)
            },
            Err(e) => Err(e),
        }
    }
}

} // verus!
