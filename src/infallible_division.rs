//! Integer division and remainder made total: dividing by zero gives the
//! largest value of the type, and the remainder by zero is the dividend.
use vstd::prelude::*;
use vstd::arithmetic::div_mod::{lemma_div_is_ordered_by_denominator, lemma_mod_bound};

verus! {

pub open spec fn abs(a: int) -> int {
    if a < 0 {
        -a
    } else {
        a
    }
}

/// Rust's quotient of signed integers: rounded toward zero.
pub open spec fn trunc_div(a: int, b: int) -> int {
    let q = abs(a) / abs(b);
    if (a < 0) != (b < 0) {
        -q
    } else {
        q
    }
}

/// Rust's remainder of signed integers: it takes the sign of the dividend.
pub open spec fn trunc_rem(a: int, b: int) -> int {
    let r = abs(a) % abs(b);
    if a < 0 {
        -r
    } else {
        r
    }
}

/// Division and remainder that never fail.
///
/// `infallible_div(a, b)` is `a / b` for `b != 0` and the largest value of the
/// type for `b == 0`; `infallible_rem(a, b)` is `a % b` for `b != 0` and `a`
/// for `b == 0`. The one overflowing signed quotient, `MIN / -1`, wraps to
/// `MIN`, and its remainder is 0.
pub trait InfallibleDivision: Sized {
    spec fn div_spec(a: Self, b: Self) -> Self;

    spec fn rem_spec(a: Self, b: Self) -> Self;

    fn infallible_div(a: Self, b: Self) -> (r: Self)
        ensures
            r == Self::div_spec(a, b),
    ;

    fn infallible_rem(a: Self, b: Self) -> (r: Self)
        ensures
            r == Self::rem_spec(a, b),
    ;
}

/// The quotient of values of a signed type with minimum `-h` stays in the
/// type, but for `-h / -1`.
pub proof fn lemma_trunc_div_bound(a: int, b: int, h: int)
    requires
        h >= 1,
        -h <= a < h,
        -h <= b < h,
        b != 0,
        !(a == -h && b == -1),
    ensures
        -h <= trunc_div(a, b) < h,
{
    let q = abs(a) / abs(b);
    lemma_div_is_ordered_by_denominator(abs(a), 1, abs(b));
    assert(abs(a) / 1 == abs(a));
    if abs(b) >= 2 {
        lemma_div_is_ordered_by_denominator(abs(a), 2, abs(b));
        assert(abs(a) / 2 <= abs(a)) by {
            lemma_div_is_ordered_by_denominator(abs(a), 1, 2);
        }
        assert(abs(a) / 2 < h) by {
            assert(abs(a) <= h);
            assert(abs(a) / 2 * 2 <= abs(a));
        }
    }
}

/// The remainder is smaller than the divisor in magnitude.
pub proof fn lemma_trunc_rem_bound(a: int, b: int)
    requires
        b != 0,
    ensures
        abs(trunc_rem(a, b)) < abs(b),
{
    lemma_mod_bound(abs(a), abs(b));
}

/// The magnitude of a signed value, which fits in an unsigned value of the
/// same width.
fn magnitude(a: i64) -> (r: u64)
    ensures
        r as int == abs(a as int),
{
    if a < 0 {
        if a == i64::MIN {
            0x8000_0000_0000_0000u64
        } else {
            (-a) as u64
        }
    } else {
        a as u64
    }
}

/// The quotient rounded toward zero.
fn trunc_div_i64(a: i64, b: i64) -> (r: i64)
    requires
        b != 0,
        !(a == i64::MIN && b == -1),
    ensures
        r as int == trunc_div(a as int, b as int),
{
    let ua = magnitude(a);
    let ub = magnitude(b);
    let q = ua / ub;
    proof {
        lemma_trunc_div_bound(a as int, b as int, 0x8000_0000_0000_0000int);
    }
    if (a < 0) != (b < 0) {
        if q == 0x8000_0000_0000_0000u64 {
            i64::MIN
        } else {
            -(q as i64)
        }
    } else {
        q as i64
    }
}

/// The remainder with the sign of the dividend.
fn trunc_rem_i64(a: i64, b: i64) -> (r: i64)
    requires
        b != 0,
    ensures
        r as int == trunc_rem(a as int, b as int),
{
    let ua = magnitude(a);
    let ub = magnitude(b);
    let m = ua % ub;
    proof {
        lemma_mod_bound(ua as int, ub as int);
    }
    if a < 0 {
        -(m as i64)
    } else {
        m as i64
    }
}

impl InfallibleDivision for u8 {
    open spec fn div_spec(a: u8, b: u8) -> u8 {
        if b != 0 {
            (a / b) as u8
        } else {
            u8::MAX
        }
    }

    open spec fn rem_spec(a: u8, b: u8) -> u8 {
        if b != 0 {
            (a % b) as u8
        } else {
            a
        }
    }

    fn infallible_div(a: u8, b: u8) -> (r: u8) {
        if b != 0 {
            a / b
        } else {
            u8::MAX
        }
    }

    fn infallible_rem(a: u8, b: u8) -> (r: u8) {
        if b != 0 {
            a % b
        } else {
            a
        }
    }
}

impl InfallibleDivision for u16 {
    open spec fn div_spec(a: u16, b: u16) -> u16 {
        if b != 0 {
            (a / b) as u16
        } else {
            u16::MAX
        }
    }

    open spec fn rem_spec(a: u16, b: u16) -> u16 {
        if b != 0 {
            (a % b) as u16
        } else {
            a
        }
    }

    fn infallible_div(a: u16, b: u16) -> (r: u16) {
        if b != 0 {
            a / b
        } else {
            u16::MAX
        }
    }

    fn infallible_rem(a: u16, b: u16) -> (r: u16) {
        if b != 0 {
            a % b
        } else {
            a
        }
    }
}

impl InfallibleDivision for u32 {
    open spec fn div_spec(a: u32, b: u32) -> u32 {
        if b != 0 {
            (a / b) as u32
        } else {
            u32::MAX
        }
    }

    open spec fn rem_spec(a: u32, b: u32) -> u32 {
        if b != 0 {
            (a % b) as u32
        } else {
            a
        }
    }

    fn infallible_div(a: u32, b: u32) -> (r: u32) {
        if b != 0 {
            a / b
        } else {
            u32::MAX
        }
    }

    fn infallible_rem(a: u32, b: u32) -> (r: u32) {
        if b != 0 {
            a % b
        } else {
            a
        }
    }
}

impl InfallibleDivision for u64 {
    open spec fn div_spec(a: u64, b: u64) -> u64 {
        if b != 0 {
            (a / b) as u64
        } else {
            u64::MAX
        }
    }

    open spec fn rem_spec(a: u64, b: u64) -> u64 {
        if b != 0 {
            (a % b) as u64
        } else {
            a
        }
    }

    fn infallible_div(a: u64, b: u64) -> (r: u64) {
        if b != 0 {
            a / b
        } else {
            u64::MAX
        }
    }

    fn infallible_rem(a: u64, b: u64) -> (r: u64) {
        if b != 0 {
            a % b
        } else {
            a
        }
    }
}

impl InfallibleDivision for i8 {
    open spec fn div_spec(a: i8, b: i8) -> i8 {
        if b == 0 {
            i8::MAX
        } else if a == i8::MIN && b == -1 {
            i8::MIN
        } else {
            trunc_div(a as int, b as int) as i8
        }
    }

    open spec fn rem_spec(a: i8, b: i8) -> i8 {
        if b != 0 {
            trunc_rem(a as int, b as int) as i8
        } else {
            a
        }
    }

    fn infallible_div(a: i8, b: i8) -> (r: i8) {
        if b == 0 {
            i8::MAX
        } else if a == i8::MIN && b == -1 {
            i8::MIN
        } else {
            let q = trunc_div_i64(a as i64, b as i64);
            proof {
                lemma_trunc_div_bound(a as int, b as int, 0x80int);
            }
            q as i8
        }
    }

    fn infallible_rem(a: i8, b: i8) -> (r: i8) {
        if b != 0 {
            let m = trunc_rem_i64(a as i64, b as i64);
            proof {
                lemma_trunc_rem_bound(a as int, b as int);
            }
            m as i8
        } else {
            a
        }
    }
}

impl InfallibleDivision for i16 {
    open spec fn div_spec(a: i16, b: i16) -> i16 {
        if b == 0 {
            i16::MAX
        } else if a == i16::MIN && b == -1 {
            i16::MIN
        } else {
            trunc_div(a as int, b as int) as i16
        }
    }

    open spec fn rem_spec(a: i16, b: i16) -> i16 {
        if b != 0 {
            trunc_rem(a as int, b as int) as i16
        } else {
            a
        }
    }

    fn infallible_div(a: i16, b: i16) -> (r: i16) {
        if b == 0 {
            i16::MAX
        } else if a == i16::MIN && b == -1 {
            i16::MIN
        } else {
            let q = trunc_div_i64(a as i64, b as i64);
            proof {
                lemma_trunc_div_bound(a as int, b as int, 0x8000int);
            }
            q as i16
        }
    }

    fn infallible_rem(a: i16, b: i16) -> (r: i16) {
        if b != 0 {
            let m = trunc_rem_i64(a as i64, b as i64);
            proof {
                lemma_trunc_rem_bound(a as int, b as int);
            }
            m as i16
        } else {
            a
        }
    }
}

impl InfallibleDivision for i32 {
    open spec fn div_spec(a: i32, b: i32) -> i32 {
        if b == 0 {
            i32::MAX
        } else if a == i32::MIN && b == -1 {
            i32::MIN
        } else {
            trunc_div(a as int, b as int) as i32
        }
    }

    open spec fn rem_spec(a: i32, b: i32) -> i32 {
        if b != 0 {
            trunc_rem(a as int, b as int) as i32
        } else {
            a
        }
    }

    fn infallible_div(a: i32, b: i32) -> (r: i32) {
        if b == 0 {
            i32::MAX
        } else if a == i32::MIN && b == -1 {
            i32::MIN
        } else {
            let q = trunc_div_i64(a as i64, b as i64);
            proof {
                lemma_trunc_div_bound(a as int, b as int, 0x8000_0000int);
            }
            q as i32
        }
    }

    fn infallible_rem(a: i32, b: i32) -> (r: i32) {
        if b != 0 {
            let m = trunc_rem_i64(a as i64, b as i64);
            proof {
                lemma_trunc_rem_bound(a as int, b as int);
            }
            m as i32
        } else {
            a
        }
    }
}

impl InfallibleDivision for i64 {
    open spec fn div_spec(a: i64, b: i64) -> i64 {
        if b == 0 {
            i64::MAX
        } else if a == i64::MIN && b == -1 {
            i64::MIN
        } else {
            trunc_div(a as int, b as int) as i64
        }
    }

    open spec fn rem_spec(a: i64, b: i64) -> i64 {
        if b != 0 {
            trunc_rem(a as int, b as int) as i64
        } else {
            a
        }
    }

    fn infallible_div(a: i64, b: i64) -> (r: i64) {
        if b == 0 {
            i64::MAX
        } else if a == i64::MIN && b == -1 {
            i64::MIN
        } else {
            let q = trunc_div_i64(a as i64, b as i64);
            proof {
                lemma_trunc_div_bound(a as int, b as int, 0x8000_0000_0000_0000int);
            }
            q as i64
        }
    }

    fn infallible_rem(a: i64, b: i64) -> (r: i64) {
        if b != 0 {
            let m = trunc_rem_i64(a as i64, b as i64);
            proof {
                lemma_trunc_rem_bound(a as int, b as int);
            }
            m as i64
        } else {
            a
        }
    }
}

/// Dividing by zero gives the largest value of the type, and the remainder
/// by zero is the dividend, for every type.
pub proof fn lemma_division_by_zero(
    a8: u8, a16: u16, a32: u32, a64: u64, b8: i8, b16: i16, b32: i32, b64: i64,
)
    ensures
        <u8 as InfallibleDivision>::div_spec(a8, 0) == u8::MAX,
        <u8 as InfallibleDivision>::rem_spec(a8, 0) == a8,
        <u16 as InfallibleDivision>::div_spec(a16, 0) == u16::MAX,
        <u16 as InfallibleDivision>::rem_spec(a16, 0) == a16,
        <u32 as InfallibleDivision>::div_spec(a32, 0) == u32::MAX,
        <u32 as InfallibleDivision>::rem_spec(a32, 0) == a32,
        <u64 as InfallibleDivision>::div_spec(a64, 0) == u64::MAX,
        <u64 as InfallibleDivision>::rem_spec(a64, 0) == a64,
        <i8 as InfallibleDivision>::div_spec(b8, 0) == i8::MAX,
        <i8 as InfallibleDivision>::rem_spec(b8, 0) == b8,
        <i16 as InfallibleDivision>::div_spec(b16, 0) == i16::MAX,
        <i16 as InfallibleDivision>::rem_spec(b16, 0) == b16,
        <i32 as InfallibleDivision>::div_spec(b32, 0) == i32::MAX,
        <i32 as InfallibleDivision>::rem_spec(b32, 0) == b32,
        <i64 as InfallibleDivision>::div_spec(b64, 0) == i64::MAX,
        <i64 as InfallibleDivision>::rem_spec(b64, 0) == b64,
{
}

} // verus!
