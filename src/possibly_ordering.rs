//! The four-valued result of a comparison and its byte encoding.
use vstd::prelude::*;
use std::cmp::Ordering;

verus! {

/// The result of a comparison that may fail to order its operands.
///
/// Each variant has a byte encoding: `Unordered` = 0, `Less` = 1,
/// `Equal` = 2, `Greater` = 3.
#[derive(Clone, Copy, Debug, PartialEq, Eq, Structural)]
pub enum PossiblyOrdering {
    Unordered,
    Less,
    Equal,
    Greater,
}

/// A byte that was read as a comparison result but is none of 0, 1, 2, 3.
#[derive(Clone, Copy, Debug, PartialEq, Eq, Structural)]
pub struct InvalidComparisonByte(pub u8);

/// The byte that encodes an ordering value.
pub open spec fn ordering_byte(o: PossiblyOrdering) -> u8 {
    match o {
        PossiblyOrdering::Unordered => 0,
        PossiblyOrdering::Less => 1,
        PossiblyOrdering::Equal => 2,
        PossiblyOrdering::Greater => 3,
    }
}

/// The ordering of two mathematical integers.
pub open spec fn int_ordering(a: int, b: int) -> PossiblyOrdering {
    if a < b {
        PossiblyOrdering::Less
    } else if a > b {
        PossiblyOrdering::Greater
    } else {
        PossiblyOrdering::Equal
    }
}

impl PossiblyOrdering {
    pub fn is_eq(self) -> (r: bool)
        ensures
            r == (self == PossiblyOrdering::Equal),
    {
        matches!(self, PossiblyOrdering::Equal)
    }

    /// True for every value but `Equal`, `Unordered` included.
    pub fn is_ne(self) -> (r: bool)
        ensures
            r == (self != PossiblyOrdering::Equal),
    {
        !matches!(self, PossiblyOrdering::Equal)
    }

    pub fn is_lt(self) -> (r: bool)
        ensures
            r == (self == PossiblyOrdering::Less),
    {
        matches!(self, PossiblyOrdering::Less)
    }

    pub fn is_gt(self) -> (r: bool)
        ensures
            r == (self == PossiblyOrdering::Greater),
    {
        matches!(self, PossiblyOrdering::Greater)
    }

    /// True for every value but `Greater`, `Unordered` included.
    pub fn is_le(self) -> (r: bool)
        ensures
            r == (self != PossiblyOrdering::Greater),
    {
        !matches!(self, PossiblyOrdering::Greater)
    }

    /// True for every value but `Less`, `Unordered` included.
    pub fn is_ge(self) -> (r: bool)
        ensures
            r == (self != PossiblyOrdering::Less),
    {
        !matches!(self, PossiblyOrdering::Less)
    }

    /// The byte encoding of this value.
    pub fn to_byte(self) -> (r: u8)
        ensures
            r == ordering_byte(self),
    {
        match self {
            PossiblyOrdering::Unordered => 0,
            PossiblyOrdering::Less => 1,
            PossiblyOrdering::Equal => 2,
            PossiblyOrdering::Greater => 3,
        }
    }

    /// Reads a byte as an ordering value; only 0 to 3 are valid.
    pub fn from_byte(value: u8) -> (r: Result<PossiblyOrdering, InvalidComparisonByte>)
        ensures
            value <= 3 ==> (r matches Ok(o) && ordering_byte(o) == value),
            value > 3 ==> r == Err::<PossiblyOrdering, _>(InvalidComparisonByte(value)),
    {
        match value {
            0 => Ok(PossiblyOrdering::Unordered),
            1 => Ok(PossiblyOrdering::Less),
            2 => Ok(PossiblyOrdering::Equal),
            3 => Ok(PossiblyOrdering::Greater),
            v => Err(InvalidComparisonByte(v)),
        }
    }

    /// The value of a total comparison.
    pub fn from_ordering(ord: Ordering) -> (r: PossiblyOrdering)
        ensures
            r == (match ord {
                Ordering::Less => PossiblyOrdering::Less,
                Ordering::Equal => PossiblyOrdering::Equal,
                Ordering::Greater => PossiblyOrdering::Greater,
            }),
    {
        match ord {
            Ordering::Less => PossiblyOrdering::Less,
            Ordering::Equal => PossiblyOrdering::Equal,
            Ordering::Greater => PossiblyOrdering::Greater,
        }
    }

    /// The value of a partial comparison: `None` is `Unordered`.
    pub fn from_partial_ordering(ord: Option<Ordering>) -> (r: PossiblyOrdering)
        ensures
            r == (match ord {
                None => PossiblyOrdering::Unordered,
                Some(Ordering::Less) => PossiblyOrdering::Less,
                Some(Ordering::Equal) => PossiblyOrdering::Equal,
                Some(Ordering::Greater) => PossiblyOrdering::Greater,
            }),
    {
        match ord {
            None => PossiblyOrdering::Unordered,
            Some(o) => PossiblyOrdering::from_ordering(o),
        }
    }

    /// Compares two unsigned values.
    pub fn compare_u64(a: u64, b: u64) -> (r: PossiblyOrdering)
        ensures
            r == int_ordering(a as int, b as int),
    {
        if a < b {
            PossiblyOrdering::Less
        } else if a > b {
            PossiblyOrdering::Greater
        } else {
            PossiblyOrdering::Equal
        }
    }

    /// Compares two signed values.
    pub fn compare_i64(a: i64, b: i64) -> (r: PossiblyOrdering)
        ensures
            r == int_ordering(a as int, b as int),
    {
        if a < b {
            PossiblyOrdering::Less
        } else if a > b {
            PossiblyOrdering::Greater
        } else {
            PossiblyOrdering::Equal
        }
    }
}

/// Decoding the encoding of an ordering value gives the value back, and the
/// encoding is one of 0 to 3.
pub proof fn lemma_ordering_byte_round_trip(o: PossiblyOrdering)
    ensures
        ordering_byte(o) <= 3,
        forall|p: PossiblyOrdering| ordering_byte(p) == ordering_byte(o) ==> p == o,
{
}

} // verus!
