use stack_vm::{InvalidComparisonByte, PossiblyOrdering};
use std::cmp::Ordering;

#[test]
fn predicate_table_holds_for_all_values() {
    // (value, eq, ne, lt, le, gt, ge)
    let table = [
        (PossiblyOrdering::Unordered, false, true, false, true, false, true),
        (PossiblyOrdering::Less, false, true, true, true, false, false),
        (PossiblyOrdering::Equal, true, false, false, true, false, true),
        (PossiblyOrdering::Greater, false, true, false, false, true, true),
    ];
    for (o, eq, ne, lt, le, gt, ge) in table {
        assert_eq!(o.is_eq(), eq);
        assert_eq!(o.is_ne(), ne);
        assert_eq!(o.is_lt(), lt);
        assert_eq!(o.is_le(), le);
        assert_eq!(o.is_gt(), gt);
        assert_eq!(o.is_ge(), ge);
    }
}

#[test]
fn ordering_bytes_round_trip() {
    for b in 0u8..4 {
        let o = PossiblyOrdering::from_byte(b).unwrap();
        assert_eq!(o.to_byte(), b);
    }
    assert_eq!(PossiblyOrdering::from_byte(2), Ok(PossiblyOrdering::Equal));
    assert_eq!(PossiblyOrdering::Greater.to_byte(), 3);
}

#[test]
fn invalid_comparison_byte_is_rejected() {
    assert_eq!(PossiblyOrdering::from_byte(4), Err(InvalidComparisonByte(4)));
    assert_eq!(PossiblyOrdering::from_byte(255), Err(InvalidComparisonByte(255)));
}

#[test]
fn orderings_from_std() {
    assert_eq!(PossiblyOrdering::from_ordering(Ordering::Less), PossiblyOrdering::Less);
    assert_eq!(PossiblyOrdering::from_partial_ordering(None), PossiblyOrdering::Unordered);
    assert_eq!(
        PossiblyOrdering::from_partial_ordering(Some(Ordering::Greater)),
        PossiblyOrdering::Greater
    );
    assert_eq!(PossiblyOrdering::compare_u64(3, 7), PossiblyOrdering::Less);
    assert_eq!(PossiblyOrdering::compare_i64(-1, -1), PossiblyOrdering::Equal);
    assert_eq!(PossiblyOrdering::compare_i64(5, -9), PossiblyOrdering::Greater);
}
