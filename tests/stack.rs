use stack_vm::{ComputeStack, StackError};

#[test]
fn typed_push_pop_round_trips() {
    let mut s: Vec<u8> = Vec::new();
    s.push_u8(0xab).unwrap();
    s.push_u16(0xbeef).unwrap();
    s.push_u32(0xdead_beef).unwrap();
    s.push_u64(u64::MAX - 5).unwrap();
    s.push_i8(-5).unwrap();
    s.push_i16(i16::MIN).unwrap();
    s.push_i32(-123_456).unwrap();
    s.push_i64(i64::MIN + 1).unwrap();
    assert_eq!(s.size(), 1 + 2 + 4 + 8 + 1 + 2 + 4 + 8);
    assert_eq!(s.pop_i64().unwrap(), i64::MIN + 1);
    assert_eq!(s.pop_i32().unwrap(), -123_456);
    assert_eq!(s.pop_i16().unwrap(), i16::MIN);
    assert_eq!(s.pop_i8().unwrap(), -5);
    assert_eq!(s.pop_u64().unwrap(), u64::MAX - 5);
    assert_eq!(s.pop_u32().unwrap(), 0xdead_beef);
    assert_eq!(s.pop_u16().unwrap(), 0xbeef);
    assert_eq!(s.pop_u8().unwrap(), 0xab);
    assert_eq!(s.size(), 0);
}

#[test]
fn pushes_are_little_endian() {
    let mut s: Vec<u8> = Vec::new();
    s.push_u32(0x0102_0304).unwrap();
    assert_eq!(s, vec![4, 3, 2, 1]);
    s.push_i16(-2).unwrap();
    assert_eq!(s, vec![4, 3, 2, 1, 0xfe, 0xff]);
}

#[test]
fn slice_push_pop_round_trips() {
    for w in [1usize, 2, 4, 8] {
        let bytes: Vec<u8> = (1..=w as u8).collect();
        let mut s: Vec<u8> = vec![9, 9];
        s.push_slice(&bytes).unwrap();
        assert_eq!(s.pop_slice(w).unwrap(), bytes);
        assert_eq!(s, vec![9, 9]);
    }
}

#[test]
fn pops_past_the_bottom_underflow() {
    let mut s: Vec<u8> = vec![1, 2, 3];
    assert_eq!(s.pop_u32(), Err(StackError::Underflow));
    assert_eq!(s, vec![1, 2, 3]);
    assert_eq!(s.pop_slice(4), Err(StackError::Underflow));
    assert_eq!(s.remove_top(4), Err(StackError::Underflow));
    assert_eq!(s.remove_top(2), Ok(()));
    assert_eq!(s, vec![1]);
    let mut empty: Vec<u8> = Vec::new();
    assert_eq!(empty.pop_u8(), Err(StackError::Underflow));
}

#[test]
fn width_values_read_back() {
    let mut s: Vec<u8> = Vec::new();
    s.push_le(0x1234, 2).unwrap();
    assert_eq!(s, vec![0x34, 0x12]);
    assert_eq!(s.pop_le(2), Ok(0x1234));
}
