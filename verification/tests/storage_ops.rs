use minivec::MiniVec;

#[test]
fn new_is_empty_and_unallocated() {
    let v: MiniVec<i32> = MiniVec::new();
    assert_eq!(v.len(), 0);
    assert_eq!(v.capacity(), 0);
    assert!(v.is_empty());
}

#[test]
fn with_capacity_gives_exactly_that_capacity() {
    let v: MiniVec<i32> = MiniVec::with_capacity(128);
    assert_eq!(v.len(), 0);
    assert_eq!(v.capacity(), 128);
    assert!(v.capacity() >= 128);
}

#[test]
fn with_capacity_holds_for_various_requests() {
    for c in [0usize, 1, 3, 4, 7, 64, 100] {
        let v: MiniVec<u8> = MiniVec::with_capacity(c);
        assert!(v.capacity() >= c);
        assert_eq!(v.len(), 0);
    }
}

#[test]
fn push_and_read_back() {
    let mut v: MiniVec<i32> = MiniVec::with_capacity(64);
    for idx in 0..128 {
        v.push(idx);
    }
    assert_eq!(v.len(), 128);
    for idx in 0..128 {
        assert_eq!(v.as_slice()[idx as usize], idx as i32);
    }
}

#[test]
fn push_pop_round_trip_in_reverse_order() {
    let mut v: MiniVec<i32> = MiniVec::new();
    v.push(10);
    let base_len = v.len();
    let pushed = [1, 2, 3, 4, 5];
    for x in pushed {
        v.push(x);
    }
    let mut popped = Vec::new();
    for _ in 0..pushed.len() {
        popped.push(v.pop().unwrap());
    }
    assert_eq!(popped, vec![5, 4, 3, 2, 1]);
    assert_eq!(v.len(), base_len);
    assert_eq!(v.as_slice(), &[10][..]);
}

#[test]
fn push_pop_each_round_restores_len() {
    let mut v: MiniVec<i32> = MiniVec::new();
    v.push(7);
    for x in 0..20 {
        let before = v.len();
        v.push(x);
        assert_eq!(v.pop(), Some(x));
        assert_eq!(v.len(), before);
    }
}

#[test]
fn pop_of_empty_is_none() {
    let mut v: MiniVec<i32> = MiniVec::new();
    assert_eq!(v.pop(), None);
}

#[test]
fn growth_policy_floor_then_doubling() {
    let mut v: MiniVec<i32> = MiniVec::new();
    assert_eq!(v.capacity(), 0);
    v.push(1);
    assert_eq!(v.capacity(), 4);
    v.push(2);
    v.push(3);
    v.push(4);
    assert_eq!(v.capacity(), 4);
    v.push(5);
    assert_eq!(v.capacity(), 8);
    for x in 6..=9 {
        v.push(x);
    }
    assert_eq!(v.capacity(), 16);
}

#[test]
fn reserve_grows_along_policy() {
    let mut v: MiniVec<i32> = MiniVec::new();
    assert_eq!(v.capacity(), 0);
    v.reserve(128);
    assert!(v.capacity() >= 128);
    assert_eq!(v.capacity(), 128);
    let cap = v.capacity();
    v.reserve(5);
    assert_eq!(v.capacity(), cap);
}

#[test]
fn reserve_saturates_at_the_largest_size() {
    let mut v: MiniVec<i32> = MiniVec::new();
    v.reserve(usize::MAX);
    assert_eq!(v.capacity(), usize::MAX);
}

#[test]
fn reserve_exact_is_exact() {
    let mut v: MiniVec<i32> = MiniVec::new();
    v.reserve_exact(57);
    assert_eq!(v.capacity(), 57);
    v.reserve_exact(3);
    assert_eq!(v.capacity(), 57);
}

#[test]
fn truncate_shortens_and_keeps_capacity() {
    let mut v: MiniVec<i32> = MiniVec::new();
    for x in 1..=5 {
        v.push(x);
    }
    let cap = v.capacity();
    v.truncate(2);
    assert_eq!(v.as_slice(), &[1, 2][..]);
    assert_eq!(v.capacity(), cap);
    v.truncate(9);
    assert_eq!(v.as_slice(), &[1, 2][..]);
}

#[test]
fn clear_empties_and_keeps_capacity() {
    let mut v: MiniVec<i32> = MiniVec::new();
    for x in 0..256 {
        v.push(x);
    }
    let cap = v.capacity();
    assert_eq!(v.len(), 256);
    v.clear();
    assert_eq!(v.len(), 0);
    assert_eq!(v.capacity(), cap);
}

#[test]
fn insert_shifts_suffix() {
    let mut v: MiniVec<i32> = MiniVec::new();
    for x in [0, 1, 2, 3] {
        v.push(x);
    }
    v.insert(1, 1337);
    assert_eq!(v.as_slice(), &[0, 1337, 1, 2, 3][..]);
    let at_end = v.len();
    v.insert(at_end, 7331);
    assert_eq!(v.as_slice(), &[0, 1337, 1, 2, 3, 7331][..]);
}

#[test]
fn remove_shifts_suffix() {
    let mut v: MiniVec<i32> = MiniVec::new();
    for x in [0, 1, 2, 3] {
        v.push(x);
    }
    assert_eq!(v.remove(0), 0);
    assert_eq!(v.as_slice(), &[1, 2, 3][..]);
}

#[test]
fn swap_remove_moves_last_into_place() {
    let mut v: MiniVec<i32> = MiniVec::new();
    for x in [1, 2, 3, 4] {
        v.push(x);
    }
    let num = v.swap_remove(0);
    assert_eq!(num, 1);
    assert_eq!(v.as_slice(), &[4, 2, 3][..]);
}

#[test]
fn shrink_to_fit_matches_len() {
    let mut v: MiniVec<i32> = MiniVec::with_capacity(512);
    v.push(1);
    v.push(2);
    v.push(3);
    v.shrink_to_fit();
    assert_eq!(v.capacity(), 3);
    assert_eq!(v.as_slice(), &[1, 2, 3][..]);
}

#[test]
fn shrink_to_bounds() {
    let mut v: MiniVec<i32> = MiniVec::with_capacity(128);
    assert!(v.capacity() >= 128);
    v.shrink_to(64);
    assert_eq!(v.capacity(), 64);
    v.push(1);
    v.push(2);
    v.shrink_to(0);
    assert_eq!(v.capacity(), 2);
    assert_eq!(v.as_slice(), &[1, 2][..]);
}

#[test]
fn append_moves_everything() {
    let mut v: MiniVec<i32> = MiniVec::new();
    let mut w: MiniVec<i32> = MiniVec::new();
    for x in [1, 2, 3] {
        v.push(x);
    }
    for x in [4, 5, 6] {
        w.push(x);
    }
    let w_cap = w.capacity();
    v.append(&mut w);
    assert_eq!(v.as_slice(), &[1, 2, 3, 4, 5, 6][..]);
    assert_eq!(w.len(), 0);
    assert_eq!(w.capacity(), w_cap);
}

#[test]
fn append_of_empty_is_noop() {
    let mut v: MiniVec<i32> = MiniVec::new();
    v.push(9);
    let mut w: MiniVec<i32> = MiniVec::new();
    v.append(&mut w);
    assert_eq!(v.as_slice(), &[9][..]);
    assert_eq!(w.len(), 0);
}

#[test]
fn split_off_keeps_prefix_and_returns_tail() {
    let mut v: MiniVec<i32> = MiniVec::new();
    for x in 0..=10 {
        v.push(x);
    }
    let tail = v.split_off(7);
    assert_eq!(v.as_slice(), &[0, 1, 2, 3, 4, 5, 6][..]);
    assert_eq!(tail.as_slice(), &[7, 8, 9, 10][..]);
}

#[test]
fn split_off_at_ends() {
    let mut v: MiniVec<i32> = MiniVec::new();
    for x in [1, 2, 3] {
        v.push(x);
    }
    let all = v.split_off(0);
    assert_eq!(v.len(), 0);
    assert_eq!(all.as_slice(), &[1, 2, 3][..]);
    let mut w = all;
    let none = w.split_off(3);
    assert_eq!(w.as_slice(), &[1, 2, 3][..]);
    assert_eq!(none.len(), 0);
}

#[test]
fn resize_grows_with_clones_and_truncates() {
    let mut v: MiniVec<i32> = MiniVec::new();
    for _ in 0..8 {
        v.push(-1);
    }
    v.resize(12, -1);
    assert_eq!(v.len(), 12);
    for i in 0..12 {
        assert_eq!(v.as_slice()[i], -1);
    }
    v.resize(4, -1);
    assert_eq!(v.len(), 4);
    v.resize(4, -1);
    assert_eq!(v.len(), 4);
}

#[test]
fn resize_with_invokes_the_generator() {
    let mut v: MiniVec<i32> = MiniVec::new();
    v.resize_with(128, || 1337);
    assert_eq!(v.len(), 128);
    assert_eq!(v.as_slice()[0], 1337);
    assert_eq!(v.as_slice()[127], 1337);
    v.resize_with(2, || 0);
    assert_eq!(v.as_slice(), &[1337, 1337][..]);
}

#[test]
fn extend_from_slice_clones_in_order() {
    let mut v: MiniVec<i32> = MiniVec::new();
    v.push(1);
    v.push(2);
    let s: &[i32] = &[3, 4];
    v.extend_from_slice(s);
    assert_eq!(v.as_slice(), &[1, 2, 3, 4][..]);
}

#[test]
fn remove_item_takes_first_match_only() {
    let mut v: MiniVec<i32> = MiniVec::new();
    for x in [0, 1, 1, 1, 2, 3, 4] {
        v.push(x);
    }
    assert_eq!(v.remove_item(&1), Some(1));
    assert_eq!(v.as_slice(), &[0, 1, 1, 2, 3, 4][..]);
    assert_eq!(v.remove_item(&9), None);
    assert_eq!(v.as_slice(), &[0, 1, 1, 2, 3, 4][..]);
}

#[test]
fn as_mut_slice_writes_through() {
    let mut v: MiniVec<i32> = MiniVec::new();
    for x in [1, 2, 3] {
        v.push(x);
    }
    {
        let s = v.as_mut_slice();
        s[0] = 1337;
    }
    assert_eq!(v.as_slice(), &[1337, 2, 3][..]);
}
