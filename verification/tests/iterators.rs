use minivec::MiniVec;

fn from_array(xs: &[i32]) -> MiniVec<i32> {
    let mut v = MiniVec::new();
    for x in xs {
        v.push(*x);
    }
    v
}

#[test]
fn drain_yields_range_in_order_and_restores_rest() {
    let mut v = from_array(&[1, 2, 3, 4, 5, 6, 7, 8, 9, 10]);
    let mut d = v.drain(2..5);
    let mut out = Vec::new();
    while let Some(x) = d.next() {
        out.push(x);
    }
    assert_eq!(out, vec![3, 4, 5]);
    assert_eq!(v.as_slice(), &[1, 2, 6, 7, 8, 9, 10][..]);
}

#[test]
fn drain_mapped_scenario() {
    let mut v = from_array(&[1, 2, 3, 4, 5, 6, 7, 8, 9, 10]);
    let mut d = v.drain(1..7);
    let mut other = Vec::new();
    while let Some(x) = d.next() {
        other.push(x + 2);
    }
    assert_eq!(other, vec![4, 5, 6, 7, 8, 9]);
    assert_eq!(v.as_slice(), &[1, 8, 9, 10][..]);
}

#[test]
fn drain_early_drop_leaves_same_container() {
    let mut full = from_array(&[1, 2, 3, 4, 5, 6]);
    {
        let mut d = full.drain(1..4);
        while let Some(_x) = d.next() {}
    }
    let mut early = from_array(&[1, 2, 3, 4, 5, 6]);
    {
        let mut d = early.drain(1..4);
        let _first = d.next();
    }
    assert_eq!(full.as_slice(), early.as_slice());
    assert_eq!(full.as_slice(), &[1, 5, 6][..]);
}

#[test]
fn drain_from_both_ends() {
    let mut v = from_array(&[1, 2, 3, 4, 5]);
    let mut d = v.drain(0..5);
    assert_eq!(d.len(), 5);
    assert_eq!(d.next(), Some(1));
    assert_eq!(d.next_back(), Some(5));
    assert_eq!(d.next(), Some(2));
    assert_eq!(d.next_back(), Some(4));
    assert_eq!(d.next(), Some(3));
    assert!(d.is_empty());
    assert_eq!(d.next(), None);
    assert_eq!(d.next_back(), None);
    assert_eq!(v.len(), 0);
}

#[test]
fn drain_empty_and_full_ranges() {
    let mut v = from_array(&[1, 2, 3]);
    let mut d = v.drain(1..1);
    assert_eq!(d.next(), None);
    assert_eq!(v.as_slice(), &[1, 2, 3][..]);
    let mut d2 = v.drain(0..3);
    assert_eq!(d2.len(), 3);
    let mut out = Vec::new();
    while let Some(x) = d2.next() {
        out.push(x);
    }
    assert_eq!(out, vec![1, 2, 3]);
    assert_eq!(v.len(), 0);
}

#[test]
fn splice_scenario() {
    let mut x = from_array(&[1, 2, 3, 4, 5, 6]);
    let mut rep = Vec::new();
    rep.push(7);
    rep.push(8);
    let mut s = x.splice(1..4, rep);
    let mut y = Vec::new();
    while let Some(v) = s.next() {
        y.push(v);
    }
    assert_eq!(y, vec![2, 3, 4]);
    assert_eq!(x.as_slice(), &[1, 7, 8, 5, 6][..]);
}

#[test]
fn splice_early_drop_still_replaces() {
    let mut x = from_array(&[1, 2, 3, 4, 5, 6]);
    let mut rep = Vec::new();
    rep.push(7);
    rep.push(8);
    {
        let _s = x.splice(1..4, rep);
    }
    assert_eq!(x.as_slice(), &[1, 7, 8, 5, 6][..]);
}

#[test]
fn splice_with_longer_replacement_grows() {
    let mut x = from_array(&[1, 2, 3]);
    x.shrink_to_fit();
    assert_eq!(x.capacity(), 3);
    let mut rep = Vec::new();
    for v in [10, 11, 12, 13] {
        rep.push(v);
    }
    let mut s = x.splice(1..2, rep);
    assert_eq!(s.len(), 1);
    assert_eq!(s.next(), Some(2));
    assert_eq!(x.as_slice(), &[1, 10, 11, 12, 13, 3][..]);
    assert!(x.capacity() >= 6);
}

#[test]
fn drain_filter_removes_matching_in_order() {
    let mut v = from_array(
        &[
            1, 2, 4, 6, 7, 9, 11, 13, 15, 17, 18, 20, 22, 24, 26, 27, 29, 31, 33, 34, 35, 36, 37,
            39,
        ],
    );
    let mut d = v.drain_filter(|x: &i32| *x % 2 == 0);
    let mut removed = Vec::new();
    while let Some(x) = d.next() {
        removed.push(x);
    }
    assert_eq!(removed.len(), 10);
    assert_eq!(removed, vec![2, 4, 6, 18, 20, 22, 24, 26, 34, 36]);
    assert_eq!(v.len(), 14);
    assert_eq!(
        v.as_slice(),
        &[1, 7, 9, 11, 13, 15, 17, 27, 29, 31, 33, 35, 37, 39][..],
    );
}

#[test]
fn retain_keeps_order_and_is_idempotent() {
    let mut v = from_array(&[1, 2, 3, 4, 5, 6]);
    let is_even = |x: &i32| *x % 2 == 0;
    let cap = v.capacity();
    v.retain(is_even);
    assert_eq!(v.as_slice(), &[2, 4, 6][..]);
    assert_eq!(v.capacity(), cap);
    v.retain(is_even);
    assert_eq!(v.as_slice(), &[2, 4, 6][..]);
}

#[test]
fn retain_of_empty_and_of_nothing_kept() {
    let mut v: MiniVec<i32> = MiniVec::new();
    v.retain(|_x: &i32| true);
    assert_eq!(v.len(), 0);
    let mut w = from_array(&[1, 2, 3]);
    w.retain(|_x: &i32| false);
    assert_eq!(w.len(), 0);
}

#[test]
fn dedup_scenario() {
    let mut v = from_array(&[1, 2, 1, 1, 3, 3, 3, 4, 5, 4]);
    v.dedup();
    assert_eq!(v.as_slice(), &[1, 2, 1, 3, 4, 5, 4][..]);
}

#[test]
fn dedup_of_all_equal_keeps_one() {
    let mut v = from_array(&[7, 7, 7, 7]);
    v.dedup();
    assert_eq!(v.as_slice(), &[7][..]);
    v.dedup();
    assert_eq!(v.as_slice(), &[7][..]);
}

#[test]
fn dedup_of_empty_and_singleton() {
    let mut v: MiniVec<i32> = MiniVec::new();
    v.dedup();
    assert_eq!(v.len(), 0);
    v.push(5);
    v.dedup();
    assert_eq!(v.as_slice(), &[5][..]);
}

#[test]
fn dedup_by_compares_with_last_kept() {
    let mut v = from_array(&[1, 2, 3, 4, 5, 6, 7, 8, 9, 10]);
    v.dedup_by(|x: &i32, y: &i32| *x + *y < 8);
    assert_eq!(v.as_slice(), &[1, 7, 8, 9, 10][..]);
}

#[test]
fn dedup_by_key_compares_keys() {
    let mut v: MiniVec<&str> = MiniVec::new();
    for s in ["a", "b", "c", "aa", "bbb", "cc", "dd"] {
        v.push(s);
    }
    v.dedup_by_key(|x: &&str| x.len());
    assert_eq!(v.as_slice(), &["a", "aa", "bbb", "cc"][..]);
}
