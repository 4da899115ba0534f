use cursors::{SliceIter, SliceIterMut};

#[test]
fn iter_front_in_order() {
    let data = [1, 2, 3, 4];
    let mut it = SliceIter::new(&data);
    let mut seen = Vec::new();
    while let Some(x) = it.next() {
        seen.push(*x);
    }
    assert_eq!(seen, vec![1, 2, 3, 4]);
    assert!(it.next().is_none());
    assert!(it.next_back().is_none());
}

#[test]
fn iter_back_in_order() {
    let data = [1, 2, 3, 4];
    let mut it = SliceIter::new(&data);
    let mut seen = Vec::new();
    while let Some(x) = it.next_back() {
        seen.push(*x);
    }
    assert_eq!(seen, vec![4, 3, 2, 1]);
    assert!(it.next_back().is_none());
    assert!(it.next().is_none());
}

#[test]
fn iter_interleaved_yields_each_exactly_once() {
    let data = [10, 20, 30, 40, 50];
    let mut it = SliceIter::new(&data);
    let mut yielded = Vec::new();
    let mut from_front = true;
    loop {
        let got = if from_front { it.next() } else { it.next_back() };
        match got {
            Some(x) => yielded.push(*x),
            None => break,
        }
        from_front = !from_front;
    }
    assert_eq!(yielded.len(), data.len());
    assert_eq!(yielded, vec![10, 50, 20, 40, 30]);
    let mut sorted = yielded.clone();
    sorted.sort();
    assert_eq!(sorted, vec![10, 20, 30, 40, 50]);
    assert!(it.next().is_none());
    assert!(it.next_back().is_none());
}

#[test]
fn iter_as_slice_shrinks() {
    let data = [1, 2, 3, 4, 5];
    let mut it = SliceIter::new(&data);
    assert_eq!(it.as_slice(), &[1, 2, 3, 4, 5]);
    it.next();
    it.next_back();
    assert_eq!(it.as_slice(), &[2, 3, 4]);
}

#[test]
fn iter_nth_skips_then_yields() {
    let data = [10, 20, 30, 40, 50];
    let mut it = SliceIter::new(&data);
    assert_eq!(it.nth(2), Some(&30));
    assert_eq!(it.next(), Some(&40));
    let mut it2 = SliceIter::new(&data);
    assert_eq!(it2.nth(5), None);
    assert_eq!(it2.as_slice().len(), 0);
    assert!(it2.next().is_none());
}

#[test]
fn iter_nth_back_skips_then_yields() {
    let data = [10, 20, 30, 40, 50];
    let mut it = SliceIter::new(&data);
    assert_eq!(it.nth_back(1), Some(&40));
    assert_eq!(it.next_back(), Some(&30));
    let mut it2 = SliceIter::new(&data);
    assert_eq!(it2.nth_back(7), None);
    assert!(it2.next_back().is_none());
}

#[test]
fn iter_size_hint_exact() {
    let data = [1, 2, 3];
    let mut it = SliceIter::new(&data);
    assert_eq!(it.size_hint(), (3, Some(3)));
    it.next();
    assert_eq!(it.size_hint(), (2, Some(2)));
    it.next_back();
    it.next();
    assert_eq!(it.size_hint(), (0, Some(0)));
}

#[test]
fn mut_cursor_yields_slots_in_order() {
    let mut it = SliceIterMut::new(vec![5, 6, 7]);
    assert_eq!(it.next(), Some(0));
    assert_eq!(it.next_back(), Some(2));
    assert_eq!(it.next(), Some(1));
    assert_eq!(it.next(), None);
    assert_eq!(it.next_back(), None);
    assert_eq!(it.into_mut_slice(), vec![5, 6, 7]);
}

#[test]
fn mut_cursor_get_set_swap() {
    let mut it = SliceIterMut::new(vec![1, 2, 3, 4]);
    let a = it.next().unwrap();
    let b = it.next_back().unwrap();
    assert_eq!(*it.get(a), 1);
    assert_eq!(*it.get(b), 4);
    it.swap(a, b);
    assert_eq!(*it.get(a), 4);
    it.set(b, 9);
    assert_eq!(it.into_mut_slice(), vec![4, 2, 3, 9]);
}

#[test]
fn mut_cursor_nth_clamps() {
    let mut it = SliceIterMut::new(vec![1, 2, 3, 4, 5]);
    assert_eq!(it.nth(2), Some(2));
    assert_eq!(it.next(), Some(3));
    assert_eq!(it.nth(9), None);
    assert_eq!(it.size_hint(), (0, Some(0)));
    assert_eq!(it.next(), None);
}

#[test]
fn mut_cursor_nth_back_clamps() {
    let mut it = SliceIterMut::new(vec![1, 2, 3, 4, 5]);
    assert_eq!(it.nth_back(1), Some(3));
    assert_eq!(it.next_back(), Some(2));
    assert_eq!(it.nth_back(9), None);
    assert_eq!(it.next_back(), None);
}

#[test]
fn mut_cursor_size_hint_exact() {
    let mut it = SliceIterMut::new(vec![1, 2, 3, 4]);
    assert_eq!(it.size_hint(), (4, Some(4)));
    it.next();
    it.next_back();
    assert_eq!(it.size_hint(), (2, Some(2)));
}
