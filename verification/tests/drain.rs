use cursors::VecDrain;

#[test]
fn drain_middle_front_to_back() {
    let v = vec![1, 2, 3, 4, 5, 6, 7];
    let mut d = VecDrain::new(v, 1, 4);
    assert_eq!(d.next(), Some(2));
    assert_eq!(d.next(), Some(3));
    assert_eq!(d.next(), Some(4));
    assert_eq!(d.next(), None);
    assert_eq!(d.finish(), vec![1, 5, 6, 7]);
}

#[test]
fn drain_middle_back_to_front() {
    let v = vec![1, 2, 3, 4, 5, 6, 7];
    let mut d = VecDrain::new(v, 1, 4);
    assert_eq!(d.next_back(), Some(4));
    assert_eq!(d.next_back(), Some(3));
    assert_eq!(d.next_back(), Some(2));
    assert_eq!(d.next_back(), None);
    assert_eq!(d.finish(), vec![1, 5, 6, 7]);
}

#[test]
fn drain_abandoned_early_leaves_same_array() {
    let v = vec![1, 2, 3, 4, 5, 6, 7];
    let mut d = VecDrain::new(v, 1, 4);
    assert_eq!(d.next(), Some(2));
    assert_eq!(d.finish(), vec![1, 5, 6, 7]);
}

#[test]
fn drain_untouched_still_removes_range() {
    let v = vec![1, 2, 3, 4, 5, 6, 7];
    let d = VecDrain::new(v, 1, 4);
    assert_eq!(d.finish(), vec![1, 5, 6, 7]);
}

#[test]
fn drain_interleaved_ends() {
    let v = vec![0, 1, 2, 3, 4, 5];
    let mut d = VecDrain::new(v, 1, 5);
    assert_eq!(d.next(), Some(1));
    assert_eq!(d.next_back(), Some(4));
    assert_eq!(d.next(), Some(2));
    assert_eq!(d.next_back(), Some(3));
    assert_eq!(d.next(), None);
    assert_eq!(d.next_back(), None);
    assert_eq!(d.finish(), vec![0, 5]);
}

#[test]
fn drain_empty_range_is_no_op() {
    let v = vec![1, 2, 3];
    let mut d = VecDrain::new(v, 2, 2);
    assert_eq!(d.next(), None);
    assert_eq!(d.next_back(), None);
    assert_eq!(d.finish(), vec![1, 2, 3]);
}

#[test]
fn drain_whole_array() {
    let v = vec![1, 2, 3, 4];
    let mut d = VecDrain::new(v, 0, 4);
    let mut yielded = Vec::new();
    while let Some(x) = d.next() {
        yielded.push(x);
    }
    assert_eq!(yielded, vec![1, 2, 3, 4]);
    assert_eq!(d.finish(), Vec::<i32>::new());
}

#[test]
fn drain_prefix_and_suffix() {
    let v = vec![1, 2, 3, 4, 5];
    let d = VecDrain::new(v, 0, 2);
    assert_eq!(d.finish(), vec![3, 4, 5]);

    let v = vec![1, 2, 3, 4, 5];
    let d = VecDrain::new(v, 3, 5);
    assert_eq!(d.finish(), vec![1, 2, 3]);
}

#[test]
fn drain_nth_destroys_then_yields() {
    let v = vec![1, 2, 3, 4, 5, 6, 7];
    let mut d = VecDrain::new(v, 1, 6);
    assert_eq!(d.nth(2), Some(4));
    assert_eq!(d.next(), Some(5));
    assert_eq!(d.next(), Some(6));
    assert_eq!(d.next(), None);
    assert_eq!(d.finish(), vec![1, 7]);
}

#[test]
fn drain_nth_clamped_past_the_end() {
    let v = vec![1, 2, 3, 4, 5];
    let mut d = VecDrain::new(v, 1, 4);
    assert_eq!(d.nth(10), None);
    assert_eq!(d.next(), None);
    assert_eq!(d.finish(), vec![1, 5]);
}

#[test]
fn drain_nth_back_destroys_then_yields() {
    let v = vec![1, 2, 3, 4, 5, 6, 7];
    let mut d = VecDrain::new(v, 1, 6);
    assert_eq!(d.nth_back(2), Some(4));
    assert_eq!(d.next_back(), Some(3));
    assert_eq!(d.next(), Some(2));
    assert_eq!(d.next(), None);
    assert_eq!(d.finish(), vec![1, 7]);
}

#[test]
fn drain_nth_back_clamped_past_the_end() {
    let v = vec![1, 2, 3, 4, 5];
    let mut d = VecDrain::new(v, 2, 5);
    assert_eq!(d.nth_back(7), None);
    assert_eq!(d.next_back(), None);
    assert_eq!(d.finish(), vec![1, 2]);
}

#[test]
fn drain_unbounded_shorthands() {
    let v = vec![1, 2, 3, 4, 5];
    let mut d = cursors::VecDrain::new_from(v, 3);
    assert_eq!(d.next(), Some(4));
    assert_eq!(d.next(), Some(5));
    assert_eq!(d.next(), None);
    assert_eq!(d.finish(), vec![1, 2, 3]);

    let v = vec![1, 2, 3, 4, 5];
    let mut d = cursors::VecDrain::new_to(v, 2);
    assert_eq!(d.next(), Some(1));
    assert_eq!(d.finish(), vec![3, 4, 5]);
}

#[test]
fn drain_size_hint_exact() {
    let v = vec![1, 2, 3, 4, 5, 6];
    let mut d = VecDrain::new(v, 2, 5);
    assert_eq!(d.size_hint(), (3, Some(3)));
    d.next();
    assert_eq!(d.size_hint(), (2, Some(2)));
    d.next_back();
    d.next();
    assert_eq!(d.size_hint(), (0, Some(0)));
    assert_eq!(d.finish(), vec![1, 2, 6]);
}

#[test]
fn drain_last_yields_backmost_and_finishes() {
    let v = vec![1, 2, 3, 4, 5, 6, 7];
    let mut d = VecDrain::new(v, 1, 4);
    assert_eq!(d.next(), Some(2));
    let (x, arr) = d.last();
    assert_eq!(x, Some(4));
    assert_eq!(arr, vec![1, 5, 6, 7]);

    let v = vec![1, 2, 3];
    let d = VecDrain::new(v, 1, 1);
    let (x, arr) = d.last();
    assert_eq!(x, None);
    assert_eq!(arr, vec![1, 2, 3]);
}

#[test]
fn drain_yields_each_removed_element_exactly_once() {
    let v = vec![9, 8, 7, 6, 5];
    let mut d = VecDrain::new(v, 1, 4);
    let mut yielded = Vec::new();
    loop {
        match d.next_back() {
            Some(x) => yielded.push(x),
            None => break,
        }
    }
    yielded.sort();
    assert_eq!(yielded, vec![6, 7, 8]);
    assert_eq!(d.finish(), vec![9, 5]);
}
