use sll::SLL;

#[test]
fn append_gives_len_and_values_in_order() {
    let mut l: SLL<i64> = SLL::new();
    let vals = [7, -3, 0, 42, 5];
    for (i, v) in vals.iter().enumerate() {
        l.push(*v);
        assert_eq!(l.len(), i + 1);
    }
    assert_eq!(l.len(), vals.len());
    for (i, v) in vals.iter().enumerate() {
        assert_eq!(*l.index(i), *v);
    }
}

#[test]
fn pop_returns_last_and_keeps_prefix() {
    let mut l: SLL<i64> = SLL::new();
    l.push(10);
    l.push(20);
    l.push(30);
    assert_eq!(l.pop(), Some(30));
    assert_eq!(l.len(), 2);
    assert_eq!(*l.index(0), 10);
    assert_eq!(*l.index(1), 20);
}

#[test]
fn pop_on_length_one() {
    let mut l: SLL<i64> = SLL::new();
    l.push(99);
    assert_eq!(l.pop(), Some(99));
    assert_eq!(l.len(), 0);
    assert!(l.get_start_ptr().is_none());
}

#[test]
fn pop_on_empty_returns_none() {
    let mut l: SLL<i64> = SLL::new();
    assert_eq!(l.pop(), None);
    assert_eq!(l.len(), 0);
}

#[test]
fn remove_front_shifts_down() {
    let mut l: SLL<i64> = SLL::new();
    for v in [1, 2, 3, 4] {
        l.push(v);
    }
    assert_eq!(l.remove(0), Some(1));
    assert_eq!(l.len(), 3);
    assert_eq!(*l.index(0), 2);
    assert_eq!(*l.index(1), 3);
    assert_eq!(*l.index(2), 4);
}

#[test]
fn remove_middle_preserves_order() {
    let mut l: SLL<i64> = SLL::new();
    for v in [1, 2, 3, 4, 5] {
        l.push(v);
    }
    assert_eq!(l.remove(2), Some(3));
    assert_eq!(l.len(), 4);
    for (i, v) in [1, 2, 4, 5].iter().enumerate() {
        assert_eq!(*l.index(i), *v);
    }
}

#[test]
fn remove_tail_is_pop() {
    let mut l: SLL<i64> = SLL::new();
    for v in [1, 2, 3] {
        l.push(v);
    }
    assert_eq!(l.remove(2), Some(3));
    assert_eq!(l.len(), 2);
    assert_eq!(*l.index(0), 1);
    assert_eq!(*l.index(1), 2);
}

#[test]
fn round_trip_pops_in_reverse_append_order() {
    let mut l: SLL<i64> = SLL::new();
    let vals = [4, 8, 15, 16, 23, 42];
    for v in vals {
        l.push(v);
    }
    let mut popped = Vec::new();
    while let Some(v) = l.pop() {
        popped.push(v);
    }
    let mut expected: Vec<i64> = vals.to_vec();
    expected.reverse();
    assert_eq!(popped, expected);
    assert_eq!(l.len(), 0);
}

#[test]
fn scenario_append_remove_pop() {
    let mut l: SLL<i64> = SLL::new();
    l.push(1);
    l.push(2);
    l.push(3);
    assert_eq!(l.len(), 3);
    assert_eq!(*l.index(0), 1);
    assert_eq!(*l.index(1), 2);
    assert_eq!(*l.index(2), 3);
    assert_eq!(l.remove(1), Some(2));
    assert_eq!(*l.index(0), 1);
    assert_eq!(*l.index(1), 3);
    assert_eq!(l.len(), 2);
    assert_eq!(l.pop(), Some(3));
    assert_eq!(l.len(), 1);
    assert_eq!(l.pop(), Some(1));
    assert_eq!(l.len(), 0);
    assert_eq!(l.pop(), None);
}

#[test]
fn insert_at_front() {
    let mut l: SLL<i64> = SLL::new();
    for v in [1, 2, 3] {
        l.push(v);
    }
    l.insert(0, 9);
    assert_eq!(l.len(), 4);
    for (i, v) in [9, 1, 2, 3].iter().enumerate() {
        assert_eq!(*l.index(i), *v);
    }
}

#[test]
fn insert_in_middle() {
    let mut l: SLL<i64> = SLL::new();
    for v in [1, 2, 4] {
        l.push(v);
    }
    l.insert(2, 3);
    assert_eq!(l.len(), 4);
    for (i, v) in [1, 2, 3, 4].iter().enumerate() {
        assert_eq!(*l.index(i), *v);
    }
}

#[test]
fn insert_at_len_is_append() {
    let mut a: SLL<i64> = SLL::new();
    let mut b: SLL<i64> = SLL::new();
    for v in [1, 2, 3] {
        a.push(v);
        b.push(v);
    }
    a.insert(3, 4);
    b.push(4);
    assert_eq!(a.len(), b.len());
    for i in 0..a.len() {
        assert_eq!(*a.index(i), *b.index(i));
    }
}

#[test]
fn insert_into_empty_at_zero() {
    let mut l: SLL<i64> = SLL::new();
    l.insert(0, 5);
    assert_eq!(l.len(), 1);
    assert_eq!(*l.index(0), 5);
}

#[test]
fn index_mut_writes_one_position() {
    let mut l: SLL<i64> = SLL::new();
    for v in [1, 2, 3] {
        l.push(v);
    }
    *l.index_mut(1) = 20;
    assert_eq!(*l.index(0), 1);
    assert_eq!(*l.index(1), 20);
    assert_eq!(*l.index(2), 3);
    assert_eq!(l.len(), 3);
}

#[test]
fn bookkeeping_primitives_touch_only_their_field() {
    let mut l: SLL<i64> = SLL::new();
    l.push(1);
    l.push(2);
    l.set_len(2);
    assert_eq!(l.len(), 2);
    l.pos_inc_len();
    assert_eq!(l.len(), 3);
    l.neg_inc_len();
    assert_eq!(l.len(), 2);
    assert_eq!(*l.index(0), 1);
    assert_eq!(*l.index(1), 2);
    let s = l.get_start_ptr();
    l.set_start_ptr(s);
    assert_eq!(l.get_start_ptr(), s);
}

#[test]
fn start_ptr_tracks_first_node() {
    let mut l: SLL<i64> = SLL::new();
    assert!(l.get_start_ptr().is_none());
    l.push(1);
    let s = l.get_start_ptr();
    assert!(s.is_some());
    assert_eq!(l.ptr_to(0), s);
    l.push(2);
    assert_eq!(l.get_start_ptr(), s);
    assert!(l.ptr_to(1).is_some());
    assert_ne!(l.ptr_to(1), s);
}
