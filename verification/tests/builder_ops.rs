//! The low-level and move-based builders, including the overflow error
//! and the completion transitions.

use brownstone::builder;
use brownstone::move_builder;

/// A type that can be neither cloned nor defaulted, so the only way the
/// overflow error can carry one back is by returning the pushed value.
struct Unique(i32);

#[test]
fn overflow_returns_exact_value() {
    let mut b = builder::ArrayBuilder::<Unique, 1>::new();
    assert!(matches!(b.try_push(Unique(1)), Ok(builder::PushResult::Full)));
    match b.try_push(Unique(42)) {
        Err(overflow) => assert_eq!(overflow.0 .0, 42),
        Ok(_) => panic!("push into a full builder must overflow"),
    }
    assert_eq!(b.len(), 1);
}

#[test]
fn push_finish_round_trip() {
    let mut b = builder::ArrayBuilder::<i32, 3>::new();
    assert!(b.is_empty());
    assert!(!b.is_full());
    assert_eq!(b.push(10), builder::PushResult::NotFull);
    assert_eq!(b.push(20), builder::PushResult::NotFull);
    assert_eq!(b.finished_slice(), &[10, 20]);
    assert_eq!(b.push(30), builder::PushResult::Full);
    assert!(b.is_full());
    assert_eq!(b.len(), 3);
    assert_eq!(b.finish(), [10, 20, 30]);
}

#[test]
fn try_finish_incomplete_returns_builder() {
    let mut b = builder::ArrayBuilder::<i32, 2>::new();
    b.push(5);
    let mut b = match b.try_finish() {
        Ok(_) => panic!("an incomplete builder must not finish"),
        Err(b) => b,
    };
    assert_eq!(b.finished_slice(), &[5]);
    b.push(6);
    match b.try_finish() {
        Ok(array) => assert_eq!(array, [5, 6]),
        Err(_) => panic!("a full builder must finish"),
    }
}

#[test]
fn push_unchecked_appends() {
    let mut b = builder::ArrayBuilder::<i32, 2>::new();
    assert_eq!(b.push_unchecked(1), builder::PushResult::NotFull);
    assert_eq!(b.push_unchecked(2), builder::PushResult::Full);
    assert_eq!(b.finish_unchecked(), [1, 2]);
}

#[test]
fn zero_capacity_start_is_complete() {
    match move_builder::ArrayBuilder::<i32, 0>::start() {
        move_builder::PushResult::Full(array) => assert_eq!(array, []),
        move_builder::PushResult::NotFull(_) => {
            panic!("a zero-capacity start must not create a builder")
        }
    }
}

#[test]
fn complete_transition_on_nth_push() {
    let mut builder = match move_builder::ArrayBuilder::<usize, 3>::start() {
        move_builder::PushResult::NotFull(b) => b,
        move_builder::PushResult::Full(_) => panic!("capacity 3 must yield a builder"),
    };
    for pushed in 1..=3usize {
        assert_eq!(builder.len(), pushed - 1);
        match builder.push(pushed) {
            move_builder::PushResult::NotFull(b) => {
                assert_ne!(pushed, 3, "the third push must complete the array");
                builder = b;
            }
            move_builder::PushResult::Full(array) => {
                assert_eq!(pushed, 3, "no push before the third may complete the array");
                assert_eq!(array, [1, 2, 3]);
                return;
            }
        }
    }
    panic!("the loop must have returned on the completing push");
}

#[test]
fn finished_slice_mut_edits_the_prefix() {
    let mut builder = match move_builder::ArrayBuilder::<i32, 3>::start() {
        move_builder::PushResult::NotFull(b) => b,
        move_builder::PushResult::Full(_) => panic!("capacity 3 must yield a builder"),
    };
    builder = match builder.push(10) {
        move_builder::PushResult::NotFull(b) => b,
        move_builder::PushResult::Full(_) => panic!("one push of three must not complete"),
    };
    assert!(!builder.is_empty());
    assert_eq!(builder.finished_slice(), &[10]);
    builder.finished_slice_mut()[0] = 42;
    builder = match builder.push(20) {
        move_builder::PushResult::NotFull(b) => b,
        move_builder::PushResult::Full(_) => panic!("two pushes of three must not complete"),
    };
    match builder.push(30) {
        move_builder::PushResult::Full(array) => assert_eq!(array, [42, 20, 30]),
        move_builder::PushResult::NotFull(_) => panic!("the third push must complete"),
    }
}

#[test]
fn cloned_builder_continues_independently() {
    let mut first = builder::ArrayBuilder::<String, 2>::new();
    first.push(String::from("shared"));
    let mut second = first.clone();
    first.push(String::from("left"));
    second.push(String::from("right"));
    assert_eq!(first.finish(), [String::from("shared"), String::from("left")]);
    assert_eq!(second.finish(), [String::from("shared"), String::from("right")]);
}

#[test]
fn cloned_move_builder_continues_independently() {
    let first = match move_builder::ArrayBuilder::<i32, 2>::start() {
        move_builder::PushResult::NotFull(b) => b,
        move_builder::PushResult::Full(_) => panic!("capacity 2 must yield a builder"),
    };
    let first = match first.push(1) {
        move_builder::PushResult::NotFull(b) => b,
        move_builder::PushResult::Full(_) => panic!("one push of two must not complete"),
    };
    let second = first.clone();
    match (first.push(2), second.push(3)) {
        (move_builder::PushResult::Full(a), move_builder::PushResult::Full(b)) => {
            assert_eq!(a, [1, 2]);
            assert_eq!(b, [1, 3]);
        }
        _ => panic!("the second push of two must complete"),
    }
}

#[test]
fn low_level_slice_mut() {
    let mut b = builder::ArrayBuilder::<i32, 2>::new();
    b.push(1);
    b.push(2);
    b.finished_slice_mut()[1] = 7;
    assert_eq!(b.finish(), [1, 7]);
}
