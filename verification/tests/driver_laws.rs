//! The construction drivers: success contents, failure indexing, prefix
//! fidelity, iterator feeding and clone filling.

use brownstone::IndexedError;

/// Cloning appends the clone's own position, showing each element is
/// cloned from the element right before it, not from the seed.
#[derive(Debug, PartialEq)]
struct Chained(Vec<u32>);

impl Clone for Chained {
    fn clone(&self) -> Self {
        let mut history = self.0.clone();
        history.push(history.len() as u32);
        Chained(history)
    }
}

#[test]
fn fallible_success_yields_full_array() {
    let r: Result<[usize; 3], IndexedError<()>> =
        brownstone::try_build_prefix(|prefix: &[usize]| Ok(prefix.len()));
    assert_eq!(r, Ok([0, 1, 2]));
}

#[test]
fn prefix_failure_is_tagged_with_its_index() {
    let r: Result<[i32; 5], IndexedError<&str>> =
        brownstone::try_build_prefix(|prefix: &[i32]| {
            if prefix.len() == 2 {
                Err("boom")
            } else {
                Ok(prefix.len() as i32)
            }
        });
    assert_eq!(r, Err(IndexedError { index: 2, error: "boom" }));
}

#[test]
fn indexed_failure_is_tagged_with_its_index() {
    let r: Result<[i32; 4], IndexedError<i32>> = brownstone::try_build_indexed(|idx: usize| {
        if idx == 3 {
            Err(-7)
        } else {
            Ok(idx as i32 * 10)
        }
    });
    assert_eq!(r, Err(IndexedError { index: 3, error: -7 }));
}

#[test]
fn stateful_failure_counts_calls() {
    let mut calls = 0;
    let r: Result<[i32; 4], IndexedError<&str>> = brownstone::try_build(|| {
        calls += 1;
        if calls == 3 {
            Err("third call fails")
        } else {
            Ok(calls)
        }
    });
    assert_eq!(
        r,
        Err(IndexedError { index: 2, error: "third call fails" })
    );
    assert_eq!(calls, 3, "the producer must not be called after its failure");
}

#[test]
fn prefix_fidelity() {
    let array: [i32; 6] = brownstone::build_prefix(|prefix: &[i32]| {
        for (position, value) in prefix.iter().enumerate() {
            assert_eq!(
                *value, position as i32,
                "the slice must hold the earlier calls' values in order"
            );
        }
        prefix.len() as i32
    });
    assert_eq!(array, [0, 1, 2, 3, 4, 5]);
}

#[test]
fn iterator_fill_takes_a_prefix_of_the_source() {
    let array: [i32; 5] = brownstone::build_iter(1..);
    assert_eq!(array, [1, 2, 3, 4, 5]);
}

#[test]
fn iterator_fill_rejects_a_short_source() {
    let r: Option<[i32; 10]> = brownstone::try_build_iter([1, 2, 3].into_iter());
    assert_eq!(r, None);
}

#[test]
fn iterator_fill_exact_source() {
    let r: Option<[i32; 3]> = brownstone::try_build_iter([1, 2, 3].into_iter());
    assert_eq!(r, Some([1, 2, 3]));
}

#[test]
fn clone_fill_copies_the_seed() {
    let array: [Vec<i32>; 4] = brownstone::build_cloned(vec![1, 2, 3]);
    for element in &array {
        assert_eq!(element, &vec![1, 2, 3]);
    }
}

#[test]
fn clone_fill_clones_the_predecessor() {
    let array: [Chained; 3] = brownstone::build_cloned(Chained(vec![0]));
    assert_eq!(array[0], Chained(vec![0]));
    assert_eq!(array[1], Chained(vec![0, 1]));
    assert_eq!(array[2], Chained(vec![0, 1, 2]));
}

#[test]
fn zero_length_drivers() {
    let a: [i32; 0] = brownstone::build(|| panic!("a zero-length build must not call its producer"));
    assert_eq!(a, []);
    let b: Result<[i32; 0], IndexedError<()>> = brownstone::try_build_indexed(|_idx| Err(()));
    assert_eq!(b, Ok([]));
    let c: Option<[i32; 0]> = brownstone::try_build_iter(std::iter::empty());
    assert_eq!(c, Some([]));
}
