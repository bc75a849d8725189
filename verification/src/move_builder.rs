//! A misuse-immune array builder.
//!
//! This [`ArrayBuilder`] uses move semantics to build an array with no
//! fallible operation: every call to [`ArrayBuilder::push`] takes the
//! builder by value and returns either a new builder (if the array is not
//! full yet) or the fully initialized array (if it is). A builder whose
//! buffer is full therefore cannot exist, which is stated here as a type
//! invariant: the view of a live builder is always shorter than `N`.

use vstd::prelude::*;

use crate::builder;

verus! {

/// The result of pushing to an [`ArrayBuilder`]. If the push filled the
/// array, the array itself is returned; otherwise the builder is returned
/// with its updated state, and the caller must handle the two cases
/// explicitly.
#[derive(Clone)]
#[verifier::reject_recursive_types(T)]
pub enum PushResult<T, const N: usize> {
    Full([T; N]),
    NotFull(ArrayBuilder<T, N>),
}

/// Misuse-immune array builder: its existence as a value proves that the
/// array under construction is not yet complete.
///
/// The view `self@` is the sequence of elements pushed so far; a live
/// builder always satisfies `self@.len() < N`.
#[verifier::reject_recursive_types(T)]
pub struct ArrayBuilder<T, const N: usize> {
    builder: builder::ArrayBuilder<T, N>,
}

impl<T, const N: usize> View for ArrayBuilder<T, N> {
    type V = Seq<T>;

    closed spec fn view(&self) -> Seq<T> {
        self.builder@
    }
}

impl<T, const N: usize> ArrayBuilder<T, N> {
    /// While an `ArrayBuilder` exists, the array it is building is not
    /// full: pushes never overflow and the overflow failure of the
    /// low-level builder is unreachable through this type.
    #[verifier::type_invariant]
    spec fn not_full(self) -> bool {
        self@.len() < N
    }

    /// Begin building an array. If `N == 0` the complete empty array is
    /// returned at once and no builder is ever created; otherwise the
    /// result carries an empty builder.
    pub fn start() -> (r: PushResult<T, N>)
        requires
            N <= u32::MAX as usize,
        ensures
            N == 0 ==> (r matches PushResult::Full(a) && a@ === Seq::<T>::empty()),
            N > 0 ==> (r matches PushResult::NotFull(b) && b@ === Seq::<T>::empty()),
    {
        match builder::ArrayBuilder::new().try_finish() {
            Ok(array) => PushResult::Full(array),
            Err(builder) => PushResult::NotFull(Self { builder }),
        }
    }

    /// Returns true if no element of the array is initialized yet.
    pub fn is_empty(&self) -> (r: bool)
        ensures
            r == (self@.len() == 0),
    {
        self.builder.is_empty()
    }

    /// Returns the number of initialized elements, always below `N`.
    pub fn len(&self) -> (r: usize)
        ensures
            r == self@.len(),
            r < N,
    {
        proof {
            use_type_invariant(self);
        }
        self.builder.len()
    }

    /// Add the next element to the array, consuming the builder. The one
    /// push that fills the array — the `N`-th counting from the start —
    /// returns the finished array; every earlier push returns the builder
    /// with the element appended.
    pub fn push(self, value: T) -> (r: PushResult<T, N>)
        ensures
            self@.len() < N,
            r is Full <==> self@.len() + 1 == N,
            self@.len() + 1 == N ==> (r matches PushResult::Full(a) && a@ === self@.push(
                value,
            )),
            self@.len() + 1 < N ==> (r matches PushResult::NotFull(b) && b@ === self@.push(
                value,
            )),
    {
        proof {
            use_type_invariant(&self);
        }
        let Self { mut builder } = self;
        match builder.push_unchecked(value) {
            builder::PushResult::NotFull => PushResult::NotFull(Self { builder }),
            builder::PushResult::Full => PushResult::Full(builder.finish_unchecked()),
        }
    }

    /// Get the slice of the array that has already been initialized.
    pub fn finished_slice(&self) -> (r: &[T])
        ensures
            r@ === self@,
    {
        self.builder.finished_slice()
    }

    /// Get the mutable slice of the array that has already been
    /// initialized, for in-place mutation of the prefix.
    pub fn finished_slice_mut(&mut self) -> (r: &mut [T])
        ensures
            r@ === old(self)@,
            final(r)@.len() == old(self)@.len(),
            final(self)@ === final(r)@,
    {
        proof {
            use_type_invariant(&*self);
        }
        self.builder.finished_slice_mut()
    }
}

impl<T: Clone, const N: usize> Clone for ArrayBuilder<T, N> {
    /// A clone is again a live builder: it holds one clone of each
    /// initialized element, in order, and as many of them as the
    /// source — still fewer than `N`.
    fn clone(&self) -> (r: Self)
        ensures
            r@.len() == self@.len(),
            forall|i: int| 0 <= i < self@.len() ==> cloned::<T>(self@[i], #[trigger] r@[i]),
    {
        proof {
            use_type_invariant(self);
        }
        Self { builder: self.builder.clone() }
    }
}

} // verus!
