//! A low-level builder for fixed-size arrays.
//!
//! [`ArrayBuilder`] is a bounded write-buffer of capacity `N`: it holds the
//! initialized prefix of an `[T; N]` array under construction, appends one
//! element at a time, and disassembles into the finished array once every
//! slot has been written. Its storage is an `arrayvec::ArrayVec`; the
//! abstract contents are the view `self@`, a sequence of at most `N`
//! elements.

use vstd::prelude::*;

verus! {

/// Declares `arrayvec::ArrayVec` so that it can stand in a field. The
/// value is opaque to the verifier; the ghost `elems` field of
/// [`ArrayBuilder`] names what it holds.
#[verifier::external_type_specification]
#[verifier::external_body]
#[verifier::reject_recursive_types(T)]
pub struct ExArrayVec<T, const N: usize>(arrayvec::ArrayVec<T, N>);

/// Error returned from [`ArrayBuilder::try_push`], indicating that the
/// builder was already full. Carries the value that could not be pushed,
/// so that its ownership returns to the caller.
#[derive(Debug, Clone, Copy)]
pub struct Overflow<T>(pub T);

/// Outcome of a successful push, indicating whether the builder is full
/// after the push: once it is, the array can be retrieved with
/// [`ArrayBuilder::finish`].
#[derive(Debug, Clone, Copy, PartialEq, Eq, Structural)]
pub enum PushResult {
    NotFull,
    Full,
}

/// Low-level builder for `[T; N]` arrays, with a push + finish interface
/// that fills one element at a time.
///
/// The view `self@` is the sequence of elements pushed so far, in order;
/// its length never exceeds `N`. Most methods here are fallible in some
/// way; the move-based builder in [`crate::move_builder`] offers the same
/// storage behind an interface whose misuse is ruled out by ownership.
#[verifier::reject_recursive_types(T)]
pub struct ArrayBuilder<T, const N: usize> {
    vec: arrayvec::ArrayVec<T, N>,
    elems: Ghost<Seq<T>>,
}

impl<T, const N: usize> View for ArrayBuilder<T, N> {
    type V = Seq<T>;

    closed spec fn view(&self) -> Seq<T> {
        self.elems@
    }
}

impl<T, const N: usize> ArrayBuilder<T, N> {
    /// The buffer invariant: no more than `N` elements are ever
    /// initialized. Every operation of this module preserves it, so it
    /// holds of every builder value.
    #[verifier::type_invariant]
    spec fn capacity_bound(self) -> bool {
        self@.len() <= N
    }

    /// Create a new, empty builder.
    ///
    /// Relies on `arrayvec::ArrayVec::new`: a freshly created vector is
    /// empty. `new` panics when the capacity exceeds the largest length
    /// the vector can record, so such capacities are excluded here.
    #[verifier::external_body]
    pub fn new() -> (r: Self)
        requires
            N <= u32::MAX as usize,
        ensures
            r@ === Seq::<T>::empty(),
    {
        Self { vec: arrayvec::ArrayVec::new(), elems: Ghost(Seq::empty()) }
    }

    /// Returns the number of initialized elements.
    ///
    /// Relies on `arrayvec::ArrayVec::len`: the number of elements the
    /// vector holds.
    #[verifier::external_body]
    pub fn len(&self) -> (r: usize)
        ensures
            r == self@.len(),
            r <= N,
    {
        self.vec.len()
    }

    /// Returns true if every element is initialized; the next call to
    /// `finish` would then return the built array.
    pub fn is_full(&self) -> (r: bool)
        ensures
            r == (self@.len() == N),
    {
        self.len() == N
    }

    /// Returns true if no element is initialized yet.
    pub fn is_empty(&self) -> (r: bool)
        ensures
            r == (self@.len() == 0),
    {
        self.len() == 0
    }

    /// Reports whether the builder is full after a push.
    fn push_result(&self) -> (r: PushResult)
        ensures
            r == (if self@.len() >= N {
                PushResult::Full
            } else {
                PushResult::NotFull
            }),
    {
        if self.len() >= N {
            PushResult::Full
        } else {
            PushResult::NotFull
        }
    }

    /// Relies on `arrayvec::ArrayVec::push`: appends one element at the
    /// end of the vector, changing nothing else. `push` panics on a full
    /// vector, so fullness is excluded here.
    #[verifier::external_body]
    fn append(&mut self, value: T)
        requires
            old(self)@.len() < N,
        ensures
            final(self)@ === old(self)@.push(value),
    {
        self.vec.push(value);
    }

    /// Add an initialized element without a runtime bounds check: the
    /// precondition takes the place of the check the fallible operations
    /// perform.
    pub fn push_unchecked(&mut self, value: T) -> (r: PushResult)
        requires
            old(self)@.len() < N,
        ensures
            final(self)@ === old(self)@.push(value),
            r == (if final(self)@.len() == N {
                PushResult::Full
            } else {
                PushResult::NotFull
            }),
    {
        self.append(value);
        self.push_result()
    }

    /// Try to add an initialized element. If the builder is already full
    /// the push is rejected and the value comes back, unchanged, inside
    /// the [`Overflow`] error; otherwise the element is appended and the
    /// returned [`PushResult`] reports whether the builder is now full.
    pub fn try_push(&mut self, value: T) -> (r: Result<PushResult, Overflow<T>>)
        ensures
            old(self)@.len() < N ==> {
                &&& final(self)@ === old(self)@.push(value)
                &&& r matches Ok(p) && p == (if final(self)@.len() == N {
                    PushResult::Full
                } else {
                    PushResult::NotFull
                })
            },
            old(self)@.len() >= N ==> {
                &&& *final(self) == *old(self)
                &&& r matches Err(o) && o.0 == value
            },
    {
        proof {
            use_type_invariant(&*self);
        }
        if self.len() < N {
            Ok(self.push_unchecked(value))
        } else {
            Err(Overflow(value))
        }
    }

    /// Add an initialized element. The panicking convenience form of
    /// [`Self::try_push`]: the overflowing input is excluded here, so
    /// callers that cannot rule fullness out must use `try_push` instead.
    pub fn push(&mut self, value: T) -> (r: PushResult)
        requires
            old(self)@.len() < N,
        ensures
            final(self)@ === old(self)@.push(value),
            r == (if final(self)@.len() == N {
                PushResult::Full
            } else {
                PushResult::NotFull
            }),
    {
        match self.try_push(value) {
            Ok(result) => result,
            Err(_) => vstd::pervasive::unreached(),
        }
    }

    /// Return the fully initialized array; the precondition takes the
    /// place of the fullness check that `try_finish` performs.
    ///
    /// Relies on `arrayvec::ArrayVec::into_inner`: a vector filled to its
    /// full capacity is disassembled into its backing array, whose
    /// elements are the vector's elements in order.
    #[verifier::external_body]
    pub fn finish_unchecked(self) -> (r: [T; N])
        requires
            self@.len() == N,
        ensures
            r@ === self@,
    {
        self.vec.into_inner().ok().unwrap()
    }

    /// Try to return the fully initialized array. Returns the builder
    /// back, unchanged, if the array is not fully initialized yet: no
    /// data is lost either way.
    pub fn try_finish(self) -> (r: Result<[T; N], Self>)
        ensures
            self@.len() == N ==> (r matches Ok(a) && a@ === self@),
            self@.len() != N ==> (r matches Err(b) && b == self),
    {
        if self.len() == N {
            Ok(self.finish_unchecked())
        } else {
            Err(self)
        }
    }

    /// Return the fully initialized array. The panicking convenience form
    /// of [`Self::try_finish`]: the incomplete inputs are excluded here.
    pub fn finish(self) -> (r: [T; N])
        requires
            self@.len() == N,
        ensures
            r@ === self@,
    {
        match self.try_finish() {
            Ok(array) => array,
            Err(_) => vstd::pervasive::unreached(),
        }
    }

    /// Get the slice of the array that has already been initialized.
    ///
    /// Relies on `arrayvec::ArrayVec::as_slice`: exactly the initialized
    /// elements, in order; uninitialized slots are never exposed.
    #[verifier::external_body]
    pub fn finished_slice(&self) -> (r: &[T])
        ensures
            r@ === self@,
    {
        self.vec.as_slice()
    }

    /// Get the mutable slice of the array that has already been
    /// initialized, for in-place mutation.
    ///
    /// Relies on `arrayvec::ArrayVec::as_mut_slice`: exactly the
    /// initialized elements, in order; writes through the slice replace
    /// those elements and nothing else, and the slice's length cannot
    /// change.
    #[verifier::external_body]
    pub fn finished_slice_mut(&mut self) -> (r: &mut [T])
        ensures
            r@ === old(self)@,
            final(r)@.len() == old(self)@.len(),
            final(self)@ === final(r)@,
        no_unwind
    {
        self.vec.as_mut_slice()
    }
}

impl<T: Clone, const N: usize> Clone for ArrayBuilder<T, N> {
    /// Relies on `arrayvec::ArrayVec::clone`: the clone holds one clone
    /// of each initialized element, in order — as many elements as the
    /// source. What each cloned element is depends on the element
    /// type's own `Clone`, so no more is promised of the contents.
    #[verifier::external_body]
    fn clone(&self) -> (r: Self)
        ensures
            r@.len() == self@.len(),
            forall|i: int| 0 <= i < self@.len() ==> cloned::<T>(self@[i], #[trigger] r@[i]),
    {
        Self { vec: self.vec.clone(), elems: self.elems }
    }
}

} // verus!
