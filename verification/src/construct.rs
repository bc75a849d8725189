//! Construction algorithms: generic drivers that fill a fixed-size array
//! by invoking a caller-supplied producer once per element, in index
//! order, on top of the move-based builder.
//!
//! All drivers share one shape, the prefix-driven fallible build: the
//! producer for element `i` is handed the initialized prefix of the first
//! `i` elements, and may either produce the element or fail, in which
//! case the whole construction aborts with an [`IndexedError`] tagging
//! the failing index. The index-driven and no-argument drivers pass the
//! producer less information; the iterator and clone drivers draw the
//! elements from an iterator or from repeated cloning instead.

use vstd::prelude::*;
use vstd::std_specs::iter::IteratorSpec;

use crate::move_builder::{ArrayBuilder, PushResult};

verus! {

/// Failure reported by the fallible drivers: the producer for element
/// `index` failed with `error`. Elements produced before `index` have
/// been dropped; no partial array is ever returned.
#[derive(Debug, Clone, Copy, PartialEq, Eq)]
pub struct IndexedError<E> {
    pub index: usize,
    pub error: E,
}

/// Number of slots a construction in `state` still has to fill: the
/// drivers' termination measure.
pub open spec fn slots_left<T, const N: usize>(state: PushResult<T, N>) -> int {
    match state {
        PushResult::NotFull(b) => N - b@.len(),
        PushResult::Full(_) => 0,
    }
}

/// Element `i` of `p` is a value the fallible producer `f` can return
/// when handed a slice of the elements standing before it: a slice of
/// length exactly `i` holding `p[0], .., p[i-1]` in order.
pub open spec fn prefix_step<T, E, F: FnMut(&[T]) -> Result<T, E>>(
    f: F,
    p: Seq<T>,
    i: int,
) -> bool {
    exists|s: &[T]| s@ === p.take(i) && call_ensures(f, (s,), Result::<T, E>::Ok(p[i]))
}

/// Every element of `p` is a value the fallible producer `f` can return
/// when handed the prefix standing before it.
pub open spec fn prefix_steps<T, E, F: FnMut(&[T]) -> Result<T, E>>(f: F, p: Seq<T>) -> bool {
    forall|i: int| 0 <= i < p.len() ==> #[trigger] prefix_step(f, p, i)
}

/// Build an array by calling `f` once per element, in index order,
/// handing it the initialized prefix; abort on the first failure.
///
/// On success every element is one `f` produced from the prefix before
/// it. On failure the error is tagged with the index of the failing
/// call, which equals the number of elements produced before it, and
/// carries the producer's own failure unchanged.
#[verifier::loop_isolation(false)]
pub fn try_build_prefix<T, E, F: FnMut(&[T]) -> Result<T, E>, const N: usize>(mut f: F) -> (r:
    Result<[T; N], IndexedError<E>>)
    requires
        N <= u32::MAX as usize,
        forall|s: &[T]| s@.len() < N ==> call_requires(f, (s,)),
    ensures
        (r matches Ok(a) ==> a@.len() == N && prefix_steps(f, a@)),
        (r matches Err(ie) ==> {
            &&& ie.index < N
            &&& exists|s: &[T]|
                {
                    &&& s@.len() == ie.index
                    &&& prefix_steps(f, s@)
                    &&& call_ensures(f, (s,), Result::<T, E>::Err(ie.error))
                }
        }),
{
    let ghost f0 = f;
    let mut state = ArrayBuilder::<T, N>::start();
    loop
        invariant
            f == f0,
            (state matches PushResult::NotFull(b) ==> b@.len() < N && prefix_steps(f0, b@)),
            (state matches PushResult::Full(a) ==> a@.len() == N && prefix_steps(f0, a@)),
        decreases slots_left(state),
    {
        match state {
            PushResult::Full(array) => {
                return Ok(array);
            },
            PushResult::NotFull(b) => {
                let slice = b.finished_slice();
                let produced = f(slice);
                match produced {
                    Ok(value) => {
                        proof {
                            let p = b@.push(value);
                            assert forall|i: int| 0 <= i < p.len() implies #[trigger] prefix_step(
                                f0,
                                p,
                                i,
                            ) by {
                                if i < b@.len() {
                                    assert(prefix_step(f0, b@, i));
                                    let s = choose|s: &[T]|
                                        s@ === b@.take(i) && call_ensures(
                                            f0,
                                            (s,),
                                            Result::<T, E>::Ok(b@[i]),
                                        );
                                    assert(p.take(i) =~= b@.take(i));
                                    assert(s@ === p.take(i) && call_ensures(
                                        f0,
                                        (s,),
                                        Result::<T, E>::Ok(p[i]),
                                    ));
                                } else {
                                    assert(p.take(i) =~= b@);
                                    assert(slice@ === p.take(i) && call_ensures(
                                        f0,
                                        (slice,),
                                        Result::<T, E>::Ok(p[i]),
                                    ));
                                }
                            }
                        }
                        state = b.push(value);
                    },
                    Err(error) => {
                        let index = b.len();
                        return Err(IndexedError { index, error });
                    },
                }
            },
        }
    }
}

/// Element `i` of `p` is a value the infallible producer `f` can return
/// when handed a slice of the elements standing before it.
pub open spec fn prefix_value<T, F: FnMut(&[T]) -> T>(f: F, p: Seq<T>, i: int) -> bool {
    exists|s: &[T]| s@ === p.take(i) && call_ensures(f, (s,), p[i])
}

/// Every element of `p` is a value the infallible producer `f` can
/// return when handed the prefix standing before it.
pub open spec fn prefix_values<T, F: FnMut(&[T]) -> T>(f: F, p: Seq<T>) -> bool {
    forall|i: int| 0 <= i < p.len() ==> #[trigger] prefix_value(f, p, i)
}

/// Build an array by calling `f` once per element, in index order,
/// handing it the initialized prefix. The producer cannot fail, so
/// neither can the construction.
#[verifier::loop_isolation(false)]
pub fn build_prefix<T, F: FnMut(&[T]) -> T, const N: usize>(mut f: F) -> (r: [T; N])
    requires
        N <= u32::MAX as usize,
        forall|s: &[T]| s@.len() < N ==> call_requires(f, (s,)),
    ensures
        r@.len() == N,
        prefix_values(f, r@),
{
    let ghost f0 = f;
    let mut state = ArrayBuilder::<T, N>::start();
    loop
        invariant
            f == f0,
            (state matches PushResult::NotFull(b) ==> b@.len() < N && prefix_values(f0, b@)),
            (state matches PushResult::Full(a) ==> a@.len() == N && prefix_values(f0, a@)),
        decreases slots_left(state),
    {
        match state {
            PushResult::Full(array) => {
                return array;
            },
            PushResult::NotFull(b) => {
                let slice = b.finished_slice();
                let value = f(slice);
                proof {
                    let p = b@.push(value);
                    assert forall|i: int| 0 <= i < p.len() implies #[trigger] prefix_value(
                        f0,
                        p,
                        i,
                    ) by {
                        if i < b@.len() {
                            assert(prefix_value(f0, b@, i));
                            let s = choose|s: &[T]|
                                s@ === b@.take(i) && call_ensures(f0, (s,), b@[i]);
                            assert(p.take(i) =~= b@.take(i));
                            assert(s@ === p.take(i) && call_ensures(f0, (s,), p[i]));
                        } else {
                            assert(p.take(i) =~= b@);
                            assert(slice@ === p.take(i) && call_ensures(f0, (slice,), p[i]));
                        }
                    }
                }
                state = b.push(value);
            },
        }
    }
}

/// Every element of `p` is a value the fallible producer `f` can return
/// when handed the element's own index.
pub open spec fn indexed_steps<T, E, F: FnMut(usize) -> Result<T, E>>(f: F, p: Seq<T>) -> bool {
    forall|i: usize|
        i < p.len() ==> #[trigger] call_ensures(f, (i,), Result::<T, E>::Ok(p[i as int]))
}

/// Build an array by calling `f` once per element, in index order,
/// handing it the element's index; abort on the first failure.
///
/// On success every element is one `f` produced from its own index. On
/// failure the error is tagged with the index of the failing call, which
/// equals the number of elements produced before it, and carries the
/// producer's own failure unchanged.
#[verifier::loop_isolation(false)]
pub fn try_build_indexed<T, E, F: FnMut(usize) -> Result<T, E>, const N: usize>(mut f: F) -> (r:
    Result<[T; N], IndexedError<E>>)
    requires
        N <= u32::MAX as usize,
        forall|i: usize| i < N ==> call_requires(f, (i,)),
    ensures
        (r matches Ok(a) ==> a@.len() == N && indexed_steps(f, a@)),
        (r matches Err(ie) ==> {
            &&& ie.index < N
            &&& call_ensures(f, (ie.index,), Result::<T, E>::Err(ie.error))
            &&& exists|p: Seq<T>| p.len() == ie.index && #[trigger] indexed_steps(f, p)
        }),
{
    let ghost f0 = f;
    let mut state = ArrayBuilder::<T, N>::start();
    loop
        invariant
            f == f0,
            (state matches PushResult::NotFull(b) ==> b@.len() < N && indexed_steps(f0, b@)),
            (state matches PushResult::Full(a) ==> a@.len() == N && indexed_steps(f0, a@)),
        decreases slots_left(state),
    {
        match state {
            PushResult::Full(array) => {
                return Ok(array);
            },
            PushResult::NotFull(b) => {
                let index = b.len();
                let produced = f(index);
                match produced {
                    Ok(value) => {
                        proof {
                            let p = b@.push(value);
                            assert forall|i: usize| i < p.len() implies #[trigger] call_ensures(
                                f0,
                                (i,),
                                Result::<T, E>::Ok(p[i as int]),
                            ) by {
                                if i < b@.len() {
                                    assert(call_ensures(f0, (i,), Result::<T, E>::Ok(b@[i as int])));
                                }
                            }
                        }
                        state = b.push(value);
                    },
                    Err(error) => {
                        proof {
                            assert(b@.len() == index && indexed_steps(f0, b@));
                        }
                        return Err(IndexedError { index, error });
                    },
                }
            },
        }
    }
}

/// Build an array by calling `f` once per element, in index order,
/// handing it the element's index. The producer cannot fail, so neither
/// can the construction.
#[verifier::loop_isolation(false)]
pub fn build_indexed<T, F: FnMut(usize) -> T, const N: usize>(mut f: F) -> (r: [T; N])
    requires
        N <= u32::MAX as usize,
        forall|i: usize| i < N ==> call_requires(f, (i,)),
    ensures
        r@.len() == N,
        forall|i: usize| i < N ==> #[trigger] call_ensures(f, (i,), r@[i as int]),
{
    let ghost f0 = f;
    let mut state = ArrayBuilder::<T, N>::start();
    loop
        invariant
            f == f0,
            (state matches PushResult::NotFull(b) ==> b@.len() < N && forall|i: usize|
                i < b@.len() ==> #[trigger] call_ensures(f0, (i,), b@[i as int])),
            (state matches PushResult::Full(a) ==> a@.len() == N && forall|i: usize|
                i < N ==> #[trigger] call_ensures(f0, (i,), a@[i as int])),
        decreases slots_left(state),
    {
        match state {
            PushResult::Full(array) => {
                return array;
            },
            PushResult::NotFull(b) => {
                let index = b.len();
                let value = f(index);
                state = b.push(value);
            },
        }
    }
}

/// Every element of `p` is a value the fallible no-argument producer
/// `f` can return.
pub open spec fn plain_steps<T, E, F: FnMut() -> Result<T, E>>(f: F, p: Seq<T>) -> bool {
    forall|i: int| 0 <= i < p.len() ==> call_ensures(f, (), Result::<T, E>::Ok(#[trigger] p[i]))
}

/// Build an array by calling `f` once per element, in index order;
/// abort on the first failure.
///
/// On success every element is a value `f` produced. On failure the
/// error is tagged with the index of the failing call, which equals the
/// number of elements produced before it, and carries the producer's own
/// failure unchanged.
#[verifier::loop_isolation(false)]
pub fn try_build<T, E, F: FnMut() -> Result<T, E>, const N: usize>(mut f: F) -> (r: Result<
    [T; N],
    IndexedError<E>,
>)
    requires
        N <= u32::MAX as usize,
        call_requires(f, ()),
    ensures
        (r matches Ok(a) ==> a@.len() == N && plain_steps(f, a@)),
        (r matches Err(ie) ==> {
            &&& ie.index < N
            &&& call_ensures(f, (), Result::<T, E>::Err(ie.error))
            &&& exists|p: Seq<T>| p.len() == ie.index && #[trigger] plain_steps(f, p)
        }),
{
    let ghost f0 = f;
    let mut state = ArrayBuilder::<T, N>::start();
    loop
        invariant
            f == f0,
            (state matches PushResult::NotFull(b) ==> b@.len() < N && plain_steps(f0, b@)),
            (state matches PushResult::Full(a) ==> a@.len() == N && plain_steps(f0, a@)),
        decreases slots_left(state),
    {
        match state {
            PushResult::Full(array) => {
                return Ok(array);
            },
            PushResult::NotFull(b) => {
                let produced = f();
                match produced {
                    Ok(value) => {
                        state = b.push(value);
                    },
                    Err(error) => {
                        let index = b.len();
                        proof {
                            assert(b@.len() == index && plain_steps(f0, b@));
                        }
                        return Err(IndexedError { index, error });
                    },
                }
            },
        }
    }
}

/// Build an array by calling `f` once per element, in index order. The
/// producer cannot fail, so neither can the construction.
#[verifier::loop_isolation(false)]
pub fn build<T, F: FnMut() -> T, const N: usize>(mut f: F) -> (r: [T; N])
    requires
        N <= u32::MAX as usize,
        call_requires(f, ()),
    ensures
        r@.len() == N,
        forall|i: int| 0 <= i < N ==> call_ensures(f, (), #[trigger] r@[i]),
{
    let ghost f0 = f;
    let mut state = ArrayBuilder::<T, N>::start();
    loop
        invariant
            f == f0,
            (state matches PushResult::NotFull(b) ==> b@.len() < N && forall|i: int|
                0 <= i < b@.len() ==> call_ensures(f0, (), #[trigger] b@[i])),
            (state matches PushResult::Full(a) ==> a@.len() == N && forall|i: int|
                0 <= i < N ==> call_ensures(f0, (), #[trigger] a@[i])),
        decreases slots_left(state),
    {
        match state {
            PushResult::Full(array) => {
                return array;
            },
            PushResult::NotFull(b) => {
                let value = f();
                state = b.push(value);
            },
        }
    }
}

/// Build an array from the first `N` items of an iterator, in order; if
/// the iterator runs out of items before the array is full, everything
/// drawn so far is discarded and `None` is returned.
///
/// The contract speaks of iterators whose `next` obeys the prophetic
/// iterator laws: for those, construction succeeds exactly when the
/// iterator has at least `N` items left, and the array holds the first
/// `N` of them.
#[verifier::loop_isolation(false)]
pub fn try_build_iter<T, I: Iterator<Item = T>, const N: usize>(it: I) -> (r: Option<[T; N]>)
    requires
        N <= u32::MAX as usize,
    ensures
        it.obeys_prophetic_iter_laws() ==> {
            &&& (r is Some <==> it.remaining().len() >= N)
            &&& (r matches Some(a) ==> a@ === it.remaining().take(N as int))
        },
{
    let ghost it0 = it;
    let mut iter = it;
    let mut state = ArrayBuilder::<T, N>::start();
    loop
        invariant
            iter.obeys_prophetic_iter_laws() == it0.obeys_prophetic_iter_laws(),
            (state matches PushResult::NotFull(b) ==> b@.len() < N),
            it0.obeys_prophetic_iter_laws() ==> {
                &&& (state matches PushResult::NotFull(b) ==> {
                    &&& b@.len() <= it0.remaining().len()
                    &&& b@ === it0.remaining().take(b@.len() as int)
                    &&& iter.remaining() === it0.remaining().skip(b@.len() as int)
                })
                &&& (state matches PushResult::Full(a) ==> a@ === it0.remaining().take(N as int)
                    && it0.remaining().len() >= N)
            },
        decreases slots_left(state),
    {
        match state {
            PushResult::Full(array) => {
                return Some(array);
            },
            PushResult::NotFull(b) => {
                let ghost prev = iter;
                match iter.next() {
                    Some(value) => {
                        proof {
                            if it0.obeys_prophetic_iter_laws() {
                                let rem = it0.remaining();
                                let k = b@.len() as int;
                                assert(prev.remaining() === rem.skip(k));
                                assert(rem.skip(k).drop_first() =~= rem.skip(k + 1));
                                assert(b@.push(value) =~= rem.take(k + 1));
                            }
                        }
                        state = b.push(value);
                    },
                    None => {
                        return None;
                    },
                }
            },
        }
    }
}

/// Build an array from the first `N` items of an iterator, in order.
/// The panicking convenience form of [`try_build_iter`]: iterators that
/// may run out before the array is full are excluded here.
pub fn build_iter<T, I: Iterator<Item = T>, const N: usize>(it: I) -> (r: [T; N])
    requires
        N <= u32::MAX as usize,
        it.obeys_prophetic_iter_laws(),
        it.remaining().len() >= N,
    ensures
        r@ === it.remaining().take(N as int),
{
    match try_build_iter::<T, I, N>(it) {
        Some(array) => array,
        None => vstd::pervasive::unreached(),
    }
}

/// Build an array whose first element is `seed` and whose every later
/// element is a clone of the element standing right before it — of its
/// predecessor, not of the seed.
#[verifier::loop_isolation(false)]
pub fn build_cloned<T: Clone, const N: usize>(seed: T) -> (r: [T; N])
    requires
        N <= u32::MAX as usize,
    ensures
        r@.len() == N,
        N >= 1 ==> r@[0] == seed,
        forall|i: int| 1 <= i < N ==> cloned::<T>(r@[i - 1], #[trigger] r@[i]),
{
    let state = ArrayBuilder::<T, N>::start();
    let mut state = match state {
        PushResult::Full(array) => {
            return array;
        },
        PushResult::NotFull(b) => b.push(seed),
    };
    loop
        invariant
            (state matches PushResult::NotFull(b) ==> {
                &&& 1 <= b@.len() < N
                &&& b@[0] == seed
                &&& forall|i: int| 1 <= i < b@.len() ==> cloned::<T>(b@[i - 1], #[trigger] b@[i])
            }),
            (state matches PushResult::Full(a) ==> {
                &&& a@.len() == N
                &&& a@[0] == seed
                &&& forall|i: int| 1 <= i < N ==> cloned::<T>(a@[i - 1], #[trigger] a@[i])
            }),
        decreases slots_left(state),
    {
        match state {
            PushResult::Full(array) => {
                return array;
            },
            PushResult::NotFull(b) => {
                let slice = b.finished_slice();
                let value = slice[slice.len() - 1].clone();
                state = b.push(value);
            },
        }
    }
}

/// Law: a prefix-taking producer that computes a function of the prefix
/// pins every element of the built array. If every value `f` can return
/// on a slice `s` equals `g(s@)`, then a sequence every element of
/// which `f` produced from the prefix before it satisfies
/// `p[i] == g(p.take(i))` at every index: the slice handed to the call
/// for element `i` has length exactly `i` and holds the values of the
/// calls before it, in order.
pub proof fn lemma_prefix_values_deterministic<T, F: FnMut(&[T]) -> T>(
    f: F,
    p: Seq<T>,
    g: spec_fn(Seq<T>) -> T,
)
    requires
        forall|s: &[T], ret: T| #[trigger] call_ensures(f, (s,), ret) ==> ret == g(s@),
        prefix_values(f, p),
    ensures
        forall|i: int| #![trigger p[i]] 0 <= i < p.len() ==> p[i] == g(p.take(i)),
{
    assert forall|i: int| #![trigger p[i]] 0 <= i < p.len() implies p[i] == g(p.take(i)) by {
        assert(prefix_value(f, p, i));
        let s = choose|s: &[T]| s@ === p.take(i) && call_ensures(f, (s,), p[i]);
        assert(p[i] == g(s@));
    }
}

/// Law: an index-taking producer that computes a function of the index
/// pins every element of the built array.
pub proof fn lemma_indexed_values_deterministic<T, F: FnMut(usize) -> T>(
    f: F,
    p: Seq<T>,
    g: spec_fn(usize) -> T,
)
    requires
        p.len() <= usize::MAX,
        forall|i: usize, ret: T| #[trigger] call_ensures(f, (i,), ret) ==> ret == g(i),
        forall|i: usize| i < p.len() ==> #[trigger] call_ensures(f, (i,), p[i as int]),
    ensures
        forall|i: int| #![trigger p[i]] 0 <= i < p.len() ==> p[i] == g(i as usize),
{
    assert forall|i: int| #![trigger p[i]] 0 <= i < p.len() implies p[i] == g(i as usize) by {
        let iu: usize = i as usize;
        assert(call_ensures(f, (iu,), p[iu as int]));
    }
}

/// Law: in a clone-filled sequence — first element the seed, every
/// later element a clone of its predecessor, as [`build_cloned`]
/// ensures — every element down to `i` equals the seed whenever cloning
/// the element type preserves equality. Building four vectors from a
/// three-element seed, say, yields four equal copies of it.
pub proof fn lemma_cloned_fill_uniform<T: Clone>(p: Seq<T>, seed: T, i: int)
    requires
        forall|a: T, b: T| #[trigger] cloned::<T>(a, b) ==> a == b,
        0 <= i < p.len(),
        p[0] == seed,
        forall|j: int| 1 <= j < p.len() ==> cloned::<T>(p[j - 1], #[trigger] p[j]),
    ensures
        p[i] == seed,
    decreases i,
{
    if i > 0 {
        lemma_cloned_fill_uniform(p, seed, i - 1);
        assert(cloned::<T>(p[i - 1], p[i]));
    }
}

/// Law: a prefix-taking producer that fails exactly on the prefix of
/// length `k`, and on no shorter one, drives [`try_build_prefix`] into
/// the failure case: the caller observes no array at all, but a failure
/// tagged with index `k` that carries a payload the producer returned.
/// The two clauses over `r` restate what [`try_build_prefix`] ensures of
/// its result.
pub proof fn lemma_prefix_failure<T, E, F: FnMut(&[T]) -> Result<T, E>, const N: usize>(
    f: F,
    r: Result<[T; N], IndexedError<E>>,
    k: usize,
)
    requires
        k < N,
        forall|s: &[T], ret: Result<T, E>|
            #[trigger] call_ensures(f, (s,), ret) ==> (ret is Err <==> s@.len() == k),
        (r matches Ok(a) ==> a@.len() == N && prefix_steps(f, a@)),
        (r matches Err(ie) ==> {
            &&& ie.index < N
            &&& exists|s: &[T]|
                {
                    &&& s@.len() == ie.index
                    &&& prefix_steps(f, s@)
                    &&& call_ensures(f, (s,), Result::<T, E>::Err(ie.error))
                }
        }),
    ensures
        (r matches Err(ie) && ie.index == k),
{
    match r {
        Ok(a) => {
            assert(prefix_step(f, a@, k as int));
            let s = choose|s: &[T]|
                s@ === a@.take(k as int) && call_ensures(f, (s,), Result::<T, E>::Ok(a@[k as int]));
            assert(s@.len() == k);
            assert(false);
        },
        Err(ie) => {
            let s = choose|s: &[T]|
                {
                    &&& s@.len() == ie.index
                    &&& prefix_steps(f, s@)
                    &&& call_ensures(f, (s,), Result::<T, E>::Err(ie.error))
                };
            assert(s@.len() == k);
        },
    }
}

/// Law: an index-taking producer that fails exactly on index `k`, and
/// on no smaller one, drives [`try_build_indexed`] into the failure
/// case: the caller observes no array at all, but a failure tagged with
/// index `k` that carries a payload the producer returned. The two
/// clauses over `r` restate what [`try_build_indexed`] ensures of its
/// result.
pub proof fn lemma_indexed_failure<T, E, F: FnMut(usize) -> Result<T, E>, const N: usize>(
    f: F,
    r: Result<[T; N], IndexedError<E>>,
    k: usize,
)
    requires
        k < N,
        forall|i: usize, ret: Result<T, E>|
            #[trigger] call_ensures(f, (i,), ret) ==> (ret is Err <==> i == k),
        (r matches Ok(a) ==> a@.len() == N && indexed_steps(f, a@)),
        (r matches Err(ie) ==> ie.index < N && call_ensures(
            f,
            (ie.index,),
            Result::<T, E>::Err(ie.error),
        )),
    ensures
        (r matches Err(ie) && ie.index == k),
{
    match r {
        Ok(a) => {
            assert(call_ensures(f, (k,), Result::<T, E>::Ok(a@[k as int])));
            assert(false);
        },
        Err(_) => {
        },
    }
}

} // verus!
