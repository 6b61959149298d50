//! Construction from a function or a sequence of items, and the elementwise
//! combinators `map`, `zip`, `fold` and their fallible forms.
//!
//! A callback `f` is described by what Verus knows of it: `call_requires`
//! says on which arguments it may be called, `call_ensures` which results a
//! call may give.

use vstd::prelude::*;
use crate::array::GenericArray;

verus! {

/// What a callback `f` of two arguments may do in one step of a fold: called
/// on the accumulator `acc` and the item `x`, it may return `next`.
pub open spec fn step_of<T, U, F: Fn(U, T) -> U>(f: F) -> spec_fn(U, T, U) -> bool {
    |acc: U, x: T, next: U| call_ensures(f, (acc, x), next)
}

/// `out` is a value that folding over `s` from the left, starting at `init`
/// and going on by `step`, may end with.
pub open spec fn fold_reaches<T, U>(
    step: spec_fn(U, T, U) -> bool,
    s: Seq<T>,
    init: U,
    out: U,
) -> bool
    decreases s.len(),
{
    if s.len() == 0 {
        out == init
    } else {
        exists|mid: U|
            fold_reaches(step, s.drop_last(), init, mid) && #[trigger] step(mid, s.last(), out)
    }
}

/// A call of `f` on `x` may succeed.
pub open spec fn may_succeed<A, U, E, F: Fn(A) -> Result<U, E>>(f: F, x: A) -> bool {
    exists|u: U| #[trigger] call_ensures(f, (x,), Ok::<U, E>(u))
}

/// No call of `f` on `x` fails.
pub open spec fn cannot_fail<A, U, E, F: Fn(A) -> Result<U, E>>(f: F, x: A) -> bool {
    forall|e: E| !#[trigger] call_ensures(f, (x,), Err::<U, E>(e))
}

/// Walking `s` in order, `f` may succeed on every item before index `k` and
/// fail on the item at `k` with the error `e`.
pub open spec fn fails_first_at<A, U, E, F: Fn(A) -> Result<U, E>>(
    f: F,
    s: Seq<A>,
    k: int,
    e: E,
) -> bool {
    &&& 0 <= k < s.len()
    &&& call_ensures(f, (s[k],), Err::<U, E>(e))
    &&& forall|j: int| 0 <= j < k ==> may_succeed(f, #[trigger] s[j])
}

/// The indices `0, 1, .., n - 1` as a sequence.
pub open spec fn indices(n: nat) -> Seq<usize> {
    Seq::new(n, |i: int| i as usize)
}

/// Turns a vector round: the item at index `k` comes from index `len - 1 - k`.
pub(crate) fn reversed<T>(v: Vec<T>) -> (r: Vec<T>)
    ensures
        r@.len() == v@.len(),
        forall|k: int| 0 <= k < r@.len() ==> #[trigger] r@[k] == v@[v@.len() - 1 - k],
{
    let mut src = v;
    let mut r: Vec<T> = Vec::new();
    while src.len() > 0
        invariant
            r@.len() + src@.len() == v@.len(),
            src@ == v@.subrange(0, src@.len() as int),
            forall|k: int| 0 <= k < r@.len() ==> #[trigger] r@[k] == v@[v@.len() - 1 - k],
        decreases src@.len(),
    {
        match src.pop() {
            Some(x) => {
                r.push(x);
            },
            None => {},
        }
    }
    r
}

impl<T, const N: usize> GenericArray<T, N> {
    /// Builds an array by calling `f` on `0, 1, .., N - 1` in increasing
    /// order; the element at index `i` is what `f(i)` gave.
    pub fn generate<F: Fn(usize) -> T>(f: F) -> (r: Self)
        requires
            forall|i: usize| i < N ==> call_requires(f, (i,)),
        ensures
            forall|i: int| 0 <= i < N ==> call_ensures(f, (i as usize,), #[trigger] r@[i]),
    {
        let mut out: Vec<T> = Vec::new();
        let mut i: usize = 0;
        while i < N
            invariant
                i <= N,
                out@.len() == i,
                forall|j: usize| j < N ==> call_requires(f, (j,)),
                forall|j: int| 0 <= j < i ==> call_ensures(f, (j as usize,), #[trigger] out@[j]),
            decreases N - i,
        {
            out.push(f(i));
            i += 1;
        }
        Self::from_vec(out)
    }

    /// Like `generate`, but `f` may fail. The calls stop at the first failure,
    /// whose error is returned; the elements made so far are dropped. With no
    /// failure the array holds what the calls gave.
    pub fn try_generate<E, F: Fn(usize) -> Result<T, E>>(f: F) -> (r: Result<Self, E>)
        requires
            forall|i: usize| i < N ==> call_requires(f, (i,)),
        ensures
            match r {
                Ok(a) => forall|i: int|
                    0 <= i < N ==> call_ensures(f, (i as usize,), Ok::<T, E>(#[trigger] a@[i])),
                Err(e) => exists|k: int| #[trigger] fails_first_at(f, indices(N as nat), k, e),
            },
            (forall|i: int| 0 <= i < N ==> cannot_fail(f, #[trigger] indices(N as nat)[i])) ==> r is Ok,
            (exists|i: int| 0 <= i < N && !may_succeed(f, #[trigger] indices(N as nat)[i])) ==> r is Err,
    {
        let mut out: Vec<T> = Vec::new();
        let mut i: usize = 0;
        while i < N
            invariant
                i <= N,
                out@.len() == i,
                forall|j: usize| j < N ==> call_requires(f, (j,)),
                forall|j: int|
                    0 <= j < i ==> call_ensures(f, (j as usize,), Ok::<T, E>(#[trigger] out@[j])),
            decreases N - i,
        {
            match f(i) {
                Ok(x) => {
                    out.push(x);
                },
                Err(e) => {
                    let r: Result<Self, E> = Err(e);
                    proof {
                        let s = indices(N as nat);
                        assert forall|j: int| 0 <= j < i implies may_succeed(f, #[trigger] s[j]) by {
                            assert(call_ensures(f, (s[j],), Ok::<T, E>(out@[j])));
                        }
                        assert(fails_first_at(f, s, i as int, r->Err_0));
                    }
                    return r;
                },
            }
            i += 1;
        }
        proof {
            let s = indices(N as nat);
            assert forall|j: int| 0 <= j < N implies may_succeed(f, #[trigger] s[j]) by {
                assert(call_ensures(f, (s[j],), Ok::<T, E>(out@[j])));
            }
        }
        Ok(Self::from_vec(out))
    }

    /// Applies `f` to every element, in increasing index order, and collects
    /// the results in an array of the same length.
    pub fn map<U, F: Fn(T) -> U>(self, f: F) -> (r: GenericArray<U, N>)
        requires
            forall|i: int| 0 <= i < N ==> call_requires(f, (#[trigger] self@[i],)),
        ensures
            forall|i: int| 0 <= i < N ==> call_ensures(f, (self@[i],), #[trigger] r@[i]),
    {
        let ghost orig = self@;
        let mut src = reversed(self.into_vec());
        let mut out: Vec<U> = Vec::new();
        let mut i: usize = 0;
        while i < N
            invariant
                i <= N,
                orig.len() == N,
                out@.len() == i,
                src@.len() == N - i,
                forall|k: int| 0 <= k < src@.len() ==> #[trigger] src@[k] == orig[N - 1 - k],
                forall|j: int| 0 <= j < N ==> call_requires(f, (#[trigger] orig[j],)),
                forall|j: int| 0 <= j < i ==> call_ensures(f, (orig[j],), #[trigger] out@[j]),
            decreases N - i,
        {
            match src.pop() {
                Some(x) => {
                    assert(x == orig[i as int]);
                    out.push(f(x));
                },
                None => {},
            }
            i += 1;
        }
        GenericArray::<U, N>::from_vec(out)
    }

    /// Like `map`, but `f` may fail. The calls stop at the first failure, whose
    /// error is returned; the results made so far and the elements not yet
    /// visited are dropped. With no failure the array holds what the calls gave.
    pub fn try_map<U, E, F: Fn(T) -> Result<U, E>>(self, f: F) -> (r: Result<GenericArray<U, N>, E>)
        requires
            forall|i: int| 0 <= i < N ==> call_requires(f, (#[trigger] self@[i],)),
        ensures
            match r {
                Ok(a) => forall|i: int|
                    0 <= i < N ==> call_ensures(f, (self@[i],), Ok::<U, E>(#[trigger] a@[i])),
                Err(e) => exists|k: int| #[trigger] fails_first_at(f, self@, k, e),
            },
            (forall|i: int| 0 <= i < N ==> cannot_fail(f, #[trigger] self@[i])) ==> r is Ok,
            (exists|i: int| 0 <= i < N && !may_succeed(f, #[trigger] self@[i])) ==> r is Err,
    {
        let ghost orig = self@;
        let mut src = reversed(self.into_vec());
        let mut out: Vec<U> = Vec::new();
        let mut i: usize = 0;
        while i < N
            invariant
                i <= N,
                orig == self@,
                orig.len() == N,
                out@.len() == i,
                src@.len() == N - i,
                forall|k: int| 0 <= k < src@.len() ==> #[trigger] src@[k] == orig[N - 1 - k],
                forall|j: int| 0 <= j < N ==> call_requires(f, (#[trigger] orig[j],)),
                forall|j: int|
                    0 <= j < i ==> call_ensures(f, (orig[j],), Ok::<U, E>(#[trigger] out@[j])),
            decreases N - i,
        {
            match src.pop() {
                Some(x) => {
                    assert(x == orig[i as int]);
                    match f(x) {
                        Ok(y) => {
                            out.push(y);
                        },
                        Err(e) => {
                            let r: Result<GenericArray<U, N>, E> = Err(e);
                            proof {
                                assert forall|j: int| 0 <= j < i implies may_succeed(
                                    f,
                                    #[trigger] orig[j],
                                ) by {
                                    assert(call_ensures(f, (orig[j],), Ok::<U, E>(out@[j])));
                                }
                                assert(fails_first_at(f, orig, i as int, r->Err_0));
                            }
                            return r;
                        },
                    }
                },
                None => {},
            }
            i += 1;
        }
        proof {
            assert forall|j: int| 0 <= j < N implies may_succeed(f, #[trigger] orig[j]) by {
                assert(call_ensures(f, (orig[j],), Ok::<U, E>(out@[j])));
            }
        }
        Ok(GenericArray::<U, N>::from_vec(out))
    }

    /// Applies `f` to the pairs of elements at equal indices of two arrays of
    /// the same length, in increasing index order.
    pub fn zip<B, U, F: Fn(T, B) -> U>(self, other: GenericArray<B, N>, f: F) -> (r: GenericArray<
        U,
        N,
    >)
        requires
            forall|i: int| 0 <= i < N ==> call_requires(f, (#[trigger] self@[i], other@[i])),
        ensures
            forall|i: int| 0 <= i < N ==> call_ensures(f, (self@[i], other@[i]), #[trigger] r@[i]),
    {
        let ghost left = self@;
        let ghost right = other@;
        let mut xs = reversed(self.into_vec());
        let mut ys = reversed(other.into_vec());
        let mut out: Vec<U> = Vec::new();
        let mut i: usize = 0;
        while i < N
            invariant
                i <= N,
                left.len() == N,
                right.len() == N,
                out@.len() == i,
                xs@.len() == N - i,
                ys@.len() == N - i,
                forall|k: int| 0 <= k < xs@.len() ==> #[trigger] xs@[k] == left[N - 1 - k],
                forall|k: int| 0 <= k < ys@.len() ==> #[trigger] ys@[k] == right[N - 1 - k],
                forall|j: int| 0 <= j < N ==> call_requires(f, (#[trigger] left[j], right[j])),
                forall|j: int|
                    0 <= j < i ==> call_ensures(f, (left[j], right[j]), #[trigger] out@[j]),
            decreases N - i,
        {
            match (xs.pop(), ys.pop()) {
                (Some(x), Some(y)) => {
                    assert(x == left[i as int] && y == right[i as int]);
                    out.push(f(x, y));
                },
                _ => {},
            }
            i += 1;
        }
        GenericArray::<U, N>::from_vec(out)
    }

    /// Like `map`, but borrows the array: `f` sees each element by reference.
    pub fn map_ref<U, F: Fn(&T) -> U>(&self, f: F) -> (r: GenericArray<U, N>)
        requires
            forall|i: int| 0 <= i < N ==> call_requires(f, (&#[trigger] self@[i],)),
        ensures
            forall|i: int| 0 <= i < N ==> call_ensures(f, (&self@[i],), #[trigger] r@[i]),
    {
        let mut out: Vec<U> = Vec::new();
        let mut i: usize = 0;
        while i < N
            invariant
                i <= N,
                out@.len() == i,
                forall|j: int| 0 <= j < N ==> call_requires(f, (&#[trigger] self@[j],)),
                forall|j: int| 0 <= j < i ==> call_ensures(f, (&self@[j],), #[trigger] out@[j]),
            decreases N - i,
        {
            out.push(f(self.get(i)));
            i += 1;
        }
        GenericArray::<U, N>::from_vec(out)
    }

    /// Like `zip`, but borrows both arrays: `f` sees each pair of elements by
    /// reference.
    pub fn zip_ref<B, U, F: Fn(&T, &B) -> U>(&self, other: &GenericArray<B, N>, f: F) -> (r:
        GenericArray<U, N>)
        requires
            forall|i: int| 0 <= i < N ==> call_requires(f, (&#[trigger] self@[i], &other@[i])),
        ensures
            forall|i: int|
                0 <= i < N ==> call_ensures(f, (&self@[i], &other@[i]), #[trigger] r@[i]),
    {
        let mut out: Vec<U> = Vec::new();
        let mut i: usize = 0;
        while i < N
            invariant
                i <= N,
                out@.len() == i,
                forall|j: int| 0 <= j < N ==> call_requires(f, (&#[trigger] self@[j], &other@[j])),
                forall|j: int|
                    0 <= j < i ==> call_ensures(f, (&self@[j], &other@[j]), #[trigger] out@[j]),
            decreases N - i,
        {
            out.push(f(self.get(i), other.get(i)));
            i += 1;
        }
        GenericArray::<U, N>::from_vec(out)
    }

    /// Folds the elements from the left: starting from `init`, each element in
    /// increasing index order is combined with the accumulator by `f`. The
    /// callback has to accept each element together with every accumulator
    /// that the elements before it may have led to.
    pub fn fold<U, F: Fn(U, T) -> U>(self, init: U, f: F) -> (r: U)
        requires
            forall|k: int, acc: U|
                0 <= k < N && #[trigger] fold_reaches(step_of(f), self@.subrange(0, k), init, acc)
                    ==> call_requires(f, (acc, self@[k])),
        ensures
            fold_reaches(step_of(f), self@, init, r),
    {
        let ghost orig = self@;
        let mut src = reversed(self.into_vec());
        let mut acc = init;
        let mut i: usize = 0;
        while i < N
            invariant
                i <= N,
                orig.len() == N,
                src@.len() == N - i,
                forall|k: int| 0 <= k < src@.len() ==> #[trigger] src@[k] == orig[N - 1 - k],
                forall|k: int, a: U|
                    0 <= k < N && #[trigger] fold_reaches(step_of(f), orig.subrange(0, k), init, a)
                        ==> call_requires(f, (a, orig[k])),
                fold_reaches(step_of(f), orig.subrange(0, i as int), init, acc),
            decreases N - i,
        {
            match src.pop() {
                Some(x) => {
                    assert(x == orig[i as int]);
                    let ghost before = acc;
                    acc = f(acc, x);
                    proof {
                        let s = orig.subrange(0, i + 1);
                        assert(s.drop_last() == orig.subrange(0, i as int));
                        assert(s.last() == x);
                        assert(fold_reaches(step_of(f), s.drop_last(), init, before) && step_of(f)(
                            before,
                            s.last(),
                            acc,
                        ));
                    }
                },
                None => {},
            }
            i += 1;
        }
        assert(orig.subrange(0, N as int) == orig);
        acc
    }
}

impl<T: Default, const N: usize> GenericArray<T, N> {
    /// Builds an array from the first `N` items of a vector. Where the vector
    /// is shorter, the elements that are left are default values; where it is
    /// longer, the items beyond the first `N` are dropped.
    pub fn from_iter(items: Vec<T>) -> (r: Self)
        ensures
            forall|i: int| 0 <= i < N && i < items@.len() ==> #[trigger] r@[i] == items@[i],
            forall|i: int|
                items@.len() <= i < N ==> call_ensures(T::default, (), #[trigger] r@[i]),
    {
        let mut out = items;
        out.truncate(N);
        while out.len() < N
            invariant
                out@.len() <= N,
                items@.len() <= out@.len() || out@.len() == N,
                forall|i: int|
                    0 <= i < out@.len() && i < items@.len() ==> #[trigger] out@[i] == items@[i],
                forall|i: int|
                    items@.len() <= i < out@.len() ==> call_ensures(
                        T::default,
                        (),
                        #[trigger] out@[i],
                    ),
            decreases N - out@.len(),
        {
            out.push(T::default());
        }
        Self::from_vec(out)
    }
}

impl<T: Default, const N: usize> Default for GenericArray<T, N> {
    /// The array whose every element is a default value.
    fn default() -> (r: Self)
        ensures
            forall|i: int| 0 <= i < N ==> call_ensures(T::default, (), #[trigger] r@[i]),
    {
        Self::from_iter(Vec::new())
    }
}

} // verus!
