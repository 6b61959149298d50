//! Structural operations: lengthening and shortening by one element,
//! splitting, concatenation, removal at an index, and cutting a slice into
//! chunks of a fixed length.
//!
//! The length of a result is a generic parameter of its own; each operation
//! requires that it is the length that the operation produces.

use vstd::prelude::*;
use vstd::arithmetic::div_mod::lemma_fundamental_div_mod_converse;
use crate::array::GenericArray;

verus! {

/// How many chunks of `n` items fit into `len` items; none when `n` is zero.
pub open spec fn chunk_count(len: nat, n: nat) -> nat {
    if n == 0 {
        0
    } else {
        len / n
    }
}

/// The `c`-th run of `n` items of `s`.
pub open spec fn chunk_at<T>(s: Seq<T>, n: nat, c: int) -> Seq<T> {
    s.subrange(c * n, c * n + n)
}

/// What is left of `s` behind its full chunks of `n` items.
pub open spec fn chunk_remainder<T>(s: Seq<T>, n: nat) -> Seq<T> {
    s.subrange((chunk_count(s.len(), n) * n) as int, s.len() as int)
}

impl<T, const N: usize> GenericArray<T, N> {
    /// The array with `x` added behind the last element.
    pub fn append<const M: usize>(self, x: T) -> (r: GenericArray<T, M>)
        requires
            M == N + 1,
        ensures
            r@ == self@.push(x),
    {
        let mut v = self.into_vec();
        v.push(x);
        GenericArray::<T, M>::from_vec(v)
    }

    /// The array with `x` added before the first element.
    pub fn prepend<const M: usize>(self, x: T) -> (r: GenericArray<T, M>)
        requires
            M == N + 1,
        ensures
            r@ == seq![x] + self@,
    {
        let mut v = self.into_vec();
        v.insert(0, x);
        assert(v@ =~= seq![x] + self@);
        GenericArray::<T, M>::from_vec(v)
    }

    /// Takes the last element off: the elements before it, and the element.
    pub fn pop_back<const M: usize>(self) -> (r: (GenericArray<T, M>, T))
        requires
            N == M + 1,
        ensures
            r.0@ == self@.drop_last(),
            r.1 == self@.last(),
    {
        let mut v = self.into_vec();
        let x = v.swap_remove(N - 1);
        assert(v@ =~= self@.drop_last());
        (GenericArray::<T, M>::from_vec(v), x)
    }

    /// Takes the first element off: the element, and the elements behind it.
    pub fn pop_front<const M: usize>(self) -> (r: (T, GenericArray<T, M>))
        requires
            N == M + 1,
        ensures
            r.0 == self@.first(),
            r.1@ == self@.drop_first(),
    {
        let mut v = self.into_vec();
        let x = v.remove(0);
        assert(v@ =~= self@.drop_first());
        (x, GenericArray::<T, M>::from_vec(v))
    }

    /// Cuts the array in two at index `K`: the first `K` elements, and the
    /// `R` elements behind them.
    pub fn split<const K: usize, const R: usize>(self) -> (r: (
        GenericArray<T, K>,
        GenericArray<T, R>,
    ))
        requires
            K + R == N,
        ensures
            r.0@ == self@.subrange(0, K as int),
            r.1@ == self@.subrange(K as int, N as int),
    {
        let mut head = self.into_vec();
        let tail = head.split_off(K);
        (GenericArray::<T, K>::from_vec(head), GenericArray::<T, R>::from_vec(tail))
    }

    /// Borrows the array as two slices that meet at index `K`.
    pub fn split_ref<const K: usize>(&self) -> (r: (&[T], &[T]))
        requires
            K <= N,
        ensures
            r.0@ == self@.subrange(0, K as int),
            r.1@ == self@.subrange(K as int, N as int),
    {
        self.as_slice().split_at(K)
    }

    /// Borrows the array mutably as two slices that meet at index `K`; what
    /// is written through them is what the array holds afterwards.
    pub fn split_mut<const K: usize>(&mut self) -> (r: (&mut [T], &mut [T]))
        requires
            K <= N,
        ensures
            r.0@ == old(self)@.subrange(0, K as int),
            r.1@ == old(self)@.subrange(K as int, N as int),
            final(self)@ == final(r.0)@ + final(r.1)@,
    {
        self.as_mut_slice().split_at_mut(K)
    }

    /// The elements of this array followed by those of `other`.
    pub fn concat<const M: usize, const R: usize>(self, other: GenericArray<T, M>) -> (r:
        GenericArray<T, R>)
        requires
            N + M == R,
        ensures
            r@ == self@ + other@,
    {
        let mut v = self.into_vec();
        let mut w = other.into_vec();
        v.append(&mut w);
        GenericArray::<T, R>::from_vec(v)
    }

    /// Takes out the element at index `i`; the elements behind it move down
    /// by one, so that the others keep their order.
    pub fn remove<const M: usize>(self, i: usize) -> (r: (T, GenericArray<T, M>))
        requires
            N == M + 1,
            i < N,
        ensures
            r.0 == self@[i as int],
            r.1@ == self@.remove(i as int),
    {
        let mut v = self.into_vec();
        let x = v.remove(i);
        (x, GenericArray::<T, M>::from_vec(v))
    }

    /// Takes out the element at index `i` and puts the last element in its
    /// place; the other elements stay where they were.
    pub fn swap_remove<const M: usize>(self, i: usize) -> (r: (T, GenericArray<T, M>))
        requires
            N == M + 1,
            i < N,
        ensures
            r.0 == self@[i as int],
            r.1@ == self@.update(i as int, self@.last()).drop_last(),
    {
        let mut v = self.into_vec();
        let x = v.swap_remove(i);
        (x, GenericArray::<T, M>::from_vec(v))
    }
}

impl<T: Copy, const N: usize> GenericArray<T, N> {
    /// Cuts a slice into its full chunks of `N` items, copied into arrays,
    /// and the remainder of fewer than `N` items, borrowed from the slice.
    /// A chunk length of zero is accepted only for an empty slice.
    pub fn chunks_from_slice(s: &[T]) -> (r: (Vec<GenericArray<T, N>>, &[T]))
        requires
            N > 0 || s@.len() == 0,
        ensures
            r.0@.len() == chunk_count(s@.len(), N as nat),
            forall|c: int| 0 <= c < r.0@.len() ==> (#[trigger] r.0@[c])@ == chunk_at(s@, N as nat, c),
            r.1@ == chunk_remainder(s@, N as nat),
            N > 0 ==> r.0@.len() == s@.len() / (N as nat) && r.1@.len() == s@.len() % (N as nat),
    {
        let mut chunks: Vec<GenericArray<T, N>> = Vec::new();
        if N == 0 {
            if s.len() != 0 {
                // no chunk of length zero can ever use up a non-empty slice
                return vstd::pervasive::unreached();
            }
            assert(s@.subrange(0, 0) =~= s@);
            return (chunks, s);
        }
        let len = s.len();
        let mut start: usize = 0;
        assert(chunks@.len() * N == 0) by (nonlinear_arith)
            requires
                chunks@.len() == 0,
        ;
        while len - start >= N
            invariant
                N > 0,
                len == s@.len(),
                start <= len,
                start == chunks@.len() * N,
                forall|c: int|
                    0 <= c < chunks@.len() ==> (#[trigger] chunks@[c])@ == chunk_at(s@, N as nat, c),
            decreases len - start,
        {
            let ghost c = chunks@.len() as int;
            let chunk = Self::from_slice(vstd::slice::slice_subrange(s, start, start + N));
            chunks.push(chunk);
            start += N;
            assert(start == (c + 1) * N) by (nonlinear_arith)
                requires
                    start == c * N + N,
            ;
        }
        proof {
            lemma_fundamental_div_mod_converse(
                len as int,
                N as int,
                chunks@.len() as int,
                len - start,
            );
        }
        (chunks, vstd::slice::slice_subrange(s, start, len))
    }
}

} // verus!
