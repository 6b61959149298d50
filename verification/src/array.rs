//! The fixed-length container and its conversions to and from native arrays,
//! slices and vectors.

use vstd::prelude::*;
use crate::storage::{array_from_vec, vec_from_array};

verus! {

/// An array of exactly `N` elements of type `T`, stored inline as a native
/// array. Its mathematical model is the sequence of its elements.
///
/// The field is public so that a value can be written down in a constant;
/// it carries no invariant beyond its type.
#[derive(Clone, Copy, Debug, PartialEq, Eq, PartialOrd, Ord, Hash)]
pub struct GenericArray<T, const N: usize> {
    pub data: [T; N],
}

/// The reason a conversion from a dynamically sized buffer fails: the buffer
/// does not hold exactly as many elements as the array's type asks for.
#[derive(Clone, Copy, Debug, PartialEq, Eq, Structural)]
pub struct LengthError {
    pub expected: usize,
    pub found: usize,
}

impl<T, const N: usize> View for GenericArray<T, N> {
    type V = Seq<T>;

    open spec fn view(&self) -> Seq<T> {
        self.data@
    }
}

impl<T, const N: usize> GenericArray<T, N> {
    /// Every array of this type has exactly `N` elements.
    pub broadcast proof fn lemma_len(self)
        ensures
            #[trigger] self@.len() == N,
    {
        broadcast use vstd::array::group_array_axioms;
    }

    /// The number of elements of every array of this type.
    pub fn len() -> (n: usize)
        ensures
            n == N,
    {
        N
    }

    /// Wraps a native array without changing its elements.
    pub fn from_array(a: [T; N]) -> (r: Self)
        ensures
            r@ == a@,
    {
        GenericArray { data: a }
    }

    /// Unwraps the native array.
    pub fn into_array(self) -> (a: [T; N])
        ensures
            a@ == self@,
    {
        self.data
    }

    /// Borrows the native array.
    pub fn as_array(&self) -> (a: &[T; N])
        ensures
            a@ == self@,
    {
        &self.data
    }

    /// Borrows the native array mutably; what is written through the borrow
    /// is what the array holds afterwards.
    pub fn as_mut_array(&mut self) -> (a: &mut [T; N])
        ensures
            a@ == old(self)@,
            final(self)@ == final(a)@,
    {
        &mut self.data
    }

    /// Borrows the elements as a slice of length `N`.
    pub fn as_slice(&self) -> (s: &[T])
        ensures
            s@ == self@,
            s@.len() == N,
    {
        broadcast use vstd::array::group_array_axioms;
        self.data.as_slice()
    }

    /// Borrows the elements mutably as a slice of length `N`; what is written
    /// through the slice is what the array holds afterwards.
    pub fn as_mut_slice(&mut self) -> (s: &mut [T])
        ensures
            s@ == old(self)@,
            s@.len() == N,
            final(self)@ == final(s)@,
    {
        broadcast use vstd::array::group_array_axioms;
        &mut self.data
    }

    /// The raw storage as a slice: the same view as `as_slice`.
    pub fn as_raw_slice(&self) -> (s: &[T])
        ensures
            s@ == self@,
            s@.len() == N,
    {
        self.as_slice()
    }

    /// The raw storage as a mutable slice: the same view as `as_mut_slice`.
    pub fn as_raw_mut_slice(&mut self) -> (s: &mut [T])
        ensures
            s@ == old(self)@,
            s@.len() == N,
            final(self)@ == final(s)@,
    {
        self.as_mut_slice()
    }

    /// Borrows the element at index `i`.
    pub fn get(&self, i: usize) -> (x: &T)
        requires
            i < N,
        ensures
            *x == self@[i as int],
    {
        &self.data[i]
    }

    /// Replaces the element at index `i`, leaving the others as they were.
    pub fn set(&mut self, i: usize, x: T)
        requires
            i < N,
        ensures
            final(self)@ == old(self)@.update(i as int, x),
    {
        self.data[i] = x;
    }

    /// Moves the elements into a vector, in order.
    pub fn into_vec(self) -> (v: Vec<T>)
        ensures
            v@ == self@,
            v@.len() == N,
    {
        broadcast use vstd::array::group_array_axioms;
        vec_from_array(self.data)
    }

    /// Builds an array from a vector of exactly `N` elements.
    pub fn from_vec(v: Vec<T>) -> (r: Self)
        requires
            v@.len() == N,
        ensures
            r@ == v@,
    {
        match array_from_vec::<T, N>(v) {
            Ok(a) => GenericArray { data: a },
            Err(_) => vstd::pervasive::unreached(),
        }
    }

    /// Builds an array from a vector, or reports the two lengths when the
    /// vector does not hold exactly `N` elements.
    pub fn try_from_vec(v: Vec<T>) -> (r: Result<Self, LengthError>)
        ensures
            v@.len() == N ==> r is Ok && r->Ok_0@ == v@,
            v@.len() != N ==> r == Err::<Self, LengthError>(
                LengthError { expected: N, found: v@.len() as usize },
            ),
    {
        let found = v.len();
        match array_from_vec::<T, N>(v) {
            Ok(a) => Ok(GenericArray { data: a }),
            Err(_) => Err(LengthError { expected: N, found }),
        }
    }
}

impl<T, const N: usize> From<[T; N]> for GenericArray<T, N> {
    /// Wraps a native array without changing its elements.
    fn from(a: [T; N]) -> (r: Self) {
        GenericArray { data: a }
    }
}

impl<T, const N: usize> vstd::std_specs::convert::FromSpecImpl<[T; N]> for GenericArray<T, N> {
    open spec fn obeys_from_spec() -> bool {
        true
    }

    open spec fn from_spec(a: [T; N]) -> Self {
        GenericArray { data: a }
    }
}

impl<T: Copy, const N: usize> GenericArray<T, N> {
    /// Copies a slice of exactly `N` elements into an array.
    pub fn from_slice(s: &[T]) -> (r: Self)
        requires
            s@.len() == N,
        ensures
            r@ == s@,
    {
        let mut v: Vec<T> = Vec::new();
        let mut i: usize = 0;
        while i < N
            invariant
                s@.len() == N,
                i <= N,
                v@ == s@.subrange(0, i as int),
            decreases N - i,
        {
            v.push(s[i]);
            i += 1;
        }
        Self::from_vec(v)
    }

    /// Copies a slice into an array, or reports the two lengths when the slice
    /// does not hold exactly `N` elements.
    pub fn try_from_slice(s: &[T]) -> (r: Result<Self, LengthError>)
        ensures
            s@.len() == N ==> r is Ok && r->Ok_0@ == s@,
            s@.len() != N ==> r == Err::<Self, LengthError>(
                LengthError { expected: N, found: s@.len() as usize },
            ),
    {
        if s.len() == N {
            Ok(Self::from_slice(s))
        } else {
            Err(LengthError { expected: N, found: s.len() })
        }
    }
}

} // verus!
