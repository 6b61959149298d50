//! Conversions between native arrays and vectors that the standard library
//! performs. Their contracts are taken on trust from std's documentation.

use vstd::prelude::*;

verus! {

/// Calls std's `Vec::from` on an array (`impl From<[T; N]> for Vec<T>`).
///
/// Trusted: the vector holds exactly the array's elements, in the array's order.
#[verifier::external_body]
pub(crate) fn vec_from_array<T, const N: usize>(a: [T; N]) -> (v: Vec<T>)
    ensures
        v@ == a@,
{
    Vec::from(a)
}

/// Calls std's `<[T; N]>::try_from` on a vector (`impl TryFrom<Vec<T>> for [T; N]`).
///
/// Trusted: when the vector's length is `N` the result is `Ok` with the
/// vector's elements in order; otherwise the vector comes back unchanged as
/// the error.
#[verifier::external_body]
pub(crate) fn array_from_vec<T, const N: usize>(v: Vec<T>) -> (r: Result<[T; N], Vec<T>>)
    ensures
        v@.len() == N ==> r is Ok && r->Ok_0@ == v@,
        v@.len() != N ==> r is Err && r->Err_0@ == v@,
{
    <[T; N]>::try_from(v)
}

} // verus!
