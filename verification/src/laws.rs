//! Laws that relate the operations to each other. Each is stated over the
//! views of the arrays involved and holds of whatever the operations return.

use vstd::prelude::*;
use vstd::arithmetic::div_mod::{lemma_fundamental_div_mod, lemma_mod_pos_bound};
use crate::array::GenericArray;
use crate::sequence::{chunk_at, chunk_count, chunk_remainder};

verus! {

/// The views of the arrays in `chunks`, one after the other.
pub open spec fn joined<T, const N: usize>(chunks: Seq<GenericArray<T, N>>) -> Seq<T>
    decreases chunks.len(),
{
    if chunks.len() == 0 {
        Seq::empty()
    } else {
        joined(chunks.drop_last()) + chunks.last()@
    }
}

/// Mapping with `f` and then with a `g` that undoes `f` gives the first
/// array back: if `b` is a result of `a.map(f)` and `c` a result of
/// `b.map(g)`, and `g` returns `x` on whatever `f` returns on `x`, then `c`
/// equals `a`.
pub proof fn lemma_map_inverse_round_trip<T, U, F: Fn(T) -> U, G: Fn(U) -> T, const N: usize>(
    a: GenericArray<T, N>,
    f: F,
    b: GenericArray<U, N>,
    g: G,
    c: GenericArray<T, N>,
)
    requires
        forall|i: int| 0 <= i < N ==> call_ensures(f, (a@[i],), #[trigger] b@[i]),
        forall|i: int| 0 <= i < N ==> call_ensures(g, (b@[i],), #[trigger] c@[i]),
        forall|x: T, y: U, z: T|
            #[trigger] call_ensures(f, (x,), y) && #[trigger] call_ensures(g, (y,), z) ==> z == x,
    ensures
        c@ == a@,
{
    a.lemma_len();
    b.lemma_len();
    c.lemma_len();
    assert forall|i: int| 0 <= i < N implies c@[i] == a@[i] by {
        assert(call_ensures(f, (a@[i],), b@[i]));
        assert(call_ensures(g, (b@[i],), c@[i]));
    }
    assert(c@ =~= a@);
}

/// Splitting an array at any index `K` from `0` to `N` and concatenating the
/// two parts gives the same array back.
pub proof fn lemma_split_concat<T, const N: usize, const K: usize, const R: usize>(
    a: GenericArray<T, N>,
    head: GenericArray<T, K>,
    tail: GenericArray<T, R>,
    whole: GenericArray<T, N>,
)
    requires
        K + R == N,
        head@ == a@.subrange(0, K as int),
        tail@ == a@.subrange(K as int, N as int),
        whole@ == head@ + tail@,
    ensures
        whole@ == a@,
{
    a.lemma_len();
    assert(whole@ =~= a@);
}

/// Taking the first element off and prepending it again gives the same
/// array back.
pub proof fn lemma_pop_front_prepend<T, const N: usize, const M: usize>(
    a: GenericArray<T, N>,
    x: T,
    rest: GenericArray<T, M>,
    whole: GenericArray<T, N>,
)
    requires
        N == M + 1,
        x == a@.first(),
        rest@ == a@.drop_first(),
        whole@ == seq![x] + rest@,
    ensures
        whole@ == a@,
{
    a.lemma_len();
    assert(whole@ =~= a@);
}

/// Taking the last element off and appending it again gives the same
/// array back.
pub proof fn lemma_pop_back_append<T, const N: usize, const M: usize>(
    a: GenericArray<T, N>,
    init: GenericArray<T, M>,
    x: T,
    whole: GenericArray<T, N>,
)
    requires
        N == M + 1,
        init@ == a@.drop_last(),
        x == a@.last(),
        whole@ == init@.push(x),
    ensures
        whole@ == a@,
{
    a.lemma_len();
    assert(whole@ =~= a@);
}

/// What `remove(i)` leaves is one element shorter; the elements before index
/// `i` stay where they were and each later element has moved down by one.
pub proof fn lemma_remove_shifts_down<T, const N: usize, const M: usize>(
    a: GenericArray<T, N>,
    i: usize,
    rest: GenericArray<T, M>,
)
    requires
        N == M + 1,
        i < N,
        rest@ == a@.remove(i as int),
    ensures
        rest@.len() == N - 1,
        forall|j: int| 0 <= j < i ==> #[trigger] rest@[j] == a@[j],
        forall|j: int| i <= j < N - 1 ==> #[trigger] rest@[j] == a@[j + 1],
{
    a.lemma_len();
}

/// What `swap_remove(i)` leaves is one element shorter; index `i`, unless it
/// was the last, holds what was the last element, and every other element
/// stays where it was.
pub proof fn lemma_swap_remove_moves_last<T, const N: usize, const M: usize>(
    a: GenericArray<T, N>,
    i: usize,
    rest: GenericArray<T, M>,
)
    requires
        N == M + 1,
        i < N,
        rest@ == a@.update(i as int, a@.last()).drop_last(),
    ensures
        rest@.len() == N - 1,
        i < N - 1 ==> rest@[i as int] == a@[N - 1],
        forall|j: int| 0 <= j < N - 1 && j != i ==> #[trigger] rest@[j] == a@[j],
{
    a.lemma_len();
}

/// The first `k` chunks of `s`, joined, are the first `k * N` items of `s`.
proof fn lemma_joined_prefix<T, const N: usize>(
    s: Seq<T>,
    chunks: Seq<GenericArray<T, N>>,
    k: int,
)
    requires
        N > 0,
        0 <= k <= chunks.len(),
        chunks.len() * N <= s.len(),
        forall|c: int| 0 <= c < chunks.len() ==> (#[trigger] chunks[c])@ == chunk_at(s, N as nat, c),
    ensures
        0 <= k * N <= s.len(),
        joined(chunks.take(k)) == s.subrange(0, k * N),
    decreases k,
{
    assert(0 <= k * N <= chunks.len() * N) by (nonlinear_arith)
        requires
            0 <= k <= chunks.len(),
            N > 0,
    ;
    let front = chunks.take(k);
    if k == 0 {
        assert(k * N == 0) by (nonlinear_arith)
            requires
                k == 0,
        ;
        assert(joined(front) =~= s.subrange(0, 0));
    } else {
        lemma_joined_prefix(s, chunks, k - 1);
        assert(front.drop_last() =~= chunks.take(k - 1));
        assert(front.last() == chunks[k - 1]);
        assert((k - 1) * N + N == k * N) by (nonlinear_arith);
        assert(joined(front) =~= s.subrange(0, k * N));
    }
}

/// Cutting a slice of `L` items into chunks of `N` items, with `N` positive,
/// gives `L / N` chunks and a remainder of `L % N` items; with `N` zero and
/// an empty slice it gives no chunk and an empty remainder. Either way the
/// chunks, joined in order and followed by the remainder, are the slice.
pub proof fn lemma_chunks_rebuild<T, const N: usize>(
    s: Seq<T>,
    chunks: Seq<GenericArray<T, N>>,
    rest: Seq<T>,
)
    requires
        N > 0 || s.len() == 0,
        chunks.len() == chunk_count(s.len(), N as nat),
        forall|c: int| 0 <= c < chunks.len() ==> (#[trigger] chunks[c])@ == chunk_at(s, N as nat, c),
        rest == chunk_remainder(s, N as nat),
    ensures
        N > 0 ==> chunks.len() == s.len() / (N as nat) && rest.len() == s.len() % (N as nat),
        N == 0 ==> chunks.len() == 0 && rest.len() == 0,
        joined(chunks) + rest == s,
{
    if N == 0 {
        assert(joined(chunks) + rest =~= s);
    } else {
        let len = s.len() as int;
        let n = N as int;
        lemma_fundamental_div_mod(len, n);
        lemma_mod_pos_bound(len, n);
        assert(chunks.len() * N == n * (len / n)) by (nonlinear_arith)
            requires
                chunks.len() == len / n,
                n == N,
        ;
        lemma_joined_prefix(s, chunks, chunks.len() as int);
        assert(chunks.take(chunks.len() as int) =~= chunks);
        assert(joined(chunks) + rest =~= s);
    }
}

} // verus!
