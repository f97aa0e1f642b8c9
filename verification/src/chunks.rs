//! Sharding a batch of work items into a fixed number of chunks, one per
//! transfer session.
//!
//! The sizes follow a greedy rule: each chunk takes the ceiling of
//! `remaining / remaining_chunks`, so the earlier chunks absorb any
//! remainder and the chunk sizes differ by at most one.

#![verifier::loop_isolation(false)]
use vstd::prelude::*;

verus! {

/// Ceiling of `len / n` for positive `n`.
pub open spec fn ceil_div(len: int, n: int) -> int {
    (len + n - 1) / n
}

/// The chunk sizes produced by greedily taking `ceil_div(remaining, i)`
/// items for each of the `n` chunks, in order.
pub open spec fn chunk_sizes(len: int, n: int) -> Seq<int>
    decreases n,
{
    if n <= 0 {
        Seq::empty()
    } else {
        seq![ceil_div(len, n)] + chunk_sizes(len - ceil_div(len, n), n - 1)
    }
}

/// The sequence of views of the chunks.
pub open spec fn chunk_views<T>(r: Seq<Vec<T>>) -> Seq<Seq<T>> {
    r.map_values(|c: Vec<T>| c@)
}

/// Splits `array` into exactly `n` ordered chunks whose concatenation is
/// `array` and whose sizes follow the greedy ceiling rule; when `array` has
/// fewer items than `n`, the trailing chunks are empty.
pub fn split_to_n_chunks<T>(array: Vec<T>, n: usize) -> (r: Vec<Vec<T>>)
    requires
        n >= 1,
    ensures
        r@.len() == n,
        chunk_views(r@).flatten() == array@,
        chunk_views(r@).map_values(|c: Seq<T>| c.len() as int) == chunk_sizes(
            array@.len() as int,
            n as int,
        ),
{
    broadcast use vstd::prelude::Seq::lemma_flatten_push;

    let ghost len0: int = array@.len() as int;
    let mut input = array;
    let mut result: Vec<Vec<T>> = Vec::new();
    let mut i = n;
    proof {
        assert(chunk_views(result@) =~= Seq::<Seq<T>>::empty());
        assert(chunk_views(result@).flatten() + input@ =~= array@);
        assert(chunk_views(result@).map_values(|c: Seq<T>| c.len() as int) + chunk_sizes(
            input@.len() as int,
            i as int,
        ) =~= chunk_sizes(len0, n as int));
    }
    while i > 0
        invariant
            i <= n,
            chunk_views(result@).flatten() + input@ == array@,
            chunk_views(result@).map_values(|c: Seq<T>| c.len() as int) + chunk_sizes(
                input@.len() as int,
                i as int,
            ) == chunk_sizes(len0, n as int),
            result@.len() + i == n,
        decreases i,
    {
        let remaining = input.len();
        let q = remaining / i;
        let m = remaining % i;
        proof {
            let ghost rem: int = remaining as int;
            let ghost div: int = i as int;
            assert(div >= 1 && rem >= 0 && rem % div > 0 ==> rem / div < rem) by (nonlinear_arith);
            assert(div >= 1 && rem >= 0 ==> {
                let c = ceil_div(rem, div);
                (if rem % div > 0 {
                    rem / div + 1
                } else {
                    rem / div
                }) == c && 0 <= c <= rem
            }) by (nonlinear_arith);
        }
        let chunk_size = if m > 0 {
            q + 1
        } else {
            q
        };
        proof {
            assert(chunk_size as int == ceil_div(input@.len() as int, i as int));
        }
        let ghost input0 = input@;
        let mut chunk: Vec<T> = Vec::new();
        let mut k: usize = 0;
        proof {
            assert(chunk@ =~= input0.subrange(0, 0));
        }
        while k < chunk_size
            invariant
                k <= chunk_size <= input0.len(),
                chunk@ == input0.subrange(0, k as int),
                input@ == input0.subrange(k as int, input0.len() as int),
            decreases chunk_size - k,
        {
            let ghost before = input@;
            let x = input.remove(0);
            proof {
                assert(before.remove(0) =~= input0.subrange(k + 1, input0.len() as int));
                assert(chunk@.push(x) =~= input0.subrange(0, k + 1));
            }
            chunk.push(x);
            k = k + 1;
        }
        let ghost done = chunk_views(result@);
        let ghost taken = chunk@;
        result.push(chunk);
        proof {
            assert(chunk_views(result@) =~= done.push(taken));
            assert(done.push(taken).flatten() =~= done.flatten() + taken);
            assert(done.flatten() + taken + input@ =~= done.flatten() + (taken + input@));
            assert(taken + input@ =~= input0);
            assert(chunk_views(result@).map_values(|c: Seq<T>| c.len() as int) =~= done.map_values(
                |c: Seq<T>| c.len() as int,
            ).push(taken.len() as int));
            assert(seq![ceil_div(input0.len() as int, i as int)] + chunk_sizes(
                input@.len() as int,
                i - 1,
            ) =~= chunk_sizes(input0.len() as int, i as int));
            assert(done.map_values(|c: Seq<T>| c.len() as int).push(taken.len() as int)
                + chunk_sizes(input@.len() as int, i - 1) =~= done.map_values(
                |c: Seq<T>| c.len() as int,
            ) + chunk_sizes(input0.len() as int, i as int));
        }
        i = i - 1;
    }
    proof {
        assert(chunk_sizes(input@.len() as int, 0) =~= Seq::<int>::empty());
        assert(chunk_views(result@).map_values(|c: Seq<T>| c.len() as int) =~= chunk_sizes(
            len0,
            n as int,
        ));
        lemma_chunk_sizes_total(len0, n as int);
        lemma_flatten_len(chunk_views(result@));
        assert(input@.len() == 0);
        assert(chunk_views(result@).flatten() + input@ =~= chunk_views(result@).flatten());
    }
    result
}

/// The chunk sizes for `n >= 1` chunks add up to exactly `len`.
pub proof fn lemma_chunk_sizes_total(len: int, n: int)
    requires
        0 <= len,
        1 <= n,
        len >= 0,
    ensures
        sum_ints(chunk_sizes(len, n)) == len,
    decreases n,
{
    assert(0 <= ceil_div(len, n) <= len && (n == 1 ==> ceil_div(len, n) == len))
        by (nonlinear_arith)
        requires
            0 <= len,
            1 <= n,
    ;
    let c = ceil_div(len, n);
    if n == 1 {
        assert(chunk_sizes(len - c, 0) =~= Seq::<int>::empty());
        assert(chunk_sizes(len, 1) =~= seq![len]);
        assert(sum_ints(seq![len]) == len + sum_ints(seq![len].drop_first()));
        assert(seq![len].drop_first() =~= Seq::<int>::empty());
    } else {
        lemma_chunk_sizes_total(len - c, n - 1);
        assert(chunk_sizes(len, n).drop_first() =~= chunk_sizes(len - c, n - 1));
    }
}

/// Sum of a sequence of integers.
pub open spec fn sum_ints(s: Seq<int>) -> int
    decreases s.len(),
{
    if s.len() == 0 {
        0
    } else {
        s.first() + sum_ints(s.drop_first())
    }
}

/// The length of a flattened sequence is the sum of the member lengths.
proof fn lemma_flatten_len<T>(s: Seq<Seq<T>>)
    ensures
        s.flatten().len() == sum_ints(s.map_values(|c: Seq<T>| c.len() as int)),
    decreases s.len(),
{
    if s.len() == 0 {
    } else {
        lemma_flatten_len(s.drop_first());
        assert(s.map_values(|c: Seq<T>| c.len() as int).drop_first() =~= s.drop_first().map_values(
            |c: Seq<T>| c.len() as int,
        ));
    }
}

} // verus!
