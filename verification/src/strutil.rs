//! Substring and suffix matching on strings, used by the watcher's
//! ignore-pattern filter.

#![verifier::loop_isolation(false)]
use vstd::prelude::*;

verus! {

/// `needle` occurs in `hay` starting at index `i`.
pub open spec fn seq_contains_at(hay: Seq<char>, needle: Seq<char>, i: int) -> bool {
    0 <= i && i + needle.len() <= hay.len() && hay.subrange(i, i + needle.len() as int) == needle
}

/// `needle` occurs somewhere in `hay`.
pub open spec fn seq_contains_sub(hay: Seq<char>, needle: Seq<char>) -> bool {
    exists|i: int| seq_contains_at(hay, needle, i)
}

/// `hay` ends with `needle`.
pub open spec fn seq_ends_with(hay: Seq<char>, needle: Seq<char>) -> bool {
    needle.len() <= hay.len() && hay.subrange(
        hay.len() - needle.len(),
        hay.len() as int,
    ) == needle
}

/// `needle` occurs in `hay` at the given start index.
fn match_at(hay: &str, needle: &str, hlen: usize, nlen: usize, i: usize) -> (r: bool)
    requires
        hlen == hay@.len(),
        nlen == needle@.len(),
        i + nlen <= hlen,
    ensures
        r == seq_contains_at(hay@, needle@, i as int),
{
    let mut j: usize = 0;
    while j < nlen
        invariant
            j <= nlen,
            forall|k: int| 0 <= k < j ==> hay@[i + k] == needle@[k],
        decreases nlen - j,
    {
        if hay.get_char(i + j) != needle.get_char(j) {
            proof {
                assert(hay@.subrange(i as int, i + nlen as int)[j as int] == hay@[i + j]);
            }
            return false;
        }
        j = j + 1;
    }
    proof {
        assert(hay@.subrange(i as int, i + nlen as int) =~= needle@);
    }
    true
}

/// Whether `needle` occurs anywhere in `hay`.
pub fn str_contains_sub(hay: &str, needle: &str) -> (r: bool)
    ensures
        r == seq_contains_sub(hay@, needle@),
{
    let hlen = hay.unicode_len();
    let nlen = needle.unicode_len();
    if nlen > hlen {
        proof {
            assert(forall|i: int| !seq_contains_at(hay@, needle@, i));
        }
        return false;
    }
    if nlen == 0 {
        proof {
            assert(hay@.subrange(0, 0) =~= needle@);
            assert(seq_contains_at(hay@, needle@, 0));
        }
        return true;
    }
    let mut i: usize = 0;
    while i <= hlen - nlen
        invariant
            hlen == hay@.len(),
            nlen == needle@.len(),
            0 < nlen <= hlen,
            i <= hlen - nlen + 1,
            forall|k: int| 0 <= k < i ==> !seq_contains_at(hay@, needle@, k),
        decreases hlen - nlen + 1 - i,
    {
        if match_at(hay, needle, hlen, nlen, i) {
            return true;
        }
        i = i + 1;
    }
    proof {
        assert(forall|k: int| seq_contains_at(hay@, needle@, k) ==> 0 <= k <= hlen - nlen);
    }
    false
}

/// Whether `hay` ends with `needle`.
pub fn str_ends_with(hay: &str, needle: &str) -> (r: bool)
    ensures
        r == seq_ends_with(hay@, needle@),
{
    let hlen = hay.unicode_len();
    let nlen = needle.unicode_len();
    if nlen > hlen {
        return false;
    }
    let r = match_at(hay, needle, hlen, nlen, hlen - nlen);
    proof {
        assert(seq_contains_at(hay@, needle@, hlen - nlen as int) == seq_ends_with(hay@, needle@));
    }
    r
}

} // verus!
