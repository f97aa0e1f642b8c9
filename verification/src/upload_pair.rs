//! The configured correspondence between a local source directory and a
//! remote target directory, parsed from a `<source>[:<target>]` argument.

#![verifier::loop_isolation(false)]
use vstd::prelude::*;
use crate::pathmodel::{path_segments, str_is_absolute, SyncPath, SyncPathV};

verus! {

/// The whitespace characters the pair parser trims from each side.
pub open spec fn is_space(c: char) -> bool {
    c == ' ' || c == '\t' || c == '\n' || c == '\r'
}

/// The string with leading and trailing whitespace removed.
pub open spec fn trimmed(s: Seq<char>) -> Seq<char>
    decreases s.len(),
{
    if s.len() == 0 {
        s
    } else if is_space(s[0]) {
        trimmed(s.drop_first())
    } else if is_space(s.last()) {
        trimmed(s.drop_last())
    } else {
        s
    }
}

/// Index of the first `:` in `s`, or `s.len()` when there is none.
pub open spec fn first_colon(s: Seq<char>) -> int
    decreases s.len(),
{
    if s.len() == 0 {
        0
    } else if s[0] == ':' {
        0
    } else {
        1 + first_colon(s.drop_first())
    }
}

/// The source half of a pair string: everything before the first `:`, trimmed.
pub open spec fn pair_source_str(s: Seq<char>) -> Seq<char> {
    trimmed(s.subrange(0, first_colon(s)))
}

/// Whether the pair string names an explicit target.
pub open spec fn pair_has_target(s: Seq<char>) -> bool {
    first_colon(s) < s.len()
}

/// The target half of a pair string: everything after the first `:`, trimmed.
pub open spec fn pair_target_str(s: Seq<char>) -> Seq<char> {
    trimmed(s.subrange(first_colon(s) + 1, s.len() as int))
}

proof fn lemma_first_colon(s: Seq<char>)
    ensures
        0 <= first_colon(s) <= s.len(),
        first_colon(s) < s.len() ==> s[first_colon(s)] == ':',
        forall|k: int| 0 <= k < first_colon(s) ==> s[k] != ':',
    decreases s.len(),
{
    if s.len() > 0 && s[0] != ':' {
        lemma_first_colon(s.drop_first());
        assert(forall|k: int|
            1 <= k < first_colon(s) ==> s[k] == s.drop_first()[k - 1] && s.drop_first()[k - 1]
                != ':');
    }
}

/// Returns the string with leading and trailing whitespace removed.
fn trim_str(s: &str) -> (r: String)
    ensures
        r@ == trimmed(s@),
{
    let n = s.unicode_len();
    let mut a: usize = 0;
    proof {
        assert(s@.subrange(0, n as int) =~= s@);
    }
    while a < n && is_space_char(s.get_char(a))
        invariant
            a <= n,
            n == s@.len(),
            trimmed(s@) == trimmed(s@.subrange(a as int, n as int)),
        decreases n - a,
    {
        let ghost cur = s@.subrange(a as int, n as int);
        proof {
            assert(cur[0] == s@[a as int]);
            assert(cur.drop_first() =~= s@.subrange(a + 1, n as int));
        }
        a = a + 1;
    }
    if a == n {
        proof {
            assert(s@.subrange(n as int, n as int) =~= Seq::<char>::empty());
            reveal_strlit("");
            assert(""@ =~= Seq::<char>::empty());
        }
        return String::from_str("");
    }
    let mut b: usize = n;
    while b > a + 1 && is_space_char(s.get_char(b - 1))
        invariant
            a < b <= n,
            n == s@.len(),
            !is_space(s@[a as int]),
            trimmed(s@) == trimmed(s@.subrange(a as int, b as int)),
        decreases b,
    {
        let ghost cur = s@.subrange(a as int, b as int);
        proof {
            assert(cur[0] == s@[a as int]);
            assert(cur.last() == s@[b - 1]);
            assert(cur.drop_last() =~= s@.subrange(a as int, b - 1));
        }
        b = b - 1;
    }
    let ghost cur = s@.subrange(a as int, b as int);
    proof {
        assert(cur[0] == s@[a as int]);
        if b > a + 1 {
            assert(cur.last() == s@[b - 1]);
        }
        assert(trimmed(cur) == cur);
    }
    String::from_str(s.substring_char(a, b))
}

/// Whether one character counts as trimmable whitespace.
fn is_space_char(c: char) -> (r: bool)
    ensures
        r == is_space(c),
{
    c == ' ' || c == '\t' || c == '\n' || c == '\r'
}

/// A configured (local source directory, remote target directory) pair.
///
/// The target is interpreted relative to the session's initial remote
/// working directory unless absolute.
#[derive(Debug, PartialEq, Eq)]
pub struct UploadPair {
    pub source: SyncPath,
    pub target: SyncPath,
}

impl UploadPair {
    /// Builds a pair; an omitted target defaults to the source, which is
    /// then required to be relative.
    pub fn new(source: SyncPath, target: Option<SyncPath>) -> (r: Self)
        requires
            target is Some || !source@.abs,
        ensures
            r.source@ == source@,
            r.target@ == match target {
                Some(t) => t@,
                None => source@,
            },
    {
        match target {
            Some(target) => UploadPair { source, target },
            None => {
                let target = source.clone();
                UploadPair { source, target }
            },
        }
    }

    /// Parses `<source>[:<target>]`, trimming whitespace from both halves;
    /// a pair with an absolute source must name an explicit target.
    pub fn from_uploadpair_string(upload_pair_string: &str) -> (r: Self)
        requires
            pair_has_target(upload_pair_string@) || !str_is_absolute(
                pair_source_str(upload_pair_string@),
            ),
        ensures
            r.source@ == (SyncPathV {
                abs: str_is_absolute(pair_source_str(upload_pair_string@)),
                segs: path_segments(pair_source_str(upload_pair_string@)),
            }),
            r.target@ == (if pair_has_target(upload_pair_string@) {
                SyncPathV {
                    abs: str_is_absolute(pair_target_str(upload_pair_string@)),
                    segs: path_segments(pair_target_str(upload_pair_string@)),
                }
            } else {
                r.source@
            }),
            r.source.wf() && r.target.wf(),
    {
        let s = upload_pair_string;
        let n = s.unicode_len();
        let mut c: usize = 0;
        while c < n && s.get_char(c) != ':'
            invariant
                c <= n,
                n == s@.len(),
                forall|k: int| 0 <= k < c ==> s@[k] != ':',
            decreases n - c,
        {
            c = c + 1;
        }
        proof {
            lemma_first_colon(s@);
            assert(c as int == first_colon(s@));
        }
        let source_str = trim_str(s.substring_char(0, c));
        let source = SyncPath::parse(source_str.as_str());
        if c < n {
            let target_str = trim_str(s.substring_char(c + 1, n));
            let target = SyncPath::parse(target_str.as_str());
            UploadPair { source, target }
        } else {
            let target = source.clone();
            UploadPair { source, target }
        }
    }
}

} // verus!
