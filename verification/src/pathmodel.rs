//! The library's model of filesystem paths, local and remote.
//!
//! The underlying transfer protocol and the watcher both traffic in plain
//! path strings.  All path arithmetic in this crate (joining, prefix
//! stripping, parent computation) is done on `SyncPath`, which holds a path
//! as an absolute-flag plus a list of segments.  Parsing normalises a string
//! by dropping empty and `.` segments, so `a//b/./c` and `a/b/c` denote the
//! same `SyncPath`.

#![verifier::loop_isolation(false)]
use vstd::prelude::*;

verus! {

/// Mathematical value of a `SyncPath`: an absolute-flag and the segments.
pub struct SyncPathV {
    pub abs: bool,
    pub segs: Seq<Seq<char>>,
}

/// A segment produced by parsing: nonempty, free of separators, not `.`.
pub open spec fn wf_seg(s: Seq<char>) -> bool {
    s.len() > 0 && (forall|i: int| 0 <= i < s.len() ==> s[i] != '/') && !(s.len() == 1 && s[0]
        == '.')
}

/// Every segment of the path is well formed.
pub open spec fn wf_path(p: SyncPathV) -> bool {
    forall|i: int| 0 <= i < p.segs.len() ==> wf_seg(#[trigger] p.segs[i])
}

/// A segment is kept by the parser when it is nonempty and not `.`.
pub open spec fn keep_seg(cur: Seq<char>) -> bool {
    cur.len() > 0 && !(cur.len() == 1 && cur[0] == '.')
}

/// The segments the parser emits for an accumulated partial segment.
pub open spec fn emit_seg(cur: Seq<char>) -> Seq<Seq<char>> {
    if keep_seg(cur) {
        seq![cur]
    } else {
        Seq::empty()
    }
}

/// Segments of the remaining characters `s`, with `cur` the partial segment
/// accumulated since the last separator.
pub open spec fn split_rest(s: Seq<char>, cur: Seq<char>) -> Seq<Seq<char>>
    decreases s.len(),
{
    if s.len() == 0 {
        emit_seg(cur)
    } else if s[0] == '/' {
        emit_seg(cur) + split_rest(s.subrange(1, s.len() as int), Seq::empty())
    } else {
        split_rest(s.subrange(1, s.len() as int), cur.push(s[0]))
    }
}

/// The segment list denoted by a path string.
pub open spec fn path_segments(s: Seq<char>) -> Seq<Seq<char>> {
    split_rest(s, Seq::empty())
}

/// Whether a path string is absolute.
pub open spec fn str_is_absolute(s: Seq<char>) -> bool {
    s.len() > 0 && s[0] == '/'
}

/// String form of a segment list: segments joined by `/`.
pub open spec fn render_segs(segs: Seq<Seq<char>>) -> Seq<char>
    decreases segs.len(),
{
    if segs.len() == 0 {
        Seq::empty()
    } else if segs.len() == 1 {
        segs[0]
    } else {
        render_segs(segs.drop_last()) + seq!['/'] + segs.last()
    }
}

/// String form of a path value: a leading `/` when absolute, then the segments.
pub open spec fn render_path(p: SyncPathV) -> Seq<char> {
    if p.abs {
        seq!['/'] + render_segs(p.segs)
    } else {
        render_segs(p.segs)
    }
}

/// Joining `other` onto `base`: an absolute `other` replaces `base` outright,
/// a relative one appends its segments.
pub open spec fn path_push(base: SyncPathV, other: SyncPathV) -> SyncPathV {
    if other.abs {
        other
    } else {
        SyncPathV { abs: base.abs, segs: base.segs + other.segs }
    }
}

/// `base` is a prefix of `p`: same root kind, and `base`'s segments lead `p`'s.
pub open spec fn is_path_prefix(base: SyncPathV, p: SyncPathV) -> bool {
    base.abs == p.abs && base.segs.len() <= p.segs.len() && base.segs == p.segs.subrange(
        0,
        base.segs.len() as int,
    )
}

/// The relative remainder of `p` once the prefix `base` is removed.
pub open spec fn strip_result(p: SyncPathV, base: SyncPathV) -> SyncPathV {
    SyncPathV { abs: false, segs: p.segs.skip(base.segs.len() as int) }
}

/// The path with the last segment removed; meaningful when `segs` is nonempty.
pub open spec fn parent_view(p: SyncPathV) -> SyncPathV {
    SyncPathV { abs: p.abs, segs: p.segs.drop_last() }
}

/// Consuming separator-free characters moves them into the partial segment.
proof fn lemma_split_block(x: Seq<char>, r: Seq<char>, cur: Seq<char>)
    requires
        forall|i: int| 0 <= i < x.len() ==> x[i] != '/',
    ensures
        split_rest(x + r, cur) == split_rest(r, cur + x),
    decreases x.len(),
{
    if x.len() == 0 {
        assert(x + r =~= r);
        assert(cur + x =~= cur);
    } else {
        let s = x + r;
        assert(s.len() > 0);
        assert(s[0] == x[0]);
        assert(s.subrange(1, s.len() as int) =~= x.drop_first() + r);
        lemma_split_block(x.drop_first(), r, cur.push(x[0]));
        assert(cur.push(x[0]) + x.drop_first() =~= cur + x);
    }
}

/// The string form of two or more segments starts with the first segment,
/// a separator, and the string form of the rest.
proof fn lemma_render_head(segs: Seq<Seq<char>>)
    requires
        segs.len() >= 2,
    ensures
        render_segs(segs) == segs[0] + seq!['/'] + render_segs(segs.drop_first()),
    decreases segs.len(),
{
    if segs.len() == 2 {
        assert(segs.drop_last() =~= seq![segs[0]]);
        assert(segs.drop_first() =~= seq![segs[1]]);
        assert(render_segs(segs.drop_last()) == segs[0]);
        assert(render_segs(segs.drop_first()) == segs[1]);
        assert(render_segs(segs) =~= segs[0] + seq!['/'] + render_segs(segs.drop_first()));
    } else {
        lemma_render_head(segs.drop_last());
        assert(segs.drop_last().drop_first() =~= segs.drop_first().drop_last());
        assert(segs.drop_last()[0] == segs[0]);
        assert(segs.drop_first().last() == segs.last());
        assert(render_segs(segs.drop_first()) == render_segs(segs.drop_first().drop_last())
            + seq!['/'] + segs.drop_first().last());
        assert(render_segs(segs) =~= segs[0] + seq!['/'] + render_segs(segs.drop_first()));
    }
}

/// Rendering a well-formed path and parsing the result gives the path back:
/// the string form loses nothing.
pub proof fn lemma_parse_render_round_trip(p: SyncPathV)
    requires
        wf_path(p),
    ensures
        str_is_absolute(render_path(p)) == p.abs,
        path_segments(render_path(p)) == p.segs,
    decreases p.segs.len(),
{
    let s = render_path(p);
    if p.segs.len() == 0 {
        if p.abs {
            assert(s =~= seq!['/']);
            assert(s.subrange(1, 1) =~= Seq::<char>::empty());
            assert(split_rest(Seq::<char>::empty(), Seq::<char>::empty())
                =~= Seq::<Seq<char>>::empty());
            assert(path_segments(s) =~= p.segs);
        } else {
            assert(s =~= Seq::<char>::empty());
            assert(path_segments(s) =~= p.segs);
        }
    } else {
        let head = p.segs[0];
        let rest = p.segs.drop_first();
        assert(wf_seg(head));
        let tail: Seq<char> = if p.segs.len() == 1 {
            Seq::empty()
        } else {
            seq!['/'] + render_segs(rest)
        };
        if p.segs.len() > 1 {
            lemma_render_head(p.segs);
        }
        assert(render_segs(p.segs) =~= head + tail);
        // the string starts with the first segment's first character
        assert(head.len() > 0 && head[0] != '/');
        if p.abs {
            assert(s =~= seq!['/'] + (head + tail));
            assert(s[0] == '/');
            assert(s.subrange(1, s.len() as int) =~= head + tail);
            assert(path_segments(s) == split_rest(head + tail, Seq::empty()));
        } else {
            assert(s =~= head + tail);
            assert(s[0] == head[0]);
            assert(!str_is_absolute(s));
        }
        lemma_split_block(head, tail, Seq::empty());
        assert(Seq::<char>::empty() + head =~= head);
        assert(split_rest(head + tail, Seq::empty()) == split_rest(tail, head));
        if p.segs.len() == 1 {
            assert(split_rest(tail, head) == emit_seg(head));
            assert(emit_seg(head) =~= p.segs);
        } else {
            let sub = SyncPathV { abs: false, segs: rest };
            assert(wf_path(sub)) by {
                assert(forall|i: int|
                    0 <= i < rest.len() ==> rest[i] == #[trigger] p.segs[i + 1]);
            }
            lemma_parse_render_round_trip(sub);
            assert(render_path(sub) == render_segs(rest));
            assert(tail[0] == '/');
            assert(tail.subrange(1, tail.len() as int) =~= render_segs(rest));
            assert(split_rest(tail, head) == emit_seg(head) + split_rest(
                render_segs(rest),
                Seq::empty(),
            ));
            assert(emit_seg(head) + path_segments(render_segs(rest)) =~= p.segs);
        }
    }
}

/// A filesystem path held as an absolute-flag plus its segments.
#[derive(Debug, PartialEq, Eq, Hash)]
pub struct SyncPath {
    pub abs: bool,
    pub segs: Vec<String>,
}

impl View for SyncPath {
    type V = SyncPathV;

    open spec fn view(&self) -> SyncPathV {
        SyncPathV { abs: self.abs, segs: self.segs.deep_view() }
    }
}

impl Clone for SyncPath {
    fn clone(&self) -> (r: Self)
        ensures
            r@ == self@,
    {
        let segs = self.segs.clone();
        proof {
            assert(segs.deep_view() =~= self.segs.deep_view());
        }
        SyncPath { abs: self.abs, segs }
    }
}

impl SyncPath {
    /// All segments are well formed.
    pub open spec fn wf(&self) -> bool {
        wf_path(self@)
    }

    /// The empty relative path.
    pub fn empty() -> (r: SyncPath)
        ensures
            r@ == (SyncPathV { abs: false, segs: Seq::<Seq<char>>::empty() }),
            r.wf(),
    {
        let r = SyncPath { abs: false, segs: Vec::new() };
        proof {
            assert(r@.segs =~= Seq::<Seq<char>>::empty());
        }
        r
    }

    /// The filesystem root `/`.
    pub fn root() -> (r: SyncPath)
        ensures
            r@ == (SyncPathV { abs: true, segs: Seq::<Seq<char>>::empty() }),
            r.wf(),
    {
        let r = SyncPath { abs: true, segs: Vec::new() };
        proof {
            assert(r@.segs =~= Seq::<Seq<char>>::empty());
        }
        r
    }

    /// Parses a path string, dropping empty and `.` segments.
    #[verifier::rlimit(60)]
    pub fn parse(s: &str) -> (r: SyncPath)
        ensures
            r@.abs == str_is_absolute(s@),
            r@.segs == path_segments(s@),
            r.wf(),
    {
        let n = s.unicode_len();
        let abs = n > 0 && s.get_char(0) == '/';
        let mut segs: Vec<String> = Vec::new();
        let mut start: usize = 0;
        let mut i: usize = 0;
        proof {
            assert(s@.subrange(0, n as int) =~= s@);
            assert(s@.subrange(0, 0) =~= Seq::<char>::empty());
            assert(segs.deep_view() =~= Seq::<Seq<char>>::empty());
        }
        while i < n
            invariant
                n == s@.len(),
                start <= i <= n,
                forall|k: int| start <= k < i ==> s@[k] != '/',
                path_segments(s@) == segs.deep_view() + split_rest(
                    s@.subrange(i as int, n as int),
                    s@.subrange(start as int, i as int),
                ),
                forall|k: int| 0 <= k < segs.len() ==> wf_seg(#[trigger] segs.deep_view()[k]),
            decreases n - i,
        {
            let ghost rest = s@.subrange(i as int, n as int);
            let ghost cur = s@.subrange(start as int, i as int);
            proof {
                assert(rest.len() > 0);
                assert(rest[0] == s@[i as int]);
                assert(rest.subrange(1, rest.len() as int) =~= s@.subrange(i + 1, n as int));
            }
            if s.get_char(i) == '/' {
                if i > start && !(i - start == 1 && s.get_char(start) == '.') {
                    proof {
                        assert(cur.len() == i - start);
                        assert(cur[0] == s@[start as int]);
                        assert(keep_seg(cur));
                        assert(wf_seg(cur));
                    }
                    let seg = s.substring_char(start, i);
                    let ghost old_segs = segs.deep_view();
                    segs.push(String::from_str(seg));
                    proof {
                        assert(segs.deep_view() =~= old_segs.push(cur));
                        assert(emit_seg(cur) =~= seq![cur]);
                        assert(old_segs + split_rest(rest, cur) =~= (old_segs.push(cur))
                            + split_rest(s@.subrange(i + 1, n as int), Seq::empty()));
                    }
                } else {
                    proof {
                        assert(!keep_seg(cur));
                        assert(emit_seg(cur) =~= Seq::<Seq<char>>::empty());
                        assert(segs.deep_view() + split_rest(rest, cur) =~= segs.deep_view()
                            + split_rest(s@.subrange(i + 1, n as int), Seq::empty()));
                    }
                }
                start = i + 1;
                proof {
                    assert(s@.subrange(start as int, i + 1) =~= Seq::<char>::empty());
                }
            } else {
                proof {
                    assert(cur.push(s@[i as int]) =~= s@.subrange(start as int, i + 1));
                }
            }
            i = i + 1;
        }
        let ghost cur = s@.subrange(start as int, n as int);
        proof {
            assert(s@.subrange(n as int, n as int) =~= Seq::<char>::empty());
            assert(split_rest(Seq::empty(), cur) == emit_seg(cur));
        }
        if n > start && !(n - start == 1 && s.get_char(start) == '.') {
            proof {
                assert(cur.len() == n - start);
                assert(cur[0] == s@[start as int]);
                assert(keep_seg(cur));
                assert(wf_seg(cur));
            }
            let seg = s.substring_char(start, n);
            let ghost old_segs = segs.deep_view();
            segs.push(String::from_str(seg));
            proof {
                assert(segs.deep_view() =~= old_segs.push(cur));
                assert(old_segs + emit_seg(cur) =~= old_segs.push(cur));
            }
        } else {
            proof {
                assert(!keep_seg(cur));
                assert(segs.deep_view() + emit_seg(cur) =~= segs.deep_view());
            }
        }
        let r = SyncPath { abs, segs };
        proof {
            assert(r@.segs == path_segments(s@));
        }
        r
    }

    /// Renders the path back to its string form.
    pub fn to_string(&self) -> (r: String)
        ensures
            r@ == render_path(self@),
    {
        let mut out = String::new();
        proof {
            reveal_strlit("/");
            assert("/"@ =~= seq!['/']);
        }
        if self.abs {
            out.append("/");
        }
        let ghost lead: Seq<char> = if self.abs {
            seq!['/']
        } else {
            Seq::empty()
        };
        let mut i: usize = 0;
        proof {
            assert(self@.segs.subrange(0, 0) =~= Seq::<Seq<char>>::empty());
            assert(out@ =~= lead + render_segs(self@.segs.subrange(0, 0)));
        }
        while i < self.segs.len()
            invariant
                i <= self.segs.len(),
                out@ == lead + render_segs(self@.segs.subrange(0, i as int)),
            decreases self.segs.len() - i,
        {
            let ghost done = self@.segs.subrange(0, i as int);
            let ghost next = self@.segs.subrange(0, i + 1);
            proof {
                assert(next.drop_last() =~= done);
                assert(next.last() == self@.segs[i as int]);
            }
            if i > 0 {
                out.append("/");
            }
            out.append(self.segs[i].as_str());
            proof {
                if i == 0 {
                    assert(render_segs(next) == next[0]);
                    assert(next[0] == self@.segs[0]);
                    assert(out@ =~= lead + render_segs(next));
                } else {
                    assert(render_segs(next) == render_segs(done) + seq!['/']
                        + self@.segs[i as int]);
                    assert(out@ =~= lead + render_segs(next));
                }
            }
            i = i + 1;
        }
        proof {
            assert(self@.segs.subrange(0, self@.segs.len() as int) =~= self@.segs);
        }
        out
    }

    /// Joins `other` onto `self`, as pushing onto an owned path buffer would:
    /// an absolute `other` replaces `self`.
    pub fn join(&self, other: &SyncPath) -> (r: SyncPath)
        ensures
            r@ == path_push(self@, other@),
            self.wf() && other.wf() ==> r.wf(),
    {
        if other.abs {
            other.clone()
        } else {
            let mut segs = self.segs.clone();
            proof {
                assert(segs.deep_view() =~= self@.segs);
                assert(segs.deep_view() =~= self@.segs + other@.segs.subrange(0, 0));
            }
            let mut j: usize = 0;
            while j < other.segs.len()
                invariant
                    j <= other.segs.len(),
                    segs.deep_view() == self@.segs + other@.segs.subrange(0, j as int),
                decreases other.segs.len() - j,
            {
                let ghost before = segs.deep_view();
                segs.push(other.segs[j].clone());
                proof {
                    assert(segs.deep_view() =~= before.push(other@.segs[j as int]));
                    assert(before.push(other@.segs[j as int]) =~= self@.segs + other@.segs.subrange(
                        0,
                        j + 1,
                    ));
                }
                j = j + 1;
            }
            proof {
                assert(other@.segs.subrange(0, other@.segs.len() as int) =~= other@.segs);
            }
            SyncPath { abs: self.abs, segs }
        }
    }

    /// Appends one segment.
    pub fn child(&self, seg: &String) -> (r: SyncPath)
        ensures
            r@.abs == self@.abs,
            r@.segs == self@.segs.push(seg@),
            self.wf() && wf_seg(seg@) ==> r.wf(),
    {
        let mut segs = self.segs.clone();
        proof {
            assert(segs.deep_view() =~= self@.segs);
        }
        let ghost before = segs.deep_view();
        segs.push(seg.clone());
        proof {
            assert(segs.deep_view() =~= before.push(seg@));
        }
        SyncPath { abs: self.abs, segs }
    }

    /// The parent path, when there is one; `None` for the root and for the
    /// empty relative path.
    pub fn parent(&self) -> (r: Option<SyncPath>)
        ensures
            match r {
                Some(p) => self@.segs.len() > 0 && p@ == parent_view(self@) && (self.wf()
                    ==> p.wf()),
                None => self@.segs.len() == 0,
            },
    {
        if self.segs.len() == 0 {
            None
        } else {
            let mut segs = self.segs.clone();
            proof {
                assert(segs.deep_view() =~= self@.segs);
            }
            let ghost before = segs.deep_view();
            segs.pop();
            proof {
                assert(segs.deep_view() =~= before.drop_last());
            }
            Some(SyncPath { abs: self.abs, segs })
        }
    }

    /// Structural equality of two paths.
    pub fn eq_path(&self, other: &SyncPath) -> (r: bool)
        ensures
            r == (self@ == other@),
    {
        if self.abs != other.abs {
            return false;
        }
        if self.segs.len() != other.segs.len() {
            proof {
                assert(self@.segs.len() != other@.segs.len());
            }
            return false;
        }
        let mut i: usize = 0;
        while i < self.segs.len()
            invariant
                i <= self.segs.len(),
                self.segs.len() == other.segs.len(),
                forall|k: int| 0 <= k < i ==> self@.segs[k] == other@.segs[k],
            decreases self.segs.len() - i,
        {
            if !(self.segs[i] == other.segs[i]) {
                proof {
                    assert(self@.segs[i as int] != other@.segs[i as int]);
                }
                return false;
            }
            i = i + 1;
        }
        proof {
            assert(self@.segs =~= other@.segs);
        }
        true
    }

    /// Strips `base` from the front of `self`, giving the relative remainder;
    /// `None` when `base` is not a prefix of `self`.
    pub fn strip_prefix(&self, base: &SyncPath) -> (r: Option<SyncPath>)
        ensures
            r is Some <==> is_path_prefix(base@, self@),
            match r {
                Some(p) => p@ == strip_result(self@, base@) && (self.wf() ==> p.wf()),
                None => true,
            },
    {
        if self.abs != base.abs {
            return None;
        }
        if base.segs.len() > self.segs.len() {
            proof {
                assert(!is_path_prefix(base@, self@));
            }
            return None;
        }
        let b = base.segs.len();
        let mut i: usize = 0;
        while i < b
            invariant
                i <= b,
                b == base.segs.len() <= self.segs.len(),
                forall|k: int| 0 <= k < i ==> base@.segs[k] == self@.segs[k],
            decreases b - i,
        {
            if !(base.segs[i] == self.segs[i]) {
                proof {
                    assert(base@.segs[i as int] != self@.segs.subrange(0, b as int)[i as int]);
                    assert(!is_path_prefix(base@, self@));
                }
                return None;
            }
            i = i + 1;
        }
        proof {
            assert(base@.segs =~= self@.segs.subrange(0, b as int));
        }
        let mut segs: Vec<String> = Vec::new();
        proof {
            assert(segs.deep_view() =~= self@.segs.subrange(b as int, b as int));
        }
        let mut j: usize = b;
        while j < self.segs.len()
            invariant
                b <= j <= self.segs.len(),
                segs.deep_view() == self@.segs.subrange(b as int, j as int),
            decreases self.segs.len() - j,
        {
            let ghost before = segs.deep_view();
            segs.push(self.segs[j].clone());
            proof {
                assert(segs.deep_view() =~= before.push(self@.segs[j as int]));
                assert(before.push(self@.segs[j as int]) =~= self@.segs.subrange(b as int, j + 1));
            }
            j = j + 1;
        }
        proof {
            assert(self@.segs.subrange(b as int, self@.segs.len() as int) =~= self@.segs.skip(
                b as int,
            ));
        }
        Some(SyncPath { abs: false, segs })
    }
}

} // verus!
