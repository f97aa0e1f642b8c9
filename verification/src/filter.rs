//! Event filtering for the watcher: ignore-pattern matching, classification
//! of raw notification events, the initial-scan filter, and batch building.

#![verifier::loop_isolation(false)]
use vstd::prelude::*;
use crate::pathmodel::SyncPath;
use crate::strutil::{seq_contains_sub, seq_ends_with, str_contains_sub, str_ends_with};

verus! {

/// A path matches when it contains any `includes` pattern or ends with any
/// `ends` pattern.
pub open spec fn matches_ignore(includes: Seq<Seq<char>>, ends: Seq<Seq<char>>, p: Seq<char>) -> bool {
    (exists|i: int| 0 <= i < includes.len() && seq_contains_sub(p, #[trigger] includes[i]))
        || (exists|i: int| 0 <= i < ends.len() && seq_ends_with(p, #[trigger] ends[i]))
}

/// The ignore patterns configured at startup: substring patterns and
/// suffix patterns.
#[derive(Debug)]
pub struct FilterSpec {
    pub ignore_includes: Vec<String>,
    pub ignore_ends: Vec<String>,
}

impl FilterSpec {
    /// Whether the filter drops this path.
    pub open spec fn matches(&self, p: Seq<char>) -> bool {
        matches_ignore(self.ignore_includes.deep_view(), self.ignore_ends.deep_view(), p)
    }

    /// Whether `path` contains any `ignore_includes` pattern or ends with
    /// any `ignore_ends` pattern.
    pub fn matches_path(&self, path: &str) -> (r: bool)
        ensures
            r == self.matches(path@),
    {
        let mut i: usize = 0;
        while i < self.ignore_includes.len()
            invariant
                i <= self.ignore_includes.len(),
                forall|k: int|
                    0 <= k < i ==> !seq_contains_sub(
                        path@,
                        #[trigger] self.ignore_includes.deep_view()[k],
                    ),
            decreases self.ignore_includes.len() - i,
        {
            let ghost pat = self.ignore_includes.deep_view()[i as int];
            proof {
                assert(pat == self.ignore_includes@[i as int]@);
            }
            if str_contains_sub(path, self.ignore_includes[i].as_str()) {
                proof {
                    assert(seq_contains_sub(path@, pat));
                }
                return true;
            }
            i = i + 1;
        }
        let mut j: usize = 0;
        while j < self.ignore_ends.len()
            invariant
                j <= self.ignore_ends.len(),
                forall|k: int|
                    0 <= k < j ==> !seq_ends_with(path@, #[trigger] self.ignore_ends.deep_view()[k]),
            decreases self.ignore_ends.len() - j,
        {
            let ghost pat = self.ignore_ends.deep_view()[j as int];
            proof {
                assert(pat == self.ignore_ends@[j as int]@);
            }
            if str_ends_with(path, self.ignore_ends[j].as_str()) {
                proof {
                    assert(seq_ends_with(path@, pat));
                }
                return true;
            }
            j = j + 1;
        }
        false
    }
}

/// The file-event kinds a raw notification can carry.
#[derive(Debug, Clone, Copy, PartialEq, Eq, Structural)]
pub enum EventFileKind {
    AnyKind,
    AccessKind,
    CreateKind,
    ModifyAny,
    ModifyData,
    ModifyMetadata,
    ModifyName,
    ModifyOther,
    RemoveKind,
    OtherKind,
}

/// One tag of a raw notification event, as the watcher reads it: the path it
/// names (with whether it is a directory), the kind of file event, or one of
/// the non-filesystem tags.
#[derive(Debug)]
pub enum EventTag {
    PathTag { path: String, is_dir: bool },
    FileEventTag { kind: EventFileKind },
    SourceTag,
    ProcessTag,
    ProcessCompletionTag,
    KeyboardTag,
    SignalTag,
    UnknownTag,
}

/// Event kinds that disqualify the whole event: access-only, metadata-only
/// modification, pure removal, and non-filesystem kinds.
pub open spec fn kind_rejects(k: EventFileKind) -> bool {
    k is AccessKind || k is ModifyMetadata || k is RemoveKind || k is OtherKind
}

/// A tag that disqualifies the whole event: a directory path, a path the
/// filter drops, a rejected event kind, or a keyboard or signal tag.
pub open spec fn tag_rejects(t: EventTag, includes: Seq<Seq<char>>, ends: Seq<Seq<char>>) -> bool {
    match t {
        EventTag::PathTag { path, is_dir } => is_dir || matches_ignore(includes, ends, path@),
        EventTag::FileEventTag { kind } => kind_rejects(kind),
        EventTag::KeyboardTag => true,
        EventTag::SignalTag => true,
        _ => false,
    }
}

/// The path carried by the last path tag, if any.
pub open spec fn last_path_view(tags: Seq<EventTag>) -> Option<Seq<char>>
    decreases tags.len(),
{
    if tags.len() == 0 {
        None
    } else {
        match tags.last() {
            EventTag::PathTag { path, is_dir } => Some(path@),
            _ => last_path_view(tags.drop_last()),
        }
    }
}

/// What one event contributes to a batch: nothing when any tag disqualifies
/// it, otherwise the path of its last path tag.
pub open spec fn event_result(
    tags: Seq<EventTag>,
    includes: Seq<Seq<char>>,
    ends: Seq<Seq<char>>,
) -> Option<Seq<char>> {
    if exists|i: int| 0 <= i < tags.len() && tag_rejects(#[trigger] tags[i], includes, ends) {
        None
    } else {
        last_path_view(tags)
    }
}

/// Walks the tags of one event and decides whether the event contributes a
/// path to the batch, and which.
pub fn match_event_by_tags(
    tags: &Vec<EventTag>,
    ignore_includes: &Vec<String>,
    ignore_ends: &Vec<String>,
) -> (r: Option<String>)
    ensures
        match r {
            Some(p) => event_result(tags@, ignore_includes.deep_view(), ignore_ends.deep_view())
                == Some(p@),
            None => event_result(tags@, ignore_includes.deep_view(), ignore_ends.deep_view())
                is None,
        },
{
    let ghost includes = ignore_includes.deep_view();
    let ghost ends = ignore_ends.deep_view();
    let filter = FilterSpec {
        ignore_includes: clone_strings(ignore_includes),
        ignore_ends: clone_strings(ignore_ends),
    };
    let mut result: Option<String> = None;
    let mut i: usize = 0;
    proof {
        assert(tags@.subrange(0, 0) =~= Seq::<EventTag>::empty());
    }
    while i < tags.len()
        invariant
            i <= tags.len(),
            filter.ignore_includes.deep_view() == includes,
            filter.ignore_ends.deep_view() == ends,
            forall|k: int| 0 <= k < i ==> !tag_rejects(#[trigger] tags@[k], includes, ends),
            match result {
                Some(p) => last_path_view(tags@.subrange(0, i as int)) == Some(p@),
                None => last_path_view(tags@.subrange(0, i as int)) is None,
            },
        decreases tags.len() - i,
    {
        let ghost prefix = tags@.subrange(0, i as int);
        let ghost next = tags@.subrange(0, i + 1);
        proof {
            assert(next.drop_last() =~= prefix);
            assert(next.last() == tags@[i as int]);
        }
        match &tags[i] {
            EventTag::PathTag { path, is_dir } => {
                if *is_dir {
                    return None;
                }
                if filter.matches_path(path.as_str()) {
                    return None;
                }
                result = Some(path.clone());
            },
            EventTag::FileEventTag { kind } => {
                match kind {
                    EventFileKind::AccessKind => {
                        return None;
                    },
                    EventFileKind::ModifyMetadata => {
                        return None;
                    },
                    EventFileKind::RemoveKind => {
                        return None;
                    },
                    EventFileKind::OtherKind => {
                        return None;
                    },
                    _ => {},
                }
            },
            EventTag::KeyboardTag => {
                return None;
            },
            EventTag::SignalTag => {
                return None;
            },
            _ => {},
        }
        i = i + 1;
    }
    proof {
        assert(tags@.subrange(0, tags@.len() as int) =~= tags@);
    }
    result
}

/// Clones a list of strings.
fn clone_strings(v: &Vec<String>) -> (r: Vec<String>)
    ensures
        r.deep_view() == v.deep_view(),
{
    let mut r: Vec<String> = Vec::new();
    let mut i: usize = 0;
    proof {
        assert(r.deep_view() =~= v.deep_view().subrange(0, 0));
    }
    while i < v.len()
        invariant
            i <= v.len(),
            r.deep_view() == v.deep_view().subrange(0, i as int),
        decreases v.len() - i,
    {
        let ghost before = r.deep_view();
        r.push(v[i].clone());
        proof {
            assert(r.deep_view() =~= before.push(v.deep_view()[i as int]));
            assert(before.push(v.deep_view()[i as int]) =~= v.deep_view().subrange(0, i + 1));
        }
        i = i + 1;
    }
    proof {
        assert(v.deep_view().subrange(0, v.deep_view().len() as int) =~= v.deep_view());
    }
    r
}

/// One entry met during the initial recursive scan of the watch-root.
#[derive(Debug)]
pub struct ScanEntry {
    pub path: String,
    pub is_file: bool,
}

/// The initial scan keeps an entry when it is a regular file that the
/// ignore filter does not drop.
pub open spec fn scan_pred(f: FilterSpec) -> spec_fn(ScanEntry) -> bool {
    |e: ScanEntry| e.is_file && !f.matches(e.path@)
}

/// Projection of a scan entry to its path.
pub open spec fn scan_proj() -> spec_fn(ScanEntry) -> Seq<char> {
    |e: ScanEntry| e.path@
}

/// Keeps, in order, the path of every scanned entry that is a regular file
/// and passes the ignore filter: the seed batch for an initial upload.
pub fn collect_initial_files(entries: &Vec<ScanEntry>, f: &FilterSpec) -> (r: Vec<String>)
    ensures
        r.deep_view() == entries@.filter(scan_pred(*f)).map_values(scan_proj()),
{
    let mut r: Vec<String> = Vec::new();
    let mut i: usize = 0;
    proof {
        reveal(Seq::filter);
        assert(entries@.subrange(0, 0) =~= Seq::<ScanEntry>::empty());
        assert(r.deep_view() =~= entries@.subrange(0, 0).filter(scan_pred(*f)).map_values(
            scan_proj(),
        ));
    }
    while i < entries.len()
        invariant
            i <= entries.len(),
            r.deep_view() == entries@.subrange(0, i as int).filter(scan_pred(*f)).map_values(
                scan_proj(),
            ),
        decreases entries.len() - i,
    {
        let ghost prefix = entries@.subrange(0, i as int);
        let ghost next = entries@.subrange(0, i + 1);
        proof {
            reveal(Seq::filter);
            assert(next.drop_last() =~= prefix);
            assert(next.last() == entries@[i as int]);
        }
        let keep = entries[i].is_file && !f.matches_path(entries[i].path.as_str());
        proof {
            assert(scan_pred(*f)(entries@[i as int]) == keep);
        }
        if keep {
            let ghost before = r.deep_view();
            r.push(entries[i].path.clone());
            proof {
                assert(r.deep_view() =~= before.push(entries@[i as int].path@));
                assert(scan_proj()(entries@[i as int]) == entries@[i as int].path@);
                assert(next.filter(scan_pred(*f)) =~= prefix.filter(scan_pred(*f)).push(
                    entries@[i as int],
                ));
                assert(next.filter(scan_pred(*f)).map_values(scan_proj()) =~= prefix.filter(
                    scan_pred(*f),
                ).map_values(scan_proj()).push(entries@[i as int].path@));
            }
        } else {
            proof {
                assert(next.filter(scan_pred(*f)) =~= prefix.filter(scan_pred(*f)));
            }
        }
        i = i + 1;
    }
    proof {
        assert(entries@.subrange(0, entries@.len() as int) =~= entries@);
    }
    r
}

/// The mathematical value a path string parses to.
pub open spec fn parsed_view(s: Seq<char>) -> crate::pathmodel::SyncPathV {
    crate::pathmodel::SyncPathV {
        abs: crate::pathmodel::str_is_absolute(s),
        segs: crate::pathmodel::path_segments(s),
    }
}

/// The parsed values of a list of path strings.
pub open spec fn parsed_views(paths: Seq<Seq<char>>) -> Seq<crate::pathmodel::SyncPathV> {
    paths.map_values(|s: Seq<char>| parsed_view(s))
}

/// The mathematical values of a list of paths.
pub open spec fn path_views(s: Seq<SyncPath>) -> Seq<crate::pathmodel::SyncPathV> {
    s.map_values(|p: SyncPath| p@)
}

/// The change batch built from accepted event paths: each parsed, relative
/// ones dropped, duplicates dropped keeping the first occurrence.
pub open spec fn batch_of(paths: Seq<Seq<char>>) -> Seq<crate::pathmodel::SyncPathV>
    decreases paths.len(),
{
    if paths.len() == 0 {
        Seq::empty()
    } else {
        let rest = batch_of(paths.drop_last());
        let pv = parsed_view(paths.last());
        if pv.abs && !rest.contains(pv) {
            rest.push(pv)
        } else {
            rest
        }
    }
}

/// Whether a batch already holds this path value.
pub fn batch_contains(batch: &Vec<SyncPath>, p: &SyncPath) -> (r: bool)
    ensures
        r == path_views(batch@).contains(p@),
{
    let mut j: usize = 0;
    while j < batch.len()
        invariant
            j <= batch.len(),
            forall|k: int| 0 <= k < j ==> (#[trigger] batch@[k])@ != p@,
        decreases batch.len() - j,
    {
        if batch[j].eq_path(p) {
            proof {
                assert(path_views(batch@)[j as int] == p@);
            }
            return true;
        }
        j = j + 1;
    }
    proof {
        assert forall|k: int| 0 <= k < path_views(batch@).len() implies #[trigger] path_views(
            batch@,
        )[k] != p@ by {
            assert(path_views(batch@)[k] == batch@[k]@);
        }
    }
    false
}

/// Builds a change batch from accepted event paths: each path is parsed,
/// only absolute ones are kept, and duplicates are dropped keeping the
/// first occurrence.
pub fn build_change_batch(paths: &Vec<String>) -> (r: Vec<SyncPath>)
    ensures
        path_views(r@) == batch_of(paths.deep_view()),
        forall|j: int| 0 <= j < r@.len() ==> (#[trigger] r@[j]).wf(),
{
    let mut r: Vec<SyncPath> = Vec::new();
    let mut i: usize = 0;
    proof {
        assert(paths.deep_view().len() == paths@.len());
        assert(paths.deep_view().subrange(0, 0) =~= Seq::<Seq<char>>::empty());
        assert(path_views(r@) =~= batch_of(paths.deep_view().subrange(0, 0)));
    }
    while i < paths.len()
        invariant
            i <= paths.len(),
            paths.deep_view().len() == paths@.len(),
            path_views(r@) == batch_of(paths.deep_view().subrange(0, i as int)),
            forall|j: int| 0 <= j < r@.len() ==> (#[trigger] r@[j]).wf(),
        decreases paths.len() - i,
    {
        let ghost prefix = paths.deep_view().subrange(0, i as int);
        let ghost next = paths.deep_view().subrange(0, i + 1);
        proof {
            assert(next.drop_last() =~= prefix);
            assert(next.last() == paths.deep_view()[i as int]);
        }
        let p = SyncPath::parse(paths[i].as_str());
        proof {
            assert(paths@[i as int]@ == paths.deep_view()[i as int]);
            assert(p@ == parsed_view(paths.deep_view()[i as int]));
        }
        if p.abs {
            if !batch_contains(&r, &p) {
                let ghost before = path_views(r@);
                let ghost pv = p@;
                r.push(p);
                proof {
                    assert(path_views(r@) =~= before.push(pv));
                    assert(batch_of(next) == before.push(pv));
                }
            }
        }
        i = i + 1;
    }
    proof {
        assert(paths.deep_view().subrange(0, paths.deep_view().len() as int) =~= paths.deep_view());
    }
    r
}

/// Every path in a built batch is absolute.
pub proof fn lemma_batch_all_absolute(paths: Seq<Seq<char>>)
    ensures
        forall|j: int| 0 <= j < batch_of(paths).len() ==> (#[trigger] batch_of(paths)[j]).abs,
    decreases paths.len(),
{
    if paths.len() > 0 {
        lemma_batch_all_absolute(paths.drop_last());
        let rest = batch_of(paths.drop_last());
        let pv = parsed_view(paths.last());
        assert forall|j: int| 0 <= j < batch_of(paths).len() implies (#[trigger] batch_of(
            paths,
        )[j]).abs by {
            if j < rest.len() {
                assert(batch_of(paths)[j] == rest[j]);
            } else {
                assert(batch_of(paths)[j] == pv);
            }
        }
    }
}

/// A built batch holds no duplicate paths.
pub proof fn lemma_batch_no_duplicates(paths: Seq<Seq<char>>)
    ensures
        forall|j1: int, j2: int|
            0 <= j1 < j2 < batch_of(paths).len() ==> #[trigger] batch_of(paths)[j1]
                != #[trigger] batch_of(paths)[j2],
    decreases paths.len(),
{
    if paths.len() > 0 {
        lemma_batch_no_duplicates(paths.drop_last());
        let rest = batch_of(paths.drop_last());
        let pv = parsed_view(paths.last());
        if pv.abs && !rest.contains(pv) {
            assert(forall|j: int| 0 <= j < rest.len() ==> #[trigger] rest[j] != pv);
        }
    }
}

/// Every path in a built batch comes from parsing one of the inputs, and
/// every absolute input path is in the batch: nothing is missed and nothing
/// is invented.
pub proof fn lemma_batch_sound_complete(paths: Seq<Seq<char>>)
    ensures
        forall|j: int|
            0 <= j < batch_of(paths).len() ==> parsed_views(paths).contains(
                #[trigger] batch_of(paths)[j],
            ),
        forall|k: int|
            0 <= k < paths.len() && (#[trigger] parsed_view(paths[k])).abs ==> batch_of(
                paths,
            ).contains(parsed_view(paths[k])),
    decreases paths.len(),
{
    if paths.len() > 0 {
        lemma_batch_sound_complete(paths.drop_last());
        let rest = batch_of(paths.drop_last());
        let pv = parsed_view(paths.last());
        assert forall|j: int| 0 <= j < batch_of(paths).len() implies parsed_views(paths).contains(
            #[trigger] batch_of(paths)[j],
        ) by {
            if j < rest.len() {
                let v = rest[j];
                let k = choose|k: int|
                    0 <= k < parsed_views(paths.drop_last()).len() && parsed_views(
                        paths.drop_last(),
                    )[k] == v;
                assert(parsed_views(paths)[k] == v);
            } else {
                assert(batch_of(paths)[j] == pv);
                assert(parsed_views(paths)[paths.len() - 1] == pv);
            }
        }
        assert forall|k: int|
            0 <= k < paths.len() && (#[trigger] parsed_view(paths[k])).abs implies batch_of(
            paths,
        ).contains(parsed_view(paths[k])) by {
            let v = parsed_view(paths[k]);
            if k < paths.len() - 1 {
                assert(paths.drop_last()[k] == paths[k]);
                let j = choose|j: int| 0 <= j < rest.len() && rest[j] == v;
                assert(batch_of(paths)[j] == v);
            } else {
                if pv.abs && !rest.contains(pv) {
                    assert(batch_of(paths)[batch_of(paths).len() - 1] == pv);
                } else {
                    let j = choose|j: int| 0 <= j < rest.len() && rest[j] == v;
                    assert(batch_of(paths)[j] == v);
                }
            }
        }
    }
}

/// A path accepted into a batch never matches the ignore filter, and comes
/// from a path tag that did not name a directory.
pub proof fn lemma_filter_soundness(
    tags: Seq<EventTag>,
    includes: Seq<Seq<char>>,
    ends: Seq<Seq<char>>,
)
    ensures
        match event_result(tags, includes, ends) {
            Some(p) => !matches_ignore(includes, ends, p) && exists|i: int|
                0 <= i < tags.len() && ((#[trigger] tags[i]) matches EventTag::PathTag {
                    path,
                    is_dir,
                } && path@ == p && !is_dir),
            None => true,
        },
{
    if event_result(tags, includes, ends) is Some {
        let p = event_result(tags, includes, ends)->0;
        lemma_last_path_tag(tags);
        let i = choose|i: int|
            0 <= i < tags.len() && ((#[trigger] tags[i]) matches EventTag::PathTag { path, is_dir }
                && path@ == p);
        assert(!tag_rejects(tags[i], includes, ends));
    }
}

/// When an event yields a path, some path tag carries exactly that path.
proof fn lemma_last_path_tag(tags: Seq<EventTag>)
    ensures
        match last_path_view(tags) {
            Some(p) => exists|i: int|
                0 <= i < tags.len() && ((#[trigger] tags[i]) matches EventTag::PathTag {
                    path,
                    is_dir,
                } && path@ == p),
            None => true,
        },
    decreases tags.len(),
{
    if tags.len() > 0 {
        match tags.last() {
            EventTag::PathTag { path, is_dir } => {
                assert(tags[tags.len() - 1] matches EventTag::PathTag { path: q, is_dir: d } && q@
                    == path@);
            },
            _ => {
                lemma_last_path_tag(tags.drop_last());
                if last_path_view(tags) is Some {
                    let p = last_path_view(tags)->0;
                    let i = choose|i: int|
                        0 <= i < tags.drop_last().len() && ((#[trigger] tags.drop_last()[i]) matches
                            EventTag::PathTag { path, is_dir } && path@ == p);
                    assert(tags[i] matches EventTag::PathTag { path, is_dir } && path@ == p);
                }
            },
        }
    }
}

} // verus!
