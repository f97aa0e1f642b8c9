//! The upload dispatcher's batch logic: computing the set of remote parent
//! directories a batch needs, pre-creating them on one session, and
//! uploading one chunk of files on one session.  The thread plumbing that
//! runs these on a pool of sessions lives outside the library.

#![verifier::loop_isolation(false)]
use vstd::prelude::*;
use crate::filter::{batch_contains, path_views};
use crate::pathmodel::{is_path_prefix, parent_view, SyncPath, SyncPathV};
use crate::sftp_client::{
    opt_path_view, ops_prefix, RemoteOpV, SftpClient,
};

verus! {

/// How the actor authenticates its pool of sessions: a password, or a
/// public-key/private-key file pair with an optional passphrase.
#[derive(Debug, Clone)]
pub enum AuthMethod {
    Password(String),
    Pubkey(String, String, Option<String>),
}

/// One local file handed to the uploader: its absolute path and the bytes
/// read from it.
#[derive(Debug)]
pub struct LocalFile {
    pub path: SyncPath,
    pub content: Vec<u8>,
}

/// A message for the upload actor: a batch of files to upload, with an
/// optional remote target directory and an optional local base directory.
#[derive(Debug)]
pub enum UploadActorMessage {
    UploadFiles {
        files: Vec<SyncPath>,
        remote_dir: Option<SyncPath>,
        local_base_dir: Option<SyncPath>,
    },
}

#[verifier::external_type_specification]
#[verifier::external_body]
#[verifier::reject_recursive_types(T)]
pub struct ExSender<T>(std::sync::mpsc::Sender<T>);

/// Relies on std::sync::mpsc::Sender::clone: another sending half of the
/// same channel.
pub assume_specification<T>[ <std::sync::mpsc::Sender<T> as std::clone::Clone>::clone ](
    tx: &std::sync::mpsc::Sender<T>,
) -> std::sync::mpsc::Sender<T>;

/// Relies on std::sync::mpsc::Sender::send: queues the message for the
/// receiver; when the receiving side is gone the message comes back unsent.
#[verifier::external_body]
fn send_message(
    tx: &std::sync::mpsc::Sender<UploadActorMessage>,
    msg: UploadActorMessage,
) -> (r: Result<(), UploadActorMessage>)
    ensures
        r matches Err(m) ==> m == msg,
{
    tx.send(msg).map_err(|e| e.0)
}

/// A cloneable handle on the upload actor's inbound channel.
#[derive(Clone)]
pub struct UploadActorHandle {
    tx: std::sync::mpsc::Sender<UploadActorMessage>,
}

impl UploadActorHandle {
    /// Wraps the sending half of the actor's channel.
    pub fn from_sender(tx: std::sync::mpsc::Sender<UploadActorMessage>) -> Self {
        UploadActorHandle { tx }
    }

    /// Asks the actor to upload a batch; when the actor is gone the
    /// undelivered message is handed back.
    pub fn upload_files(
        &mut self,
        files: Vec<SyncPath>,
        remote_dir: Option<SyncPath>,
        local_base_dir: Option<SyncPath>,
    ) -> (r: Result<(), UploadActorMessage>)
        ensures
            r matches Err(m) ==> m == (UploadActorMessage::UploadFiles {
                files,
                remote_dir,
                local_base_dir,
            }),
    {
        let msg = UploadActorMessage::UploadFiles { files, remote_dir, local_base_dir };
        send_message(&self.tx, msg)
    }
}

/// The remote directory a translated file lands in: its parent, or the
/// virtual remote cwd (as the empty relative path) when there is none.
pub open spec fn dir_of(t: SyncPathV) -> SyncPathV {
    if t.segs.len() > 0 {
        parent_view(t)
    } else {
        SyncPathV { abs: false, segs: Seq::empty() }
    }
}

/// The deduplicated list of remote directories a batch needs: for each
/// file that translates, the directory its remote path lands in, first
/// occurrences kept in order.
pub open spec fn remote_dir_views(
    c: SftpClient,
    files: Seq<SyncPathV>,
    lbase: Option<SyncPathV>,
    rbase: Option<SyncPathV>,
) -> Seq<SyncPathV>
    decreases files.len(),
{
    if files.len() == 0 {
        Seq::empty()
    } else {
        let rest = remote_dir_views(c, files.drop_last(), lbase, rbase);
        match c.translate_view(files.last(), lbase, rbase) {
            Some(t) => if rest.contains(dir_of(t)) {
                rest
            } else {
                rest.push(dir_of(t))
            },
            None => rest,
        }
    }
}

/// The directory set a batch needs is exactly the parents of the
/// translated files: nothing more, nothing less.
pub proof fn lemma_remote_dirs_exact(
    c: SftpClient,
    files: Seq<SyncPathV>,
    lbase: Option<SyncPathV>,
    rbase: Option<SyncPathV>,
)
    ensures
        forall|d: SyncPathV|
            remote_dir_views(c, files, lbase, rbase).contains(d) <==> exists|i: int|
                0 <= i < files.len() && ((#[trigger] c.translate_view(files[i], lbase, rbase))
                    matches Some(t) && d == dir_of(t)),
    decreases files.len(),
{
    if files.len() > 0 {
        lemma_remote_dirs_exact(c, files.drop_last(), lbase, rbase);
        let rest = remote_dir_views(c, files.drop_last(), lbase, rbase);
        let all = remote_dir_views(c, files, lbase, rbase);
        assert forall|d: SyncPathV| all.contains(d) implies exists|i: int|
            0 <= i < files.len() && ((#[trigger] c.translate_view(files[i], lbase, rbase)) matches
                Some(t) && d == dir_of(t)) by {
            if rest.contains(d) {
                let i = choose|i: int|
                    0 <= i < files.drop_last().len() && ((#[trigger] c.translate_view(
                        files.drop_last()[i],
                        lbase,
                        rbase,
                    )) matches Some(t) && d == dir_of(t));
                assert(files[i] == files.drop_last()[i]);
            } else {
                let j = choose|j: int| 0 <= j < all.len() && all[j] == d;
                assert((c.translate_view(files.last(), lbase, rbase) matches Some(t) && d
                    == dir_of(t)));
                assert((c.translate_view(files[files.len() - 1], lbase, rbase) matches Some(t) && d
                    == dir_of(t)));
            }
        }
        assert forall|d: SyncPathV|
            (exists|i: int|
                0 <= i < files.len() && ((#[trigger] c.translate_view(files[i], lbase, rbase))
                    matches Some(t) && d == dir_of(t))) implies all.contains(d) by {
            let i = choose|i: int|
                0 <= i < files.len() && ((#[trigger] c.translate_view(files[i], lbase, rbase))
                    matches Some(t) && d == dir_of(t));
            if i < files.len() - 1 {
                assert(files.drop_last()[i] == files[i]);
                assert(rest.contains(d));
                if c.translate_view(files.last(), lbase, rbase) is Some && !rest.contains(
                    dir_of(c.translate_view(files.last(), lbase, rbase)->0),
                ) {
                    let j = choose|j: int| 0 <= j < rest.len() && rest[j] == d;
                    assert(all[j] == d);
                } else {
                    assert(all == rest);
                }
            } else {
                let t = c.translate_view(files.last(), lbase, rbase)->0;
                if rest.contains(dir_of(t)) {
                    assert(all == rest);
                } else {
                    assert(all[all.len() - 1] == dir_of(t));
                }
            }
        }
    }
}

/// Computes the deduplicated set of remote directories the files of a
/// batch land in, translating each file on the given session.
pub fn compute_remote_dirs(
    client: &SftpClient,
    files: &Vec<SyncPath>,
    local_base_dir: Option<&SyncPath>,
    target_dir: Option<&SyncPath>,
) -> (r: Vec<SyncPath>)
    requires
        client.wf(),
        client.cwd_view() is Some,
        local_base_dir is Some || client.local_cwd_view() is Some,
        forall|i: int| 0 <= i < files@.len() ==> (#[trigger] files@[i]).wf(),
        match target_dir {
            Some(t) => t.wf(),
            None => true,
        },
    ensures
        path_views(r@) == remote_dir_views(
            *client,
            path_views(files@),
            opt_path_view(local_base_dir),
            opt_path_view(target_dir),
        ),
        forall|j: int| 0 <= j < r@.len() ==> (#[trigger] r@[j]).wf(),
{
    let ghost lb = opt_path_view(local_base_dir);
    let ghost rb = opt_path_view(target_dir);
    let mut out: Vec<SyncPath> = Vec::new();
    let mut i: usize = 0;
    proof {
        assert(path_views(files@).subrange(0, 0) =~= Seq::<SyncPathV>::empty());
        assert(path_views(out@) =~= remote_dir_views(
            *client,
            path_views(files@).subrange(0, 0),
            lb,
            rb,
        ));
    }
    while i < files.len()
        invariant
            i <= files.len(),
            path_views(out@) == remote_dir_views(
                *client,
                path_views(files@).subrange(0, i as int),
                lb,
                rb,
            ),
            forall|j: int| 0 <= j < out@.len() ==> (#[trigger] out@[j]).wf(),
        decreases files.len() - i,
    {
        let ghost prefix = path_views(files@).subrange(0, i as int);
        let ghost next = path_views(files@).subrange(0, i + 1);
        proof {
            assert(next.drop_last() =~= prefix);
            assert(next.last() == files@[i as int]@);
        }
        match client.local_to_remote_path(&files[i], local_base_dir, target_dir) {
            Ok(remote_path) => {
                let dir = match remote_path.parent() {
                    Some(p) => p,
                    None => SyncPath::empty(),
                };
                proof {
                    assert(dir@ == dir_of(remote_path@));
                }
                if !batch_contains(&out, &dir) {
                    let ghost before = path_views(out@);
                    out.push(dir);
                    proof {
                        assert(path_views(out@) =~= before.push(
                            dir_of(
                                client.translate_view(files@[i as int]@, lb, rb)->0,
                            ),
                        ));
                    }
                }
            },
            Err(_) => (),
        }
        i = i + 1;
    }
    proof {
        assert(path_views(files@).subrange(0, path_views(files@).len() as int) =~= path_views(
            files@,
        ));
        assert(path_views(files@).len() == files@.len());
    }
    out
}

/// The request `op` is the whole-file write that uploading `f`, translated
/// on client `c` against the given bases, asks for.
pub open spec fn written_op_for(
    op: RemoteOpV,
    c: SftpClient,
    f: LocalFile,
    lbase: Option<SyncPathV>,
    rbase: Option<SyncPathV>,
) -> bool {
    c.translate_view(f.path@, lbase, rbase) matches Some(t) && op == RemoteOpV::FileWritten(
        t,
        f.content@,
    )
}

/// Pre-creates the remote directories of a batch on one session, through
/// the session's cache, one flag per directory; entries that fail are
/// skipped.  A set flag means the directory is cached as existing when the
/// call returns; every request the log gained is a `mkdir` of a prefix of
/// one of the given directories; and when every directory was already
/// cached the session is left untouched and every flag is set: the second
/// batch of a directory costs no protocol traffic at all.
#[verifier::rlimit(100)]
pub fn precreate_remote_dirs(client: &mut SftpClient, dirs: &Vec<SyncPath>) -> (ok_flags: Vec<
    bool,
>)
    requires
        old(client).wf(),
        old(client).cwd_view() is Some,
        forall|i: int| 0 <= i < dirs@.len() ==> (#[trigger] dirs@[i]).wf(),
    ensures
        ok_flags@.len() == dirs@.len(),
        forall|i: int|
            0 <= i < dirs@.len() && ok_flags@[i] ==> final(client).cached((#[trigger] dirs@[i])@),
        ops_prefix(old(client).ops(), final(client).ops()),
        forall|k: int|
            old(client).ops().len() <= k < final(client).ops().len() ==> exists|i: int|
                0 <= i < dirs@.len() && ((#[trigger] final(client).ops()[k]) matches
                RemoteOpV::Mkdir(d) && is_path_prefix(
                    d,
                    old(client).canon_view((#[trigger] dirs@[i])@),
                )),
        (forall|i: int| 0 <= i < dirs@.len() ==> old(client).cached(#[trigger] dirs@[i]@))
            ==> *final(client) == *old(client) && (forall|i: int|
            0 <= i < ok_flags@.len() ==> ok_flags@[i]),
        forall|p: SyncPathV| old(client).cached(p) ==> final(client).cached(p),
        final(client).cwd_view() == old(client).cwd_view(),
        final(client).local_cwd_view() == old(client).local_cwd_view(),
        final(client).has_sftp() == old(client).has_sftp(),
        final(client).has_session() == old(client).has_session(),
        final(client).closed_view() == old(client).closed_view(),
        final(client).same_identity(old(client)),
        final(client).wf(),
{
    let ghost base: int = old(client).ops().len() as int;
    let mut ok_flags: Vec<bool> = Vec::new();
    let ghost mut wd: Seq<int> = Seq::empty();
    let mut i: usize = 0;
    proof {
        assert(client.ops().subrange(0, client.ops().len() as int) =~= client.ops());
    }
    while i < dirs.len()
        invariant
            i <= dirs.len(),
            ok_flags@.len() == i,
            ops_prefix(old(client).ops(), client.ops()),
            wd.len() + base == client.ops().len(),
            base == old(client).ops().len(),
            forall|k: int|
                base <= k < client.ops().len() ==> 0 <= #[trigger] wd[k - base] < i && (
                client.ops()[k] matches RemoteOpV::Mkdir(d) && is_path_prefix(
                    d,
                    old(client).canon_view(dirs@[wd[k - base]]@),
                )),
            forall|j: int| 0 <= j < i && ok_flags@[j] ==> client.cached((#[trigger] dirs@[j])@),
            (forall|j: int| 0 <= j < dirs@.len() ==> old(client).cached(#[trigger] dirs@[j]@))
                ==> *client == *old(client) && (forall|j: int| 0 <= j < i ==> ok_flags@[j]),
            forall|p: SyncPathV| old(client).cached(p) ==> client.cached(p),
            client.cwd_view() == old(client).cwd_view(),
            client.local_cwd_view() == old(client).local_cwd_view(),
            client.has_sftp() == old(client).has_sftp(),
            client.has_session() == old(client).has_session(),
            client.closed_view() == old(client).closed_view(),
            client.same_identity(old(client)),
            client.wf(),
        decreases dirs.len() - i,
    {
        let ghost mid = *client;
        let ghost wd0 = wd;
        let result = client.ensure_dir_remote_cached(&dirs[i]);
        proof {
            crate::sftp_client::lemma_ops_prefix_trans(old(client).ops(), mid.ops(), client.ops());
            wd = wd + Seq::new((client.ops().len() - mid.ops().len()) as nat, |_x: int| i as int);
            assert forall|k: int|
                base <= k < client.ops().len() implies 0 <= #[trigger] wd[k - base] < i + 1 && (
            client.ops()[k] matches RemoteOpV::Mkdir(d) && is_path_prefix(
                d,
                old(client).canon_view(dirs@[wd[k - base]]@),
            )) by {
                if k < mid.ops().len() {
                    assert(client.ops()[k] == mid.ops()[k]);
                    assert(wd[k - base] == wd0[k - base]);
                } else {
                    assert(wd[k - base] == i as int);
                    assert(mid.canon_view(dirs@[i as int]@) == old(client).canon_view(
                        dirs@[i as int]@,
                    ));
                }
            }
            if forall|j: int| 0 <= j < dirs@.len() ==> old(client).cached(#[trigger] dirs@[j]@) {
                assert(mid == *old(client));
                assert(mid.cached(dirs@[i as int]@));
            }
            assert forall|j: int| 0 <= j < i && ok_flags@[j] implies client.cached(
                (#[trigger] dirs@[j])@,
            ) by {
                assert(mid.cached(dirs@[j]@));
            }
        }
        match result {
            Ok(_) => ok_flags.push(true),
            Err(_) => ok_flags.push(false),
        }
        i = i + 1;
    }
    proof {
        assert forall|k: int|
            old(client).ops().len() <= k < final(client).ops().len() implies exists|i: int|
            0 <= i < dirs@.len() && ((#[trigger] final(client).ops()[k]) matches RemoteOpV::Mkdir(
                d,
            ) && is_path_prefix(d, old(client).canon_view((#[trigger] dirs@[i])@))) by {
            let i = wd[k - base];
            assert(0 <= i < dirs@.len() && (client.ops()[k] matches RemoteOpV::Mkdir(d)
                && is_path_prefix(d, old(client).canon_view((dirs@[i])@))));
        }
    }
    ok_flags
}

/// Uploads one chunk of files on one session, in order, translating each
/// against the optional bases; per-file failures are recorded and do not
/// stop the chunk.  The result has one flag per file; a set flag means the
/// request log holds a whole-file write of that file's bytes to its
/// translated remote path, and everything else the log gained is a
/// directory creation.
#[verifier::rlimit(100)]
pub fn upload_chunk(
    client: &mut SftpClient,
    chunk: &Vec<LocalFile>,
    target_dir: Option<&SyncPath>,
    local_base_dir: Option<&SyncPath>,
) -> (ok_flags: Vec<bool>)
    requires
        old(client).wf(),
        old(client).cwd_view() is Some,
        local_base_dir is Some || old(client).local_cwd_view() is Some,
        forall|i: int| 0 <= i < chunk@.len() ==> (#[trigger] chunk@[i]).path.wf(),
        match target_dir {
            Some(t) => t.wf(),
            None => true,
        },
    ensures
        ok_flags@.len() == chunk@.len(),
        ops_prefix(old(client).ops(), final(client).ops()),
        forall|k: int|
            old(client).ops().len() <= k < final(client).ops().len() ==> ((
            #[trigger] final(client).ops()[k]) matches RemoteOpV::Mkdir(_) || exists|j: int|
                0 <= j < chunk@.len() && ((#[trigger] old(client).translate_view(
                    chunk@[j].path@,
                    opt_path_view(local_base_dir),
                    opt_path_view(target_dir),
                )) matches Some(t) && final(client).ops()[k] == RemoteOpV::FileWritten(
                    t,
                    chunk@[j].content@,
                ))),
        forall|j: int|
            0 <= j < chunk@.len() && ok_flags@[j] ==> ((#[trigger] old(client).translate_view(
                chunk@[j].path@,
                opt_path_view(local_base_dir),
                opt_path_view(target_dir),
            )) matches Some(t) && final(client).ops().contains(
                RemoteOpV::FileWritten(t, chunk@[j].content@),
            )),
        forall|j1: int, j2: int|
            #![trigger ok_flags@[j1], ok_flags@[j2]]
            0 <= j1 < j2 < chunk@.len() && ok_flags@[j1] && ok_flags@[j2] ==> exists|
                k1: int,
                k2: int,
            |
                old(client).ops().len() <= k1 < k2 < final(client).ops().len() && written_op_for(
                    #[trigger] final(client).ops()[k1],
                    *old(client),
                    chunk@[j1],
                    opt_path_view(local_base_dir),
                    opt_path_view(target_dir),
                ) && written_op_for(
                    #[trigger] final(client).ops()[k2],
                    *old(client),
                    chunk@[j2],
                    opt_path_view(local_base_dir),
                    opt_path_view(target_dir),
                ),
        forall|p: SyncPathV| old(client).cached(p) ==> final(client).cached(p),
        final(client).cwd_view() == old(client).cwd_view(),
        final(client).local_cwd_view() == old(client).local_cwd_view(),
        final(client).has_sftp() == old(client).has_sftp(),
        final(client).same_identity(old(client)),
        final(client).wf(),
{
    let ghost lb = opt_path_view(local_base_dir);
    let ghost rb = opt_path_view(target_dir);
    let mut ok_flags: Vec<bool> = Vec::new();
    let ghost mut wit: Seq<int> = Seq::empty();
    let mut i: usize = 0;
    proof {
        assert(client.ops().subrange(0, client.ops().len() as int) =~= client.ops());
    }
    while i < chunk.len()
        invariant
            i <= chunk.len(),
            ok_flags@.len() == i,
            wit.len() == i,
            ops_prefix(old(client).ops(), client.ops()),
            forall|k: int|
                old(client).ops().len() <= k < client.ops().len() ==> ((
                #[trigger] client.ops()[k]) matches RemoteOpV::Mkdir(_) || exists|j: int|
                    0 <= j < i && ((#[trigger] old(client).translate_view(
                        chunk@[j].path@,
                        lb,
                        rb,
                    )) matches Some(t) && client.ops()[k] == RemoteOpV::FileWritten(
                        t,
                        chunk@[j].content@,
                    ))),
            forall|j: int|
                0 <= j < i && ok_flags@[j] ==> ((#[trigger] old(client).translate_view(
                    chunk@[j].path@,
                    lb,
                    rb,
                )) matches Some(t) && old(client).ops().len() <= wit[j] < client.ops().len()
                    && client.ops()[wit[j]] == RemoteOpV::FileWritten(t, chunk@[j].content@)),
            forall|j1: int, j2: int|
                #![trigger ok_flags@[j1], ok_flags@[j2]]
                0 <= j1 < j2 < i && ok_flags@[j1] && ok_flags@[j2] ==> wit[j1] < wit[j2],
            forall|p: SyncPathV| old(client).cached(p) ==> client.cached(p),
            client.cwd_view() == old(client).cwd_view(),
            client.local_cwd_view() == old(client).local_cwd_view(),
            client.has_sftp() == old(client).has_sftp(),
            client.same_identity(old(client)),
            client.wf(),
        decreases chunk.len() - i,
    {
        let ghost mid = *client;
        let file = &chunk[i];
        let result = match target_dir {
            None => client.sync_file_to_cwd(
                file.content.as_slice(),
                &file.path,
                local_base_dir,
                true,
            ),
            Some(target) => client.sync_file_to_dir(
                file.content.as_slice(),
                &file.path,
                target,
                local_base_dir,
                true,
            ),
        };
        proof {
            assert(mid.translate_view(chunk@[i as int].path@, lb, rb) == old(
                client,
            ).translate_view(chunk@[i as int].path@, lb, rb));
            if client.ops() == mid.ops() {
                assert(client.ops().subrange(0, mid.ops().len() as int) =~= mid.ops());
            }
            crate::sftp_client::lemma_ops_prefix_trans(old(client).ops(), mid.ops(), client.ops());
        }
        match result {
            Ok(_) => {
                ok_flags.push(true);
                proof {
                    wit = wit.push(client.ops().len() - 1);
                    let t = old(client).translate_view(chunk@[i as int].path@, lb, rb)->0;
                    assert(client.ops().last() == RemoteOpV::FileWritten(
                        t,
                        chunk@[i as int].content@,
                    ));
                }
            },
            Err(_) => {
                ok_flags.push(false);
                proof {
                    wit = wit.push(0);
                }
            },
        }
        proof {
            assert forall|k: int|
                old(client).ops().len() <= k < client.ops().len() implies ((
            #[trigger] client.ops()[k]) matches RemoteOpV::Mkdir(_) || exists|j: int|
                0 <= j < i + 1 && ((#[trigger] old(client).translate_view(
                    chunk@[j].path@,
                    lb,
                    rb,
                )) matches Some(t) && client.ops()[k] == RemoteOpV::FileWritten(
                    t,
                    chunk@[j].content@,
                ))) by {
                if k < mid.ops().len() {
                    assert(client.ops()[k] == mid.ops()[k]);
                } else {
                    if !(client.ops()[k] matches RemoteOpV::Mkdir(_)) {
                        let j = i as int;
                        assert(old(client).translate_view(chunk@[j].path@, lb, rb) matches Some(t)
                            && client.ops()[k] == RemoteOpV::FileWritten(t, chunk@[j].content@));
                    }
                }
            }
            assert forall|j1: int, j2: int|
                #![trigger ok_flags@[j1], ok_flags@[j2]]
                0 <= j1 < j2 < i + 1 && ok_flags@[j1] && ok_flags@[j2] implies wit[j1]
                < wit[j2] by {
                if j2 == i as int {
                    let t1 = old(client).translate_view(chunk@[j1].path@, lb, rb);
                    assert(wit[j1] < mid.ops().len());
                    assert(wit[j2] == client.ops().len() - 1);
                    assert(mid.ops().len() < client.ops().len());
                } else {
                    let t1 = old(client).translate_view(chunk@[j1].path@, lb, rb);
                    let t2 = old(client).translate_view(chunk@[j2].path@, lb, rb);
                }
            }
            assert forall|j: int|
                0 <= j < i + 1 && ok_flags@[j] implies ((#[trigger] old(client).translate_view(
                chunk@[j].path@,
                lb,
                rb,
            )) matches Some(t) && 0 <= wit[j] < client.ops().len() && client.ops()[wit[j]]
                == RemoteOpV::FileWritten(t, chunk@[j].content@)) by {
                if j < i {
                    assert(client.ops()[wit[j]] == mid.ops()[wit[j]]);
                }
            }
        }
        i = i + 1;
    }
    proof {
        assert forall|j: int|
            0 <= j < chunk@.len() && ok_flags@[j] implies ((#[trigger] old(client).translate_view(
            chunk@[j].path@,
            lb,
            rb,
        )) matches Some(t) && final(client).ops().contains(
            RemoteOpV::FileWritten(t, chunk@[j].content@),
        )) by {
            let t = old(client).translate_view(chunk@[j].path@, lb, rb)->0;
            assert(client.ops()[wit[j]] == RemoteOpV::FileWritten(t, chunk@[j].content@));
        }
        assert forall|j1: int, j2: int|
            #![trigger ok_flags@[j1], ok_flags@[j2]]
            0 <= j1 < j2 < chunk@.len() && ok_flags@[j1] && ok_flags@[j2] implies exists|
            k1: int,
            k2: int,
        |
            old(client).ops().len() <= k1 < k2 < final(client).ops().len() && written_op_for(
                #[trigger] final(client).ops()[k1],
                *old(client),
                chunk@[j1],
                lb,
                rb,
            ) && written_op_for(
                #[trigger] final(client).ops()[k2],
                *old(client),
                chunk@[j2],
                lb,
                rb,
            ) by {
            let t1 = old(client).translate_view(chunk@[j1].path@, lb, rb);
            let t2 = old(client).translate_view(chunk@[j2].path@, lb, rb);
            assert(old(client).ops().len() <= wit[j1] < wit[j2] < client.ops().len());
            assert(written_op_for(client.ops()[wit[j1]], *old(client), chunk@[j1], lb, rb));
            assert(written_op_for(client.ops()[wit[j2]], *old(client), chunk@[j2], lb, rb));
        }
    }
    ok_flags
}

} // verus!
