//! One authenticated SFTP session: a virtual remote working directory on a
//! protocol that has none, a growing cache of remote directories known to
//! exist, path translation between the local and remote namespaces, cached
//! recursive directory creation, and streamed file upload.
//!
//! All remote traffic goes through a small set of trusted wrappers around
//! the `ssh2` crate.  Nothing is assumed about what the remote host answers;
//! instead the client keeps a ghost log of the directory-creation,
//! completed whole-file-write and disconnect requests it issued, and its
//! contracts speak about that log.

#![verifier::loop_isolation(false)]
use vstd::prelude::*;
use std::io::Write;
use crate::pathmodel::{
    is_path_prefix, parent_view, path_push, strip_result, wf_path, SyncPath, SyncPathV,
};

verus! {

/// Permission bits for directories the client creates.
pub const REMOTE_DIR_MODE: i32 = 0o755;

/// Permission bits for files the client creates.
pub const REMOTE_FILE_MODE: i32 = 0o644;

/// Bytes moved per write request during a streamed upload.
pub const COPY_BUFFER_SIZE: usize = 131072;

/// One remote request the client sent: a directory creation, a completed
/// whole-file write to a path, or the farewell disconnect.  A failed open,
/// write or close is not recorded.
pub enum RemoteOpV {
    Mkdir(SyncPathV),
    FileWritten(SyncPathV, Seq<u8>),
    Disconnect,
}

/// The mathematical value of an optional borrowed path.
pub open spec fn opt_path_view(o: Option<&SyncPath>) -> Option<SyncPathV> {
    match o {
        Some(p) => Some(p@),
        None => None,
    }
}

/// `new` extends `old`: the old request log is a prefix of the new one.
pub open spec fn ops_prefix(old_ops: Seq<RemoteOpV>, new_ops: Seq<RemoteOpV>) -> bool {
    old_ops.len() <= new_ops.len() && new_ops.subrange(0, old_ops.len() as int) == old_ops
}

/// Log extension composes: what extends an extension extends the original.
pub proof fn lemma_ops_prefix_trans(a: Seq<RemoteOpV>, b: Seq<RemoteOpV>, c: Seq<RemoteOpV>)
    requires
        ops_prefix(a, b),
        ops_prefix(b, c),
    ensures
        ops_prefix(a, c),
        forall|k: int| 0 <= k < b.len() ==> #[trigger] c[k] == b[k],
{
    assert(forall|k: int| 0 <= k < b.len() ==> #[trigger] c[k] == c.subrange(0, b.len() as int)[k]);
    assert(forall|k: int| 0 <= k < a.len() ==> #[trigger] b[k] == b.subrange(0, a.len() as int)[k]);
    assert(c.subrange(0, a.len() as int) =~= a);
}

/// `new` extends `old` and every added request is a `mkdir` of a prefix of
/// `target`.
pub open spec fn new_ops_mkdir_under(
    old_ops: Seq<RemoteOpV>,
    new_ops: Seq<RemoteOpV>,
    target: SyncPathV,
) -> bool {
    ops_prefix(old_ops, new_ops) && forall|k: int|
        old_ops.len() <= k < new_ops.len() ==> (#[trigger] new_ops[k] matches RemoteOpV::Mkdir(d)
            && is_path_prefix(d, target))
}

/// `new` extends `old` with zero or more `mkdir` requests for prefixes of
/// `target`'s parent, followed by one request that wrote `content` to
/// `target`: the request trace of a successful upload.
pub open spec fn upload_ops(
    old_ops: Seq<RemoteOpV>,
    new_ops: Seq<RemoteOpV>,
    target: SyncPathV,
    content: Seq<u8>,
) -> bool {
    ops_prefix(old_ops, new_ops) && new_ops.len() > old_ops.len() && new_ops.last()
        == RemoteOpV::FileWritten(target, content) && forall|k: int|
        old_ops.len() <= k < new_ops.len() - 1 ==> (#[trigger] new_ops[k] matches RemoteOpV::Mkdir(
            d,
        ) && is_path_prefix(d, parent_view(target)))
}

/// Failures of the SFTP client, classified by the phase that failed.
#[derive(Debug)]
pub enum SftpClientError {
    MissingPassword,
    MissingPubkeyPath,
    MissingPrivatekeyPath,
    OpenLocalFileError { path: SyncPath, io_error: String },
    OpenRemoteFileError { path: SyncPath, ssh2_error: String },
    CloseRemoteFileError { path: SyncPath, ssh2_error: String },
    RemotePathError { msg: String, path: SyncPath },
    LocalPathError { msg: String, path: SyncPath },
    SftpConnectionMissing { msg: String },
    LocalToRemoteCopyError { local_path: SyncPath, remote_path: SyncPath, io_error: String },
    RemoteMkdirError { msg: String, path: SyncPath, inner_error: String },
}

/// How this client authenticates: a password, or a public/private key pair
/// with an optional passphrase.
#[derive(Debug)]
pub enum ClientAuth {
    PasswordBased { password: String },
    KeyBased { pubkey: String, privatekey: String, passphrase: Option<String> },
}

#[verifier::external_type_specification]
#[verifier::external_body]
pub struct ExSession(ssh2::Session);

#[verifier::external_type_specification]
#[verifier::external_body]
pub struct ExSftp(ssh2::Sftp);

#[verifier::external_type_specification]
#[verifier::external_body]
pub struct ExFile(ssh2::File);

/// Relies on ssh2::Sftp::realpath: asks the server to canonicalize a path;
/// what comes back depends on the remote host alone.
#[verifier::external_body]
fn sftp_realpath(sftp: &ssh2::Sftp, path: &str) -> Result<String, String> {
    match sftp.realpath(std::path::Path::new(path)) {
        Ok(p) => Ok(p.to_string_lossy().into_owned()),
        Err(e) => Err(e.to_string()),
    }
}

/// Relies on ssh2::Sftp::stat: fetches remote metadata, reduced to whether
/// the path is a regular file and whether it is a directory.
#[verifier::external_body]
fn sftp_stat_kind(sftp: &ssh2::Sftp, path: &str) -> Result<(bool, bool), String> {
    match sftp.stat(std::path::Path::new(path)) {
        Ok(st) => Ok((st.is_file(), st.is_dir())),
        Err(e) => Err(e.to_string()),
    }
}

/// Relies on ssh2::Sftp::mkdir: creates one remote directory with the given
/// permission bits.
#[verifier::external_body]
fn sftp_mkdir(sftp: &ssh2::Sftp, path: &str, mode: i32) -> Result<(), String> {
    sftp.mkdir(std::path::Path::new(path), mode).map_err(|e| e.to_string())
}

/// Relies on ssh2::Sftp::open_mode: opens a remote file for writing,
/// creating it and truncating any prior content.
#[verifier::external_body]
fn sftp_open_write(sftp: &ssh2::Sftp, path: &str, mode: i32) -> Result<ssh2::File, String> {
    sftp.open_mode(
        std::path::Path::new(path),
        ssh2::OpenFlags::CREATE | ssh2::OpenFlags::WRITE | ssh2::OpenFlags::TRUNCATE,
        mode,
        ssh2::OpenType::File,
    ).map_err(|e| e.to_string())
}

/// Relies on std::io::Write::write_all for ssh2::File: sends the whole
/// buffer to the remote file, or reports an error.
#[verifier::external_body]
fn file_write_all(file: &mut ssh2::File, buf: &[u8]) -> Result<(), String> {
    file.write_all(buf).map_err(|e| e.to_string())
}

/// Relies on ssh2::File::close: flushes and closes the remote file handle.
#[verifier::external_body]
fn file_close(file: &mut ssh2::File) -> Result<(), String> {
    file.close().map_err(|e| e.to_string())
}

/// Relies on ssh2::Sftp::unlink: removes one remote file.
#[verifier::external_body]
fn sftp_unlink(sftp: &ssh2::Sftp, path: &str) -> Result<(), String> {
    sftp.unlink(std::path::Path::new(path)).map_err(|e| e.to_string())
}

/// Relies on ssh2::Sftp::rmdir: removes one empty remote directory.
#[verifier::external_body]
fn sftp_rmdir(sftp: &ssh2::Sftp, path: &str) -> Result<(), String> {
    sftp.rmdir(std::path::Path::new(path)).map_err(|e| e.to_string())
}

/// Relies on ssh2::Sftp::readdir: lists a remote directory as full entry
/// paths, each with whether it is a regular file and whether a directory.
#[verifier::external_body]
fn sftp_readdir(sftp: &ssh2::Sftp, path: &str) -> Result<Vec<(String, bool, bool)>, String> {
    match sftp.readdir(std::path::Path::new(path)) {
        Ok(entries) => Ok(
            entries
                .into_iter()
                .map(|(p, st)| (p.to_string_lossy().into_owned(), st.is_file(), st.is_dir()))
                .collect(),
        ),
        Err(e) => Err(e.to_string()),
    }
}

/// Relies on ssh2::Session::disconnect: sends a disconnect message with the
/// given description.
#[verifier::external_body]
fn session_disconnect(session: &ssh2::Session, description: &str) -> Result<(), String> {
    session.disconnect(None, description, Some("en")).map_err(|e| e.to_string())
}

/// One SFTP session on one transport connection.  Parallel transfers are
/// done by creating several clients.
pub struct SftpClient {
    pub uploader_name: String,
    host: String,
    port: u16,
    username: String,
    auth_method: ClientAuth,
    ssh2_session: Option<ssh2::Session>,
    sftp_conn: Option<ssh2::Sftp>,
    remote_cwd: Option<SyncPath>,
    local_cwd: Option<SyncPath>,
    is_closed: bool,
    remote_dir_cache: Vec<SyncPath>,
    remote_ops: Ghost<Seq<RemoteOpV>>,
}

impl SftpClient {
    /// The configured host, as a mathematical value.
    pub closed spec fn host_view(&self) -> Seq<char> {
        self.host@
    }

    /// The configured port.
    pub closed spec fn port_view(&self) -> u16 {
        self.port
    }

    /// The configured user name, as a mathematical value.
    pub closed spec fn username_view(&self) -> Seq<char> {
        self.username@
    }

    /// The configured uploader name, as a mathematical value.
    pub closed spec fn name_view(&self) -> Seq<char> {
        self.uploader_name@
    }

    /// The virtual remote working directory, as a mathematical value.
    pub closed spec fn cwd_view(&self) -> Option<SyncPathV> {
        match self.remote_cwd {
            Some(p) => Some(p@),
            None => None,
        }
    }

    /// The virtual local working directory, as a mathematical value.
    pub closed spec fn local_cwd_view(&self) -> Option<SyncPathV> {
        match self.local_cwd {
            Some(p) => Some(p@),
            None => None,
        }
    }

    /// The remote directories this session has ensured and cached.
    pub closed spec fn cache_view(&self) -> Seq<SyncPathV> {
        crate::filter::path_views(self.remote_dir_cache@)
    }

    /// The path is cached as known-to-exist.
    pub open spec fn cached(&self, p: SyncPathV) -> bool {
        self.cache_view().contains(p)
    }

    /// The log of remote mutation requests issued so far.
    pub closed spec fn ops(&self) -> Seq<RemoteOpV> {
        self.remote_ops@
    }

    /// A transport session has been attached.
    pub closed spec fn has_session(&self) -> bool {
        self.ssh2_session is Some
    }

    /// The client has been marked closed.
    pub closed spec fn closed_view(&self) -> bool {
        self.is_closed
    }

    /// An SFTP channel has been attached.
    pub closed spec fn has_sftp(&self) -> bool {
        self.sftp_conn is Some
    }

    /// Connected and ready: SFTP channel attached and virtual cwd seeded.
    pub open spec fn is_connected(&self) -> bool {
        self.has_sftp() && self.cwd_view() is Some
    }

    /// The virtual cwd, when set, is a well-formed absolute path, and every
    /// cached directory is well formed.
    pub open spec fn wf(&self) -> bool {
        (match self.cwd_view() {
            Some(c) => c.abs && wf_path(c),
            None => true,
        }) && (forall|i: int| 0 <= i < self.cache_view().len() ==> wf_path(#[trigger] self.cache_view()[i]))
    }

    /// The identity of the client: who it talks to and as whom.
    pub open spec fn same_identity(&self, other: &SftpClient) -> bool {
        self.name_view() == other.name_view() && self.host_view() == other.host_view()
            && self.port_view() == other.port_view() && self.username_view()
            == other.username_view()
    }

    /// A fresh, unconnected client with key-based authentication.
    pub fn new(
        uploader_name: &str,
        host: &str,
        port: u16,
        username: &str,
        pubkey: String,
        privatekey: String,
        passphrase: Option<String>,
    ) -> (r: Self)
        ensures
            r.name_view() == uploader_name@,
            r.host_view() == host@,
            r.port_view() == port,
            r.username_view() == username@,
            !r.has_sftp(),
            !r.has_session(),
            !r.closed_view(),
            r.cwd_view() is None,
            r.local_cwd_view() is None,
            r.cache_view() =~= Seq::<SyncPathV>::empty(),
            r.ops() =~= Seq::<RemoteOpV>::empty(),
            r.wf(),
    {
        SftpClient {
            uploader_name: String::from_str(uploader_name),
            host: String::from_str(host),
            port,
            username: String::from_str(username),
            auth_method: ClientAuth::KeyBased { pubkey, privatekey, passphrase },
            ssh2_session: None,
            sftp_conn: None,
            remote_cwd: None,
            local_cwd: None,
            is_closed: false,
            remote_dir_cache: Vec::new(),
            remote_ops: Ghost(Seq::empty()),
        }
    }

    /// A fresh, unconnected client with password authentication.
    pub fn with_password(
        uploader_name: &str,
        host: &str,
        port: u16,
        username: &str,
        password: &str,
    ) -> (r: Self)
        ensures
            r.name_view() == uploader_name@,
            r.host_view() == host@,
            r.port_view() == port,
            r.username_view() == username@,
            !r.has_sftp(),
            !r.has_session(),
            !r.closed_view(),
            r.cwd_view() is None,
            r.local_cwd_view() is None,
            r.cache_view() =~= Seq::<SyncPathV>::empty(),
            r.ops() =~= Seq::<RemoteOpV>::empty(),
            r.wf(),
    {
        SftpClient {
            uploader_name: String::from_str(uploader_name),
            host: String::from_str(host),
            port,
            username: String::from_str(username),
            auth_method: ClientAuth::PasswordBased { password: String::from_str(password) },
            ssh2_session: None,
            sftp_conn: None,
            remote_cwd: None,
            local_cwd: None,
            is_closed: false,
            remote_dir_cache: Vec::new(),
            remote_ops: Ghost(Seq::empty()),
        }
    }

    /// The transport session, if one has been attached.
    pub fn session(&self) -> (r: &Option<ssh2::Session>)
        ensures
            r is Some == self.has_session(),
    {
        &self.ssh2_session
    }

    /// Attaches an authenticated transport session.
    pub fn set_session(&mut self, session: ssh2::Session)
        ensures
            final(self).has_session(),
            final(self).has_sftp() == old(self).has_sftp(),
            final(self).cwd_view() == old(self).cwd_view(),
            final(self).local_cwd_view() == old(self).local_cwd_view(),
            final(self).cache_view() == old(self).cache_view(),
            final(self).ops() == old(self).ops(),
            final(self).same_identity(old(self)),
            final(self).wf() == old(self).wf(),
    {
        self.ssh2_session = Some(session);
    }

    /// The SFTP channel, or the error that says none is attached.
    pub fn sftp_connection(&self) -> (r: Result<&ssh2::Sftp, SftpClientError>)
        ensures
            r is Ok <==> self.has_sftp(),
            !self.has_sftp() ==> (r matches Err(e) && e is SftpConnectionMissing),
    {
        match &self.sftp_conn {
            Some(sftp) => Ok(sftp),
            None => Err(
                SftpClientError::SftpConnectionMissing {
                    msg: String::from_str(
                        "Sftp connection is missing, did you forget to connect this client?",
                    ),
                },
            ),
        }
    }

    /// Attaches an open SFTP channel.
    pub fn set_sftp_connection(&mut self, sftp_connection: ssh2::Sftp)
        ensures
            final(self).has_sftp(),
            final(self).has_session() == old(self).has_session(),
            final(self).cwd_view() == old(self).cwd_view(),
            final(self).local_cwd_view() == old(self).local_cwd_view(),
            final(self).cache_view() == old(self).cache_view(),
            final(self).ops() == old(self).ops(),
            final(self).same_identity(old(self)),
            final(self).wf() == old(self).wf(),
    {
        self.sftp_conn = Some(sftp_connection);
    }

    /// The virtual remote working directory, when seeded.
    pub fn remote_cwd(&self) -> (r: Option<&SyncPath>)
        ensures
            match r {
                Some(p) => self.cwd_view() == Some(p@),
                None => self.cwd_view() is None,
            },
    {
        match &self.remote_cwd {
            Some(p) => Some(p),
            None => None,
        }
    }

    /// An owned copy of the virtual remote working directory.
    pub fn remote_cwd_as_pathbuf(&self) -> (r: Option<SyncPath>)
        ensures
            match r {
                Some(p) => self.cwd_view() == Some(p@),
                None => self.cwd_view() is None,
            },
    {
        match &self.remote_cwd {
            Some(p) => Some(p.clone()),
            None => None,
        }
    }

    /// Sets the virtual remote working directory.
    pub fn set_remote_cwd(&mut self, remote_cwd: SyncPath)
        requires
            remote_cwd@.abs,
            remote_cwd.wf(),
        ensures
            final(self).cwd_view() == Some(remote_cwd@),
            final(self).has_sftp() == old(self).has_sftp(),
            final(self).has_session() == old(self).has_session(),
            final(self).closed_view() == old(self).closed_view(),
            final(self).local_cwd_view() == old(self).local_cwd_view(),
            final(self).cache_view() == old(self).cache_view(),
            final(self).ops() == old(self).ops(),
            final(self).same_identity(old(self)),
            old(self).wf() ==> final(self).wf(),
    {
        self.remote_cwd = Some(remote_cwd);
        proof {
            assert(self.cache_view() == old(self).cache_view());
        }
    }

    /// Sets the virtual local working directory, against which relative
    /// local paths are resolved when no explicit local base is given.
    pub fn set_local_cwd(&mut self, local_cwd: SyncPath)
        ensures
            final(self).local_cwd_view() == Some(local_cwd@),
            final(self).has_sftp() == old(self).has_sftp(),
            final(self).has_session() == old(self).has_session(),
            final(self).closed_view() == old(self).closed_view(),
            final(self).cwd_view() == old(self).cwd_view(),
            final(self).cache_view() == old(self).cache_view(),
            final(self).ops() == old(self).ops(),
            final(self).same_identity(old(self)),
            old(self).wf() ==> final(self).wf(),
    {
        self.local_cwd = Some(local_cwd);
        proof {
            assert(self.cache_view() == old(self).cache_view());
            assert(self.cwd_view() == old(self).cwd_view());
        }
    }

    /// The host this client connects to.
    pub fn host(&self) -> (r: &String)
        ensures
            r@ == self.host_view(),
    {
        &self.host
    }

    /// The port this client connects to.
    pub fn port(&self) -> (r: u16)
        ensures
            r == self.port_view(),
    {
        self.port
    }

    /// The user this client authenticates as.
    pub fn username(&self) -> (r: &String)
        ensures
            r@ == self.username_view(),
    {
        &self.username
    }

    /// The configured authentication method.
    pub fn auth_method(&self) -> &ClientAuth {
        &self.auth_method
    }

    /// The resolution of a remote path against the virtual cwd: an absolute
    /// path is taken verbatim, a relative one is joined onto the cwd.
    pub open spec fn canon_view(&self, p: SyncPathV) -> SyncPathV {
        if p.abs {
            p
        } else {
            path_push(self.cwd_view()->0, p)
        }
    }

    /// Everything except the virtual remote cwd is unchanged.
    pub open spec fn same_but_cwd(&self, other: &SftpClient) -> bool {
        self.has_sftp() == other.has_sftp() && self.has_session() == other.has_session()
            && self.local_cwd_view() == other.local_cwd_view() && self.cache_view()
            == other.cache_view() && self.ops() == other.ops() && self.same_identity(other)
            && self.closed_view() == other.closed_view()
    }

    /// Neither the virtual directories nor the cache nor the identity change.
    pub open spec fn same_state(&self, other: &SftpClient) -> bool {
        self.same_but_cwd(other) && self.cwd_view() == other.cwd_view()
    }

    /// Resolves a remote path against the virtual cwd, the one place where
    /// virtual state meets every protocol call.
    fn canonicalize_remote(&self, input_path: &SyncPath) -> (r: SyncPath)
        requires
            input_path@.abs || self.cwd_view() is Some,
        ensures
            r@ == self.canon_view(input_path@),
            self.wf() && input_path.wf() ==> r.wf(),
            self.wf() ==> r@.abs,
    {
        if input_path.abs {
            input_path.clone()
        } else {
            match &self.remote_cwd {
                Some(cwd) => cwd.join(input_path),
                None => unreached(),
            }
        }
    }

    /// Asks the server for the real path of `.`: the remote working
    /// directory the session started in.
    pub fn initial_pwd_remote(&self) -> (r: Result<SyncPath, SftpClientError>)
        ensures
            r matches Ok(p) ==> p@.abs && p.wf(),
            !self.has_sftp() ==> r is Err,
    {
        let sftp = match self.sftp_connection() {
            Ok(sftp) => sftp,
            Err(e) => {
                return Err(e);
            },
        };
        let raw = match sftp_realpath(sftp, ".") {
            Ok(raw) => raw,
            Err(msg) => {
                return Err(
                    SftpClientError::RemotePathError {
                        msg,
                        path: SyncPath { abs: false, segs: Vec::new() },
                    },
                );
            },
        };
        let p = SyncPath::parse(raw.as_str());
        if !p.abs {
            return Err(
                SftpClientError::RemotePathError {
                    msg: String::from_str("server reported a relative working directory"),
                    path: p,
                },
            );
        }
        Ok(p)
    }

    /// The virtual remote cwd; on first use it is seeded by querying the
    /// server, and afterwards it is echoed without traffic.
    pub fn pwd_remote(&mut self) -> (r: Result<SyncPath, SftpClientError>)
        requires
            old(self).wf(),
        ensures
            old(self).cwd_view() is Some ==> *final(self) == *old(self) && (r matches Ok(p)
                && Some(p@) == old(self).cwd_view()),
            match r {
                Ok(p) => final(self).cwd_view() == Some(p@) && p@.abs && p.wf(),
                Err(_) => *final(self) == *old(self),
            },
            final(self).same_but_cwd(old(self)),
            old(self).wf() ==> final(self).wf(),
            !old(self).has_sftp() && old(self).cwd_view() is None ==> r is Err,
    {
        match &self.remote_cwd {
            Some(p) => {
                return Ok(p.clone());
            },
            None => (),
        }
        let initial = match self.initial_pwd_remote() {
            Ok(p) => p,
            Err(e) => {
                return Err(e);
            },
        };
        self.set_remote_cwd(initial.clone());
        Ok(initial)
    }

    /// The virtual remote cwd, with the server asked to confirm that it
    /// still names a directory.
    pub fn pwd_remote_with_validation(&mut self) -> (r: Result<SyncPath, String>)
        requires
            old(self).wf(),
        ensures
            !old(self).has_sftp() ==> r is Err,
            match r {
                Ok(p) => final(self).cwd_view() == Some(p@) && p@.abs && p.wf(),
                Err(_) => true,
            },
            final(self).same_but_cwd(old(self)),
            old(self).cwd_view() is Some ==> final(self).cwd_view() == old(self).cwd_view(),
            old(self).wf() ==> final(self).wf(),
    {
        let cwd = match self.pwd_remote() {
            Ok(p) => p,
            Err(_) => {
                return Err(String::from_str("cannot read the remote working directory"));
            },
        };
        let sftp = match self.sftp_connection() {
            Ok(sftp) => sftp,
            Err(_) => {
                return Err(String::from_str("the SFTP connection is missing"));
            },
        };
        let cwd_str = cwd.to_string();
        match sftp_stat_kind(sftp, cwd_str.as_str()) {
            Ok((_, is_dir)) => {
                if is_dir {
                    Ok(cwd)
                } else {
                    Err(
                        String::from_str(
                            "the current remote working dir is not a directory - probably developer error!",
                        ),
                    )
                }
            },
            Err(msg) => {
                let mut out = String::from_str("the current remote working dir could not be validated: ");
                out.append(msg.as_str());
                Err(out)
            },
        }
    }

    /// Changes the virtual remote cwd: the argument is resolved against the
    /// current cwd, round-tripped through the server's realpath so that `.`
    /// and `..` are normalised, and confirmed to be a directory.  On any
    /// failure the cwd is left unchanged.
    pub fn cd_remote(&mut self, new_path: &str) -> (r: Result<SyncPath, String>)
        requires
            old(self).wf(),
            old(self).cwd_view() is Some,
        ensures
            match r {
                Ok(p) => final(self).cwd_view() == Some(p@) && p@.abs && p.wf(),
                Err(_) => *final(self) == *old(self),
            },
            final(self).same_but_cwd(old(self)),
            final(self).wf(),
            !old(self).has_sftp() ==> r is Err,
    {
        let parsed = SyncPath::parse(new_path);
        let joined = self.canonicalize_remote(&parsed);
        let joined_str = joined.to_string();
        let resolved = {
            let sftp = match &self.sftp_conn {
                Some(sftp) => sftp,
                None => {
                    return Err(String::from_str("the SFTP connection is missing"));
                },
            };
            match sftp_realpath(sftp, joined_str.as_str()) {
                Ok(resolved) => resolved,
                Err(msg) => {
                    let mut out = String::from_str("Cannot cd into the given path: ");
                    out.append(msg.as_str());
                    return Err(out);
                },
            }
        };
        let real_path = SyncPath::parse(resolved.as_str());
        if !real_path.abs {
            return Err(String::from_str("server reported a relative directory path"));
        }
        let real_str = real_path.to_string();
        let stat = {
            let sftp = match &self.sftp_conn {
                Some(sftp) => sftp,
                None => unreached(),
            };
            sftp_stat_kind(sftp, real_str.as_str())
        };
        match stat {
            Ok((_, is_dir)) => {
                if is_dir {
                    self.set_remote_cwd(real_path.clone());
                    Ok(real_path)
                } else {
                    Err(String::from_str("Cannot cd into the given path: not a directory"))
                }
            },
            Err(msg) => {
                let mut out = String::from_str("Cannot cd into the given path: ");
                out.append(msg.as_str());
                Err(out)
            },
        }
    }

    /// The kind of a remote path: whether it is a regular file and whether
    /// it is a directory, as the server reports it.
    pub fn stat_remote(&self, path: &SyncPath) -> (r: Result<(bool, bool), String>)
        requires
            path@.abs || self.cwd_view() is Some,
        ensures
            !self.has_sftp() ==> r is Err,
    {
        let sftp = match &self.sftp_conn {
            Some(sftp) => sftp,
            None => {
                return Err(String::from_str("the SFTP connection is missing"));
            },
        };
        let remote = self.canonicalize_remote(path);
        let remote_str = remote.to_string();
        sftp_stat_kind(sftp, remote_str.as_str())
    }

    /// The file-presence reading of a stat answer: present and a regular
    /// file; a failed stat counts as absent.
    pub fn stat_says_file(stat: Result<(bool, bool), String>) -> (r: bool)
        ensures
            r == (stat matches Ok(k) && k.0),
    {
        match stat {
            Ok((is_file, _)) => is_file,
            Err(_) => false,
        }
    }

    /// The tri-state directory reading of a stat answer: a directory is
    /// `Ok(true)`, a regular file is an error, a failed stat is `Ok(false)`.
    pub fn classify_dir_stat(stat: Result<(bool, bool), String>) -> (r: Result<bool, String>)
        ensures
            match stat {
                Ok(k) => if k.0 {
                    r is Err
                } else {
                    r == Ok::<bool, String>(true)
                },
                Err(_) => r == Ok::<bool, String>(false),
            },
    {
        match stat {
            Ok((is_file, _)) => {
                if is_file {
                    Err(String::from_str("Path is a file, not a directory"))
                } else {
                    Ok(true)
                }
            },
            Err(_) => Ok(false),
        }
    }

    /// Whether the remote path exists and is a regular file; any failure to
    /// stat counts as absent, so without a connection the answer is `false`.
    pub fn has_file_remote(&self, path: &SyncPath) -> (r: bool)
        requires
            path@.abs || self.cwd_view() is Some,
        ensures
            !self.has_sftp() ==> r == false,
    {
        Self::stat_says_file(self.stat_remote(path))
    }

    /// Whether the remote path exists as a directory: `Ok(true)` for a
    /// directory, an error for a file, `Ok(false)` when it cannot be stat'd
    /// — which includes the unconnected client.
    pub fn has_dir_remote(&self, path: &SyncPath) -> (r: Result<bool, String>)
        requires
            path@.abs || self.cwd_view() is Some,
        ensures
            !self.has_sftp() ==> r == Ok::<bool, String>(false),
    {
        Self::classify_dir_stat(self.stat_remote(path))
    }

    /// Recursive `mkdir -p`: walks the path's prefixes from the root (for an
    /// absolute path) or from the virtual cwd (for a relative one), creating
    /// every prefix the server does not already report as a directory.
    /// Every directory-creation request it issues is for a prefix of the
    /// resolved target.
    pub fn ensure_dir_remote(&mut self, path: &SyncPath) -> (r: Result<(), SftpClientError>)
        requires
            path@.abs || old(self).cwd_view() is Some,
            old(self).wf(),
            path.wf(),
        ensures
            new_ops_mkdir_under(old(self).ops(), final(self).ops(), old(self).canon_view(path@)),
            final(self).cwd_view() == old(self).cwd_view(),
            final(self).has_sftp() == old(self).has_sftp(),
            final(self).has_session() == old(self).has_session(),
            final(self).closed_view() == old(self).closed_view(),
            final(self).local_cwd_view() == old(self).local_cwd_view(),
            final(self).cache_view() == old(self).cache_view(),
            final(self).same_identity(old(self)),
            final(self).wf(),
            !old(self).has_sftp() && path@.segs.len() > 0 ==> r is Err && final(self).ops() == old(
                self,
            ).ops(),
            path@.segs.len() == 0 ==> r is Ok && final(self).ops() == old(self).ops(),
            !old(self).has_sftp() ==> final(self).ops() == old(self).ops(),
            match r {
                Err(e) => (e is RemoteMkdirError || e is SftpConnectionMissing) && (old(
                    self,
                ).has_sftp() ==> (e matches SftpClientError::RemoteMkdirError {
                    path: failing,
                    ..
                } && is_path_prefix(failing@, old(self).canon_view(path@)))),
                Ok(_) => true,
            },
    {
        let ghost target = self.canon_view(path@);
        proof {
            assert(self.ops().subrange(0, self.ops().len() as int) =~= self.ops());
        }
        if path.segs.len() > 0 && self.sftp_conn.is_none() {
            return Err(
                SftpClientError::SftpConnectionMissing {
                    msg: String::from_str(
                        "Sftp connection is missing, did you forget to connect this client?",
                    ),
                },
            );
        }
        let mut working: SyncPath = if path.abs {
            SyncPath::root()
        } else {
            match &self.remote_cwd {
                Some(cwd) => cwd.clone(),
                None => unreached(),
            }
        };
        let ghost base_len: int = working@.segs.len() as int;
        proof {
            assert(working@.segs =~= target.segs.subrange(0, base_len));
            assert(self.ops().subrange(0, old(self).ops().len() as int) =~= old(self).ops());
        }
        let mut i: usize = 0;
        while i < path.segs.len()
            invariant
                i <= path.segs.len(),
                path@.segs.len() > 0 ==> self.has_sftp(),
                path@.segs.len() == 0 ==> self.ops() == old(self).ops(),
                *self == (SftpClient { remote_ops: self.remote_ops, ..*old(self) }),
                base_len + path@.segs.len() == target.segs.len(),
                working@.abs == target.abs,
                working@.segs == target.segs.subrange(0, base_len + i),
                working.wf(),
                target == old(self).canon_view(path@),
                new_ops_mkdir_under(old(self).ops(), self.ops(), target),
            decreases path.segs.len() - i,
        {
            proof {
                assert(target.segs[base_len + i] == path@.segs[i as int]);
                assert(working@.segs.push(path@.segs[i as int]) =~= target.segs.subrange(
                    0,
                    base_len + i + 1,
                ));
            }
            working = working.child(&path.segs[i]);
            let working_str = working.to_string();
            let is_dir = match &self.sftp_conn {
                Some(sftp) => match sftp_stat_kind(sftp, working_str.as_str()) {
                    Ok((_, is_dir)) => is_dir,
                    Err(_) => false,
                },
                None => unreached(),
            };
            if !is_dir {
                let mkdir_result = match &self.sftp_conn {
                    Some(sftp) => sftp_mkdir(sftp, working_str.as_str(), REMOTE_DIR_MODE),
                    None => unreached(),
                };
                let ghost before = self.remote_ops@;
                self.remote_ops = Ghost(self.remote_ops@.push(RemoteOpV::Mkdir(working@)));
                proof {
                    assert(self.ops().subrange(0, old(self).ops().len() as int) =~= old(
                        self,
                    ).ops());
                    assert(is_path_prefix(working@, target));
                }
                if let Err(inner_error) = mkdir_result {
                    proof {
                        assert(self.cache_view() == old(self).cache_view());
                        assert(self.cwd_view() == old(self).cwd_view());
                        assert(self.wf());
                    }
                    return Err(
                        SftpClientError::RemoteMkdirError {
                            msg: String::from_str("Failed to create directory"),
                            path: working,
                            inner_error,
                        },
                    );
                }
            }
            i = i + 1;
        }
        proof {
            assert(self.cache_view() == old(self).cache_view());
            assert(self.cwd_view() == old(self).cwd_view());
            assert(self.wf());
        }
        Ok(())
    }

    /// Cached `mkdir -p`: a directory this session has already ensured is
    /// answered from the cache with no protocol traffic at all; otherwise
    /// the directory is ensured and then cached.  The cache only grows.
    pub fn ensure_dir_remote_cached(&mut self, path: &SyncPath) -> (r: Result<
        (),
        SftpClientError,
    >)
        requires
            path@.abs || old(self).cwd_view() is Some,
            old(self).wf(),
            path.wf(),
        ensures
            old(self).cached(path@) ==> *final(self) == *old(self) && r is Ok,
            new_ops_mkdir_under(old(self).ops(), final(self).ops(), old(self).canon_view(path@)),
            r is Ok ==> final(self).cached(path@),
            r is Err ==> final(self).cache_view() == old(self).cache_view(),
            forall|p: SyncPathV| old(self).cached(p) ==> final(self).cached(p),
            final(self).cache_view() == old(self).cache_view() || final(self).cache_view() == old(
                self,
            ).cache_view().push(path@),
            !old(self).has_sftp() ==> final(self).ops() == old(self).ops(),
            match r {
                Err(e) => (e is RemoteMkdirError || e is SftpConnectionMissing) && (old(
                    self,
                ).has_sftp() ==> (e matches SftpClientError::RemoteMkdirError {
                    path: failing,
                    ..
                } && is_path_prefix(failing@, old(self).canon_view(path@)))),
                Ok(_) => true,
            },
            final(self).cwd_view() == old(self).cwd_view(),
            final(self).has_sftp() == old(self).has_sftp(),
            final(self).has_session() == old(self).has_session(),
            final(self).closed_view() == old(self).closed_view(),
            final(self).local_cwd_view() == old(self).local_cwd_view(),
            final(self).same_identity(old(self)),
            final(self).wf(),
            !old(self).has_sftp() && !old(self).cached(path@) && path@.segs.len() > 0 ==> r
                is Err,
    {
        if crate::filter::batch_contains(&self.remote_dir_cache, path) {
            proof {
                assert(self.ops().subrange(0, self.ops().len() as int) =~= self.ops());
            }
            return Ok(());
        }
        if let Err(e) = self.ensure_dir_remote(path) {
            return Err(e);
        }
        let ghost before = self.cache_view();
        self.remote_dir_cache.push(path.clone());
        proof {
            assert(self.cache_view() =~= before.push(path@));
            assert(self.cache_view()[before.len() as int] == path@);
            assert forall|p: SyncPathV| old(self).cached(p) implies final(self).cached(p) by {
                let i = choose|i: int| 0 <= i < before.len() && before[i] == p;
                assert(self.cache_view()[i] == p);
            }
        }
        Ok(())
    }

    /// How a local path becomes a remote path.  The local base (explicit,
    /// or the virtual local cwd) is stripped from the absolute local path;
    /// the remainder is placed under the remote base (explicit, resolved
    /// against the virtual remote cwd; or the virtual remote cwd itself).
    /// `None` when the local path is relative or not under the base.
    pub open spec fn translate_view(
        &self,
        local: SyncPathV,
        lbase: Option<SyncPathV>,
        rbase: Option<SyncPathV>,
    ) -> Option<SyncPathV> {
        let base = match lbase {
            Some(b) => b,
            None => self.local_cwd_view()->0,
        };
        let rb = match rbase {
            Some(r) => self.canon_view(r),
            None => self.cwd_view()->0,
        };
        if local.abs && is_path_prefix(base, local) {
            Some(path_push(rb, strip_result(local, base)))
        } else {
            None
        }
    }

    /// Translation is exactly the round trip `rbase` ⊕ (`local` ⊖ `lbase`):
    /// the stripped remainder of the local path, placed under the resolved
    /// remote base.
    pub proof fn lemma_translate_round_trip(
        &self,
        local: SyncPathV,
        lbase: SyncPathV,
        rbase: SyncPathV,
    )
        requires
            local.abs,
            is_path_prefix(lbase, local),
        ensures
            self.translate_view(local, Some(lbase), Some(rbase)) == Some(
                path_push(self.canon_view(rbase), strip_result(local, lbase)),
            ),
    {
    }

    /// Local path to remote path, with the virtual local cwd as local base
    /// and the virtual remote cwd as remote base.
    pub fn local_to_remote_path_with_cwds(&self, local_path: &SyncPath) -> (r: Result<
        SyncPath,
        SftpClientError,
    >)
        requires
            self.local_cwd_view() is Some,
            self.cwd_view() is Some,
        ensures
            match r {
                Ok(p) => self.translate_view(local_path@, None, None) == Some(p@) && (self.wf()
                    && local_path.wf() ==> p.wf()),
                Err(e) => self.translate_view(local_path@, None, None) is None && e
                    is LocalPathError,
            },
    {
        let base = match &self.local_cwd {
            Some(b) => b,
            None => unreached(),
        };
        let rel = match crate::local_utils::compute_relative_path_from_local(local_path, base) {
            Ok(rel) => rel,
            Err(_) => {
                return Err(
                    SftpClientError::LocalPathError {
                        msg: String::from_str("Cannot compute local relative path from local"),
                        path: local_path.clone(),
                    },
                );
            },
        };
        Ok(self.canonicalize_remote(&rel))
    }

    /// Local path to remote path, with an explicit local base and the
    /// virtual remote cwd as remote base.
    pub fn local_to_remote_path_with_lbase(
        &self,
        local_path: &SyncPath,
        local_base: &SyncPath,
    ) -> (r: Result<SyncPath, SftpClientError>)
        requires
            self.cwd_view() is Some,
        ensures
            match r {
                Ok(p) => self.translate_view(local_path@, Some(local_base@), None) == Some(p@) && (
                self.wf() && local_path.wf() ==> p.wf()),
                Err(e) => self.translate_view(local_path@, Some(local_base@), None) is None && e
                    is LocalPathError,
            },
    {
        let rel = match crate::local_utils::compute_relative_path_from_local(
            local_path,
            local_base,
        ) {
            Ok(rel) => rel,
            Err(_) => {
                return Err(
                    SftpClientError::LocalPathError {
                        msg: String::from_str("Cannot compute local relative path from local"),
                        path: local_path.clone(),
                    },
                );
            },
        };
        Ok(self.canonicalize_remote(&rel))
    }

    /// Local path to remote path, with the virtual local cwd as local base
    /// and an explicit remote base.
    pub fn local_to_remote_path_with_rbase(
        &self,
        local_path: &SyncPath,
        remote_base: &SyncPath,
    ) -> (r: Result<SyncPath, SftpClientError>)
        requires
            self.local_cwd_view() is Some,
            remote_base@.abs || self.cwd_view() is Some,
        ensures
            match r {
                Ok(p) => self.translate_view(local_path@, None, Some(remote_base@)) == Some(p@)
                    && (self.wf() && local_path.wf() && remote_base.wf() ==> p.wf()),
                Err(e) => self.translate_view(local_path@, None, Some(remote_base@)) is None && e
                    is LocalPathError,
            },
    {
        let remote_absolute = self.canonicalize_remote(remote_base);
        let base = match &self.local_cwd {
            Some(b) => b,
            None => unreached(),
        };
        let rel = match crate::local_utils::compute_relative_path_from_local(local_path, base) {
            Ok(rel) => rel,
            Err(_) => {
                return Err(
                    SftpClientError::LocalPathError {
                        msg: String::from_str("Cannot compute local relative path from local"),
                        path: local_path.clone(),
                    },
                );
            },
        };
        Ok(remote_absolute.join(&rel))
    }

    /// Local path to remote path, with an explicit local base and an
    /// explicit remote base.
    pub fn local_to_remote_path_with_bases(
        &self,
        local_path: &SyncPath,
        local_base: &SyncPath,
        remote_base: &SyncPath,
    ) -> (r: Result<SyncPath, SftpClientError>)
        requires
            remote_base@.abs || self.cwd_view() is Some,
        ensures
            match r {
                Ok(p) => self.translate_view(local_path@, Some(local_base@), Some(remote_base@))
                    == Some(p@) && (self.wf() && local_path.wf() && remote_base.wf() ==> p.wf()),
                Err(e) => self.translate_view(local_path@, Some(local_base@), Some(remote_base@))
                    is None && e is LocalPathError,
            },
    {
        let remote_absolute = self.canonicalize_remote(remote_base);
        let rel = match crate::local_utils::compute_relative_path_from_local(
            local_path,
            local_base,
        ) {
            Ok(rel) => rel,
            Err(_) => {
                return Err(
                    SftpClientError::LocalPathError {
                        msg: String::from_str("Cannot compute local relative path from local"),
                        path: local_path.clone(),
                    },
                );
            },
        };
        Ok(remote_absolute.join(&rel))
    }

    /// Local path to remote path, choosing the conversion from which bases
    /// are given.
    pub fn local_to_remote_path(
        &self,
        local_path: &SyncPath,
        local_base: Option<&SyncPath>,
        remote_base: Option<&SyncPath>,
    ) -> (r: Result<SyncPath, SftpClientError>)
        requires
            local_base is Some || self.local_cwd_view() is Some,
            match remote_base {
                Some(rb) => rb@.abs || self.cwd_view() is Some,
                None => self.cwd_view() is Some,
            },
        ensures
            match r {
                Ok(p) => self.translate_view(local_path@, opt_path_view(local_base), opt_path_view(remote_base))
                    == Some(p@) && (self.wf() && local_path.wf() && (match remote_base {
                    Some(rb) => rb.wf(),
                    None => true,
                }) ==> p.wf()),
                Err(e) => self.translate_view(local_path@, opt_path_view(local_base), opt_path_view(remote_base))
                    is None && e is LocalPathError,
            },
    {
        match (local_base, remote_base) {
            (Some(lbase), Some(rbase)) => self.local_to_remote_path_with_bases(
                local_path,
                lbase,
                rbase,
            ),
            (Some(lbase), None) => self.local_to_remote_path_with_lbase(local_path, lbase),
            (None, Some(rbase)) => self.local_to_remote_path_with_rbase(local_path, rbase),
            (None, None) => self.local_to_remote_path_with_cwds(local_path),
        }
    }

    /// Uploads one file's bytes to an explicitly given remote file path:
    /// the remote parent directory is ensured (through the cache when
    /// `allow_cached_ensure_remote_dir` is set), the remote file is opened
    /// with create-write-truncate, the bytes are streamed in buffer-sized
    /// writes, and the handle is closed.  On success the request log ends
    /// with exactly one completed whole-file write of `content` to the
    /// resolved remote path; on failure the log gains only directory
    /// creations — a failed open, write or close is not recorded, and a
    /// mid-copy failure leaves the partially written remote file as-is.
    /// The error names the phase that failed.
    pub fn upload_file_explicit(
        &mut self,
        content: &[u8],
        local_filepath: &SyncPath,
        remote_filepath: &SyncPath,
        allow_cached_ensure_remote_dir: bool,
    ) -> (r: Result<(), SftpClientError>)
        requires
            remote_filepath@.abs || old(self).cwd_view() is Some,
            old(self).wf(),
            remote_filepath.wf(),
        ensures
            match r {
                Ok(_) => upload_ops(
                    old(self).ops(),
                    final(self).ops(),
                    old(self).canon_view(remote_filepath@),
                    content@,
                ),
                Err(_) => new_ops_mkdir_under(
                    old(self).ops(),
                    final(self).ops(),
                    parent_view(old(self).canon_view(remote_filepath@)),
                ),
            },
            old(self).canon_view(remote_filepath@).segs.len() == 0 ==> *final(self) == *old(self)
                && (r matches Err(e) && e is RemotePathError),
            match r {
                Err(e) => (e is RemotePathError || e is SftpConnectionMissing || e
                    is RemoteMkdirError || e is OpenRemoteFileError || e is LocalToRemoteCopyError
                    || e is CloseRemoteFileError) && ((e is RemotePathError || e
                    is SftpConnectionMissing) ==> final(self).ops() == old(self).ops()) && ((e
                    is OpenRemoteFileError || e is LocalToRemoteCopyError || e
                    is CloseRemoteFileError) ==> old(self).has_sftp()),
                Ok(_) => true,
            },
            forall|p: SyncPathV| old(self).cached(p) ==> final(self).cached(p),
            final(self).cwd_view() == old(self).cwd_view(),
            final(self).local_cwd_view() == old(self).local_cwd_view(),
            final(self).has_sftp() == old(self).has_sftp(),
            final(self).has_session() == old(self).has_session(),
            final(self).closed_view() == old(self).closed_view(),
            final(self).same_identity(old(self)),
            final(self).wf(),
            !old(self).has_sftp() ==> r is Err,
    {
        let ghost target = self.canon_view(remote_filepath@);
        proof {
            assert(self.ops().subrange(0, self.ops().len() as int) =~= self.ops());
        }
        let remote = self.canonicalize_remote(remote_filepath);
        let parent = match remote.parent() {
            Some(p) => p,
            None => {
                return Err(
                    SftpClientError::RemotePathError {
                        msg: String::from_str("Cannot get parent directory of remote path"),
                        path: remote,
                    },
                );
            },
        };
        proof {
            assert(parent@ == parent_view(target));
        }
        let ensure_result = if allow_cached_ensure_remote_dir {
            self.ensure_dir_remote_cached(&parent)
        } else {
            self.ensure_dir_remote(&parent)
        };
        if let Err(e) = ensure_result {
            return Err(e);
        }
        if self.sftp_conn.is_none() {
            return Err(
                SftpClientError::SftpConnectionMissing {
                    msg: String::from_str(
                        "Sftp connection is missing, did you forget to connect this client?",
                    ),
                },
            );
        }
        let remote_str = remote.to_string();
        let open_result = match &self.sftp_conn {
            Some(sftp) => sftp_open_write(sftp, remote_str.as_str(), REMOTE_FILE_MODE),
            None => unreached(),
        };
        let mut file = match open_result {
            Ok(f) => f,
            Err(ssh2_error) => {
                return Err(SftpClientError::OpenRemoteFileError { path: remote, ssh2_error });
            },
        };
        let n = content.len();
        let mut off: usize = 0;
        let ghost written: Seq<u8> = content@.subrange(0, 0);
        while off < n
            invariant
                off <= n,
                n == content@.len(),
            decreases n - off,
        {
            let end = if n - off > COPY_BUFFER_SIZE {
                off + COPY_BUFFER_SIZE
            } else {
                n
            };
            let chunk = vstd::slice::slice_subrange(content, off, end);
            if let Err(io_error) = file_write_all(&mut file, chunk) {
                return Err(
                    SftpClientError::LocalToRemoteCopyError {
                        local_path: local_filepath.clone(),
                        remote_path: remote.clone(),
                        io_error,
                    },
                );
            }
            off = end;
        }
        if let Err(ssh2_error) = file_close(&mut file) {
            return Err(SftpClientError::CloseRemoteFileError { path: remote, ssh2_error });
        }
        let ghost mid_ops = self.remote_ops@;
        self.remote_ops = Ghost(self.remote_ops@.push(RemoteOpV::FileWritten(target, content@)));
        proof {
            assert(self.ops().subrange(0, old(self).ops().len() as int) =~= old(self).ops());
            assert(self.ops().last() == RemoteOpV::FileWritten(target, content@));
            assert forall|k: int|
                old(self).ops().len() <= k < self.ops().len() - 1 implies (
            #[trigger] self.ops()[k] matches RemoteOpV::Mkdir(d) && is_path_prefix(
                d,
                parent_view(target),
            )) by {
                assert(self.ops()[k] == mid_ops[k]);
            }
        }
        Ok(())
    }

    /// Uploads one file's bytes into a remote directory, translating the
    /// local path against an optional local base; the remote directory may
    /// be absolute or relative to the virtual remote cwd.
    pub fn sync_file_to_dir(
        &mut self,
        content: &[u8],
        local_filepath: &SyncPath,
        remote_dir: &SyncPath,
        local_base: Option<&SyncPath>,
        allow_cached_ensure_remote_dir: bool,
    ) -> (r: Result<(), SftpClientError>)
        requires
            old(self).wf(),
            local_filepath.wf(),
            remote_dir.wf(),
            local_base is Some || old(self).local_cwd_view() is Some,
            remote_dir@.abs || old(self).cwd_view() is Some,
        ensures
            match old(self).translate_view(
                local_filepath@,
                opt_path_view(local_base),
                Some(remote_dir@),
            ) {
                Some(t) => match r {
                    Ok(_) => upload_ops(old(self).ops(), final(self).ops(), t, content@),
                    Err(_) => new_ops_mkdir_under(
                        old(self).ops(),
                        final(self).ops(),
                        parent_view(t),
                    ),
                },
                None => r is Err && final(self).ops() == old(self).ops(),
            },
            forall|p: SyncPathV| old(self).cached(p) ==> final(self).cached(p),
            final(self).cwd_view() == old(self).cwd_view(),
            final(self).local_cwd_view() == old(self).local_cwd_view(),
            final(self).has_sftp() == old(self).has_sftp(),
            final(self).has_session() == old(self).has_session(),
            final(self).closed_view() == old(self).closed_view(),
            final(self).same_identity(old(self)),
            final(self).wf(),
    {
        let remote_pathbuf_result = match local_base {
            Some(local_base) => self.local_to_remote_path_with_bases(
                local_filepath,
                local_base,
                remote_dir,
            ),
            None => self.local_to_remote_path_with_rbase(local_filepath, remote_dir),
        };
        let remote_pathbuf = match remote_pathbuf_result {
            Ok(p) => p,
            Err(e) => {
                return Err(e);
            },
        };
        proof {
            assert(self.canon_view(remote_pathbuf@) == remote_pathbuf@);
        }
        self.upload_file_explicit(
            content,
            local_filepath,
            &remote_pathbuf,
            allow_cached_ensure_remote_dir,
        )
    }

    /// Uploads one file's bytes under the virtual remote cwd, translating
    /// the local path against an optional local base.
    pub fn sync_file_to_cwd(
        &mut self,
        content: &[u8],
        local_filepath: &SyncPath,
        local_base: Option<&SyncPath>,
        allow_cached_ensure_remote_dir: bool,
    ) -> (r: Result<(), SftpClientError>)
        requires
            old(self).wf(),
            local_filepath.wf(),
            local_base is Some || old(self).local_cwd_view() is Some,
            old(self).cwd_view() is Some,
        ensures
            match old(self).translate_view(local_filepath@, opt_path_view(local_base), None) {
                Some(t) => match r {
                    Ok(_) => upload_ops(old(self).ops(), final(self).ops(), t, content@),
                    Err(_) => new_ops_mkdir_under(
                        old(self).ops(),
                        final(self).ops(),
                        parent_view(t),
                    ),
                },
                None => r is Err && final(self).ops() == old(self).ops(),
            },
            forall|p: SyncPathV| old(self).cached(p) ==> final(self).cached(p),
            final(self).cwd_view() == old(self).cwd_view(),
            final(self).local_cwd_view() == old(self).local_cwd_view(),
            final(self).has_sftp() == old(self).has_sftp(),
            final(self).has_session() == old(self).has_session(),
            final(self).closed_view() == old(self).closed_view(),
            final(self).same_identity(old(self)),
            final(self).wf(),
    {
        let remote_pathbuf_result = match local_base {
            Some(local_base) => self.local_to_remote_path_with_lbase(local_filepath, local_base),
            None => self.local_to_remote_path_with_cwds(local_filepath),
        };
        let remote_pathbuf = match remote_pathbuf_result {
            Ok(p) => p,
            Err(e) => {
                return Err(e);
            },
        };
        proof {
            assert(self.canon_view(remote_pathbuf@) == remote_pathbuf@);
        }
        self.upload_file_explicit(
            content,
            local_filepath,
            &remote_pathbuf,
            allow_cached_ensure_remote_dir,
        )
    }

    /// Creates an empty file and its parent directory path on the remote
    /// host.  On success the request log ends with a whole-file write of
    /// zero bytes to the resolved path.
    pub fn ensure_file_remote(&mut self, path: &SyncPath) -> (r: Result<(), SftpClientError>)
        requires
            path@.abs || old(self).cwd_view() is Some,
            old(self).wf(),
            path.wf(),
        ensures
            match r {
                Ok(_) => upload_ops(
                    old(self).ops(),
                    final(self).ops(),
                    old(self).canon_view(path@),
                    Seq::<u8>::empty(),
                ),
                Err(_) => new_ops_mkdir_under(
                    old(self).ops(),
                    final(self).ops(),
                    parent_view(old(self).canon_view(path@)),
                ),
            },
            forall|p: SyncPathV| old(self).cached(p) ==> final(self).cached(p),
            final(self).cwd_view() == old(self).cwd_view(),
            final(self).local_cwd_view() == old(self).local_cwd_view(),
            final(self).has_sftp() == old(self).has_sftp(),
            final(self).same_identity(old(self)),
            final(self).wf(),
    {
        let empty: Vec<u8> = Vec::new();
        let local = SyncPath { abs: false, segs: Vec::new() };
        let r = self.upload_file_explicit(empty.as_slice(), &local, path, false);
        proof {
            assert(empty@.subrange(0, empty@.len() as int) =~= Seq::<u8>::empty());
            assert(empty@ =~= Seq::<u8>::empty());
        }
        r
    }

    /// Removes one remote file.
    pub fn remove_file_remote(&self, path: &SyncPath) -> (r: Result<(), String>)
        requires
            path@.abs || self.cwd_view() is Some,
        ensures
            !self.has_sftp() ==> r is Err,
    {
        let sftp = match &self.sftp_conn {
            Some(sftp) => sftp,
            None => {
                return Err(String::from_str("the SFTP connection is missing"));
            },
        };
        let remote = self.canonicalize_remote(path);
        let remote_str = remote.to_string();
        sftp_unlink(sftp, remote_str.as_str())
    }

    /// Recursively removes a remote file or directory tree: a file is
    /// unlinked; a directory has its entries removed and is then removed
    /// itself.  The recursion carries a depth budget far beyond any real
    /// directory tree; an exhausted budget is reported as an error.
    pub fn rmrf_remote(&self, path: &SyncPath) -> (r: Result<(), String>)
        requires
            path@.abs || self.cwd_view() is Some,
        ensures
            !self.has_sftp() ==> r is Err,
    {
        if self.sftp_conn.is_none() {
            return Err(String::from_str("the SFTP connection is missing"));
        }
        let remote = self.canonicalize_remote(path);
        self.rmrf_remote_recursive(&remote, 4096)
    }

    /// Removes a canonicalized remote path, recursing into directories.
    fn rmrf_remote_recursive(&self, path: &SyncPath, depth_budget: u64) -> (r: Result<(), String>)
        requires
            self.has_sftp(),
        decreases depth_budget,
    {
        if depth_budget == 0 {
            return Err(String::from_str("directory tree deeper than the removal budget"));
        }
        let path_str = path.to_string();
        let is_file = match &self.sftp_conn {
            Some(sftp) => match sftp_stat_kind(sftp, path_str.as_str()) {
                Ok((is_file, _)) => is_file,
                Err(_) => false,
            },
            None => unreached(),
        };
        if is_file {
            let unlink_result = match &self.sftp_conn {
                Some(sftp) => sftp_unlink(sftp, path_str.as_str()),
                None => unreached(),
            };
            return unlink_result;
        }
        let entries = match &self.sftp_conn {
            Some(sftp) => match sftp_readdir(sftp, path_str.as_str()) {
                Ok(entries) => entries,
                Err(msg) => {
                    return Err(msg);
                },
            },
            None => unreached(),
        };
        let mut i: usize = 0;
        while i < entries.len()
            invariant
                self.has_sftp(),
            decreases entries.len() - i,
        {
            let entry_path = SyncPath::parse(entries[i].0.as_str());
            if let Err(msg) = self.rmrf_remote_recursive(&entry_path, depth_budget - 1) {
                return Err(msg);
            }
            i = i + 1;
        }
        match &self.sftp_conn {
            Some(sftp) => sftp_rmdir(sftp, path_str.as_str()),
            None => unreached(),
        }
    }

    /// Lists the contents of a remote directory; with no path given, the
    /// virtual remote cwd is listed.
    pub fn ls_remote(&self, remote_path: Option<&str>) -> (r: Result<Vec<SyncPath>, String>)
        requires
            self.cwd_view() is Some,
        ensures
            !self.has_sftp() ==> r is Err,
    {
        let dir: SyncPath = match remote_path {
            Some(remote_path) => {
                let parsed = SyncPath::parse(remote_path);
                self.canonicalize_remote(&parsed)
            },
            None => match &self.remote_cwd {
                Some(cwd) => cwd.clone(),
                None => unreached(),
            },
        };
        let sftp = match &self.sftp_conn {
            Some(sftp) => sftp,
            None => {
                return Err(String::from_str("the SFTP connection is missing"));
            },
        };
        let dir_str = dir.to_string();
        let entries = match sftp_readdir(sftp, dir_str.as_str()) {
            Ok(entries) => entries,
            Err(msg) => {
                return Err(msg);
            },
        };
        let mut out: Vec<SyncPath> = Vec::new();
        let mut i: usize = 0;
        while i < entries.len()
            invariant
                i <= entries.len(),
            decreases entries.len() - i,
        {
            out.push(SyncPath::parse(entries[i].0.as_str()));
            i = i + 1;
        }
        Ok(out)
    }

    /// Sends the farewell disconnect on the first call on a live session
    /// and marks the client closed; once closed it stays closed, and later
    /// calls send nothing.
    pub fn close(&mut self)
        ensures
            final(self).closed_view() == (old(self).closed_view() || old(self).has_session()),
            old(self).has_session() && !old(self).closed_view() ==> final(self).ops() == old(
                self,
            ).ops().push(RemoteOpV::Disconnect),
            !(old(self).has_session() && !old(self).closed_view()) ==> final(self).ops() == old(
                self,
            ).ops(),
            final(self).has_session() == old(self).has_session(),
            final(self).has_sftp() == old(self).has_sftp(),
            final(self).cwd_view() == old(self).cwd_view(),
            final(self).local_cwd_view() == old(self).local_cwd_view(),
            final(self).cache_view() == old(self).cache_view(),
            final(self).same_identity(old(self)),
            old(self).wf() ==> final(self).wf(),
    {
        if self.ssh2_session.is_some() && !self.is_closed {
            match &self.ssh2_session {
                Some(session) => {
                    let _ = session_disconnect(session, "Bye bye");
                },
                None => (),
            }
            self.remote_ops = Ghost(self.remote_ops@.push(RemoteOpV::Disconnect));
            self.is_closed = true;
            proof {
                assert(self.cache_view() == old(self).cache_view());
                assert(self.cwd_view() == old(self).cwd_view());
            }
        }
    }

    /// Whether the client has been marked closed.
    pub fn is_closed(&self) -> (r: bool)
        ensures
            r == self.closed_view(),
    {
        self.is_closed
    }
}

} // verus!
