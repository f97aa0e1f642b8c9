use dev_uploader::dispatcher::{
    compute_remote_dirs, upload_chunk, LocalFile, UploadActorHandle, UploadActorMessage,
};
use dev_uploader::pathmodel::SyncPath;
use dev_uploader::sftp_client::{SftpClient, SftpClientError};

fn offline_client() -> SftpClient {
    let mut client =
        SftpClient::with_password("dev_uploader - Unit Test", "localhost", 2022, "test", "test");
    client.set_remote_cwd(SyncPath::parse("/home/u"));
    client
}

#[test]
fn test_init_sftp_client_fixture() {
    let client =
        SftpClient::with_password("dev_uploader - Unit Test", "localhost", 2022, "test", "test");
    assert!(client.uploader_name.starts_with("dev_uploader"));
    assert!(client.session().is_none());
}

#[test]
fn sftp_connection_is_missing_before_connect() {
    let client = offline_client();
    assert!(matches!(
        client.sftp_connection(),
        Err(SftpClientError::SftpConnectionMissing { .. })
    ));
    assert!(client.initial_pwd_remote().is_err());
}

#[test]
fn pwd_remote_echoes_the_seeded_cwd_without_traffic() {
    let mut client = offline_client();
    let cwd = client.pwd_remote().unwrap();
    assert_eq!(cwd.to_string(), "/home/u");
    assert_eq!(client.remote_cwd().unwrap().to_string(), "/home/u");
    assert_eq!(client.remote_cwd_as_pathbuf().unwrap().to_string(), "/home/u");
}

#[test]
fn pwd_remote_fails_without_cwd_or_connection() {
    let mut client =
        SftpClient::with_password("dev_uploader - Unit Test", "localhost", 2022, "test", "test");
    assert!(client.pwd_remote().is_err());
}

#[test]
fn cached_mkdir_answers_segmentless_paths_without_traffic() {
    let mut client = offline_client();
    assert!(client.ensure_dir_remote_cached(&SyncPath::parse("/")).is_ok());
    assert!(client.ensure_dir_remote_cached(&SyncPath::parse("/")).is_ok());
    assert!(client.ensure_dir_remote_cached(&SyncPath::parse(".")).is_ok());
    assert!(client
        .ensure_dir_remote_cached(&SyncPath::parse("/deep/nested/dir"))
        .is_err());
}

#[test]
fn upload_needs_a_remote_parent_directory() {
    let mut client = offline_client();
    let content: Vec<u8> = vec![1, 2, 3];
    let local = SyncPath::parse("/local/f.txt");
    let root = SyncPath::parse("/");
    let r = client.upload_file_explicit(content.as_slice(), &local, &root, false);
    assert!(matches!(r, Err(SftpClientError::RemotePathError { .. })));
}

#[test]
fn upload_fails_cleanly_when_not_connected() {
    let mut client = offline_client();
    let content: Vec<u8> = vec![1, 2, 3];
    let local = SyncPath::parse("/local/f.txt");
    let remote = SyncPath::parse("/srv/f.txt");
    let r = client.upload_file_explicit(content.as_slice(), &local, &remote, false);
    assert!(matches!(r, Err(SftpClientError::SftpConnectionMissing { .. })));
}

#[test]
fn remote_dirs_of_a_batch_are_the_deduplicated_parents() {
    let client = offline_client();
    let files = vec![
        SyncPath::parse("/src/a.txt"),
        SyncPath::parse("/src/sub/b.txt"),
        SyncPath::parse("/src/c.txt"),
    ];
    let lbase = SyncPath::parse("/src");
    let dirs = compute_remote_dirs(&client, &files, Some(&lbase), None);
    let rendered: Vec<String> = dirs.iter().map(|p| p.to_string()).collect();
    assert_eq!(rendered, vec!["/home/u", "/home/u/sub"]);
}

#[test]
fn remote_dirs_with_an_absolute_target() {
    let client = offline_client();
    let files = vec![
        SyncPath::parse("/src/x/a.go"),
        SyncPath::parse("/src/x/b.go"),
        SyncPath::parse("relative.go"),
    ];
    let lbase = SyncPath::parse("/src");
    let target = SyncPath::parse("/srv");
    let dirs = compute_remote_dirs(&client, &files, Some(&lbase), Some(&target));
    let rendered: Vec<String> = dirs.iter().map(|p| p.to_string()).collect();
    assert_eq!(rendered, vec!["/srv/x"]);
}

#[test]
fn an_offline_chunk_reports_every_file_as_failed() {
    let mut client = offline_client();
    let chunk = vec![
        LocalFile { path: SyncPath::parse("/src/a.txt"), content: vec![1] },
        LocalFile { path: SyncPath::parse("/src/b.txt"), content: vec![2] },
    ];
    let lbase = SyncPath::parse("/src");
    let flags = upload_chunk(&mut client, &chunk, None, Some(&lbase));
    assert_eq!(flags, vec![false, false]);
}

#[test]
fn upload_handle_round_trips_messages() {
    let (tx, rx) = std::sync::mpsc::channel();
    let mut handle = UploadActorHandle::from_sender(tx);
    let files = vec![SyncPath::parse("/a/b.txt")];
    assert!(handle.upload_files(files, None, None).is_ok());
    let UploadActorMessage::UploadFiles { files, remote_dir, local_base_dir } =
        rx.recv().unwrap();
    assert_eq!(files.len(), 1);
    assert_eq!(files[0].to_string(), "/a/b.txt");
    assert!(remote_dir.is_none());
    assert!(local_base_dir.is_none());
    drop(rx);
    let r = handle.upload_files(
        vec![SyncPath::parse("/c.txt")],
        Some(SyncPath::parse("/srv")),
        None,
    );
    match r {
        Err(UploadActorMessage::UploadFiles { files, remote_dir, .. }) => {
            assert_eq!(files[0].to_string(), "/c.txt");
            assert_eq!(remote_dir.unwrap().to_string(), "/srv");
        },
        Ok(_) => panic!("send must fail after the receiver is dropped"),
    }
}

#[test]
fn cd_remote_fails_offline_and_keeps_the_cwd() {
    let mut client = offline_client();
    assert!(client.cd_remote("sub").is_err());
    assert_eq!(client.remote_cwd().unwrap().to_string(), "/home/u");
    assert!(client.pwd_remote_with_validation().is_err());
    assert_eq!(client.remote_cwd().unwrap().to_string(), "/home/u");
}

#[test]
fn remote_listing_and_removal_need_a_connection() {
    let client = offline_client();
    assert!(client.ls_remote(None).is_err());
    assert!(client.remove_file_remote(&SyncPath::parse("/a/f.txt")).is_err());
    assert!(client.rmrf_remote(&SyncPath::parse("/a")).is_err());
    assert!(!client.has_file_remote(&SyncPath::parse("/a/f.txt")));
    assert_eq!(client.has_dir_remote(&SyncPath::parse("/a")), Ok(false));
}

#[test]
fn stat_classification_is_exact() {
    assert!(SftpClient::stat_says_file(Ok((true, false))));
    assert!(!SftpClient::stat_says_file(Ok((false, true))));
    assert!(!SftpClient::stat_says_file(Err(String::from("gone"))));
    assert_eq!(SftpClient::classify_dir_stat(Ok((false, true))), Ok(true));
    assert!(SftpClient::classify_dir_stat(Ok((true, false))).is_err());
    assert_eq!(SftpClient::classify_dir_stat(Err(String::from("gone"))), Ok(false));
}

#[test]
fn close_without_a_session_changes_nothing_and_is_repeatable() {
    let mut client = offline_client();
    assert!(!client.is_closed());
    client.close();
    assert!(!client.is_closed());
    client.close();
    assert!(!client.is_closed());
    assert_eq!(client.remote_cwd().unwrap().to_string(), "/home/u");
}

#[test]
fn precreate_flags_follow_the_cache() {
    let mut client = offline_client();
    let dirs = vec![
        SyncPath::parse("/"),
        SyncPath::parse("/deep/nested/dir"),
        SyncPath::parse("."),
    ];
    let flags = dev_uploader::dispatcher::precreate_remote_dirs(&mut client, &dirs);
    assert_eq!(flags, vec![true, false, true]);
    let again = dev_uploader::dispatcher::precreate_remote_dirs(
        &mut client,
        &vec![SyncPath::parse("/"), SyncPath::parse(".")],
    );
    assert_eq!(again, vec![true, true]);
}
