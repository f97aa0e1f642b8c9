use dev_uploader::local_utils::{compute_relative_path_from_local, RelativePathError};
use dev_uploader::pathmodel::SyncPath;
use dev_uploader::sftp_client::SftpClient;

#[test]
fn parse_normalises_separators_and_dot_segments() {
    assert_eq!(SyncPath::parse("/a//b/./c").to_string(), "/a/b/c");
    assert_eq!(SyncPath::parse("a/b/c/").to_string(), "a/b/c");
    assert_eq!(SyncPath::parse("").to_string(), "");
    assert_eq!(SyncPath::parse("/").to_string(), "/");
    assert_eq!(SyncPath::parse(".").to_string(), "");
    assert_eq!(SyncPath::parse("./x").to_string(), "x");
    assert!(SyncPath::parse("/a/b").abs);
    assert!(!SyncPath::parse("a/b").abs);
}

#[test]
fn join_appends_relative_and_replaces_with_absolute() {
    let base = SyncPath::parse("/home/u");
    assert_eq!(base.join(&SyncPath::parse("sub/x.txt")).to_string(), "/home/u/sub/x.txt");
    assert_eq!(base.join(&SyncPath::parse("/srv")).to_string(), "/srv");
    assert_eq!(base.join(&SyncPath::parse(".")).to_string(), "/home/u");
}

#[test]
fn parent_walks_up_one_segment() {
    assert_eq!(SyncPath::parse("/a/b").parent().unwrap().to_string(), "/a");
    assert_eq!(SyncPath::parse("/a").parent().unwrap().to_string(), "/");
    assert_eq!(SyncPath::parse("a").parent().unwrap().to_string(), "");
    assert!(SyncPath::parse("/").parent().is_none());
    assert!(SyncPath::parse("").parent().is_none());
}

#[test]
fn strip_prefix_gives_the_relative_remainder() {
    let p = SyncPath::parse("/home/myuser/mypath/myfile.txt");
    let base = SyncPath::parse("/home/myuser");
    assert_eq!(p.strip_prefix(&base).unwrap().to_string(), "mypath/myfile.txt");
    assert!(p.strip_prefix(&SyncPath::parse("/other")).is_none());
    assert!(p.strip_prefix(&SyncPath::parse("home/myuser")).is_none());
    assert!(p.strip_prefix(&SyncPath::parse("/home/my")).is_none());
}

#[test]
fn relative_path_requires_an_absolute_input() {
    let input = SyncPath::parse("mypath/myfile.txt");
    let base = SyncPath::parse("/home/myuser");
    assert_eq!(
        compute_relative_path_from_local(&input, &base),
        Err(RelativePathError::InputNotAbsolute)
    );
}

#[test]
fn relative_path_requires_the_base_to_lead() {
    let input = SyncPath::parse("/Users/bjesuiter/mypath/myfile.txt");
    let good_base = SyncPath::parse("/Users/bjesuiter");
    let r = compute_relative_path_from_local(&input, &good_base).unwrap();
    assert_eq!(r.to_string(), "mypath/myfile.txt");
    let bad_base = SyncPath::parse("/opt");
    assert_eq!(
        compute_relative_path_from_local(&input, &bad_base),
        Err(RelativePathError::BaseNotPrefix)
    );
}

#[test]
fn translate_with_absolute_local_and_remote_bases() {
    let client = SftpClient::with_password("dev_uploader", "localhost", 22, "test", "test");
    let local = SyncPath::parse("/u/me/src/x.go");
    let lbase = SyncPath::parse("/u/me/src");
    let rbase = SyncPath::parse("/srv");
    let r = client.local_to_remote_path_with_bases(&local, &lbase, &rbase).unwrap();
    assert_eq!(r.to_string(), "/srv/x.go");
}

#[test]
fn translate_rejects_a_relative_local_path() {
    let client = SftpClient::with_password("dev_uploader", "localhost", 22, "test", "test");
    let local = SyncPath::parse("src/x.go");
    let lbase = SyncPath::parse("/u/me/src");
    let rbase = SyncPath::parse("/srv");
    let r = client.local_to_remote_path_with_bases(&local, &lbase, &rbase);
    assert!(matches!(
        r,
        Err(dev_uploader::sftp_client::SftpClientError::LocalPathError { .. })
    ));
}

#[test]
fn translate_resolves_a_relative_remote_base_against_the_cwd() {
    let mut client = SftpClient::with_password("dev_uploader", "localhost", 22, "test", "test");
    client.set_remote_cwd(SyncPath::parse("/home/u"));
    let local = SyncPath::parse("/home/me/playground/a.txt");
    let lbase = SyncPath::parse("/home/me/playground");
    let rbase = SyncPath::parse("playground");
    let r = client.local_to_remote_path_with_bases(&local, &lbase, &rbase).unwrap();
    assert_eq!(r.to_string(), "/home/u/playground/a.txt");
}

#[test]
fn translate_with_dot_target_maps_to_remote_cwd() {
    let mut client = SftpClient::with_password("dev_uploader", "localhost", 22, "test", "test");
    client.set_remote_cwd(SyncPath::parse("/home/u"));
    let local = SyncPath::parse("/home/me/playground/sub/b.txt");
    let lbase = SyncPath::parse("/home/me/playground");
    let rbase = SyncPath::parse(".");
    let r = client.local_to_remote_path_with_bases(&local, &lbase, &rbase).unwrap();
    assert_eq!(r.to_string(), "/home/u/sub/b.txt");
}

#[test]
fn translate_dispatch_uses_the_virtual_cwds() {
    let mut client = SftpClient::with_password("dev_uploader", "localhost", 22, "test", "test");
    client.set_remote_cwd(SyncPath::parse("/remote"));
    client.set_local_cwd(SyncPath::parse("/local"));
    let local = SyncPath::parse("/local/dir/f.txt");
    let r = client.local_to_remote_path(&local, None, None).unwrap();
    assert_eq!(r.to_string(), "/remote/dir/f.txt");
    let r2 = client
        .local_to_remote_path(&local, None, Some(&SyncPath::parse("/srv")))
        .unwrap();
    assert_eq!(r2.to_string(), "/srv/dir/f.txt");
    let r3 = client
        .local_to_remote_path(&local, Some(&SyncPath::parse("/local/dir")), None)
        .unwrap();
    assert_eq!(r3.to_string(), "/remote/f.txt");
}
