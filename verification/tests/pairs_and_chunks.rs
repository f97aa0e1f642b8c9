use dev_uploader::chunks::split_to_n_chunks;
use dev_uploader::pathmodel::SyncPath;
use dev_uploader::upload_pair::UploadPair;

#[test]
fn test_split_to_n_chunks_exact() {
    let array = vec![1, 2, 3, 4, 5, 6, 7, 8, 9];
    let chunks = split_to_n_chunks(array, 3);
    assert!(chunks.len() == 3);
    println!("{:?}", chunks);
}

#[test]
fn test_split_to_n_chunks_overflow() {
    let array = vec![1, 2, 3, 4, 5, 6, 7, 8, 9, 10];
    let chunks = split_to_n_chunks(array, 3);
    assert!(chunks.len() == 3);
    println!("{:?}", chunks);
}

#[test]
fn test_split_to_n_chunks_underflow() {
    let array = vec![1, 2, 3, 4];
    let chunks = split_to_n_chunks(array, 6);
    assert!(chunks.len() == 6);
    println!("{:?}", chunks);
}

#[test]
fn sharding_ten_files_over_three_sessions() {
    let files: Vec<u32> = (0..10).collect();
    let chunks = split_to_n_chunks(files, 3);
    let sizes: Vec<usize> = chunks.iter().map(|c| c.len()).collect();
    assert_eq!(sizes, vec![4, 3, 3]);
    let flat: Vec<u32> = chunks.into_iter().flatten().collect();
    assert_eq!(flat, (0..10).collect::<Vec<u32>>());
}

#[test]
fn relative_pair_defaults_target_to_source() {
    let pair = UploadPair::from_uploadpair_string("playground");
    assert_eq!(pair.source.to_string(), "playground");
    assert_eq!(pair.target.to_string(), "playground");
}

#[test]
fn pair_with_dot_target_keeps_the_empty_target() {
    let pair = UploadPair::from_uploadpair_string("playground:.");
    assert_eq!(pair.source.to_string(), "playground");
    assert_eq!(pair.target.to_string(), "");
    assert!(!pair.target.abs);
}

#[test]
fn pair_splits_on_the_first_colon_and_trims() {
    let pair = UploadPair::from_uploadpair_string("  src : /srv/dst ");
    assert_eq!(pair.source.to_string(), "src");
    assert_eq!(pair.target.to_string(), "/srv/dst");
    assert!(pair.target.abs);
}

#[test]
fn pair_with_absolute_source_and_explicit_target() {
    let pair = UploadPair::new(
        SyncPath::parse("/home/me/src"),
        Some(SyncPath::parse("deploy")),
    );
    assert_eq!(pair.source.to_string(), "/home/me/src");
    assert_eq!(pair.target.to_string(), "deploy");
}

#[test]
fn pair_with_empty_target_after_colon() {
    let pair = UploadPair::from_uploadpair_string("src:");
    assert_eq!(pair.source.to_string(), "src");
    assert_eq!(pair.target.to_string(), "");
}

#[test]
fn pair_target_keeps_everything_after_the_first_colon() {
    let pair = UploadPair::from_uploadpair_string("a:b:c");
    assert_eq!(pair.source.to_string(), "a");
    assert_eq!(pair.target.to_string(), "b:c");
}

#[test]
fn one_chunk_takes_the_whole_batch() {
    let chunks = split_to_n_chunks(vec![7, 8, 9], 1);
    assert_eq!(chunks, vec![vec![7, 8, 9]]);
}

#[test]
fn an_empty_batch_gives_empty_chunks() {
    let chunks = split_to_n_chunks(Vec::<u8>::new(), 3);
    assert_eq!(chunks, vec![Vec::<u8>::new(), Vec::new(), Vec::new()]);
}
