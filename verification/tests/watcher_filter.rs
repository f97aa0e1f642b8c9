use dev_uploader::filter::{
    build_change_batch, collect_initial_files, match_event_by_tags, EventFileKind, EventTag,
    FilterSpec, ScanEntry,
};

fn path_tag(path: &str) -> EventTag {
    EventTag::PathTag { path: String::from(path), is_dir: false }
}

fn kind_tag(kind: EventFileKind) -> EventTag {
    EventTag::FileEventTag { kind }
}

#[test]
fn ignore_ends_filter_drops_the_map_file() {
    let includes: Vec<String> = vec![];
    let ends = vec![String::from(".js.map")];
    let tags_js = vec![
        EventTag::SourceTag,
        kind_tag(EventFileKind::ModifyData),
        path_tag("/w/dist/app.js"),
    ];
    assert_eq!(
        match_event_by_tags(&tags_js, &includes, &ends),
        Some(String::from("/w/dist/app.js"))
    );
    let tags_map = vec![
        EventTag::SourceTag,
        kind_tag(EventFileKind::ModifyData),
        path_tag("/w/dist/app.js.map"),
    ];
    assert_eq!(match_event_by_tags(&tags_map, &includes, &ends), None);
}

#[test]
fn ignore_includes_filter_drops_matching_paths() {
    let includes = vec![String::from(".git/")];
    let ends: Vec<String> = vec![];
    let tags = vec![kind_tag(EventFileKind::ModifyData), path_tag("/w/.git/HEAD")];
    assert_eq!(match_event_by_tags(&tags, &includes, &ends), None);
}

#[test]
fn rejected_event_kinds_yield_no_path() {
    let includes: Vec<String> = vec![];
    let ends: Vec<String> = vec![];
    for kind in [
        EventFileKind::AccessKind,
        EventFileKind::ModifyMetadata,
        EventFileKind::RemoveKind,
        EventFileKind::OtherKind,
    ] {
        let tags = vec![path_tag("/w/a.txt"), kind_tag(kind)];
        assert_eq!(match_event_by_tags(&tags, &includes, &ends), None);
    }
    for kind in [
        EventFileKind::AnyKind,
        EventFileKind::CreateKind,
        EventFileKind::ModifyAny,
        EventFileKind::ModifyData,
        EventFileKind::ModifyName,
        EventFileKind::ModifyOther,
    ] {
        let tags = vec![path_tag("/w/a.txt"), kind_tag(kind)];
        assert_eq!(
            match_event_by_tags(&tags, &includes, &ends),
            Some(String::from("/w/a.txt"))
        );
    }
}

#[test]
fn directory_paths_and_signal_tags_are_dropped() {
    let includes: Vec<String> = vec![];
    let ends: Vec<String> = vec![];
    let dir_tags = vec![EventTag::PathTag { path: String::from("/w/sub"), is_dir: true }];
    assert_eq!(match_event_by_tags(&dir_tags, &includes, &ends), None);
    let sig_tags = vec![path_tag("/w/a.txt"), EventTag::SignalTag];
    assert_eq!(match_event_by_tags(&sig_tags, &includes, &ends), None);
    let kb_tags = vec![EventTag::KeyboardTag];
    assert_eq!(match_event_by_tags(&kb_tags, &includes, &ends), None);
    let quiet_tags = vec![EventTag::SourceTag, EventTag::ProcessTag];
    assert_eq!(match_event_by_tags(&quiet_tags, &includes, &ends), None);
}

#[test]
fn initial_scan_keeps_three_of_five_entries() {
    let filter = FilterSpec {
        ignore_includes: vec![String::from(".git/")],
        ignore_ends: vec![],
    };
    let entries = vec![
        ScanEntry { path: String::from("/root/a.rs"), is_file: true },
        ScanEntry { path: String::from("/root/b.rs"), is_file: true },
        ScanEntry { path: String::from("/root/sub"), is_file: false },
        ScanEntry { path: String::from("/root/sub/c.rs"), is_file: true },
        ScanEntry { path: String::from("/root/.git/HEAD"), is_file: true },
    ];
    let kept = collect_initial_files(&entries, &filter);
    assert_eq!(kept, vec!["/root/a.rs", "/root/b.rs", "/root/sub/c.rs"]);
}

#[test]
fn change_batch_deduplicates_and_keeps_only_absolute_paths() {
    let paths = vec![
        String::from("/a/x.txt"),
        String::from("relative.txt"),
        String::from("/a/x.txt"),
        String::from("/b/y.txt"),
        String::from("/a//x.txt"),
    ];
    let batch = build_change_batch(&paths);
    let rendered: Vec<String> = batch.iter().map(|p| p.to_string()).collect();
    assert_eq!(rendered, vec!["/a/x.txt", "/b/y.txt"]);
    assert!(batch.iter().all(|p| p.abs));
}
