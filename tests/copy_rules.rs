use make_sysroot::filter::{is_excluded, is_included, passes_filters};
use make_sysroot::{is_file_newer, is_filesize_different, CopyBuilder, EntryAction, EntryKind, EntryMeta};

fn meta(modified: Option<i128>, len: u64) -> EntryMeta {
    EntryMeta { modified, len }
}

#[test]
fn empty_filters_include_every_path() {
    let none: Vec<String> = Vec::new();
    for p in ["", "/", "/usr/lib/libc.so", "etc"] {
        assert!(!is_excluded(p, &none));
        assert!(is_included(p, &none));
        assert!(passes_filters(p, &none, &none));
    }
}

#[test]
fn exclude_wins_over_include() {
    let inc = vec!["/src/usr".to_string()];
    let exc = vec!["share".to_string()];
    assert!(is_included("/src/usr/share/doc", &inc));
    assert!(is_excluded("/src/usr/share/doc", &exc));
    assert!(!passes_filters("/src/usr/share/doc", &inc, &exc));
    assert!(passes_filters("/src/usr/lib/libm.so", &inc, &exc));
    assert!(!passes_filters("/src/etc/hosts", &inc, &exc));
}

#[test]
fn filters_match_substrings_across_components() {
    let exc = vec!["et".to_string()];
    assert!(is_excluded("/src/target/x", &exc));
    let exc2 = vec!["usr/li".to_string()];
    assert!(is_excluded("/src/usr/lib/a", &exc2));
    assert!(!is_excluded("/src/usr/bin/a", &exc2));
}

#[test]
fn overwrite_all_always_copies() {
    let b = CopyBuilder::new("/src", "/dst").overwrite(true);
    let old = meta(Some(10), 5);
    let new = meta(Some(20), 5);
    assert!(b.should_copy(Some(old), Some(new)));
    assert!(b.should_copy(Some(new), Some(new)));
    assert!(b.should_copy(None, Some(new)));
    assert!(b.should_copy(Some(new), None));
}

#[test]
fn missing_destination_is_always_copied() {
    let b = CopyBuilder::new("/src", "/dst");
    assert!(b.should_copy(Some(meta(Some(1), 1)), None));
}

#[test]
fn existing_destination_kept_without_flags() {
    let b = CopyBuilder::new("/src", "/dst");
    let a = meta(Some(100), 7);
    let d = meta(Some(1), 3);
    assert!(!b.should_copy(Some(a), Some(d)));
    assert_eq!(b.plan_entry("/src/bin/ls", EntryKind::File, Some(a), Some(d), false), EntryAction::Skip);
}

#[test]
fn newer_and_size_checks_combine_with_or() {
    let b = CopyBuilder::new("/src", "/dst").overwrite_if_newer(true).overwrite_if_size_differs(true);
    // newer, same size
    assert!(b.should_copy(Some(meta(Some(5), 1)), Some(meta(Some(4), 1))));
    // older, other size
    assert!(b.should_copy(Some(meta(Some(3), 2)), Some(meta(Some(4), 1))));
    // older, same size
    assert!(!b.should_copy(Some(meta(Some(3), 1)), Some(meta(Some(4), 1))));
}

#[test]
fn only_enabled_checks_count() {
    let newer = CopyBuilder::new("/src", "/dst").overwrite_if_newer(true);
    assert!(!newer.should_copy(Some(meta(Some(3), 2)), Some(meta(Some(4), 1))));
    let size = CopyBuilder::new("/src", "/dst").overwrite_if_size_differs(true);
    assert!(!size.should_copy(Some(meta(Some(5), 1)), Some(meta(Some(4), 1))));
    assert!(size.should_copy(Some(meta(Some(5), 2)), Some(meta(Some(4), 1))));
}

#[test]
fn newer_needs_both_timestamps() {
    assert!(is_file_newer(Some(meta(Some(2), 0)), Some(meta(Some(1), 0))));
    assert!(!is_file_newer(Some(meta(Some(1), 0)), Some(meta(Some(1), 0))));
    assert!(!is_file_newer(Some(meta(None, 0)), Some(meta(Some(1), 0))));
    assert!(!is_file_newer(Some(meta(Some(2), 0)), Some(meta(None, 0))));
    assert!(!is_file_newer(None, Some(meta(Some(1), 0))));
    assert!(is_file_newer(Some(meta(Some(-1), 0)), Some(meta(Some(-2), 0))));
}

#[test]
fn size_difference_needs_both_entries() {
    assert!(is_filesize_different(Some(meta(None, 1)), Some(meta(None, 2))));
    assert!(!is_filesize_different(Some(meta(None, 2)), Some(meta(None, 2))));
    assert!(!is_filesize_different(None, Some(meta(None, 2))));
    assert!(!is_filesize_different(Some(meta(None, 2)), None));
}

#[test]
fn excluded_etc_is_not_copied() {
    let b = CopyBuilder::new("/src", "/dst").with_exclude_filter("etc");
    let ls = meta(Some(1), 100);
    let passwd = meta(Some(1), 50);
    assert_eq!(b.plan_entry("/src/bin/ls", EntryKind::File, Some(ls), None, false), EntryAction::CopyFile);
    assert_eq!(b.plan_entry("/src/etc/passwd", EntryKind::File, Some(passwd), None, false), EntryAction::Skip);
}

#[test]
fn newer_source_overwrites_older_destination() {
    let b = CopyBuilder::new("/src", "/dst").overwrite_if_newer(true);
    let src = meta(Some(2_000_000_000), 100);
    let dst = meta(Some(1_000_000_000), 100);
    assert_eq!(b.plan_entry("/src/bin/ls", EntryKind::File, Some(src), Some(dst), false), EntryAction::CopyFile);
    assert_eq!(b.plan_entry("/src/bin/ls", EntryKind::File, Some(dst), Some(src), false), EntryAction::Skip);
}

#[test]
fn second_pass_leaves_copies_alone() {
    let b = CopyBuilder::new("/src", "/dst").overwrite_if_newer(true).overwrite_if_size_differs(true);
    let src = meta(Some(50), 100);
    assert_eq!(b.plan_entry("/src/a", EntryKind::File, Some(src), None, false), EntryAction::CopyFile);
    let copied = meta(Some(60), 100);
    assert_eq!(b.plan_entry("/src/a", EntryKind::File, Some(src), Some(copied), false), EntryAction::Skip);
    assert_eq!(b.plan_entry("/src/d", EntryKind::Directory, Some(src), None, false), EntryAction::CreateDir);
    assert_eq!(b.plan_entry("/src/d", EntryKind::Directory, Some(src), Some(copied), true), EntryAction::Skip);
}

#[test]
fn entry_kinds_map_to_actions() {
    let b = CopyBuilder::new("/src", "/dst");
    let m = meta(Some(1), 1);
    assert_eq!(b.plan_entry("/src/l", EntryKind::Symlink, Some(m), None, false), EntryAction::CopySymlink);
    assert_eq!(b.plan_entry("/src/fifo", EntryKind::Other, Some(m), None, false), EntryAction::Unsupported);
    assert_eq!(b.plan_entry("/src/gone", EntryKind::File, None, None, false), EntryAction::Skip);
}

#[test]
fn include_filters_restrict_copies() {
    let b = CopyBuilder::new("/src", "/dst").with_include_filter("/src/usr").with_include_filter("/src/lib");
    let m = meta(Some(1), 1);
    assert!(b.passes("/src/usr/bin/cc"));
    assert!(b.passes("/src/lib/libc.so"));
    assert!(!b.passes("/src/etc/hosts"));
    assert_eq!(b.plan_entry("/src/etc/hosts", EntryKind::File, Some(m), None, false), EntryAction::Skip);
}

#[test]
fn builder_keeps_paths() {
    let b = CopyBuilder::new("/a/src", "/b/dst");
    assert_eq!(b.source, "/a/src");
    assert_eq!(b.destination, "/b/dst");
}

#[test]
fn walk_skips_destination() {
    assert!(!make_sysroot::copier::descends_into("/src/out", "/src/out"));
    assert!(make_sysroot::copier::descends_into("/src/outer", "/src/out"));
}
