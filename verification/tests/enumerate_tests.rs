use gish::enumerate::{enumerate, join_path, EntryKind, FsEntry};

fn file(name: &str) -> FsEntry {
    FsEntry { name: String::from(name), kind: EntryKind::File, children: Vec::new() }
}

fn dir(name: &str, children: Vec<FsEntry>) -> FsEntry {
    FsEntry { name: String::from(name), kind: EntryKind::Directory, children }
}

fn link(name: &str, children: Vec<FsEntry>) -> FsEntry {
    FsEntry { name: String::from(name), kind: EntryKind::Symlink, children }
}

fn unreadable(name: &str, children: Vec<FsEntry>) -> FsEntry {
    FsEntry { name: String::from(name), kind: EntryKind::Unreadable, children }
}

#[test]
fn enumeration_includes_hidden_entries_and_link_targets() {
    // A root with a hidden file and a symbolic link to an external
    // directory: the hidden file and the link target's contents are both in
    // the watch set.
    let root = dir(
        "/repo",
        vec![
            file(".hidden"),
            link("ext", vec![file("inside.txt"), file(".also-hidden")]),
            file("a.txt"),
        ],
    );
    let paths = enumerate(&root);
    assert_eq!(
        paths,
        vec![
            "/repo",
            "/repo/.hidden",
            "/repo/ext",
            "/repo/ext/inside.txt",
            "/repo/ext/.also-hidden",
            "/repo/a.txt",
        ]
    );
}

#[test]
fn enumeration_is_depth_first_with_no_depth_ceiling() {
    let root = dir(
        "/r",
        vec![dir("a", vec![dir("b", vec![dir("c", vec![file("deep.txt")])])]), file("z")],
    );
    let paths = enumerate(&root);
    assert_eq!(paths, vec!["/r", "/r/a", "/r/a/b", "/r/a/b/c", "/r/a/b/c/deep.txt", "/r/z"]);
}

#[test]
fn unreadable_entries_are_skipped_without_aborting() {
    // An entry that cannot be read is skipped, subtree included, and the
    // walk continues with its siblings.
    let root = dir(
        "/repo",
        vec![file("ok.txt"), unreadable("denied", vec![file("invisible.txt")]), file("last.txt")],
    );
    let paths = enumerate(&root);
    assert_eq!(paths, vec!["/repo", "/repo/ok.txt", "/repo/last.txt"]);
}

#[test]
fn unreadable_root_enumerates_nothing() {
    let root = unreadable("/gone", vec![file("a")]);
    let paths = enumerate(&root);
    assert!(paths.is_empty());
}

#[test]
fn join_path_starts_from_the_empty_prefix() {
    assert_eq!(join_path("", "/repo"), "/repo");
    assert_eq!(join_path("/repo", ".hidden"), "/repo/.hidden");
}
