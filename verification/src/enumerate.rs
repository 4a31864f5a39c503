//! The path enumerator: the one-shot walk over the watched root that
//! produces the set of filesystem entries to monitor.
//!
//! The walk itself — reading directories, resolving links — is I/O and stays
//! with the application, which reads the root once into a plain
//! [`FsEntry`] snapshot: every entry with its name, its kind and its
//! children, hidden entries included, symbolic links followed (a link to a
//! directory carries the target's entries as its children), and entries that
//! could not be read marked as such. This module walks that snapshot and
//! yields the full path of every readable entry, with no depth or size
//! ceiling; an unreadable entry is skipped — logged by the application —
//! without aborting the enumeration.

use vstd::prelude::*;
use vstd::string::StringExecFns;

verus! {

/// What kind of filesystem entry a snapshot node describes.
pub enum EntryKind {
    /// A regular file.
    File,
    /// A directory; its entries are the node's children.
    Directory,
    /// A symbolic link, followed: a link to a directory carries the target's
    /// entries as the node's children.
    Symlink,
    /// An entry that could not be read (permission denied, broken link);
    /// skipped, and never descended into.
    Unreadable,
}

/// One node of the filesystem snapshot taken at startup.
pub struct FsEntry {
    /// The entry's name: the root's full path for the root node, a bare
    /// (possibly hidden) file name below it.
    pub name: String,
    /// What the entry is.
    pub kind: EntryKind,
    /// The entries below this one; empty for files.
    pub children: Vec<FsEntry>,
}

/// A name appended to a path prefix; the empty prefix starts the path.
pub open spec fn joined(prefix: Seq<char>, name: Seq<char>) -> Seq<char> {
    if prefix.len() == 0 {
        name
    } else {
        prefix + "/"@ + name
    }
}

/// Every path an entry contributes below `prefix`: its own, then all of its
/// descendants', in depth-first order — nothing for an unreadable entry.
pub open spec fn entry_paths(e: FsEntry, prefix: Seq<char>) -> Seq<Seq<char>>
    decreases e,
{
    if e.kind is Unreadable {
        Seq::empty()
    } else {
        seq![joined(prefix, e.name@)] + child_paths(e.children@, joined(prefix, e.name@))
    }
}

/// The paths a sequence of sibling entries contributes below `prefix`.
pub open spec fn child_paths(cs: Seq<FsEntry>, prefix: Seq<char>) -> Seq<Seq<char>>
    decreases cs,
{
    if cs.len() == 0 {
        Seq::empty()
    } else {
        entry_paths(cs[0], prefix) + child_paths(cs.drop_first(), prefix)
    }
}

/// The views of a sequence of strings.
pub open spec fn views_of(v: Seq<String>) -> Seq<Seq<char>> {
    v.map_values(|s: String| s@)
}

proof fn lemma_child_paths_snoc(cs: Seq<FsEntry>, e: FsEntry, prefix: Seq<char>)
    ensures
        child_paths(cs.push(e), prefix) == child_paths(cs, prefix) + entry_paths(e, prefix),
    decreases cs.len(),
{
    let s = cs.push(e);
    if cs.len() == 0 {
        assert(s[0] == e);
        assert(s.drop_first() =~= Seq::<FsEntry>::empty());
        assert(child_paths(s, prefix) == entry_paths(e, prefix) + child_paths(
            Seq::<FsEntry>::empty(),
            prefix,
        ));
        assert(child_paths(s, prefix) =~= entry_paths(e, prefix));
        assert(child_paths(cs, prefix) + entry_paths(e, prefix) =~= entry_paths(e, prefix));
    } else {
        assert(s[0] == cs[0]);
        assert(s.drop_first() =~= cs.drop_first().push(e));
        lemma_child_paths_snoc(cs.drop_first(), e, prefix);
        assert(child_paths(s, prefix) == entry_paths(cs[0], prefix) + child_paths(
            cs.drop_first().push(e),
            prefix,
        ));
        assert(child_paths(s, prefix) =~= child_paths(cs, prefix) + entry_paths(e, prefix));
    }
}

/// A name appended to a path prefix, as executable code.
pub fn join_path(prefix: &str, name: &str) -> (r: String)
    ensures
        r@ == joined(prefix@, name@),
{
    if prefix.is_empty() {
        name.to_owned()
    } else {
        let mut s = prefix.to_owned();
        s.append("/");
        s.append(name);
        s
    }
}

fn push_entry_paths(e: &FsEntry, prefix: &str, out: &mut Vec<String>)
    ensures
        views_of(final(out)@) == views_of(old(out)@) + entry_paths(*e, prefix@),
    decreases *e,
{
    match e.kind {
        EntryKind::Unreadable => {
            proof {
                assert(views_of(out@) =~= views_of(out@) + entry_paths(*e, prefix@));
            }
            return ;
        },
        _ => {},
    }
    let ghost base: Seq<String> = out@;
    let p = join_path(prefix, e.name.as_str());
    let copy = p.clone();
    out.push(copy);
    proof {
        assert(views_of(out@) =~= views_of(base) + seq![joined(prefix@, e.name@)]);
    }
    let ghost here: Seq<Seq<char>> = views_of(base) + seq![joined(prefix@, e.name@)];
    let n = e.children.len();
    let mut i: usize = 0;
    while i < n
        invariant
            i <= n,
            n == e.children.len(),
            p@ == joined(prefix@, e.name@),
            views_of(out@) == here + child_paths(e.children@.take(i as int), p@),
        decreases n - i,
    {
        let ghost before: Seq<String> = out@;
        proof {
            assert(decreases_to!(*e => e.children));
            assert(decreases_to!(e.children => e.children@[i as int]));
        }
        push_entry_paths(&e.children[i], p.as_str(), out);
        proof {
            lemma_child_paths_snoc(e.children@.take(i as int), e.children@[i as int], p@);
            assert(e.children@.take(i as int + 1) =~= e.children@.take(i as int).push(
                e.children@[i as int],
            ));
            assert(views_of(out@) =~= here + child_paths(e.children@.take(i as int + 1), p@));
        }
        i = i + 1;
    }
    proof {
        assert(e.children@.take(n as int) =~= e.children@);
        assert(views_of(out@) =~= views_of(base) + entry_paths(*e, prefix@));
    }
}

/// Walk the snapshot rooted at `root` — whose name is the watched root's
/// full path — and produce the full path of every readable entry in it, in
/// depth-first order: the watch set.
pub fn enumerate(root: &FsEntry) -> (paths: Vec<String>)
    ensures
        views_of(paths@) == entry_paths(*root, Seq::<char>::empty()),
{
    let mut out: Vec<String> = Vec::new();
    proof {
        reveal_strlit("");
        assert(""@ =~= Seq::<char>::empty());
        assert(views_of(out@) =~= Seq::<Seq<char>>::empty());
    }
    push_entry_paths(root, "", &mut out);
    proof {
        assert(views_of(out@) =~= entry_paths(*root, Seq::<char>::empty()));
    }
    out
}

/// Law: the enumeration of a readable entry always contains the entry's own
/// path, whatever its name — hidden entries are not filtered out.
pub proof fn lemma_entry_included(e: FsEntry, prefix: Seq<char>)
    requires
        !(e.kind is Unreadable),
    ensures
        entry_paths(e, prefix).contains(joined(prefix, e.name@)),
{
    assert(entry_paths(e, prefix)[0] == joined(prefix, e.name@));
}

proof fn lemma_child_paths_member(cs: Seq<FsEntry>, i: int, prefix: Seq<char>, path: Seq<char>)
    requires
        0 <= i < cs.len(),
        entry_paths(cs[i], prefix).contains(path),
    ensures
        child_paths(cs, prefix).contains(path),
    decreases i,
{
    if i == 0 {
        let j = choose|j: int|
            0 <= j < entry_paths(cs[0], prefix).len() && entry_paths(cs[0], prefix)[j] == path;
        assert(child_paths(cs, prefix)[j] == path);
    } else {
        lemma_child_paths_member(cs.drop_first(), i - 1, prefix, path);
        let j = choose|j: int|
            0 <= j < child_paths(cs.drop_first(), prefix).len() && child_paths(
                cs.drop_first(),
                prefix,
            )[j] == path;
        assert(child_paths(cs, prefix)[entry_paths(cs[0], prefix).len() + j] == path);
    }
}

/// Law: enumeration skips nothing but unreadable entries. The path of every
/// readable child of a readable entry stands in that entry's enumeration —
/// a hidden child and the entries of a followed link target alike, since a
/// child's name and kind play no part in its inclusion.
pub proof fn lemma_child_included(e: FsEntry, i: int, prefix: Seq<char>)
    requires
        !(e.kind is Unreadable),
        0 <= i < e.children@.len(),
        !(e.children@[i].kind is Unreadable),
    ensures
        entry_paths(e, prefix).contains(
            joined(joined(prefix, e.name@), e.children@[i].name@),
        ),
{
    let here = joined(prefix, e.name@);
    lemma_entry_included(e.children@[i], here);
    lemma_child_paths_member(e.children@, i, here, joined(here, e.children@[i].name@));
    let j = choose|j: int|
        0 <= j < child_paths(e.children@, here).len() && child_paths(e.children@, here)[j]
            == joined(here, e.children@[i].name@);
    assert(entry_paths(e, prefix)[1 + j] == joined(here, e.children@[i].name@));
}

} // verus!
