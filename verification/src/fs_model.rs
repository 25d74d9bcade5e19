//! A flat model of a directory tree.
//!
//! A snapshot lists every entry of the tree as a full path string tagged
//! with its kind.  Paths are opaque: the model only joins them with a `/`
//! separator and compares them, so the snapshot can hold whatever path
//! strings the host filesystem produced.

use vstd::prelude::*;
use vstd::string::*;

verus! {

/// Whether a filesystem entry is a regular file or a directory.
#[derive(Clone, Copy, PartialEq, Eq, Structural, Debug)]
pub enum EntryKind {
    File,
    Folder,
}

/// One entry of a snapshot: a full path and the kind it has on disk.
#[verifier::ext_equal]
pub struct FsEntry {
    pub path: String,
    pub kind: EntryKind,
}

/// A read-only snapshot of a directory tree, in discovery order (each
/// directory before everything beneath it, the root first).
pub struct FsTree {
    pub entries: Vec<FsEntry>,
}

impl View for FsTree {
    type V = Seq<FsEntry>;

    open spec fn view(&self) -> Seq<FsEntry> {
        self.entries@
    }
}

/// The path of the child of `dir` named `name`.
pub open spec fn join_spec(dir: Seq<char>, name: Seq<char>) -> Seq<char> {
    dir + seq!['/'] + name
}

/// The snapshot holds an entry at `path` of kind `kind`.
pub open spec fn tree_has(t: Seq<FsEntry>, path: Seq<char>, kind: EntryKind) -> bool {
    exists|i: int| 0 <= i < t.len() && t[i].path@ == path && t[i].kind == kind
}

/// The snapshot holds a directory at `path`.
pub open spec fn is_dir_in(t: Seq<FsEntry>, path: Seq<char>) -> bool {
    tree_has(t, path, EntryKind::Folder)
}

/// `path` lies in the subtree rooted at `root`: it is `root` itself, or a
/// path below it.
pub open spec fn under(root: Seq<char>, path: Seq<char>) -> bool {
    ||| path == root
    ||| (path.len() > root.len() && path.take(root.len() as int) == root && path[root.len() as int]
        == '/')
}

/// The sequence of path views of a vector of path strings.
pub open spec fn paths_view(v: Seq<String>) -> Seq<Seq<char>> {
    v.map_values(|s: String| s@)
}

/// Join `dir` and `name` with a separator, as the filesystem join of a
/// single relative component.
pub fn join_path(dir: &String, name: &str) -> (r: String)
    ensures
        r@ == join_spec(dir@, name@),
{
    let mut r = dir.clone();
    r.append("/");
    r.append(name);
    proof {
        reveal_strlit("/");
        assert("/"@ =~= seq!['/']);
        assert(r@ =~= join_spec(dir@, name@));
    }
    r
}

/// Scan the snapshot for an entry at `path` of kind `kind`.
pub fn tree_contains(tree: &FsTree, path: &String, kind: EntryKind) -> (r: bool)
    ensures
        r == tree_has(tree@, path@, kind),
{
    let mut i: usize = 0;
    while i < tree.entries.len()
        invariant
            i <= tree.entries.len(),
            forall|j: int| 0 <= j < i ==> !(tree@[j].path@ == path@ && tree@[j].kind == kind),
        decreases tree.entries.len() - i,
    {
        let e = &tree.entries[i];
        if e.kind == kind && e.path == *path {
            return true;
        }
        i = i + 1;
    }
    false
}

/// Decide whether `p` lies in the subtree rooted at `root`.
pub fn path_is_under(root: &String, p: &String) -> (b: bool)
    ensures
        b == under(root@, p@),
{
    let rl = root.as_str().unicode_len();
    let pl = p.as_str().unicode_len();
    if pl <= rl {
        return *p == *root;
    }
    let prefix = String::from_str(p.as_str().substring_char(0, rl));
    let sep = p.as_str().get_char(rl);
    prefix == *root && sep == '/'
}

} // verus!
