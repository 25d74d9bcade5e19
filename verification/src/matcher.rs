//! The structural matcher.
//!
//! Given a snapshot and an ordered list of required-entry rules, the
//! matcher returns the paths of exactly the directories whose immediate
//! children satisfy every rule, in discovery order.  Rule order never
//! changes the result: the rules are a logical conjunction, and evaluation
//! only short-circuits on the first failure.

use vstd::prelude::*;
use crate::fs_model::is_dir_in;
use crate::fs_model::join_path;
use crate::fs_model::join_spec;
use crate::fs_model::paths_view;
use crate::fs_model::tree_contains;
use crate::fs_model::tree_has;
use crate::fs_model::EntryKind;
use crate::fs_model::FsEntry;
use crate::fs_model::FsTree;

verus! {

/// A rule: the candidate directory must have an immediate child named
/// `name`, of kind `kind`.
pub struct RequiredEntry {
    pub kind: EntryKind,
    pub name: String,
}

/// Rule `r` holds of the directory at `dir`: the child `dir/r.name`
/// exists in the snapshot with the required kind.
pub open spec fn rule_ok(t: Seq<FsEntry>, dir: Seq<char>, r: RequiredEntry) -> bool {
    tree_has(t, join_spec(dir, r.name@), r.kind)
}

/// Every rule of the set holds of the directory at `dir`.
pub open spec fn dir_matches(t: Seq<FsEntry>, dir: Seq<char>, rules: Seq<RequiredEntry>) -> bool {
    forall|i: int| 0 <= i < rules.len() ==> rule_ok(t, dir, rules[i])
}

/// The matching directory paths among the first `n` entries of the
/// snapshot, in order.
pub open spec fn matching_dirs_upto(
    t: Seq<FsEntry>,
    rules: Seq<RequiredEntry>,
    n: int,
) -> Seq<Seq<char>>
    decreases n,
{
    if n <= 0 {
        Seq::empty()
    } else {
        let prev = matching_dirs_upto(t, rules, n - 1);
        if t[n - 1].kind == EntryKind::Folder && dir_matches(t, t[n - 1].path@, rules) {
            prev.push(t[n - 1].path@)
        } else {
            prev
        }
    }
}

/// The paths of the directories of the snapshot that satisfy every rule,
/// in discovery order.
pub open spec fn matching_dirs(t: Seq<FsEntry>, rules: Seq<RequiredEntry>) -> Seq<Seq<char>> {
    matching_dirs_upto(t, rules, t.len() as int)
}

/// Evaluate one rule against a candidate directory.
fn rule_satisfied(tree: &FsTree, dir: &String, r: &RequiredEntry) -> (b: bool)
    ensures
        b == rule_ok(tree@, dir@, *r),
{
    let child = join_path(dir, r.name.as_str());
    tree_contains(tree, &child, r.kind)
}

/// Evaluate the whole rule set against a candidate directory, stopping at
/// the first rule that fails.
fn satisfies_all(tree: &FsTree, dir: &String, rules: &Vec<RequiredEntry>) -> (b: bool)
    ensures
        b == dir_matches(tree@, dir@, rules@),
{
    let mut i: usize = 0;
    while i < rules.len()
        invariant
            i <= rules.len(),
            forall|j: int| 0 <= j < i ==> rule_ok(tree@, dir@, rules@[j]),
        decreases rules.len() - i,
    {
        if !rule_satisfied(tree, dir, &rules[i]) {
            assert(!rule_ok(tree@, dir@, rules@[i as int]));
            return false;
        }
        i = i + 1;
    }
    true
}

/// Walk the snapshot and return the paths of exactly the directories whose
/// immediate children satisfy every rule, in discovery order.  An empty
/// rule set selects every directory; an empty snapshot yields nothing.
pub fn find_matching_directories(tree: &FsTree, rules: &Vec<RequiredEntry>) -> (r: Vec<String>)
    ensures
        paths_view(r@) == matching_dirs(tree@, rules@),
{
    let mut r: Vec<String> = Vec::new();
    let mut i: usize = 0;
    while i < tree.entries.len()
        invariant
            i <= tree.entries.len(),
            paths_view(r@) == matching_dirs_upto(tree@, rules@, i as int),
        decreases tree.entries.len() - i,
    {
        let e = &tree.entries[i];
        let is_folder = match e.kind {
            EntryKind::Folder => true,
            EntryKind::File => false,
        };
        if is_folder && satisfies_all(tree, &e.path, rules) {
            r.push(e.path.clone());
            proof {
                assert(paths_view(r@) =~= matching_dirs_upto(tree@, rules@, i + 1));
            }
        }
        i = i + 1;
    }
    r
}

proof fn lemma_matches_exact_upto(
    t: Seq<FsEntry>,
    rules: Seq<RequiredEntry>,
    n: int,
    p: Seq<char>,
)
    requires
        0 <= n <= t.len(),
    ensures
        matching_dirs_upto(t, rules, n).contains(p) <==> ((exists|i: int|
            0 <= i < n && t[i].path@ == p && t[i].kind == EntryKind::Folder) && dir_matches(
            t,
            p,
            rules,
        )),
    decreases n,
{
    if n > 0 {
        lemma_matches_exact_upto(t, rules, n - 1, p);
        let prev = matching_dirs_upto(t, rules, n - 1);
        let cur = matching_dirs_upto(t, rules, n);
        let e = t[n - 1];
        if e.kind == EntryKind::Folder && dir_matches(t, e.path@, rules) {
            assert(cur == prev.push(e.path@));
            if p == e.path@ {
                assert(cur[cur.len() - 1] == p);
                assert(cur.contains(p));
            } else {
                assert forall|k: int| 0 <= k < cur.len() && cur[k] == p implies prev.contains(
                    p,
                ) by {
                    assert(cur[k] == prev[k]);
                }
                if prev.contains(p) {
                    let k = choose|k: int| 0 <= k < prev.len() && prev[k] == p;
                    assert(cur[k] == p);
                }
            }
        }
    }
}

/// The matcher returns exactly the matching directories: a path is in the
/// result precisely when the snapshot has a directory there whose
/// immediate children satisfy every rule — no false positives, no false
/// negatives.
pub proof fn lemma_matches_exact(t: Seq<FsEntry>, rules: Seq<RequiredEntry>, p: Seq<char>)
    ensures
        matching_dirs(t, rules).contains(p) <==> (is_dir_in(t, p) && dir_matches(t, p, rules)),
{
    lemma_matches_exact_upto(t, rules, t.len() as int, p);
}

/// The rules are a logical conjunction: whether a directory matches
/// depends only on which rules are in the set, never on their order or
/// multiplicity.
pub proof fn lemma_rule_order_irrelevant(
    t: Seq<FsEntry>,
    dir: Seq<char>,
    r1: Seq<RequiredEntry>,
    r2: Seq<RequiredEntry>,
)
    requires
        r1.to_set() == r2.to_set(),
    ensures
        dir_matches(t, dir, r1) == dir_matches(t, dir, r2),
{
    assert forall|a: Seq<RequiredEntry>, b: Seq<RequiredEntry>|
        a.to_set() == b.to_set() && dir_matches(t, dir, a) implies dir_matches(t, dir, b) by {
        assert forall|i: int| 0 <= i < b.len() implies rule_ok(t, dir, b[i]) by {
            assert(b.contains(b[i]));
            assert(a.to_set().contains(b[i]));
            let j = choose|j: int| 0 <= j < a.len() && a[j] == b[i];
            assert(rule_ok(t, dir, a[j]));
        }
    }
}

/// Running the matcher twice on an unchanged snapshot yields the same
/// result, as a sequence and hence as a set.
pub proof fn lemma_matcher_idempotent(
    t: Seq<FsEntry>,
    rules: Seq<RequiredEntry>,
    r1: Seq<Seq<char>>,
    r2: Seq<Seq<char>>,
)
    requires
        r1 == matching_dirs(t, rules),
        r2 == matching_dirs(t, rules),
    ensures
        r1 == r2,
        r1.to_set() == r2.to_set(),
{
}

/// A fully-qualifying project directory nested anywhere inside another
/// one yields both as independent matches.
pub proof fn lemma_nested_matches(
    t: Seq<FsEntry>,
    rules: Seq<RequiredEntry>,
    outer: Seq<char>,
    inner: Seq<char>,
)
    requires
        is_dir_in(t, outer),
        dir_matches(t, outer, rules),
        is_dir_in(t, inner),
        dir_matches(t, inner, rules),
        crate::fs_model::under(outer, inner),
    ensures
        matching_dirs(t, rules).contains(outer),
        matching_dirs(t, rules).contains(inner),
{
    lemma_matches_exact(t, rules, outer);
    lemma_matches_exact(t, rules, inner);
}

} // verus!
