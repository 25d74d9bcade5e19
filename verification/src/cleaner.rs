//! The clean phase.
//!
//! Each matched project directory holds a fixed-name artifact folder; the
//! cleaner removes that subtree from every matched directory, never
//! aborting the batch: a directory whose artifact folder cannot be removed
//! is recorded as a failure and the remaining directories are processed
//! exactly as before.  Removing an absent artifact folder counts as a
//! failure, as a recursive removal of a nonexistent path does.

use vstd::prelude::*;
use crate::fs_model::is_dir_in;
use crate::fs_model::join_path;
use crate::fs_model::join_spec;
use crate::fs_model::paths_view;
use crate::fs_model::path_is_under;
use crate::fs_model::tree_contains;
use crate::fs_model::under;
use crate::fs_model::EntryKind;
use crate::fs_model::FsEntry;
use crate::fs_model::FsTree;
use crate::matcher::find_matching_directories;
use crate::matcher::matching_dirs;
use crate::matcher::RequiredEntry;

verus! {

/// The name of the build-artifact folder removed from each matched
/// project directory.
pub open spec fn artifact_name_spec() -> Seq<char> {
    seq!['t', 'a', 'r', 'g', 'e', 't']
}

/// The fixed artifact folder name.
pub fn artifact_dir_name() -> (s: &'static str)
    ensures
        s@ == artifact_name_spec(),
{
    let s = "target";
    proof {
        reveal_strlit("target");
        assert(s@ =~= artifact_name_spec());
    }
    s
}

/// The path of the artifact folder inside `dir`.
pub open spec fn artifact_path_spec(dir: Seq<char>) -> Seq<char> {
    join_spec(dir, artifact_name_spec())
}

/// Compute the path of the artifact folder inside `dir`.
pub fn artifact_path(dir: &String) -> (r: String)
    ensures
        r@ == artifact_path_spec(dir@),
{
    join_path(dir, artifact_dir_name())
}

/// The snapshot without the first `n` entries' share of the subtree rooted
/// at `root`: of the first `n` entries, those outside that subtree, in
/// order.
pub open spec fn remove_subtree_upto(t: Seq<FsEntry>, root: Seq<char>, n: int) -> Seq<FsEntry>
    decreases n,
{
    if n <= 0 {
        Seq::empty()
    } else {
        let prev = remove_subtree_upto(t, root, n - 1);
        if under(root, t[n - 1].path@) {
            prev
        } else {
            prev.push(t[n - 1])
        }
    }
}

/// The snapshot without the subtree rooted at `root`: every entry at or
/// below `root` is gone, everything else is kept in order.
pub open spec fn remove_subtree_spec(t: Seq<FsEntry>, root: Seq<char>) -> Seq<FsEntry> {
    remove_subtree_upto(t, root, t.len() as int)
}

/// Remove the subtree rooted at `root` from the snapshot, as a recursive
/// directory removal does: it fails, leaving the snapshot unchanged, when
/// `root` is not a directory of the snapshot.
pub fn remove_subtree(tree: &mut FsTree, root: &String) -> (removed: bool)
    ensures
        removed == is_dir_in(old(tree)@, root@),
        removed ==> final (tree)@ == remove_subtree_spec(old(tree)@, root@),
        !removed ==> final (tree)@ == old(tree)@,
{
    if !tree_contains(tree, root, EntryKind::Folder) {
        return false;
    }
    let mut kept: Vec<FsEntry> = Vec::new();
    let mut i: usize = 0;
    while i < tree.entries.len()
        invariant
            i <= tree.entries.len(),
            tree@ == old(tree)@,
            kept@ == remove_subtree_upto(tree@, root@, i as int),
        decreases tree.entries.len() - i,
    {
        let e = &tree.entries[i];
        if !path_is_under(root, &e.path) {
            kept.push(FsEntry { path: e.path.clone(), kind: e.kind });
            proof {
                assert(kept@.last() =~= tree@[i as int]);
                assert(kept@ =~= remove_subtree_upto(tree@, root@, i + 1));
            }
        }
        i = i + 1;
    }
    tree.entries = kept;
    true
}

proof fn lemma_remove_subtree_exact_upto(t: Seq<FsEntry>, root: Seq<char>, n: int, e: FsEntry)
    requires
        0 <= n <= t.len(),
    ensures
        remove_subtree_upto(t, root, n).contains(e) <==> ((exists|i: int| 0 <= i < n && t[i] == e)
            && !under(root, e.path@)),
    decreases n,
{
    if n > 0 {
        lemma_remove_subtree_exact_upto(t, root, n - 1, e);
        let prev = remove_subtree_upto(t, root, n - 1);
        let cur = remove_subtree_upto(t, root, n);
        if !under(root, t[n - 1].path@) {
            assert(cur == prev.push(t[n - 1]));
            if e == t[n - 1] {
                assert(cur[cur.len() - 1] == e);
                assert(cur.contains(e));
            } else {
                assert forall|k: int| 0 <= k < cur.len() && cur[k] == e implies prev.contains(
                    e,
                ) by {
                    assert(cur[k] == prev[k]);
                }
                if prev.contains(e) {
                    let k = choose|k: int| 0 <= k < prev.len() && prev[k] == e;
                    assert(cur[k] == e);
                }
            }
        }
    }
}

/// Removing a subtree removes exactly the subtree: an entry survives the
/// removal precisely when it was in the snapshot and not at or below the
/// removed root — nothing else is deleted, nothing below the root stays.
pub proof fn lemma_remove_subtree_exact(t: Seq<FsEntry>, root: Seq<char>, e: FsEntry)
    ensures
        remove_subtree_spec(t, root).contains(e) <==> (t.contains(e) && !under(root, e.path@)),
{
    lemma_remove_subtree_exact_upto(t, root, t.len() as int, e);
}

/// The clean phase over a snapshot: process the directories front to back;
/// for each, remove its artifact subtree if the artifact folder is a
/// directory of the current snapshot, and otherwise record the directory
/// as a failure and leave the snapshot untouched.  The result is the final
/// snapshot paired with the failed directories, in order.
pub open spec fn clean_spec(t: Seq<FsEntry>, dirs: Seq<Seq<char>>) -> (Seq<FsEntry>, Seq<
    Seq<char>,
>)
    decreases dirs.len(),
{
    if dirs.len() == 0 {
        (t, Seq::empty())
    } else {
        let d = dirs.first();
        let a = artifact_path_spec(d);
        if is_dir_in(t, a) {
            clean_spec(remove_subtree_spec(t, a), dirs.drop_first())
        } else {
            let rest = clean_spec(t, dirs.drop_first());
            (rest.0, seq![d] + rest.1)
        }
    }
}

/// Remove the artifact folder of every listed directory, continuing past
/// failures: every directory is attempted regardless of earlier outcomes,
/// and the paths of the directories whose artifact folder could not be
/// removed come back in order.
pub fn clean_tree(tree: &mut FsTree, dirs: &Vec<String>) -> (failures: Vec<String>)
    ensures
        final (tree)@ == clean_spec(old(tree)@, paths_view(dirs@)).0,
        paths_view(failures@) == clean_spec(old(tree)@, paths_view(dirs@)).1,
{
    let ghost all = paths_view(dirs@);
    let mut failures: Vec<String> = Vec::new();
    proof {
        assert(all.skip(0) =~= all);
        assert(paths_view(failures@) =~= Seq::<Seq<char>>::empty());
        assert(paths_view(failures@) + clean_spec(tree@, all).1 =~= clean_spec(tree@, all).1);
    }
    let mut i: usize = 0;
    while i < dirs.len()
        invariant
            i <= dirs.len(),
            all == paths_view(dirs@),
            clean_spec(old(tree)@, all).0 == clean_spec(tree@, all.skip(i as int)).0,
            clean_spec(old(tree)@, all).1 == paths_view(failures@) + clean_spec(
                tree@,
                all.skip(i as int),
            ).1,
        decreases dirs.len() - i,
    {
        let ghost pending = all.skip(i as int);
        proof {
            assert(pending.len() > 0);
            assert(pending.first() == dirs@[i as int]@);
            assert(pending.drop_first() =~= all.skip(i + 1));
        }
        let a = artifact_path(&dirs[i]);
        let removed = remove_subtree(tree, &a);
        if !removed {
            failures.push(dirs[i].clone());
            proof {
                assert(paths_view(failures@) =~= paths_view(failures@.drop_last()).push(
                    dirs@[i as int]@,
                ));
                assert(paths_view(failures@.drop_last()) + (seq![pending.first()] + clean_spec(
                    tree@,
                    all.skip(i + 1),
                ).1) =~= paths_view(failures@) + clean_spec(tree@, all.skip(i + 1)).1);
            }
        }
        i = i + 1;
    }
    proof {
        assert(all.skip(dirs.len() as int) =~= Seq::<Seq<char>>::empty());
        assert(paths_view(failures@) + Seq::<Seq<char>>::empty() =~= paths_view(failures@));
    }
    failures
}

/// A failed removal changes nothing and aborts nothing: when the artifact
/// folder of the first directory is absent, that directory is reported as
/// a failure and the remaining directories are processed against the very
/// same snapshot, with the very same outcomes, as they would have been
/// without it.
pub proof fn lemma_clean_failure_isolated(t: Seq<FsEntry>, a: Seq<char>, rest: Seq<Seq<char>>)
    requires
        !is_dir_in(t, artifact_path_spec(a)),
    ensures
        clean_spec(t, seq![a] + rest).0 == clean_spec(t, rest).0,
        clean_spec(t, seq![a] + rest).1 == seq![a] + clean_spec(t, rest).1,
{
    let dirs = seq![a] + rest;
    assert(dirs.first() == a);
    assert(dirs.drop_first() =~= rest);
}

/// A failure of the clean phase as the surrounding program reports it:
/// the directory whose artifact folder could not be removed, and the
/// cause the removal gave.
pub struct CleanFailure {
    pub path: String,
    pub cause: String,
}

/// The view of a list of failures: path and cause of each, in order.
pub open spec fn failures_view(v: Seq<CleanFailure>) -> Seq<(Seq<char>, Seq<char>)> {
    v.map_values(|f: CleanFailure| (f.path@, f.cause@))
}

/// The view of a list of per-directory outcomes: `None` is success,
/// `Some` carries the cause of a failure.
pub open spec fn outcomes_view(v: Seq<Option<String>>) -> Seq<Option<Seq<char>>> {
    v.map_values(
        |o: Option<String>|
            match o {
                Option::Some(s) => Option::Some(s@),
                Option::None => Option::<Seq<char>>::None,
            },
    )
}

/// The failures among aligned directories and outcomes: one record per
/// directory whose outcome is a failure, in order, each pairing the
/// directory with its cause.
pub open spec fn collect_spec(dirs: Seq<Seq<char>>, outs: Seq<Option<Seq<char>>>) -> Seq<
    (Seq<char>, Seq<char>),
>
    decreases dirs.len(),
{
    if dirs.len() == 0 || outs.len() == 0 {
        Seq::empty()
    } else {
        let rest = collect_spec(dirs.drop_last(), outs.drop_last());
        match outs.last() {
            Option::Some(cause) => rest.push((dirs.last(), cause)),
            Option::None => rest,
        }
    }
}

/// Pair each directory with the outcome of its own removal attempt and
/// keep exactly the failures, in order.  Each directory is reported from
/// its own outcome alone, so one failure never hides or changes
/// another directory's report.
pub fn collect_failures(dirs: &Vec<String>, outcomes: &Vec<Option<String>>) -> (failures: Vec<
    CleanFailure,
>)
    requires
        dirs@.len() == outcomes@.len(),
    ensures
        failures_view(failures@) == collect_spec(paths_view(dirs@), outcomes_view(outcomes@)),
{
    let ghost dv = paths_view(dirs@);
    let ghost ov = outcomes_view(outcomes@);
    let mut failures: Vec<CleanFailure> = Vec::new();
    let mut i: usize = 0;
    while i < dirs.len()
        invariant
            i <= dirs.len(),
            dirs@.len() == outcomes@.len(),
            dv == paths_view(dirs@),
            ov == outcomes_view(outcomes@),
            failures_view(failures@) == collect_spec(dv.take(i as int), ov.take(i as int)),
        decreases dirs.len() - i,
    {
        proof {
            assert(dv.take(i + 1).drop_last() =~= dv.take(i as int));
            assert(ov.take(i + 1).drop_last() =~= ov.take(i as int));
            assert(dv.take(i + 1).last() == dirs@[i as int]@);
            assert(ov.take(i + 1).last() == ov[i as int]);
        }
        match &outcomes[i] {
            Option::Some(cause) => {
                failures.push(
                    CleanFailure { path: dirs[i].clone(), cause: cause.clone() },
                );
                proof {
                    assert(failures_view(failures@) =~= failures_view(
                        failures@.drop_last(),
                    ).push((dirs@[i as int]@, outcomes@[i as int]->Some_0@)));
                }
            },
            Option::None => {},
        }
        i = i + 1;
    }
    proof {
        assert(dv.take(dirs.len() as int) =~= dv);
        assert(ov.take(dirs.len() as int) =~= ov);
    }
    failures
}

/// One whole sweep over a snapshot: find the matching project
/// directories, then, unless `dry_run` is set, remove each one's artifact
/// folder.  In dry-run mode the matches are still reported but the
/// snapshot is left entirely untouched and no failure is possible.
pub fn run_sweep(tree: &mut FsTree, rules: &Vec<RequiredEntry>, dry_run: bool) -> (r: (
    Vec<String>,
    Vec<String>,
))
    ensures
        paths_view(r.0@) == matching_dirs(old(tree)@, rules@),
        dry_run ==> final (tree)@ == old(tree)@ && r.1@.len() == 0,
        !dry_run ==> final (tree)@ == clean_spec(
            old(tree)@,
            matching_dirs(old(tree)@, rules@),
        ).0 && paths_view(r.1@) == clean_spec(old(tree)@, matching_dirs(old(tree)@, rules@)).1,
{
    let matches = find_matching_directories(tree, rules);
    if dry_run {
        (matches, Vec::new())
    } else {
        let failures = clean_tree(tree, &matches);
        (matches, failures)
    }
}

} // verus!
