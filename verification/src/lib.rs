//! Verified core of a directory-tree cleanup utility.
//!
//! The library works on a read-only snapshot of a directory tree: a flat
//! list of paths, each tagged as a file or a folder.  A matcher selects the
//! directories whose immediate children satisfy a declarative rule set, and
//! a cleaner removes the build-artifact folder of each selected directory,
//! collecting per-directory failures without aborting the batch.  The
//! surrounding program builds the snapshot from the real filesystem and
//! performs the real removals; every decision in between is proved here.

pub mod cleaner;
pub mod fs_model;
pub mod matcher;

pub use cleaner::artifact_path;
pub use cleaner::clean_tree;
pub use cleaner::collect_failures;
pub use cleaner::run_sweep;
pub use cleaner::CleanFailure;
pub use fs_model::EntryKind;
pub use fs_model::FsEntry;
pub use fs_model::FsTree;
pub use matcher::find_matching_directories;
pub use matcher::RequiredEntry;
