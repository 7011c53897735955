//! Verified core of a tool that packs the files changed between two commits
//! of a Git repository into a ZIP archive.
//!
//! The library decides which Git commands to run, in which order, and what
//! their output means; the program around it performs the commands, the file
//! system work and the archive writing, and hands the outcomes back.

pub mod archive;
pub mod git;
pub mod laws;
pub mod outcomes;
pub mod protocol;
pub mod records;
pub mod text;

pub use archive::{
    create_zip_next, create_zip_overflows, create_zip_step, lowered_excluded, manifest_content, readme_content,
    select_candidates,
};
pub use git::{
    changed_files_in, changed_files_next, commit_info_next, commit_summary_of, fetch_next,
    history_items, history_next, log_failure_message, repo_root_next, validate_git_next,
    validate_repo_next,
};
pub use protocol::{
    Compression, Effect, GitCommand, GitRun, ReadFailure, Reply, Step, ENTRY_PERMISSIONS,
};
pub use records::{ChangedFiles, CommitHistoryItem, CommitInfo, GitVersion};
pub use text::clean_path;
