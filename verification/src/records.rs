use vstd::prelude::*;

use crate::text::strings;

verus! {

/// Whether a Git executable answered `--version`, and what it answered.
#[derive(Debug, PartialEq, Eq)]
pub struct GitVersion {
    pub valid: bool,
    pub version: String,
}

/// The commit (or range of commits) that an archive is made from, as shown
/// to the user.
#[derive(Debug, PartialEq, Eq)]
pub struct CommitInfo {
    pub hash: String,
    pub message: String,
}

/// One commit of the history list: its position from `HEAD`, its hash, its
/// subject line and its author date.
#[derive(Debug, Clone, PartialEq, Eq)]
pub struct CommitHistoryItem {
    pub index: u32,
    pub hash: String,
    pub message: String,
    pub date: String,
}

/// The paths, relative to the repository root, of the files that changed.
#[derive(Debug, PartialEq, Eq)]
pub struct ChangedFiles {
    pub files: Vec<String>,
}

/// The model of a `GitVersion`.
pub struct VersionView {
    pub valid: bool,
    pub version: Seq<char>,
}

/// The model of a `CommitInfo`.
pub struct InfoView {
    pub hash: Seq<char>,
    pub message: Seq<char>,
}

/// The model of a `CommitHistoryItem`.
pub struct EntryView {
    pub index: u32,
    pub hash: Seq<char>,
    pub message: Seq<char>,
    pub date: Seq<char>,
}

impl DeepView for GitVersion {
    type V = VersionView;

    open spec fn deep_view(&self) -> VersionView {
        VersionView { valid: self.valid, version: self.version@ }
    }
}

impl DeepView for CommitInfo {
    type V = InfoView;

    open spec fn deep_view(&self) -> InfoView {
        InfoView { hash: self.hash@, message: self.message@ }
    }
}

impl DeepView for CommitHistoryItem {
    type V = EntryView;

    open spec fn deep_view(&self) -> EntryView {
        EntryView {
            index: self.index,
            hash: self.hash@,
            message: self.message@,
            date: self.date@,
        }
    }
}

impl DeepView for ChangedFiles {
    type V = Seq<Seq<char>>;

    open spec fn deep_view(&self) -> Seq<Seq<char>> {
        strings(self.files@)
    }
}

} // verus!
