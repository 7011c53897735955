use vstd::prelude::*;

use crate::text::strings;

verus! {

/// A Git invocation: the executable, the working directory (where one is
/// set) and the arguments.
#[derive(Debug, PartialEq, Eq)]
pub struct GitCommand {
    pub program: String,
    pub dir: Option<String>,
    pub args: Vec<String>,
}

/// What came of running Git: it could not be started (with the error's
/// text), or it ran and exited.
#[derive(Debug, PartialEq, Eq)]
pub enum GitRun {
    SpawnFailed { error: String },
    Exited { success: bool, stdout: Vec<u8>, stderr: Vec<u8> },
}

/// Why a file could not be read, with the error's text.
#[derive(Debug, PartialEq, Eq)]
pub enum ReadFailure {
    /// Opening it was refused for lack of permission.
    PermissionDenied { detail: String },
    /// Opening it failed for another reason.
    OpenFailed { detail: String },
    /// It was opened, but reading it failed.
    ReadFailed { detail: String },
}

/// How the data of an archive entry is stored.
#[derive(Debug, PartialEq, Eq)]
pub enum Compression {
    Stored,
    Deflated,
}

/// The Unix permissions given to every archive entry (`rwxr-xr-x`).
pub const ENTRY_PERMISSIONS: u32 = 0o755;

/// Work outside the library that a command asks for.
#[derive(Debug, PartialEq, Eq)]
pub enum Effect {
    /// Run Git; answered by `Reply::Git`.
    Git(GitCommand),
    /// Does this path exist? Answered by `Reply::Exists`.
    PathExists { path: String },
    /// Create the directory that is to hold the archive, where there is one
    /// and it is missing; answered by `Reply::Io`.
    PrepareOutputDir { output: String },
    /// Create the archive file and start writing it; answered by `Reply::Io`.
    CreateArchive { output: String },
    /// Is `root` joined with `file` a regular file? Answered by `Reply::Exists`.
    IsFile { root: String, file: String },
    /// Read the whole of `root` joined with `file`; answered by `Reply::Read`.
    ReadFile { root: String, file: String },
    /// Start an archive entry of this name, stored this way and with these
    /// Unix permissions; answered by `Reply::Io`.
    StartEntry { name: String, compression: Compression, permissions: u32 },
    /// Write these bytes into the current entry; answered by `Reply::Io`.
    WriteEntry { data: Vec<u8> },
    /// Finish the archive; answered by `Reply::Io`.
    FinishArchive,
    /// Write `manifest.txt` beside the archive, where the archive's path
    /// has a parent; answered by `Reply::Io`.
    WriteManifest { output: String, content: String },
}

/// The outcome of an `Effect`.
#[derive(Debug, PartialEq, Eq)]
pub enum Reply {
    Git(GitRun),
    Exists(bool),
    /// Done, or failed with the error's text.
    Io(Result<(), String>),
    Read(Result<Vec<u8>, ReadFailure>),
}

/// What a command does next: ask for an effect, or finish with a result
/// after reading the first `used` replies. A command reads the replies in
/// the order of the effects it asked for; a reply of another kind than the
/// effect asked for counts as none, and the effect is asked for again.
#[derive(Debug, PartialEq, Eq)]
pub enum Step<T> {
    Perform(Effect),
    Done(Result<T, String>, usize),
}

/// The model of an `Effect`.
pub enum Act {
    Git { program: Seq<char>, dir: Option<Seq<char>>, args: Seq<Seq<char>> },
    PathExists { path: Seq<char> },
    PrepareOutputDir { output: Seq<char> },
    CreateArchive { output: Seq<char> },
    IsFile { root: Seq<char>, file: Seq<char> },
    ReadFile { root: Seq<char>, file: Seq<char> },
    StartEntry { name: Seq<char>, compression: Compression, permissions: u32 },
    WriteEntry { data: Seq<u8> },
    FinishArchive,
    WriteManifest { output: Seq<char>, content: Seq<char> },
}

/// The model of a `Step`.
pub enum Plan<T> {
    Perform(Act),
    Done(Result<T, Seq<char>>, nat),
}

pub open spec fn opt_view(o: Option<String>) -> Option<Seq<char>> {
    match o {
        Some(s) => Some(s@),
        None => None,
    }
}

impl View for Effect {
    type V = Act;

    open spec fn view(&self) -> Act {
        match self {
            Effect::Git(c) => Act::Git {
                program: c.program@,
                dir: opt_view(c.dir),
                args: strings(c.args@),
            },
            Effect::PathExists { path } => Act::PathExists { path: path@ },
            Effect::PrepareOutputDir { output } => Act::PrepareOutputDir { output: output@ },
            Effect::CreateArchive { output } => Act::CreateArchive { output: output@ },
            Effect::IsFile { root, file } => Act::IsFile { root: root@, file: file@ },
            Effect::ReadFile { root, file } => Act::ReadFile { root: root@, file: file@ },
            Effect::StartEntry { name, compression, permissions } => Act::StartEntry {
                name: name@,
                compression: *compression,
                permissions: *permissions,
            },
            Effect::WriteEntry { data } => Act::WriteEntry { data: data@ },
            Effect::FinishArchive => Act::FinishArchive,
            Effect::WriteManifest { output, content } => Act::WriteManifest {
                output: output@,
                content: content@,
            },
        }
    }
}

impl<T: DeepView> View for Step<T> {
    type V = Plan<T::V>;

    open spec fn view(&self) -> Plan<T::V> {
        match self {
            Step::Perform(e) => Plan::Perform(e@),
            Step::Done(r, used) => Plan::Done(
                match r {
                    Ok(v) => Ok(v.deep_view()),
                    Err(e) => Err(e@),
                },
                *used as nat,
            ),
        }
    }
}

/// The Git outcome at `k`, if the reply there is one.
pub open spec fn git_reply(rs: Seq<Reply>, k: nat) -> Option<GitRun> {
    if k < rs.len() {
        match rs[k as int] {
            Reply::Git(r) => Some(r),
            _ => None,
        }
    } else {
        None
    }
}

/// The answer to a yes-or-no question at `k`, if the reply there is one.
pub open spec fn exists_reply(rs: Seq<Reply>, k: nat) -> Option<bool> {
    if k < rs.len() {
        match rs[k as int] {
            Reply::Exists(b) => Some(b),
            _ => None,
        }
    } else {
        None
    }
}

/// The outcome of a write at `k`, if the reply there is one.
pub open spec fn io_reply(rs: Seq<Reply>, k: nat) -> Option<Result<(), String>> {
    if k < rs.len() {
        match rs[k as int] {
            Reply::Io(r) => Some(r),
            _ => None,
        }
    } else {
        None
    }
}

/// The outcome of a read at `k`, if the reply there is one.
pub open spec fn read_reply(rs: Seq<Reply>, k: nat) -> Option<Result<Vec<u8>, ReadFailure>> {
    if k < rs.len() {
        match rs[k as int] {
            Reply::Read(r) => Some(r),
            _ => None,
        }
    } else {
        None
    }
}

pub fn git_reply_at(rs: &[Reply], k: usize) -> (r: Option<&GitRun>)
    ensures
        match r {
            Some(x) => git_reply(rs@, k as nat) == Some(*x),
            None => git_reply(rs@, k as nat) is None,
        },
{
    if k < rs.len() {
        match &rs[k] {
            Reply::Git(x) => Some(x),
            _ => None,
        }
    } else {
        None
    }
}

pub fn exists_reply_at(rs: &[Reply], k: usize) -> (r: Option<bool>)
    ensures
        r == exists_reply(rs@, k as nat),
{
    if k < rs.len() {
        match &rs[k] {
            Reply::Exists(b) => Some(*b),
            _ => None,
        }
    } else {
        None
    }
}

pub fn io_reply_at(rs: &[Reply], k: usize) -> (r: Option<&Result<(), String>>)
    ensures
        match r {
            Some(x) => io_reply(rs@, k as nat) == Some(*x),
            None => io_reply(rs@, k as nat) is None,
        },
{
    if k < rs.len() {
        match &rs[k] {
            Reply::Io(x) => Some(x),
            _ => None,
        }
    } else {
        None
    }
}

pub fn read_reply_at(rs: &[Reply], k: usize) -> (r: Option<&Result<Vec<u8>, ReadFailure>>)
    ensures
        match r {
            Some(x) => read_reply(rs@, k as nat) == Some(*x),
            None => read_reply(rs@, k as nat) is None,
        },
{
    if k < rs.len() {
        match &rs[k] {
            Reply::Read(x) => Some(x),
            _ => None,
        }
    } else {
        None
    }
}

} // verus!
