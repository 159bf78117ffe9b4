//! The requests that the library hands to its host program, and the
//! replies that the host hands back.
//!
//! The library never touches the file system itself. Each operation is a
//! job that asks for one thing at a time; the host carries the request out
//! and feeds the reply to the job, which then asks for the next thing or
//! finishes.

use crate::path::{names_view, FsPath, PathModel};
use vstd::prelude::*;

verus! {

/// A regular file met while walking a directory tree.
#[derive(Debug, PartialEq, Eq)]
pub struct FileRecord {
    /// Where the file is.
    pub path: FsPath,
    /// Its length in bytes.
    pub size: u64,
}

/// The mathematical value of a [`FileRecord`].
pub struct FileModel {
    pub path: PathModel,
    pub size: u64,
}

impl Clone for FileRecord {
    fn clone(&self) -> (copy: FileRecord)
        ensures
            copy@ == self@,
    {
        FileRecord { path: self.path.clone(), size: self.size }
    }
}

impl View for FileRecord {
    type V = FileModel;

    open spec fn view(&self) -> FileModel {
        FileModel { path: self.path@, size: self.size }
    }
}

/// The views of a list of file records, in order.
pub open spec fn files_view(files: Seq<FileRecord>) -> Seq<FileModel> {
    Seq::new(files.len(), |i: int| files[i]@)
}

/// A moment of the local time, as a calendar and a clock show it.
#[derive(Debug, Clone, Copy, PartialEq, Eq, Structural)]
pub struct LocalTime {
    /// The year; years before the year 1 are zero and below.
    pub year: i32,
    /// The month, from 1.
    pub month: u32,
    /// The day of the month, from 1.
    pub day: u32,
    /// The hour, from 0.
    pub hour: u32,
    /// The minute, from 0.
    pub minute: u32,
    /// The second, from 0.
    pub second: u32,
    /// The billionths of a second that have passed since the second began.
    /// A thousand million or more stand for a leap second.
    pub nanosecond: u32,
}

/// One thing for the host to do.
#[derive(Debug, PartialEq, Eq)]
pub enum FsRequest {
    /// Run the command `argv` with elevated privilege, its output
    /// discarded. The reply is `Done` when it exited successfully.
    RunPrivileged { argv: Vec<String> },
    /// Run the command `argv` and collect what it prints. The reply is
    /// `Output` when the command could be run.
    RunCommand { argv: Vec<String> },
    /// Wait for the given number of milliseconds.
    Pause { millis: u64 },
    /// What is the local time? The reply is `Time`.
    ReadClock,
    /// Create the directory; its parent must exist.
    CreateDir { path: FsPath },
    /// Create the directory and all its missing ancestors.
    CreateDirAll { path: FsPath },
    /// Does anything exist at the path? The reply is an `Answer`.
    Exists { path: FsPath },
    /// Is the path a directory right now? The reply is an `Answer`.
    IsDir { path: FsPath },
    /// Resolve the path to its canonical absolute form. The reply is
    /// `Resolved`.
    Canonicalize { path: FsPath },
    /// Walk the tree below `root`, hidden entries included, and report every
    /// regular file with its length. The reply is `Files`.
    WalkFiles { root: FsPath },
    /// Write `content` to the file, replacing what it held.
    WriteFile { path: FsPath, content: String },
    /// Move `from` to `to` by renaming.
    Rename { from: FsPath, to: FsPath },
    /// Remove the single file.
    RemoveFile { path: FsPath },
    /// Remove the directory with everything in it.
    RemoveDirAll { path: FsPath },
}

/// The mathematical value of an [`FsRequest`].
pub enum RequestModel {
    RunPrivileged { argv: Seq<Seq<char>> },
    RunCommand { argv: Seq<Seq<char>> },
    Pause { millis: u64 },
    ReadClock,
    CreateDir { path: PathModel },
    CreateDirAll { path: PathModel },
    Exists { path: PathModel },
    IsDir { path: PathModel },
    Canonicalize { path: PathModel },
    WalkFiles { root: PathModel },
    WriteFile { path: PathModel, content: Seq<char> },
    Rename { from: PathModel, to: PathModel },
    RemoveFile { path: PathModel },
    RemoveDirAll { path: PathModel },
}

impl RequestModel {
    /// Whether carrying the request out can change the file system. A
    /// command counts as a change, since the library cannot know what it
    /// does.
    pub open spec fn mutates(self) -> bool {
        !(self is Exists || self is IsDir || self is Canonicalize || self is WalkFiles || self is Pause
            || self is ReadClock)
    }
}

impl View for FsRequest {
    type V = RequestModel;

    open spec fn view(&self) -> RequestModel {
        match self {
            FsRequest::RunPrivileged { argv } => RequestModel::RunPrivileged { argv: names_view(argv@) },
            FsRequest::RunCommand { argv } => RequestModel::RunCommand { argv: names_view(argv@) },
            FsRequest::Pause { millis } => RequestModel::Pause { millis: *millis },
            FsRequest::ReadClock => RequestModel::ReadClock,
            FsRequest::CreateDir { path } => RequestModel::CreateDir { path: path@ },
            FsRequest::CreateDirAll { path } => RequestModel::CreateDirAll { path: path@ },
            FsRequest::Exists { path } => RequestModel::Exists { path: path@ },
            FsRequest::IsDir { path } => RequestModel::IsDir { path: path@ },
            FsRequest::Canonicalize { path } => RequestModel::Canonicalize { path: path@ },
            FsRequest::WalkFiles { root } => RequestModel::WalkFiles { root: root@ },
            FsRequest::WriteFile { path, content } => RequestModel::WriteFile {
                path: path@,
                content: content@,
            },
            FsRequest::Rename { from, to } => RequestModel::Rename { from: from@, to: to@ },
            FsRequest::RemoveFile { path } => RequestModel::RemoveFile { path: path@ },
            FsRequest::RemoveDirAll { path } => RequestModel::RemoveDirAll { path: path@ },
        }
    }
}

/// What the host reports after carrying a request out.
#[derive(Debug, PartialEq, Eq)]
pub enum FsReply {
    /// The operation succeeded.
    Done,
    /// The operation failed; the text says why.
    Failed(String),
    /// The answer to a question.
    Answer(bool),
    /// The canonical form of a path.
    Resolved(FsPath),
    /// The regular files found by a walk.
    Files(Vec<FileRecord>),
    /// What a command printed, and whether it exited successfully.
    Output { text: String, success: bool },
    /// The local time.
    Time(LocalTime),
}

/// The mathematical value of an [`FsReply`].
pub enum ReplyModel {
    Done,
    Failed(Seq<char>),
    Answer(bool),
    Resolved(PathModel),
    Files(Seq<FileModel>),
    Output { text: Seq<char>, success: bool },
    Time(LocalTime),
}

impl ReplyModel {
    /// Whether the reply answers a question with yes. Any other reply,
    /// a failure included, counts as no.
    pub open spec fn is_yes(self) -> bool {
        self == ReplyModel::Answer(true)
    }

    /// The error text of a failed operation.
    pub open spec fn error(self) -> Option<Seq<char>> {
        match self {
            ReplyModel::Failed(text) => Some(text),
            _ => None,
        }
    }
}

impl View for FsReply {
    type V = ReplyModel;

    open spec fn view(&self) -> ReplyModel {
        match self {
            FsReply::Done => ReplyModel::Done,
            FsReply::Failed(text) => ReplyModel::Failed(text@),
            FsReply::Answer(yes) => ReplyModel::Answer(*yes),
            FsReply::Resolved(path) => ReplyModel::Resolved(path@),
            FsReply::Files(files) => ReplyModel::Files(files_view(files@)),
            FsReply::Output { text, success } => ReplyModel::Output { text: text@, success: *success },
            FsReply::Time(now) => ReplyModel::Time(*now),
        }
    }
}

impl FsReply {
    /// Whether the reply answers a question with yes.
    pub fn is_yes(&self) -> (yes: bool)
        ensures
            yes == self@.is_yes(),
    {
        match self {
            FsReply::Answer(yes) => *yes,
            _ => false,
        }
    }

    /// The error text of a failed operation.
    pub fn into_error(self) -> (error: Option<String>)
        ensures
            error.is_some() == self@.error().is_some(),
            error.is_some() ==> error.unwrap()@ == self@.error().unwrap(),
    {
        match self {
            FsReply::Failed(text) => Some(text),
            _ => None,
        }
    }
}

/// A copy of a list of strings.
pub fn clone_strings(list: &Vec<String>) -> (copy: Vec<String>)
    ensures
        names_view(copy@) == names_view(list@),
{
    let mut copy: Vec<String> = Vec::new();
    let mut i: usize = 0;
    while i < list.len()
        invariant
            i <= list.len(),
            copy.len() == i,
            forall|j: int| 0 <= j < i ==> copy[j]@ == list[j]@,
        decreases list.len() - i,
    {
        copy.push(list[i].clone());
        i += 1;
    }
    assert(names_view(copy@) =~= names_view(list@));
    copy
}

impl Clone for FsRequest {
    fn clone(&self) -> (copy: FsRequest)
        ensures
            copy@ == self@,
    {
        match self {
            FsRequest::RunPrivileged { argv } => FsRequest::RunPrivileged { argv: clone_strings(argv) },
            FsRequest::RunCommand { argv } => FsRequest::RunCommand { argv: clone_strings(argv) },
            FsRequest::Pause { millis } => FsRequest::Pause { millis: *millis },
            FsRequest::ReadClock => FsRequest::ReadClock,
            FsRequest::CreateDir { path } => FsRequest::CreateDir { path: path.clone() },
            FsRequest::CreateDirAll { path } => FsRequest::CreateDirAll { path: path.clone() },
            FsRequest::Exists { path } => FsRequest::Exists { path: path.clone() },
            FsRequest::IsDir { path } => FsRequest::IsDir { path: path.clone() },
            FsRequest::Canonicalize { path } => FsRequest::Canonicalize { path: path.clone() },
            FsRequest::WalkFiles { root } => FsRequest::WalkFiles { root: root.clone() },
            FsRequest::WriteFile { path, content } => FsRequest::WriteFile {
                path: path.clone(),
                content: content.clone(),
            },
            FsRequest::Rename { from, to } => FsRequest::Rename { from: from.clone(), to: to.clone() },
            FsRequest::RemoveFile { path } => FsRequest::RemoveFile { path: path.clone() },
            FsRequest::RemoveDirAll { path } => FsRequest::RemoveDirAll { path: path.clone() },
        }
    }
}

} // verus!
