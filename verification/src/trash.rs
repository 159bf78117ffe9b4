//! Reversible deletion: moving items into a staging area from which they
//! can be restored, and removing for good what lies outside the user's
//! home directory.

use crate::host::{FsReply, FsRequest, LocalTime, ReplyModel, RequestModel};
use crate::path::{names_view, FsPath, PathModel};
use crate::platform::{found_or, home_boundary, trash_root};
use crate::text::{
    decimal, lemma_padded_len, lemma_small_numerals, padded, push_decimal, push_padded,
};
use vstd::prelude::*;
use vstd::string::*;

verus! {

/// Whether a deletion can be undone.
#[derive(Debug, Clone, Copy, PartialEq, Eq, Structural)]
pub enum Route {
    /// The item is moved into the staging area and can be restored.
    Reversible,
    /// The item is removed at once and for good.
    Irreversible,
}

/// The route for a path: reversible exactly when the path lies inside the
/// home boundary.
pub open spec fn route_of(path: PathModel, home: PathModel) -> Route {
    if path.starts_with(home) {
        Route::Reversible
    } else {
        Route::Irreversible
    }
}

/// Decides how `path` is to be deleted. Only the components of the two
/// paths are compared; nothing is looked up.
pub fn classify(path: &FsPath, home: &FsPath) -> (route: Route)
    ensures
        route == route_of(path@, home@),
{
    if path.starts_with(home) {
        Route::Reversible
    } else {
        Route::Irreversible
    }
}

/// The record of one deletion.
#[derive(Debug, PartialEq, Eq)]
pub struct TrashedItem {
    /// Where the item was before it was deleted.
    pub original_path: FsPath,
    /// Where the item lies in the staging area; empty when it was removed
    /// for good.
    pub trash_file_path: FsPath,
    /// Where the note about the deletion lies; empty when the item was
    /// removed for good.
    pub trash_info_path: FsPath,
    /// Whether the item lay outside the home boundary and was removed for
    /// good. Such an item cannot be restored.
    pub is_root: bool,
}

/// The mathematical value of a [`TrashedItem`].
pub struct ItemModel {
    pub original_path: PathModel,
    pub trash_file_path: PathModel,
    pub trash_info_path: PathModel,
    pub is_root: bool,
}

impl View for TrashedItem {
    type V = ItemModel;

    open spec fn view(&self) -> ItemModel {
        ItemModel {
            original_path: self.original_path@,
            trash_file_path: self.trash_file_path@,
            trash_info_path: self.trash_info_path@,
            is_root: self.is_root,
        }
    }
}

impl Clone for TrashedItem {
    fn clone(&self) -> (copy: TrashedItem)
        ensures
            copy@ == self@,
    {
        TrashedItem {
            original_path: self.original_path.clone(),
            trash_file_path: self.trash_file_path.clone(),
            trash_info_path: self.trash_info_path.clone(),
            is_root: self.is_root,
        }
    }
}

/// The empty relative path, which stands for "no path".
pub open spec fn no_path() -> PathModel {
    PathModel { absolute: false, parts: Seq::empty() }
}

/// The name tried for a staged item after `attempt` earlier names were
/// found taken: the file name itself, then the file name followed by `_1`,
/// `_2` and so on.
pub open spec fn candidate_name(file_name: Seq<char>, attempt: nat) -> Seq<char> {
    if attempt == 0 {
        file_name
    } else {
        file_name + seq!['_'] + decimal(attempt)
    }
}

/// The name of the note that belongs to a staged name.
pub open spec fn info_name(staged_name: Seq<char>) -> Seq<char> {
    staged_name + ".trashinfo"@
}

/// The year as the stamp writes it: with four digits from the year 0 to
/// the year 9999, and with a sign and at least four digits outside them.
pub open spec fn year_text(year: int) -> Seq<char> {
    if 0 <= year <= 9999 {
        padded(year as nat, 4)
    } else if year < 0 {
        seq!['-'] + padded((-year) as nat, 4)
    } else {
        seq!['+'] + padded(year as nat, 4)
    }
}

/// The second as the stamp writes it: a leap second counts as the second
/// after the one in which it is held.
pub open spec fn shown_second(now: LocalTime) -> nat {
    (now.second + now.nanosecond / 1_000_000_000) as nat
}

/// The time of a deletion as the note holds it: year, month and day
/// joined by `-`, the letter `T`, then hour, minute and second joined by
/// `:`, each but the year with two digits.
pub open spec fn stamp_text(now: LocalTime) -> Seq<char> {
    year_text(now.year as int) + seq!['-'] + padded(now.month as nat, 2) + seq!['-'] + padded(
        now.day as nat,
        2,
    ) + seq!['T'] + padded(now.hour as nat, 2) + seq![':'] + padded(now.minute as nat, 2) + seq![':']
        + padded(shown_second(now), 2)
}

/// The text that says why a deletion ends when the host cannot tell the
/// time.
pub open spec fn no_time_text(reply: ReplyModel) -> Seq<char> {
    match reply.error() {
        Some(text) => text,
        None => "The local time is not known"@,
    }
}

/// The text of the note: a header line, the original location and the time
/// of the deletion.
pub open spec fn info_content(original: PathModel, stamp: Seq<char>) -> Seq<char> {
    "[Trash Info]\nPath="@ + original.display() + "\nDeletionDate="@ + stamp + "\n"@
}

/// The command that removes `original` for good.
pub open spec fn removal_command(original: PathModel) -> Seq<Seq<char>> {
    seq!["pkexec"@, "rm"@, "-rf"@, original.display()]
}

/// How far a deletion has come.
#[derive(Debug, Clone, Copy, PartialEq, Eq, Structural)]
pub enum PutStage {
    /// The privileged removal was asked for.
    Removing,
    /// The directory for staged items was asked for.
    MakingFilesDir,
    /// The directory for notes was asked for.
    MakingInfoDir,
    /// The host was asked whether the candidate's staged path exists.
    ProbingFile,
    /// The host was asked whether the candidate's note exists.
    ProbingInfo,
    /// The host was asked for the local time.
    ReadingClock,
    /// The note was handed over for writing.
    Writing,
    /// The move into the staging area was asked for.
    Moving,
    /// The move failed and the removal of the note was asked for.
    Cleaning,
}

/// A deletion under way.
#[derive(Debug, PartialEq, Eq)]
pub struct PutJob {
    stage: PutStage,
    original: FsPath,
    files_dir: FsPath,
    info_dir: FsPath,
    file_name: String,
    attempt: u64,
    failure: String,
}

/// The mathematical value of a [`PutJob`].
pub struct PutJobModel {
    /// What the host was last asked for.
    pub stage: PutStage,
    /// The path being deleted.
    pub original: PathModel,
    /// The directory that holds staged items.
    pub files_dir: PathModel,
    /// The directory that holds the notes.
    pub info_dir: PathModel,
    /// The last component of the original path, or nothing when it has
    /// none.
    pub file_name: Seq<char>,
    /// How many candidate names were found taken.
    pub attempt: nat,
    /// The error to report once the note has been cleaned up.
    pub failure: Seq<char>,
}

impl PutJobModel {
    /// The name under which the item is staged.
    pub open spec fn staged_name(self) -> Seq<char> {
        candidate_name(self.file_name, self.attempt)
    }

    /// Where the item is staged.
    pub open spec fn staged_path(self) -> PathModel {
        self.files_dir.join(self.staged_name())
    }

    /// Where the note is written.
    pub open spec fn info_path(self) -> PathModel {
        self.info_dir.join(info_name(self.staged_name()))
    }

    /// The record of the finished reversible deletion.
    pub open spec fn staged_item(self) -> ItemModel {
        ItemModel {
            original_path: self.original,
            trash_file_path: self.staged_path(),
            trash_info_path: self.info_path(),
            is_root: false,
        }
    }

    /// The record of the finished irreversible deletion.
    pub open spec fn removed_item(self) -> ItemModel {
        ItemModel {
            original_path: self.original,
            trash_file_path: no_path(),
            trash_info_path: no_path(),
            is_root: true,
        }
    }

    /// The job at another stage.
    pub open spec fn at(self, stage: PutStage) -> PutJobModel {
        PutJobModel { stage, ..self }
    }

    /// The job with one more candidate name found taken, about to probe
    /// the next one.
    pub open spec fn next_attempt(self) -> PutJobModel {
        PutJobModel { stage: PutStage::ProbingFile, attempt: self.attempt + 1, ..self }
    }
}

impl View for PutJob {
    type V = PutJobModel;

    closed spec fn view(&self) -> PutJobModel {
        PutJobModel {
            stage: self.stage,
            original: self.original@,
            files_dir: self.files_dir@,
            info_dir: self.info_dir@,
            file_name: self.file_name@,
            attempt: self.attempt as nat,
            failure: self.failure@,
        }
    }
}

/// What a deletion does next: ask the host for something, or finish with
/// the record of the deletion or an error.
#[derive(Debug, PartialEq, Eq)]
pub enum PutStep {
    Ask(PutJob, FsRequest),
    Finish(Result<TrashedItem, String>),
}

/// The mathematical value of a [`PutStep`].
pub enum PutStepModel {
    Ask(PutJobModel, RequestModel),
    Finish(Result<ItemModel, Seq<char>>),
}

impl View for PutStep {
    type V = PutStepModel;

    open spec fn view(&self) -> PutStepModel {
        match self {
            PutStep::Ask(job, request) => PutStepModel::Ask(job@, request@),
            PutStep::Finish(Ok(item)) => PutStepModel::Finish(Ok(item@)),
            PutStep::Finish(Err(text)) => PutStepModel::Finish(Err(text@)),
        }
    }
}

/// The largest number of candidate names that a deletion tries.
pub const MAX_ATTEMPTS: u64 = 0xFFFF_FFFF_FFFF_FFFF;

/// The first step of deleting `original`.
///
/// Outside the home boundary the item is removed for good by a privileged
/// command. Inside it, the staging area is prepared first: the directory
/// `files` for the items and the directory `info` for the notes, both
/// inside `trash_root`.
pub open spec fn put_begin(original: PathModel, home: PathModel, trash_root: PathModel) -> PutStepModel {
    let job = PutJobModel {
        stage: PutStage::Removing,
        original,
        files_dir: trash_root.join("files"@),
        info_dir: trash_root.join("info"@),
        file_name: match original.file_name() {
            Some(name) => name,
            None => Seq::empty(),
        },
        attempt: 0,
        failure: Seq::empty(),
    };
    if route_of(original, home) == Route::Irreversible {
        PutStepModel::Ask(job, RequestModel::RunPrivileged { argv: removal_command(original) })
    } else {
        PutStepModel::Ask(
            job.at(PutStage::MakingFilesDir),
            RequestModel::CreateDirAll { path: job.files_dir },
        )
    }
}

/// The step that follows the host's `reply`.
///
/// - A privileged removal that succeeded finishes with the record of an
///   irreversible deletion; any other reply finishes with an error.
/// - A directory that cannot be made finishes with the host's error.
/// - Candidate names are probed one after the other, the staged path before
///   the note, until neither exists.
/// - The host is then asked for the local time. Without it the deletion
///   finishes with an error, and nothing has been written or moved.
/// - The note is written before the item is moved. When the move fails the
///   note is removed again before the error is reported.
pub open spec fn put_advance(job: PutJobModel, reply: ReplyModel) -> PutStepModel {
    match job.stage {
        PutStage::Removing => {
            if reply == ReplyModel::Done {
                PutStepModel::Finish(Ok(job.removed_item()))
            } else {
                PutStepModel::Finish(Err("Failed to pkexec rm -rf"@))
            }
        },
        PutStage::MakingFilesDir => {
            match reply.error() {
                Some(text) => PutStepModel::Finish(Err(text)),
                None => PutStepModel::Ask(
                    job.at(PutStage::MakingInfoDir),
                    RequestModel::CreateDirAll { path: job.info_dir },
                ),
            }
        },
        PutStage::MakingInfoDir => {
            match reply.error() {
                Some(text) => PutStepModel::Finish(Err(text)),
                None => PutStepModel::Ask(
                    job.at(PutStage::ProbingFile),
                    RequestModel::Exists { path: job.staged_path() },
                ),
            }
        },
        PutStage::ProbingFile => {
            if reply.is_yes() {
                put_retry(job)
            } else {
                PutStepModel::Ask(
                    job.at(PutStage::ProbingInfo),
                    RequestModel::Exists { path: job.info_path() },
                )
            }
        },
        PutStage::ProbingInfo => {
            if reply.is_yes() {
                put_retry(job)
            } else {
                PutStepModel::Ask(job.at(PutStage::ReadingClock), RequestModel::ReadClock)
            }
        },
        PutStage::ReadingClock => {
            match reply {
                ReplyModel::Time(now) => PutStepModel::Ask(
                    job.at(PutStage::Writing),
                    RequestModel::WriteFile {
                        path: job.info_path(),
                        content: info_content(job.original, stamp_text(now)),
                    },
                ),
                _ => PutStepModel::Finish(Err(no_time_text(reply))),
            }
        },
        PutStage::Writing => {
            match reply.error() {
                Some(text) => PutStepModel::Finish(Err(text)),
                None => PutStepModel::Ask(
                    job.at(PutStage::Moving),
                    RequestModel::Rename { from: job.original, to: job.staged_path() },
                ),
            }
        },
        PutStage::Moving => {
            match reply.error() {
                Some(text) => PutStepModel::Ask(
                    PutJobModel {
                        stage: PutStage::Cleaning,
                        failure: "Failed to move to trash: "@ + text,
                        ..job
                    },
                    RequestModel::RemoveFile { path: job.info_path() },
                ),
                None => PutStepModel::Finish(Ok(job.staged_item())),
            }
        },
        PutStage::Cleaning => PutStepModel::Finish(Err(job.failure)),
    }
}

/// What follows a candidate name that is taken: the next candidate is
/// probed, unless the numbers have run out.
pub open spec fn put_retry(job: PutJobModel) -> PutStepModel {
    if job.attempt >= MAX_ATTEMPTS {
        PutStepModel::Finish(Err("No free name left in the trash"@))
    } else {
        PutStepModel::Ask(
            job.next_attempt(),
            RequestModel::Exists { path: job.next_attempt().staged_path() },
        )
    }
}

/// The time of a deletion as the note holds it.
pub fn stamp(now: LocalTime) -> (text: String)
    ensures
        text@ == stamp_text(now),
{
    proof {
        reveal_strlit("-");
        reveal_strlit("+");
        reveal_strlit("T");
        reveal_strlit(":");
    }
    let mut text = String::new();
    if now.year < 0 {
        text.append("-");
        push_padded(&mut text, (0 - (now.year as i64)) as u64, 4);
    } else if now.year > 9999 {
        text.append("+");
        push_padded(&mut text, now.year as u64, 4);
    } else {
        push_padded(&mut text, now.year as u64, 4);
    }
    assert(text@ =~= year_text(now.year as int));
    text.append("-");
    push_padded(&mut text, now.month as u64, 2);
    text.append("-");
    push_padded(&mut text, now.day as u64, 2);
    text.append("T");
    push_padded(&mut text, now.hour as u64, 2);
    text.append(":");
    push_padded(&mut text, now.minute as u64, 2);
    text.append(":");
    push_padded(&mut text, now.second as u64 + (now.nanosecond / 1_000_000_000) as u64, 2);
    assert(text@ =~= stamp_text(now));
    text
}

impl PutJob {
    /// The first step of deleting `original`, given the home boundary and
    /// the root of the staging area.
    pub fn begin(original: &FsPath, home: &FsPath, trash_root: &FsPath) -> (step: PutStep)
        ensures
            step@ == put_begin(original@, home@, trash_root@),
    {
        let file_name = match original.file_name() {
            Some(name) => name,
            None => String::new(),
        };
        let job = PutJob {
            stage: PutStage::Removing,
            original: original.clone(),
            files_dir: trash_root.join("files"),
            info_dir: trash_root.join("info"),
            file_name,
            attempt: 0,
            failure: String::new(),
        };
        match classify(original, home) {
            Route::Irreversible => {
                let mut argv: Vec<String> = Vec::new();
                argv.push(String::from_str("pkexec"));
                argv.push(String::from_str("rm"));
                argv.push(String::from_str("-rf"));
                argv.push(original.display());
                assert(names_view(argv@) =~= removal_command(original@));
                PutStep::Ask(job, FsRequest::RunPrivileged { argv })
            },
            Route::Reversible => {
                let path = job.files_dir.clone();
                PutStep::Ask(job.at(PutStage::MakingFilesDir), FsRequest::CreateDirAll { path })
            },
        }
    }

    /// What the host was last asked for.
    pub fn stage(&self) -> (stage: PutStage)
        ensures
            stage == self@.stage,
    {
        self.stage
    }

    fn at(self, stage: PutStage) -> (job: PutJob)
        ensures
            job@ == self@.at(stage),
    {
        PutJob { stage, ..self }
    }

    fn staged_name(&self) -> (name: String)
        ensures
            name@ == self@.staged_name(),
    {
        let mut name = self.file_name.clone();
        if self.attempt > 0 {
            proof {
                reveal_strlit("_");
            }
            name.append("_");
            push_decimal(&mut name, self.attempt);
            assert(name@ =~= self.file_name@ + seq!['_'] + decimal(self.attempt as nat));
        }
        name
    }

    fn staged_path(&self) -> (path: FsPath)
        ensures
            path@ == self@.staged_path(),
    {
        let name = self.staged_name();
        self.files_dir.join(name.as_str())
    }

    fn info_path(&self) -> (path: FsPath)
        ensures
            path@ == self@.info_path(),
    {
        let mut name = self.staged_name();
        name.append(".trashinfo");
        self.info_dir.join(name.as_str())
    }

    fn retry(self) -> (step: PutStep)
        ensures
            step@ == put_retry(self@),
    {
        if self.attempt >= MAX_ATTEMPTS {
            PutStep::Finish(Err(String::from_str("No free name left in the trash")))
        } else {
            let next = PutJob { stage: PutStage::ProbingFile, attempt: self.attempt + 1, ..self };
            let path = next.staged_path();
            PutStep::Ask(next, FsRequest::Exists { path })
        }
    }

    /// The step that follows the host's `reply`.
    pub fn advance(self, reply: FsReply) -> (step: PutStep)
        ensures
            step@ == put_advance(self@, reply@),
    {
        match self.stage {
            PutStage::Removing => {
                match reply {
                    FsReply::Done => PutStep::Finish(
                        Ok(
                            TrashedItem {
                                original_path: self.original,
                                trash_file_path: FsPath::empty(),
                                trash_info_path: FsPath::empty(),
                                is_root: true,
                            },
                        ),
                    ),
                    _ => PutStep::Finish(Err(String::from_str("Failed to pkexec rm -rf"))),
                }
            },
            PutStage::MakingFilesDir => {
                match reply.into_error() {
                    Some(text) => PutStep::Finish(Err(text)),
                    None => {
                        let path = self.info_dir.clone();
                        PutStep::Ask(self.at(PutStage::MakingInfoDir), FsRequest::CreateDirAll { path })
                    },
                }
            },
            PutStage::MakingInfoDir => {
                match reply.into_error() {
                    Some(text) => PutStep::Finish(Err(text)),
                    None => {
                        let path = self.staged_path();
                        PutStep::Ask(self.at(PutStage::ProbingFile), FsRequest::Exists { path })
                    },
                }
            },
            PutStage::ProbingFile => {
                if reply.is_yes() {
                    self.retry()
                } else {
                    let path = self.info_path();
                    PutStep::Ask(self.at(PutStage::ProbingInfo), FsRequest::Exists { path })
                }
            },
            PutStage::ProbingInfo => {
                if reply.is_yes() {
                    self.retry()
                } else {
                    PutStep::Ask(self.at(PutStage::ReadingClock), FsRequest::ReadClock)
                }
            },
            PutStage::ReadingClock => {
                match reply {
                    FsReply::Time(now) => {
                        let path = self.info_path();
                        let mut content = String::from_str("[Trash Info]\nPath=");
                        content.append(self.original.display().as_str());
                        content.append("\nDeletionDate=");
                        content.append(stamp(now).as_str());
                        content.append("\n");
                        PutStep::Ask(self.at(PutStage::Writing), FsRequest::WriteFile { path, content })
                    },
                    other => {
                        match other.into_error() {
                            Some(text) => PutStep::Finish(Err(text)),
                            None => PutStep::Finish(Err(String::from_str("The local time is not known"))),
                        }
                    },
                }
            },
            PutStage::Writing => {
                match reply.into_error() {
                    Some(text) => PutStep::Finish(Err(text)),
                    None => {
                        let from = self.original.clone();
                        let to = self.staged_path();
                        PutStep::Ask(self.at(PutStage::Moving), FsRequest::Rename { from, to })
                    },
                }
            },
            PutStage::Moving => {
                match reply.into_error() {
                    Some(text) => {
                        let path = self.info_path();
                        let mut failure = String::from_str("Failed to move to trash: ");
                        failure.append(text.as_str());
                        PutStep::Ask(
                            PutJob { stage: PutStage::Cleaning, failure, ..self },
                            FsRequest::RemoveFile { path },
                        )
                    },
                    None => {
                        let trash_file_path = self.staged_path();
                        let trash_info_path = self.info_path();
                        PutStep::Finish(
                            Ok(
                                TrashedItem {
                                    original_path: self.original,
                                    trash_file_path,
                                    trash_info_path,
                                    is_root: false,
                                },
                            ),
                        )
                    },
                }
            },
            PutStage::Cleaning => PutStep::Finish(Err(self.failure)),
        }
    }
}

/// Starts deleting `original_path`: looks up the home boundary and the
/// staging area, and gives the first step. The home boundary is the user's
/// home directory, or `~` without one; the staging area is the directory
/// `Trash` in the user's local data directory, or in `~/.local/share`
/// without one.
pub fn move_to_trash(original_path: &FsPath) -> (step: PutStep)
    ensures
        exists|home: Option<Seq<char>>, data: Option<Seq<char>>|
            step@ == put_begin(
                original_path@,
                found_or(home, "~"@),
                found_or(data, "~/.local/share"@).join("Trash"@),
            ),
{
    let home = home_boundary();
    let root = trash_root();
    let step = PutJob::begin(original_path, &home, &root);
    proof {
        let found_home = choose|found: Option<Seq<char>>| home@ == found_or(found, "~"@);
        let found_data = choose|found: Option<Seq<char>>|
            root@ == found_or(found, "~/.local/share"@).join("Trash"@);
        assert(step@ == put_begin(
            original_path@,
            found_or(found_home, "~"@),
            found_or(found_data, "~/.local/share"@).join("Trash"@),
        ));
    }
    step
}

/// How far a restore has come.
#[derive(Debug, Clone, Copy, PartialEq, Eq, Structural)]
pub enum RestoreStage {
    /// The parent directory of the original path was asked for.
    MakingParent,
    /// The move back to the original path was asked for.
    Moving,
    /// The removal of the note was asked for.
    RemovingNote,
}

/// A restore under way.
#[derive(Debug, PartialEq, Eq)]
pub struct RestoreJob {
    stage: RestoreStage,
    item: TrashedItem,
}

/// The mathematical value of a [`RestoreJob`].
pub struct RestoreJobModel {
    pub stage: RestoreStage,
    pub item: ItemModel,
}

impl View for RestoreJob {
    type V = RestoreJobModel;

    closed spec fn view(&self) -> RestoreJobModel {
        RestoreJobModel { stage: self.stage, item: self.item@ }
    }
}

/// What a restore does next.
#[derive(Debug, PartialEq, Eq)]
pub enum RestoreStep {
    Ask(RestoreJob, FsRequest),
    Finish(Result<(), String>),
}

/// The mathematical value of a [`RestoreStep`] or an [`EraseStep`].
pub enum ItemStepModel<J> {
    Ask(J, RequestModel),
    Finish(Result<(), Seq<char>>),
}

impl View for RestoreStep {
    type V = ItemStepModel<RestoreJobModel>;

    open spec fn view(&self) -> ItemStepModel<RestoreJobModel> {
        match self {
            RestoreStep::Ask(job, request) => ItemStepModel::Ask(job@, request@),
            RestoreStep::Finish(Ok(_)) => ItemStepModel::Finish(Ok(())),
            RestoreStep::Finish(Err(text)) => ItemStepModel::Finish(Err(text@)),
        }
    }
}

/// The request that moves a staged item back to where it was.
pub open spec fn move_back(item: ItemModel) -> RequestModel {
    RequestModel::Rename { from: item.trash_file_path, to: item.original_path }
}

/// The first step of restoring `item`.
///
/// An item that was removed for good cannot be restored: the restore
/// finishes with an error at once and asks the host for nothing. Otherwise
/// the parent directory of the original path is made first, if the path
/// has a parent.
pub open spec fn restore_begin(item: ItemModel) -> ItemStepModel<RestoreJobModel> {
    if item.is_root {
        ItemStepModel::Finish(Err("Cannot restore permanently deleted root files"@))
    } else {
        match item.original_path.parent() {
            Some(parent) => ItemStepModel::Ask(
                RestoreJobModel { stage: RestoreStage::MakingParent, item },
                RequestModel::CreateDirAll { path: parent },
            ),
            None => ItemStepModel::Ask(
                RestoreJobModel { stage: RestoreStage::Moving, item },
                move_back(item),
            ),
        }
    }
}

/// The step that follows the host's `reply` during a restore.
///
/// A parent directory that cannot be made, or a move that fails, finishes
/// with the host's error. After the move the note is removed; whether that
/// works does not matter to the result.
pub open spec fn restore_advance(job: RestoreJobModel, reply: ReplyModel) -> ItemStepModel<
    RestoreJobModel,
> {
    match job.stage {
        RestoreStage::MakingParent => {
            match reply.error() {
                Some(text) => ItemStepModel::Finish(Err(text)),
                None => ItemStepModel::Ask(
                    RestoreJobModel { stage: RestoreStage::Moving, item: job.item },
                    move_back(job.item),
                ),
            }
        },
        RestoreStage::Moving => {
            match reply.error() {
                Some(text) => ItemStepModel::Finish(Err(text)),
                None => ItemStepModel::Ask(
                    RestoreJobModel { stage: RestoreStage::RemovingNote, item: job.item },
                    RequestModel::RemoveFile { path: job.item.trash_info_path },
                ),
            }
        },
        RestoreStage::RemovingNote => ItemStepModel::Finish(Ok(())),
    }
}

impl RestoreJob {
    /// What the host was last asked for.
    pub fn stage(&self) -> (stage: RestoreStage)
        ensures
            stage == self@.stage,
    {
        self.stage
    }

    fn ask_move(item: TrashedItem) -> (step: RestoreStep)
        ensures
            step@ == ItemStepModel::Ask(
                RestoreJobModel { stage: RestoreStage::Moving, item: item@ },
                move_back(item@),
            ),
    {
        let from = item.trash_file_path.clone();
        let to = item.original_path.clone();
        RestoreStep::Ask(RestoreJob { stage: RestoreStage::Moving, item }, FsRequest::Rename { from, to })
    }

    /// The step that follows the host's `reply`.
    pub fn advance(self, reply: FsReply) -> (step: RestoreStep)
        ensures
            step@ == restore_advance(self@, reply@),
    {
        match self.stage {
            RestoreStage::MakingParent => {
                match reply.into_error() {
                    Some(text) => RestoreStep::Finish(Err(text)),
                    None => Self::ask_move(self.item),
                }
            },
            RestoreStage::Moving => {
                match reply.into_error() {
                    Some(text) => RestoreStep::Finish(Err(text)),
                    None => {
                        let path = self.item.trash_info_path.clone();
                        RestoreStep::Ask(
                            RestoreJob { stage: RestoreStage::RemovingNote, item: self.item },
                            FsRequest::RemoveFile { path },
                        )
                    },
                }
            },
            RestoreStage::RemovingNote => RestoreStep::Finish(Ok(())),
        }
    }
}

/// Starts restoring `item` to where it was.
pub fn restore_trash_item(item: &TrashedItem) -> (step: RestoreStep)
    ensures
        step@ == restore_begin(item@),
{
    if item.is_root {
        return RestoreStep::Finish(
            Err(String::from_str("Cannot restore permanently deleted root files")),
        );
    }
    match item.original_path.parent() {
        Some(path) => RestoreStep::Ask(
            RestoreJob { stage: RestoreStage::MakingParent, item: item.clone() },
            FsRequest::CreateDirAll { path },
        ),
        None => RestoreJob::ask_move(item.clone()),
    }
}

/// How far an erasure has come.
#[derive(Debug, Clone, Copy, PartialEq, Eq, Structural)]
pub enum EraseStage {
    /// The host was asked whether the staged item is a directory.
    Inspecting,
    /// The removal of the staged item was asked for.
    RemovingContent,
    /// The removal of the note was asked for.
    RemovingNote,
}

/// An erasure under way.
#[derive(Debug, PartialEq, Eq)]
pub struct EraseJob {
    stage: EraseStage,
    item: TrashedItem,
    residue: Option<String>,
}

/// The mathematical value of an [`EraseJob`].
pub struct EraseJobModel {
    pub stage: EraseStage,
    pub item: ItemModel,
    /// Why the staged item could not be removed, if it could not.
    pub residue: Option<Seq<char>>,
}

impl View for EraseJob {
    type V = EraseJobModel;

    closed spec fn view(&self) -> EraseJobModel {
        EraseJobModel {
            stage: self.stage,
            item: self.item@,
            residue: match self.residue {
                Some(text) => Some(text@),
                None => None,
            },
        }
    }
}

/// What an erasure does next.
#[derive(Debug, PartialEq, Eq)]
pub enum EraseStep {
    Ask(EraseJob, FsRequest),
    Finish(Result<(), String>),
}

impl View for EraseStep {
    type V = ItemStepModel<EraseJobModel>;

    open spec fn view(&self) -> ItemStepModel<EraseJobModel> {
        match self {
            EraseStep::Ask(job, request) => ItemStepModel::Ask(job@, request@),
            EraseStep::Finish(Ok(_)) => ItemStepModel::Finish(Ok(())),
            EraseStep::Finish(Err(text)) => ItemStepModel::Finish(Err(text@)),
        }
    }
}

/// The first step of erasing the staged content of `item`.
///
/// An item that was removed for good has nothing staged: the erasure
/// finishes at once. Otherwise the host is asked whether the staged item
/// is a directory.
pub open spec fn erase_begin(item: ItemModel) -> ItemStepModel<EraseJobModel> {
    if item.is_root {
        ItemStepModel::Finish(Ok(()))
    } else {
        ItemStepModel::Ask(
            EraseJobModel { stage: EraseStage::Inspecting, item, residue: None },
            RequestModel::IsDir { path: item.trash_file_path },
        )
    }
}

/// The step that follows the host's `reply` during an erasure.
///
/// A staged directory is removed with all it holds, anything else as a
/// single file. The note is removed afterwards in either case, and whether
/// that works does not matter. The erasure finishes with the host's error
/// when the staged item could not be removed.
pub open spec fn erase_advance(job: EraseJobModel, reply: ReplyModel) -> ItemStepModel<EraseJobModel> {
    match job.stage {
        EraseStage::Inspecting => ItemStepModel::Ask(
            EraseJobModel { stage: EraseStage::RemovingContent, ..job },
            if reply.is_yes() {
                RequestModel::RemoveDirAll { path: job.item.trash_file_path }
            } else {
                RequestModel::RemoveFile { path: job.item.trash_file_path }
            },
        ),
        EraseStage::RemovingContent => ItemStepModel::Ask(
            EraseJobModel { stage: EraseStage::RemovingNote, residue: reply.error(), ..job },
            RequestModel::RemoveFile { path: job.item.trash_info_path },
        ),
        EraseStage::RemovingNote => match job.residue {
            Some(text) => ItemStepModel::Finish(Err(text)),
            None => ItemStepModel::Finish(Ok(())),
        },
    }
}

impl EraseJob {
    /// What the host was last asked for.
    pub fn stage(&self) -> (stage: EraseStage)
        ensures
            stage == self@.stage,
    {
        self.stage
    }

    /// The step that follows the host's `reply`.
    pub fn advance(self, reply: FsReply) -> (step: EraseStep)
        ensures
            step@ == erase_advance(self@, reply@),
    {
        match self.stage {
            EraseStage::Inspecting => {
                let path = self.item.trash_file_path.clone();
                let request = if reply.is_yes() {
                    FsRequest::RemoveDirAll { path }
                } else {
                    FsRequest::RemoveFile { path }
                };
                EraseStep::Ask(EraseJob { stage: EraseStage::RemovingContent, ..self }, request)
            },
            EraseStage::RemovingContent => {
                let path = self.item.trash_info_path.clone();
                let residue = reply.into_error();
                EraseStep::Ask(
                    EraseJob { stage: EraseStage::RemovingNote, item: self.item, residue },
                    FsRequest::RemoveFile { path },
                )
            },
            EraseStage::RemovingNote => match self.residue {
                Some(text) => EraseStep::Finish(Err(text)),
                None => EraseStep::Finish(Ok(())),
            },
        }
    }
}

/// Starts erasing the staged content of `item` for good.
pub fn perm_delete_trash_item(item: &TrashedItem) -> (step: EraseStep)
    ensures
        step@ == erase_begin(item@),
{
    if item.is_root {
        return EraseStep::Finish(Ok(()));
    }
    let path = item.trash_file_path.clone();
    EraseStep::Ask(
        EraseJob { stage: EraseStage::Inspecting, item: item.clone(), residue: None },
        FsRequest::IsDir { path },
    )
}

/// For a time that a calendar and a clock can show, in a year of four
/// digits or fewer, the stamp has the shape `YYYY-MM-DDTHH:MM:SS`: nineteen
/// characters, with the marks between the numbers in their places.
pub proof fn lemma_stamp_shape(now: LocalTime)
    requires
        0 <= now.year <= 9999,
        now.month < 100,
        now.day < 100,
        now.hour < 100,
        now.minute < 100,
        shown_second(now) < 100,
    ensures
        stamp_text(now).len() == 19,
        stamp_text(now)[4] == '-',
        stamp_text(now)[7] == '-',
        stamp_text(now)[10] == 'T',
        stamp_text(now)[13] == ':',
        stamp_text(now)[16] == ':',
{
    lemma_small_numerals(now.year as nat);
    lemma_small_numerals(now.month as nat);
    lemma_small_numerals(now.day as nat);
    lemma_small_numerals(now.hour as nat);
    lemma_small_numerals(now.minute as nat);
    lemma_small_numerals(shown_second(now));
    lemma_padded_len(now.year as nat, 4);
    lemma_padded_len(now.month as nat, 2);
    lemma_padded_len(now.day as nat, 2);
    lemma_padded_len(now.hour as nat, 2);
    lemma_padded_len(now.minute as nat, 2);
    lemma_padded_len(shown_second(now), 2);
}

} // verus!
