//! The cleaners: what each of them asks the host to do, and how the
//! replies add up to success or failure.

use crate::host::{FsReply, FsRequest, ReplyModel, RequestModel};
use crate::path::{names_view, FsPath, PathModel};
use crate::platform::{cache_dir, data_local_dir, found_or, home_boundary};
use vstd::prelude::*;
use vstd::string::*;

verus! {

/// How the reply to one request of a cleaner counts.
#[derive(Debug, Clone, Copy, PartialEq, Eq, Structural)]
pub enum Rule {
    /// The reply does not matter.
    Ignore,
    /// The cleaner fails unless the request succeeded, but goes on.
    Count,
    /// The cleaner is done unless the answer is yes.
    StopUnlessYes,
    /// The cleaner fails and stops unless the request succeeded.
    StopOnFailure,
}

/// One request of a cleaner with the rule for its reply.
#[derive(Debug, PartialEq, Eq)]
pub struct ScriptStep {
    pub request: FsRequest,
    pub rule: Rule,
}

/// The mathematical value of a [`ScriptStep`].
pub struct ScriptStepModel {
    pub request: RequestModel,
    pub rule: Rule,
}

impl View for ScriptStep {
    type V = ScriptStepModel;

    open spec fn view(&self) -> ScriptStepModel {
        ScriptStepModel { request: self.request@, rule: self.rule }
    }
}

/// The views of a list of script steps, in order.
pub open spec fn script_view(steps: Seq<ScriptStep>) -> Seq<ScriptStepModel> {
    Seq::new(steps.len(), |i: int| steps[i]@)
}

/// A cleaner under way.
#[derive(Debug, PartialEq, Eq)]
pub struct CleanJob {
    steps: Vec<ScriptStep>,
    at: usize,
    ok: bool,
}

/// The mathematical value of a [`CleanJob`].
pub struct CleanJobModel {
    /// The requests of the cleaner with their rules.
    pub steps: Seq<ScriptStepModel>,
    /// The place of the request that the host was last asked for.
    pub at: int,
    /// Whether no request that counts has failed so far.
    pub ok: bool,
}

impl CleanJobModel {
    /// Whether the request asked for is one of the script.
    pub open spec fn wf(self) -> bool {
        0 <= self.at < self.steps.len()
    }
}

impl View for CleanJob {
    type V = CleanJobModel;

    closed spec fn view(&self) -> CleanJobModel {
        CleanJobModel { steps: script_view(self.steps@), at: self.at as int, ok: self.ok }
    }
}

/// What a cleaner does next: ask the host for something, or finish with
/// whether it succeeded.
#[derive(Debug, PartialEq, Eq)]
pub enum CleanStep {
    Ask(CleanJob, FsRequest),
    Finish(bool),
}

/// The mathematical value of a [`CleanStep`].
pub enum CleanStepModel {
    Ask(CleanJobModel, RequestModel),
    Finish(bool),
}

impl View for CleanStep {
    type V = CleanStepModel;

    open spec fn view(&self) -> CleanStepModel {
        match self {
            CleanStep::Ask(job, request) => CleanStepModel::Ask(job@, request@),
            CleanStep::Finish(ok) => CleanStepModel::Finish(*ok),
        }
    }
}

/// The step that turns to the request at place `at`: the host is asked for
/// it, or the cleaner finishes when the script has run out.
pub open spec fn clean_turn_to(steps: Seq<ScriptStepModel>, at: int, ok: bool) -> CleanStepModel {
    if 0 <= at < steps.len() {
        CleanStepModel::Ask(CleanJobModel { steps, at, ok }, steps[at].request)
    } else {
        CleanStepModel::Finish(ok)
    }
}

/// The first step of a cleaner with the given script.
pub open spec fn clean_begin(steps: Seq<ScriptStepModel>) -> CleanStepModel {
    clean_turn_to(steps, 0, true)
}

/// The step that follows the host's `reply`, by the rule of the request
/// that was asked for.
pub open spec fn clean_advance(job: CleanJobModel, reply: ReplyModel) -> CleanStepModel {
    match job.steps[job.at].rule {
        Rule::Ignore => clean_turn_to(job.steps, job.at + 1, job.ok),
        Rule::Count => clean_turn_to(job.steps, job.at + 1, job.ok && reply == ReplyModel::Done),
        Rule::StopUnlessYes => if reply.is_yes() {
            clean_turn_to(job.steps, job.at + 1, job.ok)
        } else {
            CleanStepModel::Finish(job.ok)
        },
        Rule::StopOnFailure => if reply == ReplyModel::Done {
            clean_turn_to(job.steps, job.at + 1, job.ok)
        } else {
            CleanStepModel::Finish(false)
        },
    }
}

impl CleanJob {
    fn turn_to(steps: Vec<ScriptStep>, at: usize, ok: bool) -> (step: CleanStep)
        ensures
            step@ == clean_turn_to(script_view(steps@), at as int, ok),
            step@ matches CleanStepModel::Ask(job, _) ==> job.wf(),
    {
        if at < steps.len() {
            let request = steps[at].request.clone();
            CleanStep::Ask(CleanJob { steps, at, ok }, request)
        } else {
            CleanStep::Finish(ok)
        }
    }

    /// The first step of a cleaner with the given script.
    pub fn begin(steps: Vec<ScriptStep>) -> (step: CleanStep)
        ensures
            step@ == clean_begin(script_view(steps@)),
            step@ matches CleanStepModel::Ask(job, _) ==> job.wf(),
    {
        Self::turn_to(steps, 0, true)
    }

    /// The step that follows the host's `reply`.
    pub fn advance(self, reply: FsReply) -> (step: CleanStep)
        requires
            self@.wf(),
        ensures
            step@ == clean_advance(self@, reply@),
            step@ matches CleanStepModel::Ask(job, _) ==> job.wf(),
    {
        assert(self.at < self.steps.len());
        assert(self@.steps[self@.at] == self.steps[self.at as int]@);
        let done = match reply {
            FsReply::Done => true,
            _ => false,
        };
        match self.steps[self.at].rule {
            Rule::Ignore => Self::turn_to(self.steps, self.at + 1, self.ok),
            Rule::Count => Self::turn_to(self.steps, self.at + 1, self.ok && done),
            Rule::StopUnlessYes => {
                if reply.is_yes() {
                    Self::turn_to(self.steps, self.at + 1, self.ok)
                } else {
                    CleanStep::Finish(self.ok)
                }
            },
            Rule::StopOnFailure => {
                if done {
                    Self::turn_to(self.steps, self.at + 1, self.ok)
                } else {
                    CleanStep::Finish(false)
                }
            },
        }
    }
}

/// How long the host is asked to wait after a cleaner has changed the file
/// system, in milliseconds.
pub const SETTLE_MILLIS: u64 = 50;

/// The request to let the file system settle.
pub open spec fn settle() -> ScriptStepModel {
    ScriptStepModel { request: RequestModel::Pause { millis: SETTLE_MILLIS }, rule: Rule::Ignore }
}

/// The request to run a shell command with elevated privilege.
pub open spec fn privileged_shell(command: Seq<char>) -> RequestModel {
    RequestModel::RunPrivileged { argv: seq!["pkexec"@, "bash"@, "-c"@, command] }
}

/// The script of a cleaner that runs one shell command with elevated
/// privilege and succeeds when the command does.
pub open spec fn shell_script(command: Seq<char>) -> Seq<ScriptStepModel> {
    seq![ScriptStepModel { request: privileged_shell(command), rule: Rule::Count }, settle()]
}

/// The script that vacuums the journal of systemd down to two weeks.
pub open spec fn journal_script() -> Seq<ScriptStepModel> {
    seq![
        ScriptStepModel {
            request: RequestModel::RunPrivileged {
                argv: seq!["pkexec"@, "journalctl"@, "--vacuum-time=14d"@],
            },
            rule: Rule::Count,
        },
        settle(),
    ]
}

/// The two requests that empty a directory: it is removed with all it
/// holds and made again. Neither reply matters.
pub open spec fn recreate(dir: PathModel) -> Seq<ScriptStepModel> {
    seq![
        ScriptStepModel { request: RequestModel::RemoveDirAll { path: dir }, rule: Rule::Ignore },
        ScriptStepModel { request: RequestModel::CreateDirAll { path: dir }, rule: Rule::Ignore },
    ]
}

/// The script that empties the build cache of yay. A cache that does not
/// exist is clean already. Otherwise the cleaner succeeds when the cache
/// could be removed; it is made again in either case.
pub open spec fn yay_script(dir: PathModel) -> Seq<ScriptStepModel> {
    seq![
        ScriptStepModel { request: RequestModel::Exists { path: dir }, rule: Rule::StopUnlessYes },
        ScriptStepModel { request: RequestModel::RemoveDirAll { path: dir }, rule: Rule::Count },
        ScriptStepModel { request: RequestModel::CreateDirAll { path: dir }, rule: Rule::Ignore },
        settle(),
    ]
}

/// The script that empties the trash. A trash that does not exist is empty
/// already. Otherwise the cleaner succeeds when the trash could be removed
/// and made again.
pub open spec fn trash_script(dir: PathModel) -> Seq<ScriptStepModel> {
    seq![
        ScriptStepModel { request: RequestModel::Exists { path: dir }, rule: Rule::StopUnlessYes },
        ScriptStepModel { request: RequestModel::RemoveDirAll { path: dir }, rule: Rule::StopOnFailure },
        ScriptStepModel { request: RequestModel::CreateDir { path: dir }, rule: Rule::Count },
    ]
}

/// The script that empties the caches of cargo below `cargo`, its
/// directory in the user's home. It always succeeds.
pub open spec fn cargo_script(cargo: PathModel) -> Seq<ScriptStepModel> {
    recreate(cargo.join("registry"@)) + recreate(cargo.join("git"@)) + seq![settle()]
}

/// The script that empties the cache of npm. It always succeeds.
pub open spec fn npm_script(dir: PathModel) -> Seq<ScriptStepModel> {
    recreate(dir) + seq![settle()]
}

fn settle_step() -> (step: ScriptStep)
    ensures
        step@ == settle(),
{
    ScriptStep { request: FsRequest::Pause { millis: SETTLE_MILLIS }, rule: Rule::Ignore }
}

fn shell_cleaner(command: &str) -> (step: CleanStep)
    ensures
        step@ == clean_begin(shell_script(command@)),
        step@ matches CleanStepModel::Ask(job, _) ==> job.wf(),
{
    let mut argv: Vec<String> = Vec::new();
    argv.push(String::from_str("pkexec"));
    argv.push(String::from_str("bash"));
    argv.push(String::from_str("-c"));
    argv.push(String::from_str(command));
    assert(names_view(argv@) =~= seq!["pkexec"@, "bash"@, "-c"@, command@]);
    let mut steps: Vec<ScriptStep> = Vec::new();
    steps.push(ScriptStep { request: FsRequest::RunPrivileged { argv }, rule: Rule::Count });
    steps.push(settle_step());
    assert(script_view(steps@) =~= shell_script(command@));
    CleanJob::begin(steps)
}

fn push_recreate(steps: &mut Vec<ScriptStep>, dir: &FsPath)
    ensures
        script_view(final(steps)@) == script_view(old(steps)@) + recreate(dir@),
{
    steps.push(ScriptStep { request: FsRequest::RemoveDirAll { path: dir.clone() }, rule: Rule::Ignore });
    steps.push(ScriptStep { request: FsRequest::CreateDirAll { path: dir.clone() }, rule: Rule::Ignore });
    assert(script_view(steps@) =~= script_view(old(steps)@) + recreate(dir@));
}

/// Starts cleaning the package cache of pacman, every question of pacman
/// answered with yes.
pub fn clean_pacman_cache() -> (step: CleanStep)
    ensures
        step@ == clean_begin(shell_script("yes | pacman -Scc"@)),
        step@ matches CleanStepModel::Ask(job, _) ==> job.wf(),
{
    shell_cleaner("yes | pacman -Scc")
}

/// Starts removing the packages that nothing depends on any more.
pub fn clean_orphaned_packages() -> (step: CleanStep)
    ensures
        step@ == clean_begin(shell_script("pacman -Rns $(pacman -Qtdq) --noconfirm"@)),
        step@ matches CleanStepModel::Ask(job, _) ==> job.wf(),
{
    shell_cleaner("pacman -Rns $(pacman -Qtdq) --noconfirm")
}

/// Starts removing what docker does not use: containers, networks, images
/// and volumes.
pub fn clean_docker() -> (step: CleanStep)
    ensures
        step@ == clean_begin(shell_script("docker system prune -a --volumes -f"@)),
        step@ matches CleanStepModel::Ask(job, _) ==> job.wf(),
{
    shell_cleaner("docker system prune -a --volumes -f")
}

/// Starts vacuuming the journal of systemd.
pub fn vacuum_journal() -> (step: CleanStep)
    ensures
        step@ == clean_begin(journal_script()),
        step@ matches CleanStepModel::Ask(job, _) ==> job.wf(),
{
    let mut argv: Vec<String> = Vec::new();
    argv.push(String::from_str("pkexec"));
    argv.push(String::from_str("journalctl"));
    argv.push(String::from_str("--vacuum-time=14d"));
    assert(names_view(argv@) =~= seq!["pkexec"@, "journalctl"@, "--vacuum-time=14d"@]);
    let mut steps: Vec<ScriptStep> = Vec::new();
    steps.push(ScriptStep { request: FsRequest::RunPrivileged { argv }, rule: Rule::Count });
    steps.push(settle_step());
    assert(script_view(steps@) =~= journal_script());
    CleanJob::begin(steps)
}

/// Starts emptying the build cache of yay: the directory `yay` inside the
/// user's cache directory.
pub fn clean_yay_cache() -> (step: CleanStep)
    ensures
        exists|found: Option<Seq<char>>|
            step@ == clean_begin(yay_script(found_or(found, "~/.cache"@).join("yay"@))),
        step@ matches CleanStepModel::Ask(job, _) ==> job.wf(),
{
    let dir = cache_dir().join("yay");
    let mut steps: Vec<ScriptStep> = Vec::new();
    steps.push(ScriptStep { request: FsRequest::Exists { path: dir.clone() }, rule: Rule::StopUnlessYes });
    steps.push(ScriptStep { request: FsRequest::RemoveDirAll { path: dir.clone() }, rule: Rule::Count });
    steps.push(ScriptStep { request: FsRequest::CreateDirAll { path: dir.clone() }, rule: Rule::Ignore });
    steps.push(settle_step());
    assert(script_view(steps@) =~= yay_script(dir@));
    CleanJob::begin(steps)
}

/// Starts emptying the trash: the directory `Trash` inside the user's local
/// data directory.
pub fn empty_trash() -> (step: CleanStep)
    ensures
        exists|found: Option<Seq<char>>|
            step@ == clean_begin(trash_script(found_or(found, "~/.local/share"@).join("Trash"@))),
        step@ matches CleanStepModel::Ask(job, _) ==> job.wf(),
{
    let dir = data_local_dir().join("Trash");
    let mut steps: Vec<ScriptStep> = Vec::new();
    steps.push(ScriptStep { request: FsRequest::Exists { path: dir.clone() }, rule: Rule::StopUnlessYes });
    steps.push(
        ScriptStep { request: FsRequest::RemoveDirAll { path: dir.clone() }, rule: Rule::StopOnFailure },
    );
    steps.push(ScriptStep { request: FsRequest::CreateDir { path: dir.clone() }, rule: Rule::Count });
    assert(script_view(steps@) =~= trash_script(dir@));
    CleanJob::begin(steps)
}

/// Starts emptying the caches of cargo: the directories `registry` and
/// `git` inside `.cargo` in the user's home directory.
pub fn clean_cargo_cache() -> (step: CleanStep)
    ensures
        exists|found: Option<Seq<char>>|
            step@ == clean_begin(cargo_script(found_or(found, "~"@).join(".cargo"@))),
        step@ matches CleanStepModel::Ask(job, _) ==> job.wf(),
{
    let cargo = home_boundary().join(".cargo");
    let mut steps: Vec<ScriptStep> = Vec::new();
    assert(script_view(steps@) =~= Seq::empty());
    push_recreate(&mut steps, &cargo.join("registry"));
    push_recreate(&mut steps, &cargo.join("git"));
    steps.push(settle_step());
    assert(script_view(steps@) =~= cargo_script(cargo@));
    CleanJob::begin(steps)
}

/// Starts emptying the cache of npm: the directory `.npm/_cacache` inside
/// the user's home directory.
pub fn clean_npm_cache() -> (step: CleanStep)
    ensures
        exists|found: Option<Seq<char>>|
            step@ == clean_begin(npm_script(found_or(found, "~"@).join(".npm"@).join("_cacache"@))),
        step@ matches CleanStepModel::Ask(job, _) ==> job.wf(),
{
    let dir = home_boundary().join(".npm").join("_cacache");
    let mut steps: Vec<ScriptStep> = Vec::new();
    assert(script_view(steps@) =~= Seq::empty());
    push_recreate(&mut steps, &dir);
    steps.push(settle_step());
    assert(script_view(steps@) =~= npm_script(dir@));
    CleanJob::begin(steps)
}

} // verus!
