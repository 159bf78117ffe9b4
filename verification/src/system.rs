//! Disk usage of the mounted file systems, and the sizes of the caches and
//! logs that the dashboard offers to clean.

use crate::host::{FsReply, FsRequest, ReplyModel, RequestModel};
use crate::path::{names_view, parse_path, FsPath, PathModel};
use crate::platform::{cache_dir, data_local_dir, found_or, home_boundary};
use crate::scanner::paths_view;
use crate::text::{first_word, parse_first_u64, parse_u64};
use vstd::prelude::*;
use vstd::string::*;

pub use crate::cleanup::{
    clean_cargo_cache, clean_docker, clean_npm_cache, clean_orphaned_packages, clean_pacman_cache,
    clean_yay_cache, empty_trash, vacuum_journal,
};
pub use crate::trash::{move_to_trash, perm_delete_trash_item, restore_trash_item, TrashedItem};
pub use crate::units::format_bytes;

verus! {

/// A mounted file system as the host reports it.
#[derive(Debug, PartialEq, Eq)]
pub struct MountedDisk {
    pub name: String,
    pub mount_point: String,
    pub total_space: u64,
    pub available_space: u64,
}

/// The mathematical value of a [`MountedDisk`].
pub struct MountedModel {
    pub name: Seq<char>,
    pub mount_point: Seq<char>,
    pub total_space: u64,
    pub available_space: u64,
}

impl View for MountedDisk {
    type V = MountedModel;

    open spec fn view(&self) -> MountedModel {
        MountedModel {
            name: self.name@,
            mount_point: self.mount_point@,
            total_space: self.total_space,
            available_space: self.available_space,
        }
    }
}

/// How full a mounted file system is.
#[derive(Debug, PartialEq, Eq)]
pub struct DiskUsage {
    pub name: String,
    pub total_space: u64,
    pub available_space: u64,
    pub used_space: u64,
    pub mount_point: String,
}

/// The mathematical value of a [`DiskUsage`].
pub struct UsageModel {
    pub name: Seq<char>,
    pub total_space: u64,
    pub available_space: u64,
    pub used_space: u64,
    pub mount_point: Seq<char>,
}

impl View for DiskUsage {
    type V = UsageModel;

    open spec fn view(&self) -> UsageModel {
        UsageModel {
            name: self.name@,
            total_space: self.total_space,
            available_space: self.available_space,
            used_space: self.used_space,
            mount_point: self.mount_point@,
        }
    }
}

/// The views of a list of mounted file systems, in order.
pub open spec fn mounted_view(disks: Seq<MountedDisk>) -> Seq<MountedModel> {
    Seq::new(disks.len(), |i: int| disks[i]@)
}

/// The views of a list of usages, in order.
pub open spec fn usages_view(usages: Seq<DiskUsage>) -> Seq<UsageModel> {
    Seq::new(usages.len(), |i: int| usages[i]@)
}

/// The usage of one file system. What is used is the total without what is
/// available, and nothing when more is reported available than there is.
pub open spec fn usage_of(disk: MountedModel) -> UsageModel {
    UsageModel {
        name: disk.name,
        total_space: disk.total_space,
        available_space: disk.available_space,
        used_space: if disk.total_space >= disk.available_space {
            (disk.total_space - disk.available_space) as u64
        } else {
            0
        },
        mount_point: disk.mount_point,
    }
}

/// The usages of the file systems mounted at `point`, in the order in which
/// they are listed.
pub open spec fn usages_at(disks: Seq<MountedModel>, point: Seq<char>) -> Seq<UsageModel>
    decreases disks.len(),
{
    if disks.len() == 0 {
        Seq::empty()
    } else if disks.last().mount_point == point {
        usages_at(disks.drop_last(), point).push(usage_of(disks.last()))
    } else {
        usages_at(disks.drop_last(), point)
    }
}

fn push_usages_at(disks: &Vec<MountedDisk>, point: &str, usages: &mut Vec<DiskUsage>)
    ensures
        usages_view(final(usages)@) == usages_view(old(usages)@) + usages_at(mounted_view(disks@), point@),
{
    let ghost all = mounted_view(disks@);
    let ghost start = usages_view(usages@);
    let wanted = String::from_str(point);
    let mut i: usize = 0;
    proof {
        assert(all.take(0) =~= Seq::empty());
        assert(start + usages_at(all.take(0), point@) =~= start);
    }
    while i < disks.len()
        invariant
            i <= disks.len(),
            all == mounted_view(disks@),
            wanted@ == point@,
            usages_view(usages@) == start + usages_at(all.take(i as int), point@),
        decreases disks.len() - i,
    {
        proof {
            assert(all.take(i + 1).drop_last() =~= all.take(i as int));
            assert(all.take(i + 1).last() == disks[i as int]@);
        }
        let disk = &disks[i];
        if disk.mount_point == wanted {
            let ghost before = usages_view(usages@);
            usages.push(
                DiskUsage {
                    name: disk.name.clone(),
                    total_space: disk.total_space,
                    available_space: disk.available_space,
                    used_space: disk.total_space.saturating_sub(disk.available_space),
                    mount_point: disk.mount_point.clone(),
                },
            );
            proof {
                assert(usages_view(usages@) =~= before.push(usage_of(disk@)));
                assert(before.push(usage_of(disk@)) =~= start + usages_at(all.take(i + 1), point@));
            }
        }
        i += 1;
    }
    assert(all.take(i as int) =~= all);
}

/// The usage of the file systems mounted at `/` and at `/home`: first those
/// at `/`, then those at `/home`, each group in the order in which the host
/// lists them.
pub fn get_disks(mounted: &Vec<MountedDisk>) -> (usages: Vec<DiskUsage>)
    ensures
        usages_view(usages@) == usages_at(mounted_view(mounted@), "/"@) + usages_at(
            mounted_view(mounted@),
            "/home"@,
        ),
{
    let mut usages: Vec<DiskUsage> = Vec::new();
    assert(usages_view(usages@) =~= Seq::empty());
    push_usages_at(mounted, "/", &mut usages);
    push_usages_at(mounted, "/home", &mut usages);
    assert(usages_view(usages@) =~= usages_at(mounted_view(mounted@), "/"@) + usages_at(
        mounted_view(mounted@),
        "/home"@,
    ));
    usages
}

/// The size that `du -sb` printed: the first word of its output read as a
/// number of bytes, or zero when the output does not start with a number.
pub open spec fn du_size(output: Seq<char>) -> u64 {
    match parse_u64(first_word(output)) {
        Some(size) => size,
        None => 0,
    }
}

/// The command that measures the directory `path`.
pub open spec fn du_command(path: PathModel) -> Seq<Seq<char>> {
    seq!["du"@, "-sb"@, path.display()]
}

/// The size that the host's reply to a measurement reports: zero unless
/// the command ran and printed a number. How the command exited does not
/// matter.
pub open spec fn measured(reply: ReplyModel) -> u64 {
    match reply {
        ReplyModel::Output { text, success } => du_size(text),
        _ => 0,
    }
}

/// How far the measurement of a directory has come.
#[derive(Debug, Clone, Copy, PartialEq, Eq, Structural)]
pub enum SizeStage {
    /// The host was asked to run the command without which nothing is
    /// measured.
    Guarding,
    /// The host was asked whether the directory exists.
    CheckingPath,
    /// The host was asked to measure the directory.
    Measuring,
}

/// The measurement of some directories under way. The sizes of the
/// directories are added up.
#[derive(Debug, PartialEq, Eq)]
pub struct SizeJob {
    stage: SizeStage,
    paths: Vec<FsPath>,
    next: usize,
    total: u64,
}

/// The mathematical value of a [`SizeJob`].
pub struct SizeJobModel {
    /// What the host was last asked for.
    pub stage: SizeStage,
    /// The directories to measure.
    pub paths: Seq<PathModel>,
    /// The place of the directory that is being measured.
    pub next: int,
    /// The sizes of the directories before it, added up.
    pub total: u64,
}

impl SizeJobModel {
    /// Whether the directory being measured is one of the list.
    pub open spec fn wf(self) -> bool {
        0 <= self.next < self.paths.len()
    }
}

impl View for SizeJob {
    type V = SizeJobModel;

    closed spec fn view(&self) -> SizeJobModel {
        SizeJobModel {
            stage: self.stage,
            paths: paths_view(self.paths@),
            next: self.next as int,
            total: self.total,
        }
    }
}

/// What a measurement does next: ask the host for something, or finish
/// with the size.
#[derive(Debug, PartialEq, Eq)]
pub enum SizeStep {
    Ask(SizeJob, FsRequest),
    Finish(u64),
}

/// The mathematical value of a [`SizeStep`].
pub enum SizeStepModel {
    Ask(SizeJobModel, RequestModel),
    Finish(u64),
}

impl View for SizeStep {
    type V = SizeStepModel;

    open spec fn view(&self) -> SizeStepModel {
        match self {
            SizeStep::Ask(job, request) => SizeStepModel::Ask(job@, request@),
            SizeStep::Finish(size) => SizeStepModel::Finish(*size),
        }
    }
}

/// The step that turns to the directory at place `next` with `total` bytes
/// counted so far: the host is asked whether the directory exists, or the
/// measurement finishes when no directory is left.
pub open spec fn size_turn_to(paths: Seq<PathModel>, next: int, total: u64) -> SizeStepModel {
    if 0 <= next < paths.len() {
        SizeStepModel::Ask(
            SizeJobModel { stage: SizeStage::CheckingPath, paths, next, total },
            RequestModel::Exists { path: paths[next] },
        )
    } else {
        SizeStepModel::Finish(total)
    }
}

/// The first step of measuring the directories.
pub open spec fn size_begin(paths: Seq<PathModel>) -> SizeStepModel {
    size_turn_to(paths, 0, 0)
}

/// The step that follows the host's `reply`.
///
/// A directory that does not exist counts as empty and is not measured.
/// One that exists is measured with `du -sb`, and counts as empty when the
/// command cannot be run or prints no number. Where a command guards the
/// measurement, nothing is measured unless it exits successfully.
pub open spec fn size_advance(job: SizeJobModel, reply: ReplyModel) -> SizeStepModel {
    match job.stage {
        SizeStage::Guarding => {
            if reply matches ReplyModel::Output { success: true, .. } {
                size_turn_to(job.paths, 0, 0)
            } else {
                SizeStepModel::Finish(0)
            }
        },
        SizeStage::CheckingPath => {
            if reply.is_yes() {
                SizeStepModel::Ask(
                    SizeJobModel { stage: SizeStage::Measuring, ..job },
                    RequestModel::RunCommand { argv: du_command(job.paths[job.next]) },
                )
            } else {
                size_turn_to(job.paths, job.next + 1, job.total)
            }
        },
        SizeStage::Measuring => size_turn_to(
            job.paths,
            job.next + 1,
            (job.total + measured(reply)) as u64,
        ),
    }
}

impl SizeJob {
    fn turn_to(paths: Vec<FsPath>, next: usize, total: u64) -> (step: SizeStep)
        ensures
            step@ == size_turn_to(paths_view(paths@), next as int, total),
            step@ matches SizeStepModel::Ask(job, _) ==> job.wf(),
    {
        if next < paths.len() {
            let path = paths[next].clone();
            SizeStep::Ask(
                SizeJob { stage: SizeStage::CheckingPath, paths, next, total },
                FsRequest::Exists { path },
            )
        } else {
            SizeStep::Finish(total)
        }
    }

    /// The first step of measuring the directories `paths` together.
    pub fn begin(paths: Vec<FsPath>) -> (step: SizeStep)
        ensures
            step@ == size_begin(paths_view(paths@)),
            step@ matches SizeStepModel::Ask(job, _) ==> job.wf(),
    {
        Self::turn_to(paths, 0, 0)
    }

    /// What the host was last asked for.
    pub fn stage(&self) -> (stage: SizeStage)
        ensures
            stage == self@.stage,
    {
        self.stage
    }

    /// Whether `reply` is one that [`SizeJob::advance`] can take: the size
    /// that it reports must not carry the sum beyond what a `u64` can
    /// count.
    pub open spec fn accepts(self, reply: ReplyModel) -> bool {
        self@.stage == SizeStage::Measuring ==> self@.total + measured(reply) <= u64::MAX
    }

    /// Decides [`SizeJob::accepts`].
    pub fn can_take(&self, reply: &FsReply) -> (ok: bool)
        ensures
            ok == self.accepts(reply@),
    {
        match self.stage {
            SizeStage::Measuring => self.total.checked_add(Self::size_in(reply)).is_some(),
            _ => true,
        }
    }

    fn size_in(reply: &FsReply) -> (size: u64)
        ensures
            size == measured(reply@),
    {
        match reply {
            FsReply::Output { text, success } => match parse_first_u64(text.as_str()) {
                Some(size) => size,
                None => 0,
            },
            _ => 0,
        }
    }

    /// The step that follows the host's `reply`.
    pub fn advance(self, reply: FsReply) -> (step: SizeStep)
        requires
            self@.wf(),
            self.accepts(reply@),
        ensures
            step@ == size_advance(self@, reply@),
            step@ matches SizeStepModel::Ask(job, _) ==> job.wf(),
    {
        assert(self.next < self.paths.len());
        match self.stage {
            SizeStage::Guarding => {
                match reply {
                    FsReply::Output { text, success: true } => Self::turn_to(self.paths, 0, 0),
                    _ => SizeStep::Finish(0),
                }
            },
            SizeStage::CheckingPath => {
                if reply.is_yes() {
                    let mut argv: Vec<String> = Vec::new();
                    argv.push(String::from_str("du"));
                    argv.push(String::from_str("-sb"));
                    argv.push(self.paths[self.next].display());
                    assert(names_view(argv@) =~= du_command(self@.paths[self@.next]));
                    SizeStep::Ask(
                        SizeJob { stage: SizeStage::Measuring, ..self },
                        FsRequest::RunCommand { argv },
                    )
                } else {
                    Self::turn_to(self.paths, self.next + 1, self.total)
                }
            },
            SizeStage::Measuring => {
                let total = self.total + Self::size_in(&reply);
                Self::turn_to(self.paths, self.next + 1, total)
            },
        }
    }
}

/// Starts measuring the directory that `path` names.
pub fn get_dir_size_with_du(path: &str) -> (step: SizeStep)
    ensures
        step@ == size_begin(seq![parse_path(path@)]),
        step@ matches SizeStepModel::Ask(job, _) ==> job.wf(),
{
    measure_one(FsPath::parse(path))
}

fn measure_one(path: FsPath) -> (step: SizeStep)
    ensures
        step@ == size_begin(seq![path@]),
        step@ matches SizeStepModel::Ask(job, _) ==> job.wf(),
{
    let mut paths: Vec<FsPath> = Vec::new();
    paths.push(path);
    assert(paths_view(paths@) =~= seq![path@]);
    SizeJob::begin(paths)
}

fn measure_two(first: FsPath, second: FsPath) -> (step: SizeStep)
    ensures
        step@ == size_begin(seq![first@, second@]),
        step@ matches SizeStepModel::Ask(job, _) ==> job.wf(),
{
    let mut paths: Vec<FsPath> = Vec::new();
    paths.push(first);
    paths.push(second);
    assert(paths_view(paths@) =~= seq![first@, second@]);
    SizeJob::begin(paths)
}

/// Starts measuring the package cache of pacman.
pub fn get_pacman_cache_size() -> (step: SizeStep)
    ensures
        step@ == size_begin(seq![parse_path("/var/cache/pacman/pkg"@)]),
        step@ matches SizeStepModel::Ask(job, _) ==> job.wf(),
{
    get_dir_size_with_du("/var/cache/pacman/pkg")
}

/// Starts measuring the journal of systemd.
pub fn get_journal_size() -> (step: SizeStep)
    ensures
        step@ == size_begin(seq![parse_path("/var/log/journal"@)]),
        step@ matches SizeStepModel::Ask(job, _) ==> job.wf(),
{
    get_dir_size_with_du("/var/log/journal")
}

/// The command that tells whether docker is there and running.
pub open spec fn docker_probe() -> Seq<Seq<char>> {
    seq!["docker"@, "system"@, "df"@, "--format"@, "{{.Size}}"@]
}

/// The first step of measuring the data of docker: the host is asked to
/// run the command that tells whether docker is there.
pub open spec fn docker_begin() -> SizeStepModel {
    SizeStepModel::Ask(
        SizeJobModel {
            stage: SizeStage::Guarding,
            paths: seq![parse_path("/var/lib/docker"@)],
            next: 0,
            total: 0,
        },
        RequestModel::RunCommand { argv: docker_probe() },
    )
}

/// Starts measuring the data of docker. Nothing is measured unless docker
/// answers.
pub fn get_docker_size() -> (step: SizeStep)
    ensures
        step@ == docker_begin(),
        step@ matches SizeStepModel::Ask(job, _) ==> job.wf(),
{
    let mut argv: Vec<String> = Vec::new();
    argv.push(String::from_str("docker"));
    argv.push(String::from_str("system"));
    argv.push(String::from_str("df"));
    argv.push(String::from_str("--format"));
    argv.push(String::from_str("{{.Size}}"));
    assert(names_view(argv@) =~= docker_probe());
    let mut paths: Vec<FsPath> = Vec::new();
    paths.push(FsPath::parse("/var/lib/docker"));
    assert(paths_view(paths@) =~= seq![parse_path("/var/lib/docker"@)]);
    SizeStep::Ask(
        SizeJob { stage: SizeStage::Guarding, paths, next: 0, total: 0 },
        FsRequest::RunCommand { argv },
    )
}

/// The command that lists the packages that nothing depends on, one to a
/// line.
pub open spec fn orphan_list_command() -> Seq<Seq<char>> {
    seq!["pacman"@, "-Qtdq"@]
}

/// The command that prints the installed size of each of those packages,
/// one to a line, as a number and a unit.
pub open spec fn orphan_sizes_command() -> Seq<Seq<char>> {
    seq!["bash"@, "-c"@, "pacman -Qi $(pacman -Qtdq) | awk '/Installed Size/ {print $4, $5}'"@]
}

/// The number of packages in the host's reply to the list command: the
/// lines of its output that hold anything but white space, and none when
/// the command could not be run.
pub open spec fn orphans_in(reply: ReplyModel) -> nat {
    match reply {
        ReplyModel::Output { text, success } => crate::text::listed(text),
        _ => 0,
    }
}

/// What a command printed; nothing when it could not be run.
pub open spec fn printed(reply: ReplyModel) -> Seq<char> {
    match reply {
        ReplyModel::Output { text, success } => text,
        _ => Seq::empty(),
    }
}

/// The survey of the packages that nothing depends on, under way. The
/// number stands for how many packages the list held, and is zero while the
/// list is asked for.
#[derive(Debug, PartialEq, Eq)]
pub struct OrphanJob {
    count: usize,
}

/// What the survey does next: ask the host for something, or finish with
/// the number of packages and the sizes that were printed for them.
#[derive(Debug, PartialEq, Eq)]
pub enum OrphanStep {
    Ask(OrphanJob, FsRequest),
    Finish { count: usize, sizes: String },
}

/// The mathematical value of an [`OrphanStep`]. A job is its number of
/// packages.
pub enum OrphanStepModel {
    Ask(nat, RequestModel),
    Finish { count: nat, sizes: Seq<char> },
}

impl View for OrphanJob {
    type V = nat;

    closed spec fn view(&self) -> nat {
        self.count as nat
    }
}

impl View for OrphanStep {
    type V = OrphanStepModel;

    open spec fn view(&self) -> OrphanStepModel {
        match self {
            OrphanStep::Ask(job, request) => OrphanStepModel::Ask(job@, request@),
            OrphanStep::Finish { count, sizes } => OrphanStepModel::Finish {
                count: *count as nat,
                sizes: sizes@,
            },
        }
    }
}

/// The first step of the survey: the list of packages is asked for.
pub open spec fn orphans_begin() -> OrphanStepModel {
    OrphanStepModel::Ask(0, RequestModel::RunCommand { argv: orphan_list_command() })
}

/// The step that follows the host's `reply`. After the list the packages
/// are counted; without packages the survey is over, otherwise their sizes
/// are asked for. After the sizes the survey finishes with what was
/// printed.
pub open spec fn orphans_advance(count: nat, reply: ReplyModel) -> OrphanStepModel {
    if count > 0 {
        OrphanStepModel::Finish { count, sizes: printed(reply) }
    } else if orphans_in(reply) == 0 {
        OrphanStepModel::Finish { count: 0, sizes: Seq::empty() }
    } else {
        OrphanStepModel::Ask(orphans_in(reply), RequestModel::RunCommand { argv: orphan_sizes_command() })
    }
}

impl OrphanJob {
    /// The step that follows the host's `reply`.
    pub fn advance(self, reply: FsReply) -> (step: OrphanStep)
        ensures
            step@ == orphans_advance(self@, reply@),
    {
        if self.count > 0 {
            let sizes = match reply {
                FsReply::Output { text, success } => text,
                _ => String::new(),
            };
            return OrphanStep::Finish { count: self.count, sizes };
        }
        let count = match reply {
            FsReply::Output { text, success } => crate::text::count_listed(text.as_str()),
            _ => 0,
        };
        if count == 0 {
            return OrphanStep::Finish { count: 0, sizes: String::new() };
        }
        let mut argv: Vec<String> = Vec::new();
        argv.push(String::from_str("bash"));
        argv.push(String::from_str("-c"));
        argv.push(String::from_str("pacman -Qi $(pacman -Qtdq) | awk '/Installed Size/ {print $4, $5}'"));
        assert(names_view(argv@) =~= orphan_sizes_command());
        OrphanStep::Ask(OrphanJob { count }, FsRequest::RunCommand { argv })
    }
}

/// Starts the survey of the packages that nothing depends on. It ends
/// with their number and with the sizes as the package manager prints
/// them, one to a line; adding those up is left to the caller.
pub fn get_orphaned_packages() -> (step: OrphanStep)
    ensures
        step@ == orphans_begin(),
{
    let mut argv: Vec<String> = Vec::new();
    argv.push(String::from_str("pacman"));
    argv.push(String::from_str("-Qtdq"));
    assert(names_view(argv@) =~= orphan_list_command());
    OrphanStep::Ask(OrphanJob { count: 0 }, FsRequest::RunCommand { argv })
}

/// Starts measuring the build cache of yay: the directory `yay` inside the
/// user's cache directory.
pub fn get_yay_cache_size() -> (step: SizeStep)
    ensures
        exists|found: Option<Seq<char>>|
            step@ == size_begin(seq![found_or(found, "~/.cache"@).join("yay"@)]),
        step@ matches SizeStepModel::Ask(job, _) ==> job.wf(),
{
    let dir = cache_dir();
    measure_one(dir.join("yay"))
}

/// Starts measuring the trash: the directory `Trash` inside the user's
/// local data directory.
pub fn get_trash_size() -> (step: SizeStep)
    ensures
        exists|found: Option<Seq<char>>|
            step@ == size_begin(seq![found_or(found, "~/.local/share"@).join("Trash"@)]),
        step@ matches SizeStepModel::Ask(job, _) ==> job.wf(),
{
    let dir = data_local_dir();
    measure_one(dir.join("Trash"))
}

/// Starts measuring the library of Steam: the directory `Steam` inside the
/// user's local data directory.
pub fn get_steam_size() -> (step: SizeStep)
    ensures
        exists|found: Option<Seq<char>>|
            step@ == size_begin(seq![found_or(found, "~/.local/share"@).join("Steam"@)]),
        step@ matches SizeStepModel::Ask(job, _) ==> job.wf(),
{
    let dir = data_local_dir();
    measure_one(dir.join("Steam"))
}

/// Starts measuring the cache of npm: the directory `.npm/_cacache` inside
/// the user's home directory.
pub fn get_npm_cache_size() -> (step: SizeStep)
    ensures
        exists|found: Option<Seq<char>>|
            step@ == size_begin(seq![found_or(found, "~"@).join(".npm"@).join("_cacache"@)]),
        step@ matches SizeStepModel::Ask(job, _) ==> job.wf(),
{
    let home = home_boundary();
    measure_one(home.join(".npm").join("_cacache"))
}

/// Starts measuring the caches of cargo: the directories `registry` and
/// `git` inside `.cargo` in the user's home directory, added up.
pub fn get_cargo_cache_size() -> (step: SizeStep)
    ensures
        exists|found: Option<Seq<char>>|
            step@ == size_begin(
                seq![
                    found_or(found, "~"@).join(".cargo"@).join("registry"@),
                    found_or(found, "~"@).join(".cargo"@).join("git"@),
                ],
            ),
        step@ matches SizeStepModel::Ask(job, _) ==> job.wf(),
{
    let cargo = home_boundary().join(".cargo");
    measure_two(cargo.join("registry"), cargo.join("git"))
}

/// Starts measuring the applications of flatpak: those installed for the
/// system and those installed for the user, added up.
pub fn get_flatpak_size() -> (step: SizeStep)
    ensures
        exists|found: Option<Seq<char>>|
            step@ == size_begin(
                seq![
                    parse_path("/var/lib/flatpak/app"@),
                    found_or(found, "~/.local/share"@).join("flatpak"@).join("app"@),
                ],
            ),
        step@ matches SizeStepModel::Ask(job, _) ==> job.wf(),
{
    let user = data_local_dir().join("flatpak").join("app");
    measure_two(FsPath::parse("/var/lib/flatpak/app"), user)
}

} // verus!
