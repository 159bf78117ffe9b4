//! A model of the host, for stating what the jobs achieve.
//!
//! The model world holds what lies at each path. It is flat: a directory
//! and what lies below it are separate things to it, and every operation
//! works whenever the paths that it needs are there. Driving a job against
//! the model shows what the job does to a file system that behaves.

use crate::host::{LocalTime, ReplyModel, RequestModel};
use crate::path::{lemma_display_parses_back, parse_path, PathModel};
use crate::text::{decimal, lemma_decimal_injective};
use crate::trash::{
    candidate_name, erase_advance, erase_begin, info_content, info_name, put_advance, put_begin,
    put_retry, removal_command, restore_advance, restore_begin, route_of, stamp_text, EraseJobModel,
    EraseStage, ItemModel, ItemStepModel, PutJobModel, PutStage, PutStepModel, RestoreJobModel,
    RestoreStage, Route,
};
use vstd::prelude::*;

verus! {

/// What lies at each path.
pub type World = Map<PathModel, Seq<char>>;

/// The world after the host has carried `request` out, and the host's
/// reply.
///
/// Questions leave the world as it is. Writing puts the content at the
/// path. Renaming moves what lies at the one path to the other, and fails
/// when nothing lies there. Removing takes away what lies at the path, and
/// fails when nothing lies there. Making directories changes nothing, since
/// the model has no need of them. The privileged removal of a path takes
/// away what lies there, if anything does; no other command can be run in
/// the model. The world by itself has no clock.
pub open spec fn perform(world: World, request: RequestModel) -> (World, ReplyModel) {
    match request {
        RequestModel::Exists { path } => (world, ReplyModel::Answer(world.contains_key(path))),
        RequestModel::IsDir { path } => (world, ReplyModel::Answer(false)),
        RequestModel::Canonicalize { path } => (world, ReplyModel::Resolved(path)),
        RequestModel::WalkFiles { root } => (world, ReplyModel::Files(Seq::empty())),
        RequestModel::CreateDirAll { path } => (world, ReplyModel::Done),
        RequestModel::CreateDir { path } => (world, ReplyModel::Done),
        RequestModel::Pause { millis } => (world, ReplyModel::Done),
        RequestModel::ReadClock => (world, ReplyModel::Failed("No clock"@)),
        RequestModel::WriteFile { path, content } => (world.insert(path, content), ReplyModel::Done),
        RequestModel::Rename { from, to } => if world.contains_key(from) {
            (world.remove(from).insert(to, world[from]), ReplyModel::Done)
        } else {
            (world, ReplyModel::Failed("No such file or directory"@))
        },
        RequestModel::RemoveFile { path } => if world.contains_key(path) {
            (world.remove(path), ReplyModel::Done)
        } else {
            (world, ReplyModel::Failed("No such file or directory"@))
        },
        RequestModel::RemoveDirAll { path } => if world.contains_key(path) {
            (world.remove(path), ReplyModel::Done)
        } else {
            (world, ReplyModel::Failed("No such file or directory"@))
        },
        RequestModel::RunPrivileged { argv } => if argv.len() == 4 && argv.take(3) == seq![
            "pkexec"@,
            "rm"@,
            "-rf"@,
        ] {
            (world.remove(parse_path(argv[3])), ReplyModel::Done)
        } else {
            (world, ReplyModel::Failed("No such command"@))
        },
        RequestModel::RunCommand { argv } => (world, ReplyModel::Failed("No such command"@)),
    }
}

/// The world after the host has carried `request` out while its clock
/// shows `now`, and the host's reply.
pub open spec fn told(world: World, now: LocalTime, request: RequestModel) -> (World, ReplyModel) {
    if request is ReadClock {
        (world, ReplyModel::Time(now))
    } else {
        perform(world, request)
    }
}

/// The world after a deletion has been driven from `step` for at most
/// `fuel` requests while the clock shows `now`, and how the deletion ended,
/// if it did.
pub open spec fn drive_put(world: World, step: PutStepModel, now: LocalTime, fuel: nat) -> (
    World,
    Option<Result<ItemModel, Seq<char>>>,
)
    decreases fuel,
{
    match step {
        PutStepModel::Finish(result) => (world, Some(result)),
        PutStepModel::Ask(job, request) => if fuel == 0 {
            (world, None)
        } else {
            let (next, reply) = told(world, now, request);
            drive_put(next, put_advance(job, reply), now, (fuel - 1) as nat)
        },
    }
}

/// The world after a restore has been driven from `step` for at most `fuel`
/// requests, and how the restore ended, if it did.
pub open spec fn drive_restore(world: World, step: ItemStepModel<RestoreJobModel>, fuel: nat) -> (
    World,
    Option<Result<(), Seq<char>>>,
)
    decreases fuel,
{
    match step {
        ItemStepModel::Finish(result) => (world, Some(result)),
        ItemStepModel::Ask(job, request) => if fuel == 0 {
            (world, None)
        } else {
            let (next, reply) = perform(world, request);
            drive_restore(next, restore_advance(job, reply), (fuel - 1) as nat)
        },
    }
}

/// The world after an erasure has been driven from `step` for at most
/// `fuel` requests, and how the erasure ended, if it did.
pub open spec fn drive_erase(world: World, step: ItemStepModel<EraseJobModel>, fuel: nat) -> (
    World,
    Option<Result<(), Seq<char>>>,
)
    decreases fuel,
{
    match step {
        ItemStepModel::Finish(result) => (world, Some(result)),
        ItemStepModel::Ask(job, request) => if fuel == 0 {
            (world, None)
        } else {
            let (next, reply) = perform(world, request);
            drive_erase(next, erase_advance(job, reply), (fuel - 1) as nat)
        },
    }
}

/// The world after `original` was staged as `item`: the note is written,
/// and what lay at the original path lies in the staging area.
pub open spec fn staged_world(world: World, item: ItemModel, now: LocalTime) -> World {
    world.insert(item.trash_info_path, info_content(item.original_path, stamp_text(now))).remove(
        item.original_path,
    ).insert(item.trash_file_path, world[item.original_path])
}

/// Different attempts try different names.
pub proof fn lemma_candidates_differ(file_name: Seq<char>, first: nat, second: nat)
    requires
        first != second,
    ensures
        candidate_name(file_name, first) != candidate_name(file_name, second),
{
    let a = candidate_name(file_name, first);
    let b = candidate_name(file_name, second);
    crate::text::lemma_decimal_shape(first);
    crate::text::lemma_decimal_shape(second);
    if first == 0 {
        assert(b.len() > a.len());
    } else if second == 0 {
        assert(a.len() > b.len());
    } else if a == b {
        let lead = file_name + seq!['_'];
        assert(a =~= lead + decimal(first));
        assert(b =~= lead + decimal(second));
        assert(decimal(first) =~= a.skip(lead.len() as int));
        assert(decimal(second) =~= b.skip(lead.len() as int));
        lemma_decimal_injective(first, second);
    }
}

/// A staged item and its note never share a path.
pub proof fn lemma_note_lies_apart(job: PutJobModel)
    ensures
        job.staged_path() != job.info_path(),
{
    reveal_strlit(".trashinfo");
    let name = job.staged_name();
    assert(info_name(name).len() == name.len() + 10);
    if job.staged_path() == job.info_path() {
        assert(job.staged_path().parts.last() == name);
        assert(job.info_path().parts.last() == info_name(name));
    }
}

/// Whether deleting `original` in `world` ends with a record within `fuel`
/// requests.
pub open spec fn put_succeeds(
    world: World,
    original: PathModel,
    home: PathModel,
    trash_root: PathModel,
    now: LocalTime,
    fuel: nat,
) -> bool {
    drive_put(world, put_begin(original, home, trash_root), now, fuel).1 matches Some(Ok(_))
}

/// The record that deleting `original` in `world` ends with.
pub open spec fn put_record(
    world: World,
    original: PathModel,
    home: PathModel,
    trash_root: PathModel,
    now: LocalTime,
    fuel: nat,
) -> ItemModel
    recommends
        put_succeeds(world, original, home, trash_root, now, fuel),
{
    record_in(drive_put(world, put_begin(original, home, trash_root), now, fuel).1)
}

/// The world that deleting `original` in `world` leaves.
pub open spec fn put_world(
    world: World,
    original: PathModel,
    home: PathModel,
    trash_root: PathModel,
    now: LocalTime,
    fuel: nat,
) -> World {
    drive_put(world, put_begin(original, home, trash_root), now, fuel).0
}

/// The record in the outcome of a deletion that succeeded.
pub open spec fn record_in(outcome: Option<Result<ItemModel, Seq<char>>>) -> ItemModel
    recommends
        outcome matches Some(Ok(_)),
{
    outcome->Some_0->Ok_0
}

/// Whether restoring `item` in `world` comes to an end within `fuel`
/// requests.
pub open spec fn restore_ends(world: World, item: ItemModel, fuel: nat) -> bool {
    drive_restore(world, restore_begin(item), fuel).1 is Some
}

/// Whether restoring `item` in `world` ends well within `fuel` requests.
pub open spec fn restore_succeeds(world: World, item: ItemModel, fuel: nat) -> bool {
    drive_restore(world, restore_begin(item), fuel).1 == Some(Ok::<(), Seq<char>>(()))
}

/// The world that restoring `item` in `world` leaves.
pub open spec fn restore_world(world: World, item: ItemModel, fuel: nat) -> World {
    drive_restore(world, restore_begin(item), fuel).0
}

/// The step that asks whether the staged path of the job's attempt is
/// taken.
pub open spec fn probe(job: PutJobModel) -> PutStepModel {
    PutStepModel::Ask(job, RequestModel::Exists { path: job.staged_path() })
}

/// The job of a reversible deletion as it stands when it probes its first
/// name.
pub open spec fn first_probe(original: PathModel, trash_root: PathModel) -> PutJobModel {
    PutJobModel {
        stage: PutStage::ProbingFile,
        original,
        files_dir: trash_root.join("files"@),
        info_dir: trash_root.join("info"@),
        file_name: match original.file_name() {
            Some(name) => name,
            None => Seq::empty(),
        },
        attempt: 0,
        failure: Seq::empty(),
    }
}

/// A reversible deletion opens with the two directories of the staging
/// area, which are not the same, and then probes its first name.
proof fn lemma_put_opening(
    world: World,
    original: PathModel,
    home: PathModel,
    trash_root: PathModel,
    now: LocalTime,
    fuel: nat,
)
    requires
        route_of(original, home) == Route::Reversible,
    ensures
        first_probe(original, trash_root).files_dir != first_probe(original, trash_root).info_dir,
        fuel < 2 ==> drive_put(world, put_begin(original, home, trash_root), now, fuel).1 is None,
        fuel >= 2 ==> drive_put(world, put_begin(original, home, trash_root), now, fuel) == drive_put(
            world,
            probe(first_probe(original, trash_root)),
            now,
            (fuel - 2) as nat,
        ),
{
    let s0 = put_begin(original, home, trash_root);
    let job = s0->Ask_0;
    let probing = first_probe(original, trash_root);
    assert(probing == job.at(PutStage::ProbingFile));
    assert(probing.files_dir != probing.info_dir) by {
        reveal_strlit("files");
        reveal_strlit("info");
        assert(probing.files_dir.parts.last() == "files"@);
        assert(probing.info_dir.parts.last() == "info"@);
    }
    if fuel >= 1 {
        let (w1, r1) = told(world, now, s0->Ask_1);
        let s1 = put_advance(job, r1);
        assert(drive_put(world, s0, now, fuel) == drive_put(w1, s1, now, (fuel - 1) as nat));
        let making_info = job.at(PutStage::MakingInfoDir);
        let make = RequestModel::CreateDirAll { path: job.info_dir };
        assert(s1 == PutStepModel::Ask(making_info, make));
        if fuel >= 2 {
            let (w2, r2) = told(w1, now, make);
            let s2 = put_advance(making_info, r2);
            assert(drive_put(w1, s1, now, (fuel - 1) as nat) == drive_put(w2, s2, now, (fuel - 2) as nat));
            assert(s2 == probe(probing));
        }
    }
}

/// What one attempt comes to. Where the staged path or the note of the
/// attempt is taken, the deletion goes on as after any name that is taken.
/// Where both are free, the clock is read, the note is written and the item
/// is moved; where nothing lies at the path to delete, the move fails and
/// the note is removed again.
proof fn lemma_attempt(world: World, job: PutJobModel, now: LocalTime, fuel: nat)
    requires
        job.stage == PutStage::ProbingFile,
    ensures
        ({
            let end = drive_put(world, probe(job), now, fuel);
            if world.contains_key(job.staged_path()) {
                if fuel >= 1 {
                    end == drive_put(world, put_retry(job), now, (fuel - 1) as nat)
                } else {
                    end.1 is None
                }
            } else if world.contains_key(job.info_path()) {
                if fuel >= 2 {
                    end == drive_put(world, put_retry(job), now, (fuel - 2) as nat)
                } else {
                    end.1 is None
                }
            } else if world.contains_key(job.original) {
                if fuel >= 5 {
                    end == (
                        staged_world(world, job.staged_item(), now),
                        Some(Ok::<ItemModel, Seq<char>>(job.staged_item())),
                    )
                } else {
                    end.1 is None
                }
            } else if job.original != job.info_path() {
                if fuel >= 6 {
                    end.0 == world && end.1 matches Some(Err(_))
                } else {
                    end.1 is None
                }
            } else {
                fuel >= 5 ==> end.1 is Some
            }
        }),
{
    let staged = job.staged_path();
    let note = job.info_path();
    if fuel >= 1 {
        let (w1, r1) = told(world, now, RequestModel::Exists { path: staged });
        let s1 = put_advance(job, r1);
        assert(drive_put(world, probe(job), now, fuel) == drive_put(world, s1, now, (fuel - 1) as nat));
        if world.contains_key(staged) {
            assert(r1.is_yes());
        } else {
            assert(!r1.is_yes());
            let probing_info = job.at(PutStage::ProbingInfo);
            assert(s1 == PutStepModel::Ask(probing_info, RequestModel::Exists { path: note }));
            if fuel >= 2 {
                let (w2, r2) = told(world, now, RequestModel::Exists { path: note });
                let s2 = put_advance(probing_info, r2);
                assert(drive_put(world, s1, now, (fuel - 1) as nat) == drive_put(
                    world,
                    s2,
                    now,
                    (fuel - 2) as nat,
                ));
                if world.contains_key(note) {
                    assert(r2.is_yes());
                    assert(probing_info.next_attempt() == job.next_attempt());
                    assert(put_retry(probing_info) == put_retry(job));
                } else {
                    assert(!r2.is_yes());
                    let reading = job.at(PutStage::ReadingClock);
                    assert(s2 == PutStepModel::Ask(reading, RequestModel::ReadClock));
                    if fuel >= 3 {
                        let (w3, r3) = told(world, now, RequestModel::ReadClock);
                        let s3 = put_advance(reading, r3);
                        assert(drive_put(world, s2, now, (fuel - 2) as nat) == drive_put(
                            world,
                            s3,
                            now,
                            (fuel - 3) as nat,
                        ));
                        let writing = job.at(PutStage::Writing);
                        let write = RequestModel::WriteFile {
                            path: note,
                            content: info_content(job.original, stamp_text(now)),
                        };
                        assert(s3 == PutStepModel::Ask(writing, write));
                        if fuel >= 4 {
                            let (w4, r4) = told(world, now, write);
                            let s4 = put_advance(writing, r4);
                            assert(drive_put(world, s3, now, (fuel - 3) as nat) == drive_put(
                                w4,
                                s4,
                                now,
                                (fuel - 4) as nat,
                            ));
                            let moving = job.at(PutStage::Moving);
                            let rename = RequestModel::Rename { from: job.original, to: staged };
                            assert(s4 == PutStepModel::Ask(moving, rename));
                            if fuel >= 5 {
                                let (w5, r5) = told(w4, now, rename);
                                let s5 = put_advance(moving, r5);
                                assert(drive_put(w4, s4, now, (fuel - 4) as nat) == drive_put(
                                    w5,
                                    s5,
                                    now,
                                    (fuel - 5) as nat,
                                ));
                                if world.contains_key(job.original) {
                                    assert(w4.contains_key(job.original));
                                    assert(w4[job.original] == world[job.original]);
                                    assert(s5 == PutStepModel::Finish(Ok(job.staged_item())));
                                    assert(w5 == staged_world(world, job.staged_item(), now));
                                } else if job.original != note {
                                    assert(!w4.contains_key(job.original));
                                    let cleaning = s5->Ask_0;
                                    let remove = RequestModel::RemoveFile { path: note };
                                    assert(s5 == PutStepModel::Ask(cleaning, remove));
                                    assert(cleaning.stage == PutStage::Cleaning);
                                    if fuel >= 6 {
                                        let (w6, r6) = told(w5, now, remove);
                                        assert(w6 =~= world);
                                        let s6 = put_advance(cleaning, r6);
                                        assert(drive_put(w5, s5, now, (fuel - 5) as nat) == drive_put(
                                            w6,
                                            s6,
                                            now,
                                            (fuel - 6) as nat,
                                        ));
                                        assert(s6 is Finish);
                                    }
                                } else {
                                    assert(s5 is Finish);
                                }
                            }
                        }
                    }
                }
            }
        }
    }
}

proof fn lemma_put_from_probe(world: World, job: PutJobModel, now: LocalTime, fuel: nat)
    requires
        job.stage == PutStage::ProbingFile,
        world.contains_key(job.original),
        drive_put(world, probe(job), now, fuel).1 matches Some(Ok(_)),
    ensures
        ({
            let (after, outcome) = drive_put(world, probe(job), now, fuel);
            let item = record_in(outcome);
            &&& item.original_path == job.original
            &&& !item.is_root
            &&& !world.contains_key(item.trash_file_path)
            &&& !world.contains_key(item.trash_info_path)
            &&& item.trash_file_path != item.trash_info_path
            &&& item.trash_file_path.parent() == Some(job.files_dir)
            &&& item.trash_info_path.parent() == Some(job.info_dir)
            &&& after == staged_world(world, item, now)
        }),
    decreases fuel,
{
    lemma_attempt(world, job, now, fuel);
    if world.contains_key(job.staged_path()) || world.contains_key(job.info_path()) {
        let used: nat = if world.contains_key(job.staged_path()) {
            1
        } else {
            2
        };
        assert(fuel >= used);
        if job.attempt < crate::trash::MAX_ATTEMPTS {
            assert(put_retry(job) == probe(job.next_attempt()));
            lemma_put_from_probe(world, job.next_attempt(), now, (fuel - used) as nat);
        }
    } else {
        assert(fuel >= 5);
        lemma_note_lies_apart(job);
        assert(job.staged_path().parts.drop_last() =~= job.files_dir.parts);
        assert(job.info_path().parts.drop_last() =~= job.info_dir.parts);
    }
}

/// What a reversible deletion achieves in a world that behaves: the record
/// names the original path, the staged item and its note take paths inside
/// the staging area at which nothing lay before, and the world differs from
/// the one before only in that the note is written and the item has moved
/// into the staging area.
pub proof fn lemma_put_stages_item(
    world: World,
    original: PathModel,
    home: PathModel,
    trash_root: PathModel,
    now: LocalTime,
    fuel: nat,
)
    requires
        route_of(original, home) == Route::Reversible,
        world.contains_key(original),
        put_succeeds(world, original, home, trash_root, now, fuel),
    ensures
        ({
            let item = put_record(world, original, home, trash_root, now, fuel);
            &&& item.original_path == original
            &&& !item.is_root
            &&& !world.contains_key(item.trash_file_path)
            &&& !world.contains_key(item.trash_info_path)
            &&& item.trash_file_path != item.trash_info_path
            &&& item.trash_file_path.starts_with(trash_root)
            &&& item.trash_info_path.starts_with(trash_root)
            &&& put_world(world, original, home, trash_root, now, fuel) == staged_world(world, item, now)
        }),
{
    lemma_put_opening(world, original, home, trash_root, now, fuel);
    let probing = first_probe(original, trash_root);
    lemma_put_from_probe(world, probing, now, (fuel - 2) as nat);
    let item = put_record(world, original, home, trash_root, now, fuel);
    lemma_lies_in_staging_area(trash_root, "files"@, item.trash_file_path);
    lemma_lies_in_staging_area(trash_root, "info"@, item.trash_info_path);
}

/// A path two components below a directory starts with that directory.
proof fn lemma_lies_in_staging_area(trash_root: PathModel, area: Seq<char>, path: PathModel)
    requires
        path.parent() == Some(trash_root.join(area)),
    ensures
        path.starts_with(trash_root),
{
    assert(path.parts.drop_last() == trash_root.parts.push(area));
    assert(trash_root.parts =~= path.parts.subrange(0, trash_root.parts.len() as int)) by {
        assert forall|i: int| 0 <= i < trash_root.parts.len() implies trash_root.parts[i] == path.parts[i] by {
            assert(path.parts.drop_last()[i] == trash_root.parts.push(area)[i]);
        }
    }
}

proof fn lemma_failed_put_from_probe(
    world: World,
    job: PutJobModel,
    trash_root: PathModel,
    now: LocalTime,
    fuel: nat,
)
    requires
        job.stage == PutStage::ProbingFile,
        job.info_dir == trash_root.join("info"@),
        !job.original.starts_with(trash_root),
        !world.contains_key(job.original),
        drive_put(world, probe(job), now, fuel).1 is Some,
    ensures
        drive_put(world, probe(job), now, fuel).1 matches Some(Err(_)),
        drive_put(world, probe(job), now, fuel).0 == world,
    decreases fuel,
{
    lemma_attempt(world, job, now, fuel);
    if world.contains_key(job.staged_path()) || world.contains_key(job.info_path()) {
        let used: nat = if world.contains_key(job.staged_path()) {
            1
        } else {
            2
        };
        assert(fuel >= used);
        if job.attempt < crate::trash::MAX_ATTEMPTS {
            assert(put_retry(job) == probe(job.next_attempt()));
            lemma_failed_put_from_probe(world, job.next_attempt(), trash_root, now, (fuel - used) as nat);
        }
    } else {
        assert(job.info_path().parts.drop_last() =~= job.info_dir.parts);
        lemma_lies_in_staging_area(trash_root, "info"@, job.info_path());
        assert(fuel >= 6);
    }
}

/// A deletion that fails leaves no note behind. When nothing lies at the
/// path to delete, the move into the staging area fails; the note that was
/// written for it is removed again, and the world ends up as it was.
pub proof fn lemma_failed_put_leaves_no_note(
    world: World,
    original: PathModel,
    home: PathModel,
    trash_root: PathModel,
    now: LocalTime,
    fuel: nat,
)
    requires
        route_of(original, home) == Route::Reversible,
        !original.starts_with(trash_root),
        !world.contains_key(original),
        drive_put(world, put_begin(original, home, trash_root), now, fuel).1 is Some,
    ensures
        !put_succeeds(world, original, home, trash_root, now, fuel),
        put_world(world, original, home, trash_root, now, fuel) == world,
{
    lemma_put_opening(world, original, home, trash_root, now, fuel);
    lemma_failed_put_from_probe(
        world,
        first_probe(original, trash_root),
        trash_root,
        now,
        (fuel - 2) as nat,
    );
}

/// What restoring a staged item achieves in a world that behaves: the item
/// lies at its original path again, and neither the staged copy nor the
/// note is left.
pub proof fn lemma_restore_moves_back(world: World, item: ItemModel, fuel: nat)
    requires
        !item.is_root,
        world.contains_key(item.trash_file_path),
        world.contains_key(item.trash_info_path),
        item.trash_file_path != item.trash_info_path,
        item.original_path != item.trash_info_path,
        restore_ends(world, item, fuel),
    ensures
        restore_succeeds(world, item, fuel),
        restore_world(world, item, fuel) == world.remove(item.trash_file_path).insert(
            item.original_path,
            world[item.trash_file_path],
        ).remove(item.trash_info_path),
{
    let s0 = restore_begin(item);
    let back = RequestModel::Rename { from: item.trash_file_path, to: item.original_path };
    let moving = RestoreJobModel { stage: RestoreStage::Moving, item };
    let ask_move = ItemStepModel::Ask(moving, back);
    assert(fuel > 0);
    let left = if item.original_path.parent().is_some() {
        let job = RestoreJobModel { stage: RestoreStage::MakingParent, item };
        let request = RequestModel::CreateDirAll { path: item.original_path.parent().unwrap() };
        assert(s0 == ItemStepModel::Ask(job, request));
        let (w1, r1) = perform(world, request);
        assert(restore_advance(job, r1) == ask_move);
        assert(drive_restore(world, s0, fuel) == drive_restore(world, ask_move, (fuel - 1) as nat));
        (fuel - 1) as nat
    } else {
        assert(s0 == ask_move);
        fuel
    };
    assert(drive_restore(world, s0, fuel) == drive_restore(world, ask_move, left));
    assert(left > 0);
    let (w2, r2) = perform(world, back);
    assert(r2 == ReplyModel::Done);
    let cleaning = RestoreJobModel { stage: RestoreStage::RemovingNote, item };
    let remove = RequestModel::RemoveFile { path: item.trash_info_path };
    let s2 = restore_advance(moving, r2);
    assert(s2 == ItemStepModel::Ask(cleaning, remove));
    assert(drive_restore(world, ask_move, left) == drive_restore(w2, s2, (left - 1) as nat));
    assert(left > 1);
    assert(w2.contains_key(item.trash_info_path));
    let (w3, r3) = perform(w2, remove);
    let s3 = restore_advance(cleaning, r3);
    assert(s3 == ItemStepModel::<RestoreJobModel>::Finish(Ok(())));
    assert(drive_restore(w2, s2, (left - 1) as nat) == drive_restore(w3, s3, (left - 2) as nat));
}

/// An item that was removed for good is never restored: the restore fails
/// before the host is asked for anything, so the world stays as it is.
pub proof fn lemma_removed_item_stays_removed(world: World, item: ItemModel, fuel: nat)
    requires
        item.is_root,
    ensures
        restore_begin(item) == ItemStepModel::<RestoreJobModel>::Finish(
            Err("Cannot restore permanently deleted root files"@),
        ),
        !restore_succeeds(world, item, fuel),
        restore_world(world, item, fuel) == world,
{
}

/// Deleting a path inside the home boundary and then restoring the record
/// brings the world back to where it was: what lay at the original path
/// lies there again, and neither a staged copy nor a note is left.
pub proof fn lemma_put_then_restore(
    world: World,
    original: PathModel,
    home: PathModel,
    trash_root: PathModel,
    now: LocalTime,
    fuel: nat,
)
    requires
        route_of(original, home) == Route::Reversible,
        world.contains_key(original),
        put_succeeds(world, original, home, trash_root, now, fuel),
        restore_ends(
            put_world(world, original, home, trash_root, now, fuel),
            put_record(world, original, home, trash_root, now, fuel),
            fuel,
        ),
    ensures
        restore_succeeds(
            put_world(world, original, home, trash_root, now, fuel),
            put_record(world, original, home, trash_root, now, fuel),
            fuel,
        ),
        restore_world(
            put_world(world, original, home, trash_root, now, fuel),
            put_record(world, original, home, trash_root, now, fuel),
            fuel,
        ) == world,
{
    lemma_put_stages_item(world, original, home, trash_root, now, fuel);
    let staged = put_world(world, original, home, trash_root, now, fuel);
    let item = put_record(world, original, home, trash_root, now, fuel);
    lemma_restore_moves_back(staged, item, fuel);
    assert(restore_world(staged, item, fuel) =~= world);
}

/// Deleting two paths one after the other gives two records that share
/// neither a staged path nor a note, and each can be restored whether or
/// not the other has been: restoring either puts back what lay at its
/// original path and leaves the staged copy of the other alone.
///
/// Both paths must lie outside the staging area. A path inside it may be
/// the staged copy of the other record, or the place where the other
/// record is staged once the path has been cleared.
pub proof fn lemma_two_puts_stay_apart(
    world: World,
    first: PathModel,
    second: PathModel,
    home: PathModel,
    trash_root: PathModel,
    now: LocalTime,
    fuel: nat,
)
    requires
        first != second,
        route_of(first, home) == Route::Reversible,
        route_of(second, home) == Route::Reversible,
        !first.starts_with(trash_root),
        !second.starts_with(trash_root),
        world.contains_key(first),
        world.contains_key(second),
        put_succeeds(world, first, home, trash_root, now, fuel),
        put_succeeds(put_world(world, first, home, trash_root, now, fuel), second, home, trash_root, now, fuel),
        ({
            let one = put_world(world, first, home, trash_root, now, fuel);
            let both = put_world(one, second, home, trash_root, now, fuel);
            &&& restore_ends(both, put_record(world, first, home, trash_root, now, fuel), fuel)
            &&& restore_ends(both, put_record(one, second, home, trash_root, now, fuel), fuel)
        }),
    ensures
        ({
            let one = put_world(world, first, home, trash_root, now, fuel);
            let both = put_world(one, second, home, trash_root, now, fuel);
            let a = put_record(world, first, home, trash_root, now, fuel);
            let b = put_record(one, second, home, trash_root, now, fuel);
            let after_a = restore_world(both, a, fuel);
            let after_b = restore_world(both, b, fuel);
            &&& a.trash_file_path != b.trash_file_path
            &&& a.trash_info_path != b.trash_info_path
            &&& a.trash_file_path != b.trash_info_path
            &&& a.trash_info_path != b.trash_file_path
            &&& restore_succeeds(both, a, fuel)
            &&& after_a.contains_key(first) && after_a[first] == world[first]
            &&& after_a.contains_key(b.trash_file_path) && after_a[b.trash_file_path] == world[second]
            &&& restore_succeeds(both, b, fuel)
            &&& after_b.contains_key(second) && after_b[second] == world[second]
            &&& after_b.contains_key(a.trash_file_path) && after_b[a.trash_file_path] == world[first]
        }),
{
    lemma_put_stages_item(world, first, home, trash_root, now, fuel);
    let one = put_world(world, first, home, trash_root, now, fuel);
    let a = put_record(world, first, home, trash_root, now, fuel);
    assert(one == staged_world(world, a, now));
    assert(one.contains_key(second));
    assert(one[second] == world[second]);
    assert(one.contains_key(a.trash_file_path) && one[a.trash_file_path] == world[first]);
    assert(one.contains_key(a.trash_info_path));
    lemma_put_stages_item(one, second, home, trash_root, now, fuel);
    let both = put_world(one, second, home, trash_root, now, fuel);
    let b = put_record(one, second, home, trash_root, now, fuel);
    assert(both == staged_world(one, b, now));
    assert(both.contains_key(a.trash_file_path) && both[a.trash_file_path] == world[first]);
    assert(both.contains_key(a.trash_info_path));
    assert(both.contains_key(b.trash_file_path) && both[b.trash_file_path] == world[second]);
    assert(both.contains_key(b.trash_info_path));
    lemma_restore_moves_back(both, a, fuel);
    lemma_restore_moves_back(both, b, fuel);
}

/// What erasing a staged item achieves in a world that behaves: neither the
/// staged copy nor the note is left, and nothing else changes.
pub proof fn lemma_erase_clears(world: World, item: ItemModel, fuel: nat)
    requires
        !item.is_root,
        world.contains_key(item.trash_file_path),
        world.contains_key(item.trash_info_path),
        item.trash_file_path != item.trash_info_path,
        drive_erase(world, erase_begin(item), fuel).1 is Some,
    ensures
        drive_erase(world, erase_begin(item), fuel) == (
            world.remove(item.trash_file_path).remove(item.trash_info_path),
            Some(Ok::<(), Seq<char>>(())),
        ),
{
    let s0 = erase_begin(item);
    let inspecting = EraseJobModel { stage: EraseStage::Inspecting, item, residue: None };
    let look = RequestModel::IsDir { path: item.trash_file_path };
    assert(s0 == ItemStepModel::Ask(inspecting, look));
    assert(fuel > 0);
    let (w1, r1) = perform(world, look);
    let s1 = erase_advance(inspecting, r1);
    assert(drive_erase(world, s0, fuel) == drive_erase(world, s1, (fuel - 1) as nat));
    let removing = EraseJobModel { stage: EraseStage::RemovingContent, item, residue: None };
    let remove_file = RequestModel::RemoveFile { path: item.trash_file_path };
    assert(s1 == ItemStepModel::Ask(removing, remove_file));
    assert(fuel > 1);
    let (w2, r2) = perform(world, remove_file);
    let s2 = erase_advance(removing, r2);
    assert(drive_erase(world, s1, (fuel - 1) as nat) == drive_erase(w2, s2, (fuel - 2) as nat));
    let noting = EraseJobModel { stage: EraseStage::RemovingNote, item, residue: None };
    let remove_note = RequestModel::RemoveFile { path: item.trash_info_path };
    assert(r2.error() == None::<Seq<char>>);
    assert(s2 == ItemStepModel::Ask(noting, remove_note));
    assert(fuel > 2);
    let (w3, r3) = perform(w2, remove_note);
    let s3 = erase_advance(noting, r3);
    assert(drive_erase(w2, s2, (fuel - 2) as nat) == drive_erase(w3, s3, (fuel - 3) as nat));
    assert(s3 == ItemStepModel::<EraseJobModel>::Finish(Ok(())));
}

/// The job as it stands when it probes the name of the given attempt.
pub open spec fn probing_at(job: PutJobModel, attempt: nat) -> PutJobModel {
    PutJobModel { stage: PutStage::ProbingFile, attempt, ..job }
}

/// Whether neither the staged path nor the note of the given attempt is
/// taken in the world.
pub open spec fn is_free(world: World, job: PutJobModel, attempt: nat) -> bool {
    &&& !world.contains_key(probing_at(job, attempt).staged_path())
    &&& !world.contains_key(probing_at(job, attempt).info_path())
}

/// Requests enough to drive any deletion or restore in the world to its
/// end: two for each thing that may be in the way, and a few more.
pub open spec fn enough_fuel(world: World) -> nat {
    2 * world.dom().len() + 8
}

/// Different attempts probe different paths, and no staged path is a note.
pub proof fn lemma_probed_paths_differ(job: PutJobModel, first: nat, second: nat)
    requires
        job.files_dir != job.info_dir,
    ensures
        probing_at(job, first).staged_path() != probing_at(job, second).info_path(),
        first != second ==> probing_at(job, first).staged_path() != probing_at(job, second).staged_path(),
        first != second ==> probing_at(job, first).info_path() != probing_at(job, second).info_path(),
{
    let a = probing_at(job, first);
    let b = probing_at(job, second);
    assert(a.staged_path().parts.last() == a.staged_name());
    assert(b.staged_path().parts.last() == b.staged_name());
    assert(a.info_path().parts.last() == info_name(a.staged_name()));
    assert(b.info_path().parts.last() == info_name(b.staged_name()));
    assert(a.staged_path().parts.drop_last() =~= job.files_dir.parts);
    assert(b.info_path().parts.drop_last() =~= job.info_dir.parts);
    if a.staged_path() == b.info_path() {
        assert(job.files_dir.parts == job.info_dir.parts);
        assert(job.files_dir.absolute == job.info_dir.absolute);
    }
    if first != second {
        lemma_candidates_differ(job.file_name, first, second);
        if info_name(a.staged_name()) == info_name(b.staged_name()) {
            let with_a = info_name(a.staged_name());
            let with_b = info_name(b.staged_name());
            assert(with_a.len() == a.staged_name().len() + ".trashinfo"@.len());
            assert(with_b.len() == b.staged_name().len() + ".trashinfo"@.len());
            assert(a.staged_name() =~= with_a.take(a.staged_name().len() as int));
            assert(b.staged_name() =~= with_b.take(b.staged_name().len() as int));
        }
    }
}

/// Among as many attempts as there are things in the world, and one more,
/// some attempt finds its name free.
pub proof fn lemma_some_attempt_is_free(world: World, job: PutJobModel) -> (free: nat)
    requires
        world.dom().finite(),
        job.files_dir != job.info_dir,
    ensures
        free <= world.dom().len(),
        is_free(world, job, free),
{
    let n = world.dom().len();
    if exists|k: nat| k <= n && is_free(world, job, k) {
        choose|k: nat| k <= n && is_free(world, job, k)
    } else {
        let taken = Seq::new(
            n + 1,
            |k: int|
                if world.contains_key(probing_at(job, k as nat).staged_path()) {
                    probing_at(job, k as nat).staged_path()
                } else {
                    probing_at(job, k as nat).info_path()
                },
        );
        assert forall|i: int, j: int| 0 <= i < taken.len() && 0 <= j < taken.len() && i != j implies taken[i]
            != taken[j] by {
            lemma_probed_paths_differ(job, i as nat, j as nat);
            lemma_probed_paths_differ(job, j as nat, i as nat);
        }
        assert(taken.no_duplicates());
        assert forall|path: PathModel| taken.to_set().contains(path) implies world.dom().contains(path) by {
            let k = choose|k: int| 0 <= k < taken.len() && taken[k] == path;
            assert(!is_free(world, job, k as nat));
        }
        taken.unique_seq_to_set();
        vstd::set_lib::lemma_len_subset(taken.to_set(), world.dom());
        assert(false);
        0
    }
}

proof fn lemma_probe_ends(world: World, job: PutJobModel, free: nat, now: LocalTime, fuel: nat)
    requires
        job.stage == PutStage::ProbingFile,
        job.attempt <= free <= crate::trash::MAX_ATTEMPTS,
        is_free(world, job, free),
        fuel >= 2 * (free - job.attempt) + 6,
    ensures
        drive_put(world, probe(job), now, fuel).1 is Some,
        world.contains_key(job.original) ==> drive_put(world, probe(job), now, fuel).1 matches Some(Ok(_)),
    decreases fuel,
{
    lemma_attempt(world, job, now, fuel);
    assert(probing_at(job, job.attempt) == job);
    if world.contains_key(job.staged_path()) || world.contains_key(job.info_path()) {
        let used: nat = if world.contains_key(job.staged_path()) {
            1
        } else {
            2
        };
        assert(job.attempt < free);
        assert(put_retry(job) == probe(job.next_attempt()));
        assert(probing_at(job.next_attempt(), free) == probing_at(job, free));
        lemma_probe_ends(world, job.next_attempt(), free, now, (fuel - used) as nat);
    }
}

/// In a world that holds finitely many things, deleting a path inside the
/// home boundary at which something lies ends with a record.
pub proof fn lemma_put_succeeds(
    world: World,
    original: PathModel,
    home: PathModel,
    trash_root: PathModel,
    now: LocalTime,
    fuel: nat,
)
    requires
        world.dom().finite(),
        world.dom().len() < crate::trash::MAX_ATTEMPTS,
        route_of(original, home) == Route::Reversible,
        world.contains_key(original),
        fuel >= enough_fuel(world),
    ensures
        put_succeeds(world, original, home, trash_root, now, fuel),
{
    lemma_put_opening(world, original, home, trash_root, now, fuel);
    let probing = first_probe(original, trash_root);
    let free = lemma_some_attempt_is_free(world, probing);
    lemma_probe_ends(world, probing, free, now, (fuel - 2) as nat);
}

/// Every restore ends within three requests.
pub proof fn lemma_restore_ends(world: World, item: ItemModel, fuel: nat)
    requires
        fuel >= 3,
    ensures
        restore_ends(world, item, fuel),
{
    let s0 = restore_begin(item);
    if let ItemStepModel::Ask(job0, request0) = s0 {
        let (w1, r1) = perform(world, request0);
        let s1 = restore_advance(job0, r1);
        assert(drive_restore(world, s0, fuel) == drive_restore(w1, s1, (fuel - 1) as nat));
        if let ItemStepModel::Ask(job1, request1) = s1 {
            let (w2, r2) = perform(w1, request1);
            let s2 = restore_advance(job1, r2);
            assert(drive_restore(w1, s1, (fuel - 1) as nat) == drive_restore(w2, s2, (fuel - 2) as nat));
            if let ItemStepModel::Ask(job2, request2) = s2 {
                let (w3, r3) = perform(w2, request2);
                let s3 = restore_advance(job2, r3);
                assert(drive_restore(w2, s2, (fuel - 2) as nat) == drive_restore(w3, s3, (fuel - 3) as nat));
                assert(job2.stage == RestoreStage::RemovingNote);
                assert(s3 is Finish);
            }
        }
    }
}

/// In a world that holds finitely many things, whatever lies at a path
/// inside the home boundary can be deleted and restored, and the world is
/// then as it was before: the content lies at its path again, and neither
/// a staged copy nor a note is left.
pub proof fn lemma_delete_and_restore(
    world: World,
    original: PathModel,
    home: PathModel,
    trash_root: PathModel,
    now: LocalTime,
)
    requires
        world.dom().finite(),
        world.dom().len() < crate::trash::MAX_ATTEMPTS,
        route_of(original, home) == Route::Reversible,
        world.contains_key(original),
    ensures
        ({
            let fuel = enough_fuel(world);
            let staged = put_world(world, original, home, trash_root, now, fuel);
            let item = put_record(world, original, home, trash_root, now, fuel);
            &&& put_succeeds(world, original, home, trash_root, now, fuel)
            &&& item.original_path == original
            &&& !staged.contains_key(original)
            &&& restore_succeeds(staged, item, fuel)
            &&& restore_world(staged, item, fuel) == world
        }),
{
    let fuel = enough_fuel(world);
    lemma_put_succeeds(world, original, home, trash_root, now, fuel);
    lemma_put_stages_item(world, original, home, trash_root, now, fuel);
    let staged = put_world(world, original, home, trash_root, now, fuel);
    let item = put_record(world, original, home, trash_root, now, fuel);
    lemma_restore_ends(staged, item, fuel);
    lemma_put_then_restore(world, original, home, trash_root, now, fuel);
}

/// In a world that holds finitely many things, two paths outside the
/// staging area can be deleted one after the other, whatever their names.
/// The two records share neither a staged path nor a note, and each can be
/// restored whether or not the other has been.
pub proof fn lemma_two_deletions_stay_apart(
    world: World,
    first: PathModel,
    second: PathModel,
    home: PathModel,
    trash_root: PathModel,
    now: LocalTime,
)
    requires
        world.dom().finite(),
        world.dom().len() + 1 < crate::trash::MAX_ATTEMPTS,
        first != second,
        route_of(first, home) == Route::Reversible,
        route_of(second, home) == Route::Reversible,
        !first.starts_with(trash_root),
        !second.starts_with(trash_root),
        world.contains_key(first),
        world.contains_key(second),
    ensures
        ({
            let fuel = enough_fuel(world) + 2;
            let one = put_world(world, first, home, trash_root, now, fuel);
            let both = put_world(one, second, home, trash_root, now, fuel);
            let a = put_record(world, first, home, trash_root, now, fuel);
            let b = put_record(one, second, home, trash_root, now, fuel);
            let after_a = restore_world(both, a, fuel);
            let after_b = restore_world(both, b, fuel);
            &&& put_succeeds(world, first, home, trash_root, now, fuel)
            &&& put_succeeds(one, second, home, trash_root, now, fuel)
            &&& a.trash_file_path != b.trash_file_path
            &&& a.trash_info_path != b.trash_info_path
            &&& restore_succeeds(both, a, fuel)
            &&& after_a.contains_key(first) && after_a[first] == world[first]
            &&& after_a.contains_key(b.trash_file_path) && after_a[b.trash_file_path] == world[second]
            &&& restore_succeeds(both, b, fuel)
            &&& after_b.contains_key(second) && after_b[second] == world[second]
            &&& after_b.contains_key(a.trash_file_path) && after_b[a.trash_file_path] == world[first]
        }),
{
    let fuel = enough_fuel(world) + 2;
    lemma_put_succeeds(world, first, home, trash_root, now, fuel);
    lemma_put_stages_item(world, first, home, trash_root, now, fuel);
    let one = put_world(world, first, home, trash_root, now, fuel);
    let a = put_record(world, first, home, trash_root, now, fuel);
    assert(one == staged_world(world, a, now));
    let noted = world.insert(a.trash_info_path, info_content(first, stamp_text(now)));
    assert(noted.dom() =~= world.dom().insert(a.trash_info_path));
    assert(one.dom() =~= noted.dom().remove(first).insert(a.trash_file_path));
    assert(one.dom().finite());
    assert(one.dom().len() == world.dom().len() + 1);
    assert(one.contains_key(second));
    lemma_put_succeeds(one, second, home, trash_root, now, fuel);
    let both = put_world(one, second, home, trash_root, now, fuel);
    let b = put_record(one, second, home, trash_root, now, fuel);
    lemma_restore_ends(both, a, fuel);
    lemma_restore_ends(both, b, fuel);
    lemma_two_puts_stay_apart(world, first, second, home, trash_root, now, fuel);
}

/// What deleting a path outside the home boundary achieves in a world that
/// behaves: what lay at the path is gone for good. The record says so, and
/// restoring it fails without changing the world.
pub proof fn lemma_put_outside_home_removes(
    world: World,
    original: PathModel,
    home: PathModel,
    trash_root: PathModel,
    now: LocalTime,
    fuel: nat,
)
    requires
        route_of(original, home) == Route::Irreversible,
        original.wf(),
        fuel >= 1,
    ensures
        ({
            let item = put_record(world, original, home, trash_root, now, fuel);
            let after = put_world(world, original, home, trash_root, now, fuel);
            &&& put_succeeds(world, original, home, trash_root, now, fuel)
            &&& item.is_root
            &&& item.original_path == original
            &&& after == world.remove(original)
            &&& !restore_succeeds(after, item, fuel)
            &&& restore_world(after, item, fuel) == after
        }),
{
    let s0 = put_begin(original, home, trash_root);
    let job = s0->Ask_0;
    let command = removal_command(original);
    assert(s0 == PutStepModel::Ask(job, RequestModel::RunPrivileged { argv: command }));
    assert(command.take(3) =~= seq!["pkexec"@, "rm"@, "-rf"@]);
    lemma_display_parses_back(original);
    let (w1, r1) = told(world, now, RequestModel::RunPrivileged { argv: command });
    assert(w1 == world.remove(original));
    let s1 = put_advance(job, r1);
    assert(drive_put(world, s0, now, fuel) == drive_put(w1, s1, now, (fuel - 1) as nat));
    assert(s1 == PutStepModel::Finish(Ok(job.removed_item())));
    lemma_removed_item_stays_removed(w1, job.removed_item(), fuel);
}

} // verus!

