use diskord::cleanup::{
    clean_cargo_cache, clean_docker, clean_npm_cache, clean_orphaned_packages, clean_pacman_cache,
    clean_yay_cache, empty_trash, vacuum_journal, CleanJob, CleanStep, Rule, ScriptStep,
};
use diskord::host::{FileRecord, FsReply, FsRequest, LocalTime};
use diskord::path::FsPath;
use diskord::scanner::{scan_directory, sizes_fit, DirEntry, ScanStage, ScanStep};
use diskord::session::{Commit, GateState, ScanSession};
use diskord::system::{
    get_dir_size_with_du, get_docker_size, get_journal_size, get_pacman_cache_size, SizeJob, SizeStage, SizeStep,
};
use diskord::trash::{
    classify, move_to_trash, perm_delete_trash_item, restore_trash_item, EraseStage, EraseStep, PutJob,
    PutStage, PutStep, RestoreStage, RestoreStep, Route, TrashedItem, MAX_ATTEMPTS,
};
use std::collections::BTreeMap;

#[derive(Clone, Debug, PartialEq)]
enum Node {
    File(String),
    Dir,
}

/// A file system in memory that carries requests out the way a real one
/// would, and keeps a log of those that change it.
struct FakeHost {
    nodes: BTreeMap<String, Node>,
    privileged_ok: bool,
    refuse_rename: bool,
    refuse_remove: bool,
    changes: Vec<String>,
    du_output: Option<String>,
    clock: Option<LocalTime>,
}

impl FakeHost {
    fn new() -> FakeHost {
        let mut nodes = BTreeMap::new();
        nodes.insert("/".to_string(), Node::Dir);
        FakeHost {
            nodes,
            privileged_ok: true,
            refuse_rename: false,
            refuse_remove: false,
            changes: Vec::new(),
            du_output: None,
            clock: Some(MORNING),
        }
    }

    fn parent_of(path: &str) -> Option<String> {
        if path == "/" {
            return None;
        }
        match path.rfind('/') {
            Some(0) => Some("/".to_string()),
            Some(at) => Some(path[..at].to_string()),
            None => None,
        }
    }

    fn make_dirs(&mut self, path: &str) {
        let mut at = Some(path.to_string());
        while let Some(dir) = at {
            self.nodes.entry(dir.clone()).or_insert(Node::Dir);
            at = FakeHost::parent_of(&dir);
        }
    }

    fn add_file(&mut self, path: &str, content: &str) {
        if let Some(parent) = FakeHost::parent_of(path) {
            self.make_dirs(&parent);
        }
        self.nodes.insert(path.to_string(), Node::File(content.to_string()));
    }

    fn add_dir(&mut self, path: &str) {
        self.make_dirs(path);
    }

    fn has(&self, path: &str) -> bool {
        self.nodes.contains_key(path)
    }

    fn content(&self, path: &str) -> Option<String> {
        match self.nodes.get(path) {
            Some(Node::File(content)) => Some(content.clone()),
            _ => None,
        }
    }

    fn below(&self, path: &str) -> Vec<String> {
        let lead = if path == "/" { "/".to_string() } else { format!("{}/", path) };
        self.nodes.keys().filter(|key| *key == path || key.starts_with(&lead)).cloned().collect()
    }

    fn remove_tree(&mut self, path: &str) {
        for key in self.below(path) {
            self.nodes.remove(&key);
        }
    }

    fn perform(&mut self, request: &FsRequest) -> FsReply {
        match request {
            FsRequest::Exists { path } => FsReply::Answer(self.has(&path.display())),
            FsRequest::IsDir { path } => FsReply::Answer(self.nodes.get(&path.display()) == Some(&Node::Dir)),
            FsRequest::Canonicalize { path } => {
                if self.has(&path.display()) {
                    FsReply::Resolved(path.clone())
                } else {
                    FsReply::Failed("No such file or directory".to_string())
                }
            }
            FsRequest::WalkFiles { root } => {
                let mut files = Vec::new();
                for key in self.below(&root.display()) {
                    if let Some(Node::File(content)) = self.nodes.get(&key) {
                        files.push(FileRecord { path: FsPath::parse(&key), size: content.len() as u64 });
                    }
                }
                FsReply::Files(files)
            }
            FsRequest::Pause { .. } => FsReply::Done,
            FsRequest::ReadClock => match self.clock {
                Some(now) => FsReply::Time(now),
                None => FsReply::Failed("The clock has stopped".to_string()),
            },
            FsRequest::RunCommand { argv } => {
                self.changes.push(format!("run {}", argv.join(" ")));
                match &self.du_output {
                    Some(text) => FsReply::Output { text: text.clone(), success: true },
                    None => FsReply::Failed("No such command".to_string()),
                }
            }
            FsRequest::RunPrivileged { argv } => {
                self.changes.push(format!("privileged {}", argv.join(" ")));
                if !self.privileged_ok {
                    return FsReply::Failed("Request dismissed".to_string());
                }
                if argv.len() == 4 && argv[0] == "pkexec" && argv[1] == "rm" && argv[2] == "-rf" {
                    let target = argv[3].clone();
                    self.remove_tree(&target);
                }
                FsReply::Done
            }
            FsRequest::CreateDir { path } => {
                let path = path.display();
                self.changes.push(format!("mkdir {}", path));
                if self.has(&path) {
                    return FsReply::Failed("File exists".to_string());
                }
                self.nodes.insert(path, Node::Dir);
                FsReply::Done
            }
            FsRequest::CreateDirAll { path } => {
                let path = path.display();
                self.changes.push(format!("mkdir -p {}", path));
                self.make_dirs(&path);
                FsReply::Done
            }
            FsRequest::WriteFile { path, content } => {
                let path = path.display();
                self.changes.push(format!("write {}", path));
                self.nodes.insert(path, Node::File(content.clone()));
                FsReply::Done
            }
            FsRequest::Rename { from, to } => {
                let from = from.display();
                let to = to.display();
                self.changes.push(format!("rename {} {}", from, to));
                if self.refuse_rename {
                    return FsReply::Failed("Invalid cross-device link".to_string());
                }
                if !self.has(&from) {
                    return FsReply::Failed("No such file or directory".to_string());
                }
                for key in self.below(&from) {
                    let node = self.nodes.remove(&key).unwrap();
                    let moved = format!("{}{}", to, &key[from.len()..]);
                    self.nodes.insert(moved, node);
                }
                FsReply::Done
            }
            FsRequest::RemoveFile { path } => {
                let path = path.display();
                self.changes.push(format!("rm {}", path));
                if self.refuse_remove {
                    return FsReply::Failed("Permission denied".to_string());
                }
                match self.nodes.get(&path) {
                    Some(Node::File(_)) => {
                        self.nodes.remove(&path);
                        FsReply::Done
                    }
                    Some(Node::Dir) => FsReply::Failed("Is a directory".to_string()),
                    None => FsReply::Failed("No such file or directory".to_string()),
                }
            }
            FsRequest::RemoveDirAll { path } => {
                let path = path.display();
                self.changes.push(format!("rm -r {}", path));
                if self.refuse_remove {
                    return FsReply::Failed("Permission denied".to_string());
                }
                if !self.has(&path) {
                    return FsReply::Failed("No such file or directory".to_string());
                }
                self.remove_tree(&path);
                FsReply::Done
            }
        }
    }

    fn scan(&mut self, path: &str) -> Vec<DirEntry> {
        let mut step = scan_directory(&FsPath::parse(path));
        loop {
            match step {
                ScanStep::Finish(entries) => return entries,
                ScanStep::Ask(job, request) => {
                    let reply = self.perform(&request);
                    if let FsReply::Files(files) = &reply {
                        assert!(sizes_fit(files));
                    }
                    step = job.advance(reply);
                }
            }
        }
    }

    fn put(&mut self, original: &str, home: &str, trash_root: &str) -> Result<TrashedItem, String> {
        let step = PutJob::begin(&FsPath::parse(original), &FsPath::parse(home), &FsPath::parse(trash_root));
        self.drive_put(step)
    }

    fn drive_put(&mut self, first: PutStep) -> Result<TrashedItem, String> {
        let mut step = first;
        loop {
            match step {
                PutStep::Finish(outcome) => return outcome,
                PutStep::Ask(job, request) => {
                    let reply = self.perform(&request);
                    step = job.advance(reply);
                }
            }
        }
    }

    fn restore(&mut self, item: &TrashedItem) -> Result<(), String> {
        let mut step = restore_trash_item(item);
        loop {
            match step {
                RestoreStep::Finish(outcome) => return outcome,
                RestoreStep::Ask(job, request) => {
                    let reply = self.perform(&request);
                    step = job.advance(reply);
                }
            }
        }
    }

    fn erase(&mut self, item: &TrashedItem) -> Result<(), String> {
        let mut step = perm_delete_trash_item(item);
        loop {
            match step {
                EraseStep::Finish(outcome) => return outcome,
                EraseStep::Ask(job, request) => {
                    let reply = self.perform(&request);
                    step = job.advance(reply);
                }
            }
        }
    }

    fn measure(&mut self, first: SizeStep) -> u64 {
        let mut step = first;
        loop {
            match step {
                SizeStep::Finish(size) => return size,
                SizeStep::Ask(job, request) => {
                    let reply = self.perform(&request);
                    assert!(job.can_take(&reply));
                    step = job.advance(reply);
                }
            }
        }
    }

    fn clean(&mut self, first: CleanStep) -> bool {
        let mut step = first;
        loop {
            match step {
                CleanStep::Finish(ok) => return ok,
                CleanStep::Ask(job, request) => {
                    let reply = self.perform(&request);
                    step = job.advance(reply);
                }
            }
        }
    }
}

const MORNING: LocalTime =
    LocalTime { year: 2024, month: 5, day: 6, hour: 7, minute: 8, second: 9, nanosecond: 0 };

const HOME: &str = "/home/ann";
const TRASH: &str = "/home/ann/.local/share/Trash";

fn summary(entries: &Vec<DirEntry>) -> Vec<(String, String, u64, bool)> {
    entries.iter().map(|e| (e.path.display(), e.name.clone(), e.size, e.is_dir)).collect()
}

// ---------------------------------------------------------------- scanning

#[test]
fn scan_of_a_missing_directory_is_empty() {
    let mut host = FakeHost::new();
    assert!(host.scan("/nowhere").is_empty());
    assert!(host.changes.is_empty());
}

#[test]
fn scan_of_an_empty_directory_is_empty() {
    let mut host = FakeHost::new();
    host.add_dir("/tmp/x");
    assert!(host.scan("/tmp/x").is_empty());
}

#[test]
fn scan_sums_files_by_direct_child() {
    let mut host = FakeHost::new();
    host.add_file("/tmp/x/a/f1", &"1".repeat(100));
    host.add_dir("/tmp/x/b");
    host.add_file("/tmp/x/f2", &"2".repeat(50));
    let entries = host.scan("/tmp/x");
    assert_eq!(
        summary(&entries),
        vec![
            ("/tmp/x/a".to_string(), "a".to_string(), 100, true),
            ("/tmp/x/f2".to_string(), "f2".to_string(), 50, false),
        ]
    );
}

#[test]
fn scan_lists_no_child_without_files() {
    // A directory that holds no regular file is reached by no file of the
    // walk, so it gets no entry.
    let mut host = FakeHost::new();
    host.add_file("/tmp/x/a/f1", "abc");
    host.add_dir("/tmp/x/b");
    host.add_dir("/tmp/x/c/d/e");
    let entries = host.scan("/tmp/x");
    assert_eq!(summary(&entries), vec![("/tmp/x/a".to_string(), "a".to_string(), 3, true)]);
}

#[test]
fn scan_counts_deep_and_hidden_files() {
    let mut host = FakeHost::new();
    host.add_file("/r/a/b/c/d/deep", "12345");
    host.add_file("/r/a/.hidden", "123");
    host.add_file("/r/.config/x", "12");
    host.add_file("/r/a/b/two", "1234567");
    let entries = host.scan("/r");
    assert_eq!(
        summary(&entries),
        vec![
            ("/r/a".to_string(), "a".to_string(), 15, true),
            ("/r/.config".to_string(), ".config".to_string(), 2, true),
        ]
    );
}

#[test]
fn scan_breaks_ties_by_path() {
    let mut host = FakeHost::new();
    host.add_file("/r/zeta", "same");
    host.add_file("/r/alpha", "same");
    host.add_file("/r/Mid", "same");
    host.add_file("/r/big", "larger!");
    let entries = host.scan("/r");
    let names: Vec<String> = entries.iter().map(|e| e.name.clone()).collect();
    assert_eq!(names, vec!["big", "Mid", "alpha", "zeta"]);
}

#[test]
fn scan_reports_all_bytes_while_children_are_few() {
    let mut host = FakeHost::new();
    let mut total = 0u64;
    for child in 0..50u64 {
        for file in 0..3u64 {
            let size = (child * 7 + file * 13) % 41;
            host.add_file(&format!("/r/c{}/f{}", child, file), &"x".repeat(size as usize));
            total += size;
        }
    }
    let entries = host.scan("/r");
    assert_eq!(entries.len(), 50);
    assert_eq!(entries.iter().map(|e| e.size).sum::<u64>(), total);
}

#[test]
fn scan_keeps_the_fifty_largest() {
    let mut host = FakeHost::new();
    let mut sizes: Vec<(u64, String)> = Vec::new();
    for child in 0..120u64 {
        let size = (child * 37) % 101 + 1;
        let path = format!("/r/n{:03}", child);
        host.add_file(&path, &"x".repeat(size as usize));
        sizes.push((size, path));
    }
    let entries = host.scan("/r");
    assert_eq!(entries.len(), 50);
    sizes.sort_by(|a, b| b.0.cmp(&a.0).then(a.1.cmp(&b.1)));
    let expected: Vec<(String, u64)> = sizes.iter().take(50).map(|(s, p)| (p.clone(), *s)).collect();
    let got: Vec<(String, u64)> = entries.iter().map(|e| (e.path.display(), e.size)).collect();
    assert_eq!(got, expected);
    let smallest_kept = entries.iter().map(|e| e.size).min().unwrap();
    let kept: Vec<String> = entries.iter().map(|e| e.path.display()).collect();
    for (size, path) in &sizes {
        if !kept.contains(path) {
            assert!(*size <= smallest_kept);
        }
    }
}

#[test]
fn scan_with_exactly_fifty_one_children_drops_the_smallest() {
    let mut host = FakeHost::new();
    for child in 0..51usize {
        host.add_file(&format!("/r/c{:02}/f", child), &"x".repeat(child + 1));
    }
    let entries = host.scan("/r");
    assert_eq!(entries.len(), 50);
    assert_eq!(entries[0].size, 51);
    assert_eq!(entries[49].size, 2);
    assert!(entries.iter().all(|e| e.path.display() != "/r/c00"));
}

#[test]
fn scan_of_a_file_reports_the_file_itself() {
    let mut host = FakeHost::new();
    host.add_file("/r/only", "12345678");
    let entries = host.scan("/r/only");
    assert_eq!(summary(&entries), vec![("/r/only".to_string(), "only".to_string(), 8, false)]);
}

#[test]
fn scan_falls_back_to_the_given_path_when_it_cannot_be_resolved() {
    let path = FsPath::parse("/r");
    let step = scan_directory(&path);
    let job = match step {
        ScanStep::Ask(job, FsRequest::Exists { path }) => {
            assert_eq!(path.display(), "/r");
            assert_eq!(job.stage(), ScanStage::CheckingRoot);
            job
        }
        other => panic!("unexpected step {:?}", other),
    };
    let job = match job.advance(FsReply::Answer(true)) {
        ScanStep::Ask(job, FsRequest::Canonicalize { path }) => {
            assert_eq!(path.display(), "/r");
            job
        }
        other => panic!("unexpected step {:?}", other),
    };
    match job.advance(FsReply::Failed("Permission denied".to_string())) {
        ScanStep::Ask(job, FsRequest::WalkFiles { root }) => {
            assert_eq!(root.display(), "/r");
            assert_eq!(job.stage(), ScanStage::Walking);
        }
        other => panic!("unexpected step {:?}", other),
    }
}

#[test]
fn scan_walks_the_resolved_directory() {
    let step = scan_directory(&FsPath::parse("/link"));
    let job = match step {
        ScanStep::Ask(job, _) => job,
        other => panic!("unexpected step {:?}", other),
    };
    let job = match job.advance(FsReply::Answer(true)) {
        ScanStep::Ask(job, _) => job,
        other => panic!("unexpected step {:?}", other),
    };
    let job = match job.advance(FsReply::Resolved(FsPath::parse("/real/dir"))) {
        ScanStep::Ask(job, FsRequest::WalkFiles { root }) => {
            assert_eq!(root.display(), "/real/dir");
            job
        }
        other => panic!("unexpected step {:?}", other),
    };
    let files = vec![
        FileRecord { path: FsPath::parse("/real/dir/sub/one"), size: 10 },
        FileRecord { path: FsPath::parse("/elsewhere/two"), size: 99 },
        FileRecord { path: FsPath::parse("/real/dir/sub/three"), size: 5 },
    ];
    let job = match job.advance(FsReply::Files(files)) {
        ScanStep::Ask(job, FsRequest::IsDir { path }) => {
            assert_eq!(path.display(), "/real/dir/sub");
            assert_eq!(job.stage(), ScanStage::Probing);
            job
        }
        other => panic!("unexpected step {:?}", other),
    };
    match job.advance(FsReply::Answer(false)) {
        ScanStep::Finish(entries) => {
            assert_eq!(summary(&entries), vec![("/real/dir/sub".to_string(), "sub".to_string(), 15, false)]);
        }
        other => panic!("unexpected step {:?}", other),
    }
}

#[test]
fn scan_takes_the_kind_of_each_child_from_the_probe() {
    // A child that was a directory during the walk and is gone when it is
    // probed is reported as what the probe says.
    let mut step = scan_directory(&FsPath::parse("/r"));
    let replies = vec![
        FsReply::Answer(true),
        FsReply::Resolved(FsPath::parse("/r")),
        FsReply::Files(vec![FileRecord { path: FsPath::parse("/r/d/f"), size: 4 }]),
        FsReply::Answer(false),
    ];
    for reply in replies {
        step = match step {
            ScanStep::Ask(job, _) => job.advance(reply),
            other => panic!("unexpected step {:?}", other),
        };
    }
    match step {
        ScanStep::Finish(entries) => {
            assert_eq!(entries.len(), 1);
            assert!(!entries[0].is_dir);
        }
        other => panic!("unexpected step {:?}", other),
    }
}

#[test]
fn sizes_fit_tells_when_the_sum_overflows() {
    let big = FileRecord { path: FsPath::parse("/r/a"), size: u64::MAX };
    let one = FileRecord { path: FsPath::parse("/r/b"), size: 1 };
    assert!(sizes_fit(&vec![]));
    assert!(sizes_fit(&vec![big.clone()]));
    assert!(!sizes_fit(&vec![big, one]));
}

// ---------------------------------------------------------------- deleting

#[test]
fn classify_goes_by_whole_components() {
    let home = FsPath::parse("/home/ann");
    assert_eq!(classify(&FsPath::parse("/home/ann/docs/a.txt"), &home), Route::Reversible);
    assert_eq!(classify(&FsPath::parse("/home/ann"), &home), Route::Reversible);
    assert_eq!(classify(&FsPath::parse("/home/anna/docs"), &home), Route::Irreversible);
    assert_eq!(classify(&FsPath::parse("/etc/foo"), &home), Route::Irreversible);
    assert_eq!(classify(&FsPath::parse("/home"), &home), Route::Irreversible);
    assert_eq!(classify(&FsPath::parse("/etc/foo"), &FsPath::parse("~")), Route::Irreversible);
}

#[test]
fn put_moves_the_file_into_the_staging_area() {
    let mut host = FakeHost::new();
    host.add_file("/home/ann/docs/report.txt", "quarterly");
    let item = host.put("/home/ann/docs/report.txt", HOME, TRASH).unwrap();
    assert!(!item.is_root);
    assert_eq!(item.original_path.display(), "/home/ann/docs/report.txt");
    assert_eq!(item.trash_file_path.display(), "/home/ann/.local/share/Trash/files/report.txt");
    assert_eq!(item.trash_info_path.display(), "/home/ann/.local/share/Trash/info/report.txt.trashinfo");
    assert!(!host.has("/home/ann/docs/report.txt"));
    assert_eq!(host.content("/home/ann/.local/share/Trash/files/report.txt").unwrap(), "quarterly");
    assert_eq!(
        host.content("/home/ann/.local/share/Trash/info/report.txt.trashinfo").unwrap(),
        "[Trash Info]\nPath=/home/ann/docs/report.txt\nDeletionDate=2024-05-06T07:08:09\n"
    );
}

#[test]
fn put_asks_for_each_thing_in_order() {
    let mut host = FakeHost::new();
    host.add_file("/home/ann/a.txt", "a");
    host.put("/home/ann/a.txt", HOME, TRASH).unwrap();
    assert_eq!(
        host.changes,
        vec![
            "mkdir -p /home/ann/.local/share/Trash/files",
            "mkdir -p /home/ann/.local/share/Trash/info",
            "write /home/ann/.local/share/Trash/info/a.txt.trashinfo",
            "rename /home/ann/a.txt /home/ann/.local/share/Trash/files/a.txt",
        ]
    );
}

#[test]
fn put_of_a_name_that_is_staged_already_appends_a_number() {
    let mut host = FakeHost::new();
    host.add_file("/home/ann/.local/share/Trash/files/report.txt", "old");
    host.add_file("/home/ann/docs/report.txt", "new");
    let item = host.put("/home/ann/docs/report.txt", HOME, TRASH).unwrap();
    assert_eq!(item.trash_file_path.display(), "/home/ann/.local/share/Trash/files/report.txt_1");
    assert_eq!(item.trash_info_path.display(), "/home/ann/.local/share/Trash/info/report.txt_1.trashinfo");
    assert_eq!(host.content("/home/ann/.local/share/Trash/files/report.txt").unwrap(), "old");
    assert_eq!(host.content("/home/ann/.local/share/Trash/files/report.txt_1").unwrap(), "new");
}

#[test]
fn put_skips_a_name_whose_note_alone_exists() {
    let mut host = FakeHost::new();
    host.add_file("/home/ann/.local/share/Trash/info/a.txt.trashinfo", "stale");
    host.add_file("/home/ann/.local/share/Trash/files/a.txt_1", "taken");
    host.add_file("/home/ann/a.txt", "fresh");
    let item = host.put("/home/ann/a.txt", HOME, TRASH).unwrap();
    assert_eq!(item.trash_file_path.display(), "/home/ann/.local/share/Trash/files/a.txt_2");
    assert_eq!(host.content("/home/ann/.local/share/Trash/info/a.txt.trashinfo").unwrap(), "stale");
}

#[test]
fn put_counts_past_nine() {
    let mut host = FakeHost::new();
    host.add_file("/home/ann/.local/share/Trash/files/n", "0");
    for taken in 1..=11 {
        host.add_file(&format!("/home/ann/.local/share/Trash/files/n_{}", taken), "x");
    }
    host.add_file("/home/ann/n", "fresh");
    let item = host.put("/home/ann/n", HOME, TRASH).unwrap();
    assert_eq!(item.trash_file_path.display(), "/home/ann/.local/share/Trash/files/n_12");
}

#[test]
fn put_then_restore_brings_the_file_back() {
    let mut host = FakeHost::new();
    host.add_file("/home/ann/docs/report.txt", "quarterly");
    let before = host.nodes.clone();
    let item = host.put("/home/ann/docs/report.txt", HOME, TRASH).unwrap();
    host.restore(&item).unwrap();
    assert_eq!(host.content("/home/ann/docs/report.txt").unwrap(), "quarterly");
    assert!(!host.has(&item.trash_info_path.display()));
    assert!(!host.has(&item.trash_file_path.display()));
    // Only the directories of the staging area are new.
    let mut after = host.nodes.clone();
    for dir in [
        "/home/ann/.local",
        "/home/ann/.local/share",
        "/home/ann/.local/share/Trash",
        "/home/ann/.local/share/Trash/files",
        "/home/ann/.local/share/Trash/info",
    ] {
        assert_eq!(after.remove(dir), Some(Node::Dir));
    }
    assert_eq!(after, before);
}

#[test]
fn put_then_restore_brings_a_directory_back_with_its_files() {
    let mut host = FakeHost::new();
    host.add_file("/home/ann/proj/src/main.rs", "fn main() {}");
    host.add_file("/home/ann/proj/README", "read me");
    let item = host.put("/home/ann/proj", HOME, TRASH).unwrap();
    assert!(!host.has("/home/ann/proj"));
    assert_eq!(host.content("/home/ann/.local/share/Trash/files/proj/src/main.rs").unwrap(), "fn main() {}");
    host.restore(&item).unwrap();
    assert_eq!(host.content("/home/ann/proj/src/main.rs").unwrap(), "fn main() {}");
    assert_eq!(host.content("/home/ann/proj/README").unwrap(), "read me");
}

#[test]
fn restore_makes_the_parent_directories_again() {
    let mut host = FakeHost::new();
    host.add_file("/home/ann/a/b/c.txt", "c");
    let item = host.put("/home/ann/a/b/c.txt", HOME, TRASH).unwrap();
    host.remove_tree("/home/ann/a");
    host.restore(&item).unwrap();
    assert_eq!(host.content("/home/ann/a/b/c.txt").unwrap(), "c");
}

#[test]
fn restore_succeeds_though_the_note_cannot_be_removed() {
    let mut host = FakeHost::new();
    host.add_file("/home/ann/a.txt", "a");
    let item = host.put("/home/ann/a.txt", HOME, TRASH).unwrap();
    host.refuse_remove = true;
    assert_eq!(host.restore(&item), Ok(()));
    assert_eq!(host.content("/home/ann/a.txt").unwrap(), "a");
    assert!(host.has(&item.trash_info_path.display()));
}

#[test]
fn restore_reports_a_failed_move() {
    let mut host = FakeHost::new();
    host.add_file("/home/ann/a.txt", "a");
    let item = host.put("/home/ann/a.txt", HOME, TRASH).unwrap();
    host.remove_tree(&item.trash_file_path.display());
    assert_eq!(host.restore(&item), Err("No such file or directory".to_string()));
    assert!(host.has(&item.trash_info_path.display()));
}

#[test]
fn two_puts_of_one_name_stay_apart() {
    let mut host = FakeHost::new();
    host.add_file("/home/ann/one/notes.txt", "first");
    host.add_file("/home/ann/two/notes.txt", "second");
    let a = host.put("/home/ann/one/notes.txt", HOME, TRASH).unwrap();
    let b = host.put("/home/ann/two/notes.txt", HOME, TRASH).unwrap();
    assert_ne!(a.trash_file_path.display(), b.trash_file_path.display());
    assert_ne!(a.trash_info_path.display(), b.trash_info_path.display());
    assert_eq!(a.trash_file_path.display(), "/home/ann/.local/share/Trash/files/notes.txt");
    assert_eq!(b.trash_file_path.display(), "/home/ann/.local/share/Trash/files/notes.txt_1");
    host.restore(&b).unwrap();
    assert_eq!(host.content("/home/ann/two/notes.txt").unwrap(), "second");
    assert_eq!(host.content(&a.trash_file_path.display()).unwrap(), "first");
    host.restore(&a).unwrap();
    assert_eq!(host.content("/home/ann/one/notes.txt").unwrap(), "first");
}

#[test]
fn two_puts_of_one_name_restore_in_either_order() {
    let mut host = FakeHost::new();
    host.add_file("/home/ann/one/notes.txt", "first");
    host.add_file("/home/ann/two/notes.txt", "second");
    let a = host.put("/home/ann/one/notes.txt", HOME, TRASH).unwrap();
    let b = host.put("/home/ann/two/notes.txt", HOME, TRASH).unwrap();
    host.restore(&a).unwrap();
    assert_eq!(host.content("/home/ann/one/notes.txt").unwrap(), "first");
    assert_eq!(host.content(&b.trash_file_path.display()).unwrap(), "second");
    host.restore(&b).unwrap();
    assert_eq!(host.content("/home/ann/two/notes.txt").unwrap(), "second");
}

#[test]
fn put_removes_the_note_when_the_move_fails() {
    let mut host = FakeHost::new();
    host.add_file("/home/ann/a.txt", "a");
    host.refuse_rename = true;
    let outcome = host.put("/home/ann/a.txt", HOME, TRASH);
    assert_eq!(outcome, Err("Failed to move to trash: Invalid cross-device link".to_string()));
    assert!(!host.has("/home/ann/.local/share/Trash/info/a.txt.trashinfo"));
    assert_eq!(host.content("/home/ann/a.txt").unwrap(), "a");
    assert_eq!(host.changes.last().unwrap(), "rm /home/ann/.local/share/Trash/info/a.txt.trashinfo");
}

#[test]
fn put_reports_a_directory_that_cannot_be_made() {
    let step = PutJob::begin(&FsPath::parse("/home/ann/a"), &FsPath::parse(HOME), &FsPath::parse(TRASH));
    let job = match step {
        PutStep::Ask(job, FsRequest::CreateDirAll { path }) => {
            assert_eq!(path.display(), "/home/ann/.local/share/Trash/files");
            assert_eq!(job.stage(), PutStage::MakingFilesDir);
            job
        }
        other => panic!("unexpected step {:?}", other),
    };
    match job.advance(FsReply::Failed("Read-only file system".to_string())) {
        PutStep::Finish(Err(text)) => assert_eq!(text, "Read-only file system"),
        other => panic!("unexpected step {:?}", other),
    }
    let step = PutJob::begin(&FsPath::parse("/home/ann/a"), &FsPath::parse(HOME), &FsPath::parse(TRASH));
    let job = match step {
        PutStep::Ask(job, _) => job,
        other => panic!("unexpected step {:?}", other),
    };
    let job = match job.advance(FsReply::Done) {
        PutStep::Ask(job, FsRequest::CreateDirAll { path }) => {
            assert_eq!(path.display(), "/home/ann/.local/share/Trash/info");
            assert_eq!(job.stage(), PutStage::MakingInfoDir);
            job
        }
        other => panic!("unexpected step {:?}", other),
    };
    match job.advance(FsReply::Failed("No space left on device".to_string())) {
        PutStep::Finish(Err(text)) => assert_eq!(text, "No space left on device"),
        other => panic!("unexpected step {:?}", other),
    }
}

#[test]
fn put_reports_a_note_that_cannot_be_written() {
    let mut step = PutJob::begin(&FsPath::parse("/home/ann/a"), &FsPath::parse(HOME), &FsPath::parse(TRASH));
    let noon = LocalTime { year: 2000, month: 1, day: 1, hour: 0, minute: 0, second: 0, nanosecond: 0 };
    for reply in [FsReply::Done, FsReply::Done, FsReply::Answer(false), FsReply::Answer(false)] {
        step = match step {
            PutStep::Ask(job, _) => job.advance(reply),
            other => panic!("unexpected step {:?}", other),
        };
    }
    let step = match step {
        PutStep::Ask(job, FsRequest::ReadClock) => {
            assert_eq!(job.stage(), PutStage::ReadingClock);
            job.advance(FsReply::Time(noon))
        }
        other => panic!("unexpected step {:?}", other),
    };
    let job = match step {
        PutStep::Ask(job, FsRequest::WriteFile { path, content }) => {
            assert_eq!(path.display(), "/home/ann/.local/share/Trash/info/a.trashinfo");
            assert_eq!(content, "[Trash Info]\nPath=/home/ann/a\nDeletionDate=2000-01-01T00:00:00\n");
            assert_eq!(job.stage(), PutStage::Writing);
            job
        }
        other => panic!("unexpected step {:?}", other),
    };
    match job.advance(FsReply::Failed("Disk quota exceeded".to_string())) {
        PutStep::Finish(Err(text)) => assert_eq!(text, "Disk quota exceeded"),
        other => panic!("unexpected step {:?}", other),
    }
}

#[test]
fn put_outside_home_removes_for_good() {
    let mut host = FakeHost::new();
    host.add_file("/etc/foo", "config");
    let item = host.put("/etc/foo", HOME, TRASH).unwrap();
    assert!(item.is_root);
    assert_eq!(item.original_path.display(), "/etc/foo");
    assert_eq!(item.trash_file_path.display(), "");
    assert_eq!(item.trash_info_path.display(), "");
    assert!(!host.has("/etc/foo"));
    assert_eq!(host.changes, vec!["privileged pkexec rm -rf /etc/foo"]);
}

#[test]
fn put_outside_home_fails_when_the_helper_fails() {
    let mut host = FakeHost::new();
    host.add_file("/etc/foo", "config");
    host.privileged_ok = false;
    assert_eq!(host.put("/etc/foo", HOME, TRASH), Err("Failed to pkexec rm -rf".to_string()));
    assert!(host.has("/etc/foo"));
}

#[test]
fn put_outside_home_takes_only_done_for_success() {
    for reply in [FsReply::Answer(true), FsReply::Failed("x".to_string())] {
        let step = PutJob::begin(&FsPath::parse("/etc/foo"), &FsPath::parse(HOME), &FsPath::parse(TRASH));
        match step {
            PutStep::Ask(job, FsRequest::RunPrivileged { argv }) => {
                assert_eq!(argv, vec!["pkexec", "rm", "-rf", "/etc/foo"]);
                assert_eq!(job.stage(), PutStage::Removing);
                match job.advance(reply) {
                    PutStep::Finish(Err(text)) => assert_eq!(text, "Failed to pkexec rm -rf"),
                    other => panic!("unexpected step {:?}", other),
                }
            }
            other => panic!("unexpected step {:?}", other),
        }
    }
}

#[test]
fn put_gives_up_when_the_numbers_run_out() {
    assert_eq!(MAX_ATTEMPTS, u64::MAX);
    let mut step = PutJob::begin(&FsPath::parse("/home/ann/a"), &FsPath::parse(HOME), &FsPath::parse(TRASH));
    for reply in [FsReply::Done, FsReply::Done, FsReply::Answer(true), FsReply::Answer(false), FsReply::Answer(true)] {
        step = match step {
            PutStep::Ask(job, _) => job.advance(reply),
            other => panic!("unexpected step {:?}", other),
        };
    }
    match step {
        PutStep::Ask(job, FsRequest::Exists { path }) => {
            assert_eq!(path.display(), "/home/ann/.local/share/Trash/files/a_2");
            assert_eq!(job.stage(), PutStage::ProbingFile);
        }
        other => panic!("unexpected step {:?}", other),
    }
}

#[test]
fn put_of_a_path_without_a_name_stages_under_a_number() {
    let mut host = FakeHost::new();
    host.add_dir("/home/ann/.local/share/Trash/files");
    let step = PutJob::begin(&FsPath::parse("/"), &FsPath::parse("/"), &FsPath::parse(TRASH));
    let mut step = step;
    let mut asked = Vec::new();
    for reply in [FsReply::Done, FsReply::Done, FsReply::Answer(true)] {
        step = match step {
            PutStep::Ask(job, request) => {
                asked.push(request);
                job.advance(reply)
            }
            other => panic!("unexpected step {:?}", other),
        };
    }
    match step {
        PutStep::Ask(_, FsRequest::Exists { path }) => {
            assert_eq!(path.display(), "/home/ann/.local/share/Trash/files/_1");
        }
        other => panic!("unexpected step {:?}", other),
    }
}

#[test]
fn move_to_trash_starts_with_a_request() {
    match move_to_trash(&FsPath::parse("/definitely/not/in/any/home/x")) {
        PutStep::Ask(job, request) => match request {
            FsRequest::RunPrivileged { argv } => {
                assert_eq!(job.stage(), PutStage::Removing);
                assert_eq!(argv, vec!["pkexec", "rm", "-rf", "/definitely/not/in/any/home/x"]);
            }
            FsRequest::CreateDirAll { path } => {
                assert_eq!(job.stage(), PutStage::MakingFilesDir);
                assert!(path.display().ends_with("Trash/files"));
            }
            other => panic!("unexpected request {:?}", other),
        },
        other => panic!("unexpected step {:?}", other),
    }
}

#[test]
fn restore_of_a_removed_item_fails_and_changes_nothing() {
    let mut host = FakeHost::new();
    host.add_file("/etc/foo", "config");
    let item = host.put("/etc/foo", HOME, TRASH).unwrap();
    let nodes = host.nodes.clone();
    host.changes.clear();
    assert_eq!(host.restore(&item), Err("Cannot restore permanently deleted root files".to_string()));
    assert_eq!(host.restore(&item), Err("Cannot restore permanently deleted root files".to_string()));
    assert!(host.changes.is_empty());
    assert_eq!(host.nodes, nodes);
    match restore_trash_item(&item) {
        RestoreStep::Finish(Err(_)) => {}
        other => panic!("unexpected step {:?}", other),
    }
}

#[test]
fn restore_steps_through_parent_move_and_note() {
    let item = TrashedItem {
        original_path: FsPath::parse("/home/ann/docs/a.txt"),
        trash_file_path: FsPath::parse("/t/files/a.txt"),
        trash_info_path: FsPath::parse("/t/info/a.txt.trashinfo"),
        is_root: false,
    };
    let job = match restore_trash_item(&item) {
        RestoreStep::Ask(job, FsRequest::CreateDirAll { path }) => {
            assert_eq!(path.display(), "/home/ann/docs");
            assert_eq!(job.stage(), RestoreStage::MakingParent);
            job
        }
        other => panic!("unexpected step {:?}", other),
    };
    let job = match job.advance(FsReply::Done) {
        RestoreStep::Ask(job, FsRequest::Rename { from, to }) => {
            assert_eq!(from.display(), "/t/files/a.txt");
            assert_eq!(to.display(), "/home/ann/docs/a.txt");
            assert_eq!(job.stage(), RestoreStage::Moving);
            job
        }
        other => panic!("unexpected step {:?}", other),
    };
    let job = match job.advance(FsReply::Done) {
        RestoreStep::Ask(job, FsRequest::RemoveFile { path }) => {
            assert_eq!(path.display(), "/t/info/a.txt.trashinfo");
            assert_eq!(job.stage(), RestoreStage::RemovingNote);
            job
        }
        other => panic!("unexpected step {:?}", other),
    };
    assert_eq!(job.advance(FsReply::Failed("gone".to_string())), RestoreStep::Finish(Ok(())));
}

#[test]
fn restore_reports_a_parent_that_cannot_be_made() {
    let item = TrashedItem {
        original_path: FsPath::parse("/home/ann/docs/a.txt"),
        trash_file_path: FsPath::parse("/t/files/a.txt"),
        trash_info_path: FsPath::parse("/t/info/a.txt.trashinfo"),
        is_root: false,
    };
    match restore_trash_item(&item) {
        RestoreStep::Ask(job, _) => {
            assert_eq!(
                job.advance(FsReply::Failed("Permission denied".to_string())),
                RestoreStep::Finish(Err("Permission denied".to_string()))
            );
        }
        other => panic!("unexpected step {:?}", other),
    }
}

#[test]
fn restore_of_a_path_without_parent_moves_at_once() {
    let item = TrashedItem {
        original_path: FsPath::parse(""),
        trash_file_path: FsPath::parse("/t/files/x"),
        trash_info_path: FsPath::parse("/t/info/x.trashinfo"),
        is_root: false,
    };
    match restore_trash_item(&item) {
        RestoreStep::Ask(job, FsRequest::Rename { .. }) => assert_eq!(job.stage(), RestoreStage::Moving),
        other => panic!("unexpected step {:?}", other),
    }
}

#[test]
fn erase_removes_a_staged_file_and_its_note() {
    let mut host = FakeHost::new();
    host.add_file("/home/ann/a.txt", "a");
    let item = host.put("/home/ann/a.txt", HOME, TRASH).unwrap();
    host.changes.clear();
    assert_eq!(host.erase(&item), Ok(()));
    assert!(!host.has(&item.trash_file_path.display()));
    assert!(!host.has(&item.trash_info_path.display()));
    assert_eq!(
        host.changes,
        vec![
            "rm /home/ann/.local/share/Trash/files/a.txt",
            "rm /home/ann/.local/share/Trash/info/a.txt.trashinfo",
        ]
    );
}

#[test]
fn erase_removes_a_staged_directory_with_all_it_holds() {
    let mut host = FakeHost::new();
    host.add_file("/home/ann/proj/src/main.rs", "fn main() {}");
    let item = host.put("/home/ann/proj", HOME, TRASH).unwrap();
    host.changes.clear();
    assert_eq!(host.erase(&item), Ok(()));
    assert!(host.below("/home/ann/.local/share/Trash/files/proj").is_empty());
    assert_eq!(host.changes[0], "rm -r /home/ann/.local/share/Trash/files/proj");
}

#[test]
fn erase_of_a_removed_item_does_nothing() {
    let item = TrashedItem {
        original_path: FsPath::parse("/etc/foo"),
        trash_file_path: FsPath::empty(),
        trash_info_path: FsPath::empty(),
        is_root: true,
    };
    assert_eq!(perm_delete_trash_item(&item), EraseStep::Finish(Ok(())));
}

#[test]
fn erase_reports_content_that_could_not_be_removed() {
    let mut host = FakeHost::new();
    host.add_file("/home/ann/a.txt", "a");
    let item = host.put("/home/ann/a.txt", HOME, TRASH).unwrap();
    host.refuse_remove = true;
    host.changes.clear();
    assert_eq!(host.erase(&item), Err("Permission denied".to_string()));
    // The note is still tried after the content.
    assert_eq!(host.changes.len(), 2);
}

#[test]
fn erase_ignores_a_note_that_could_not_be_removed() {
    let item = TrashedItem {
        original_path: FsPath::parse("/home/ann/a"),
        trash_file_path: FsPath::parse("/t/files/a"),
        trash_info_path: FsPath::parse("/t/info/a.trashinfo"),
        is_root: false,
    };
    let job = match perm_delete_trash_item(&item) {
        EraseStep::Ask(job, FsRequest::IsDir { path }) => {
            assert_eq!(path.display(), "/t/files/a");
            assert_eq!(job.stage(), EraseStage::Inspecting);
            job
        }
        other => panic!("unexpected step {:?}", other),
    };
    let job = match job.advance(FsReply::Answer(false)) {
        EraseStep::Ask(job, FsRequest::RemoveFile { path }) => {
            assert_eq!(path.display(), "/t/files/a");
            assert_eq!(job.stage(), EraseStage::RemovingContent);
            job
        }
        other => panic!("unexpected step {:?}", other),
    };
    let job = match job.advance(FsReply::Done) {
        EraseStep::Ask(job, FsRequest::RemoveFile { path }) => {
            assert_eq!(path.display(), "/t/info/a.trashinfo");
            assert_eq!(job.stage(), EraseStage::RemovingNote);
            job
        }
        other => panic!("unexpected step {:?}", other),
    };
    assert_eq!(job.advance(FsReply::Failed("busy".to_string())), EraseStep::Finish(Ok(())));
}

// ------------------------------------------------------------- the session

fn session_on(host: &mut FakeHost, root: &str) -> ScanSession {
    let entries = host.scan(root);
    ScanSession::new(FsPath::parse(root), entries)
}

fn commit(host: &mut FakeHost, session: &mut ScanSession) -> bool {
    match session.request_commit(&FsPath::parse(HOME)) {
        Commit::ConfirmationRequired => false,
        Commit::Proceed(paths) => {
            for path in paths {
                let outcome = host.put(&path.display(), HOME, TRASH);
                session.record_deletion(outcome);
            }
            let entries = host.scan(&session.current_root().display());
            session.install_scan(entries);
            true
        }
    }
}

#[test]
fn commit_outside_home_waits_for_confirmation() {
    let mut host = FakeHost::new();
    host.add_file("/etc/foo", "config");
    host.add_file("/etc/bar", "other");
    let mut session = session_on(&mut host, "/etc");
    session.toggle_mark(&FsPath::parse("/etc/foo"));
    assert_eq!(session.gate(), GateState::Idle);
    host.changes.clear();
    assert!(!commit(&mut host, &mut session));
    assert_eq!(session.gate(), GateState::AwaitingConfirmation);
    assert!(host.has("/etc/foo"));
    assert!(host.changes.is_empty());
    assert!(session.is_marked(&FsPath::parse("/etc/foo")));
    assert!(session.trashed_items().is_empty());

    assert!(commit(&mut host, &mut session));
    assert_eq!(session.gate(), GateState::Idle);
    assert!(!host.has("/etc/foo"));
    assert!(host.has("/etc/bar"));
    assert!(session.selected_paths().is_empty());
    assert_eq!(session.trashed_items().len(), 1);
    let item = session.trashed_items()[0].clone();
    assert!(item.is_root);
    assert_eq!(item.original_path.display(), "/etc/foo");
    assert!(host.restore(&item).is_err());
    assert!(!host.has("/etc/foo"));
    let names: Vec<String> = session.entries().iter().map(|e| e.name.clone()).collect();
    assert_eq!(names, vec!["bar"]);
    assert_eq!(session.cursor(), 0);
}

#[test]
fn commit_inside_home_needs_no_confirmation() {
    let mut host = FakeHost::new();
    host.add_file("/home/ann/a.txt", "a");
    host.add_file("/home/ann/b.txt", "bb");
    let mut session = session_on(&mut host, HOME);
    session.toggle_mark(&FsPath::parse("/home/ann/a.txt"));
    session.toggle_mark(&FsPath::parse("/home/ann/b.txt"));
    assert!(commit(&mut host, &mut session));
    assert_eq!(session.gate(), GateState::Idle);
    assert!(!host.has("/home/ann/a.txt"));
    assert!(!host.has("/home/ann/b.txt"));
    assert_eq!(session.trashed_items().len(), 2);
    assert!(session.trashed_items().iter().all(|item| !item.is_root));
}

#[test]
fn commit_of_a_mixed_selection_waits_then_deletes_all() {
    let mut host = FakeHost::new();
    host.add_file("/home/ann/a.txt", "a");
    host.add_file("/etc/foo", "config");
    let mut session = session_on(&mut host, HOME);
    session.toggle_mark(&FsPath::parse("/home/ann/a.txt"));
    session.toggle_mark(&FsPath::parse("/etc/foo"));
    assert!(!commit(&mut host, &mut session));
    assert!(host.has("/home/ann/a.txt"));
    assert!(host.has("/etc/foo"));
    assert!(commit(&mut host, &mut session));
    assert!(!host.has("/home/ann/a.txt"));
    assert!(!host.has("/etc/foo"));
    let roots: Vec<bool> = session.trashed_items().iter().map(|item| item.is_root).collect();
    assert_eq!(roots, vec![false, true]);
}

#[test]
fn commit_goes_on_after_a_deletion_that_failed() {
    let mut host = FakeHost::new();
    host.add_file("/home/ann/b.txt", "bb");
    let mut session = session_on(&mut host, HOME);
    session.toggle_mark(&FsPath::parse("/home/ann/missing.txt"));
    session.toggle_mark(&FsPath::parse("/home/ann/b.txt"));
    assert!(commit(&mut host, &mut session));
    assert!(!host.has("/home/ann/b.txt"));
    assert_eq!(session.trashed_items().len(), 1);
    assert_eq!(session.trashed_items()[0].original_path.display(), "/home/ann/b.txt");
    assert!(!host.has("/home/ann/.local/share/Trash/info/missing.txt.trashinfo"));
}

#[test]
fn cancel_keeps_the_selection() {
    let mut host = FakeHost::new();
    host.add_file("/etc/foo", "config");
    let mut session = session_on(&mut host, "/etc");
    session.toggle_mark(&FsPath::parse("/etc/foo"));
    assert!(!commit(&mut host, &mut session));
    session.cancel();
    assert_eq!(session.gate(), GateState::Idle);
    assert!(session.is_marked(&FsPath::parse("/etc/foo")));
    assert!(host.has("/etc/foo"));
    // The next commit warns again.
    assert!(!commit(&mut host, &mut session));
    assert_eq!(session.gate(), GateState::AwaitingConfirmation);
}

#[test]
fn commit_of_nothing_deletes_nothing() {
    let mut host = FakeHost::new();
    host.add_file("/home/ann/a.txt", "a");
    let mut session = session_on(&mut host, HOME);
    host.changes.clear();
    match session.request_commit(&FsPath::parse(HOME)) {
        Commit::Proceed(paths) => assert!(paths.is_empty()),
        other => panic!("unexpected decision {:?}", other),
    }
    assert!(host.changes.is_empty());
}

#[test]
fn toggle_mark_adds_and_removes() {
    let mut host = FakeHost::new();
    let mut session = session_on(&mut host, "/");
    let a = FsPath::parse("/a");
    let b = FsPath::parse("/b");
    assert!(!session.is_marked(&a));
    session.toggle_mark(&a);
    session.toggle_mark(&b);
    assert!(session.is_marked(&a) && session.is_marked(&b));
    session.toggle_mark(&a);
    assert!(!session.is_marked(&a) && session.is_marked(&b));
    assert_eq!(session.selected_paths().len(), 1);
    session.toggle_mark(&a);
    session.toggle_mark(&a);
    assert!(!session.is_marked(&a));
    // The same path written differently is the same path.
    session.toggle_mark(&FsPath::parse("/b/"));
    assert!(!session.is_marked(&b));
    assert!(session.selected_paths().is_empty());
}

#[test]
fn toggle_selection_marks_the_highlighted_entry() {
    let mut host = FakeHost::new();
    host.add_file("/r/big", "0123456789");
    host.add_file("/r/small", "0");
    let mut session = session_on(&mut host, "/r");
    session.next_item();
    session.toggle_selection();
    assert!(session.is_marked(&FsPath::parse("/r/small")));
    assert!(!session.is_marked(&FsPath::parse("/r/big")));
    session.toggle_selection();
    assert!(!session.is_marked(&FsPath::parse("/r/small")));
    let mut empty = ScanSession::new(FsPath::parse("/r"), Vec::new());
    empty.toggle_selection();
    assert!(empty.selected_paths().is_empty());
}

#[test]
fn cursor_goes_round() {
    let mut host = FakeHost::new();
    host.add_file("/r/a", "333");
    host.add_file("/r/b", "22");
    host.add_file("/r/c", "1");
    let mut session = session_on(&mut host, "/r");
    assert_eq!(session.cursor(), 0);
    session.prev_item();
    assert_eq!(session.cursor(), 2);
    session.next_item();
    assert_eq!(session.cursor(), 0);
    session.next_item();
    session.next_item();
    assert_eq!(session.cursor(), 2);
    session.prev_item();
    assert_eq!(session.cursor(), 1);
    let mut empty = ScanSession::new(FsPath::parse("/r"), Vec::new());
    empty.next_item();
    empty.prev_item();
    assert_eq!(empty.cursor(), 0);
}

#[test]
fn drill_down_enters_directories_only() {
    let mut host = FakeHost::new();
    host.add_file("/r/dir/inner", "0123456789");
    host.add_file("/r/file", "0");
    let mut session = session_on(&mut host, "/r");
    session.next_item();
    assert!(session.drill_down().is_none());
    assert_eq!(session.current_root().display(), "/r");
    assert_eq!(session.entries().len(), 2);
    session.prev_item();
    let target = session.drill_down().unwrap();
    assert_eq!(target.display(), "/r/dir");
    assert_eq!(session.current_root().display(), "/r/dir");
    assert!(session.entries().is_empty());
    assert_eq!(session.cursor(), 0);
    let entries = host.scan(&target.display());
    session.install_scan(entries);
    assert_eq!(session.entries()[0].name, "inner");
    let mut empty = ScanSession::new(FsPath::parse("/r"), Vec::new());
    assert!(empty.drill_down().is_none());
}

#[test]
fn drill_up_stops_at_the_root() {
    let mut host = FakeHost::new();
    host.add_file("/r/dir/inner", "0123456789");
    let mut session = session_on(&mut host, "/r/dir");
    session.next_item();
    let target = session.drill_up().unwrap();
    assert_eq!(target.display(), "/r");
    assert_eq!(session.cursor(), 0);
    assert_eq!(session.drill_up().unwrap().display(), "/");
    assert!(session.drill_up().is_none());
    assert_eq!(session.current_root().display(), "/");
}

#[test]
fn install_scan_resets_the_cursor() {
    let mut host = FakeHost::new();
    host.add_file("/r/a", "333");
    host.add_file("/r/b", "22");
    let mut session = session_on(&mut host, "/r");
    session.next_item();
    assert_eq!(session.cursor(), 1);
    let entries = host.scan("/r");
    session.install_scan(entries);
    assert_eq!(session.cursor(), 0);
}

fn undo(host: &mut FakeHost, session: &mut ScanSession) -> Option<Result<(), String>> {
    let mut step = session.execute_undo_trash()?;
    let outcome = loop {
        match step {
            RestoreStep::Finish(outcome) => break outcome,
            RestoreStep::Ask(job, request) => {
                let reply = host.perform(&request);
                step = job.advance(reply);
            }
        }
    };
    session.record_restore(outcome.clone());
    Some(outcome)
}

#[test]
fn undo_restores_the_highlighted_deletion() {
    let mut host = FakeHost::new();
    host.add_file("/home/ann/a.txt", "a");
    host.add_file("/home/ann/b.txt", "b");
    host.add_file("/home/ann/c.txt", "c");
    let mut session = session_on(&mut host, HOME);
    for name in ["a.txt", "b.txt", "c.txt"] {
        session.toggle_mark(&FsPath::parse(&format!("/home/ann/{}", name)));
    }
    assert!(commit(&mut host, &mut session));
    assert_eq!(session.trashed_items().len(), 3);
    session.next_trashed();
    session.next_trashed();
    assert_eq!(session.trash_cursor(), 2);
    assert!(session.execute_undo_trash().is_some());
    assert_eq!(session.trashed_items().len(), 3);
    assert_eq!(undo(&mut host, &mut session), Some(Ok(())));
    assert_eq!(host.content("/home/ann/c.txt").unwrap(), "c");
    assert_eq!(session.trashed_items().len(), 2);
    assert_eq!(session.trash_cursor(), 1);
    session.prev_trashed();
    session.prev_trashed();
    assert_eq!(session.trash_cursor(), 1);
}

#[test]
fn undo_that_fails_keeps_the_deletion_on_the_list() {
    let mut host = FakeHost::new();
    host.add_file("/home/ann/a.txt", "a");
    host.add_file("/home/ann/b.txt", "b");
    let mut session = session_on(&mut host, HOME);
    session.toggle_mark(&FsPath::parse("/home/ann/a.txt"));
    session.toggle_mark(&FsPath::parse("/home/ann/b.txt"));
    assert!(commit(&mut host, &mut session));
    session.next_trashed();
    let second = session.trashed_items()[1].clone();
    host.refuse_rename = true;
    assert_eq!(undo(&mut host, &mut session), Some(Err("Invalid cross-device link".to_string())));
    assert_eq!(session.trashed_items().len(), 2);
    assert_eq!(session.trash_cursor(), 1);
    assert_eq!(session.trashed_items()[1], second);
    assert!(!host.has("/home/ann/b.txt"));
    // The restore can be asked for again, and works once the host lets it.
    host.refuse_rename = false;
    assert_eq!(undo(&mut host, &mut session), Some(Ok(())));
    assert_eq!(host.content("/home/ann/b.txt").unwrap(), "b");
    assert_eq!(session.trashed_items().len(), 1);
    assert_eq!(session.trash_cursor(), 0);
}

#[test]
fn undo_of_a_deletion_made_for_good_keeps_it_on_the_list() {
    let mut host = FakeHost::new();
    host.add_file("/etc/foo", "config");
    let mut session = session_on(&mut host, "/etc");
    session.toggle_mark(&FsPath::parse("/etc/foo"));
    assert!(!commit(&mut host, &mut session));
    assert!(commit(&mut host, &mut session));
    assert_eq!(session.trashed_items().len(), 1);
    host.changes.clear();
    assert_eq!(
        undo(&mut host, &mut session),
        Some(Err("Cannot restore permanently deleted root files".to_string()))
    );
    assert_eq!(session.trashed_items().len(), 1);
    assert!(session.trashed_items()[0].is_root);
    assert!(host.changes.is_empty());
}

#[test]
fn record_restore_without_deletions_changes_nothing() {
    let mut session = ScanSession::new(FsPath::parse("/r"), Vec::new());
    assert!(session.execute_undo_trash().is_none());
    session.record_restore(Ok(()));
    session.record_restore(Err("nothing".to_string()));
    assert!(session.trashed_items().is_empty());
    assert_eq!(session.trash_cursor(), 0);
}

#[test]
fn commit_that_proceeds_drops_the_entries_until_the_next_scan() {
    let mut host = FakeHost::new();
    host.add_file("/home/ann/a.txt", "a");
    host.add_file("/home/ann/b.txt", "bb");
    let mut session = session_on(&mut host, HOME);
    session.next_item();
    session.toggle_mark(&FsPath::parse("/home/ann/a.txt"));
    assert_eq!(session.entries().len(), 2);
    match session.request_commit(&FsPath::parse(HOME)) {
        Commit::Proceed(paths) => assert_eq!(paths, vec![FsPath::parse("/home/ann/a.txt")]),
        other => panic!("unexpected decision {:?}", other),
    }
    assert!(session.entries().is_empty());
    assert_eq!(session.cursor(), 0);
    assert_eq!(session.current_root().display(), HOME);
}

#[test]
fn commit_that_waits_keeps_the_entries() {
    let mut host = FakeHost::new();
    host.add_file("/etc/foo", "config");
    host.add_file("/etc/bar", "other!");
    let mut session = session_on(&mut host, "/etc");
    session.next_item();
    session.toggle_mark(&FsPath::parse("/etc/foo"));
    assert!(matches!(session.request_commit(&FsPath::parse(HOME)), Commit::ConfirmationRequired));
    assert_eq!(session.entries().len(), 2);
    assert_eq!(session.cursor(), 1);
}

#[test]
fn put_fails_without_the_time_and_writes_nothing() {
    let mut host = FakeHost::new();
    host.add_file("/home/ann/a.txt", "a");
    host.clock = None;
    assert_eq!(host.put("/home/ann/a.txt", HOME, TRASH), Err("The clock has stopped".to_string()));
    assert_eq!(host.content("/home/ann/a.txt").unwrap(), "a");
    assert!(!host.has("/home/ann/.local/share/Trash/info/a.txt.trashinfo"));
    assert!(host.changes.iter().all(|change| change.starts_with("mkdir -p ")));
    let mut step = PutJob::begin(&FsPath::parse("/home/ann/a"), &FsPath::parse(HOME), &FsPath::parse(TRASH));
    for reply in [
        FsReply::Done,
        FsReply::Done,
        FsReply::Answer(false),
        FsReply::Answer(false),
        FsReply::Answer(true),
    ] {
        step = match step {
            PutStep::Ask(job, _) => job.advance(reply),
            other => panic!("unexpected step {:?}", other),
        };
    }
    assert_eq!(step, PutStep::Finish(Err("The local time is not known".to_string())));
}

#[test]
fn move_to_trash_stages_in_the_trash_of_the_data_directory() {
    let home = diskord::platform::home_boundary();
    let inside = home.join("some-file-to-delete");
    match move_to_trash(&inside) {
        PutStep::Ask(job, FsRequest::CreateDirAll { path }) => {
            assert_eq!(job.stage(), PutStage::MakingFilesDir);
            assert_eq!(path, diskord::platform::data_local_dir().join("Trash").join("files"));
            match job.advance(FsReply::Done) {
                PutStep::Ask(_, FsRequest::CreateDirAll { path }) => {
                    assert_eq!(path, diskord::platform::data_local_dir().join("Trash").join("info"));
                }
                other => panic!("unexpected step {:?}", other),
            }
        }
        other => panic!("unexpected step {:?}", other),
    }
}

#[test]
fn erasing_the_highlighted_deletion_takes_it_off_the_list() {
    let mut host = FakeHost::new();
    host.add_file("/home/ann/a.txt", "a");
    host.add_file("/home/ann/b.txt", "b");
    let mut session = session_on(&mut host, HOME);
    session.toggle_mark(&FsPath::parse("/home/ann/a.txt"));
    session.toggle_mark(&FsPath::parse("/home/ann/b.txt"));
    assert!(commit(&mut host, &mut session));
    let first = session.trashed_items()[0].clone();
    match session.execute_session_trash_delete() {
        Some(EraseStep::Ask(_, FsRequest::IsDir { path })) => {
            assert_eq!(path.display(), first.trash_file_path.display())
        }
        other => panic!("unexpected step {:?}", other),
    }
    assert_eq!(session.trashed_items().len(), 1);
    assert_eq!(session.trash_cursor(), 0);
    assert_eq!(session.trashed_items()[0].original_path.display(), "/home/ann/b.txt");
    assert!(session.execute_session_trash_delete().is_some());
    assert!(session.execute_session_trash_delete().is_none());
    assert!(session.execute_undo_trash().is_none());
    assert!(session.trashed_items().is_empty());
}

// ---------------------------------------------------------------- measuring

#[test]
fn measuring_a_missing_directory_gives_zero() {
    let mut host = FakeHost::new();
    host.du_output = Some("777\t/var/cache/pacman/pkg\n".to_string());
    assert_eq!(host.measure(get_pacman_cache_size()), 0);
    assert!(host.changes.is_empty());
}

#[test]
fn measuring_reads_the_first_number_of_du() {
    let mut host = FakeHost::new();
    host.add_dir("/var/cache/pacman/pkg");
    host.add_dir("/var/log/journal");
    host.du_output = Some("123456\t/var/cache/pacman/pkg\n".to_string());
    assert_eq!(host.measure(get_pacman_cache_size()), 123456);
    assert_eq!(host.changes, vec!["run du -sb /var/cache/pacman/pkg"]);
    host.changes.clear();
    host.du_output = Some("  42 /var/log/journal".to_string());
    assert_eq!(host.measure(get_journal_size()), 42);
    assert_eq!(host.changes, vec!["run du -sb /var/log/journal"]);
}

#[test]
fn measuring_gives_zero_when_du_fails_or_prints_no_number() {
    let mut host = FakeHost::new();
    host.add_dir("/data");
    host.du_output = None;
    assert_eq!(host.measure(get_dir_size_with_du("/data")), 0);
    for output in ["", "   \n", "du: cannot read", "-5 /data", "12x /data", "18446744073709551616 /data"] {
        host.du_output = Some(output.to_string());
        assert_eq!(host.measure(get_dir_size_with_du("/data")), 0, "for {:?}", output);
    }
    host.du_output = Some("18446744073709551615 /data".to_string());
    assert_eq!(host.measure(get_dir_size_with_du("/data")), u64::MAX);
    host.du_output = Some("+7 /data".to_string());
    assert_eq!(host.measure(get_dir_size_with_du("/data")), 7);
}

#[test]
fn measuring_several_directories_adds_them_up() {
    let paths = vec![FsPath::parse("/a"), FsPath::parse("/b"), FsPath::parse("/c")];
    let mut step = SizeJob::begin(paths);
    let replies = vec![
        FsReply::Answer(true),
        FsReply::Output { text: "100 /a".to_string(), success: true },
        FsReply::Answer(false),
        FsReply::Answer(true),
        FsReply::Output { text: "23 /c".to_string(), success: false },
    ];
    let mut asked = Vec::new();
    for reply in replies {
        step = match step {
            SizeStep::Ask(job, request) => {
                asked.push(format!("{:?} {:?}", job.stage(), request));
                assert!(job.can_take(&reply));
                job.advance(reply)
            }
            other => panic!("unexpected step {:?}", other),
        };
    }
    assert_eq!(step, SizeStep::Finish(123));
    assert_eq!(asked.len(), 5);
    assert!(asked[1].starts_with("Measuring"));
    assert!(asked[2].starts_with("CheckingPath"));
    assert_eq!(SizeJob::begin(Vec::new()), SizeStep::Finish(0));
}

#[test]
fn measuring_refuses_a_sum_that_overflows() {
    let mut step = SizeJob::begin(vec![FsPath::parse("/a"), FsPath::parse("/b")]);
    for reply in [
        FsReply::Answer(true),
        FsReply::Output { text: "18446744073709551615".to_string(), success: true },
        FsReply::Answer(true),
    ] {
        step = match step {
            SizeStep::Ask(job, _) => job.advance(reply),
            other => panic!("unexpected step {:?}", other),
        };
    }
    match step {
        SizeStep::Ask(job, _) => {
            assert_eq!(job.stage(), SizeStage::Measuring);
            assert!(!job.can_take(&FsReply::Output { text: "1".to_string(), success: true }));
            assert!(job.can_take(&FsReply::Output { text: "0".to_string(), success: true }));
            assert!(job.can_take(&FsReply::Failed("x".to_string())));
        }
        other => panic!("unexpected step {:?}", other),
    }
}

#[test]
fn docker_is_measured_only_when_it_answers() {
    let job = match get_docker_size() {
        SizeStep::Ask(job, FsRequest::RunCommand { argv }) => {
            assert_eq!(argv, vec!["docker", "system", "df", "--format", "{{.Size}}"]);
            assert_eq!(job.stage(), SizeStage::Guarding);
            job
        }
        other => panic!("unexpected step {:?}", other),
    };
    assert_eq!(job.advance(FsReply::Output { text: "1GB".to_string(), success: false }), SizeStep::Finish(0));
    let job = match get_docker_size() {
        SizeStep::Ask(job, _) => job,
        other => panic!("unexpected step {:?}", other),
    };
    assert_eq!(job.advance(FsReply::Failed("No such command".to_string())), SizeStep::Finish(0));
    let job = match get_docker_size() {
        SizeStep::Ask(job, _) => job,
        other => panic!("unexpected step {:?}", other),
    };
    match job.advance(FsReply::Output { text: "1GB".to_string(), success: true }) {
        SizeStep::Ask(job, FsRequest::Exists { path }) => {
            assert_eq!(path.display(), "/var/lib/docker");
            assert_eq!(job.stage(), SizeStage::CheckingPath);
        }
        other => panic!("unexpected step {:?}", other),
    }
}

// ----------------------------------------------------------------- cleaning

fn asked_by(first: CleanStep, replies: Vec<FsReply>) -> (Vec<FsRequest>, Option<bool>) {
    let mut step = first;
    let mut asked = Vec::new();
    let mut replies = replies.into_iter();
    loop {
        match step {
            CleanStep::Finish(ok) => return (asked, Some(ok)),
            CleanStep::Ask(job, request) => {
                asked.push(request);
                match replies.next() {
                    Some(reply) => step = job.advance(reply),
                    None => return (asked, None),
                }
            }
        }
    }
}

fn shell(command: &str) -> FsRequest {
    FsRequest::RunPrivileged {
        argv: vec!["pkexec".to_string(), "bash".to_string(), "-c".to_string(), command.to_string()],
    }
}

#[test]
fn shell_cleaners_succeed_when_the_command_does() {
    let (asked, ok) = asked_by(clean_pacman_cache(), vec![FsReply::Done, FsReply::Done]);
    assert_eq!(asked, vec![shell("yes | pacman -Scc"), FsRequest::Pause { millis: 50 }]);
    assert_eq!(ok, Some(true));
    let (asked, ok) = asked_by(clean_orphaned_packages(), vec![FsReply::Failed("no".to_string()), FsReply::Done]);
    assert_eq!(asked, vec![shell("pacman -Rns $(pacman -Qtdq) --noconfirm"), FsRequest::Pause { millis: 50 }]);
    assert_eq!(ok, Some(false));
    let (asked, ok) = asked_by(clean_docker(), vec![FsReply::Done, FsReply::Failed("late".to_string())]);
    assert_eq!(asked, vec![shell("docker system prune -a --volumes -f"), FsRequest::Pause { millis: 50 }]);
    assert_eq!(ok, Some(true));
    let (asked, ok) = asked_by(vacuum_journal(), vec![FsReply::Answer(true), FsReply::Done]);
    assert_eq!(
        asked,
        vec![
            FsRequest::RunPrivileged {
                argv: vec!["pkexec".to_string(), "journalctl".to_string(), "--vacuum-time=14d".to_string()]
            },
            FsRequest::Pause { millis: 50 },
        ]
    );
    assert_eq!(ok, Some(false));
}

#[test]
fn yay_cleaner_needs_the_removal_to_work() {
    let (asked, ok) = asked_by(clean_yay_cache(), vec![FsReply::Answer(false)]);
    assert_eq!(asked.len(), 1);
    assert_eq!(ok, Some(true));
    let dir = match &asked[0] {
        FsRequest::Exists { path } => path.clone(),
        other => panic!("unexpected request {:?}", other),
    };
    assert!(dir.display().ends_with("/yay"));
    let (asked, ok) = asked_by(
        clean_yay_cache(),
        vec![FsReply::Answer(true), FsReply::Done, FsReply::Failed("x".to_string()), FsReply::Done],
    );
    assert_eq!(
        asked,
        vec![
            FsRequest::Exists { path: dir.clone() },
            FsRequest::RemoveDirAll { path: dir.clone() },
            FsRequest::CreateDirAll { path: dir.clone() },
            FsRequest::Pause { millis: 50 },
        ]
    );
    assert_eq!(ok, Some(true));
    let (_, ok) = asked_by(
        clean_yay_cache(),
        vec![FsReply::Answer(true), FsReply::Failed("busy".to_string()), FsReply::Done, FsReply::Done],
    );
    assert_eq!(ok, Some(false));
}

#[test]
fn trash_cleaner_stops_when_the_removal_fails() {
    let (asked, ok) = asked_by(empty_trash(), vec![FsReply::Answer(false)]);
    assert_eq!(asked.len(), 1);
    assert_eq!(ok, Some(true));
    let (asked, ok) = asked_by(empty_trash(), vec![FsReply::Answer(true), FsReply::Failed("busy".to_string())]);
    assert_eq!(asked.len(), 2);
    assert_eq!(ok, Some(false));
    let (asked, ok) = asked_by(empty_trash(), vec![FsReply::Answer(true), FsReply::Done, FsReply::Done]);
    assert_eq!(asked.len(), 3);
    assert!(matches!(&asked[2], FsRequest::CreateDir { path } if path.display().ends_with("/Trash")));
    assert_eq!(ok, Some(true));
    let (_, ok) = asked_by(
        empty_trash(),
        vec![FsReply::Answer(true), FsReply::Done, FsReply::Failed("x".to_string())],
    );
    assert_eq!(ok, Some(false));
}

#[test]
fn cache_cleaners_always_succeed() {
    let failed = || FsReply::Failed("x".to_string());
    let (asked, ok) = asked_by(clean_cargo_cache(), vec![failed(), failed(), failed(), failed(), failed()]);
    assert_eq!(ok, Some(true));
    let shown: Vec<String> = asked.iter().map(|r| format!("{:?}", r)).collect();
    assert_eq!(asked.len(), 5);
    assert!(matches!(&asked[0], FsRequest::RemoveDirAll { path } if path.display().ends_with("/.cargo/registry")));
    assert!(matches!(&asked[1], FsRequest::CreateDirAll { path } if path.display().ends_with("/.cargo/registry")));
    assert!(matches!(&asked[2], FsRequest::RemoveDirAll { path } if path.display().ends_with("/.cargo/git")));
    assert!(matches!(&asked[3], FsRequest::CreateDirAll { path } if path.display().ends_with("/.cargo/git")));
    assert_eq!(asked[4], FsRequest::Pause { millis: 50 }, "{:?}", shown);
    let (asked, ok) = asked_by(clean_npm_cache(), vec![failed(), failed(), failed()]);
    assert_eq!(ok, Some(true));
    assert_eq!(asked.len(), 3);
    assert!(matches!(&asked[0], FsRequest::RemoveDirAll { path } if path.display().ends_with("/.npm/_cacache")));
    assert!(matches!(&asked[1], FsRequest::CreateDirAll { path } if path.display().ends_with("/.npm/_cacache")));
}

#[test]
fn cleaners_run_against_a_host() {
    let mut host = FakeHost::new();
    assert!(host.clean(empty_trash()));
    assert!(host.changes.is_empty());
    assert!(host.clean(clean_pacman_cache()));
    host.privileged_ok = false;
    assert!(!host.clean(clean_pacman_cache()));
}

#[test]
fn a_script_follows_its_rules() {
    let step = |rule| ScriptStep { request: FsRequest::Pause { millis: 1 }, rule };
    assert_eq!(CleanJob::begin(Vec::new()), CleanStep::Finish(true));
    let (asked, ok) = asked_by(
        CleanJob::begin(vec![step(Rule::Count), step(Rule::Count), step(Rule::Ignore)]),
        vec![FsReply::Failed("x".to_string()), FsReply::Done, FsReply::Failed("y".to_string())],
    );
    assert_eq!(asked.len(), 3);
    assert_eq!(ok, Some(false));
    let (asked, ok) = asked_by(
        CleanJob::begin(vec![step(Rule::Count), step(Rule::StopUnlessYes), step(Rule::Count)]),
        vec![FsReply::Failed("x".to_string()), FsReply::Answer(false)],
    );
    assert_eq!(asked.len(), 2);
    assert_eq!(ok, Some(false));
    let (asked, ok) = asked_by(
        CleanJob::begin(vec![step(Rule::StopOnFailure), step(Rule::Count)]),
        vec![FsReply::Answer(true)],
    );
    assert_eq!(asked.len(), 1);
    assert_eq!(ok, Some(false));
}
