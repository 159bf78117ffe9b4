//! Directory size aggregation: what lies below each direct child of a
//! directory, and the largest children in order.

use crate::host::{files_view, FileModel, FileRecord, FsReply, FsRequest, ReplyModel, RequestModel};
use crate::path::{lemma_sorts_before_total, lemma_sorts_before_transitive, FsPath, PathModel};
use vstd::prelude::*;
use vstd::string::*;

verus! {

/// The most entries that a scan reports.
pub const MAX_ENTRIES: usize = 50;

/// One direct child of a scanned directory.
#[derive(Debug, PartialEq, Eq)]
pub struct DirEntry {
    /// Where the child is.
    pub path: FsPath,
    /// The last component of the path, for display.
    pub name: String,
    /// The bytes of all regular files below the child, or of the child
    /// itself when it is a regular file.
    pub size: u64,
    /// Whether the child was a directory when it was reported.
    pub is_dir: bool,
}

/// The mathematical value of a [`DirEntry`].
pub struct EntryModel {
    pub path: PathModel,
    pub name: Seq<char>,
    pub size: u64,
    pub is_dir: bool,
}

impl View for DirEntry {
    type V = EntryModel;

    open spec fn view(&self) -> EntryModel {
        EntryModel { path: self.path@, name: self.name@, size: self.size, is_dir: self.is_dir }
    }
}

impl Clone for DirEntry {
    fn clone(&self) -> (copy: DirEntry)
        ensures
            copy@ == self@,
    {
        DirEntry {
            path: self.path.clone(),
            name: self.name.clone(),
            size: self.size,
            is_dir: self.is_dir,
        }
    }
}

/// The views of a list of entries, in order.
pub open spec fn entries_view(entries: Seq<DirEntry>) -> Seq<EntryModel> {
    Seq::new(entries.len(), |i: int| entries[i]@)
}

/// The views of a list of paths, in order.
pub open spec fn paths_view(paths: Seq<FsPath>) -> Seq<PathModel> {
    Seq::new(paths.len(), |i: int| paths[i]@)
}

/// The bytes of all the files together.
pub open spec fn sizes_total(files: Seq<FileModel>) -> int
    decreases files.len(),
{
    if files.len() == 0 {
        0
    } else {
        sizes_total(files.drop_last()) + files.last().size
    }
}

/// The bytes of the files that lie below `root`.
pub open spec fn bytes_below(root: PathModel, files: Seq<FileModel>) -> int
    decreases files.len(),
{
    if files.len() == 0 {
        0
    } else if root.child_toward(files.last().path).is_some() {
        bytes_below(root, files.drop_last()) + files.last().size
    } else {
        bytes_below(root, files.drop_last())
    }
}

/// The bytes of the files that belong to `child`, a direct child of
/// `root`: those that lie below it, or the child itself when it is a file.
pub open spec fn attributed(root: PathModel, files: Seq<FileModel>, child: PathModel) -> int
    decreases files.len(),
{
    if files.len() == 0 {
        0
    } else if root.child_toward(files.last().path) == Some(child) {
        attributed(root, files.drop_last(), child) + files.last().size
    } else {
        attributed(root, files.drop_last(), child)
    }
}

/// The direct children of `root` that hold at least one of the files, each
/// once, in the order in which the files first reach them.
pub open spec fn children_of(root: PathModel, files: Seq<FileModel>) -> Seq<PathModel>
    decreases files.len(),
{
    if files.len() == 0 {
        Seq::empty()
    } else {
        let before = children_of(root, files.drop_last());
        match root.child_toward(files.last().path) {
            Some(child) => if before.contains(child) {
                before
            } else {
                before.push(child)
            },
            None => before,
        }
    }
}

/// No child is listed twice.
pub proof fn lemma_children_distinct(root: PathModel, files: Seq<FileModel>)
    ensures
        children_of(root, files).no_duplicates(),
    decreases files.len(),
{
    if files.len() > 0 {
        lemma_children_distinct(root, files.drop_last());
    }
}

/// A child that no file reaches has no bytes.
pub proof fn lemma_unreached_child_is_empty(root: PathModel, files: Seq<FileModel>, child: PathModel)
    requires
        !children_of(root, files).contains(child),
    ensures
        attributed(root, files, child) == 0,
    decreases files.len(),
{
    if files.len() > 0 {
        let before = children_of(root, files.drop_last());
        let reached = root.child_toward(files.last().path);
        if reached == Some(child) {
            if before.contains(child) {
            } else {
                assert(before.push(child).last() == child);
                assert(before.push(child).contains(child));
            }
        } else {
            if !before.contains(child) {
            } else {
                let i = choose|i: int| 0 <= i < before.len() && before[i] == child;
                assert(children_of(root, files)[i] == child);
            }
            lemma_unreached_child_is_empty(root, files.drop_last(), child);
        }
    }
}

/// No child holds more than all files together.
pub proof fn lemma_attributed_bounded(root: PathModel, files: Seq<FileModel>, child: PathModel)
    ensures
        attributed(root, files, child) <= sizes_total(files),
    decreases files.len(),
{
    if files.len() > 0 {
        lemma_attributed_bounded(root, files.drop_last(), child);
    }
}

/// The first files of a list hold no more than the whole list.
pub proof fn lemma_sizes_total_prefix(files: Seq<FileModel>, n: int)
    requires
        0 <= n <= files.len(),
    ensures
        sizes_total(files.take(n)) <= sizes_total(files),
    decreases files.len(),
{
    if n < files.len() {
        assert(files.drop_last().take(n) =~= files.take(n));
        lemma_sizes_total_prefix(files.drop_last(), n);
    } else {
        assert(files.take(n) =~= files);
    }
}

/// Whether the two lists hold, child by child, the direct children of
/// `root` that the files reach and the bytes that belong to each.
pub open spec fn totals_match(
    root: PathModel,
    files: Seq<FileModel>,
    children: Seq<PathModel>,
    sizes: Seq<u64>,
) -> bool {
    &&& children == children_of(root, files)
    &&& sizes.len() == children.len()
    &&& forall|k: int| 0 <= k < children.len() ==> sizes[k] == attributed(root, files, #[trigger] children[k])
}

/// Sums the files up by the direct child of `root` that each lies below.
pub fn accumulate(root: &FsPath, files: &Vec<FileRecord>) -> (totals: (Vec<FsPath>, Vec<u64>))
    requires
        sizes_total(files_view(files@)) <= u64::MAX,
    ensures
        totals_match(root@, files_view(files@), paths_view(totals.0@), totals.1@),
{
    let ghost all = files_view(files@);
    let mut children: Vec<FsPath> = Vec::new();
    let mut sizes: Vec<u64> = Vec::new();
    let mut i: usize = 0;
    assert(all.take(0) =~= Seq::empty());
    assert(paths_view(children@) =~= Seq::empty());
    while i < files.len()
        invariant
            i <= files.len(),
            all == files_view(files@),
            sizes_total(all) <= u64::MAX,
            totals_match(root@, all.take(i as int), paths_view(children@), sizes@),
        decreases files.len() - i,
    {
        let ghost seen = all.take(i as int);
        let ghost next = all.take(i + 1);
        let ghost before = children_of(root@, seen);
        proof {
            assert(next.drop_last() =~= seen);
            assert(next.last() == files[i as int]@);
            lemma_children_distinct(root@, seen);
            lemma_sizes_total_prefix(all, i + 1);
        }
        match root.child_toward(&files[i].path) {
            None => {
                assert(totals_match(root@, next, paths_view(children@), sizes@));
            },
            Some(child) => {
                let mut j: usize = 0;
                while j < children.len() && !children[j].same_as(&child)
                    invariant
                        j <= children.len(),
                        forall|k: int| 0 <= k < j ==> children[k]@ != child@,
                    decreases children.len() - j,
                {
                    j += 1;
                }
                if j < children.len() {
                    proof {
                        assert(before[j as int] == child@);
                        assert(before.contains(child@));
                        lemma_attributed_bounded(root@, next, child@);
                    }
                    let sum = sizes[j] + files[i].size;
                    sizes.set(j, sum);
                    proof {
                        assert forall|k: int| 0 <= k < before.len() implies sizes[k] == attributed(
                            root@,
                            next,
                            #[trigger] before[k],
                        ) by {
                            if k != j {
                                assert(before[k] != before[j as int]);
                            }
                        }
                    }
                } else {
                    proof {
                        assert(!before.contains(child@)) by {
                            if before.contains(child@) {
                                let k = choose|k: int| 0 <= k < before.len() && before[k] == child@;
                                assert(children[k]@ == child@);
                            }
                        }
                        lemma_unreached_child_is_empty(root@, seen, child@);
                    }
                    children.push(child);
                    sizes.push(files[i].size);
                    proof {
                        assert(paths_view(children@) =~= before.push(child@));
                        assert forall|k: int| 0 <= k < before.len() implies before[k] != child@ by {
                            assert(before.contains(before[k]));
                        }
                    }
                }
            },
        }
        i += 1;
    }
    assert(all.take(i as int) =~= all);
    (children, sizes)
}

/// Whether `a` is listed before `b`: the larger entry first, and of two
/// entries of one size the one whose path sorts first.
pub open spec fn ranks_before(a: EntryModel, b: EntryModel) -> bool {
    a.size > b.size || (a.size == b.size && a.path.sorts_before(b.path))
}

/// Whether no entry of the list ranks before an earlier one.
pub open spec fn in_rank_order(entries: Seq<EntryModel>) -> bool {
    forall|i: int, j: int| 0 <= i < j < entries.len() ==> !ranks_before(#[trigger] entries[j], #[trigger] entries[i])
}

/// Whether `entry` ranks before none of the `kept` entries.
pub open spec fn outranked(entry: EntryModel, kept: Seq<EntryModel>) -> bool {
    forall|i: int| 0 <= i < kept.len() ==> !ranks_before(entry, #[trigger] kept[i])
}

/// The sizes of the entries added up.
pub open spec fn sizes_sum(entries: Seq<EntryModel>) -> int
    decreases entries.len(),
{
    if entries.len() == 0 {
        0
    } else {
        sizes_sum(entries.drop_last()) + entries.last().size
    }
}

/// Whether `top` holds the first `limit` entries of `all` in rank order,
/// where `pick[i]` is the place in `all` from which `top[i]` was taken.
///
/// Each place is picked at most once. The list is in rank order, every
/// entry that was left out ranks before none of those kept, and nothing is
/// left out while there is room.
pub open spec fn is_top_of(top: Seq<EntryModel>, all: Seq<EntryModel>, pick: Seq<int>, limit: int) -> bool {
    &&& top.len() == if all.len() <= limit {
        all.len() as int
    } else {
        limit
    }
    &&& in_rank_order(top)
    &&& pick.len() == top.len()
    &&& pick.no_duplicates()
    &&& forall|i: int| 0 <= i < top.len() ==> 0 <= #[trigger] pick[i] < all.len() && top[i] == all[pick[i]]
    &&& forall|k: int| 0 <= k < all.len() ==> pick.contains(k) || outranked(#[trigger] all[k], top)
    &&& all.len() <= limit ==> forall|k: int| 0 <= k < all.len() ==> #[trigger] pick.contains(k)
    &&& all.len() <= limit ==> sizes_sum(top) == sizes_sum(all)
}

/// The ranking is transitive.
pub proof fn lemma_ranks_before_transitive(a: EntryModel, b: EntryModel, c: EntryModel)
    requires
        ranks_before(a, b),
        ranks_before(b, c),
    ensures
        ranks_before(a, c),
{
    if a.size == b.size && b.size == c.size {
        lemma_sorts_before_transitive(a.path, b.path, c.path);
    }
}

/// Of two entries with different paths exactly one ranks before the other.
pub proof fn lemma_ranks_before_total(a: EntryModel, b: EntryModel)
    ensures
        !(ranks_before(a, b) && ranks_before(b, a)),
        a.path != b.path ==> (ranks_before(a, b) || ranks_before(b, a)),
{
    lemma_sorts_before_total(a.path, b.path);
}

proof fn lemma_sum_insert(entries: Seq<EntryModel>, at: int, entry: EntryModel)
    requires
        0 <= at <= entries.len(),
    ensures
        sizes_sum(entries.insert(at, entry)) == sizes_sum(entries) + entry.size,
    decreases entries.len() - at,
{
    let grown = entries.insert(at, entry);
    if at == entries.len() {
        assert(grown.drop_last() =~= entries);
        assert(grown.last() == entry);
    } else {
        assert(grown.drop_last() =~= entries.drop_last().insert(at, entry));
        assert(grown.last() == entries.last());
        lemma_sum_insert(entries.drop_last(), at, entry);
    }
}

proof fn lemma_top_step(
    top: Seq<EntryModel>,
    all: Seq<EntryModel>,
    k: int,
    pick: Seq<int>,
    at: int,
    limit: int,
)
    requires
        limit > 0,
        0 <= k < all.len(),
        is_top_of(top, all.take(k), pick, limit),
        0 <= at <= top.len(),
        forall|i: int| 0 <= i < at ==> !ranks_before(all[k], #[trigger] top[i]),
        at < top.len() ==> ranks_before(all[k], top[at]),
    ensures
        at >= limit ==> is_top_of(top, all.take(k + 1), pick, limit),
        at < limit && top.len() < limit ==> is_top_of(
            top.insert(at, all[k]),
            all.take(k + 1),
            pick.insert(at, k),
            limit,
        ),
        at < limit && top.len() >= limit ==> is_top_of(
            top.insert(at, all[k]).drop_last(),
            all.take(k + 1),
            pick.insert(at, k).drop_last(),
            limit,
        ),
{
    let entry = all[k];
    let seen = all.take(k);
    let next = all.take(k + 1);
    assert(next.drop_last() =~= seen);
    assert(next.last() == entry);
    assert forall|m: int| 0 <= m < k implies next[m] == seen[m] by {}
    if at >= limit {
        assert(top.len() == limit);
        assert(outranked(entry, top));
        assert forall|m: int| 0 <= m < next.len() implies pick.contains(m) || outranked(
            #[trigger] next[m],
            top,
        ) by {
            if m < k {
                assert(pick.contains(m) || outranked(seen[m], top));
            }
        }
        assert(is_top_of(top, next, pick, limit));
    } else {
        let grown = top.insert(at, entry);
        let places = pick.insert(at, k);
        assert forall|i: int, j: int| 0 <= i < j < grown.len() implies !ranks_before(
            #[trigger] grown[j],
            #[trigger] grown[i],
        ) by {
            if j == at {
                assert(grown[i] == top[i]);
            } else if i == at {
                assert(grown[j] == top[j - 1]);
                if ranks_before(top[j - 1], entry) {
                    lemma_ranks_before_transitive(top[j - 1], entry, top[at]);
                    lemma_ranks_before_total(top[at], entry);
                }
            } else {
                let oi = if i < at { i } else { i - 1 };
                let oj = if j < at { j } else { j - 1 };
                assert(grown[i] == top[oi] && grown[j] == top[oj]);
            }
        }
        assert forall|i: int| 0 <= i < grown.len() implies 0 <= #[trigger] places[i] < next.len()
            && grown[i] == next[places[i]] by {
            if i < at {
                assert(places[i] == pick[i]);
            } else if i > at {
                assert(places[i] == pick[i - 1]);
            }
        }
        assert(places.no_duplicates()) by {
            assert forall|i: int, j: int| 0 <= i < places.len() && 0 <= j < places.len() && i != j implies places[i]
                != places[j] by {
                let oi = if i < at { i } else { i - 1 };
                let oj = if j < at { j } else { j - 1 };
                if i != at {
                    assert(places[i] == pick[oi]);
                }
                if j != at {
                    assert(places[j] == pick[oj]);
                }
            }
        }
        assert forall|m: int| 0 <= m < k && pick.contains(m) implies places.contains(m) by {
            let i = choose|i: int| 0 <= i < pick.len() && pick[i] == m;
            let ni = if i < at { i } else { i + 1 };
            assert(places[ni] == m);
        }
        assert(places[at] == k);
        assert(places.contains(k));
        lemma_sum_insert(top, at, entry);
        if top.len() < limit {
            assert forall|m: int| 0 <= m < next.len() implies #[trigger] places.contains(m) by {
                if m < k {
                    assert(pick.contains(m));
                }
            }
            assert(is_top_of(grown, next, places, limit));
        } else {
            let kept = grown.drop_last();
            let kept_places = places.drop_last();
            let dropped = grown.last();
            assert(dropped == top.last());
            assert forall|i: int| 0 <= i < kept.len() implies !ranks_before(dropped, #[trigger] kept[i]) by {
                assert(kept[i] == grown[i]);
                assert(!ranks_before(grown[grown.len() - 1], grown[i]));
            }
            assert forall|m: int| 0 <= m < next.len() implies kept_places.contains(m) || outranked(
                #[trigger] next[m],
                kept,
            ) by {
                if places.contains(m) {
                    let i = choose|i: int| 0 <= i < places.len() && places[i] == m;
                    if i < kept_places.len() {
                        assert(kept_places[i] == m);
                    } else {
                        assert(next[m] == dropped);
                    }
                } else {
                    assert(m < k);
                    assert(outranked(seen[m], top));
                    assert forall|i: int| 0 <= i < kept.len() implies !ranks_before(
                        next[m],
                        #[trigger] kept[i],
                    ) by {
                        if i < at {
                            assert(kept[i] == top[i]);
                        } else if i > at {
                            assert(kept[i] == top[i - 1]);
                        } else {
                            assert(kept[i] == entry);
                            if ranks_before(next[m], entry) {
                                lemma_ranks_before_transitive(next[m], entry, top[at]);
                            }
                        }
                    }
                }
            }
            assert(kept_places.no_duplicates());
            assert(is_top_of(kept, next, kept_places, limit));
        }
    }
}

/// Decides `ranks_before`.
pub fn outranks(a: &DirEntry, b: &DirEntry) -> (r: bool)
    ensures
        r == ranks_before(a@, b@),
{
    a.size > b.size || (a.size == b.size && a.path.sorts_before(&b.path))
}

/// The largest entries, at most [`MAX_ENTRIES`] of them, largest first.
/// Entries of one size are listed in the order of their paths.
pub fn rank_entries(entries: &Vec<DirEntry>) -> (top: Vec<DirEntry>)
    ensures
        exists|pick: Seq<int>| is_top_of(entries_view(top@), entries_view(entries@), pick, MAX_ENTRIES as int),
{
    let ghost all = entries_view(entries@);
    let mut top: Vec<DirEntry> = Vec::new();
    let ghost mut pick: Seq<int> = Seq::empty();
    let mut k: usize = 0;
    proof {
        assert(all.take(0) =~= Seq::empty());
        assert(entries_view(top@) =~= Seq::empty());
    }
    while k < entries.len()
        invariant
            k <= entries.len(),
            all == entries_view(entries@),
            is_top_of(entries_view(top@), all.take(k as int), pick, MAX_ENTRIES as int),
        decreases entries.len() - k,
    {
        let entry = entries[k].clone();
        let ghost kept = entries_view(top@);
        let mut at: usize = 0;
        while at < top.len() && !outranks(&entry, &top[at])
            invariant
                at <= top.len(),
                kept == entries_view(top@),
                forall|i: int| 0 <= i < at ==> !ranks_before(entry@, #[trigger] kept[i]),
            decreases top.len() - at,
        {
            at += 1;
        }
        proof {
            assert(all[k as int] == entry@);
            assert(at < top.len() ==> kept[at as int] == top[at as int]@);
            lemma_top_step(kept, all, k as int, pick, at as int, MAX_ENTRIES as int);
        }
        if at < MAX_ENTRIES {
            top.insert(at, entry);
            proof {
                pick = pick.insert(at as int, k as int);
                assert(entries_view(top@) =~= kept.insert(at as int, entry@));
            }
            if top.len() > MAX_ENTRIES {
                let ghost grown = entries_view(top@);
                top.pop();
                proof {
                    pick = pick.drop_last();
                    assert(entries_view(top@) =~= grown.drop_last());
                }
            }
        }
        k += 1;
    }
    assert(all.take(k as int) =~= all);
    top
}

/// What the last component of a path is called in a listing: the component
/// itself, or nothing when the path has none.
pub open spec fn display_name(path: PathModel) -> Seq<char> {
    match path.file_name() {
        Some(name) => name,
        None => Seq::empty(),
    }
}

/// How far a scan has come.
#[derive(Debug, Clone, Copy, PartialEq, Eq, Structural)]
pub enum ScanStage {
    /// The host was asked whether the directory exists.
    CheckingRoot,
    /// The canonical form of the directory was asked for.
    Resolving,
    /// The walk of the tree was asked for.
    Walking,
    /// The host was asked whether the next child is a directory.
    Probing,
}

/// A scan under way.
#[derive(Debug, PartialEq, Eq)]
pub struct ScanJob {
    stage: ScanStage,
    root: FsPath,
    children: Vec<FsPath>,
    sizes: Vec<u64>,
    entries: Vec<DirEntry>,
}

/// The mathematical value of a [`ScanJob`].
pub struct ScanJobModel {
    /// What the host was last asked for.
    pub stage: ScanStage,
    /// The directory being scanned.
    pub root: PathModel,
    /// The direct children that hold files.
    pub children: Seq<PathModel>,
    /// The bytes below each child.
    pub sizes: Seq<u64>,
    /// The entries made so far, one for each child already probed.
    pub entries: Seq<EntryModel>,
}

impl ScanJobModel {
    /// The entry for the child that is being probed, given the host's
    /// answer to whether it is a directory.
    pub open spec fn entry_for(self, is_dir: bool) -> EntryModel {
        let k = self.entries.len() as int;
        EntryModel {
            path: self.children[k],
            name: display_name(self.children[k]),
            size: self.sizes[k],
            is_dir,
        }
    }

    /// Whether the parts of the job fit together: no child is listed
    /// twice, every child has a size, the entries made so far are those of
    /// the first children, and while children are probed at least one is
    /// left.
    pub open spec fn wf(self) -> bool {
        &&& self.children.no_duplicates()
        &&& self.sizes.len() == self.children.len()
        &&& self.entries.len() <= self.children.len()
        &&& self.stage == ScanStage::Probing ==> self.entries.len() < self.children.len()
        &&& forall|i: int|
            0 <= i < self.entries.len() ==> (#[trigger] self.entries[i]).path == self.children[i]
                && self.entries[i].size == self.sizes[i]
    }
}

impl View for ScanJob {
    type V = ScanJobModel;

    closed spec fn view(&self) -> ScanJobModel {
        ScanJobModel {
            stage: self.stage,
            root: self.root@,
            children: paths_view(self.children@),
            sizes: self.sizes@,
            entries: entries_view(self.entries@),
        }
    }
}

/// What a scan does next: ask the host for something, or finish with the
/// entries.
#[derive(Debug, PartialEq, Eq)]
pub enum ScanStep {
    Ask(ScanJob, FsRequest),
    Finish(Vec<DirEntry>),
}

/// The mathematical value of a [`ScanStep`].
pub enum ScanStepModel {
    Ask(ScanJobModel, RequestModel),
    Finish(Seq<EntryModel>),
}

impl View for ScanStep {
    type V = ScanStepModel;

    open spec fn view(&self) -> ScanStepModel {
        match self {
            ScanStep::Ask(job, request) => ScanStepModel::Ask(job@, request@),
            ScanStep::Finish(entries) => ScanStepModel::Finish(entries_view(entries@)),
        }
    }
}

/// The first step of scanning `path`: the host is asked whether it exists.
pub open spec fn scan_begin(path: PathModel) -> ScanStepModel {
    ScanStepModel::Ask(
        ScanJobModel {
            stage: ScanStage::CheckingRoot,
            root: path,
            children: Seq::empty(),
            sizes: Seq::empty(),
            entries: Seq::empty(),
        },
        RequestModel::Exists { path },
    )
}

/// The directory that is walked: the canonical form that the host found,
/// or the directory as given when the host found none.
pub open spec fn resolved_root(given: PathModel, reply: ReplyModel) -> PathModel {
    match reply {
        ReplyModel::Resolved(path) => path,
        _ => given,
    }
}

/// The files that a walk reported; none when the walk failed.
pub open spec fn walked_files(reply: ReplyModel) -> Seq<FileModel> {
    match reply {
        ReplyModel::Files(files) => files,
        _ => Seq::empty(),
    }
}

/// Whether `step` is a step that may follow the host's `reply`.
///
/// - A directory that does not exist gives no entries.
/// - The directory is walked under its canonical form where the host can
///   find it, under the given path otherwise.
/// - The files are summed up by direct child. Without children the scan
///   finishes with no entries.
/// - Each child is probed in turn for whether it is a directory, and gets
///   its entry from the answer.
/// - After the last child the scan finishes with the largest entries in
///   rank order.
pub open spec fn scan_advances(job: ScanJobModel, reply: ReplyModel, step: ScanStepModel) -> bool {
    match job.stage {
        ScanStage::CheckingRoot => {
            if reply.is_yes() {
                step == ScanStepModel::Ask(
                    ScanJobModel { stage: ScanStage::Resolving, ..job },
                    RequestModel::Canonicalize { path: job.root },
                )
            } else {
                step == ScanStepModel::Finish(Seq::empty())
            }
        },
        ScanStage::Resolving => {
            let root = resolved_root(job.root, reply);
            step == ScanStepModel::Ask(
                ScanJobModel { stage: ScanStage::Walking, root, ..job },
                RequestModel::WalkFiles { root },
            )
        },
        ScanStage::Walking => {
            let children = children_of(job.root, walked_files(reply));
            if children.len() == 0 {
                step == ScanStepModel::Finish(Seq::empty())
            } else {
                &&& step matches ScanStepModel::Ask(next, request)
                &&& next.stage == ScanStage::Probing
                &&& next.root == job.root
                &&& totals_match(job.root, walked_files(reply), next.children, next.sizes)
                &&& next.entries == Seq::<EntryModel>::empty()
                &&& request == RequestModel::IsDir { path: children[0] }
            }
        },
        ScanStage::Probing => {
            let entries = job.entries.push(job.entry_for(reply.is_yes()));
            if entries.len() < job.children.len() {
                step == ScanStepModel::Ask(
                    ScanJobModel { entries, ..job },
                    RequestModel::IsDir { path: job.children[entries.len() as int] },
                )
            } else {
                &&& step matches ScanStepModel::Finish(top)
                &&& exists|pick: Seq<int>| is_top_of(top, entries, pick, MAX_ENTRIES as int)
            }
        },
    }
}

impl ScanJob {
    /// What the host was last asked for.
    pub fn stage(&self) -> (stage: ScanStage)
        ensures
            stage == self@.stage,
    {
        self.stage
    }

    /// Whether `reply` is one that [`ScanJob::advance`] can take: the files
    /// of a walk must not hold more bytes together than a `u64` can count.
    pub open spec fn accepts(self, reply: ReplyModel) -> bool {
        self@.stage == ScanStage::Walking ==> sizes_total(walked_files(reply)) <= u64::MAX
    }

    /// The step that follows the host's `reply`.
    pub fn advance(self, reply: FsReply) -> (step: ScanStep)
        requires
            self@.wf(),
            self.accepts(reply@),
        ensures
            scan_advances(self@, reply@, step@),
            step@ matches ScanStepModel::Ask(next, _) ==> next.wf(),
    {
        let ghost before = self@;
        let ghost answer = reply@;
        match self.stage {
            ScanStage::CheckingRoot => {
                if reply.is_yes() {
                    let path = self.root.clone();
                    let step = ScanStep::Ask(
                        ScanJob { stage: ScanStage::Resolving, ..self },
                        FsRequest::Canonicalize { path },
                    );
                    assert(scan_advances(before, answer, step@));
                    step
                } else {
                    let none: Vec<DirEntry> = Vec::new();
                    assert(entries_view(none@) =~= Seq::empty());
                    let step = ScanStep::Finish(none);
                    assert(scan_advances(before, answer, step@));
                    step
                }
            },
            ScanStage::Resolving => {
                let root = match reply {
                    FsReply::Resolved(path) => path,
                    _ => self.root,
                };
                assert(root@ == resolved_root(before.root, answer));
                let walked = root.clone();
                let step = ScanStep::Ask(
                    ScanJob {
                        stage: ScanStage::Walking,
                        root,
                        children: self.children,
                        sizes: self.sizes,
                        entries: self.entries,
                    },
                    FsRequest::WalkFiles { root: walked },
                );
                assert(scan_advances(before, answer, step@));
                step
            },
            ScanStage::Walking => {
                let files = match reply {
                    FsReply::Files(files) => files,
                    _ => {
                        let none: Vec<FileRecord> = Vec::new();
                        assert(files_view(none@) =~= Seq::empty());
                        none
                    },
                };
                assert(files_view(files@) == walked_files(answer));
                let (children, sizes) = accumulate(&self.root, &files);
                proof {
                    lemma_children_distinct(self.root@, files_view(files@));
                }
                if children.len() == 0 {
                    let none: Vec<DirEntry> = Vec::new();
                    assert(entries_view(none@) =~= Seq::empty());
                    let step = ScanStep::Finish(none);
                    assert(scan_advances(before, answer, step@));
                    step
                } else {
                    let path = children[0].clone();
                    let entries: Vec<DirEntry> = Vec::new();
                    assert(entries_view(entries@) =~= Seq::empty());
                    assert(path@ == paths_view(children@)[0]);
                    let step = ScanStep::Ask(
                        ScanJob { stage: ScanStage::Probing, root: self.root, children, sizes, entries },
                        FsRequest::IsDir { path },
                    );
                    assert(scan_advances(before, answer, step@));
                    step
                }
            },
            ScanStage::Probing => {
                let k = self.entries.len();
                assert(before.children[k as int] == self.children[k as int]@);
                let name = match self.children[k].file_name() {
                    Some(name) => name,
                    None => String::new(),
                };
                let entry = DirEntry {
                    path: self.children[k].clone(),
                    name,
                    size: self.sizes[k],
                    is_dir: reply.is_yes(),
                };
                assert(entry@ == before.entry_for(answer.is_yes()));
                let mut entries = self.entries;
                entries.push(entry);
                assert(entries_view(entries@) =~= before.entries.push(before.entry_for(answer.is_yes())));
                if entries.len() < self.children.len() {
                    let path = self.children[entries.len()].clone();
                    assert(path@ == before.children[entries.len() as int]);
                    let step = ScanStep::Ask(
                        ScanJob {
                            stage: ScanStage::Probing,
                            root: self.root,
                            children: self.children,
                            sizes: self.sizes,
                            entries,
                        },
                        FsRequest::IsDir { path },
                    );
                    assert(scan_advances(before, answer, step@));
                    step
                } else {
                    let top = rank_entries(&entries);
                    let ghost all = before.entries.push(before.entry_for(answer.is_yes()));
                    let ghost pick = choose|pick: Seq<int>|
                        is_top_of(entries_view(top@), entries_view(entries@), pick, MAX_ENTRIES as int);
                    assert(is_top_of(entries_view(top@), all, pick, MAX_ENTRIES as int));
                    assert(all.len() >= before.children.len());
                    let step = ScanStep::Finish(top);
                    assert(step@ matches ScanStepModel::Finish(ranked) && is_top_of(
                        ranked,
                        all,
                        pick,
                        MAX_ENTRIES as int,
                    ));
                    assert(scan_advances(before, answer, step@));
                    step
                }
            },
        }
    }
}

/// Starts scanning the directory `path`.
pub fn scan_directory(path: &FsPath) -> (step: ScanStep)
    ensures
        step@ == scan_begin(path@),
        step@ matches ScanStepModel::Ask(job, _) && job.wf(),
{
    let entries: Vec<DirEntry> = Vec::new();
    let children: Vec<FsPath> = Vec::new();
    assert(entries_view(entries@) =~= Seq::empty());
    assert(paths_view(children@) =~= Seq::empty());
    ScanStep::Ask(
        ScanJob { stage: ScanStage::CheckingRoot, root: path.clone(), children, sizes: Vec::new(), entries },
        FsRequest::Exists { path: path.clone() },
    )
}

/// Whether the files of a walk hold no more bytes together than a `u64`
/// can count.
pub fn sizes_fit(files: &Vec<FileRecord>) -> (fit: bool)
    ensures
        fit == (sizes_total(files_view(files@)) <= u64::MAX),
{
    let ghost all = files_view(files@);
    let mut total: u64 = 0;
    let mut i: usize = 0;
    assert(all.take(0) =~= Seq::empty());
    while i < files.len()
        invariant
            i <= files.len(),
            all == files_view(files@),
            total == sizes_total(all.take(i as int)),
        decreases files.len() - i,
    {
        proof {
            assert(all.take(i + 1).drop_last() =~= all.take(i as int));
            assert(all.take(i + 1).last() == files[i as int]@);
            lemma_sizes_total_prefix(all, i + 1);
        }
        match total.checked_add(files[i].size) {
            Some(sum) => {
                total = sum;
            },
            None => {
                return false;
            },
        }
        i += 1;
    }
    assert(all.take(i as int) =~= all);
    true
}

/// The bytes that belong to the listed children, added up.
pub open spec fn attributed_sum(root: PathModel, files: Seq<FileModel>, children: Seq<PathModel>) -> int
    decreases children.len(),
{
    if children.len() == 0 {
        0
    } else {
        attributed_sum(root, files, children.drop_last()) + attributed(root, files, children.last())
    }
}

proof fn lemma_attributed_sum_step(root: PathModel, files: Seq<FileModel>, children: Seq<PathModel>)
    requires
        files.len() > 0,
        children.no_duplicates(),
    ensures
        attributed_sum(root, files, children) == attributed_sum(root, files.drop_last(), children) + (if root.child_toward(
            files.last().path,
        ).is_some() && children.contains(root.child_toward(files.last().path).unwrap()) {
            files.last().size as int
        } else {
            0
        }),
    decreases children.len(),
{
    if children.len() > 0 {
        let rest = children.drop_last();
        let last = children.last();
        assert(rest.no_duplicates());
        lemma_attributed_sum_step(root, files, rest);
        let reached = root.child_toward(files.last().path);
        if reached.is_some() {
            let child = reached.unwrap();
            if child == last {
                assert(children.contains(child));
                if rest.contains(child) {
                    let i = choose|i: int| 0 <= i < rest.len() && rest[i] == child;
                    assert(children[i] == children[children.len() - 1]);
                }
            } else if rest.contains(child) {
                let i = choose|i: int| 0 <= i < rest.len() && rest[i] == child;
                assert(children[i] == child);
            } else if children.contains(child) {
                let i = choose|i: int| 0 <= i < children.len() && children[i] == child;
                assert(rest[i] == child);
            }
        }
    }
}

/// Every byte below the root belongs to exactly one of the children that
/// the files reach.
pub proof fn lemma_children_hold_all_bytes(root: PathModel, files: Seq<FileModel>)
    ensures
        attributed_sum(root, files, children_of(root, files)) == bytes_below(root, files),
    decreases files.len(),
{
    if files.len() > 0 {
        let earlier = files.drop_last();
        let before = children_of(root, earlier);
        let now = children_of(root, files);
        lemma_children_hold_all_bytes(root, earlier);
        lemma_children_distinct(root, files);
        lemma_attributed_sum_step(root, files, now);
        match root.child_toward(files.last().path) {
            Some(child) => {
                if before.contains(child) {
                } else {
                    assert(now.drop_last() =~= before);
                    assert(now.last() == child);
                    assert(now.contains(child));
                    lemma_unreached_child_is_empty(root, earlier, child);
                }
            },
            None => {},
        }
    }
}

proof fn lemma_sizes_sum_matches(
    root: PathModel,
    files: Seq<FileModel>,
    children: Seq<PathModel>,
    entries: Seq<EntryModel>,
)
    requires
        entries.len() == children.len(),
        forall|i: int| 0 <= i < entries.len() ==> (#[trigger] entries[i]).size == attributed(root, files, children[i]),
    ensures
        sizes_sum(entries) == attributed_sum(root, files, children),
    decreases entries.len(),
{
    if entries.len() > 0 {
        lemma_sizes_sum_matches(root, files, children.drop_last(), entries.drop_last());
    }
}

/// While no more children hold files than a scan reports, the sizes of the
/// reported entries add up to the bytes of all the files below the root.
///
/// Here `children` and `sizes` are the sums by child that the walk of
/// `files` gave, `entries` are the entries made for the children, and `top`
/// is the ranked list that the scan finished with.
pub proof fn lemma_scan_reports_all_bytes(
    root: PathModel,
    files: Seq<FileModel>,
    children: Seq<PathModel>,
    sizes: Seq<u64>,
    entries: Seq<EntryModel>,
    top: Seq<EntryModel>,
    pick: Seq<int>,
)
    requires
        totals_match(root, files, children, sizes),
        entries.len() == children.len(),
        forall|i: int| 0 <= i < entries.len() ==> (#[trigger] entries[i]).size == sizes[i],
        is_top_of(top, entries, pick, MAX_ENTRIES as int),
        children.len() <= MAX_ENTRIES,
    ensures
        sizes_sum(top) == bytes_below(root, files),
{
    lemma_children_hold_all_bytes(root, files);
    lemma_sizes_sum_matches(root, files, children, entries);
}

/// When there are more entries than a scan reports, exactly
/// [`MAX_ENTRIES`] are reported, and none that was left out is larger than
/// one that was kept.
pub proof fn lemma_largest_are_kept(top: Seq<EntryModel>, all: Seq<EntryModel>, pick: Seq<int>)
    requires
        is_top_of(top, all, pick, MAX_ENTRIES as int),
        all.len() > MAX_ENTRIES,
    ensures
        top.len() == MAX_ENTRIES,
        forall|k: int, i: int|
            0 <= k < all.len() && !pick.contains(k) && 0 <= i < top.len() ==> (#[trigger] all[k]).size <= (
            #[trigger] top[i]).size,
{
    assert forall|k: int, i: int|
        0 <= k < all.len() && !pick.contains(k) && 0 <= i < top.len() implies (#[trigger] all[k]).size <= (
    #[trigger] top[i]).size by {
        assert(outranked(all[k], top));
    }
}

/// When all paths differ, the reported list is strictly ordered: each entry
/// ranks before every later one, so the order of ties is fixed by the
/// paths.
pub proof fn lemma_rank_order_is_strict(top: Seq<EntryModel>, all: Seq<EntryModel>, pick: Seq<int>, limit: int)
    requires
        is_top_of(top, all, pick, limit),
        forall|a: int, b: int| 0 <= a < b < all.len() ==> (#[trigger] all[a]).path != (#[trigger] all[b]).path,
    ensures
        forall|i: int, j: int| 0 <= i < j < top.len() ==> ranks_before(#[trigger] top[i], #[trigger] top[j]),
{
    assert forall|i: int, j: int| 0 <= i < j < top.len() implies ranks_before(
        #[trigger] top[i],
        #[trigger] top[j],
    ) by {
        let a = pick[i];
        let b = pick[j];
        assert(a != b);
        assert(top[i] == all[a] && top[j] == all[b]);
        if a < b {
            assert(all[a].path != all[b].path);
        } else {
            assert(all[b].path != all[a].path);
        }
        lemma_ranks_before_total(top[i], top[j]);
    }
}

/// A scan only looks: none of its requests can change the file system.
pub proof fn lemma_scan_changes_nothing(job: ScanJobModel, reply: ReplyModel, step: ScanStepModel)
    requires
        scan_advances(job, reply, step),
    ensures
        scan_begin(job.root) matches ScanStepModel::Ask(_, request) && !request.mutates(),
        step matches ScanStepModel::Ask(_, request) ==> !request.mutates(),
{
}

/// Every child that the scan of an absolute path lists lies directly in the
/// scanned directory, unless it is the scanned path itself, which happens
/// when that path is a file.
pub proof fn lemma_children_are_direct(root: PathModel, files: Seq<FileModel>, k: int)
    requires
        root.absolute,
        0 <= k < children_of(root, files).len(),
    ensures
        children_of(root, files)[k] == root || children_of(root, files)[k].parent() == Some(root),
    decreases files.len(),
{
    if files.len() > 0 {
        let before = children_of(root, files.drop_last());
        if k < before.len() {
            lemma_children_are_direct(root, files.drop_last(), k);
        } else {
            let file = files.last().path;
            let child = root.child_toward(file).unwrap();
            assert(children_of(root, files)[k] == child);
            if file.parts.len() == root.parts.len() {
                assert(file.parts =~= root.parts);
            } else {
                assert(child.parts.drop_last() =~= root.parts);
            }
        }
    }
}

/// The list that a scan finishes with is strictly ordered: each entry ranks
/// before every later one.
pub proof fn lemma_scan_result_is_ordered(job: ScanJobModel, reply: ReplyModel, top: Seq<EntryModel>)
    requires
        job.wf(),
        job.stage == ScanStage::Probing,
        scan_advances(job, reply, ScanStepModel::Finish(top)),
    ensures
        forall|i: int, j: int| 0 <= i < j < top.len() ==> ranks_before(#[trigger] top[i], #[trigger] top[j]),
{
    let entries = job.entries.push(job.entry_for(reply.is_yes()));
    let pick = choose|pick: Seq<int>| is_top_of(top, entries, pick, MAX_ENTRIES as int);
    assert forall|a: int, b: int| 0 <= a < b < entries.len() implies (#[trigger] entries[a]).path != (
    #[trigger] entries[b]).path by {
        assert(entries[a].path == job.children[a]);
        assert(entries[b].path == job.children[b]);
    }
    lemma_rank_order_is_strict(top, entries, pick, MAX_ENTRIES as int);
}

} // verus!
