//! The browsing session: the directory on view with its entries, the marked
//! paths, the guard on irreversible deletions, and the deletions
//! made so far.

use crate::path::{FsPath, PathModel};
use crate::scanner::{entries_view, paths_view, DirEntry, EntryModel};
use crate::trash::{
    classify, erase_begin, perm_delete_trash_item, restore_begin, restore_trash_item, route_of, EraseStep,
    ItemModel, ItemStepModel, RestoreJobModel, RestoreStep, Route, TrashedItem,
};
use vstd::prelude::*;

verus! {

/// Whether a commit is waiting for the user's confirmation.
#[derive(Debug, Clone, Copy, PartialEq, Eq, Structural)]
pub enum GateState {
    /// No confirmation is pending.
    Idle,
    /// The user was warned that the selection holds paths whose deletion
    /// cannot be undone, and has not answered yet.
    AwaitingConfirmation,
}

/// What a commit of the selection leads to.
#[derive(Debug, PartialEq, Eq)]
pub enum Commit {
    /// Nothing is deleted: the user has to confirm first.
    ConfirmationRequired,
    /// These paths are to be deleted, each on its own.
    Proceed(Vec<FsPath>),
}

/// The mathematical value of a [`Commit`].
pub enum CommitModel {
    ConfirmationRequired,
    Proceed(Seq<PathModel>),
}

impl View for Commit {
    type V = CommitModel;

    open spec fn view(&self) -> CommitModel {
        match self {
            Commit::ConfirmationRequired => CommitModel::ConfirmationRequired,
            Commit::Proceed(paths) => CommitModel::Proceed(paths_view(paths@)),
        }
    }
}

/// The views of a list of deletion records, in order.
pub open spec fn items_view(items: Seq<TrashedItem>) -> Seq<ItemModel> {
    Seq::new(items.len(), |i: int| items[i]@)
}

/// The state of a browsing session.
#[derive(Debug, PartialEq, Eq)]
pub struct ScanSession {
    current_root: FsPath,
    entries: Vec<DirEntry>,
    cursor: usize,
    selection: Vec<FsPath>,
    gate: GateState,
    trash: Vec<TrashedItem>,
    trash_cursor: usize,
}

/// The mathematical value of a [`ScanSession`].
pub struct SessionModel {
    /// The directory on view.
    pub current_root: PathModel,
    /// The entries of the last scan of that directory.
    pub entries: Seq<EntryModel>,
    /// The place of the highlighted entry.
    pub cursor: int,
    /// The marked paths, in the order in which they were marked.
    pub selection: Seq<PathModel>,
    /// The guard on irreversible deletions.
    pub gate: GateState,
    /// The deletions made in this session that were neither undone nor
    /// erased, oldest first.
    pub trash: Seq<ItemModel>,
    /// The place of the highlighted deletion.
    pub trash_cursor: int,
}

/// The marked paths after the mark of `path` was flipped: without `path`
/// when it was among them, with `path` at the end when it was not.
pub open spec fn toggled(selection: Seq<PathModel>, path: PathModel) -> Seq<PathModel> {
    if selection.contains(path) {
        selection.remove(selection.index_of(path))
    } else {
        selection.push(path)
    }
}

/// Whether `cursor` is a place in a list of `len` items, or zero when the
/// list is empty.
pub open spec fn cursor_fits(cursor: int, len: int) -> bool {
    0 <= cursor && (cursor < len || cursor == 0)
}

/// The place after `cursor`, going round to the start after the end.
pub open spec fn cursor_after(cursor: int, len: int) -> int {
    if len <= 0 {
        cursor
    } else if cursor + 1 < len {
        cursor + 1
    } else {
        0
    }
}

/// The place before `cursor`, going round to the end before the start.
pub open spec fn cursor_before(cursor: int, len: int) -> int {
    if len <= 0 {
        cursor
    } else if cursor > 0 {
        cursor - 1
    } else {
        len - 1
    }
}

/// Where the cursor stands after the item under it was taken out of a list
/// that then has `len` items left: it stays, unless it stood on the last
/// item.
pub open spec fn cursor_after_removal(cursor: int, len: int) -> int {
    if cursor >= len && cursor > 0 {
        cursor - 1
    } else {
        cursor
    }
}

impl SessionModel {
    /// Whether the parts of the session fit together: both cursors stand
    /// on an item of their list, and no path is marked twice.
    pub open spec fn wf(self) -> bool {
        &&& cursor_fits(self.cursor, self.entries.len() as int)
        &&& cursor_fits(self.trash_cursor, self.trash.len() as int)
        &&& self.selection.no_duplicates()
    }

    /// The set of marked paths.
    pub open spec fn selected(self) -> Set<PathModel> {
        Set::new(|path: PathModel| self.selection.contains(path))
    }

    /// Whether a marked path lies outside the home boundary.
    pub open spec fn holds_irreversible(self, home: PathModel) -> bool {
        exists|i: int|
            0 <= i < self.selection.len() && route_of(#[trigger] self.selection[i], home) == Route::Irreversible
    }

    /// Whether a commit has to wait for the user's confirmation: some
    /// marked path cannot be restored once deleted, and the user has not
    /// been warned yet.
    pub open spec fn must_confirm(self, home: PathModel) -> bool {
        self.gate == GateState::Idle && self.holds_irreversible(home)
    }

    /// What a commit of the selection leads to.
    pub open spec fn commit(self, home: PathModel) -> CommitModel {
        if self.must_confirm(home) {
            CommitModel::ConfirmationRequired
        } else {
            CommitModel::Proceed(self.selection)
        }
    }

    /// The session after a commit was asked for. Where confirmation is
    /// required only the guard changes. Otherwise the selection is handed
    /// out for deletion and cleared, and the guard is idle again; the
    /// entries are dropped until the scan that follows the deletions is
    /// installed, so that none is shown that may be gone.
    pub open spec fn after_commit(self, home: PathModel) -> SessionModel {
        if self.must_confirm(home) {
            SessionModel { gate: GateState::AwaitingConfirmation, ..self }
        } else {
            SessionModel {
                gate: GateState::Idle,
                selection: Seq::empty(),
                entries: Seq::empty(),
                cursor: 0,
                ..self
            }
        }
    }

    /// The first step of restoring the highlighted deletion, if there is
    /// one.
    pub open spec fn undo_step(self) -> Option<ItemStepModel<RestoreJobModel>> {
        if self.trash.len() == 0 {
            None
        } else {
            Some(restore_begin(self.trash[self.trash_cursor]))
        }
    }

    /// The session after the restore of the highlighted deletion has ended.
    /// A deletion that was restored leaves the list. One whose restore
    /// failed stays on it, so that the restore can be asked for again.
    pub open spec fn after_restore(self, restored: bool) -> SessionModel {
        if restored && self.trash.len() > 0 {
            self.without_highlighted_item()
        } else {
            self
        }
    }

    /// Whether `after` is the session with the mark of `path` flipped: a
    /// path that was not marked is marked last, a path that was marked is
    /// taken out of the marked paths, and nothing else changes.
    pub open spec fn marks_flipped(self, path: PathModel, after: SessionModel) -> bool {
        &&& after == SessionModel { selection: toggled(self.selection, path), ..self }
        &&& after.selected() == if self.selected().contains(path) {
            self.selected().remove(path)
        } else {
            self.selected().insert(path)
        }
    }

    /// The session with a fresh root and nothing listed yet.
    pub open spec fn moved_to(self, root: PathModel) -> SessionModel {
        SessionModel { current_root: root, entries: Seq::empty(), cursor: 0, ..self }
    }

    /// The directory that drilling down leads to: the highlighted entry,
    /// when it is a directory.
    pub open spec fn drill_down_target(self) -> Option<PathModel> {
        if self.entries.len() > 0 && self.entries[self.cursor].is_dir {
            Some(self.entries[self.cursor].path)
        } else {
            None
        }
    }

    /// The session without the highlighted deletion.
    pub open spec fn without_highlighted_item(self) -> SessionModel {
        let trash = self.trash.remove(self.trash_cursor);
        SessionModel {
            trash,
            trash_cursor: cursor_after_removal(self.trash_cursor, trash.len() as int),
            ..self
        }
    }
}

impl View for ScanSession {
    type V = SessionModel;

    closed spec fn view(&self) -> SessionModel {
        SessionModel {
            current_root: self.current_root@,
            entries: entries_view(self.entries@),
            cursor: self.cursor as int,
            selection: paths_view(self.selection@),
            gate: self.gate,
            trash: items_view(self.trash@),
            trash_cursor: self.trash_cursor as int,
        }
    }
}

impl ScanSession {
    /// A session on `root` with the entries of its first scan: nothing is
    /// marked, nothing was deleted, and the first entry is highlighted.
    pub fn new(root: FsPath, entries: Vec<DirEntry>) -> (session: ScanSession)
        ensures
            session@.wf(),
            session@ == (SessionModel {
                current_root: root@,
                entries: entries_view(entries@),
                cursor: 0,
                selection: Seq::empty(),
                gate: GateState::Idle,
                trash: Seq::empty(),
                trash_cursor: 0,
            }),
    {
        let session = ScanSession {
            current_root: root,
            entries,
            cursor: 0,
            selection: Vec::new(),
            gate: GateState::Idle,
            trash: Vec::new(),
            trash_cursor: 0,
        };
        assert(session@.selection =~= Seq::empty());
        assert(session@.trash =~= Seq::empty());
        session
    }

    /// The directory on view.
    pub fn current_root(&self) -> (root: &FsPath)
        ensures
            root@ == self@.current_root,
    {
        &self.current_root
    }

    /// The entries of the last scan.
    pub fn entries(&self) -> (entries: &Vec<DirEntry>)
        ensures
            entries_view(entries@) == self@.entries,
    {
        &self.entries
    }

    /// The place of the highlighted entry.
    pub fn cursor(&self) -> (cursor: usize)
        ensures
            cursor == self@.cursor,
    {
        self.cursor
    }

    /// The state of the guard on irreversible deletions.
    pub fn gate(&self) -> (gate: GateState)
        ensures
            gate == self@.gate,
    {
        self.gate
    }

    /// The deletions made so far, oldest first.
    pub fn trashed_items(&self) -> (items: &Vec<TrashedItem>)
        ensures
            items_view(items@) == self@.trash,
    {
        &self.trash
    }

    /// The place of the highlighted deletion.
    pub fn trash_cursor(&self) -> (cursor: usize)
        ensures
            cursor == self@.trash_cursor,
    {
        self.trash_cursor
    }

    /// The marked paths, in the order in which they were marked.
    pub fn selected_paths(&self) -> (paths: &Vec<FsPath>)
        ensures
            paths_view(paths@) == self@.selection,
    {
        &self.selection
    }

    fn position_of(&self, path: &FsPath) -> (at: usize)
        ensures
            at <= self.selection.len(),
            at < self.selection.len() ==> self@.selection[at as int] == path@,
            at == self.selection.len() ==> !self@.selection.contains(path@),
    {
        let mut at: usize = 0;
        while at < self.selection.len() && !self.selection[at].same_as(path)
            invariant
                at <= self.selection.len(),
                forall|i: int| 0 <= i < at ==> self.selection[i]@ != path@,
            decreases self.selection.len() - at,
        {
            at += 1;
        }
        proof {
            if at == self.selection.len() && self@.selection.contains(path@) {
                let i = choose|i: int| 0 <= i < self@.selection.len() && self@.selection[i] == path@;
                assert(self.selection[i]@ == path@);
            }
        }
        at
    }

    /// Whether `path` is marked.
    pub fn is_marked(&self, path: &FsPath) -> (marked: bool)
        ensures
            marked == self@.selected().contains(path@),
    {
        let at = self.position_of(path);
        proof {
            if at < self.selection.len() {
                assert(self@.selection.contains(path@));
            }
        }
        at < self.selection.len()
    }

    /// Marks `path` if it is not marked, and takes the mark away if it is.
    pub fn toggle_mark(&mut self, path: &FsPath)
        requires
            old(self)@.wf(),
        ensures
            final(self)@.wf(),
            old(self)@.marks_flipped(path@, final(self)@),
    {
        let at = self.position_of(path);
        let ghost before = self@.selection;
        if at < self.selection.len() {
            self.selection.remove(at);
            proof {
                let after = self@.selection;
                assert(after =~= before.remove(at as int));
                assert(before.contains(path@));
                assert(before.index_of(path@) == at) by {
                    let found = before.index_of(path@);
                    assert(0 <= found < before.len() && before[found] == path@);
                }
                assert forall|q: PathModel| after.contains(q) <==> (before.contains(q) && q != path@) by {
                    if after.contains(q) {
                        let i = choose|i: int| 0 <= i < after.len() && after[i] == q;
                        let oi = if i < at { i } else { i + 1 };
                        assert(before[oi] == q);
                        assert(before.contains(q));
                        assert(oi != at);
                    }
                    if before.contains(q) && q != path@ {
                        let i = choose|i: int| 0 <= i < before.len() && before[i] == q;
                        let ni = if i < at { i } else { i - 1 };
                        assert(after[ni] == q);
                    }
                }
                assert(self@.selected() =~= old(self)@.selected().remove(path@));
                assert(after.no_duplicates());
            }
        } else {
            self.selection.push(path.clone());
            proof {
                let after = self@.selection;
                assert(after =~= before.push(path@));
                assert forall|q: PathModel| after.contains(q) <==> (before.contains(q) || q == path@) by {
                    if after.contains(q) {
                        let i = choose|i: int| 0 <= i < after.len() && after[i] == q;
                        if i < before.len() {
                            assert(before[i] == q);
                        }
                    }
                    if before.contains(q) {
                        let i = choose|i: int| 0 <= i < before.len() && before[i] == q;
                        assert(after[i] == q);
                    }
                    if q == path@ {
                        assert(after[before.len() as int] == q);
                    }
                }
                assert(self@.selected() =~= old(self)@.selected().insert(path@));
            }
        }
    }

    /// Flips the mark of the highlighted entry. Without entries nothing
    /// happens.
    pub fn toggle_selection(&mut self)
        requires
            old(self)@.wf(),
        ensures
            final(self)@.wf(),
            old(self)@.entries.len() == 0 ==> final(self)@ == old(self)@,
            old(self)@.entries.len() > 0 ==> old(self)@.marks_flipped(
                old(self)@.entries[old(self)@.cursor].path,
                final(self)@,
            ),
    {
        if self.entries.len() > 0 {
            let path = self.entries[self.cursor].path.clone();
            self.toggle_mark(&path);
        }
    }

    /// Highlights the next entry, going round to the first one after the
    /// last.
    pub fn next_item(&mut self)
        requires
            old(self)@.wf(),
        ensures
            final(self)@.wf(),
            final(self)@ == (SessionModel {
                cursor: cursor_after(old(self)@.cursor, old(self)@.entries.len() as int),
                ..old(self)@
            }),
    {
        if self.entries.len() > 0 {
            if self.cursor + 1 < self.entries.len() {
                self.cursor = self.cursor + 1;
            } else {
                self.cursor = 0;
            }
        }
    }

    /// Highlights the entry before, going round to the last one before the
    /// first.
    pub fn prev_item(&mut self)
        requires
            old(self)@.wf(),
        ensures
            final(self)@.wf(),
            final(self)@ == (SessionModel {
                cursor: cursor_before(old(self)@.cursor, old(self)@.entries.len() as int),
                ..old(self)@
            }),
    {
        if self.entries.len() > 0 {
            if self.cursor > 0 {
                self.cursor = self.cursor - 1;
            } else {
                self.cursor = self.entries.len() - 1;
            }
        }
    }

    /// Highlights the next deletion, going round after the last.
    pub fn next_trashed(&mut self)
        requires
            old(self)@.wf(),
        ensures
            final(self)@.wf(),
            final(self)@ == (SessionModel {
                trash_cursor: cursor_after(old(self)@.trash_cursor, old(self)@.trash.len() as int),
                ..old(self)@
            }),
    {
        if self.trash.len() > 0 {
            if self.trash_cursor + 1 < self.trash.len() {
                self.trash_cursor = self.trash_cursor + 1;
            } else {
                self.trash_cursor = 0;
            }
        }
    }

    /// Highlights the deletion before, going round before the first.
    pub fn prev_trashed(&mut self)
        requires
            old(self)@.wf(),
        ensures
            final(self)@.wf(),
            final(self)@ == (SessionModel {
                trash_cursor: cursor_before(old(self)@.trash_cursor, old(self)@.trash.len() as int),
                ..old(self)@
            }),
    {
        if self.trash.len() > 0 {
            if self.trash_cursor > 0 {
                self.trash_cursor = self.trash_cursor - 1;
            } else {
                self.trash_cursor = self.trash.len() - 1;
            }
        }
    }

    /// Goes into the highlighted entry when it is a directory, and gives
    /// the directory to scan next. The entries are dropped until the new
    /// scan is installed. Otherwise nothing changes.
    pub fn drill_down(&mut self) -> (target: Option<FsPath>)
        requires
            old(self)@.wf(),
        ensures
            final(self)@.wf(),
            match old(self)@.drill_down_target() {
                Some(root) => target.is_some() && target.unwrap()@ == root && final(self)@ == old(
                    self,
                )@.moved_to(root),
                None => target.is_none() && final(self)@ == old(self)@,
            },
    {
        if self.entries.len() == 0 {
            return None;
        }
        if !self.entries[self.cursor].is_dir {
            return None;
        }
        let root = self.entries[self.cursor].path.clone();
        self.current_root = root.clone();
        self.entries = Vec::new();
        self.cursor = 0;
        assert(self@.entries =~= Seq::empty());
        Some(root)
    }

    /// Goes up to the parent of the directory on view, if it has one, and
    /// gives the directory to scan next.
    pub fn drill_up(&mut self) -> (target: Option<FsPath>)
        requires
            old(self)@.wf(),
        ensures
            final(self)@.wf(),
            match old(self)@.current_root.parent() {
                Some(root) => target.is_some() && target.unwrap()@ == root && final(self)@ == old(
                    self,
                )@.moved_to(root),
                None => target.is_none() && final(self)@ == old(self)@,
            },
    {
        match self.current_root.parent() {
            Some(root) => {
                self.current_root = root.clone();
                self.entries = Vec::new();
                self.cursor = 0;
                assert(self@.entries =~= Seq::empty());
                Some(root)
            },
            None => None,
        }
    }

    /// Takes the entries of a fresh scan of the directory on view. The
    /// entries shown before are dropped and the first entry is highlighted.
    pub fn install_scan(&mut self, entries: Vec<DirEntry>)
        requires
            old(self)@.wf(),
        ensures
            final(self)@.wf(),
            final(self)@ == (SessionModel { entries: entries_view(entries@), cursor: 0, ..old(self)@ }),
    {
        self.entries = entries;
        self.cursor = 0;
    }

    fn holds_irreversible(&self, home: &FsPath) -> (found: bool)
        ensures
            found == self@.holds_irreversible(home@),
    {
        let mut i: usize = 0;
        while i < self.selection.len()
            invariant
                i <= self.selection.len(),
                forall|j: int| 0 <= j < i ==> route_of(self.selection[j]@, home@) == Route::Reversible,
            decreases self.selection.len() - i,
        {
            match classify(&self.selection[i], home) {
                Route::Irreversible => {
                    assert(route_of(self@.selection[i as int], home@) == Route::Irreversible);
                    return true;
                },
                Route::Reversible => {},
            }
            i += 1;
        }
        proof {
            if self@.holds_irreversible(home@) {
                let j = choose|j: int|
                    0 <= j < self@.selection.len() && route_of(#[trigger] self@.selection[j], home@)
                        == Route::Irreversible;
                assert(self.selection[j]@ == self@.selection[j]);
            }
        }
        false
    }

    /// Asks for the marked paths to be deleted.
    ///
    /// When a marked path lies outside `home` and the guard is idle, nothing
    /// is handed out: the guard waits for confirmation and the selection
    /// stays. Otherwise all marked paths are handed out for deletion, the
    /// selection is cleared and the guard is idle again. The entries are
    /// dropped with it: the directory has to be scanned again once the
    /// deletions are through.
    pub fn request_commit(&mut self, home: &FsPath) -> (decision: Commit)
        requires
            old(self)@.wf(),
        ensures
            final(self)@.wf(),
            decision@ == old(self)@.commit(home@),
            final(self)@ == old(self)@.after_commit(home@),
    {
        let confirm = match self.gate {
            GateState::Idle => self.holds_irreversible(home),
            GateState::AwaitingConfirmation => false,
        };
        if confirm {
            self.gate = GateState::AwaitingConfirmation;
            return Commit::ConfirmationRequired;
        }
        let mut paths: Vec<FsPath> = Vec::new();
        core::mem::swap(&mut paths, &mut self.selection);
        self.gate = GateState::Idle;
        self.entries = Vec::new();
        self.cursor = 0;
        assert(self@.selection =~= Seq::empty());
        assert(self@.entries =~= Seq::empty());
        Commit::Proceed(paths)
    }

    /// Withdraws a commit that waits for confirmation. Nothing is deleted
    /// and the selection stays as it is.
    pub fn cancel(&mut self)
        requires
            old(self)@.wf(),
        ensures
            final(self)@.wf(),
            final(self)@ == (SessionModel { gate: GateState::Idle, ..old(self)@ }),
    {
        self.gate = GateState::Idle;
    }

    /// Takes note of how the deletion of one path ended. A deletion that
    /// succeeded is added to the list; one that failed leaves no trace.
    pub fn record_deletion(&mut self, outcome: Result<TrashedItem, String>)
        requires
            old(self)@.wf(),
        ensures
            final(self)@.wf(),
            final(self)@ == (SessionModel {
                trash: match outcome {
                    Ok(item) => old(self)@.trash.push(item@),
                    Err(_) => old(self)@.trash,
                },
                ..old(self)@
            }),
    {
        match outcome {
            Ok(item) => {
                self.trash.push(item);
                assert(self@.trash =~= old(self)@.trash.push(item@));
            },
            Err(_) => {},
        }
    }

    fn take_highlighted_item(&mut self) -> (item: Option<TrashedItem>)
        requires
            old(self)@.wf(),
        ensures
            final(self)@.wf(),
            old(self)@.trash.len() == 0 ==> item.is_none() && final(self)@ == old(self)@,
            old(self)@.trash.len() > 0 ==> item.is_some() && item.unwrap()@ == old(self)@.trash[old(
                self,
            )@.trash_cursor] && final(self)@ == old(self)@.without_highlighted_item(),
    {
        if self.trash.len() == 0 {
            return None;
        }
        let item = self.trash.remove(self.trash_cursor);
        if self.trash_cursor >= self.trash.len() && self.trash_cursor > 0 {
            self.trash_cursor = self.trash_cursor - 1;
        }
        assert(self@.trash =~= old(self)@.trash.remove(old(self)@.trash_cursor));
        Some(item)
    }

    /// Starts restoring the highlighted deletion. The list stays as it is
    /// until the outcome of the restore is known. Without deletions there
    /// is nothing to restore.
    pub fn execute_undo_trash(&self) -> (step: Option<RestoreStep>)
        requires
            self@.wf(),
        ensures
            match self@.undo_step() {
                Some(first) => step.is_some() && step.unwrap()@ == first,
                None => step.is_none(),
            },
    {
        if self.trash.len() == 0 {
            return None;
        }
        assert(self@.trash[self@.trash_cursor] == self.trash[self.trash_cursor as int]@);
        Some(restore_trash_item(&self.trash[self.trash_cursor]))
    }

    /// Takes note of how the restore of the highlighted deletion ended. A
    /// deletion that was restored is taken off the list. One whose restore
    /// failed stays on the list, and the session stays as it is.
    pub fn record_restore(&mut self, outcome: Result<(), String>)
        requires
            old(self)@.wf(),
        ensures
            final(self)@.wf(),
            final(self)@ == old(self)@.after_restore(outcome is Ok),
    {
        match outcome {
            Ok(_) => {
                let _ = self.take_highlighted_item();
            },
            Err(_) => {},
        }
    }

    /// Takes the highlighted deletion off the list and starts erasing what
    /// is staged for it. Without deletions nothing happens.
    pub fn execute_session_trash_delete(&mut self) -> (step: Option<EraseStep>)
        requires
            old(self)@.wf(),
        ensures
            final(self)@.wf(),
            old(self)@.trash.len() == 0 ==> step.is_none() && final(self)@ == old(self)@,
            old(self)@.trash.len() > 0 ==> step.is_some() && step.unwrap()@ == erase_begin(
                old(self)@.trash[old(self)@.trash_cursor],
            ) && final(self)@ == old(self)@.without_highlighted_item(),
    {
        match self.take_highlighted_item() {
            Some(item) => Some(perm_delete_trash_item(&item)),
            None => None,
        }
    }
}

/// A commit that needs confirmation deletes nothing; the commit after it
/// deletes everything that is marked.
///
/// With a marked path outside `home` and the guard idle, the first commit
/// hands no path out and changes only the guard, which then waits for
/// confirmation. The second commit hands out all the marked paths, clears
/// the selection and leaves the guard idle.
pub proof fn lemma_commit_waits_for_confirmation(session: SessionModel, home: PathModel)
    requires
        session.gate == GateState::Idle,
        session.holds_irreversible(home),
    ensures
        session.commit(home) == CommitModel::ConfirmationRequired,
        session.after_commit(home) == (SessionModel { gate: GateState::AwaitingConfirmation, ..session }),
        session.after_commit(home).commit(home) == CommitModel::Proceed(session.selection),
        session.after_commit(home).after_commit(home) == (SessionModel {
            gate: GateState::Idle,
            selection: Seq::empty(),
            entries: Seq::empty(),
            cursor: 0,
            ..session
        }),
{
}

/// A deletion leaves the list only when it was restored: a restore that
/// failed changes nothing, and the restore of a deletion that was made for
/// good fails before the host is asked for anything.
pub proof fn lemma_failed_restore_keeps_record(session: SessionModel)
    requires
        session.trash.len() > 0,
    ensures
        session.after_restore(false) == session,
        session.after_restore(true).trash == session.trash.remove(session.trash_cursor),
        session.trash[session.trash_cursor].is_root ==> session.undo_step() == Some(
            ItemStepModel::<RestoreJobModel>::Finish(Err("Cannot restore permanently deleted root files"@)),
        ),
{
}

/// Without a marked path outside `home` a commit needs no confirmation: all
/// the marked paths are handed out at once.
pub proof fn lemma_commit_inside_home_proceeds(session: SessionModel, home: PathModel)
    requires
        !session.holds_irreversible(home),
    ensures
        session.commit(home) == CommitModel::Proceed(session.selection),
        session.after_commit(home).gate == GateState::Idle,
        session.after_commit(home).selection == Seq::<PathModel>::empty(),
        session.after_commit(home).entries == Seq::<EntryModel>::empty(),
{
}

/// Flipping the mark of a path twice leaves the same paths marked.
pub proof fn lemma_toggle_twice(before: SessionModel, between: SessionModel, after: SessionModel, path: PathModel)
    requires
        before.marks_flipped(path, between),
        between.marks_flipped(path, after),
    ensures
        after.selected() == before.selected(),
{
    assert(after.selected() =~= before.selected());
}

} // verus!
