//! The dashboard: its tabs, the rows under the cursor, the cleaners that
//! are marked, and what each key does.

use crate::path::{FsPath, PathModel};
use crate::scanner::paths_view;
use crate::session::{Commit, CommitModel, GateState, ScanSession, SessionModel};
use crate::system::{usages_view, DiskUsage, UsageModel};
use crate::trash::{
    erase_begin, EraseJobModel, EraseStep, ItemStepModel, RestoreJobModel, RestoreStep,
};
use vstd::prelude::*;

verus! {

/// The tabs of the dashboard, in the order in which they are shown.
#[derive(Debug, Clone, Copy, PartialEq, Eq, Structural)]
pub enum ActiveTab {
    System,
    Developer,
    Apps,
    DeepScanner,
    SessionTrash,
}

impl ActiveTab {
    /// The tab to the right, going round to the first after the last.
    pub open spec fn after(self) -> ActiveTab {
        match self {
            ActiveTab::System => ActiveTab::Developer,
            ActiveTab::Developer => ActiveTab::Apps,
            ActiveTab::Apps => ActiveTab::DeepScanner,
            ActiveTab::DeepScanner => ActiveTab::SessionTrash,
            ActiveTab::SessionTrash => ActiveTab::System,
        }
    }

    /// The tab to the left, going round to the last before the first.
    pub open spec fn before(self) -> ActiveTab {
        match self {
            ActiveTab::System => ActiveTab::SessionTrash,
            ActiveTab::Developer => ActiveTab::System,
            ActiveTab::Apps => ActiveTab::Developer,
            ActiveTab::DeepScanner => ActiveTab::Apps,
            ActiveTab::SessionTrash => ActiveTab::DeepScanner,
        }
    }

    /// The number of rows of a tab with a fixed list of rows, and zero for
    /// the tabs whose rows come from the session.
    pub open spec fn rows(self) -> int {
        match self {
            ActiveTab::System => 5,
            ActiveTab::Developer => 3,
            ActiveTab::Apps => 2,
            _ => 0,
        }
    }

    /// The place of the tab among the tabs.
    pub fn index(self) -> (i: usize)
        ensures
            i < 5,
            i == match self {
                ActiveTab::System => 0int,
                ActiveTab::Developer => 1,
                ActiveTab::Apps => 2,
                ActiveTab::DeepScanner => 3,
                ActiveTab::SessionTrash => 4,
            },
    {
        match self {
            ActiveTab::System => 0,
            ActiveTab::Developer => 1,
            ActiveTab::Apps => 2,
            ActiveTab::DeepScanner => 3,
            ActiveTab::SessionTrash => 4,
        }
    }
}

/// What the dashboard measures, and for the most part offers to clean.
#[derive(Debug, Clone, Copy, PartialEq, Eq, Structural)]
pub enum Target {
    PacmanCache,
    YayCache,
    Journal,
    Trash,
    Orphans,
    Docker,
    CargoCache,
    NpmCache,
    Steam,
    Flatpak,
}

/// The number of targets.
pub const TARGETS: usize = 10;

/// The number of targets that can be cleaned. They come first.
pub const CLEANABLE: usize = 8;

impl Target {
    /// The place of the target among the targets.
    pub open spec fn place(self) -> int {
        match self {
            Target::PacmanCache => 0,
            Target::YayCache => 1,
            Target::Journal => 2,
            Target::Trash => 3,
            Target::Orphans => 4,
            Target::Docker => 5,
            Target::CargoCache => 6,
            Target::NpmCache => 7,
            Target::Steam => 8,
            Target::Flatpak => 9,
        }
    }

    /// The target at a place.
    pub open spec fn at(place: int) -> Target {
        if place == 0 {
            Target::PacmanCache
        } else if place == 1 {
            Target::YayCache
        } else if place == 2 {
            Target::Journal
        } else if place == 3 {
            Target::Trash
        } else if place == 4 {
            Target::Orphans
        } else if place == 5 {
            Target::Docker
        } else if place == 6 {
            Target::CargoCache
        } else if place == 7 {
            Target::NpmCache
        } else if place == 8 {
            Target::Steam
        } else {
            Target::Flatpak
        }
    }

    /// Whether the dashboard offers to clean the target.
    pub open spec fn cleanable(self) -> bool {
        self.place() < CLEANABLE
    }

    /// The target shown in a row of a tab, if the tab lists targets. The
    /// system tab lists the first five, the developer tab the next three,
    /// and the tab of applications the last two.
    pub open spec fn in_row(tab: ActiveTab, row: int) -> Option<Target> {
        match tab {
            ActiveTab::System => if 0 <= row < 5 {
                Some(Target::at(row))
            } else {
                None
            },
            ActiveTab::Developer => if 0 <= row < 3 {
                Some(Target::at(5 + row))
            } else {
                None
            },
            ActiveTab::Apps => if 0 <= row < 2 {
                Some(Target::at(8 + row))
            } else {
                None
            },
            _ => None,
        }
    }

    /// The place of the target among the targets.
    pub fn index(self) -> (i: usize)
        ensures
            i == self.place(),
            i < TARGETS,
    {
        match self {
            Target::PacmanCache => 0,
            Target::YayCache => 1,
            Target::Journal => 2,
            Target::Trash => 3,
            Target::Orphans => 4,
            Target::Docker => 5,
            Target::CargoCache => 6,
            Target::NpmCache => 7,
            Target::Steam => 8,
            Target::Flatpak => 9,
        }
    }

    /// The target at a place.
    pub fn from_index(place: usize) -> (target: Target)
        ensures
            target == Target::at(place as int),
            place < TARGETS ==> target.place() == place,
    {
        if place == 0 {
            Target::PacmanCache
        } else if place == 1 {
            Target::YayCache
        } else if place == 2 {
            Target::Journal
        } else if place == 3 {
            Target::Trash
        } else if place == 4 {
            Target::Orphans
        } else if place == 5 {
            Target::Docker
        } else if place == 6 {
            Target::CargoCache
        } else if place == 7 {
            Target::NpmCache
        } else if place == 8 {
            Target::Steam
        } else {
            Target::Flatpak
        }
    }
}

/// The keys that the dashboard knows.
#[derive(Debug, Clone, Copy, PartialEq, Eq, Structural)]
pub enum Key {
    /// `q`
    Quit,
    /// Escape
    Escape,
    /// Down or `j`
    Down,
    /// Up or `k`
    Up,
    /// Right or `l`
    Right,
    /// Left or `h`
    Left,
    /// Tab
    Tab,
    /// Shift and Tab
    BackTab,
    /// The space bar
    Space,
    /// Enter
    Enter,
    /// `u`
    Undo,
}

/// What the host has to do after a key.
#[derive(Debug, PartialEq, Eq)]
pub enum Effect {
    /// Nothing.
    Nothing,
    /// Scan the directory and install the entries in the session.
    Rescan(FsPath),
    /// Delete the paths, take note of each outcome, then scan the directory
    /// on view again and install the entries. Until then the session shows
    /// no entries.
    Delete(Vec<FsPath>),
    /// Drive the restore, if there is one, and report its outcome.
    Restore(Option<RestoreStep>),
    /// Drive the erasure, if there is one.
    Erase(Option<EraseStep>),
    /// Run the cleaners of the targets in order, report each that
    /// succeeded with its new size, then refresh the disks.
    Clean(Vec<Target>),
}

/// The mathematical value of an [`Effect`].
pub enum EffectModel {
    Nothing,
    Rescan(PathModel),
    Delete(Seq<PathModel>),
    Restore(Option<ItemStepModel<RestoreJobModel>>),
    Erase(Option<ItemStepModel<EraseJobModel>>),
    Clean(Seq<Target>),
}

impl View for Effect {
    type V = EffectModel;

    open spec fn view(&self) -> EffectModel {
        match self {
            Effect::Nothing => EffectModel::Nothing,
            Effect::Rescan(path) => EffectModel::Rescan(path@),
            Effect::Delete(paths) => EffectModel::Delete(paths_view(paths@)),
            Effect::Restore(Some(step)) => EffectModel::Restore(Some(step@)),
            Effect::Restore(None) => EffectModel::Restore(None),
            Effect::Erase(Some(step)) => EffectModel::Erase(Some(step@)),
            Effect::Erase(None) => EffectModel::Erase(None),
            Effect::Clean(targets) => EffectModel::Clean(targets@),
        }
    }
}

/// The state of the dashboard.
#[derive(Debug)]
pub struct Dashboard {
    active_tab: ActiveTab,
    should_quit: bool,
    rows: [usize; 3],
    marked: [bool; 8],
    sizes: [u64; 10],
    orphaned_count: usize,
    disks: Vec<DiskUsage>,
    session: ScanSession,
}

/// The mathematical value of a [`Dashboard`].
pub struct DashboardModel {
    /// The tab on view.
    pub active_tab: ActiveTab,
    /// Whether the user has asked to leave.
    pub should_quit: bool,
    /// The row under the cursor in each of the first three tabs.
    pub rows: Seq<int>,
    /// Whether each of the cleanable targets is marked for cleaning.
    pub marked: Seq<bool>,
    /// The size last measured for each target.
    pub sizes: Seq<u64>,
    /// The number of packages that nothing depends on.
    pub orphaned_count: int,
    /// The usage of the disks.
    pub disks: Seq<UsageModel>,
    /// The browsing session.
    pub session: SessionModel,
}

impl DashboardModel {
    /// Whether the parts fit together: every cursor stands on a row of its
    /// tab, and the session is in order.
    pub open spec fn wf(self) -> bool {
        &&& self.rows.len() == 3
        &&& self.marked.len() == CLEANABLE
        &&& self.sizes.len() == TARGETS
        &&& 0 <= self.rows[0] < 5
        &&& 0 <= self.rows[1] < 3
        &&& 0 <= self.rows[2] < 2
        &&& self.session.wf()
    }

    /// The row under the cursor of a tab with a fixed list of rows.
    pub open spec fn row(self, tab: ActiveTab) -> int {
        match tab {
            ActiveTab::System => self.rows[0],
            ActiveTab::Developer => self.rows[1],
            ActiveTab::Apps => self.rows[2],
            _ => 0,
        }
    }

    /// The dashboard with the cursor of the tab on view moved to `row`.
    pub open spec fn with_row(self, row: int) -> DashboardModel {
        match self.active_tab {
            ActiveTab::System => DashboardModel { rows: self.rows.update(0, row), ..self },
            ActiveTab::Developer => DashboardModel { rows: self.rows.update(1, row), ..self },
            ActiveTab::Apps => DashboardModel { rows: self.rows.update(2, row), ..self },
            _ => self,
        }
    }

    /// The cleanable targets that are marked, in the order of the targets.
    pub open spec fn marked_targets(self) -> Seq<Target> {
        marked_among(self.marked, CLEANABLE as int)
    }
}

/// The targets among the first `n` whose mark is set, in order.
pub open spec fn marked_among(marked: Seq<bool>, n: int) -> Seq<Target>
    decreases n,
{
    if n <= 0 {
        Seq::empty()
    } else if marked[n - 1] {
        marked_among(marked, n - 1).push(Target::at(n - 1))
    } else {
        marked_among(marked, n - 1)
    }
}

impl View for Dashboard {
    type V = DashboardModel;

    closed spec fn view(&self) -> DashboardModel {
        DashboardModel {
            active_tab: self.active_tab,
            should_quit: self.should_quit,
            rows: Seq::new(3, |i: int| self.rows@[i] as int),
            marked: self.marked@,
            sizes: self.sizes@,
            orphaned_count: self.orphaned_count as int,
            disks: usages_view(self.disks@),
            session: self.session@,
        }
    }
}

impl Dashboard {
    /// A dashboard on the system tab with nothing marked and nothing
    /// measured yet, around the given session.
    pub fn new(session: ScanSession) -> (dashboard: Dashboard)
        requires
            session@.wf(),
        ensures
            dashboard@.wf(),
            dashboard@ == (DashboardModel {
                active_tab: ActiveTab::System,
                should_quit: false,
                rows: seq![0int, 0, 0],
                marked: Seq::new(CLEANABLE as nat, |i: int| false),
                sizes: Seq::new(TARGETS as nat, |i: int| 0u64),
                orphaned_count: 0,
                disks: Seq::empty(),
                session: session@,
            }),
    {
        let dashboard = Dashboard {
            active_tab: ActiveTab::System,
            should_quit: false,
            rows: [0, 0, 0],
            marked: [false, false, false, false, false, false, false, false],
            sizes: [0, 0, 0, 0, 0, 0, 0, 0, 0, 0],
            orphaned_count: 0,
            disks: Vec::new(),
            session,
        };
        assert(dashboard@.rows =~= seq![0int, 0, 0]);
        assert(dashboard@.marked =~= Seq::new(CLEANABLE as nat, |i: int| false));
        assert(dashboard@.sizes =~= Seq::new(TARGETS as nat, |i: int| 0u64));
        assert(dashboard@.disks =~= Seq::empty());
        dashboard
    }

    /// The tab on view.
    pub fn active_tab(&self) -> (tab: ActiveTab)
        ensures
            tab == self@.active_tab,
    {
        self.active_tab
    }

    /// Whether the user has asked to leave.
    pub fn should_quit(&self) -> (quit: bool)
        ensures
            quit == self@.should_quit,
    {
        self.should_quit
    }

    /// The browsing session.
    pub fn session(&self) -> (session: &ScanSession)
        ensures
            session@ == self@.session,
    {
        &self.session
    }

    /// The usage of the disks.
    pub fn disks(&self) -> (disks: &Vec<DiskUsage>)
        ensures
            usages_view(disks@) == self@.disks,
    {
        &self.disks
    }

    /// The number of packages that nothing depends on.
    pub fn orphaned_count(&self) -> (count: usize)
        ensures
            count == self@.orphaned_count,
    {
        self.orphaned_count
    }

    /// The row under the cursor of a tab.
    pub fn row(&self, tab: ActiveTab) -> (row: usize)
        requires
            self@.wf(),
        ensures
            row == self@.row(tab),
    {
        match tab {
            ActiveTab::System => self.rows[0],
            ActiveTab::Developer => self.rows[1],
            ActiveTab::Apps => self.rows[2],
            _ => 0,
        }
    }

    /// The size last measured for a target.
    pub fn size_of(&self, target: Target) -> (size: u64)
        requires
            self@.wf(),
        ensures
            size == self@.sizes[target.place()],
    {
        self.sizes[target.index()]
    }

    /// Whether a target is marked for cleaning.
    pub fn is_marked(&self, target: Target) -> (marked: bool)
        requires
            self@.wf(),
        ensures
            marked == (target.cleanable() && self@.marked[target.place()]),
    {
        let place = target.index();
        place < CLEANABLE && self.marked[place]
    }

    /// Takes the usage of the disks as the host reports it.
    pub fn set_disks(&mut self, disks: Vec<DiskUsage>)
        requires
            old(self)@.wf(),
        ensures
            final(self)@.wf(),
            final(self)@ == (DashboardModel { disks: usages_view(disks@), ..old(self)@ }),
    {
        self.disks = disks;
        assert(self@.rows =~= old(self)@.rows);
    }

    /// Takes the size measured for a target.
    pub fn set_size(&mut self, target: Target, size: u64)
        requires
            old(self)@.wf(),
        ensures
            final(self)@.wf(),
            final(self)@ == (DashboardModel {
                sizes: old(self)@.sizes.update(target.place(), size),
                ..old(self)@
            }),
    {
        self.sizes[target.index()] = size;
        assert(self@.rows =~= old(self)@.rows);
        assert(self@.sizes =~= old(self)@.sizes.update(target.place(), size));
    }

    /// Takes the number of packages that nothing depends on.
    pub fn set_orphaned_count(&mut self, count: usize)
        requires
            old(self)@.wf(),
        ensures
            final(self)@.wf(),
            final(self)@ == (DashboardModel { orphaned_count: count as int, ..old(self)@ }),
    {
        self.orphaned_count = count;
        assert(self@.rows =~= old(self)@.rows);
    }

    /// Takes note that a target was cleaned: its new size is kept and its
    /// mark is taken away.
    pub fn record_cleaned(&mut self, target: Target, size: u64)
        requires
            old(self)@.wf(),
        ensures
            final(self)@.wf(),
            final(self)@ == (DashboardModel {
                sizes: old(self)@.sizes.update(target.place(), size),
                marked: if target.cleanable() {
                    old(self)@.marked.update(target.place(), false)
                } else {
                    old(self)@.marked
                },
                ..old(self)@
            }),
    {
        let place = target.index();
        self.sizes[place] = size;
        if place < CLEANABLE {
            self.marked[place] = false;
        }
        assert(self@.rows =~= old(self)@.rows);
        assert(self@.sizes =~= old(self)@.sizes.update(target.place(), size));
        assert(self@.marked =~= if target.cleanable() {
            old(self)@.marked.update(target.place(), false)
        } else {
            old(self)@.marked
        });
    }

    /// Takes the entries of a fresh scan into the session.
    pub fn install_scan(&mut self, entries: Vec<crate::scanner::DirEntry>)
        requires
            old(self)@.wf(),
        ensures
            final(self)@.wf(),
            final(self)@ == (DashboardModel {
                session: SessionModel {
                    entries: crate::scanner::entries_view(entries@),
                    cursor: 0,
                    ..old(self)@.session
                },
                ..old(self)@
            }),
    {
        self.session.install_scan(entries);
        assert(self@.rows =~= old(self)@.rows);
    }

    /// Takes note of how the deletion of one path ended.
    pub fn record_deletion(&mut self, outcome: Result<crate::trash::TrashedItem, String>)
        requires
            old(self)@.wf(),
        ensures
            final(self)@.wf(),
            final(self)@ == (DashboardModel {
                session: SessionModel {
                    trash: match outcome {
                        Ok(item) => old(self)@.session.trash.push(item@),
                        Err(_) => old(self)@.session.trash,
                    },
                    ..old(self)@.session
                },
                ..old(self)@
            }),
    {
        self.session.record_deletion(outcome);
        assert(self@.rows =~= old(self)@.rows);
    }

    /// Shows the tab to the right.
    pub fn next_tab(&mut self)
        requires
            old(self)@.wf(),
        ensures
            final(self)@.wf(),
            final(self)@ == (DashboardModel { active_tab: old(self)@.active_tab.after(), ..old(self)@ }),
    {
        self.active_tab = match self.active_tab {
            ActiveTab::System => ActiveTab::Developer,
            ActiveTab::Developer => ActiveTab::Apps,
            ActiveTab::Apps => ActiveTab::DeepScanner,
            ActiveTab::DeepScanner => ActiveTab::SessionTrash,
            ActiveTab::SessionTrash => ActiveTab::System,
        };
        assert(self@.rows =~= old(self)@.rows);
    }

    /// Shows the tab to the left.
    pub fn prev_tab(&mut self)
        requires
            old(self)@.wf(),
        ensures
            final(self)@.wf(),
            final(self)@ == (DashboardModel { active_tab: old(self)@.active_tab.before(), ..old(self)@ }),
    {
        self.active_tab = match self.active_tab {
            ActiveTab::System => ActiveTab::SessionTrash,
            ActiveTab::Developer => ActiveTab::System,
            ActiveTab::Apps => ActiveTab::Developer,
            ActiveTab::DeepScanner => ActiveTab::Apps,
            ActiveTab::SessionTrash => ActiveTab::DeepScanner,
        };
        assert(self@.rows =~= old(self)@.rows);
    }

    /// Moves the cursor of the tab on view down one row, going round to the
    /// first row after the last.
    pub fn next_item(&mut self)
        requires
            old(self)@.wf(),
        ensures
            final(self)@.wf(),
            final(self)@ == old(self)@.after_next_item(),
    {
        match self.active_tab {
            ActiveTab::System => {
                self.rows[0] = (self.rows[0] + 1) % 5;
                assert(self@.rows =~= old(self)@.rows.update(0, crate::session::cursor_after(old(self)@.rows[0], 5)));
            },
            ActiveTab::Developer => {
                self.rows[1] = (self.rows[1] + 1) % 3;
                assert(self@.rows =~= old(self)@.rows.update(1, crate::session::cursor_after(old(self)@.rows[1], 3)));
            },
            ActiveTab::Apps => {
                self.rows[2] = (self.rows[2] + 1) % 2;
                assert(self@.rows =~= old(self)@.rows.update(2, crate::session::cursor_after(old(self)@.rows[2], 2)));
            },
            ActiveTab::DeepScanner => {
                self.session.next_item();
                assert(self@.rows =~= old(self)@.rows);
            },
            ActiveTab::SessionTrash => {
                self.session.next_trashed();
                assert(self@.rows =~= old(self)@.rows);
            },
        }
    }

    /// Moves the cursor of the tab on view up one row, going round to the
    /// last row before the first.
    pub fn prev_item(&mut self)
        requires
            old(self)@.wf(),
        ensures
            final(self)@.wf(),
            final(self)@ == old(self)@.after_prev_item(),
    {
        match self.active_tab {
            ActiveTab::System => {
                self.rows[0] = if self.rows[0] > 0 {
                    self.rows[0] - 1
                } else {
                    4
                };
                assert(self@.rows =~= old(self)@.rows.update(0, crate::session::cursor_before(old(self)@.rows[0], 5)));
            },
            ActiveTab::Developer => {
                self.rows[1] = if self.rows[1] > 0 {
                    self.rows[1] - 1
                } else {
                    2
                };
                assert(self@.rows =~= old(self)@.rows.update(1, crate::session::cursor_before(old(self)@.rows[1], 3)));
            },
            ActiveTab::Apps => {
                self.rows[2] = if self.rows[2] > 0 {
                    self.rows[2] - 1
                } else {
                    1
                };
                assert(self@.rows =~= old(self)@.rows.update(2, crate::session::cursor_before(old(self)@.rows[2], 2)));
            },
            ActiveTab::DeepScanner => {
                self.session.prev_item();
                assert(self@.rows =~= old(self)@.rows);
            },
            ActiveTab::SessionTrash => {
                self.session.prev_trashed();
                assert(self@.rows =~= old(self)@.rows);
            },
        }
    }
}

impl DashboardModel {
    /// The dashboard after the cursor of the tab on view has moved down.
    pub open spec fn after_next_item(self) -> DashboardModel {
        match self.active_tab {
            ActiveTab::DeepScanner => DashboardModel {
                session: SessionModel {
                    cursor: crate::session::cursor_after(self.session.cursor, self.session.entries.len() as int),
                    ..self.session
                },
                ..self
            },
            ActiveTab::SessionTrash => DashboardModel {
                session: SessionModel {
                    trash_cursor: crate::session::cursor_after(
                        self.session.trash_cursor,
                        self.session.trash.len() as int,
                    ),
                    ..self.session
                },
                ..self
            },
            tab => self.with_row(crate::session::cursor_after(self.row(tab), tab.rows())),
        }
    }

    /// The dashboard after the cursor of the tab on view has moved up.
    pub open spec fn after_prev_item(self) -> DashboardModel {
        match self.active_tab {
            ActiveTab::DeepScanner => DashboardModel {
                session: SessionModel {
                    cursor: crate::session::cursor_before(self.session.cursor, self.session.entries.len() as int),
                    ..self.session
                },
                ..self
            },
            ActiveTab::SessionTrash => DashboardModel {
                session: SessionModel {
                    trash_cursor: crate::session::cursor_before(
                        self.session.trash_cursor,
                        self.session.trash.len() as int,
                    ),
                    ..self.session
                },
                ..self
            },
            tab => self.with_row(crate::session::cursor_before(self.row(tab), tab.rows())),
        }
    }
}

impl DashboardModel {
    /// The dashboard with another session.
    pub open spec fn with_session(self, session: SessionModel) -> DashboardModel {
        DashboardModel { session, ..self }
    }

    /// Whether `after` is the dashboard once the mark under the cursor has
    /// been flipped. On the tabs of cleaners the target in the row under
    /// the cursor is marked or unmarked; in the scanner the highlighted
    /// entry is; elsewhere nothing happens.
    pub open spec fn toggles_to(self, after: DashboardModel) -> bool {
        match self.active_tab {
            ActiveTab::System | ActiveTab::Developer => {
                let place = Target::in_row(self.active_tab, self.row(self.active_tab)).unwrap().place();
                after == DashboardModel { marked: self.marked.update(place, !self.marked[place]), ..self }
            },
            ActiveTab::DeepScanner => {
                &&& after == self.with_session(after.session)
                &&& if self.session.entries.len() == 0 {
                    after.session == self.session
                } else {
                    self.session.marks_flipped(self.session.entries[self.session.cursor].path, after.session)
                }
            },
            _ => after == self,
        }
    }

    /// Whether `after` and `effect` are what going right leads to: into the
    /// highlighted directory in the scanner, to the next tab elsewhere.
    pub open spec fn goes_right_to(self, after: DashboardModel, effect: EffectModel) -> bool {
        if self.active_tab == ActiveTab::DeepScanner {
            match self.session.drill_down_target() {
                Some(root) => effect == EffectModel::Rescan(root) && after == self.with_session(
                    self.session.moved_to(root),
                ),
                None => effect == EffectModel::Nothing && after == self,
            }
        } else {
            effect == EffectModel::Nothing && after == DashboardModel {
                active_tab: self.active_tab.after(),
                ..self
            }
        }
    }

    /// Whether `after` and `effect` are what going left leads to: up to the
    /// parent directory in the scanner, to the tab before elsewhere.
    pub open spec fn goes_left_to(self, after: DashboardModel, effect: EffectModel) -> bool {
        if self.active_tab == ActiveTab::DeepScanner {
            match self.session.current_root.parent() {
                Some(root) => effect == EffectModel::Rescan(root) && after == self.with_session(
                    self.session.moved_to(root),
                ),
                None => effect == EffectModel::Nothing && after == self,
            }
        } else {
            effect == EffectModel::Nothing && after == DashboardModel {
                active_tab: self.active_tab.before(),
                ..self
            }
        }
    }

    /// Whether `after` and `effect` are what the command to clean leads to.
    /// In the scanner the selection is committed; on the tab of deletions
    /// the highlighted one is erased; elsewhere the marked cleaners are to
    /// run.
    pub open spec fn cleans_to(self, home: PathModel, after: DashboardModel, effect: EffectModel) -> bool {
        match self.active_tab {
            ActiveTab::DeepScanner => {
                &&& after == self.with_session(self.session.after_commit(home))
                &&& effect == match self.session.commit(home) {
                    CommitModel::ConfirmationRequired => EffectModel::Nothing,
                    CommitModel::Proceed(paths) => EffectModel::Delete(paths),
                }
            },
            ActiveTab::SessionTrash => {
                if self.session.trash.len() == 0 {
                    after == self && effect == EffectModel::Erase(None)
                } else {
                    &&& after == self.with_session(self.session.without_highlighted_item())
                    &&& effect == EffectModel::Erase(
                        Some(erase_begin(self.session.trash[self.session.trash_cursor])),
                    )
                }
            },
            _ => after == self && effect == EffectModel::Clean(self.marked_targets()),
        }
    }

    /// Whether `after` and `effect` are what the command to undo leads to:
    /// on the tab of deletions the restore of the highlighted one is to be
    /// driven, elsewhere nothing is. The dashboard stays as it is in either
    /// case: the deletion leaves the list only once it has been restored.
    pub open spec fn undoes_to(self, after: DashboardModel, effect: EffectModel) -> bool {
        &&& after == self
        &&& effect == if self.active_tab != ActiveTab::SessionTrash {
            EffectModel::Nothing
        } else {
            EffectModel::Restore(self.session.undo_step())
        }
    }

    /// Whether `after` and `effect` are what pressing `key` leads to.
    pub open spec fn presses_to(self, key: Key, home: PathModel, after: DashboardModel, effect: EffectModel) -> bool {
        match key {
            Key::Quit => effect == EffectModel::Nothing && after == DashboardModel { should_quit: true, ..self },
            Key::Escape => effect == EffectModel::Nothing && after == if self.session.gate
                == GateState::AwaitingConfirmation {
                self.with_session(SessionModel { gate: GateState::Idle, ..self.session })
            } else {
                DashboardModel { should_quit: true, ..self }
            },
            Key::Down => effect == EffectModel::Nothing && after == self.after_next_item(),
            Key::Up => effect == EffectModel::Nothing && after == self.after_prev_item(),
            Key::Right => self.goes_right_to(after, effect),
            Key::Left => self.goes_left_to(after, effect),
            Key::Tab => effect == EffectModel::Nothing && after == DashboardModel {
                active_tab: self.active_tab.after(),
                ..self
            },
            Key::BackTab => effect == EffectModel::Nothing && after == DashboardModel {
                active_tab: self.active_tab.before(),
                ..self
            },
            Key::Space => effect == EffectModel::Nothing && self.toggles_to(after),
            Key::Enter => self.cleans_to(home, after, effect),
            Key::Undo => self.undoes_to(after, effect),
        }
    }
}

impl Dashboard {
    /// Flips the mark under the cursor.
    pub fn toggle_selection(&mut self)
        requires
            old(self)@.wf(),
        ensures
            final(self)@.wf(),
            old(self)@.toggles_to(final(self)@),
    {
        match self.active_tab {
            ActiveTab::System => {
                let place = self.rows[0];
                self.marked[place] = !self.marked[place];
                assert(self@.rows =~= old(self)@.rows);
                assert(self@.marked =~= old(self)@.marked.update(place as int, !old(self)@.marked[place as int]));
            },
            ActiveTab::Developer => {
                let place = 5 + self.rows[1];
                self.marked[place] = !self.marked[place];
                assert(self@.rows =~= old(self)@.rows);
                assert(self@.marked =~= old(self)@.marked.update(place as int, !old(self)@.marked[place as int]));
            },
            ActiveTab::DeepScanner => {
                self.session.toggle_selection();
                assert(self@.rows =~= old(self)@.rows);
            },
            _ => {},
        }
    }

    /// Goes into the highlighted directory of the scanner.
    pub fn drill_down(&mut self) -> (effect: Effect)
        requires
            old(self)@.wf(),
        ensures
            final(self)@.wf(),
            match old(self)@.session.drill_down_target() {
                Some(root) => effect@ == EffectModel::Rescan(root) && final(self)@ == old(self)@.with_session(
                    old(self)@.session.moved_to(root),
                ),
                None => effect@ == EffectModel::Nothing && final(self)@ == old(self)@,
            },
    {
        let target = self.session.drill_down();
        assert(self@.rows =~= old(self)@.rows);
        match target {
            Some(root) => Effect::Rescan(root),
            None => Effect::Nothing,
        }
    }

    /// Goes up to the parent of the directory on view in the scanner.
    pub fn drill_up(&mut self) -> (effect: Effect)
        requires
            old(self)@.wf(),
        ensures
            final(self)@.wf(),
            match old(self)@.session.current_root.parent() {
                Some(root) => effect@ == EffectModel::Rescan(root) && final(self)@ == old(self)@.with_session(
                    old(self)@.session.moved_to(root),
                ),
                None => effect@ == EffectModel::Nothing && final(self)@ == old(self)@,
            },
    {
        let target = self.session.drill_up();
        assert(self@.rows =~= old(self)@.rows);
        match target {
            Some(root) => Effect::Rescan(root),
            None => Effect::Nothing,
        }
    }

    fn marked_targets(&self) -> (targets: Vec<Target>)
        requires
            self@.wf(),
        ensures
            targets@ == self@.marked_targets(),
    {
        let mut targets: Vec<Target> = Vec::new();
        let mut place: usize = 0;
        while place < CLEANABLE
            invariant
                place <= CLEANABLE,
                self.marked@.len() == CLEANABLE,
                targets@ == marked_among(self.marked@, place as int),
            decreases CLEANABLE - place,
        {
            if self.marked[place] {
                targets.push(Target::from_index(place));
            }
            place += 1;
        }
        targets
    }

    /// Carries out the command to clean on the tab on view.
    pub fn execute_clean(&mut self, home: &FsPath) -> (effect: Effect)
        requires
            old(self)@.wf(),
        ensures
            final(self)@.wf(),
            old(self)@.cleans_to(home@, final(self)@, effect@),
    {
        match self.active_tab {
            ActiveTab::DeepScanner => {
                let decision = self.session.request_commit(home);
                assert(self@.rows =~= old(self)@.rows);
                match decision {
                    Commit::ConfirmationRequired => Effect::Nothing,
                    Commit::Proceed(paths) => Effect::Delete(paths),
                }
            },
            ActiveTab::SessionTrash => {
                let step = self.session.execute_session_trash_delete();
                assert(self@.rows =~= old(self)@.rows);
                Effect::Erase(step)
            },
            _ => Effect::Clean(self.marked_targets()),
        }
    }

    /// Carries out the command to undo on the tab on view.
    pub fn execute_undo_trash(&self) -> (effect: Effect)
        requires
            self@.wf(),
        ensures
            self@.undoes_to(self@, effect@),
    {
        match self.active_tab {
            ActiveTab::SessionTrash => Effect::Restore(self.session.execute_undo_trash()),
            _ => Effect::Nothing,
        }
    }

    /// Takes note of how the restore of the highlighted deletion ended: it
    /// leaves the list when it was restored, and stays when it was not.
    pub fn record_restore(&mut self, outcome: Result<(), String>)
        requires
            old(self)@.wf(),
        ensures
            final(self)@.wf(),
            final(self)@ == old(self)@.with_session(old(self)@.session.after_restore(outcome is Ok)),
    {
        self.session.record_restore(outcome);
        assert(self@.rows =~= old(self)@.rows);
    }

    /// Carries out what the key stands for, and says what the host has to
    /// do.
    pub fn press(&mut self, key: Key, home: &FsPath) -> (effect: Effect)
        requires
            old(self)@.wf(),
        ensures
            final(self)@.wf(),
            old(self)@.presses_to(key, home@, final(self)@, effect@),
    {
        match key {
            Key::Quit => {
                self.should_quit = true;
                assert(self@.rows =~= old(self)@.rows);
                Effect::Nothing
            },
            Key::Escape => {
                match self.session.gate() {
                    GateState::AwaitingConfirmation => {
                        self.session.cancel();
                    },
                    GateState::Idle => {
                        self.should_quit = true;
                    },
                }
                assert(self@.rows =~= old(self)@.rows);
                Effect::Nothing
            },
            Key::Down => {
                self.next_item();
                Effect::Nothing
            },
            Key::Up => {
                self.prev_item();
                Effect::Nothing
            },
            Key::Right => {
                match self.active_tab {
                    ActiveTab::DeepScanner => self.drill_down(),
                    _ => {
                        self.next_tab();
                        Effect::Nothing
                    },
                }
            },
            Key::Left => {
                match self.active_tab {
                    ActiveTab::DeepScanner => self.drill_up(),
                    _ => {
                        self.prev_tab();
                        Effect::Nothing
                    },
                }
            },
            Key::Tab => {
                self.next_tab();
                Effect::Nothing
            },
            Key::BackTab => {
                self.prev_tab();
                Effect::Nothing
            },
            Key::Space => {
                self.toggle_selection();
                Effect::Nothing
            },
            Key::Enter => self.execute_clean(home),
            Key::Undo => self.execute_undo_trash(),
        }
    }
}

} // verus!
