//! The state of the checks runner: setup form, check list, selection, run
//! statuses and output, with every transition stated over `AppView`.

use std::collections::{HashMap, HashSet};

use vstd::prelude::*;

use crate::checks::{Check, CheckView, ChecksConfig, ChecksConfigView, Group, GroupView};
use crate::config::{SavedConfig, SavedConfigView};
use crate::protocol::{decode_message, RunMessage, RunMessageView};
use crate::text::{
    append_lines, join_path, join_strings, join_with, lines_text, lowercase, path_join, to_lowercase,
    trim_chars, trimmed, underscore_separators, underscored, chars_of, string_of, str_equal,
    copy_string, copy_strings, drop_last_char, pop_char, push_char, lines_of, split_lines,
};

verus! {

broadcast use vstd::std_specs::hash::group_hash_axioms;

// ── Modes ──────────────────────────────────────────────────────────────────

#[derive(Debug, Clone, Copy, PartialEq, Eq, Structural)]
pub enum AppMode {
    Setup,
    Selecting,
    Running { idx: usize },
    AwaitingManualResult { idx: usize },
    Done,
}

// ── Setup tab ──────────────────────────────────────────────────────────────

#[derive(Debug, Clone, Copy, PartialEq, Eq, Structural)]
pub enum SetupTab {
    Run,
    Settings,
}

#[derive(Debug, Clone, Copy, PartialEq, Eq, Structural)]
pub enum SetupField {
    ProjectPath,
    Branch,
    Config,
    LogFolder,
}

// ── Check status ───────────────────────────────────────────────────────────

#[derive(Debug, Clone, Copy, PartialEq, Eq, Structural)]
pub enum CheckStatus {
    Pending,
    Running,
    Passed,
    Failed,
    Skipped,
    ManualPassed,
    ManualFailed,
}

/// The icon shown for a status.
pub open spec fn status_icon(s: CheckStatus) -> Seq<char> {
    match s {
        CheckStatus::Pending => "○"@,
        CheckStatus::Running => "◐"@,
        CheckStatus::Passed | CheckStatus::ManualPassed => "✓"@,
        CheckStatus::Failed | CheckStatus::ManualFailed => "✗"@,
        CheckStatus::Skipped => "⊘"@,
    }
}

/// The name of a status, as its `Debug` form writes it.
pub open spec fn status_name(s: CheckStatus) -> Seq<char> {
    match s {
        CheckStatus::Pending => "Pending"@,
        CheckStatus::Running => "Running"@,
        CheckStatus::Passed => "Passed"@,
        CheckStatus::Failed => "Failed"@,
        CheckStatus::Skipped => "Skipped"@,
        CheckStatus::ManualPassed => "ManualPassed"@,
        CheckStatus::ManualFailed => "ManualFailed"@,
    }
}

/// Whether a status counts as passed.
pub open spec fn is_pass(s: CheckStatus) -> bool {
    s == CheckStatus::Passed || s == CheckStatus::ManualPassed
}

/// Whether a status counts as failed.
pub open spec fn is_fail(s: CheckStatus) -> bool {
    s == CheckStatus::Failed || s == CheckStatus::ManualFailed
}

impl CheckStatus {
    pub fn icon(&self) -> (r: &'static str)
        ensures
            r@ == status_icon(*self),
    {
        match self {
            CheckStatus::Pending => "○",
            CheckStatus::Running => "◐",
            CheckStatus::Passed | CheckStatus::ManualPassed => "✓",
            CheckStatus::Failed | CheckStatus::ManualFailed => "✗",
            CheckStatus::Skipped => "⊘",
        }
    }

    /// The name of the status, as its `Debug` form writes it.
    pub fn name(&self) -> (r: &'static str)
        ensures
            r@ == status_name(*self),
    {
        match self {
            CheckStatus::Pending => "Pending",
            CheckStatus::Running => "Running",
            CheckStatus::Passed => "Passed",
            CheckStatus::Failed => "Failed",
            CheckStatus::Skipped => "Skipped",
            CheckStatus::ManualPassed => "ManualPassed",
            CheckStatus::ManualFailed => "ManualFailed",
        }
    }
}

// ── List entry ────────────────────────────────────────────────────────────

#[derive(Debug, Clone, Copy, PartialEq, Eq, Structural)]
pub enum ListEntry {
    Group { group_idx: usize },
    Check { group_idx: usize, check_idx: usize },
}

/// A screen rectangle: the list's area, kept for mouse hit-testing.
#[derive(Debug, Clone, Copy, PartialEq, Eq, Structural)]
pub struct Rect {
    pub x: u16,
    pub y: u16,
    pub width: u16,
    pub height: u16,
}

// ── App ────────────────────────────────────────────────────────────────────

pub struct App {
    pub mode: AppMode,
    // Config data
    pub groups: Vec<Group>,
    pub checks: Vec<Check>,
    pub check_group_map: Vec<usize>,
    // Selection / status
    pub selected: Vec<bool>,
    pub statuses: Vec<CheckStatus>,
    /// Run time of each check, in milliseconds.
    pub elapsed: Vec<Option<u64>>,
    // Runner list state
    pub list_entries: Vec<ListEntry>,
    pub list_cursor: usize,
    pub list_scroll_offset: usize,
    pub list_visible_height: u16,
    pub list_area: Option<Rect>,
    // Output
    pub output_lines: Vec<String>,
    pub check_logs: HashMap<usize, Vec<String>>,
    pub audited_passed: HashSet<usize>,
    pub output_scroll: usize,
    pub output_pane_height: u16,
    // Repo
    pub repo_root: String,
    pub current_branch: String,
    pub staged_files: Vec<String>,
    // Setup form
    pub setup_tab: SetupTab,
    pub setup_project_path: String,
    pub setup_branch: String,
    pub setup_log_folder: String,
    pub setup_focus: SetupField,
    pub setup_error: Option<String>,
    pub setup_log: Vec<String>,
    // Config selector
    pub config_paths: Vec<String>,
    pub config_idx: usize,
    pub config_dropdown_open: bool,
    pub selected_config_path: Option<String>,
    // Mouse
    pub mouse_capture: bool,
}

/// The state of the runner as mathematical values.
pub struct AppView {
    pub mode: AppMode,
    pub groups: Seq<GroupView>,
    pub checks: Seq<CheckView>,
    pub check_group_map: Seq<usize>,
    pub selected: Seq<bool>,
    pub statuses: Seq<CheckStatus>,
    pub elapsed: Seq<Option<u64>>,
    pub list_entries: Seq<ListEntry>,
    pub list_cursor: usize,
    pub list_scroll_offset: usize,
    pub list_visible_height: u16,
    pub list_area: Option<Rect>,
    pub output_lines: Seq<Seq<char>>,
    pub check_logs: Map<usize, Seq<Seq<char>>>,
    pub audited_passed: Set<usize>,
    pub output_scroll: usize,
    pub output_pane_height: u16,
    pub repo_root: Seq<char>,
    pub current_branch: Seq<char>,
    pub staged_files: Seq<Seq<char>>,
    pub setup_tab: SetupTab,
    pub setup_project_path: Seq<char>,
    pub setup_branch: Seq<char>,
    pub setup_log_folder: Seq<char>,
    pub setup_focus: SetupField,
    pub setup_error: Option<Seq<char>>,
    pub setup_log: Seq<Seq<char>>,
    pub config_paths: Seq<Seq<char>>,
    pub config_idx: usize,
    pub config_dropdown_open: bool,
    pub selected_config_path: Option<Seq<char>>,
    pub mouse_capture: bool,
}

/// The per-check logs as character sequences.
pub open spec fn logs_view(m: Map<usize, Vec<String>>) -> Map<usize, Seq<Seq<char>>> {
    Map::new(|k: usize| m.contains_key(k), |k: usize| m[k].deep_view())
}

impl View for App {
    type V = AppView;

    open spec fn view(&self) -> AppView {
        AppView {
            mode: self.mode,
            groups: self.groups.deep_view(),
            checks: self.checks.deep_view(),
            check_group_map: self.check_group_map@,
            selected: self.selected@,
            statuses: self.statuses@,
            elapsed: self.elapsed@,
            list_entries: self.list_entries@,
            list_cursor: self.list_cursor,
            list_scroll_offset: self.list_scroll_offset,
            list_visible_height: self.list_visible_height,
            list_area: self.list_area,
            output_lines: self.output_lines.deep_view(),
            check_logs: logs_view(self.check_logs@),
            audited_passed: self.audited_passed@,
            output_scroll: self.output_scroll,
            output_pane_height: self.output_pane_height,
            repo_root: self.repo_root@,
            current_branch: self.current_branch@,
            staged_files: self.staged_files.deep_view(),
            setup_tab: self.setup_tab,
            setup_project_path: self.setup_project_path@,
            setup_branch: self.setup_branch@,
            setup_log_folder: self.setup_log_folder@,
            setup_focus: self.setup_focus,
            setup_error: self.setup_error.deep_view(),
            setup_log: self.setup_log.deep_view(),
            config_paths: self.config_paths.deep_view(),
            config_idx: self.config_idx,
            config_dropdown_open: self.config_dropdown_open,
            selected_config_path: self.selected_config_path.deep_view(),
            mouse_capture: self.mouse_capture,
        }
    }
}

/// Whether a list entry names a group and a check that exist.
pub open spec fn entry_ok(e: ListEntry, n_groups: nat, n_checks: nat) -> bool {
    match e {
        ListEntry::Group { group_idx } => group_idx < n_groups,
        ListEntry::Check { group_idx, check_idx } => group_idx < n_groups && check_idx < n_checks,
    }
}

impl AppView {
    /// The per-check vectors have one entry per check, each check's group
    /// exists, every list entry names a group or check that exists, and the
    /// chosen config is one of the config paths.
    pub open spec fn wf(self) -> bool {
        &&& self.lens_ok()
        &&& forall|k: int|
            0 <= k < self.list_entries.len() ==> entry_ok(
                #[trigger] self.list_entries[k],
                self.groups.len(),
                self.checks.len(),
            )
        &&& (self.config_paths.len() == 0 || self.config_idx < self.config_paths.len())
    }

    /// The per-check vectors have one entry per check and each check's
    /// group exists.
    pub open spec fn lens_ok(self) -> bool {
        &&& self.check_group_map.len() == self.checks.len()
        &&& self.selected.len() == self.checks.len()
        &&& self.statuses.len() == self.checks.len()
        &&& self.elapsed.len() == self.checks.len()
        &&& forall|i: int|
            0 <= i < self.check_group_map.len() ==> #[trigger] self.check_group_map[i]
                < self.groups.len()
    }

    /// Whether check `i` belongs to group `g`.
    pub open spec fn in_group(self, g: usize, i: int) -> bool {
        0 <= i < self.check_group_map.len() && self.check_group_map[i] == g
    }

    /// Whether check `idx` is audited and has passed before: it is then not
    /// run again.
    pub open spec fn is_locked(self, idx: int) -> bool {
        self.checks[idx].audited && self.audited_passed.contains(idx as usize)
    }

    pub open spec fn toggle_dropdown(self) -> AppView {
        AppView { config_dropdown_open: !self.config_dropdown_open, ..self }
    }

    pub open spec fn close_dropdown(self) -> AppView {
        AppView { config_dropdown_open: false, ..self }
    }

    /// The field after `f` on the run tab; the log folder stays.
    pub open spec fn focus_after(f: SetupField) -> SetupField {
        match f {
            SetupField::ProjectPath => SetupField::Branch,
            SetupField::Branch => SetupField::Config,
            SetupField::Config => SetupField::ProjectPath,
            SetupField::LogFolder => SetupField::LogFolder,
        }
    }

    /// The field before `f` on the run tab; the log folder stays.
    pub open spec fn focus_before(f: SetupField) -> SetupField {
        match f {
            SetupField::ProjectPath => SetupField::Config,
            SetupField::Branch => SetupField::ProjectPath,
            SetupField::Config => SetupField::Branch,
            SetupField::LogFolder => SetupField::LogFolder,
        }
    }

    pub open spec fn setup_focus_next(self) -> AppView {
        AppView { setup_focus: Self::focus_after(self.setup_focus), ..self }
    }

    pub open spec fn setup_focus_prev(self) -> AppView {
        AppView { setup_focus: Self::focus_before(self.setup_focus), ..self }
    }

    /// The other tab, with the focus on its first field.
    pub open spec fn setup_tab_switch(self) -> AppView {
        let tab = match self.setup_tab {
            SetupTab::Run => SetupTab::Settings,
            SetupTab::Settings => SetupTab::Run,
        };
        let focus = match tab {
            SetupTab::Run => SetupField::ProjectPath,
            SetupTab::Settings => SetupField::LogFolder,
        };
        AppView { setup_tab: tab, setup_focus: focus, ..self }
    }

    pub open spec fn toggle_mouse_capture(self) -> AppView {
        AppView { mouse_capture: !self.mouse_capture, ..self }
    }

    /// Whether every check of group `g` is selected.
    pub open spec fn group_all_selected(self, g: usize) -> bool {
        forall|i: int|
            0 <= i < self.check_group_map.len() && self.check_group_map[i] == g
                ==> #[trigger] self.selected[i]
    }

    /// Deselect the group when all its checks are selected, select all of it
    /// otherwise.
    pub open spec fn toggle_group(self, g: usize) -> AppView {
        let v = !self.group_all_selected(g);
        AppView {
            selected: Seq::new(
                self.selected.len(),
                |i: int| if self.check_group_map[i] == g { v } else { self.selected[i] },
            ),
            ..self
        }
    }

    /// Flip the selection of the check under the cursor, or toggle the group
    /// under it; nothing when the cursor is past the list.
    pub open spec fn toggle_current(self) -> AppView {
        if self.list_cursor < self.list_entries.len() {
            match self.list_entries[self.list_cursor as int] {
                ListEntry::Check { check_idx, .. } => AppView {
                    selected: self.selected.update(check_idx as int, !self.selected[check_idx as int]),
                    ..self
                },
                ListEntry::Group { group_idx } => self.toggle_group(group_idx),
            }
        } else {
            self
        }
    }

    pub open spec fn select_all(self) -> AppView {
        AppView { selected: Seq::new(self.selected.len(), |i: int| true), ..self }
    }

    pub open spec fn select_none(self) -> AppView {
        AppView { selected: Seq::new(self.selected.len(), |i: int| false), ..self }
    }

    /// The height of the list viewport, at least one row.
    pub open spec fn visible_rows(self) -> int {
        if self.list_visible_height == 0 {
            1
        } else {
            self.list_visible_height as int
        }
    }

    /// Move the cursor up one entry (not above the first), reset the output
    /// scroll, and scroll the list so that the cursor is not above it.
    pub open spec fn list_up(self) -> AppView {
        let cursor = if self.list_cursor > 0 {
            (self.list_cursor - 1) as usize
        } else {
            self.list_cursor
        };
        let offset = if cursor < self.list_scroll_offset {
            cursor
        } else {
            self.list_scroll_offset
        };
        AppView { list_cursor: cursor, output_scroll: 0, list_scroll_offset: offset, ..self }
    }

    /// Move the cursor down one entry (not past the last), reset the output
    /// scroll, and scroll the list so that the cursor is not below it.
    pub open spec fn list_down(self) -> AppView {
        let cursor = if self.list_cursor + 1 < self.list_entries.len() {
            (self.list_cursor + 1) as usize
        } else {
            self.list_cursor
        };
        let offset = if cursor >= self.list_scroll_offset + self.visible_rows() {
            (cursor + 1 - self.visible_rows()) as usize
        } else {
            self.list_scroll_offset
        };
        AppView { list_cursor: cursor, output_scroll: 0, list_scroll_offset: offset, ..self }
    }

    /// Whether the cursor is on a row that the list viewport shows.
    pub open spec fn cursor_visible(self) -> bool {
        self.list_scroll_offset <= self.list_cursor < self.list_scroll_offset
            + self.visible_rows()
    }

    pub open spec fn scroll_up(self) -> AppView {
        AppView {
            output_scroll: if self.output_scroll > 0 {
                (self.output_scroll - 1) as usize
            } else {
                0
            },
            ..self
        }
    }

    pub open spec fn scroll_down(self) -> AppView {
        AppView { output_scroll: (self.output_scroll + 1) as usize, ..self }
    }

    /// The height of the output pane, at least one row.
    pub open spec fn page_rows(self) -> int {
        if self.output_pane_height == 0 {
            1
        } else {
            self.output_pane_height as int
        }
    }

    pub open spec fn page_up(self) -> AppView {
        AppView {
            output_scroll: if self.output_scroll >= self.page_rows() {
                (self.output_scroll - self.page_rows()) as usize
            } else {
                0
            },
            ..self
        }
    }

    pub open spec fn page_down(self) -> AppView {
        AppView { output_scroll: (self.output_scroll + self.page_rows()) as usize, ..self }
    }

    pub open spec fn scroll_to_top(self) -> AppView {
        AppView { output_scroll: 0, ..self }
    }

    pub open spec fn scroll_to_bottom(self) -> AppView {
        AppView {
            output_scroll: if self.output_lines.len() > 0 {
                (self.output_lines.len() - 1) as usize
            } else {
                0
            },
            ..self
        }
    }

    /// A click on a row inside the list area's border, on a column of the
    /// area, moves the cursor to the entry drawn on that row (the list's
    /// scroll offset plus the row's place below the top border) and toggles
    /// that entry; a click on a border row, outside the area, or on a row
    /// below the last entry changes nothing.
    pub open spec fn handle_click(self, col: u16, row: u16) -> AppView {
        match self.list_area {
            Some(a) => {
                if a.x <= col < a.x + a.width && a.y < row && row + 1 < a.y + a.height {
                    let k = self.list_scroll_offset + (row - a.y - 1);
                    if k < self.list_entries.len() {
                        AppView { list_cursor: k as usize, ..self }.toggle_current()
                    } else {
                        self
                    }
                } else {
                    self
                }
            },
            None => self,
        }
    }
}


/// The list entries for one group: each check of group `g` in the first
/// checks of `map`, in order.
pub open spec fn member_entries(map: Seq<usize>, g: usize) -> Seq<ListEntry>
    decreases map.len(),
{
    if map.len() == 0 {
        Seq::empty()
    } else {
        member_entries(map.drop_last(), g) + if map.last() == g {
            seq![ListEntry::Check { group_idx: g, check_idx: (map.len() - 1) as usize }]
        } else {
            Seq::empty()
        }
    }
}

/// The list entries for the first `n` groups: each group's header followed
/// by its checks.
pub open spec fn entries_upto(map: Seq<usize>, n: nat) -> Seq<ListEntry>
    decreases n,
{
    if n == 0 {
        Seq::empty()
    } else {
        entries_upto(map, (n - 1) as nat).push(ListEntry::Group { group_idx: (n - 1) as usize })
            + member_entries(map, (n - 1) as usize)
    }
}

/// The checks of all groups, group after group.
pub open spec fn flat_checks(gs: Seq<GroupView>) -> Seq<CheckView>
    decreases gs.len(),
{
    if gs.len() == 0 {
        Seq::empty()
    } else {
        flat_checks(gs.drop_last()) + gs.last().checks
    }
}

/// For each check of `flat_checks(gs)`, the index of its group.
pub open spec fn flat_group_map(gs: Seq<GroupView>) -> Seq<usize>
    decreases gs.len(),
{
    if gs.len() == 0 {
        Seq::empty()
    } else {
        flat_group_map(gs.drop_last()) + Seq::new(
            gs.last().checks.len(),
            |i: int| (gs.len() - 1) as usize,
        )
    }
}

/// How many statuses count as passed.
pub open spec fn count_passed(s: Seq<CheckStatus>) -> nat
    decreases s.len(),
{
    if s.len() == 0 {
        0
    } else {
        count_passed(s.drop_last()) + if is_pass(s.last()) {
            1nat
        } else {
            0nat
        }
    }
}

/// How many statuses count as failed.
pub open spec fn count_failed(s: Seq<CheckStatus>) -> nat
    decreases s.len(),
{
    if s.len() == 0 {
        0
    } else {
        count_failed(s.drop_last()) + if is_fail(s.last()) {
            1nat
        } else {
            0nat
        }
    }
}

/// How many statuses are `Skipped`.
pub open spec fn count_skipped(s: Seq<CheckStatus>) -> nat
    decreases s.len(),
{
    if s.len() == 0 {
        0
    } else {
        count_skipped(s.drop_last()) + if s.last() == CheckStatus::Skipped {
            1nat
        } else {
            0nat
        }
    }
}

impl AppView {
    /// Statuses back to `Pending`, except audited checks that passed before,
    /// which show `Passed`; output, logs, scroll and timings cleared.
    pub open spec fn reset_run_state(self) -> AppView {
        AppView {
            statuses: Seq::new(
                self.statuses.len(),
                |i: int| if self.is_locked(i) {
                    CheckStatus::Passed
                } else {
                    CheckStatus::Pending
                },
            ),
            output_lines: Seq::empty(),
            check_logs: Map::empty(),
            output_scroll: 0,
            elapsed: Seq::new(self.checks.len(), |i: int| None),
            ..self
        }
    }

    /// The list: each group's header followed by its checks.
    pub open spec fn rebuild_list_entries(self) -> AppView {
        AppView { list_entries: entries_upto(self.check_group_map, self.groups.len()), ..self }
    }

    /// The checks of `gs`, all selected and pending, with no audited pass
    /// recorded yet; the run state reset and the list rebuilt.
    pub open spec fn load_checks_from_groups(self, gs: Seq<GroupView>) -> AppView {
        let n = flat_checks(gs).len();
        AppView {
            groups: gs,
            checks: flat_checks(gs),
            check_group_map: flat_group_map(gs),
            selected: Seq::new(n, |i: int| true),
            statuses: Seq::new(n, |i: int| CheckStatus::Pending),
            elapsed: Seq::new(n, |i: int| None),
            audited_passed: Set::empty(),
            ..self
        }.reset_run_state().rebuild_list_entries()
    }

    /// The audited checks whose pass log exists (`present`) recorded as
    /// passed, and the run state reset accordingly.
    pub open spec fn apply_audited_state(self, present: Seq<bool>) -> AppView {
        AppView {
            audited_passed: Set::new(
                |i: usize| i < self.checks.len() && self.checks[i as int].audited && present[i as int],
            ),
            ..self
        }.reset_run_state()
    }

    /// Passed, failed and skipped counts.
    pub open spec fn summary_counts(self) -> (nat, nat, nat) {
        (count_passed(self.statuses), count_failed(self.statuses), count_skipped(self.statuses))
    }

    /// The icon of group `g`: running if a check of it runs, failed if one
    /// failed, passed when every selected check of it passed or was skipped
    /// and at least one selected check passed, pending otherwise.
    pub open spec fn group_status_icon(self, g: usize) -> Seq<char> {
        if exists|i: int| #[trigger] self.in_group(g, i) && self.statuses[i] == CheckStatus::Running {
            "◐"@
        } else if exists|i: int| #[trigger] self.in_group(g, i) && is_fail(self.statuses[i]) {
            "✗"@
        } else if (forall|i: int|
            #[trigger] self.in_group(g, i) ==> !self.selected[i] || is_pass(self.statuses[i])
                || self.statuses[i] == CheckStatus::Skipped) && (exists|i: int|
            #[trigger] self.in_group(g, i) && self.selected[i] && is_pass(self.statuses[i])) {
            "✓"@
        } else {
            "○"@
        }
    }

    /// Whether some selected check is not locked by an earlier audited pass.
    pub open spec fn has_runnable(self) -> bool {
        exists|i: int| 0 <= i < self.checks.len() && self.selected[i] && !self.is_locked(i)
    }

    /// With a check to run: unselected and locked checks marked skipped,
    /// output and logs cleared, and the mode running. Without one: nothing.
    pub open spec fn start_running(self) -> AppView {
        if self.has_runnable() {
            AppView {
                statuses: Seq::new(
                    self.statuses.len(),
                    |i: int| if !self.selected[i] || self.is_locked(i) {
                        CheckStatus::Skipped
                    } else {
                        self.statuses[i]
                    },
                ),
                output_lines: Seq::empty(),
                check_logs: Map::empty(),
                output_scroll: 0,
                mode: AppMode::Running { idx: 0 },
                ..self
            }
        } else {
            self
        }
    }

    pub open spec fn finish_run(self) -> AppView {
        AppView { mode: AppMode::Done, ..self }
    }

    pub open spec fn reset_to_selecting(self) -> AppView {
        AppView { mode: AppMode::Selecting, ..self.reset_run_state() }
    }

    pub open spec fn reset_audited(self) -> AppView {
        AppView { audited_passed: Set::empty(), ..self }.reset_to_selecting()
    }

    pub open spec fn rerun(self) -> AppView {
        self.reset_run_state().start_running()
    }
}

impl App {
    pub fn toggle_dropdown(&mut self)
        ensures
            final(self)@ == old(self)@.toggle_dropdown(),
    {
        self.config_dropdown_open = !self.config_dropdown_open;
    }

    pub fn close_dropdown(&mut self)
        ensures
            final(self)@ == old(self)@.close_dropdown(),
    {
        self.config_dropdown_open = false;
    }

    pub fn setup_focus_next(&mut self)
        ensures
            final(self)@ == old(self)@.setup_focus_next(),
    {
        self.setup_focus = match self.setup_focus {
            SetupField::ProjectPath => SetupField::Branch,
            SetupField::Branch => SetupField::Config,
            SetupField::Config => SetupField::ProjectPath,
            SetupField::LogFolder => SetupField::LogFolder,
        };
    }

    pub fn setup_focus_prev(&mut self)
        ensures
            final(self)@ == old(self)@.setup_focus_prev(),
    {
        self.setup_focus = match self.setup_focus {
            SetupField::ProjectPath => SetupField::Config,
            SetupField::Branch => SetupField::ProjectPath,
            SetupField::Config => SetupField::Branch,
            SetupField::LogFolder => SetupField::LogFolder,
        };
    }

    fn switch_tab(&mut self)
        ensures
            final(self)@ == old(self)@.setup_tab_switch(),
    {
        self.setup_tab = match self.setup_tab {
            SetupTab::Run => SetupTab::Settings,
            SetupTab::Settings => SetupTab::Run,
        };
        self.setup_focus = match self.setup_tab {
            SetupTab::Run => SetupField::ProjectPath,
            SetupTab::Settings => SetupField::LogFolder,
        };
    }

    pub fn setup_tab_next(&mut self)
        ensures
            final(self)@ == old(self)@.setup_tab_switch(),
    {
        self.switch_tab();
    }

    pub fn setup_tab_prev(&mut self)
        ensures
            final(self)@ == old(self)@.setup_tab_switch(),
    {
        self.switch_tab();
    }

    pub fn toggle_mouse_capture(&mut self)
        ensures
            final(self)@ == old(self)@.toggle_mouse_capture(),
    {
        self.mouse_capture = !self.mouse_capture;
    }

    pub fn toggle_group(&mut self, group_idx: usize)
        requires
            old(self)@.wf(),
        ensures
            final(self)@ == old(self)@.toggle_group(group_idx),
    {
        let ghost s0 = self@;
        let n = self.check_group_map.len();
        let mut all_selected = true;
        let mut i: usize = 0;
        while i < n
            invariant
                self@ == s0,
                s0.wf(),
                n == s0.check_group_map.len(),
                i <= n,
                all_selected <==> (forall|k: int|
                    0 <= k < i && s0.check_group_map[k] == group_idx ==> #[trigger] s0.selected[k]),
            decreases n - i,
        {
            if self.check_group_map[i] == group_idx && !self.selected[i] {
                all_selected = false;
            }
            i += 1;
        }
        let new_val = !all_selected;
        let mut j: usize = 0;
        while j < n
            invariant
                s0.wf(),
                n == s0.check_group_map.len(),
                j <= n,
                self@ == (AppView { selected: self@.selected, ..s0 }),
                self@.selected.len() == n,
                forall|k: int|
                    0 <= k < n ==> #[trigger] self@.selected[k] == if k < j
                        && s0.check_group_map[k] == group_idx {
                        new_val
                    } else {
                        s0.selected[k]
                    },
            decreases n - j,
        {
            if self.check_group_map[j] == group_idx {
                self.selected.set(j, new_val);
            }
            j += 1;
        }
        proof {
            assert(self@.selected =~= s0.toggle_group(group_idx).selected);
        }
    }

    pub fn toggle_current(&mut self)
        requires
            old(self)@.wf(),
        ensures
            final(self)@ == old(self)@.toggle_current(),
    {
        if self.list_cursor < self.list_entries.len() {
            let e = self.list_entries[self.list_cursor];
            proof {
                assert(entry_ok(e, self@.groups.len(), self@.checks.len()));
            }
            match e {
                ListEntry::Check { check_idx, .. } => {
                    let v = self.selected[check_idx];
                    self.selected.set(check_idx, !v);
                },
                ListEntry::Group { group_idx } => {
                    self.toggle_group(group_idx);
                },
            }
        }
    }

    pub fn select_all(&mut self)
        ensures
            final(self)@ == old(self)@.select_all(),
    {
        let ghost s0 = self@;
        let n = self.selected.len();
        for i in 0..n
            invariant
                n == s0.selected.len(),
                self@ == (AppView { selected: self@.selected, ..s0 }),
                self@.selected.len() == n,
                forall|k: int| 0 <= k < n ==> #[trigger] self@.selected[k] == if k < i {
                    true
                } else {
                    s0.selected[k]
                },
        {
            self.selected.set(i, true);
        }
        proof {
            assert(self@.selected =~= s0.select_all().selected);
        }
    }

    pub fn select_none(&mut self)
        ensures
            final(self)@ == old(self)@.select_none(),
    {
        let ghost s0 = self@;
        let n = self.selected.len();
        for i in 0..n
            invariant
                n == s0.selected.len(),
                self@ == (AppView { selected: self@.selected, ..s0 }),
                self@.selected.len() == n,
                forall|k: int| 0 <= k < n ==> #[trigger] self@.selected[k] == if k < i {
                    false
                } else {
                    s0.selected[k]
                },
        {
            self.selected.set(i, false);
        }
        proof {
            assert(self@.selected =~= s0.select_none().selected);
        }
    }

    pub fn list_up(&mut self)
        ensures
            final(self)@ == old(self)@.list_up(),
    {
        if self.list_cursor > 0 {
            self.list_cursor -= 1;
        }
        self.output_scroll = 0;
        // Scroll the list viewport up if cursor goes above visible area
        if self.list_cursor < self.list_scroll_offset {
            self.list_scroll_offset = self.list_cursor;
        }
    }

    pub fn list_down(&mut self)
        requires
            old(self).list_cursor < usize::MAX,
            old(self).list_scroll_offset + 65536 <= usize::MAX,
        ensures
            final(self)@ == old(self)@.list_down(),
    {
        if self.list_cursor + 1 < self.list_entries.len() {
            self.list_cursor += 1;
        }
        self.output_scroll = 0;
        // list_visible_height is updated by draw each frame
        let visible: usize = if self.list_visible_height == 0 {
            1
        } else {
            self.list_visible_height as usize
        };
        if self.list_cursor >= self.list_scroll_offset + visible {
            self.list_scroll_offset = self.list_cursor + 1 - visible;
        }
    }

    pub fn scroll_up(&mut self)
        ensures
            final(self)@ == old(self)@.scroll_up(),
    {
        self.output_scroll = if self.output_scroll > 0 {
            self.output_scroll - 1
        } else {
            0
        };
    }

    pub fn scroll_down(&mut self)
        requires
            old(self).output_scroll < usize::MAX,
        ensures
            final(self)@ == old(self)@.scroll_down(),
    {
        self.output_scroll += 1;
    }

    pub fn page_up(&mut self)
        ensures
            final(self)@ == old(self)@.page_up(),
    {
        let page: usize = if self.output_pane_height == 0 {
            1
        } else {
            self.output_pane_height as usize
        };
        self.output_scroll = if self.output_scroll >= page {
            self.output_scroll - page
        } else {
            0
        };
    }

    pub fn page_down(&mut self)
        requires
            old(self).output_scroll + 65536 <= usize::MAX,
        ensures
            final(self)@ == old(self)@.page_down(),
    {
        let page: usize = if self.output_pane_height == 0 {
            1
        } else {
            self.output_pane_height as usize
        };
        self.output_scroll += page;
    }

    pub fn scroll_to_top(&mut self)
        ensures
            final(self)@ == old(self)@.scroll_to_top(),
    {
        self.output_scroll = 0;
    }

    pub fn scroll_to_bottom(&mut self)
        ensures
            final(self)@ == old(self)@.scroll_to_bottom(),
    {
        let n = self.output_lines.len();
        self.output_scroll = if n > 0 {
            n - 1
        } else {
            0
        };
    }

    pub fn handle_click(&mut self, col: u16, row: u16)
        requires
            old(self)@.wf(),
            old(self).list_area matches Some(a) ==> a.x + a.width <= u16::MAX && a.y + a.height
                <= u16::MAX,
        ensures
            final(self)@ == old(self)@.handle_click(col, row),
    {
        if let Some(area) = self.list_area {
            if col >= area.x && col < area.x + area.width && row > area.y && (row as u32) + 1
                < (area.y as u32) + (area.height as u32) {
                // The entry drawn on that row, below the top border
                let inner: usize = (row - area.y - 1) as usize;
                let len = self.list_entries.len();
                let off = self.list_scroll_offset;
                if off < len && inner < len - off {
                    self.list_cursor = off + inner;
                    self.toggle_current();
                }
            }
        }
    }
}


impl App {
    /// Whether check `idx` is audited and has passed before.
    pub fn is_audited_locked(&self, idx: usize) -> (r: bool)
        requires
            idx < self@.checks.len(),
        ensures
            r == self@.is_locked(idx as int),
    {
        self.checks[idx].audited && self.audited_passed.contains(&idx)
    }

    pub fn reset_run_state(&mut self)
        requires
            old(self)@.lens_ok(),
        ensures
            final(self)@ == old(self)@.reset_run_state(),
    {
        let ghost s0 = self@;
        let n = self.statuses.len();
        for i in 0..n
            invariant
                n == s0.statuses.len(),
                s0.lens_ok(),
                self@ == (AppView { statuses: self@.statuses, ..s0 }),
                self@.statuses.len() == n,
                forall|k: int|
                    0 <= k < n ==> #[trigger] self@.statuses[k] == if k < i {
                        if s0.is_locked(k) {
                            CheckStatus::Passed
                        } else {
                            CheckStatus::Pending
                        }
                    } else {
                        s0.statuses[k]
                    },
        {
            let st = if self.is_audited_locked(i) {
                CheckStatus::Passed
            } else {
                CheckStatus::Pending
            };
            self.statuses.set(i, st);
        }
        self.output_lines.clear();
        self.check_logs.clear();
        self.output_scroll = 0;
        let mut el: Vec<Option<u64>> = Vec::new();
        let m = self.checks.len();
        for j in 0..m
            invariant
                el@ == Seq::new(j as nat, |k: int| None::<u64>),
        {
            el.push(None);
            proof {
                assert(el@ =~= Seq::new((j + 1) as nat, |k: int| None::<u64>));
            }
        }
        self.elapsed = el;
        proof {
            assert(self@.statuses =~= s0.reset_run_state().statuses);
            assert(self@.output_lines =~= Seq::<Seq<char>>::empty());
            assert(self@.check_logs =~= Map::<usize, Seq<Seq<char>>>::empty());
            assert(self@.elapsed =~= s0.reset_run_state().elapsed);
        }
    }

    pub fn rebuild_list_entries(&mut self)
        requires
            old(self)@.lens_ok(),
        ensures
            final(self)@ == old(self)@.rebuild_list_entries(),
            forall|k: int|
                0 <= k < final(self)@.list_entries.len() ==> entry_ok(
                    #[trigger] final(self)@.list_entries[k],
                    final(self)@.groups.len(),
                    final(self)@.checks.len(),
                ),
    {
        let ghost s0 = self@;
        let ghost map = s0.check_group_map;
        let mut entries: Vec<ListEntry> = Vec::new();
        let ng = self.groups.len();
        let nc = self.check_group_map.len();
        for g in 0..ng
            invariant
                ng == s0.groups.len(),
                nc == map.len(),
                map == s0.check_group_map,
                self@ == s0,
                s0.lens_ok(),
                entries@ == entries_upto(map, g as nat),
                forall|k: int|
                    0 <= k < entries@.len() ==> entry_ok(
                        #[trigger] entries@[k],
                        s0.groups.len(),
                        s0.checks.len(),
                    ),
        {
            entries.push(ListEntry::Group { group_idx: g });
            let ghost head = entries@;
            proof {
                assert(map.take(0) =~= Seq::<usize>::empty());
                assert(head + member_entries(map.take(0), g) =~= head);
            }
            for ci in 0..nc
                invariant
                    ng == s0.groups.len(),
                    nc == map.len(),
                    map == s0.check_group_map,
                    self@ == s0,
                    s0.lens_ok(),
                    g < ng,
                    entries@ == head + member_entries(map.take(ci as int), g),
                    forall|k: int|
                        0 <= k < entries@.len() ==> entry_ok(
                            #[trigger] entries@[k],
                            s0.groups.len(),
                            s0.checks.len(),
                        ),
            {
                let ghost before = entries@;
                if self.check_group_map[ci] == g {
                    entries.push(ListEntry::Check { group_idx: g, check_idx: ci });
                }
                proof {
                    let t = map.take(ci + 1);
                    assert(t.drop_last() =~= map.take(ci as int));
                    assert(t.last() == map[ci as int]);
                    assert(entries@ =~= head + member_entries(t, g));
                }
            }
            proof {
                assert(map.take(nc as int) =~= map);
            }
        }
        self.list_entries = entries;
    }

    /// Replace the checks by those of `groups`, all selected and pending,
    /// with no audited pass recorded; the run state is reset and the list
    /// rebuilt. The audited passes on disk are then brought in by
    /// `apply_audited_state`.
    pub fn load_checks_from_groups(&mut self, groups: Vec<Group>)
        requires
            old(self)@.wf(),
        ensures
            final(self)@ == old(self)@.load_checks_from_groups(groups.deep_view()),
            final(self)@.wf(),
    {
        let ghost s0 = self@;
        let ghost gs = groups.deep_view();
        let mut checks: Vec<Check> = Vec::new();
        let mut map: Vec<usize> = Vec::new();
        let ng = groups.len();
        for g in 0..ng
            invariant
                ng == gs.len(),
                gs == groups.deep_view(),
                checks.deep_view() == flat_checks(gs.take(g as int)),
                map@ == flat_group_map(gs.take(g as int)),
                map@.len() == checks@.len(),
                forall|k: int| 0 <= k < map@.len() ==> #[trigger] map@[k] < ng,
        {
            let group = &groups[g];
            let nck = group.checks.len();
            let ghost c0 = checks.deep_view();
            let ghost m0 = map@;
            proof {
                assert(gs[g as int] == group@);
            }
            for c in 0..nck
                invariant
                    ng == gs.len(),
                    g < ng,
                    gs == groups.deep_view(),
                    group@ == gs[g as int],
                    nck == group@.checks.len(),
                    checks.deep_view() == c0 + group@.checks.take(c as int),
                    map@ == m0 + Seq::new(c as nat, |i: int| g),
                    map@.len() == checks@.len(),
                    forall|k: int| 0 <= k < map@.len() ==> #[trigger] map@[k] < ng,
            {
                let item = group.checks[c].clone();
                proof {
                    assert(item@ == group@.checks[c as int]);
                }
                let ghost before = checks.deep_view();
                let ghost iv = item@;
                checks.push(item);
                map.push(g);
                proof {
                    assert(checks.deep_view() =~= before.push(iv));
                    assert(group@.checks.take(c + 1) =~= group@.checks.take(c as int).push(iv));
                    assert(checks.deep_view() =~= c0 + group@.checks.take(c + 1));
                    assert(map@ =~= m0 + Seq::new((c + 1) as nat, |i: int| g));
                }
            }
            proof {
                let t = gs.take(g + 1);
                assert(t.drop_last() =~= gs.take(g as int));
                assert(t.last() == gs[g as int]);
                assert(group@.checks.take(nck as int) =~= group@.checks);
                assert(checks.deep_view() =~= flat_checks(t));
                assert(map@ =~= flat_group_map(t));
            }
        }
        proof {
            assert(gs.take(ng as int) =~= gs);
        }
        let n = checks.len();
        self.checks = checks;
        self.check_group_map = map;
        self.groups = groups;
        let mut sel: Vec<bool> = Vec::new();
        let mut sts: Vec<CheckStatus> = Vec::new();
        let mut el: Vec<Option<u64>> = Vec::new();
        for j in 0..n
            invariant
                sel@ == Seq::new(j as nat, |k: int| true),
                sts@ == Seq::new(j as nat, |k: int| CheckStatus::Pending),
                el@ == Seq::new(j as nat, |k: int| None::<u64>),
        {
            sel.push(true);
            sts.push(CheckStatus::Pending);
            el.push(None);
            proof {
                assert(sel@ =~= Seq::new((j + 1) as nat, |k: int| true));
                assert(sts@ =~= Seq::new((j + 1) as nat, |k: int| CheckStatus::Pending));
                assert(el@ =~= Seq::new((j + 1) as nat, |k: int| None::<u64>));
            }
        }
        self.selected = sel;
        self.statuses = sts;
        self.elapsed = el;
        self.audited_passed.clear();
        proof {
            let n = flat_checks(gs).len();
            assert(self@ == (AppView {
                groups: gs,
                checks: flat_checks(gs),
                check_group_map: flat_group_map(gs),
                selected: Seq::new(n, |i: int| true),
                statuses: Seq::new(n, |i: int| CheckStatus::Pending),
                elapsed: Seq::new(n, |i: int| None),
                audited_passed: Set::empty(),
                ..s0
            }));
            assert(self@.lens_ok());
        }
        self.reset_run_state();
        self.rebuild_list_entries();
    }

    /// Record as passed the audited checks whose pass log exists on disk
    /// (`present`, one flag per check), and reset the run state so that
    /// they show as passed.
    pub fn apply_audited_state(&mut self, present: &Vec<bool>)
        requires
            old(self)@.wf(),
            present@.len() == old(self)@.checks.len(),
        ensures
            final(self)@ == old(self)@.apply_audited_state(present@),
            final(self)@.wf(),
    {
        let ghost s0 = self@;
        self.audited_passed.clear();
        let n = self.checks.len();
        for idx in 0..n
            invariant
                n == s0.checks.len(),
                present@.len() == n,
                self@ == (AppView { audited_passed: self@.audited_passed, ..s0 }),
                self@.audited_passed == Set::new(
                    |i: usize| i < idx && s0.checks[i as int].audited && present@[i as int],
                ),
        {
            if self.checks[idx].audited && present[idx] {
                self.audited_passed.insert(idx);
            }
            proof {
                assert(self@.audited_passed =~= Set::new(
                    |i: usize| i < idx + 1 && s0.checks[i as int].audited && present@[i as int],
                ));
            }
        }
        self.reset_run_state();
    }

    pub fn summary_counts(&self) -> (out: (usize, usize, usize))
        ensures
            (out.0 as nat, out.1 as nat, out.2 as nat) == self@.summary_counts(),
    {
        let n = self.statuses.len();
        let mut passed: usize = 0;
        let mut failed: usize = 0;
        let mut skipped: usize = 0;
        for i in 0..n
            invariant
                n == self@.statuses.len(),
                passed <= i,
                failed <= i,
                skipped <= i,
                passed == count_passed(self@.statuses.take(i as int)),
                failed == count_failed(self@.statuses.take(i as int)),
                skipped == count_skipped(self@.statuses.take(i as int)),
        {
            let st = self.statuses[i];
            proof {
                let t = self@.statuses.take(i + 1);
                assert(t.drop_last() =~= self@.statuses.take(i as int));
                assert(t.last() == st);
            }
            if st == CheckStatus::Passed || st == CheckStatus::ManualPassed {
                passed += 1;
            }
            if st == CheckStatus::Failed || st == CheckStatus::ManualFailed {
                failed += 1;
            }
            if st == CheckStatus::Skipped {
                skipped += 1;
            }
        }
        proof {
            assert(self@.statuses.take(n as int) =~= self@.statuses);
        }
        (passed, failed, skipped)
    }

    pub fn group_status_icon(&self, group_idx: usize) -> (r: &'static str)
        requires
            self@.lens_ok(),
        ensures
            r@ == self@.group_status_icon(group_idx),
    {
        let ghost s = self@;
        let n = self.check_group_map.len();
        let mut any_running = false;
        let mut any_failed = false;
        let mut all_done = true;
        let mut any_passed = false;
        for i in 0..n
            invariant
                n == s.check_group_map.len(),
                s == self@,
                s.lens_ok(),
                any_running <==> exists|k: int|
                    #[trigger] s.in_group(group_idx, k) && k < i && s.statuses[k]
                        == CheckStatus::Running,
                any_failed <==> exists|k: int|
                    #[trigger] s.in_group(group_idx, k) && k < i && is_fail(s.statuses[k]),
                all_done <==> forall|k: int|
                    #[trigger] s.in_group(group_idx, k) && k < i ==> !s.selected[k] || is_pass(
                        s.statuses[k],
                    ) || s.statuses[k] == CheckStatus::Skipped,
                any_passed <==> exists|k: int|
                    #[trigger] s.in_group(group_idx, k) && k < i && s.selected[k] && is_pass(
                        s.statuses[k],
                    ),
        {
            if self.check_group_map[i] == group_idx {
                proof {
                    assert(s.in_group(group_idx, i as int));
                }
                let st = self.statuses[i];
                let sel = self.selected[i];
                let pass = st == CheckStatus::Passed || st == CheckStatus::ManualPassed;
                if st == CheckStatus::Running {
                    any_running = true;
                }
                if st == CheckStatus::Failed || st == CheckStatus::ManualFailed {
                    any_failed = true;
                }
                if !(!sel || pass || st == CheckStatus::Skipped) {
                    all_done = false;
                }
                if sel && pass {
                    any_passed = true;
                }
            }
        }
        if any_running {
            return "◐";
        }
        if any_failed {
            return "✗";
        }
        if all_done && any_passed {
            return "✓";
        }
        "○"
    }

    /// Mark the checks that will not run as skipped, clear the output and
    /// enter the running mode; `true` when there is a check to run (the
    /// caller then starts the run), `false` and no change otherwise.
    pub fn start_running(&mut self) -> (started: bool)
        requires
            old(self)@.lens_ok(),
        ensures
            started == old(self)@.has_runnable(),
            final(self)@ == old(self)@.start_running(),
    {
        let ghost s0 = self@;
        let n = self.checks.len();
        let mut found = false;
        for i in 0..n
            invariant
                n == s0.checks.len(),
                self@ == s0,
                s0.lens_ok(),
                found <==> exists|k: int| 0 <= k < i && s0.selected[k] && !s0.is_locked(k),
        {
            if self.selected[i] && !self.is_audited_locked(i) {
                found = true;
            }
        }
        if !found {
            return false;
        }
        for i in 0..n
            invariant
                n == s0.checks.len(),
                s0.lens_ok(),
                self@ == (AppView { statuses: self@.statuses, ..s0 }),
                self@.statuses.len() == n,
                forall|k: int|
                    0 <= k < n ==> #[trigger] self@.statuses[k] == if k < i && (!s0.selected[k]
                        || s0.is_locked(k)) {
                        CheckStatus::Skipped
                    } else {
                        s0.statuses[k]
                    },
        {
            if !self.selected[i] || self.is_audited_locked(i) {
                self.statuses.set(i, CheckStatus::Skipped);
            }
        }
        self.output_lines.clear();
        self.check_logs.clear();
        self.output_scroll = 0;
        self.mode = AppMode::Running { idx: 0 };
        proof {
            assert(self@.statuses =~= s0.start_running().statuses);
            assert(self@.output_lines =~= Seq::<Seq<char>>::empty());
            assert(self@.check_logs =~= Map::<usize, Seq<Seq<char>>>::empty());
        }
        true
    }

    pub fn finish_run(&mut self)
        ensures
            final(self)@ == old(self)@.finish_run(),
    {
        self.mode = AppMode::Done;
    }

    /// Back to selecting, with the run state reset. (The caller first
    /// cancels a run in progress.)
    pub fn reset_to_selecting(&mut self)
        requires
            old(self)@.lens_ok(),
        ensures
            final(self)@ == old(self)@.reset_to_selecting(),
    {
        self.reset_run_state();
        self.mode = AppMode::Selecting;
    }

    /// Forget every audited pass and go back to selecting. (The caller then
    /// creates the audit folder, as saving the audited state does.)
    pub fn reset_audited(&mut self)
        requires
            old(self)@.lens_ok(),
        ensures
            final(self)@ == old(self)@.reset_audited(),
    {
        self.audited_passed.clear();
        self.reset_to_selecting();
    }

    /// Reset the run state and start again; `true` when a run is to start.
    pub fn rerun(&mut self) -> (started: bool)
        requires
            old(self)@.lens_ok(),
        ensures
            started == old(self)@.reset_run_state().has_runnable(),
            final(self)@ == old(self)@.rerun(),
    {
        self.reset_run_state();
        self.start_running()
    }
}


// ── Files that the runner writes ──────────────────────────────────────────

/// A file to write: its folder is created first, then `content` is written
/// at `path`.
#[derive(Debug)]
pub struct FileWrite {
    pub dir: String,
    pub path: String,
    pub content: String,
}

/// A file to write, as character sequences.
pub struct FileWriteView {
    pub dir: Seq<char>,
    pub path: Seq<char>,
    pub content: Seq<char>,
}

impl View for FileWrite {
    type V = FileWriteView;

    open spec fn view(&self) -> FileWriteView {
        FileWriteView { dir: self.dir@, path: self.path@, content: self.content@ }
    }
}

impl DeepView for FileWrite {
    type V = FileWriteView;

    open spec fn deep_view(&self) -> FileWriteView {
        self@
    }
}

/// What the run does next after a manual verdict.
#[derive(Debug, Clone, Copy, PartialEq, Eq, Structural)]
pub enum RunStep {
    /// Nothing: no verdict was awaited.
    Idle,
    /// Run the selected checks from this index on.
    RunFrom(usize),
    /// The run is over: write the logs and the audit folder.
    Finish,
}

/// What a verdict on a manual check gives: the audit file to write, if any, and what
/// the run does next.
pub struct ManualOutcome {
    pub audit_write: Option<FileWrite>,
    pub step: RunStep,
}

impl AppView {
    /// The folder of audit logs: the trimmed log folder (or the dedicated
    /// `.autocheck_audited` folder when it is blank) below the repository root.
    pub open spec fn audit_dir(self) -> Seq<char> {
        let t = trimmed(self.setup_log_folder);
        path_join(self.repo_root, if t.len() == 0 { ".autocheck_audited"@ } else { t })
    }

    /// The audit log of check `idx`: `<group>_<check>.log` in the audit
    /// folder, both names lower-cased with spaces and slashes made `_`.
    pub open spec fn audit_log_path(self, idx: int) -> Seq<char> {
        let label = lowercase(underscored(self.groups[self.check_group_map[idx] as int].label));
        let name = lowercase(underscored(self.checks[idx].name));
        path_join(self.audit_dir(), label + "_"@ + name + ".log"@)
    }

    /// The log lines of check `idx`, each followed by a newline.
    pub open spec fn check_log_text(self, idx: int) -> Seq<char> {
        if self.check_logs.contains_key(idx as usize) {
            lines_text(self.check_logs[idx as usize])
        } else {
            Seq::empty()
        }
    }

    /// The audit record of check `idx`: its name, its status and its log.
    pub open spec fn audit_record(self, idx: int) -> Seq<char> {
        "check="@ + self.checks[idx].name + "\nstatus="@ + status_name(self.statuses[idx]) + "\n"@
            + self.check_log_text(idx)
    }

    /// An audited check's pass is recorded; other checks change nothing.
    pub open spec fn record_audited_pass(self, idx: int) -> AppView {
        if self.checks[idx].audited {
            AppView { audited_passed: self.audited_passed.insert(idx as usize), ..self }
        } else {
            self
        }
    }

    /// The audit file that recording the pass of check `idx` writes.
    pub open spec fn audit_write(self, idx: int) -> Option<FileWriteView> {
        if self.checks[idx].audited {
            Some(
                FileWriteView {
                    dir: self.audit_dir(),
                    path: self.audit_log_path(idx),
                    content: self.audit_record(idx),
                },
            )
        } else {
            None
        }
    }

    /// The first check from `j` on that a run executes.
    pub open spec fn first_runnable_from(self, j: int) -> Option<usize>
        decreases self.checks.len() - j,
    {
        if j < 0 || j >= self.checks.len() {
            None
        } else if self.selected[j] && !self.is_locked(j) {
            Some(j as usize)
        } else {
            self.first_runnable_from(j + 1)
        }
    }

    /// After the verdict on check `idx`: run from the next check to run, or
    /// finish the run when there is none.
    pub open spec fn continue_after_manual(self, idx: int) -> (AppView, RunStep) {
        match self.first_runnable_from(idx + 1) {
            Some(next) => (AppView { mode: AppMode::Running { idx: next }, ..self }, RunStep::RunFrom(next)),
            None => (self.finish_run(), RunStep::Finish),
        }
    }

    /// The verdict line of a manual check.
    pub open spec fn verdict_line(self, idx: int, pass: bool) -> Seq<char> {
        "[manual] "@ + self.checks[idx].name + if pass {
            " — PASSED"@
        } else {
            " — FAILED"@
        }
    }

    /// Check `idx`'s log with `line` added at its end.
    pub open spec fn log_appended(self, idx: usize, line: Seq<char>) -> Map<usize, Seq<Seq<char>>> {
        let old_log = if self.check_logs.contains_key(idx) {
            self.check_logs[idx]
        } else {
            Seq::empty()
        };
        self.check_logs.insert(idx, old_log.push(line))
    }

    /// A manual verdict when one is awaited: the status set, the verdict line
    /// added to the check's log and to the output, a pass recorded when the
    /// check is audited, and the run goes on. When no verdict is awaited,
    /// nothing changes.
    pub open spec fn manual_verdict(self, pass: bool) -> (AppView, Option<FileWriteView>, RunStep) {
        match self.mode {
            AppMode::AwaitingManualResult { idx } => {
                let line = self.verdict_line(idx as int, pass);
                let s1 = AppView {
                    statuses: self.statuses.update(
                        idx as int,
                        if pass {
                            CheckStatus::ManualPassed
                        } else {
                            CheckStatus::ManualFailed
                        },
                    ),
                    check_logs: self.log_appended(idx, line),
                    output_lines: self.output_lines.push(line),
                    ..self
                };
                let (s2, w) = if pass {
                    (s1.record_audited_pass(idx as int), s1.audit_write(idx as int))
                } else {
                    (s1, None)
                };
                let (s3, step) = s2.continue_after_manual(idx as int);
                (s3, w, step)
            },
            _ => (self, None, RunStep::Idle),
        }
    }

    /// Under the cursor, an audited check loses its recorded pass and shows
    /// pending again; `true` then (the audit folder is saved).
    pub open spec fn reset_current_audited(self) -> (AppView, bool) {
        if self.list_cursor < self.list_entries.len() {
            match self.list_entries[self.list_cursor as int] {
                ListEntry::Check { check_idx, .. } => if self.checks[check_idx as int].audited {
                    (
                        AppView {
                            audited_passed: self.audited_passed.remove(check_idx),
                            statuses: self.statuses.update(check_idx as int, CheckStatus::Pending),
                            ..self
                        },
                        true,
                    )
                } else {
                    (self, false)
                },
                _ => (self, false),
            }
        } else {
            (self, false)
        }
    }

    /// The header of both run logs: the branch and the staged files.
    pub open spec fn log_header(self) -> Seq<char> {
        "Branch: "@ + self.current_branch + "\nStaged files: "@ + if self.staged_files.len() == 0 {
            "(none)"@
        } else {
            join_with(self.staged_files, ", "@)
        } + "\n---\n"@
    }

    /// The sections of the first `n` checks in the full run log.
    pub open spec fn run_sections(self, n: nat) -> Seq<char>
        decreases n,
    {
        if n == 0 {
            Seq::empty()
        } else {
            let i = n - 1;
            self.run_sections((n - 1) as nat) + "\n## "@ + self.checks[i].name + " — "@ + status_name(
                self.statuses[i],
            ) + "\n"@ + self.check_log_text(i)
        }
    }

    /// The text of `last_run.log`.
    pub open spec fn run_log_text(self) -> Seq<char> {
        self.log_header() + self.run_sections(self.checks.len())
    }

    /// The sections of the failed checks among the first `n`.
    pub open spec fn failed_sections(self, n: nat) -> Seq<char>
        decreases n,
    {
        if n == 0 {
            Seq::empty()
        } else {
            let i = n - 1;
            self.failed_sections((n - 1) as nat) + if is_fail(self.statuses[i]) {
                "\n## "@ + self.checks[i].name + " — FAILED\n"@ + self.check_log_text(i)
            } else {
                Seq::empty()
            }
        }
    }

    /// Whether some check failed.
    pub open spec fn has_failures(self) -> bool {
        exists|i: int| 0 <= i < self.checks.len() && is_fail(self.statuses[i])
    }

    /// The text of the failed-checks log: the header, then each failed
    /// check's section (the header alone when no check failed).
    pub open spec fn failed_log_text(self) -> Seq<char> {
        self.log_header() + self.failed_sections(self.checks.len())
    }
}

/// The audit log `<label>_<name>.log` in folder `dir`, from the group label
/// and the check name as they are spelled in the file name.
pub fn audit_file_path(dir: &str, label: &str, name: &str) -> (out: String)
    ensures
        out@ == path_join(dir@, label@ + "_"@ + name@ + ".log"@),
{
    let mut file = String::from_str(label);
    file.append("_");
    file.append(name);
    file.append(".log");
    join_path(dir, file.as_str())
}

impl App {
    /// The folder of audit logs.
    pub fn audited_state_path(&self) -> (out: String)
        ensures
            out@ == self@.audit_dir(),
    {
        let t = trim_chars(&chars_of(self.setup_log_folder.as_str()));
        if t.len() == 0 {
            join_path(self.repo_root.as_str(), ".autocheck_audited")
        } else {
            join_path(self.repo_root.as_str(), string_of(&t).as_str())
        }
    }

    /// The audit log file of check `idx`.
    pub fn audited_log_path(&self, idx: usize) -> (out: String)
        requires
            self@.lens_ok(),
            idx < self@.checks.len(),
        ensures
            out@ == self@.audit_log_path(idx as int),
    {
        let g = self.check_group_map[idx];
        let label = to_lowercase(underscore_separators(self.groups[g].label.as_str()).as_str());
        let name = to_lowercase(underscore_separators(self.checks[idx].name.as_str()).as_str());
        audit_file_path(self.audited_state_path().as_str(), label.as_str(), name.as_str())
    }

    /// Append the log lines of check `idx` to `out`.
    fn append_check_log(&self, out: &mut String, idx: usize)
        ensures
            final(out)@ == old(out)@ + self@.check_log_text(idx as int),
    {
        match self.check_logs.get(&idx) {
            Some(log) => {
                append_lines(out, log);
            },
            None => {
                proof {
                    assert(old(out)@ + Seq::<char>::empty() =~= old(out)@);
                }
            },
        }
    }

    /// Record the pass of check `idx` when it is audited, and give the audit
    /// file to write; nothing for a check that is not audited.
    pub fn record_audited_pass(&mut self, idx: usize) -> (out: Option<FileWrite>)
        requires
            old(self)@.lens_ok(),
            idx < old(self)@.checks.len(),
        ensures
            final(self)@ == old(self)@.record_audited_pass(idx as int),
            match out {
                Some(w) => old(self)@.audit_write(idx as int) == Some(w@),
                None => old(self)@.audit_write(idx as int) is None,
            },
    {
        if !self.checks[idx].audited {
            return None;
        }
        let dir = self.audited_state_path();
        let mut content = String::from_str("check=");
        content.append(self.checks[idx].name.as_str());
        content.append("\nstatus=");
        content.append(self.statuses[idx].name());
        content.append("\n");
        self.append_check_log(&mut content, idx);
        let path = self.audited_log_path(idx);
        self.audited_passed.insert(idx);
        Some(FileWrite { dir, path, content })
    }

    /// Forget the recorded pass of the audited check under the cursor, which
    /// shows pending again; `true` when the audit folder is to be saved.
    pub fn reset_current_audited(&mut self) -> (save: bool)
        requires
            old(self)@.wf(),
        ensures
            (final(self)@, save) == old(self)@.reset_current_audited(),
    {
        if self.list_cursor < self.list_entries.len() {
            let e = self.list_entries[self.list_cursor];
            proof {
                assert(self@.list_entries[self.list_cursor as int] == e);
                assert(entry_ok(e, self@.groups.len(), self@.checks.len()));
            }
            if let ListEntry::Check { check_idx, .. } = e {
                if self.checks[check_idx].audited {
                    self.audited_passed.remove(&check_idx);
                    self.statuses.set(check_idx, CheckStatus::Pending);
                    return true;
                }
            }
        }
        false
    }

    /// The file of the full run log: `last_run.log` in the repository root.
    pub fn run_log_path(&self) -> (out: String)
        ensures
            out@ == path_join(self@.repo_root, "last_run.log"@),
    {
        join_path(self.repo_root.as_str(), "last_run.log")
    }

    /// The file of the failed-checks log: the one that the config names
    /// (`configured`), else `last_failed.log`, in the repository root.
    pub fn failed_log_path(&self, configured: Option<String>) -> (out: String)
        ensures
            out@ == path_join(
                self@.repo_root,
                match configured {
                    Some(p) => p@,
                    None => "last_failed.log"@,
                },
            ),
    {
        match configured {
            Some(p) => join_path(self.repo_root.as_str(), p.as_str()),
            None => join_path(self.repo_root.as_str(), "last_failed.log"),
        }
    }

    /// The text of `last_run.log`.
    pub fn run_log_content(&self) -> (out: String)
        requires
            self@.lens_ok(),
        ensures
            out@ == self@.run_log_text(),
    {
        let mut out = self.log_header();
        let ghost h = out@;
        for i in 0..self.checks.len()
            invariant
                self@.lens_ok(),
                out@ == h + self@.run_sections(i as nat),
        {
            out.append("\n## ");
            out.append(self.checks[i].name.as_str());
            out.append(" — ");
            out.append(self.statuses[i].name());
            out.append("\n");
            self.append_check_log(&mut out, i);
        }
        out
    }

    /// The text of the failed-checks log (empty when no check failed).
    pub fn failed_log_content(&self) -> (out: String)
        requires
            self@.lens_ok(),
        ensures
            out@ == self@.failed_log_text(),
    {
        let mut out = self.log_header();
        let ghost h = out@;
        for i in 0..self.checks.len()
            invariant
                self@.lens_ok(),
                out@ == h + self@.failed_sections(i as nat),
        {
            let st = self.statuses[i];
            if st == CheckStatus::Failed || st == CheckStatus::ManualFailed {
                out.append("\n## ");
                out.append(self.checks[i].name.as_str());
                out.append(" — FAILED\n");
                self.append_check_log(&mut out, i);
            } else {
                proof {
                    assert(out@ + Seq::<char>::empty() =~= out@);
                }
            }
        }
        out
    }

    fn log_header(&self) -> (out: String)
        ensures
            out@ == self@.log_header(),
    {
        let mut out = String::from_str("Branch: ");
        out.append(self.current_branch.as_str());
        out.append("\nStaged files: ");
        if self.staged_files.len() == 0 {
            out.append("(none)");
        } else {
            out.append(join_strings(&self.staged_files, ", ").as_str());
        }
        out.append("\n---\n");
        out
    }

    fn continue_after_manual(&mut self, done_idx: usize) -> (step: RunStep)
        requires
            old(self)@.lens_ok(),
            done_idx < old(self)@.checks.len(),
        ensures
            (final(self)@, step) == old(self)@.continue_after_manual(done_idx as int),
    {
        let ghost s0 = self@;
        let n = self.checks.len();
        let mut j = done_idx + 1;
        while j < n
            invariant
                self@ == s0,
                s0 == old(self)@,
                s0.lens_ok(),
                n == s0.checks.len(),
                done_idx + 1 <= j <= n,
                s0.first_runnable_from(done_idx + 1) == s0.first_runnable_from(j as int),
            decreases n - j,
        {
            if self.selected[j] && !self.is_audited_locked(j) {
                proof {
                    assert(s0.first_runnable_from(j as int) == Some(j));
                }
                self.mode = AppMode::Running { idx: j };
                proof {
                    assert(self@ == (AppView { mode: AppMode::Running { idx: j }, ..s0 }));
                    assert(s0.continue_after_manual(done_idx as int) == (
                    AppView { mode: AppMode::Running { idx: j }, ..s0 },
                    RunStep::RunFrom(j),
                    ));
                }
                return RunStep::RunFrom(j);
            }
            j += 1;
        }
        proof {
            assert(s0.first_runnable_from(j as int) is None);
        }
        self.finish_run();
        RunStep::Finish
    }

    /// Give the awaited manual check its verdict (`pass`), then go on with
    /// the run; nothing when no verdict is awaited.
    fn manual_verdict(&mut self, pass: bool) -> (out: ManualOutcome)
        requires
            old(self)@.lens_ok(),
            old(self)@.mode matches AppMode::AwaitingManualResult { idx } ==> idx < old(
                self,
            )@.checks.len(),
        ensures
            ({
                let (s, w, step) = old(self)@.manual_verdict(pass);
                &&& final(self)@ == s
                &&& out.step == step
                &&& match out.audit_write {
                    Some(x) => w == Some(x@),
                    None => w is None,
                }
            }),
    {
        match self.mode {
            AppMode::AwaitingManualResult { idx } => {
                let ghost s0 = self@;
                self.statuses.set(
                    idx,
                    if pass {
                        CheckStatus::ManualPassed
                    } else {
                        CheckStatus::ManualFailed
                    },
                );
                let mut line = String::from_str("[manual] ");
                line.append(self.checks[idx].name.as_str());
                if pass {
                    line.append(" — PASSED");
                } else {
                    line.append(" — FAILED");
                }
                let ghost old_log = if s0.check_logs.contains_key(idx) {
                    s0.check_logs[idx]
                } else {
                    Seq::<Seq<char>>::empty()
                };
                let mut log = match self.check_logs.remove(&idx) {
                    Some(v) => v,
                    None => Vec::new(),
                };
                proof {
                    assert(log.deep_view() =~= old_log);
                }
                let ghost lv = line@;
                log.push(line.clone());
                proof {
                    assert(log.deep_view() =~= old_log.push(lv));
                }
                self.check_logs.insert(idx, log);
                self.output_lines.push(line);
                proof {
                    assert(self@.check_logs =~= s0.log_appended(idx, s0.verdict_line(idx as int, pass)));
                    assert(self@.output_lines =~= s0.output_lines.push(s0.verdict_line(idx as int, pass)));
                }
                let audit_write = if pass {
                    self.record_audited_pass(idx)
                } else {
                    None
                };
                let step = self.continue_after_manual(idx);
                ManualOutcome { audit_write, step }
            },
            _ => ManualOutcome { audit_write: None, step: RunStep::Idle },
        }
    }

    /// Mark the awaited manual check as passed and go on with the run.
    pub fn manual_pass(&mut self) -> (out: ManualOutcome)
        requires
            old(self)@.lens_ok(),
            old(self)@.mode matches AppMode::AwaitingManualResult { idx } ==> idx < old(
                self,
            )@.checks.len(),
        ensures
            ({
                let (s, w, step) = old(self)@.manual_verdict(true);
                &&& final(self)@ == s
                &&& out.step == step
                &&& match out.audit_write {
                    Some(x) => w == Some(x@),
                    None => w is None,
                }
            }),
    {
        self.manual_verdict(true)
    }

    /// Mark the awaited manual check as failed and go on with the run.
    pub fn manual_fail(&mut self) -> (out: ManualOutcome)
        requires
            old(self)@.lens_ok(),
            old(self)@.mode matches AppMode::AwaitingManualResult { idx } ==> idx < old(
                self,
            )@.checks.len(),
        ensures
            ({
                let (s, w, step) = old(self)@.manual_verdict(false);
                &&& final(self)@ == s
                &&& out.step == step
                &&& w is None
                &&& out.audit_write is None
            }),
    {
        self.manual_verdict(false)
    }
}


// ── Receiving a run's messages ────────────────────────────────────────────

/// The status that a status message names; an unknown name means pending.
pub open spec fn status_from_name(v: Seq<char>) -> CheckStatus {
    if v == "Running"@ {
        CheckStatus::Running
    } else if v == "Passed"@ {
        CheckStatus::Passed
    } else if v == "Failed"@ {
        CheckStatus::Failed
    } else if v == "Skipped"@ {
        CheckStatus::Skipped
    } else {
        CheckStatus::Pending
    }
}

/// The status that a status message names.
pub fn status_from_str(v: &str) -> (r: CheckStatus)
    ensures
        r == status_from_name(v@),
{
    if str_equal(v, "Running") {
        CheckStatus::Running
    } else if str_equal(v, "Passed") {
        CheckStatus::Passed
    } else if str_equal(v, "Failed") {
        CheckStatus::Failed
    } else if str_equal(v, "Skipped") {
        CheckStatus::Skipped
    } else {
        CheckStatus::Pending
    }
}

/// What receiving messages has gathered so far: the state, the last check
/// that asks for a manual verdict, whether the run said it is done, and the
/// audit files to write.
pub struct PollState {
    pub app: AppView,
    pub manual: Option<usize>,
    pub done: bool,
    pub writes: Seq<FileWriteView>,
}

/// Whether a message names only checks that exist, where it changes one.
pub open spec fn message_fits(m: Option<RunMessageView>, n: nat) -> bool {
    match m {
        Some(RunMessageView::Status { idx, .. }) => idx < n,
        Some(RunMessageView::Elapsed { idx, .. }) => idx < n,
        Some(RunMessageView::AuditedPass { idx }) => idx < n,
        _ => true,
    }
}

/// The file that `w` names, as a sequence of zero or one files.
pub open spec fn opt_write(w: Option<FileWriteView>) -> Seq<FileWriteView> {
    match w {
        Some(x) => seq![x],
        None => Seq::empty(),
    }
}

impl AppView {
    /// A line added to the output; the scroll follows the end of the output
    /// when it was near it (within the pane's height and two lines).
    pub open spec fn push_output(self, line: Seq<char>) -> AppView {
        let lines = self.output_lines.push(line);
        let tail = lines.len() - 1;
        AppView {
            output_lines: lines,
            output_scroll: if self.output_scroll + self.output_pane_height + 2 >= tail {
                tail as usize
            } else {
                self.output_scroll
            },
            ..self
        }
    }
}

/// What one received text does.
pub open spec fn poll_step(st: PollState, m: Seq<char>) -> PollState {
    match decode_message(m) {
        None => st,
        Some(RunMessageView::Out { line }) => PollState { app: st.app.push_output(line), ..st },
        Some(RunMessageView::Log { idx, line }) => PollState {
            app: AppView { check_logs: st.app.log_appended(idx, line), ..st.app },
            ..st
        },
        Some(RunMessageView::Status { idx, value }) => PollState {
            app: AppView {
                statuses: st.app.statuses.update(idx as int, status_from_name(value)),
                mode: if st.app.mode is Running {
                    AppMode::Running { idx }
                } else {
                    st.app.mode
                },
                ..st.app
            },
            ..st
        },
        Some(RunMessageView::Elapsed { idx, ms }) => PollState {
            app: AppView { elapsed: st.app.elapsed.update(idx as int, Some(ms)), ..st.app },
            ..st
        },
        Some(RunMessageView::Manual { idx }) => PollState { manual: Some(idx), ..st },
        Some(RunMessageView::AuditedPass { idx }) => PollState {
            app: st.app.record_audited_pass(idx as int),
            writes: st.writes + opt_write(st.app.audit_write(idx as int)),
            ..st
        },
        Some(RunMessageView::Done) => PollState { done: true, ..st },
    }
}

/// What the received texts do, in order.
pub open spec fn poll_fold(st: PollState, msgs: Seq<Seq<char>>) -> PollState
    decreases msgs.len(),
{
    if msgs.len() == 0 {
        st
    } else {
        poll_step(poll_fold(st, msgs.drop_last()), msgs.last())
    }
}

impl AppView {
    /// Receiving the texts `msgs`: each is applied in order; then a manual
    /// prompt puts the runner in wait of a verdict, or else the end of the
    /// run finishes it (`true`). The audit files to write come last.
    pub open spec fn poll_log(self, msgs: Seq<Seq<char>>) -> (AppView, bool, Seq<FileWriteView>) {
        let st = poll_fold(
            PollState { app: self, manual: None, done: false, writes: Seq::empty() },
            msgs,
        );
        match st.manual {
            Some(idx) => (AppView { mode: AppMode::AwaitingManualResult { idx }, ..st.app }, false, st.writes),
            None => if st.done {
                (st.app.finish_run(), true, st.writes)
            } else {
                (st.app, false, st.writes)
            },
        }
    }
}

/// What receiving messages leaves to do: the audit files to write, and
/// whether the run finished (its logs are then written).
pub struct PollOutcome {
    pub writes: Vec<FileWrite>,
    pub finished: bool,
}

impl App {
    /// Add `line` at the end of the log of check `idx`.
    fn append_log(&mut self, idx: usize, line: String)
        ensures
            final(self)@ == (AppView { check_logs: old(self)@.log_appended(idx, line@), ..old(self)@ }),
    {
        let ghost s0 = self@;
        let ghost old_log = if s0.check_logs.contains_key(idx) {
            s0.check_logs[idx]
        } else {
            Seq::<Seq<char>>::empty()
        };
        let mut log = match self.check_logs.remove(&idx) {
            Some(v) => v,
            None => Vec::new(),
        };
        proof {
            assert(log.deep_view() =~= old_log);
        }
        let ghost lv = line@;
        log.push(line);
        proof {
            assert(log.deep_view() =~= old_log.push(lv));
        }
        self.check_logs.insert(idx, log);
        proof {
            assert(self@.check_logs =~= s0.log_appended(idx, lv));
        }
    }

    /// Apply the messages that a run has sent (their texts, in order).
    pub fn poll_log(&mut self, messages: &Vec<String>) -> (out: PollOutcome)
        requires
            old(self)@.lens_ok(),
            forall|k: int|
                0 <= k < messages@.len() ==> message_fits(
                    decode_message(#[trigger] messages@[k]@),
                    old(self)@.checks.len(),
                ),
            old(self).output_scroll + 65537 <= usize::MAX,
            old(self)@.output_lines.len() + messages@.len() + 65537 <= usize::MAX,
        ensures
            ({
                let (s, finished, writes) = old(self)@.poll_log(messages.deep_view());
                &&& final(self)@ == s
                &&& out.finished == finished
                &&& out.writes.deep_view() == writes
            }),
    {
        let ghost s0 = self@;
        let ghost init = PollState { app: s0, manual: None, done: false, writes: Seq::empty() };
        let mut manual: Option<usize> = None;
        let mut done = false;
        let mut writes: Vec<FileWrite> = Vec::new();
        let n = messages.len();
        proof {
            assert(messages.deep_view().take(0) =~= Seq::<Seq<char>>::empty());
            assert(writes.deep_view() =~= Seq::<FileWriteView>::empty());
        }
        for i in 0..n
            invariant
                n == messages@.len(),
                forall|k: int|
                    0 <= k < messages@.len() ==> message_fits(
                        decode_message(#[trigger] messages@[k]@),
                        s0.checks.len(),
                    ),
                (PollState { app: self@, manual, done, writes: writes.deep_view() }) == poll_fold(
                    init,
                    messages.deep_view().take(i as int),
                ),
                self@.lens_ok(),
                self@.checks == s0.checks,
                self.output_scroll + 65537 <= usize::MAX,
                self@.output_lines.len() + (n - i) + 65537 <= usize::MAX,
        {
            let ghost st0 = PollState { app: self@, manual, done, writes: writes.deep_view() };
            proof {
                let t = messages.deep_view().take(i + 1);
                assert(t.drop_last() =~= messages.deep_view().take(i as int));
                assert(t.last() == messages@[i as int]@);
                assert(message_fits(decode_message(messages@[i as int]@), s0.checks.len()));
            }
            match RunMessage::decode(messages[i].as_str()) {
                None => {},
                Some(RunMessage::Out { line }) => {
                    let ghost lv = line@;
                    self.output_lines.push(line);
                    let tail = self.output_lines.len() - 1;
                    if self.output_scroll + (self.output_pane_height as usize) + 2 >= tail {
                        self.output_scroll = tail;
                    }
                    proof {
                        assert(self@.output_lines =~= st0.app.output_lines.push(lv));
                        assert(self@ == st0.app.push_output(lv));
                    }
                },
                Some(RunMessage::Log { idx, line }) => {
                    self.append_log(idx, line);
                },
                Some(RunMessage::Status { idx, value }) => {
                    let st = status_from_str(value.as_str());
                    self.statuses.set(idx, st);
                    if let AppMode::Running { .. } = self.mode {
                        self.mode = AppMode::Running { idx };
                    }
                    proof {
                        assert(self@.statuses =~= st0.app.statuses.update(idx as int, st));
                    }
                },
                Some(RunMessage::Elapsed { idx, ms }) => {
                    self.elapsed.set(idx, Some(ms));
                    proof {
                        assert(self@.elapsed =~= st0.app.elapsed.update(idx as int, Some(ms)));
                    }
                },
                Some(RunMessage::Manual { idx }) => {
                    manual = Some(idx);
                },
                Some(RunMessage::AuditedPass { idx }) => {
                    let ghost w0 = writes.deep_view();
                    match self.record_audited_pass(idx) {
                        Some(w) => {
                            writes.push(w);
                            proof {
                                assert(writes.deep_view() =~= w0 + opt_write(st0.app.audit_write(idx as int)));
                            }
                        },
                        None => {
                            proof {
                                assert(writes.deep_view() =~= w0 + opt_write(st0.app.audit_write(idx as int)));
                            }
                        },
                    }
                },
                Some(RunMessage::Done) => {
                    done = true;
                },
            }
            proof {
                assert(PollState { app: self@, manual, done, writes: writes.deep_view() } == poll_step(
                    st0,
                    messages@[i as int]@,
                ));
            }
        }
        proof {
            assert(messages.deep_view().take(n as int) =~= messages.deep_view());
        }
        match manual {
            Some(idx) => {
                self.mode = AppMode::AwaitingManualResult { idx };
                PollOutcome { writes, finished: false }
            },
            None => {
                if done {
                    self.finish_run();
                    PollOutcome { writes, finished: true }
                } else {
                    PollOutcome { writes, finished: false }
                }
            },
        }
    }
}


// ── Setup screen ──────────────────────────────────────────────────────────

/// The view of a loaded config, or of the reason it could not be loaded.
pub open spec fn loaded_view(r: Result<ChecksConfig, String>) -> Result<ChecksConfigView, Seq<char>> {
    match r {
        Ok(c) => Ok(c@),
        Err(e) => Err(e@),
    }
}

/// Whether every character of `s` is an ASCII digit (true of the empty
/// text).
pub open spec fn all_ascii_digits(s: Seq<char>) -> bool {
    forall|i: int| 0 <= i < s.len() ==> '0' <= #[trigger] s[i] && s[i] <= '9'
}

/// The git arguments that check out `branch`: a number is a pull request,
/// fetched as the local branch `pr-<n>`; anything else is switched to.
pub open spec fn checkout_args_of(branch: Seq<char>) -> (Seq<Seq<char>>, bool) {
    if all_ascii_digits(branch) {
        (seq!["fetch"@, "origin"@, "pull/"@ + branch + "/head:pr-"@ + branch], true)
    } else {
        (seq!["switch"@, branch], false)
    }
}

/// The git arguments that switch to the local branch of pull request
/// `branch`.
pub open spec fn pr_switch_args_of(branch: Seq<char>) -> Seq<Seq<char>> {
    seq!["switch"@, "pr-"@ + branch]
}

/// The git arguments that check out `branch`, and whether it names a pull
/// request.
pub fn checkout_args(branch: &str) -> (out: (Vec<String>, bool))
    ensures
        (out.0.deep_view(), out.1) == checkout_args_of(branch@),
{
    let cs = chars_of(branch);
    let mut is_pr = true;
    for i in 0..cs.len()
        invariant
            cs@ == branch@,
            is_pr <==> forall|k: int| 0 <= k < i ==> '0' <= #[trigger] cs@[k] && cs@[k] <= '9',
    {
        if !('0' <= cs[i] && cs[i] <= '9') {
            is_pr = false;
        }
    }
    let mut args: Vec<String> = Vec::new();
    if is_pr {
        args.push(String::from_str("fetch"));
        args.push(String::from_str("origin"));
        let mut r = String::from_str("pull/");
        r.append(branch);
        r.append("/head:pr-");
        r.append(branch);
        args.push(r);
    } else {
        args.push(String::from_str("switch"));
        args.push(String::from_str(branch));
    }
    proof {
        assert(args.deep_view() =~= checkout_args_of(branch@).0);
    }
    (args, is_pr)
}

/// The git arguments that switch to the local branch of pull request
/// `branch`.
pub fn pr_switch_args(branch: &str) -> (out: Vec<String>)
    ensures
        out.deep_view() == pr_switch_args_of(branch@),
{
    let mut args: Vec<String> = Vec::new();
    args.push(String::from_str("switch"));
    let mut r = String::from_str("pr-");
    r.append(branch);
    args.push(r);
    proof {
        assert(args.deep_view() =~= pr_switch_args_of(branch@));
    }
    args
}

/// The output of a git command as plain values: its standard output and
/// whether it succeeded; `None` when git could not be run there.
pub open spec fn git_output_view(o: Option<(String, bool)>) -> Option<(Seq<char>, bool)> {
    match o {
        Some((text, ok)) => Some((text@, ok)),
        None => None,
    }
}

/// The branch that `git rev-parse --abbrev-ref HEAD` names: its trimmed
/// output when it ran and succeeded, `?` otherwise.
pub open spec fn branch_of(o: Option<(Seq<char>, bool)>) -> Seq<char> {
    match o {
        Some((text, true)) => trimmed(text),
        _ => "?"@,
    }
}

/// The branch that the output of `git rev-parse --abbrev-ref HEAD` names.
pub fn detected_branch(output: Option<(String, bool)>) -> (out: String)
    ensures
        out@ == branch_of(git_output_view(output)),
{
    match output {
        Some((text, true)) => string_of(&trim_chars(&chars_of(text.as_str()))),
        _ => String::from_str("?"),
    }
}

/// The lines that are not empty, in order.
pub open spec fn non_empty_lines(lines: Seq<Seq<char>>) -> Seq<Seq<char>>
    decreases lines.len(),
{
    if lines.len() == 0 {
        Seq::empty()
    } else if lines.last().len() > 0 {
        non_empty_lines(lines.drop_last()).push(lines.last())
    } else {
        non_empty_lines(lines.drop_last())
    }
}

/// The staged files that `git diff --cached --name-only` lists: the lines of
/// its output that are not empty when it ran and succeeded, none otherwise.
pub open spec fn staged_of(o: Option<(Seq<char>, bool)>) -> Seq<Seq<char>> {
    match o {
        Some((text, true)) => non_empty_lines(lines_of(text)),
        _ => Seq::empty(),
    }
}

/// The staged files that the output of `git diff --cached --name-only`
/// lists.
pub fn staged_files_of(output: Option<(String, bool)>) -> (out: Vec<String>)
    ensures
        out.deep_view() == staged_of(git_output_view(output)),
{
    let mut out: Vec<String> = Vec::new();
    match output {
        Some((text, true)) => {
            let lines = split_lines(text.as_str());
            let ghost ls = lines.deep_view();
            for i in 0..lines.len()
                invariant
                    ls == lines.deep_view(),
                    out.deep_view() == non_empty_lines(ls.take(i as int)),
            {
                proof {
                    assert(ls.take(i + 1).drop_last() =~= ls.take(i as int));
                    assert(ls.take(i + 1).last() == lines@[i as int]@);
                }
                if !lines[i].as_str().is_empty() {
                    let ghost before = out.deep_view();
                    out.push(copy_string(&lines[i]));
                    proof {
                        assert(out.deep_view() =~= before.push(lines@[i as int]@));
                    }
                }
            }
            proof {
                assert(ls.take(ls.len() as int) =~= ls);
            }
            out
        },
        _ => out,
    }
}

impl AppView {
    /// The next config, cycling; the index to load.
    pub open spec fn next_config(self) -> (AppView, Option<usize>) {
        if self.config_paths.len() == 0 {
            (self, None)
        } else {
            let i = ((self.config_idx + 1) % (self.config_paths.len() as int)) as usize;
            (AppView { config_idx: i, ..self }, Some(i))
        }
    }

    /// The previous config, cycling; the index to load.
    pub open spec fn prev_config(self) -> (AppView, Option<usize>) {
        if self.config_paths.len() == 0 {
            (self, None)
        } else {
            let i = if self.config_idx > 0 {
                (self.config_idx - 1) as usize
            } else {
                (self.config_paths.len() - 1) as usize
            };
            (AppView { config_idx: i, ..self }, Some(i))
        }
    }

    /// A config read from path `idx` becomes the selected one and its checks
    /// are loaded; a config that could not be read leaves its error shown;
    /// an index past the config paths changes nothing.
    pub open spec fn load_config_at(self, idx: int, loaded: Result<ChecksConfigView, Seq<char>>) -> AppView {
        if !(0 <= idx < self.config_paths.len()) {
            self
        } else {
            match loaded {
                Ok(c) => AppView { selected_config_path: Some(self.config_paths[idx]), ..self }.load_checks_from_groups(
                    c.groups,
                ),
                Err(e) => AppView { setup_error: Some(e), ..self },
            }
        }
    }

    /// A typed character goes into the focused text field, clearing the
    /// error and the checkout log; `true` when the project path changed (its
    /// branch is then detected again).
    pub open spec fn setup_type_char(self, c: char) -> (AppView, bool) {
        match self.setup_focus {
            SetupField::ProjectPath => (
                AppView {
                    setup_project_path: self.setup_project_path.push(c),
                    setup_error: None,
                    setup_log: Seq::empty(),
                    ..self
                },
                true,
            ),
            SetupField::Branch => (
                AppView {
                    setup_branch: self.setup_branch.push(c),
                    setup_error: None,
                    setup_log: Seq::empty(),
                    ..self
                },
                false,
            ),
            SetupField::Config => (self, false),
            SetupField::LogFolder => (
                AppView {
                    setup_log_folder: self.setup_log_folder.push(c),
                    setup_error: None,
                    setup_log: Seq::empty(),
                    ..self
                },
                false,
            ),
        }
    }

    /// Backspace removes the last character of the focused text field and
    /// clears the error; `true` when the project path changed.
    pub open spec fn setup_backspace(self) -> (AppView, bool) {
        match self.setup_focus {
            SetupField::ProjectPath => (
                AppView {
                    setup_project_path: drop_last_char(self.setup_project_path),
                    setup_error: None,
                    ..self
                },
                true,
            ),
            SetupField::Branch => (
                AppView { setup_branch: drop_last_char(self.setup_branch), setup_error: None, ..self },
                false,
            ),
            SetupField::Config => (self, false),
            SetupField::LogFolder => (
                AppView {
                    setup_log_folder: drop_last_char(self.setup_log_folder),
                    setup_error: None,
                    ..self
                },
                false,
            ),
        }
    }

    /// The checks before a setup is confirmed: the project path must exist
    /// and be a folder, and a config with checks must be loaded; each failure
    /// shows its error. `true` when the setup may go on.
    pub open spec fn confirm_setup_check(self, exists: bool, is_dir: bool) -> (AppView, bool) {
        if !exists {
            (
                AppView {
                    setup_error: Some("Path does not exist: "@ + self.setup_project_path),
                    ..self
                },
                false,
            )
        } else if !is_dir {
            (
                AppView {
                    setup_error: Some("Path is not a directory: "@ + self.setup_project_path),
                    ..self
                },
                false,
            )
        } else if self.checks.len() == 0 {
            (
                AppView {
                    setup_error: Some("No checks config loaded. Select a valid config file."@),
                    ..self
                },
                false,
            )
        } else {
            (self, true)
        }
    }

    /// The setup to save once confirmed.
    pub open spec fn saved_setup(self) -> SavedConfigView {
        SavedConfigView {
            repo: self.setup_project_path,
            branch: self.setup_branch,
            selected_config: match self.selected_config_path {
                Some(p) => p,
                None => Seq::empty(),
            },
            log_folder: self.setup_log_folder,
        }
    }

    /// A confirmed setup: the project becomes the repository (with its
    /// branch and staged files), the run state is reset, the error cleared,
    /// and the checks can be selected.
    pub open spec fn commit_setup(self, branch: Seq<char>, staged: Seq<Seq<char>>) -> AppView {
        AppView {
            setup_error: None,
            mode: AppMode::Selecting,
            ..AppView {
                repo_root: self.setup_project_path,
                current_branch: branch,
                staged_files: staged,
                ..self
            }.reset_run_state()
        }
    }

    /// The output of a checkout: its lines (output then errors) become the
    /// checkout log; a failure gives the first error line (or `unknown
    /// error`).
    pub open spec fn checkout_output(
        self,
        out_lines: Seq<Seq<char>>,
        err_lines: Seq<Seq<char>>,
        success: bool,
    ) -> (AppView, Result<(), Seq<char>>) {
        (
            AppView { setup_log: out_lines + err_lines, ..self },
            if success {
                Ok(())
            } else {
                Err(
                    "git failed: "@ + if err_lines.len() > 0 {
                        err_lines[0]
                    } else {
                        "unknown error"@
                    },
                )
            },
        )
    }

    /// The first config path equal to `sel`.
    pub open spec fn find_path(paths: Seq<Seq<char>>, sel: Seq<char>, from: int) -> Option<int>
        decreases paths.len() - from,
    {
        if from < 0 || from >= paths.len() {
            None
        } else if paths[from] == sel {
            Some(from)
        } else {
            Self::find_path(paths, sel, from + 1)
        }
    }

    /// The state at launch: the setup screen, filled from the saved setup,
    /// with the saved config chosen when it is among the paths (else the
    /// first).
    pub open spec fn initial(saved: SavedConfigView, paths: Seq<Seq<char>>) -> AppView {
        AppView {
            mode: AppMode::Setup,
            groups: Seq::empty(),
            checks: Seq::empty(),
            check_group_map: Seq::empty(),
            selected: Seq::empty(),
            statuses: Seq::empty(),
            elapsed: Seq::empty(),
            list_entries: Seq::empty(),
            list_cursor: 0,
            list_scroll_offset: 0,
            list_visible_height: 20,
            list_area: None,
            output_lines: Seq::empty(),
            check_logs: Map::empty(),
            audited_passed: Set::empty(),
            output_scroll: 0,
            output_pane_height: 20,
            repo_root: "."@,
            current_branch: Seq::empty(),
            staged_files: Seq::empty(),
            setup_tab: SetupTab::Run,
            setup_project_path: saved.repo,
            setup_branch: saved.branch,
            setup_log_folder: saved.log_folder,
            setup_focus: SetupField::ProjectPath,
            setup_error: None,
            setup_log: Seq::empty(),
            config_paths: paths,
            config_idx: if saved.selected_config.len() > 0 {
                match Self::find_path(paths, saved.selected_config, 0) {
                    Some(i) => i as usize,
                    None => 0,
                }
            } else {
                0
            },
            config_dropdown_open: false,
            selected_config_path: None,
            mouse_capture: true,
        }
    }
}


/// Choosing another config among the config paths keeps the state well
/// formed.
proof fn lemma_wf_with_config_idx(s: AppView, i: usize)
    requires
        s.wf(),
        i < s.config_paths.len(),
    ensures
        (AppView { config_idx: i, ..s }).wf(),
{
    let t = AppView { config_idx: i, ..s };
    assert forall|k: int| 0 <= k < t.list_entries.len() implies entry_ok(
        #[trigger] t.list_entries[k],
        t.groups.len(),
        t.checks.len(),
    ) by {
        assert(entry_ok(s.list_entries[k], s.groups.len(), s.checks.len()));
    }
}

impl App {
    /// The state at launch, from the saved setup and the config files found.
    /// (The caller then detects the branch of the saved project and loads
    /// the chosen config.)
    pub fn new(saved: &SavedConfig, config_paths: Vec<String>) -> (app: App)
        ensures
            app@ == AppView::initial(saved@, config_paths.deep_view()),
            app@.wf(),
    {
        let ghost paths = config_paths.deep_view();
        let mut config_idx: usize = 0;
        if !saved.selected_config.as_str().is_empty() {
            let mut k: usize = 0;
            let mut found = false;
            let n = config_paths.len();
            while k < n && !found
                invariant
                    n == paths.len(),
                    paths == config_paths.deep_view(),
                    k <= n,
                    AppView::find_path(paths, saved@.selected_config, 0) == AppView::find_path(
                        paths,
                        saved@.selected_config,
                        k as int,
                    ),
                    found ==> k < n && paths[k as int] == saved@.selected_config,
                decreases n - k + if found { 0int } else { 1int },
            {
                if str_equal(config_paths[k].as_str(), saved.selected_config.as_str()) {
                    found = true;
                } else {
                    k += 1;
                }
            }
            if found {
                config_idx = k;
            }
        }
        let app = App {
            mode: AppMode::Setup,
            groups: Vec::new(),
            checks: Vec::new(),
            check_group_map: Vec::new(),
            selected: Vec::new(),
            statuses: Vec::new(),
            elapsed: Vec::new(),
            list_entries: Vec::new(),
            list_cursor: 0,
            list_scroll_offset: 0,
            list_visible_height: 20,
            list_area: None,
            output_lines: Vec::new(),
            check_logs: HashMap::new(),
            audited_passed: HashSet::new(),
            output_scroll: 0,
            output_pane_height: 20,
            repo_root: String::from_str("."),
            current_branch: String::new(),
            staged_files: Vec::new(),
            setup_tab: SetupTab::Run,
            setup_project_path: copy_string(&saved.repo),
            setup_branch: copy_string(&saved.branch),
            setup_log_folder: copy_string(&saved.log_folder),
            setup_focus: SetupField::ProjectPath,
            setup_error: None,
            setup_log: Vec::new(),
            config_paths,
            config_idx,
            config_dropdown_open: false,
            selected_config_path: None,
            mouse_capture: true,
        };
        proof {
            assert(app@.groups =~= Seq::<GroupView>::empty());
            assert(app@.checks =~= Seq::<CheckView>::empty());
            assert(app@.output_lines =~= Seq::<Seq<char>>::empty());
            assert(app@.staged_files =~= Seq::<Seq<char>>::empty());
            assert(app@.setup_log =~= Seq::<Seq<char>>::empty());
            assert(app@.check_logs =~= Map::<usize, Seq<Seq<char>>>::empty());
        }
        app
    }

    /// The next config, cycling; the index of the config to load.
    pub fn next_config(&mut self) -> (idx: Option<usize>)
        requires
            old(self)@.wf(),
        ensures
            (final(self)@, idx) == old(self)@.next_config(),
            final(self)@.wf(),
    {
        if self.config_paths.len() == 0 {
            return None;
        }
        let ghost s0 = self@;
        let n = self.config_paths.len();
        let i = (self.config_idx + 1) % n;
        proof {
            let next = self.config_idx + 1;
            assert(next % (n as int) < n) by (nonlinear_arith)
                requires
                    n > 0,
                    next >= 0,
            ;
            lemma_wf_with_config_idx(s0, i);
        }
        self.config_idx = i;
        assert(self@ == AppView { config_idx: i, ..s0 });
        Some(self.config_idx)
    }

    /// The previous config, cycling; the index of the config to load.
    pub fn prev_config(&mut self) -> (idx: Option<usize>)
        requires
            old(self)@.wf(),
        ensures
            (final(self)@, idx) == old(self)@.prev_config(),
            final(self)@.wf(),
    {
        if self.config_paths.len() == 0 {
            return None;
        }
        let ghost s0 = self@;
        let i = if self.config_idx > 0 {
            self.config_idx - 1
        } else {
            self.config_paths.len() - 1
        };
        proof {
            lemma_wf_with_config_idx(s0, i);
        }
        self.config_idx = i;
        assert(self@ == AppView { config_idx: i, ..s0 });
        Some(self.config_idx)
    }

    /// Take in the config read from path `idx` (or the error of reading it).
    /// (The caller then brings in the audited passes on disk.)
    pub fn load_config_at(&mut self, idx: usize, loaded: Result<ChecksConfig, String>)
        requires
            old(self)@.wf(),
        ensures
            final(self)@ == old(self)@.load_config_at(idx as int, loaded_view(loaded)),
            final(self)@.wf(),
    {
        if idx >= self.config_paths.len() {
            return;
        }
        match loaded {
            Ok(cfg) => {
                self.selected_config_path = Some(copy_string(&self.config_paths[idx]));
                self.load_checks_from_groups(cfg.groups);
            },
            Err(e) => {
                self.setup_error = Some(e);
            },
        }
    }

    /// Type `c` into the focused text field; `true` when the project path
    /// changed, so that its branch is to be detected again.
    pub fn setup_type_char(&mut self, c: char) -> (path_changed: bool)
        ensures
            (final(self)@, path_changed) == old(self)@.setup_type_char(c),
    {
        match self.setup_focus {
            SetupField::ProjectPath => {
                push_char(&mut self.setup_project_path, c);
                self.setup_error = None;
                self.setup_log.clear();
                proof {
                    assert(self@.setup_log =~= Seq::<Seq<char>>::empty());
                }
                true
            },
            SetupField::Branch => {
                push_char(&mut self.setup_branch, c);
                self.setup_error = None;
                self.setup_log.clear();
                proof {
                    assert(self@.setup_log =~= Seq::<Seq<char>>::empty());
                }
                false
            },
            SetupField::Config => false,
            SetupField::LogFolder => {
                push_char(&mut self.setup_log_folder, c);
                self.setup_error = None;
                self.setup_log.clear();
                proof {
                    assert(self@.setup_log =~= Seq::<Seq<char>>::empty());
                }
                false
            },
        }
    }

    /// Remove the last character of the focused text field; `true` when the
    /// project path changed.
    pub fn setup_backspace(&mut self) -> (path_changed: bool)
        ensures
            (final(self)@, path_changed) == old(self)@.setup_backspace(),
    {
        match self.setup_focus {
            SetupField::ProjectPath => {
                pop_char(&mut self.setup_project_path);
                self.setup_error = None;
                true
            },
            SetupField::Branch => {
                pop_char(&mut self.setup_branch);
                self.setup_error = None;
                false
            },
            SetupField::Config => false,
            SetupField::LogFolder => {
                pop_char(&mut self.setup_log_folder);
                self.setup_error = None;
                false
            },
        }
    }

    /// Check what a setup needs before it is confirmed, given whether the
    /// project path exists and is a folder; `true` when it may go on.
    pub fn confirm_setup_check(&mut self, path_exists: bool, path_is_dir: bool) -> (ok: bool)
        ensures
            (final(self)@, ok) == old(self)@.confirm_setup_check(path_exists, path_is_dir),
    {
        if !path_exists {
            let mut e = String::from_str("Path does not exist: ");
            e.append(self.setup_project_path.as_str());
            self.setup_error = Some(e);
            return false;
        }
        if !path_is_dir {
            let mut e = String::from_str("Path is not a directory: ");
            e.append(self.setup_project_path.as_str());
            self.setup_error = Some(e);
            return false;
        }
        if self.checks.len() == 0 {
            self.setup_error = Some(
                String::from_str("No checks config loaded. Select a valid config file."),
            );
            return false;
        }
        true
    }

    /// Take in the result of switching to the local branch of a fetched pull
    /// request: a failure gives its error text.
    pub fn pr_switch_output(stderr: &str, success: bool) -> (r: Result<(), String>)
        ensures
            match r {
                Ok(()) => success,
                Err(m) => !success && m@ == "checkout pr branch failed: "@ + stderr@,
            },
    {
        if success {
            Ok(())
        } else {
            let mut m = String::from_str("checkout pr branch failed: ");
            m.append(stderr);
            Err(m)
        }
    }

    /// Take in the output of a checkout: its lines become the checkout log,
    /// and a failure gives its error.
    pub fn checkout_output(&mut self, out_lines: Vec<String>, err_lines: Vec<String>, success: bool) -> (r: Result<(), String>)
        ensures
            ({
                let (s, e) = old(self)@.checkout_output(out_lines.deep_view(), err_lines.deep_view(), success);
                &&& final(self)@ == s
                &&& match r {
                    Ok(()) => e is Ok,
                    Err(m) => e == Err::<(), Seq<char>>(m@),
                }
            }),
    {
        let ghost o = out_lines.deep_view();
        let ghost er = err_lines.deep_view();
        let result = if success {
            Ok(())
        } else {
            let mut m = String::from_str("git failed: ");
            if err_lines.len() > 0 {
                m.append(err_lines[0].as_str());
            } else {
                m.append("unknown error");
            }
            Err(m)
        };
        let mut log = out_lines;
        for i in 0..err_lines.len()
            invariant
                log.deep_view() == o + er.take(i as int),
                er == err_lines.deep_view(),
        {
            let ghost before = log.deep_view();
            let item = copy_string(&err_lines[i]);
            let ghost iv = item@;
            log.push(item);
            proof {
                assert(iv == er[i as int]);
                assert(log.deep_view() =~= before.push(iv));
                assert(er.take(i + 1) =~= er.take(i as int).push(iv));
                assert(log.deep_view() =~= o + er.take(i + 1));
            }
        }
        proof {
            assert(er.take(er.len() as int) =~= er);
        }
        self.setup_log = log;
        result
    }

    /// Commit a confirmed setup with the detected branch and staged files;
    /// the setup to save.
    pub fn commit_setup(&mut self, current_branch: String, staged_files: Vec<String>) -> (saved: SavedConfig)
        requires
            old(self)@.lens_ok(),
        ensures
            final(self)@ == old(self)@.commit_setup(current_branch@, staged_files.deep_view()),
            saved@ == old(self)@.saved_setup(),
    {
        let saved = SavedConfig {
            repo: copy_string(&self.setup_project_path),
            branch: copy_string(&self.setup_branch),
            selected_config: match &self.selected_config_path {
                Some(p) => copy_string(p),
                None => String::new(),
            },
            log_folder: copy_string(&self.setup_log_folder),
        };
        self.repo_root = copy_string(&self.setup_project_path);
        self.current_branch = current_branch;
        self.staged_files = staged_files;
        self.reset_run_state();
        self.setup_error = None;
        self.mode = AppMode::Selecting;
        saved
    }
}

} // verus!
