//! What the screens show, apart from styling: labels, counts, the visible
//! part of the check list, the output pane's title and lines, the progress
//! bar and the spinner.

use vstd::prelude::*;

use crate::app::{App, AppMode, AppView, CheckStatus, ListEntry};
use crate::text::{copy_string, copy_strings, decimal, push_char, usize_to_decimal};

verus! {

/// The frame of the spinner at time `millis`: one of ten frames, each shown
/// for 80 ms.
pub open spec fn spinner_frame_of(millis: u128) -> Seq<char> {
    let i = (millis / 80) % 10;
    if i == 0 {
        "⠋"@
    } else if i == 1 {
        "⠙"@
    } else if i == 2 {
        "⠹"@
    } else if i == 3 {
        "⠸"@
    } else if i == 4 {
        "⠼"@
    } else if i == 5 {
        "⠴"@
    } else if i == 6 {
        "⠦"@
    } else if i == 7 {
        "⠧"@
    } else if i == 8 {
        "⠇"@
    } else {
        "⠏"@
    }
}

/// The frame of the spinner at time `millis`.
pub fn spinner_frame_at(millis: u128) -> (r: &'static str)
    ensures
        r@ == spinner_frame_of(millis),
{
    let i = (millis / 80) % 10;
    if i == 0 {
        "⠋"
    } else if i == 1 {
        "⠙"
    } else if i == 2 {
        "⠹"
    } else if i == 3 {
        "⠸"
    } else if i == 4 {
        "⠼"
    } else if i == 5 {
        "⠴"
    } else if i == 6 {
        "⠦"
    } else if i == 7 {
        "⠧"
    } else if i == 8 {
        "⠇"
    } else {
        "⠏"
    }
}

/// std's `SystemTime`, a point in time, carried through unopened.
#[verifier::external_type_specification]
#[verifier::external_body]
pub struct ExSystemTime(std::time::SystemTime);

/// `SystemTime::now` from std: the current time. Nothing is stated of it.
#[verifier::external_body]
fn system_now() -> std::time::SystemTime {
    std::time::SystemTime::now()
}

/// `SystemTime::duration_since` from std, measured from the Unix epoch:
/// `None` when `t` is before the epoch (std's error). Nothing is stated of
/// the duration.
#[verifier::external_body]
fn since_unix_epoch(t: &std::time::SystemTime) -> Option<std::time::Duration> {
    t.duration_since(std::time::UNIX_EPOCH).ok()
}

/// `Duration::as_millis` from std: the whole milliseconds of `d`. Nothing is
/// stated of the value.
#[verifier::external_body]
fn duration_millis(d: &std::time::Duration) -> u128 {
    d.as_millis()
}

/// The spinner frame for the current time.
pub fn spinner_frame() -> (r: &'static str)
    ensures
        exists|m: u128| r@ == spinner_frame_of(m),
{
    let now = system_now();
    let m: u128 = match since_unix_epoch(&now) {
        Some(d) => duration_millis(&d),
        None => 0,
    };
    spinner_frame_at(m)
}

/// A bar of `width` cells of which the first `filled` (at most all) are full.
pub open spec fn progress_bar_of(width: nat, filled: nat) -> Seq<char> {
    let f = if filled < width {
        filled
    } else {
        width
    };
    Seq::new(f, |i: int| '█') + Seq::new((width - f) as nat, |i: int| '░')
}

/// A bar of `width` cells of which the first `filled` (at most all) are full.
pub fn progress_bar(width: usize, filled: usize) -> (out: String)
    ensures
        out@ == progress_bar_of(width as nat, filled as nat),
{
    let f = if filled < width {
        filled
    } else {
        width
    };
    let mut out = String::new();
    for i in 0..f
        invariant
            out@ == Seq::new(i as nat, |k: int| '█'),
    {
        push_char(&mut out, '█');
        proof {
            assert(out@ =~= Seq::new((i + 1) as nat, |k: int| '█'));
        }
    }
    let ghost full = out@;
    for i in 0..(width - f)
        invariant
            out@ == full + Seq::new(i as nat, |k: int| '░'),
    {
        push_char(&mut out, '░');
        proof {
            assert(out@ =~= full + Seq::new((i + 1) as nat, |k: int| '░'));
        }
    }
    out
}

/// The name of a mode in the header.
pub open spec fn mode_label_of(m: AppMode) -> Seq<char> {
    match m {
        AppMode::Setup => "Setup"@,
        AppMode::Selecting => "Selecting"@,
        AppMode::Running { .. } => "Running"@,
        AppMode::AwaitingManualResult { .. } => "Awaiting verdict"@,
        AppMode::Done => "Done"@,
    }
}

/// The name of a mode in the header.
pub fn mode_label(m: AppMode) -> (r: &'static str)
    ensures
        r@ == mode_label_of(m),
{
    match m {
        AppMode::Setup => "Setup",
        AppMode::Selecting => "Selecting",
        AppMode::Running { .. } => "Running",
        AppMode::AwaitingManualResult { .. } => "Awaiting verdict",
        AppMode::Done => "Done",
    }
}

/// The key help of a mode in the footer.
pub open spec fn footer_text_of(m: AppMode) -> Seq<char> {
    match m {
        AppMode::Setup => " Tab/↓ next  ↑ prev  Enter confirm  q quit"@,
        AppMode::Selecting => " ↑↓ navigate  Space toggle  a all  n none  Enter run  m mouse  q quit"@,
        AppMode::Running { .. } => " r reset  q quit"@,
        AppMode::AwaitingManualResult { .. } => " p pass  f fail  q quit"@,
        AppMode::Done => " Enter rerun  r reset  R reset audited  x reset one  q quit"@,
    }
}

/// The key help of a mode in the footer.
pub fn footer_text(m: AppMode) -> (r: &'static str)
    ensures
        r@ == footer_text_of(m),
{
    match m {
        AppMode::Setup => " Tab/↓ next  ↑ prev  Enter confirm  q quit",
        AppMode::Selecting => " ↑↓ navigate  Space toggle  a all  n none  Enter run  m mouse  q quit",
        AppMode::Running { .. } => " r reset  q quit",
        AppMode::AwaitingManualResult { .. } => " p pass  f fail  q quit",
        AppMode::Done => " Enter rerun  r reset  R reset audited  x reset one  q quit",
    }
}

/// How many of the first `n` checks of group `g` are selected.
pub open spec fn selected_in_group(map: Seq<usize>, sel: Seq<bool>, g: usize, n: nat) -> nat
    decreases n,
{
    if n == 0 {
        0
    } else {
        selected_in_group(map, sel, g, (n - 1) as nat) + if map[n - 1] == g && sel[n - 1] {
            1nat
        } else {
            0nat
        }
    }
}

/// How many of the first `n` flags are set.
pub open spec fn count_true(sel: Seq<bool>, n: nat) -> nat
    decreases n,
{
    if n == 0 {
        0
    } else {
        count_true(sel, (n - 1) as nat) + if sel[n - 1] {
            1nat
        } else {
            0nat
        }
    }
}

/// How many of the first `n` statuses are `Running`.
pub open spec fn count_running(st: Seq<CheckStatus>, n: nat) -> nat
    decreases n,
{
    if n == 0 {
        0
    } else {
        count_running(st, (n - 1) as nat) + if st[n - 1] == CheckStatus::Running {
            1nat
        } else {
            0nat
        }
    }
}

/// The title and the lines of the output pane.
pub struct OutputPane {
    pub title: String,
    pub lines: Vec<String>,
}

/// A pane title: the name, then the position `scroll + 1` (not past the last
/// line) out of the number of lines (at least one).
pub open spec fn position_title(name: Seq<char>, scroll: nat, total: nat) -> Seq<char> {
    let last = if total > 0 {
        (total - 1) as nat
    } else {
        0nat
    };
    let pos = if scroll < last {
        scroll
    } else {
        last
    };
    name + decimal(pos + 1) + "/"@ + decimal(if total > 0 {
        total
    } else {
        1nat
    }) + " "@
}

impl AppView {
    /// The entries of the check list that the viewport shows: from the
    /// scroll offset, as many as fit (none when the offset is past the end).
    pub open spec fn visible_entry_range(self) -> (nat, nat) {
        let total = self.list_entries.len();
        let off = self.list_scroll_offset as nat;
        if off < total {
            let h = self.list_visible_height as nat;
            (off, if off + h < total {
                off + h
            } else {
                total
            })
        } else {
            (0, 0)
        }
    }

    /// The output pane: the live output while running; otherwise the log
    /// of the check under the cursor (or its description when it has no
    /// log yet), or the output when the cursor is not on a check.
    pub open spec fn output_pane(self) -> (Seq<char>, Seq<Seq<char>>) {
        if self.mode is Running {
            (
                position_title(" Output (live) — "@, self.output_scroll as nat, self.output_lines.len()),
                self.output_lines,
            )
        } else if self.list_cursor < self.list_entries.len()
            && self.list_entries[self.list_cursor as int] is Check {
            let c = self.list_entries[self.list_cursor as int]->check_idx;
            if self.check_logs.contains_key(c) {
                (
                    position_title(" Check log — "@, self.output_scroll as nat, self.check_logs[c].len()),
                    self.check_logs[c],
                )
            } else {
                (" Check description "@, seq![self.checks[c as int].description])
            }
        } else {
            (
                position_title(" Output — "@, self.output_scroll as nat, self.output_lines.len()),
                self.output_lines,
            )
        }
    }

    /// The output scroll kept within the `total` lines shown.
    pub open spec fn clamp_output_scroll(self, total: nat) -> AppView {
        let max = if total > 0 {
            (total - 1) as nat
        } else {
            0nat
        };
        if self.output_scroll > max {
            AppView { output_scroll: max as usize, ..self }
        } else {
            self
        }
    }
}

fn position_title_string(name: &str, scroll: usize, total: usize) -> (out: String)
    ensures
        out@ == position_title(name@, scroll as nat, total as nat),
{
    let last = if total > 0 {
        total - 1
    } else {
        0
    };
    let pos = if scroll < last {
        scroll
    } else {
        last
    };
    let mut out = String::from_str(name);
    out.append(usize_to_decimal(pos + 1).as_str());
    out.append("/");
    out.append(usize_to_decimal(if total > 0 {
        total
    } else {
        1
    }).as_str());
    out.append(" ");
    out
}

impl App {
    /// How many checks of group `g` are selected.
    pub fn group_selected_count(&self, g: usize) -> (n: usize)
        requires
            self@.lens_ok(),
        ensures
            n == selected_in_group(self@.check_group_map, self@.selected, g, self@.checks.len()),
    {
        let mut n: usize = 0;
        for i in 0..self.check_group_map.len()
            invariant
                self@.lens_ok(),
                n <= i,
                n == selected_in_group(self@.check_group_map, self@.selected, g, i as nat),
        {
            if self.check_group_map[i] == g && self.selected[i] {
                n += 1;
            }
        }
        n
    }

    /// How many checks are selected.
    pub fn selected_count(&self) -> (n: usize)
        ensures
            n == count_true(self@.selected, self@.selected.len()),
    {
        let mut n: usize = 0;
        for i in 0..self.selected.len()
            invariant
                n <= i,
                n == count_true(self@.selected, i as nat),
        {
            if self.selected[i] {
                n += 1;
            }
        }
        n
    }

    /// How many checks are running.
    pub fn running_count(&self) -> (n: usize)
        ensures
            n == count_running(self@.statuses, self@.statuses.len()),
    {
        let mut n: usize = 0;
        for i in 0..self.statuses.len()
            invariant
                n <= i,
                n == count_running(self@.statuses, i as nat),
        {
            if self.statuses[i] == CheckStatus::Running {
                n += 1;
            }
        }
        n
    }

    /// The entries of the check list that the viewport shows, as a range.
    pub fn visible_entry_range(&self) -> (r: (usize, usize))
        ensures
            (r.0 as nat, r.1 as nat) == self@.visible_entry_range(),
    {
        let total = self.list_entries.len();
        let off = self.list_scroll_offset;
        if off < total {
            let h = self.list_visible_height as usize;
            if h < total - off {
                (off, off + h)
            } else {
                (off, total)
            }
        } else {
            (0, 0)
        }
    }

    /// The title and the lines of the output pane.
    pub fn output_pane(&self) -> (out: OutputPane)
        requires
            self@.wf(),
        ensures
            (out.title@, out.lines.deep_view()) == self@.output_pane(),
    {
        if let AppMode::Running { .. } = self.mode {
            return OutputPane {
                title: position_title_string(" Output (live) — ", self.output_scroll, self.output_lines.len()),
                lines: copy_strings(&self.output_lines),
            };
        }
        if self.list_cursor < self.list_entries.len() {
            if let ListEntry::Check { check_idx, .. } = self.list_entries[self.list_cursor] {
                proof {
                    assert(self@.list_entries[self.list_cursor as int] == self.list_entries@[self.list_cursor as int]);
                    assert(crate::app::entry_ok(self@.list_entries[self.list_cursor as int], self@.groups.len(), self@.checks.len()));
                }
                match self.check_logs.get(&check_idx) {
                    Some(log) => {
                        return OutputPane {
                            title: position_title_string(" Check log — ", self.output_scroll, log.len()),
                            lines: copy_strings(log),
                        };
                    },
                    None => {
                        let mut lines: Vec<String> = Vec::new();
                        lines.push(copy_string(&self.checks[check_idx].description));
                        proof {
                            assert(lines.deep_view() =~= seq![self@.checks[check_idx as int].description]);
                        }
                        return OutputPane { title: String::from_str(" Check description "), lines };
                    },
                }
            }
        }
        OutputPane {
            title: position_title_string(" Output — ", self.output_scroll, self.output_lines.len()),
            lines: copy_strings(&self.output_lines),
        }
    }

    /// Keep the output scroll within the `total` lines that the pane shows.
    pub fn clamp_output_scroll(&mut self, total: usize)
        ensures
            final(self)@ == old(self)@.clamp_output_scroll(total as nat),
    {
        let max = if total > 0 {
            total - 1
        } else {
            0
        };
        if self.output_scroll > max {
            self.output_scroll = max;
        }
    }

    /// Record the height of the output pane and of the list viewport, as
    /// the last drawing measured them.
    pub fn set_view_heights(&mut self, output_pane_height: u16, list_visible_height: u16)
        ensures
            final(self)@ == (AppView {
                output_pane_height,
                list_visible_height,
                ..old(self)@
            }),
    {
        self.output_pane_height = output_pane_height;
        self.list_visible_height = list_visible_height;
    }
}

} // verus!
