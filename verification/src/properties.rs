//! Properties of the runner that span several of its operations.

use vstd::prelude::*;

use crate::app::{
    count_failed, count_passed, count_skipped, entries_upto, member_entries, message_fits, poll_fold, poll_step,
    status_from_name, AppMode, AppView, CheckStatus, FileWriteView, ListEntry, PollState, RunStep,
};
use crate::checks::CheckView;
use crate::protocol::{
    decode_message, encode_message, first_to_run, lemma_message_round_trip, line_messages, result_messages_of, runs_check,
    start_messages_of, RunMessageView,
};

verus! {

/// Whether every check of group `g` has the same selection.
pub open spec fn group_uniform(s: AppView, g: usize) -> bool {
    forall|i: int, j: int|
        #[trigger] s.in_group(g, i) && #[trigger] s.in_group(g, j) ==> s.selected[i] == s.selected[j]
}

/// Toggling a group leaves its checks all selected or all deselected and the
/// other checks as they were; toggling it a second time restores a group
/// whose checks were all selected or all deselected.
pub proof fn lemma_toggle_group(s: AppView, g: usize)
    requires
        s.lens_ok(),
    ensures
        group_uniform(s.toggle_group(g), g),
        forall|i: int|
            0 <= i < s.selected.len() && !s.in_group(g, i) ==> #[trigger] s.toggle_group(g).selected[i]
                == s.selected[i],
        group_uniform(s, g) ==> s.toggle_group(g).toggle_group(g) == s,
{
    let t = s.toggle_group(g);
    if group_uniform(s, g) {
        let u = t.toggle_group(g);
        if exists|i: int| #[trigger] s.in_group(g, i) {
            let w = choose|i: int| #[trigger] s.in_group(g, i);
            assert(t.in_group(g, w));
            let v = !s.group_all_selected(g);
            assert(t.selected[w] == v);
            if s.selected[w] {
                assert forall|i: int|
                    0 <= i < s.check_group_map.len() && s.check_group_map[i] == g implies #[trigger] s.selected[i] by {
                    assert(s.in_group(g, i));
                }
                assert(!t.group_all_selected(g));
            } else {
                assert(t.group_all_selected(g));
            }
            assert forall|i: int| 0 <= i < s.selected.len() implies u.selected[i] == s.selected[i] by {
                if s.check_group_map[i] == g {
                    assert(s.in_group(g, i));
                }
            }
            assert(u.selected =~= s.selected);
        } else {
            assert forall|i: int| 0 <= i < s.selected.len() implies t.selected[i] == s.selected[i] by {
                if s.check_group_map[i] == g {
                    assert(s.in_group(g, i));
                }
            }
            assert(t.selected =~= s.selected);
            assert(u.selected =~= s.selected);
        }
        assert(u == s);
    }
}

/// Moving the cursor up or down keeps it on an entry of the list and on a
/// row that the list viewport shows.
pub proof fn lemma_list_moves_keep_cursor_visible(s: AppView)
    requires
        s.list_entries.len() <= usize::MAX,
        s.list_cursor < s.list_entries.len(),
        s.cursor_visible(),
    ensures
        s.list_up().list_cursor < s.list_entries.len(),
        s.list_up().cursor_visible(),
        s.list_down().list_cursor < s.list_entries.len(),
        s.list_down().cursor_visible(),
{
}

proof fn lemma_counts_bounded(st: Seq<CheckStatus>)
    ensures
        count_passed(st) + count_failed(st) + count_skipped(st) <= st.len(),
    decreases st.len(),
{
    if st.len() > 0 {
        lemma_counts_bounded(st.drop_last());
    }
}

/// The passed, failed and skipped counts together never exceed the number of
/// checks.
pub proof fn lemma_summary_counts_bounded(s: AppView)
    ensures
        s.summary_counts().0 + s.summary_counts().1 + s.summary_counts().2 <= s.statuses.len(),
{
    lemma_counts_bounded(s.statuses);
}

/// Once the pass of an audited check is recorded, the check is locked: the
/// worker does not run it, a run that starts marks it skipped, and a reset
/// of the run state shows it passed.
pub proof fn lemma_audited_pass_locks(s: AppView, idx: int)
    requires
        s.lens_ok(),
        0 <= idx < s.checks.len(),
        s.checks[idx].audited,
    ensures
        ({
            let t = s.record_audited_pass(idx);
            &&& t.is_locked(idx)
            &&& !runs_check(t.checks[idx], t.selected[idx], t.audited_passed, idx as usize)
            &&& t.start_running().statuses[idx] == CheckStatus::Skipped || !t.has_runnable()
            &&& t.reset_run_state().statuses[idx] == CheckStatus::Passed
        }),
{
}

/// Resetting the audited state unlocks every check: the runner goes back to
/// selecting, with every status pending.
pub proof fn lemma_reset_audited_unlocks(s: AppView)
    requires
        s.lens_ok(),
    ensures
        s.reset_audited().mode == AppMode::Selecting,
        forall|i: int|
            0 <= i < s.checks.len() ==> !s.reset_audited().is_locked(i) && #[trigger] s.reset_audited().statuses[i]
                == CheckStatus::Pending,
{
}

/// A rerun keeps the checks, their selection and the recorded audited passes.
pub proof fn lemma_rerun_keeps_selection(s: AppView)
    ensures
        s.rerun().checks == s.checks,
        s.rerun().selected == s.selected,
        s.rerun().audited_passed == s.audited_passed,
{
}

proof fn lemma_no_failed_sections(s: AppView, n: nat)
    requires
        n <= s.checks.len(),
        !s.has_failures(),
    ensures
        s.failed_sections(n) == Seq::<char>::empty(),
    decreases n,
{
    if n > 0 {
        lemma_no_failed_sections(s, (n - 1) as nat);
        assert(!crate::app::is_fail(s.statuses[n - 1]));
    }
}

/// Both logs begin with the header (branch and staged files); when no check
/// failed, the failed-checks log is the header alone.
pub proof fn lemma_logs_begin_with_header(s: AppView)
    ensures
        s.log_header().is_prefix_of(s.run_log_text()),
        s.log_header().is_prefix_of(s.failed_log_text()),
        !s.has_failures() ==> s.failed_log_text() == s.log_header(),
{
    let h = s.log_header();
    assert(s.run_log_text().subrange(0, h.len() as int) =~= h);
    assert(s.failed_log_text().subrange(0, h.len() as int) =~= h);
    if !s.has_failures() {
        lemma_no_failed_sections(s, s.checks.len());
        assert(s.failed_log_text() =~= h);
    }
}

/// Whether check `k` is one that a run executes.
pub open spec fn runnable(s: AppView, k: int) -> bool {
    s.selected[k] && !s.is_locked(k)
}

proof fn lemma_first_runnable_from(s: AppView, j: int)
    requires
        0 <= j,
        s.checks.len() <= usize::MAX,
    ensures
        match s.first_runnable_from(j) {
            Some(n) => j <= n < s.checks.len() && runnable(s, n as int) && forall|k: int|
                j <= k < n ==> !#[trigger] runnable(s, k),
            None => forall|k: int| j <= k < s.checks.len() ==> !#[trigger] runnable(s, k),
        },
    decreases s.checks.len() - j,
{
    if j < s.checks.len() && !runnable(s, j) {
        lemma_first_runnable_from(s, j + 1);
    }
}

/// After a manual verdict the check shows it, and the run goes on from the
/// first check after it that is selected and not locked, or finishes when
/// there is none.
pub proof fn lemma_manual_verdict_continues(s: AppView, pass: bool)
    requires
        s.lens_ok(),
        s.checks.len() <= usize::MAX,
        s.mode matches AppMode::AwaitingManualResult { idx } && idx < s.checks.len(),
    ensures
        ({
            let (t, w, step) = s.manual_verdict(pass);
            let idx = s.mode->AwaitingManualResult_idx as int;
            &&& t.statuses[idx] == if pass {
                CheckStatus::ManualPassed
            } else {
                CheckStatus::ManualFailed
            }
            &&& match step {
                RunStep::RunFrom(n) => idx < n < t.checks.len() && runnable(t, n as int) && t.mode
                    == AppMode::Running { idx: n } && forall|k: int|
                    idx < k < n ==> !#[trigger] runnable(t, k),
                RunStep::Finish => t.mode == AppMode::Done && forall|k: int|
                    idx < k < t.checks.len() ==> !#[trigger] runnable(t, k),
                RunStep::Idle => false,
            }
        }),
{
    let idx = s.mode->AwaitingManualResult_idx;
    let line = s.verdict_line(idx as int, pass);
    let s1 = AppView {
        statuses: s.statuses.update(
            idx as int,
            if pass {
                CheckStatus::ManualPassed
            } else {
                CheckStatus::ManualFailed
            },
        ),
        check_logs: s.log_appended(idx, line),
        output_lines: s.output_lines.push(line),
        ..s
    };
    let s2 = if pass {
        s1.record_audited_pass(idx as int)
    } else {
        s1
    };
    lemma_first_runnable_from(s2, idx + 1);
    let (t, w, step) = s.manual_verdict(pass);
    assert(s2.statuses[idx as int] == s1.statuses[idx as int]);
    assert forall|k: int| 0 <= k < s.checks.len() implies runnable(t, k) == runnable(s2, k) by {}
}

/// The texts of messages, in order.
pub open spec fn texts_of(ms: Seq<RunMessageView>) -> Seq<Seq<char>> {
    Seq::new(ms.len(), |i: int| encode_message(ms[i]))
}

proof fn lemma_texts_append(a: Seq<RunMessageView>, b: Seq<RunMessageView>)
    ensures
        texts_of(a + b) == texts_of(a) + texts_of(b),
{
    assert(texts_of(a + b) =~= texts_of(a) + texts_of(b));
}

proof fn lemma_fold_append(st: PollState, a: Seq<Seq<char>>, b: Seq<Seq<char>>)
    ensures
        poll_fold(st, a + b) == poll_fold(poll_fold(st, a), b),
    decreases b.len(),
{
    if b.len() == 0 {
        assert(a + b =~= a);
    } else {
        lemma_fold_append(st, a, b.drop_last());
        assert((a + b).drop_last() =~= a + b.drop_last());
    }
}

proof fn lemma_fold_push(st: PollState, a: Seq<Seq<char>>, m: Seq<char>)
    ensures
        poll_fold(st, a.push(m)) == poll_step(poll_fold(st, a), m),
{
    assert(a.push(m).drop_last() =~= a);
}

/// The state after reading the texts of `ms`, one after the other.
proof fn lemma_fold_messages(st: PollState, ms: Seq<RunMessageView>)
    ensures
        ms.len() == 1 ==> poll_fold(st, texts_of(ms)) == poll_step(st, encode_message(ms[0])),
        ms.len() == 2 ==> poll_fold(st, texts_of(ms)) == poll_step(
            poll_step(st, encode_message(ms[0])),
            encode_message(ms[1]),
        ),
{
    if ms.len() == 1 {
        assert(texts_of(ms) =~= Seq::<Seq<char>>::empty().push(encode_message(ms[0])));
        lemma_fold_push(st, Seq::empty(), encode_message(ms[0]));
    } else if ms.len() == 2 {
        let e0 = encode_message(ms[0]);
        let e1 = encode_message(ms[1]);
        assert(texts_of(ms) =~= Seq::<Seq<char>>::empty().push(e0).push(e1));
        lemma_fold_push(st, Seq::empty(), e0);
        lemma_fold_push(st, Seq::<Seq<char>>::empty().push(e0), e1);
    }
}

/// Reading the output lines of a check: each goes to the end of the check's
/// log and of the output; nothing else changes but the output scroll.
#[verifier::rlimit(100)]
#[verifier::spinoff_prover]
proof fn lemma_poll_lines(st: PollState, idx: usize, lines: Seq<Seq<char>>)
    requires
        st.app.check_logs.contains_key(idx),
    ensures
        ({
            let r = poll_fold(st, texts_of(line_messages(idx, lines)));
            &&& r.app == AppView {
                check_logs: st.app.check_logs.insert(idx, st.app.check_logs[idx] + lines),
                output_lines: st.app.output_lines + lines,
                output_scroll: r.app.output_scroll,
                ..st.app
            }
            &&& r.manual == st.manual
            &&& r.done == st.done
            &&& r.writes == st.writes
        }),
    decreases lines.len(),
{
    let r = poll_fold(st, texts_of(line_messages(idx, lines)));
    if lines.len() == 0 {
        assert(texts_of(line_messages(idx, lines)) =~= Seq::<Seq<char>>::empty());
        assert(st.app.check_logs.insert(idx, st.app.check_logs[idx] + lines) =~= st.app.check_logs);
        assert(st.app.output_lines + lines =~= st.app.output_lines);
    } else {
        let x = lines.last();
        let front = lines.drop_last();
        lemma_poll_lines(st, idx, front);
        let r0 = poll_fold(st, texts_of(line_messages(idx, front)));
        let lm = seq![RunMessageView::Log { idx, line: x }, RunMessageView::Out { line: x }];
        lemma_texts_append(line_messages(idx, front), lm);
        lemma_fold_append(st, texts_of(line_messages(idx, front)), texts_of(lm));
        lemma_fold_messages(r0, lm);
        lemma_message_round_trip(lm[0]);
        lemma_message_round_trip(lm[1]);
        let r1 = poll_step(r0, encode_message(lm[0]));
        assert(r1.app.check_logs == r0.app.check_logs.insert(idx, r0.app.check_logs[idx].push(x)));
        assert((st.app.check_logs[idx] + front).push(x) =~= st.app.check_logs[idx] + lines);
        assert(r.app.check_logs =~= st.app.check_logs.insert(idx, st.app.check_logs[idx] + lines));
        assert(r.app.output_lines =~= st.app.output_lines + lines);
    }
}

/// The lines that a check's run shows: its output lines, or the error that
/// kept it from running; and whether it succeeded.
pub open spec fn outcome_lines(outcome: Result<(Seq<Seq<char>>, bool), Seq<char>>) -> (Seq<Seq<char>>, bool) {
    match outcome {
        Ok((lines, ok)) => (lines, ok),
        Err(e) => (seq!["Error: "@ + e], false),
    }
}

/// What the worker sends for check `idx`, which it ran for `ms` milliseconds
/// with `outcome`.
pub open spec fn check_run_messages(
    idx: usize,
    s: AppView,
    ms: u64,
    outcome: Result<(Seq<Seq<char>>, bool), Seq<char>>,
    announce_await: bool,
) -> Seq<RunMessageView> {
    start_messages_of(idx, s.checks[idx as int]) + seq![RunMessageView::Elapsed { idx, ms }]
        + result_messages_of(idx, s.checks[idx as int], outcome, announce_await).0
}

/// The state after the runner read the start of check `idx` and its time.
#[verifier::rlimit(100)]
#[verifier::spinoff_prover]
proof fn lemma_poll_start(st: PollState, idx: usize, ms: u64)
    requires
        st.app.lens_ok(),
        idx < st.app.checks.len(),
        st.app.mode is Running,
    ensures
        ({
            let s = st.app;
            let ab = start_messages_of(idx, s.checks[idx as int]) + seq![RunMessageView::Elapsed { idx, ms }];
            let old_log = if s.check_logs.contains_key(idx) {
                s.check_logs[idx]
            } else {
                Seq::empty()
            };
            poll_fold(st, texts_of(ab)) == PollState {
                app: AppView {
                    statuses: s.statuses.update(idx as int, CheckStatus::Running),
                    mode: AppMode::Running { idx },
                    check_logs: s.check_logs.insert(idx, old_log.push("▶ "@ + s.checks[idx as int].name)),
                    elapsed: s.elapsed.update(idx as int, Some(ms)),
                    ..s
                },
                ..st
            }
        }),
{
    reveal_strlit("Running");
    let s = st.app;
    let a = start_messages_of(idx, s.checks[idx as int]);
    let b = seq![RunMessageView::Elapsed { idx, ms }];
    lemma_texts_append(a, b);
    lemma_fold_append(st, texts_of(a), texts_of(b));
    lemma_fold_messages(st, a);
    lemma_message_round_trip(a[0]);
    lemma_message_round_trip(a[1]);
    let st2 = poll_fold(st, texts_of(a));
    lemma_fold_messages(st2, b);
    lemma_message_round_trip(b[0]);
    assert(status_from_name("Running"@) == CheckStatus::Running);
}

/// The messages that close the run of check `idx`: a wait for a verdict, or
/// its status and, for an audited check that passed, its recorded pass.
pub open spec fn end_messages(idx: usize, awaits: bool, audited: bool, ok: bool, announce_await: bool) -> Seq<RunMessageView> {
    if awaits {
        if announce_await {
            seq![RunMessageView::Status { idx, value: "AwaitManual"@ }, RunMessageView::Manual { idx }]
        } else {
            seq![RunMessageView::Manual { idx }]
        }
    } else {
        seq![RunMessageView::Status { idx, value: if ok { "Passed"@ } else { "Failed"@ } }]
            + if audited && ok {
            seq![RunMessageView::AuditedPass { idx }]
        } else {
            Seq::empty()
        }
    }
}

proof fn lemma_result_messages_split(
    idx: usize,
    s: AppView,
    outcome: Result<(Seq<Seq<char>>, bool), Seq<char>>,
    announce_await: bool,
)
    requires
        idx < s.checks.len(),
    ensures
        ({
            let check = s.checks[idx as int];
            let (lines, ok) = outcome_lines(outcome);
            result_messages_of(idx, check, outcome, announce_await).0 == line_messages(idx, lines)
                + end_messages(idx, check.manual && outcome is Ok, check.audited, ok, announce_await)
        }),
{
    let check = s.checks[idx as int];
    let (lines, ok) = outcome_lines(outcome);
    match outcome {
        Ok(_) => {},
        Err(e) => {
            assert(lines.drop_last() =~= Seq::<Seq<char>>::empty());
            assert(line_messages(idx, lines.drop_last()) =~= Seq::<RunMessageView>::empty());
        },
    }
    assert(result_messages_of(idx, check, outcome, announce_await).0 =~= line_messages(idx, lines)
        + end_messages(idx, check.manual && outcome is Ok, check.audited, ok, announce_await));
}

/// The state after the runner read the end of the run of check `idx`.
#[verifier::rlimit(100)]
#[verifier::spinoff_prover]
proof fn lemma_poll_end(st: PollState, idx: usize, awaits: bool, audited: bool, ok: bool, announce_await: bool)
    requires
        st.app.lens_ok(),
        idx < st.app.checks.len(),
        st.app.checks[idx as int].audited == audited,
    ensures
        ({
            let r = poll_fold(st, texts_of(end_messages(idx, awaits, audited, ok, announce_await)));
            if awaits {
                &&& r.manual == Some(idx)
                &&& r.done == st.done
                &&& r.writes == st.writes
                &&& r.app == AppView {
                    statuses: r.app.statuses,
                    mode: r.app.mode,
                    ..st.app
                }
            } else {
                let app1 = AppView {
                    statuses: st.app.statuses.update(
                        idx as int,
                        if ok {
                            CheckStatus::Passed
                        } else {
                            CheckStatus::Failed
                        },
                    ),
                    mode: if st.app.mode is Running {
                        AppMode::Running { idx }
                    } else {
                        st.app.mode
                    },
                    ..st.app
                };
                &&& r.manual == st.manual
                &&& r.done == st.done
                &&& if audited && ok {
                    &&& r.app == app1.record_audited_pass(idx as int)
                    &&& r.writes == st.writes + seq![app1.audit_write(idx as int)->0]
                } else {
                    &&& r.app == app1
                    &&& r.writes == st.writes
                }
            }
        }),
{
    reveal_strlit("Running");
    reveal_strlit("Passed");
    reveal_strlit("Failed");
    reveal_strlit("Skipped");
    reveal_strlit("AwaitManual");
    let d = end_messages(idx, awaits, audited, ok, announce_await);
    lemma_fold_messages(st, d);
    lemma_message_round_trip(d[0]);
    if d.len() > 1 {
        lemma_message_round_trip(d[1]);
    }
    if !awaits {
        let value = if ok { "Passed"@ } else { "Failed"@ };
        assert(d[0] == RunMessageView::Status { idx, value });
        assert("Failed"@[0] != "Passed"@[0]);
        assert("Passed"@.len() != "Running"@.len());
        assert(status_from_name(value) == if ok { CheckStatus::Passed } else { CheckStatus::Failed });
        if audited && ok {
            assert(d =~= seq![d[0], d[1]]);
        } else {
            assert(d =~= seq![d[0]]);
        }
    }
}

/// What the worker sends for one check that it runs, once the runner has read
/// it, shows that run: the check's log gains the start line and the check's
/// output lines, which also go to the output; its time is recorded; and then
/// either the runner waits for the verdict on a manual check whose command
/// ran to its end (whatever its exit status), or the check shows passed or
/// failed, an audited check that passed being
/// recorded (its audit file is the one file to write). The run does not
/// finish there.
#[verifier::rlimit(100)]
#[verifier::spinoff_prover]
pub proof fn lemma_check_run_reaches_runner(
    s: AppView,
    idx: usize,
    ms: u64,
    outcome: Result<(Seq<Seq<char>>, bool), Seq<char>>,
    announce_await: bool,
)
    requires
        s.lens_ok(),
        idx < s.checks.len(),
        s.mode is Running,
    ensures
        ({
            let check = s.checks[idx as int];
            let (t, finished, writes) = s.poll_log(texts_of(check_run_messages(idx, s, ms, outcome, announce_await)));
            let (lines, ok) = outcome_lines(outcome);
            let old_log = if s.check_logs.contains_key(idx) {
                s.check_logs[idx]
            } else {
                Seq::empty()
            };
            &&& !finished
            &&& t.elapsed[idx as int] == Some(ms)
            &&& t.check_logs[idx] == old_log.push("▶ "@ + check.name) + lines
            &&& t.output_lines == s.output_lines + lines
            &&& if check.manual && outcome is Ok {
                &&& t.mode == AppMode::AwaitingManualResult { idx }
                &&& writes.len() == 0
            } else {
                &&& t.mode == AppMode::Running { idx }
                &&& t.statuses[idx as int] == if ok {
                    CheckStatus::Passed
                } else {
                    CheckStatus::Failed
                }
                &&& t.is_locked(idx as int) == (s.is_locked(idx as int) || (check.audited && ok))
                &&& writes == if check.audited && ok {
                    seq![FileWriteView { dir: s.audit_dir(), path: s.audit_log_path(idx as int), content: t.audit_record(idx as int) }]
                } else {
                    Seq::empty()
                }
            }
        }),
{
    let check = s.checks[idx as int];
    let (lines, ok) = outcome_lines(outcome);
    let st0 = PollState { app: s, manual: None, done: false, writes: Seq::empty() };
    let ab = start_messages_of(idx, check) + seq![RunMessageView::Elapsed { idx, ms }];
    let c = line_messages(idx, lines);
    let d = end_messages(idx, check.manual && outcome is Ok, check.audited, ok, announce_await);
    lemma_result_messages_split(idx, s, outcome, announce_await);
    let msgs = check_run_messages(idx, s, ms, outcome, announce_await);
    assert(msgs =~= ab + c + d);
    lemma_texts_append(ab, c);
    lemma_texts_append(ab + c, d);
    lemma_fold_append(st0, texts_of(ab), texts_of(c));
    lemma_fold_append(st0, texts_of(ab) + texts_of(c), texts_of(d));
    lemma_poll_start(st0, idx, ms);
    let st3 = poll_fold(st0, texts_of(ab));
    assert(st3.app.check_logs.contains_key(idx));
    lemma_poll_lines(st3, idx, lines);
    let st4 = poll_fold(st3, texts_of(c));
    assert(st4.app.lens_ok());
    lemma_poll_end(st4, idx, check.manual && outcome is Ok, check.audited, ok, announce_await);
    let st5 = poll_fold(st4, texts_of(d));
    assert(st5 == poll_fold(st0, texts_of(msgs)));
}

/// The message that ends a run finishes it: the runner is done, its logs are
/// to be written, and nothing else changes.
pub proof fn lemma_done_finishes_run(s: AppView)
    ensures
        s.poll_log(texts_of(seq![RunMessageView::Done])) == (s.finish_run(), true, Seq::<FileWriteView>::empty()),
{
    let st0 = PollState { app: s, manual: None, done: false, writes: Seq::empty() };
    lemma_fold_messages(st0, seq![RunMessageView::Done]);
    lemma_message_round_trip(RunMessageView::Done);
}

proof fn lemma_member_listed(map: Seq<usize>, g: usize, i: int)
    requires
        map.len() <= usize::MAX,
        0 <= i < map.len(),
        map[i] == g,
    ensures
        member_entries(map, g).contains(ListEntry::Check { group_idx: g, check_idx: i as usize }),
    decreases map.len(),
{
    let e = ListEntry::Check { group_idx: g, check_idx: i as usize };
    let front = member_entries(map.drop_last(), g);
    if i == map.len() - 1 {
        let tail = seq![e];
        assert(member_entries(map, g) == front + tail);
        assert((front + tail)[front.len() as int] == e);
    } else {
        lemma_member_listed(map.drop_last(), g, i);
        let k = choose|k: int| 0 <= k < front.len() && front[k] == e;
        assert(member_entries(map, g)[k] == e);
    }
}

proof fn lemma_entries_upto_listed(map: Seq<usize>, n: nat, g: nat, e: ListEntry)
    requires
        g < n,
        n <= usize::MAX + 1,
        e == (ListEntry::Group { group_idx: g as usize }) || member_entries(map, g as usize).contains(e),
    ensures
        entries_upto(map, n).contains(e),
    decreases n,
{
    let prev = entries_upto(map, (n - 1) as nat);
    let hdr = prev.push(ListEntry::Group { group_idx: (n - 1) as usize });
    let mem = member_entries(map, (n - 1) as usize);
    assert(entries_upto(map, n) == hdr + mem);
    if g < n - 1 {
        lemma_entries_upto_listed(map, (n - 1) as nat, g, e);
        let k = choose|k: int| 0 <= k < prev.len() && prev[k] == e;
        assert((hdr + mem)[k] == e);
    } else if e == (ListEntry::Group { group_idx: g as usize }) {
        assert((hdr + mem)[prev.len() as int] == e);
    } else {
        let k = choose|k: int| 0 <= k < mem.len() && mem[k] == e;
        assert((hdr + mem)[hdr.len() + k] == e);
    }
}

/// Rebuilding the list shows the header of every group, and every check
/// under its own group.
pub proof fn lemma_list_shows_every_check(s: AppView)
    requires
        s.lens_ok(),
        s.groups.len() <= usize::MAX,
        s.checks.len() <= usize::MAX,
    ensures
        forall|g: int|
            0 <= g < s.groups.len() ==> #[trigger] s.rebuild_list_entries().list_entries.contains(
                ListEntry::Group { group_idx: g as usize },
            ),
        forall|i: int|
            0 <= i < s.checks.len() ==> #[trigger] s.rebuild_list_entries().list_entries.contains(
                ListEntry::Check { group_idx: s.check_group_map[i], check_idx: i as usize },
            ),
{
    let map = s.check_group_map;
    let n = s.groups.len();
    assert forall|g: int| 0 <= g < n implies #[trigger] s.rebuild_list_entries().list_entries.contains(
        ListEntry::Group { group_idx: g as usize },
    ) by {
        lemma_entries_upto_listed(map, n, g as nat, ListEntry::Group { group_idx: g as usize });
    }
    assert forall|i: int| 0 <= i < s.checks.len() implies #[trigger] s.rebuild_list_entries().list_entries.contains(
        ListEntry::Check { group_idx: map[i], check_idx: i as usize },
    ) by {
        let e = ListEntry::Check { group_idx: map[i], check_idx: i as usize };
        lemma_member_listed(map, map[i], i);
        lemma_entries_upto_listed(map, n, map[i] as nat, e);
    }
}

/// On the run tab, moving the focus back undoes moving it forward, and three
/// moves forward come back to the same field.
pub proof fn lemma_setup_focus_cycles(s: AppView)
    requires
        s.setup_focus != crate::app::SetupField::LogFolder,
    ensures
        s.setup_focus_next().setup_focus_prev() == s,
        s.setup_focus_prev().setup_focus_next() == s,
        s.setup_focus_next().setup_focus_next().setup_focus_next() == s,
{
}

/// Going to the next config and back to the previous one selects the same
/// config again, and so does going back and then forward.
pub proof fn lemma_config_cycling_undone(s: AppView)
    requires
        s.config_paths.len() > 0,
        s.config_paths.len() <= usize::MAX,
        s.config_idx < s.config_paths.len(),
    ensures
        s.next_config().0.prev_config().0 == s,
        s.prev_config().0.next_config().0 == s,
        s.next_config().1 is Some && s.prev_config().1 is Some,
{
    let n = s.config_paths.len() as int;
    let i = s.config_idx as int;
    if i + 1 < n {
        assert((i + 1) % n == i + 1) by (nonlinear_arith)
            requires
                0 <= i + 1 < n,
        ;
    } else {
        assert((i + 1) % n == 0) by (nonlinear_arith)
            requires
                i + 1 == n,
                n > 0,
        ;
    }
    if i > 0 {
        assert(((i - 1) + 1) % n == i) by (nonlinear_arith)
            requires
                0 <= i < n,
        ;
    } else {
        assert(((n - 1) + 1) % n == 0) by (nonlinear_arith)
            requires
                n > 0,
        ;
    }
}

proof fn lemma_poll_keeps_wf(st: PollState, msgs: Seq<Seq<char>>)
    requires
        st.app.wf(),
        forall|k: int| 0 <= k < msgs.len() ==> message_fits(decode_message(#[trigger] msgs[k]), st.app.checks.len()),
    ensures
        poll_fold(st, msgs).app.wf(),
        poll_fold(st, msgs).app.checks == st.app.checks,
        poll_fold(st, msgs).app.groups == st.app.groups,
        poll_fold(st, msgs).app.list_entries == st.app.list_entries,
    decreases msgs.len(),
{
    if msgs.len() > 0 {
        assert forall|k: int| 0 <= k < msgs.drop_last().len() implies message_fits(
            decode_message(#[trigger] msgs.drop_last()[k]),
            st.app.checks.len(),
        ) by {
            assert(msgs.drop_last()[k] == msgs[k]);
        }
        lemma_poll_keeps_wf(st, msgs.drop_last());
        let prev = poll_fold(st, msgs.drop_last());
        assert(message_fits(decode_message(msgs[msgs.len() - 1]), st.app.checks.len()));
        let next = poll_step(prev, msgs.last());
        match decode_message(msgs.last()) {
            Some(RunMessageView::Status { idx, value }) => {
                assert(next.app.statuses.len() == prev.app.statuses.len());
            },
            Some(RunMessageView::Elapsed { idx, ms }) => {
                assert(next.app.elapsed.len() == prev.app.elapsed.len());
            },
            _ => {},
        }
        assert(next.app.wf());
    }
}

/// Every operation of the runner keeps its state well formed: the per-check
/// vectors stay aligned with the checks, every check's group exists, every
/// list entry names a group and a check that exist, and the chosen config is
/// one of the config paths. (Messages and an awaited verdict name checks
/// that exist, as the operations that take them require.)
pub proof fn lemma_operations_keep_wf(s: AppView, g: usize, col: u16, row: u16, c: char, pass: bool, msgs: Seq<Seq<char>>)
    requires
        s.wf(),
        forall|k: int| 0 <= k < msgs.len() ==> message_fits(decode_message(#[trigger] msgs[k]), s.checks.len()),
        s.mode matches AppMode::AwaitingManualResult { idx } ==> idx < s.checks.len(),
    ensures
        s.toggle_dropdown().wf(),
        s.close_dropdown().wf(),
        s.setup_focus_next().wf(),
        s.setup_focus_prev().wf(),
        s.setup_tab_switch().wf(),
        s.toggle_mouse_capture().wf(),
        s.toggle_group(g).wf(),
        s.toggle_current().wf(),
        s.select_all().wf(),
        s.select_none().wf(),
        s.list_up().wf(),
        s.list_down().wf(),
        s.scroll_up().wf(),
        s.scroll_down().wf(),
        s.page_up().wf(),
        s.page_down().wf(),
        s.scroll_to_top().wf(),
        s.scroll_to_bottom().wf(),
        s.handle_click(col, row).wf(),
        s.reset_run_state().wf(),
        s.start_running().wf(),
        s.finish_run().wf(),
        s.reset_to_selecting().wf(),
        s.reset_audited().wf(),
        s.rerun().wf(),
        s.manual_verdict(pass).0.wf(),
        s.reset_current_audited().0.wf(),
        s.poll_log(msgs).0.wf(),
        s.next_config().0.wf(),
        s.prev_config().0.wf(),
        s.setup_type_char(c).0.wf(),
        s.setup_backspace().0.wf(),
        s.clamp_output_scroll(g as nat).wf(),
{
    assert(s.toggle_group(g).wf());
    assert(s.toggle_current().wf());
    assert(s.handle_click(col, row).wf());
    assert(s.reset_run_state().wf());
    assert(s.start_running().wf());
    assert(s.rerun().wf());
    let st0 = PollState { app: s, manual: None, done: false, writes: Seq::empty() };
    lemma_poll_keeps_wf(st0, msgs);
    assert(s.manual_verdict(pass).0.wf()) by {
        if let AppMode::AwaitingManualResult { idx } = s.mode {
            let line = s.verdict_line(idx as int, pass);
            let s1 = AppView {
                statuses: s.statuses.update(
                    idx as int,
                    if pass {
                        CheckStatus::ManualPassed
                    } else {
                        CheckStatus::ManualFailed
                    },
                ),
                check_logs: s.log_appended(idx, line),
                output_lines: s.output_lines.push(line),
                ..s
            };
            assert(s1.wf());
            let s2 = if pass {
                s1.record_audited_pass(idx as int)
            } else {
                s1
            };
            assert(s2.wf());
            assert(s2.continue_after_manual(idx as int).0.wf());
        }
    }
    assert(s.next_config().0.wf()) by {
        if s.config_paths.len() > 0 {
            let n = s.config_paths.len() as int;
            assert((s.config_idx + 1) % n < n) by (nonlinear_arith)
                requires
                    n > 0,
            ;
        }
    }
}

/// The worker and the runner agree on the order of a run: the check that the
/// worker runs next, looking from `j` on, is the one from which the runner
/// resumes after a manual verdict on the check before `j`: the first selected
/// check from `j` on that is not locked by an audited pass.
pub proof fn lemma_worker_order_matches_runner(s: AppView, j: int)
    requires
        s.lens_ok(),
        s.checks.len() <= usize::MAX,
        0 <= j,
    ensures
        first_to_run(s.checks, s.selected, s.audited_passed, j) == s.first_runnable_from(j),
    decreases s.checks.len() - j,
{
    if j < s.checks.len() {
        lemma_worker_order_matches_runner(s, j + 1);
    }
}

/// The status that the run of a check leaves: passed when its command
/// succeeded, failed otherwise.
pub open spec fn final_status(outcome: Result<(Seq<Seq<char>>, bool), Seq<char>>) -> CheckStatus {
    if outcome_lines(outcome).1 {
        CheckStatus::Passed
    } else {
        CheckStatus::Failed
    }
}

/// What the runner keeps of the run of check `idx` once it read it (a check
/// that does not wait for a verdict): the check shows its final status and
/// its time, the run is still going at that check, and the checks and their
/// selection are as they were.
#[verifier::rlimit(100)]
#[verifier::spinoff_prover]
proof fn lemma_fold_check_run(
    st: PollState,
    idx: usize,
    ms: u64,
    outcome: Result<(Seq<Seq<char>>, bool), Seq<char>>,
    announce_await: bool,
)
    requires
        st.app.lens_ok(),
        idx < st.app.checks.len(),
        st.app.mode is Running,
        !(st.app.checks[idx as int].manual && outcome is Ok),
    ensures
        ({
            let r = poll_fold(st, texts_of(check_run_messages(idx, st.app, ms, outcome, announce_await)));
            &&& r.manual == st.manual
            &&& r.done == st.done
            &&& r.app.mode == AppMode::Running { idx }
            &&& r.app.checks == st.app.checks
            &&& r.app.groups == st.app.groups
            &&& r.app.check_group_map == st.app.check_group_map
            &&& r.app.selected == st.app.selected
            &&& r.app.statuses == st.app.statuses.update(idx as int, final_status(outcome))
            &&& r.app.elapsed == st.app.elapsed.update(idx as int, Some(ms))
        }),
{
    let s = st.app;
    let check = s.checks[idx as int];
    let (lines, ok) = outcome_lines(outcome);
    let ab = start_messages_of(idx, check) + seq![RunMessageView::Elapsed { idx, ms }];
    let c = line_messages(idx, lines);
    let d = end_messages(idx, false, check.audited, ok, announce_await);
    lemma_result_messages_split(idx, s, outcome, announce_await);
    let msgs = check_run_messages(idx, s, ms, outcome, announce_await);
    assert(msgs =~= ab + c + d);
    lemma_texts_append(ab, c);
    lemma_texts_append(ab + c, d);
    lemma_fold_append(st, texts_of(ab), texts_of(c));
    lemma_fold_append(st, texts_of(ab) + texts_of(c), texts_of(d));
    lemma_poll_start(st, idx, ms);
    let st3 = poll_fold(st, texts_of(ab));
    assert(st3.app.check_logs.contains_key(idx));
    lemma_poll_lines(st3, idx, lines);
    let st4 = poll_fold(st3, texts_of(c));
    assert(st4.app.lens_ok());
    lemma_poll_end(st4, idx, false, check.audited, ok, announce_await);
    let st5 = poll_fold(st4, texts_of(d));
    assert(st5 == poll_fold(st, texts_of(msgs)));
    assert(st5.app.statuses =~= s.statuses.update(idx as int, final_status(outcome)));
}

/// The checks that a run executes from `from` on, in increasing order.
pub open spec fn run_order(checks: Seq<CheckView>, selected: Seq<bool>, audited_passed: Set<usize>, from: int) -> Seq<usize>
    decreases checks.len() - from,
{
    if from < 0 || from >= checks.len() {
        Seq::empty()
    } else if runs_check(checks[from], selected[from], audited_passed, from as usize) {
        seq![from as usize] + run_order(checks, selected, audited_passed, from + 1)
    } else {
        run_order(checks, selected, audited_passed, from + 1)
    }
}

/// The worker's steps go through the run order: looking from `from` on, it
/// finds nothing exactly when nothing is left to run, and otherwise it finds
/// the first check of the order, after which it looks on from the next
/// index.
pub proof fn lemma_worker_steps_follow_run_order(
    checks: Seq<CheckView>,
    selected: Seq<bool>,
    audited_passed: Set<usize>,
    from: int,
)
    requires
        0 <= from,
        checks.len() <= usize::MAX,
    ensures
        match first_to_run(checks, selected, audited_passed, from) {
            None => run_order(checks, selected, audited_passed, from).len() == 0,
            Some(i) => from <= i < checks.len() && run_order(checks, selected, audited_passed, from)
                == seq![i] + run_order(checks, selected, audited_passed, i + 1),
        },
    decreases checks.len() - from,
{
    if from < checks.len() && !runs_check(checks[from], selected[from], audited_passed, from as usize) {
        lemma_worker_steps_follow_run_order(checks, selected, audited_passed, from + 1);
    }
}

/// A run executes each check that it runs once, in increasing index order:
/// the run order holds exactly the checks from `from` on that are selected
/// and not locked by an audited pass, each once, ascending.
pub proof fn lemma_run_order_once_each(
    checks: Seq<CheckView>,
    selected: Seq<bool>,
    audited_passed: Set<usize>,
    from: int,
)
    requires
        0 <= from,
        checks.len() <= usize::MAX,
    ensures
        ({
            let o = run_order(checks, selected, audited_passed, from);
            &&& forall|a: int, b: int| 0 <= a < b < o.len() ==> o[a] < o[b]
            &&& forall|k: int| 0 <= k < o.len() ==> from <= #[trigger] o[k] < checks.len()
            &&& forall|i: int|
                from <= i < checks.len() ==> (o.contains(i as usize) <==> runs_check(
                    checks[i],
                    selected[i],
                    audited_passed,
                    i as usize,
                ))
        }),
    decreases checks.len() - from,
{
    if from < checks.len() {
        lemma_run_order_once_each(checks, selected, audited_passed, from + 1);
        let rest = run_order(checks, selected, audited_passed, from + 1);
        let o = run_order(checks, selected, audited_passed, from);
        if runs_check(checks[from], selected[from], audited_passed, from as usize) {
            assert(o == seq![from as usize] + rest);
            assert forall|i: int| from <= i < checks.len() implies (o.contains(i as usize) <==> runs_check(
                checks[i],
                selected[i],
                audited_passed,
                i as usize,
            )) by {
                if i == from {
                    assert(o[0] == from as usize);
                } else {
                    if o.contains(i as usize) {
                        let k = choose|k: int| 0 <= k < o.len() && o[k] == i as usize;
                        assert(k > 0);
                        assert(rest[k - 1] == i as usize);
                    }
                    if rest.contains(i as usize) {
                        let k = choose|k: int| 0 <= k < rest.len() && rest[k] == i as usize;
                        assert(o[k + 1] == i as usize);
                    }
                }
            }
            assert forall|k: int| 0 <= k < o.len() implies from <= #[trigger] o[k] < checks.len() by {
                if k > 0 {
                    assert(o[k] == rest[k - 1]);
                }
            }
            assert forall|a: int, b: int| 0 <= a < b < o.len() implies o[a] < o[b] by {
                assert(o[b] == rest[b - 1]);
                if a > 0 {
                    assert(o[a] == rest[a - 1]);
                }
            }
        } else {
            assert forall|i: int| from <= i < checks.len() implies (o.contains(i as usize) <==> runs_check(
                checks[i],
                selected[i],
                audited_passed,
                i as usize,
            )) by {
                if i == from && o.contains(i as usize) {
                    let k = choose|k: int| 0 <= k < o.len() && o[k] == i as usize;
                    assert(rest[k] >= from + 1);
                }
            }
        }
    }
}

/// The messages of a whole run: those of each check of `order`, in turn.
pub open spec fn run_messages(
    s: AppView,
    order: Seq<usize>,
    ms: spec_fn(usize) -> u64,
    outcome: spec_fn(usize) -> Result<(Seq<Seq<char>>, bool), Seq<char>>,
) -> Seq<RunMessageView>
    decreases order.len(),
{
    if order.len() == 0 {
        Seq::empty()
    } else {
        run_messages(s, order.drop_last(), ms, outcome) + check_run_messages(
            order.last(),
            s,
            ms(order.last()),
            outcome(order.last()),
            true,
        )
    }
}

proof fn lemma_fold_run(
    s: AppView,
    order: Seq<usize>,
    ms: spec_fn(usize) -> u64,
    outcome: spec_fn(usize) -> Result<(Seq<Seq<char>>, bool), Seq<char>>,
)
    requires
        s.lens_ok(),
        s.checks.len() <= usize::MAX,
        s.mode is Running,
        forall|k: int| 0 <= k < order.len() ==> #[trigger] order[k] < s.checks.len(),
        forall|k: int|
            0 <= k < order.len() ==> !(s.checks[order[k] as int].manual && #[trigger] outcome(order[k]) is Ok),
    ensures
        ({
            let st0 = PollState { app: s, manual: None, done: false, writes: Seq::empty() };
            let r = poll_fold(st0, texts_of(run_messages(s, order, ms, outcome)));
            &&& r.manual is None
            &&& !r.done
            &&& r.app.mode is Running
            &&& r.app.checks == s.checks
            &&& r.app.groups == s.groups
            &&& r.app.check_group_map == s.check_group_map
            &&& r.app.selected == s.selected
            &&& r.app.statuses.len() == s.statuses.len()
            &&& r.app.elapsed.len() == s.elapsed.len()
            &&& forall|i: int|
                0 <= i < s.checks.len() ==> #[trigger] r.app.statuses[i] == if order.contains(i as usize) {
                    final_status(outcome(i as usize))
                } else {
                    s.statuses[i]
                }
            &&& forall|i: int|
                0 <= i < s.checks.len() ==> #[trigger] r.app.elapsed[i] == if order.contains(i as usize) {
                    Some(ms(i as usize))
                } else {
                    s.elapsed[i]
                }
        }),
    decreases order.len(),
{
    let st0 = PollState { app: s, manual: None, done: false, writes: Seq::empty() };
    if order.len() == 0 {
        assert(texts_of(run_messages(s, order, ms, outcome)) =~= Seq::<Seq<char>>::empty());
    } else {
        let front = order.drop_last();
        let idx = order.last();
        lemma_fold_run(s, front, ms, outcome);
        let prev = poll_fold(st0, texts_of(run_messages(s, front, ms, outcome)));
        assert(order[order.len() - 1] == idx);
        assert(check_run_messages(idx, s, ms(idx), outcome(idx), true) == check_run_messages(
            idx,
            prev.app,
            ms(idx),
            outcome(idx),
            true,
        ));
        lemma_texts_append(run_messages(s, front, ms, outcome), check_run_messages(idx, s, ms(idx), outcome(idx), true));
        lemma_fold_append(
            st0,
            texts_of(run_messages(s, front, ms, outcome)),
            texts_of(check_run_messages(idx, s, ms(idx), outcome(idx), true)),
        );
        lemma_fold_check_run(prev, idx, ms(idx), outcome(idx), true);
        let r = poll_fold(st0, texts_of(run_messages(s, order, ms, outcome)));
        assert forall|i: int| 0 <= i < s.checks.len() implies #[trigger] order.contains(i as usize) == (front.contains(
            i as usize,
        ) || i == idx) by {
            if front.contains(i as usize) {
                let k = choose|k: int| 0 <= k < front.len() && front[k] == i as usize;
                assert(order[k] == i as usize);
            }
            if order.contains(i as usize) && i != idx {
                let k = choose|k: int| 0 <= k < order.len() && order[k] == i as usize;
                assert(k < front.len());
                assert(front[k] == i as usize);
            }
        }
        assert forall|i: int| 0 <= i < s.checks.len() implies #[trigger] r.app.statuses[i] == if order.contains(
            i as usize,
        ) {
            final_status(outcome(i as usize))
        } else {
            s.statuses[i]
        } by {}
        assert forall|i: int| 0 <= i < s.checks.len() implies #[trigger] r.app.elapsed[i] == if order.contains(
            i as usize,
        ) {
            Some(ms(i as usize))
        } else {
            s.elapsed[i]
        } by {}
    }
}

/// A run in which no check waits for a verdict. The worker sends, for each
/// check of the run order in turn, what it sends for one check, then the end
/// of the run. Once the runner has read all of it, the run is finished: each
/// check of the order shows passed or failed, as its command ended, and its
/// time, and every other check keeps its status.
pub proof fn lemma_whole_run_reaches_runner(
    s: AppView,
    ms: spec_fn(usize) -> u64,
    outcome: spec_fn(usize) -> Result<(Seq<Seq<char>>, bool), Seq<char>>,
)
    requires
        s.lens_ok(),
        s.checks.len() <= usize::MAX,
        s.mode is Running,
        forall|i: int|
            0 <= i < s.checks.len() && runs_check(s.checks[i], s.selected[i], s.audited_passed, i as usize)
                ==> !(s.checks[i].manual && #[trigger] outcome(i as usize) is Ok),
    ensures
        ({
            let order = run_order(s.checks, s.selected, s.audited_passed, 0);
            let (t, finished, writes) = s.poll_log(
                texts_of(run_messages(s, order, ms, outcome) + seq![RunMessageView::Done]),
            );
            &&& finished
            &&& t.mode == AppMode::Done
            &&& forall|i: int|
                0 <= i < s.checks.len() ==> #[trigger] t.statuses[i] == if runs_check(
                    s.checks[i],
                    s.selected[i],
                    s.audited_passed,
                    i as usize,
                ) {
                    final_status(outcome(i as usize))
                } else {
                    s.statuses[i]
                }
            &&& forall|i: int|
                0 <= i < s.checks.len() && runs_check(s.checks[i], s.selected[i], s.audited_passed, i as usize)
                    ==> #[trigger] t.elapsed[i] == Some(ms(i as usize))
        }),
{
    let order = run_order(s.checks, s.selected, s.audited_passed, 0);
    lemma_run_order_once_each(s.checks, s.selected, s.audited_passed, 0);
    assert forall|k: int| 0 <= k < order.len() implies !(s.checks[order[k] as int].manual
        && #[trigger] outcome(order[k]) is Ok) by {
        let i = order[k] as int;
        assert(order.contains(i as usize));
    }
    lemma_fold_run(s, order, ms, outcome);
    let st0 = PollState { app: s, manual: None, done: false, writes: Seq::empty() };
    let body = run_messages(s, order, ms, outcome);
    let done = seq![RunMessageView::Done];
    lemma_texts_append(body, done);
    lemma_fold_append(st0, texts_of(body), texts_of(done));
    let r = poll_fold(st0, texts_of(body));
    lemma_fold_messages(r, done);
    lemma_message_round_trip(RunMessageView::Done);
}

// ── Verdicts, counts, checkout arguments, group counts ─────────────────────

/// A verdict touches the audited passes only by a pass: a failed manual
/// verdict leaves them as they were and gives no audit file to write, while
/// a pass records the check when it is audited (and gives its audit file)
/// and leaves them as they were otherwise. Only the judged check's status
/// changes, to manually passed or manually failed.
pub proof fn lemma_manual_verdict_audited_passes(s: AppView)
    requires
        s.lens_ok(),
        s.mode matches AppMode::AwaitingManualResult { idx } && idx < s.checks.len(),
    ensures
        ({
            let idx = s.mode->AwaitingManualResult_idx;
            let (f, fw, _) = s.manual_verdict(false);
            let (p, pw, _) = s.manual_verdict(true);
            &&& f.audited_passed == s.audited_passed
            &&& fw is None
            &&& p.audited_passed == if s.checks[idx as int].audited {
                s.audited_passed.insert(idx)
            } else {
                s.audited_passed
            }
            &&& (pw is Some <==> s.checks[idx as int].audited)
            &&& f.statuses == s.statuses.update(idx as int, CheckStatus::ManualFailed)
            &&& p.statuses == s.statuses.update(idx as int, CheckStatus::ManualPassed)
            &&& f.checks == s.checks && p.checks == s.checks
            &&& f.selected == s.selected && p.selected == s.selected
        }),
{
    let idx = s.mode->AwaitingManualResult_idx;
    let (f, fw, _) = s.manual_verdict(false);
    let (p, pw, _) = s.manual_verdict(true);
    assert(f.statuses =~= s.statuses.update(idx as int, CheckStatus::ManualFailed));
    assert(p.statuses =~= s.statuses.update(idx as int, CheckStatus::ManualPassed));
}

/// Whether a status counts as passed: passed, or passed by a manual verdict.
pub open spec fn passed_status(x: CheckStatus) -> bool {
    x == CheckStatus::Passed || x == CheckStatus::ManualPassed
}

/// Whether a status counts as failed: failed, or failed by a manual verdict.
pub open spec fn failed_status(x: CheckStatus) -> bool {
    x == CheckStatus::Failed || x == CheckStatus::ManualFailed
}

proof fn lemma_counts_are_filters(st: Seq<CheckStatus>)
    ensures
        count_passed(st) == st.filter(|x: CheckStatus| passed_status(x)).len(),
        count_failed(st) == st.filter(|x: CheckStatus| failed_status(x)).len(),
        count_skipped(st) == st.filter(|x: CheckStatus| x == CheckStatus::Skipped).len(),
    decreases st.len(),
{
    reveal(Seq::filter);
    if st.len() > 0 {
        lemma_counts_are_filters(st.drop_last());
    }
}

/// The summary counts the statuses: the passed count is the number of checks
/// that passed (by their command or a manual verdict), the failed count the
/// number that failed (by their command or a manual verdict), and the
/// skipped count the number skipped.
pub proof fn lemma_summary_counts_count_statuses(s: AppView)
    ensures
        s.summary_counts().0 == s.statuses.filter(|x: CheckStatus| passed_status(x)).len(),
        s.summary_counts().1 == s.statuses.filter(|x: CheckStatus| failed_status(x)).len(),
        s.summary_counts().2 == s.statuses.filter(|x: CheckStatus| x == CheckStatus::Skipped).len(),
{
    lemma_counts_are_filters(s.statuses);
}

proof fn lemma_counts_push(st: Seq<CheckStatus>, x: CheckStatus)
    ensures
        count_passed(st.push(x)) == count_passed(st) + if passed_status(x) { 1nat } else { 0nat },
        count_failed(st.push(x)) == count_failed(st) + if failed_status(x) { 1nat } else { 0nat },
        count_skipped(st.push(x)) == count_skipped(st) + if x == CheckStatus::Skipped { 1nat } else { 0nat },
{
    assert(st.push(x).drop_last() =~= st);
}

/// One more status adds one to the count it falls under and nothing to the
/// others: a manual failure counts as a failure, a manual pass as a pass.
pub proof fn lemma_summary_counts_one_more(s: AppView, x: CheckStatus)
    ensures
        ({
            let t = AppView { statuses: s.statuses.push(x), ..s };
            &&& t.summary_counts().0 == s.summary_counts().0 + if passed_status(x) { 1nat } else { 0nat }
            &&& t.summary_counts().1 == s.summary_counts().1 + if failed_status(x) { 1nat } else { 0nat }
            &&& t.summary_counts().2 == s.summary_counts().2 + if x == CheckStatus::Skipped {
                1nat
            } else {
                0nat
            }
        }),
{
    lemma_counts_push(s.statuses, x);
}

/// A branch is taken for a pull request exactly when it is made of ASCII
/// digits only: then its head is fetched as the local branch `pr-<n>`;
/// any other branch (one with a character that is not a digit) is switched
/// to by its name. Switching to the fetched request uses that local branch.
pub proof fn lemma_checkout_args_by_digits(b: Seq<char>)
    ensures
        crate::app::checkout_args_of(b).1 <==> (forall|i: int| 0 <= i < b.len() ==> '0' <= #[trigger] b[i] && b[i] <= '9'),
        (forall|i: int| 0 <= i < b.len() ==> '0' <= #[trigger] b[i] && b[i] <= '9') ==> crate::app::checkout_args_of(b).0
            == seq!["fetch"@, "origin"@, "pull/"@ + b + "/head:pr-"@ + b],
        (exists|i: int| 0 <= i < b.len() && !('0' <= #[trigger] b[i] && b[i] <= '9')) ==> crate::app::checkout_args_of(b)
            == (seq!["switch"@, b], false),
        crate::app::pr_switch_args_of(b) == seq!["switch"@, "pr-"@ + b],
{
}

/// The indices of the checks of group `g` that are selected, among the
/// first `n`.
pub open spec fn selected_members(map: Seq<usize>, sel: Seq<bool>, g: usize, n: nat) -> Seq<int> {
    Seq::new(n, |i: int| i).filter(|i: int| map[i] == g && sel[i])
}

/// The per-group counter counts the selected checks of the group: it is the
/// number of indices whose check belongs to the group and is selected.
pub proof fn lemma_group_selected_count_counts(map: Seq<usize>, sel: Seq<bool>, g: usize, n: nat)
    ensures
        crate::display::selected_in_group(map, sel, g, n) == selected_members(map, sel, g, n).len(),
    decreases n,
{
    reveal(Seq::filter);
    if n > 0 {
        lemma_group_selected_count_counts(map, sel, g, (n - 1) as nat);
        assert(Seq::new(n, |i: int| i).drop_last() =~= Seq::new((n - 1) as nat, |i: int| i));
    }
}

proof fn lemma_group_count_none(map: Seq<usize>, sel: Seq<bool>, g: usize, n: nat)
    requires
        n <= sel.len(),
        forall|i: int| 0 <= i < sel.len() ==> !#[trigger] sel[i],
    ensures
        crate::display::selected_in_group(map, sel, g, n) == 0,
    decreases n,
{
    if n > 0 {
        lemma_group_count_none(map, sel, g, (n - 1) as nat);
    }
}

proof fn lemma_group_count_flip(map: Seq<usize>, sel: Seq<bool>, g: usize, n: nat, j: int)
    requires
        n <= sel.len(),
        0 <= j < sel.len(),
    ensures
        crate::display::selected_in_group(map, sel.update(j, !sel[j]), g, n) + (if j < n && map[j] == g && sel[j] {
            1int
        } else {
            0int
        }) == crate::display::selected_in_group(map, sel, g, n) + (if j < n && map[j] == g && !sel[j] {
            1int
        } else {
            0int
        }),
    decreases n,
{
    if n > 0 {
        lemma_group_count_flip(map, sel, g, (n - 1) as nat, j);
    }
}

/// The per-group counter is zero for every group once nothing is selected.
pub proof fn lemma_group_selected_count_after_select_none(s: AppView, g: usize)
    requires
        s.lens_ok(),
    ensures
        crate::display::selected_in_group(s.select_none().check_group_map, s.select_none().selected, g, s.checks.len())
            == 0,
{
    let z = s.select_none();
    lemma_group_count_none(z.check_group_map, z.selected, g, s.checks.len());
}

/// Toggling the check under the cursor changes the counter of its group by
/// one, down when the check was selected and up when it was not, and leaves
/// the counters of the other groups as they were.
pub proof fn lemma_group_selected_count_after_toggle(s: AppView, g: usize, gi: usize, j: usize)
    requires
        s.lens_ok(),
        s.list_cursor < s.list_entries.len(),
        s.list_entries[s.list_cursor as int] == (ListEntry::Check { group_idx: gi, check_idx: j }),
        j < s.checks.len(),
    ensures
        ({
            let t = s.toggle_current();
            let before = crate::display::selected_in_group(s.check_group_map, s.selected, g, s.checks.len());
            let after = crate::display::selected_in_group(t.check_group_map, t.selected, g, s.checks.len());
            if s.check_group_map[j as int] != g {
                after == before
            } else if s.selected[j as int] {
                after + 1 == before
            } else {
                after == before + 1
            }
        }),
{
    lemma_group_count_flip(s.check_group_map, s.selected, g, s.checks.len(), j as int);
}

// ── Further laws on what the screens show and what the operations do ─────

proof fn lemma_count_true_filter(sel: Seq<bool>, n: nat)
    requires
        n <= sel.len(),
    ensures
        crate::display::count_true(sel, n) == sel.take(n as int).filter(|b: bool| b).len(),
    decreases n,
{
    reveal(Seq::filter);
    if n > 0 {
        lemma_count_true_filter(sel, (n - 1) as nat);
        assert(sel.take(n as int).drop_last() =~= sel.take(n - 1));
    }
}

proof fn lemma_count_running_filter(st: Seq<CheckStatus>, n: nat)
    requires
        n <= st.len(),
    ensures
        crate::display::count_running(st, n) == st.take(n as int).filter(|x: CheckStatus| x == CheckStatus::Running).len(),
    decreases n,
{
    reveal(Seq::filter);
    if n > 0 {
        lemma_count_running_filter(st, (n - 1) as nat);
        assert(st.take(n as int).drop_last() =~= st.take(n - 1));
    }
}

proof fn lemma_count_true_all(sel: Seq<bool>, n: nat, v: bool)
    requires
        n <= sel.len(),
        forall|i: int| 0 <= i < sel.len() ==> #[trigger] sel[i] == v,
    ensures
        crate::display::count_true(sel, n) == if v { n } else { 0 },
    decreases n,
{
    if n > 0 {
        lemma_count_true_all(sel, (n - 1) as nat, v);
    }
}

/// The selected counter counts the selected checks and the running counter
/// the running ones; selecting all makes every check count, selecting none
/// makes the counter zero.
pub proof fn lemma_selected_and_running_counts(s: AppView)
    ensures
        crate::display::count_true(s.selected, s.selected.len()) == s.selected.filter(|b: bool| b).len(),
        crate::display::count_running(s.statuses, s.statuses.len()) == s.statuses.filter(
            |x: CheckStatus| x == CheckStatus::Running,
        ).len(),
        crate::display::count_true(s.select_all().selected, s.selected.len()) == s.selected.len(),
        crate::display::count_true(s.select_none().selected, s.selected.len()) == 0,
{
    lemma_count_true_filter(s.selected, s.selected.len());
    assert(s.selected.take(s.selected.len() as int) =~= s.selected);
    lemma_count_running_filter(s.statuses, s.statuses.len());
    assert(s.statuses.take(s.statuses.len() as int) =~= s.statuses);
    lemma_count_true_all(s.select_all().selected, s.selected.len(), true);
    lemma_count_true_all(s.select_none().selected, s.selected.len(), false);
}

/// The list viewport shows a run of consecutive entries that starts at the
/// scroll offset, lies within the list and has at most the viewport's
/// height; it shows as many as fit, and nothing when the offset is past the
/// end of the list.
pub proof fn lemma_visible_entries(s: AppView)
    ensures
        ({
            let (a, b) = s.visible_entry_range();
            &&& a <= b <= s.list_entries.len()
            &&& b - a <= s.list_visible_height
            &&& s.list_scroll_offset < s.list_entries.len() ==> a == s.list_scroll_offset && (b == s.list_entries.len()
                || b - a == s.list_visible_height)
            &&& s.list_scroll_offset >= s.list_entries.len() ==> a == b
        }),
{
}

/// Each status has its own icon: passed ✓, failed ✗, pending ○, running ◐,
/// skipped ⊘; a manual verdict shows as the pass or failure it is.
pub proof fn lemma_status_icons()
    ensures
        crate::app::status_icon(CheckStatus::Passed) == "✓"@,
        crate::app::status_icon(CheckStatus::ManualPassed) == "✓"@,
        crate::app::status_icon(CheckStatus::Failed) == "✗"@,
        crate::app::status_icon(CheckStatus::ManualFailed) == "✗"@,
        crate::app::status_icon(CheckStatus::Pending) == "○"@,
        crate::app::status_icon(CheckStatus::Running) == "◐"@,
        crate::app::status_icon(CheckStatus::Skipped) == "⊘"@,
{
}

/// A group's icon: running while one of its checks runs; failed when one of
/// its checks failed and none runs; passed when all its selected checks
/// passed (or were skipped), one of them passed, and none runs or failed;
/// pending otherwise.
pub proof fn lemma_group_icon(s: AppView, g: usize, i: int)
    requires
        s.in_group(g, i),
    ensures
        s.statuses[i] == CheckStatus::Running ==> s.group_status_icon(g) == "◐"@,
        failed_status(s.statuses[i]) && (forall|k: int| #[trigger] s.in_group(g, k) ==> s.statuses[k]
            != CheckStatus::Running) ==> s.group_status_icon(g) == "✗"@,
        (forall|k: int| #[trigger] s.in_group(g, k) ==> s.selected[k] && passed_status(s.statuses[k]))
            ==> s.group_status_icon(g) == "✓"@,
        (forall|k: int| #[trigger] s.in_group(g, k) ==> !s.selected[k] && s.statuses[k] == CheckStatus::Pending)
            ==> s.group_status_icon(g) == "○"@,
{
}

/// Starting a run (when some check can run) marks every check that is not
/// selected, or is locked by an audited pass, as skipped; the checks that
/// will run keep their status; the output is cleared and the runner is
/// running.
pub proof fn lemma_start_running_marks_skipped(s: AppView, i: int)
    requires
        s.has_runnable(),
        0 <= i < s.statuses.len(),
    ensures
        s.start_running().statuses[i] == if !s.selected[i] || s.is_locked(i) {
            CheckStatus::Skipped
        } else {
            s.statuses[i]
        },
        s.start_running().mode is Running,
        s.start_running().output_lines.len() == 0,
        s.start_running().selected == s.selected,
{
}

/// With nothing that can run (every check unselected or locked), starting a
/// run changes nothing.
pub proof fn lemma_start_running_nothing_to_run(s: AppView)
    requires
        forall|i: int| 0 <= i < s.checks.len() ==> !#[trigger] s.selected[i] || s.is_locked(i),
    ensures
        s.start_running() == s,
{
}

/// Toggling the check under the cursor flips its selection and only its own.
pub proof fn lemma_toggle_check_flips_one(s: AppView, gi: usize, j: usize, k: int)
    requires
        s.list_cursor < s.list_entries.len(),
        s.list_entries[s.list_cursor as int] == (ListEntry::Check { group_idx: gi, check_idx: j }),
        j < s.selected.len(),
        0 <= k < s.selected.len(),
    ensures
        s.toggle_current().selected.len() == s.selected.len(),
        s.toggle_current().selected[k] == if k == j { !s.selected[k] } else { s.selected[k] },
{
}

/// Scrolling the output: a line down adds one, a page down adds the pane's
/// height (at least one), up and page up go back as far as the top, top is
/// the first line and bottom the last.
pub proof fn lemma_output_scrolling(s: AppView)
    ensures
        s.scroll_down().output_scroll == s.output_scroll + 1 || s.output_scroll + 1 > usize::MAX,
        s.scroll_up().output_scroll == if s.output_scroll > 0 { s.output_scroll - 1 } else { 0 },
        s.page_down().output_scroll == s.output_scroll + s.page_rows() || s.output_scroll + s.page_rows()
            > usize::MAX,
        s.page_up().output_scroll == if s.output_scroll >= s.page_rows() {
            s.output_scroll - s.page_rows()
        } else {
            0
        },
        s.page_rows() >= 1,
        s.scroll_to_top().output_scroll == 0,
        s.scroll_to_bottom().output_scroll == if s.output_lines.len() > 0 {
            s.output_lines.len() - 1
        } else {
            0
        } || s.output_lines.len() > usize::MAX + 1,
{
}

/// The branch detected from git: its trimmed output when git ran and
/// succeeded, `?` when it failed or could not run. The staged files: the
/// non-empty lines of git's output when it succeeded, none otherwise.
pub proof fn lemma_git_outputs(text: Seq<char>, ok: bool)
    ensures
        crate::app::branch_of(Some((text, ok))) == if ok { crate::text::trimmed(text) } else { "?"@ },
        crate::app::branch_of(None) == "?"@,
        !ok ==> crate::app::staged_of(Some((text, ok))).len() == 0,
        crate::app::staged_of(None).len() == 0,
        ok ==> forall|k: int| 0 <= k < crate::app::staged_of(Some((text, ok))).len() ==> #[trigger] crate::app::staged_of(
            Some((text, ok)),
        )[k].len() > 0,
{
    if ok {
        lemma_non_empty_lines(crate::text::lines_of(text));
    }
}

proof fn lemma_non_empty_lines(lines: Seq<Seq<char>>)
    ensures
        forall|k: int| 0 <= k < crate::app::non_empty_lines(lines).len() ==> #[trigger] crate::app::non_empty_lines(lines)[k].len() > 0,
        forall|k: int| 0 <= k < lines.len() && lines[k].len() > 0 ==> crate::app::non_empty_lines(lines).contains(#[trigger] lines[k]),
    decreases lines.len(),
{
    if lines.len() > 0 {
        lemma_non_empty_lines(lines.drop_last());
        let f = crate::app::non_empty_lines(lines.drop_last());
        assert forall|k: int| 0 <= k < lines.len() && lines[k].len() > 0 implies crate::app::non_empty_lines(lines).contains(
            #[trigger] lines[k],
        ) by {
            if k < lines.len() - 1 {
                assert(lines.drop_last()[k] == lines[k]);
                let m = choose|m: int| 0 <= m < f.len() && f[m] == lines[k];
                if lines.last().len() > 0 {
                    assert(f.push(lines.last())[m] == lines[k]);
                }
            } else {
                assert(f.push(lines.last())[f.len() as int] == lines[k]);
            }
        }
    }
}

/// A number written in decimal reads back as that number, for every bound
/// that it does not exceed; its text is made of digits only.
pub proof fn lemma_decimal_reads_back(n: nat, max: nat)
    requires
        n <= max,
    ensures
        crate::text::parse_unsigned(crate::text::decimal(n), max) == Some(n),
        crate::text::decimal(n).len() > 0,
        forall|i: int| 0 <= i < crate::text::decimal(n).len() ==> '0' <= #[trigger] crate::text::decimal(n)[i] <= '9',
{
    crate::protocol::lemma_read_decimal(n, max);
    crate::protocol::lemma_decimal(n);
    assert forall|i: int| 0 <= i < crate::text::decimal(n).len() implies '0' <= #[trigger] crate::text::decimal(n)[i]
        <= '9' by {
        assert(crate::text::is_digit(crate::text::decimal(n)[i]));
    }
}

proof fn lemma_no_empty_group(gs: Seq<crate::checks::GroupView>)
    ensures
        crate::checks::empty_group_error(gs) is None <==> forall|k: int| 0 <= k < gs.len() ==> #[trigger] gs[k].checks.len() > 0,
    decreases gs.len(),
{
    if gs.len() > 0 {
        let rest = gs.drop_first();
        lemma_no_empty_group(rest);
        if crate::checks::empty_group_error(gs) is None {
            assert forall|k: int| 0 <= k < gs.len() implies #[trigger] gs[k].checks.len() > 0 by {
                if k > 0 {
                    assert(rest[k - 1] == gs[k]);
                }
            }
        } else if gs[0].checks.len() > 0 {
            let k = choose|k: int| 0 <= k < rest.len() && #[trigger] rest[k].checks.len() == 0;
            assert(gs[k + 1] == rest[k]);
        }
    }
}

proof fn lemma_first_empty_group(gs: Seq<crate::checks::GroupView>, k: int)
    requires
        0 <= k < gs.len(),
        gs[k].checks.len() == 0,
        forall|m: int| 0 <= m < k ==> #[trigger] gs[m].checks.len() > 0,
    ensures
        crate::checks::empty_group_error(gs) == Some("Group '"@ + gs[k].label + "' has no checks"@),
    decreases k,
{
    if k > 0 {
        let rest = gs.drop_first();
        assert(gs[0].checks.len() > 0);
        assert forall|m: int| 0 <= m < k - 1 implies #[trigger] rest[m].checks.len() > 0 by {
            assert(rest[m] == gs[m + 1]);
        }
        lemma_first_empty_group(rest, k - 1);
    }
}

/// A config is accepted exactly when it has a group and every group has a
/// check; a config without groups is refused as such, and otherwise the
/// first group without checks is named.
pub proof fn lemma_config_accepted(c: crate::checks::ChecksConfigView, k: int)
    ensures
        crate::checks::config_error(c) is None <==> c.groups.len() > 0 && forall|m: int|
            0 <= m < c.groups.len() ==> #[trigger] c.groups[m].checks.len() > 0,
        c.groups.len() == 0 ==> crate::checks::config_error(c) == Some("Config must contain at least one group"@),
        0 <= k < c.groups.len() && c.groups[k].checks.len() == 0 && (forall|m: int|
            0 <= m < k ==> #[trigger] c.groups[m].checks.len() > 0) ==> crate::checks::config_error(c) == Some(
            "Group '"@ + c.groups[k].label + "' has no checks"@,
        ),
{
    lemma_no_empty_group(c.groups);
    if 0 <= k < c.groups.len() && c.groups[k].checks.len() == 0 && (forall|m: int|
        0 <= m < k ==> #[trigger] c.groups[m].checks.len() > 0) {
        lemma_first_empty_group(c.groups, k);
    }
}

/// Joining paths: a path that starts with `/` replaces the base; otherwise
/// it follows the base, with exactly one `/` between them when the base is
/// not empty.
pub proof fn lemma_path_join(base: Seq<char>, p: Seq<char>)
    ensures
        p.len() > 0 && p[0] == '/' ==> crate::text::path_join(base, p) == p,
        !(p.len() > 0 && p[0] == '/') && base.len() > 0 && base.last() != '/' ==> crate::text::path_join(base, p)
            == base + seq!['/'] + p,
        !(p.len() > 0 && p[0] == '/') && (base.len() == 0 || base.last() == '/') ==> crate::text::path_join(base, p)
            == base + p,
{
    assert(base.push('/') + p =~= base + seq!['/'] + p);
}

/// Names in audit file names: spaces and slashes become underscores, every
/// other character stays, and the length does not change.
pub proof fn lemma_underscored(s: Seq<char>)
    ensures
        crate::text::underscored(s).len() == s.len(),
        forall|i: int| 0 <= i < s.len() ==> #[trigger] crate::text::underscored(s)[i] == if s[i] == ' ' || s[i] == '/' {
            '_'
        } else {
            s[i]
        },
        !crate::text::underscored(s).contains(' ') && !crate::text::underscored(s).contains('/'),
{
}

/// A click inside the list's border on a column of the list area puts the
/// cursor on the entry drawn on that row (the scroll offset plus the row's
/// place below the top border) when there is one; any other click leaves
/// the cursor and the selection as they were.
pub proof fn lemma_click_targets_drawn_entry(s: AppView, col: u16, row: u16)
    requires
        s.list_area is Some,
        s.list_entries.len() <= usize::MAX,
    ensures
        ({
            let a = s.list_area->0;
            let k = s.list_scroll_offset + row - a.y - 1;
            let t = s.handle_click(col, row);
            if a.x <= col < a.x + a.width && a.y < row && row + 1 < a.y + a.height && k < s.list_entries.len() {
                t.list_cursor == k && t == (AppView { list_cursor: k as usize, ..s }).toggle_current()
            } else {
                t == s
            }
        }),
{
}

/// Resetting the audited pass of the check under the cursor unlocks that
/// check and shows it pending, and leaves every other recorded pass; on a
/// check that is not audited, or a group row, nothing changes.
pub proof fn lemma_reset_current_audited_unlocks_one(s: AppView, gi: usize, j: usize, k: usize)
    requires
        s.list_cursor < s.list_entries.len(),
        s.list_entries[s.list_cursor as int] == (ListEntry::Check { group_idx: gi, check_idx: j }),
        j < s.checks.len(),
    ensures
        s.checks[j as int].audited ==> !s.reset_current_audited().0.audited_passed.contains(j)
            && s.reset_current_audited().0.statuses[j as int] == CheckStatus::Pending || j >= s.statuses.len(),
        k != j ==> (s.reset_current_audited().0.audited_passed.contains(k) <==> s.audited_passed.contains(k)),
        !s.checks[j as int].audited ==> s.reset_current_audited() == (s, false),
{
}

/// The status a status message names: `Running`, `Passed`, `Failed` and
/// `Skipped` name those statuses; any other name is pending.
pub proof fn lemma_status_names(v: Seq<char>)
    ensures
        crate::app::status_from_name("Running"@) == CheckStatus::Running,
        crate::app::status_from_name("Passed"@) == CheckStatus::Passed,
        crate::app::status_from_name("Failed"@) == CheckStatus::Failed,
        crate::app::status_from_name("Skipped"@) == CheckStatus::Skipped,
        v != "Running"@ && v != "Passed"@ && v != "Failed"@ && v != "Skipped"@ ==> crate::app::status_from_name(v)
            == CheckStatus::Pending,
{
    reveal_strlit("Running");
    reveal_strlit("Passed");
    reveal_strlit("Failed");
    reveal_strlit("Skipped");
    assert("Passed"@ != "Running"@) by { assert("Passed"@.len() != "Running"@.len()); }
    assert("Failed"@ != "Running"@) by { assert("Failed"@.len() != "Running"@.len()); }
    assert("Skipped"@ != "Running"@) by { assert("Skipped"@[0] != "Running"@[0]); }
    assert("Failed"@ != "Passed"@) by { assert("Failed"@[0] != "Passed"@[0]); }
    assert("Skipped"@ != "Passed"@) by { assert("Skipped"@.len() != "Passed"@.len()); }
    assert("Skipped"@ != "Failed"@) by { assert("Skipped"@.len() != "Failed"@.len()); }
}

/// Reading the saved setup line by line: a line whose trimmed text starts
/// with none of the keys `repo=`, `branch=`, `selected_config=`,
/// `log_folder=` leaves the setup as it was; a line `repo=<v>` (trimmed)
/// sets the repository to `<v>` and nothing else, whatever came before.
pub proof fn lemma_saved_lines(ls: Seq<Seq<char>>, l: Seq<char>, v: Seq<char>)
    ensures
        ({
            let t = crate::text::trimmed(l);
            !"repo="@.is_prefix_of(t) && !"branch="@.is_prefix_of(t) && !"selected_config="@.is_prefix_of(t)
                && !"log_folder="@.is_prefix_of(t) ==> crate::config::saved_from_lines(ls.push(l))
                == crate::config::saved_from_lines(ls)
        }),
        crate::text::trimmed(l) == "repo="@ + v ==> crate::config::saved_from_lines(ls.push(l)) == (crate::config::SavedConfigView {
            repo: v,
            ..crate::config::saved_from_lines(ls)
        }),
{
    reveal_strlit("repo=");
    assert(ls.push(l).drop_last() =~= ls);
    if crate::text::trimmed(l) == "repo="@ + v {
        let t = crate::text::trimmed(l);
        assert(t.subrange(0, 5) =~= "repo="@);
        assert(t.skip(5) =~= v);
    }
}

/// The progress bar has exactly `width` cells: the first `filled` (at most
/// all) full, the rest empty.
pub proof fn lemma_progress_bar(width: nat, filled: nat)
    ensures
        crate::display::progress_bar_of(width, filled).len() == width,
        forall|i: int| 0 <= i < width ==> #[trigger] crate::display::progress_bar_of(width, filled)[i] == if i < filled {
            '█'
        } else {
            '░'
        },
{
}

/// The output pane shows the live output while a run is in progress; on
/// another screen, with the cursor on a check, that check's log, or its
/// description when it has no log yet; otherwise the output.
pub proof fn lemma_output_pane_contents(s: AppView)
    ensures
        s.mode is Running ==> s.output_pane().1 == s.output_lines,
        !(s.mode is Running) && s.list_cursor < s.list_entries.len() && s.list_entries[s.list_cursor as int] is Check ==> ({
            let c = s.list_entries[s.list_cursor as int]->check_idx;
            s.output_pane().1 == if s.check_logs.contains_key(c) {
                s.check_logs[c]
            } else {
                seq![s.checks[c as int].description]
            }
        }),
        !(s.mode is Running) && !(s.list_cursor < s.list_entries.len() && s.list_entries[s.list_cursor as int] is Check)
            ==> s.output_pane().1 == s.output_lines,
{
}

proof fn lemma_lines_acc_no_newline(s: Seq<char>)
    ensures
        forall|k: int| 0 <= k < crate::text::lines_acc(s).0.len() ==> !#[trigger] crate::text::lines_acc(s).0[k].contains('\n'),
        !crate::text::lines_acc(s).1.contains('\n'),
    decreases s.len(),
{
    if s.len() > 0 {
        lemma_lines_acc_no_newline(s.drop_last());
        let (done, cur) = crate::text::lines_acc(s.drop_last());
        if s.last() == '\n' {
            let l = crate::text::strip_cr(cur);
            assert(!l.contains('\n')) by {
                if l.contains('\n') {
                    let m = choose|m: int| 0 <= m < l.len() && l[m] == '\n';
                    assert(cur[m] == '\n');
                }
            }
            assert forall|k: int| 0 <= k < done.push(l).len() implies !#[trigger] done.push(l)[k].contains('\n') by {
                if k < done.len() {
                    assert(done.push(l)[k] == done[k]);
                }
            }
        } else {
            let c2 = cur.push(s.last());
            assert(!c2.contains('\n')) by {
                if c2.contains('\n') {
                    let m = choose|m: int| 0 <= m < c2.len() && c2[m] == '\n';
                    if m < cur.len() {
                        assert(cur[m] == '\n');
                    }
                }
            }
        }
    }
}

/// No line that `str::lines` splitting gives holds a line feed.
pub proof fn lemma_lines_have_no_newline(s: Seq<char>)
    ensures
        forall|k: int| 0 <= k < crate::text::lines_of(s).len() ==> !#[trigger] crate::text::lines_of(s)[k].contains('\n'),
{
    lemma_lines_acc_no_newline(s);
    let (done, cur) = crate::text::lines_acc(s);
    if cur.len() > 0 {
        assert forall|k: int| 0 <= k < done.push(cur).len() implies !#[trigger] done.push(cur)[k].contains('\n') by {
            if k < done.len() {
                assert(done.push(cur)[k] == done[k]);
            }
        }
    }
}

proof fn lemma_trim_start_cut(s: Seq<char>) -> (a: int)
    ensures
        0 <= a <= s.len(),
        crate::text::trim_start(s) == s.skip(a),
        forall|i: int| 0 <= i < a ==> crate::text::is_ws(#[trigger] s[i]),
        a < s.len() ==> !crate::text::is_ws(s[a]),
    decreases s.len(),
{
    if s.len() > 0 && crate::text::is_ws(s[0]) {
        let a1 = lemma_trim_start_cut(s.drop_first());
        assert(s.drop_first().skip(a1) =~= s.skip(a1 + 1));
        assert forall|i: int| 0 <= i < a1 + 1 implies crate::text::is_ws(#[trigger] s[i]) by {
            if i > 0 {
                assert(s.drop_first()[i - 1] == s[i]);
            }
        }
        a1 + 1
    } else {
        assert(s.skip(0) =~= s);
        0
    }
}

proof fn lemma_trim_end_cut(s: Seq<char>) -> (b: int)
    ensures
        0 <= b <= s.len(),
        crate::text::trim_end(s) == s.take(b),
        forall|i: int| b <= i < s.len() ==> crate::text::is_ws(#[trigger] s[i]),
        b > 0 ==> !crate::text::is_ws(s[b - 1]),
    decreases s.len(),
{
    if s.len() > 0 && crate::text::is_ws(s.last()) {
        let b1 = lemma_trim_end_cut(s.drop_last());
        assert(s.drop_last().take(b1) =~= s.take(b1));
        assert forall|i: int| b1 <= i < s.len() implies crate::text::is_ws(#[trigger] s[i]) by {
            if i < s.len() - 1 {
                assert(s.drop_last()[i] == s[i]);
            }
        }
        b1
    } else {
        assert(s.take(s.len() as int) =~= s);
        s.len() as int
    }
}

/// Trimming removes whitespace from both ends and nothing else: the result
/// is a stretch of the text, everything cut off is whitespace, and the
/// result neither starts nor ends with whitespace.
pub proof fn lemma_trimmed(s: Seq<char>)
    ensures
        exists|a: int, b: int|
            0 <= a <= b <= s.len() && crate::text::trimmed(s) == s.subrange(a, b) && (forall|i: int|
                0 <= i < a ==> crate::text::is_ws(#[trigger] s[i])) && (forall|i: int|
                b <= i < s.len() ==> crate::text::is_ws(#[trigger] s[i])),
        crate::text::trimmed(s).len() > 0 ==> !crate::text::is_ws(crate::text::trimmed(s)[0]) && !crate::text::is_ws(
            crate::text::trimmed(s).last(),
        ),
{
    let a = lemma_trim_start_cut(s);
    let t = s.skip(a);
    let b = lemma_trim_end_cut(t);
    assert(t.take(b) =~= s.subrange(a, a + b));
    assert forall|i: int| a + b <= i < s.len() implies crate::text::is_ws(#[trigger] s[i]) by {
        assert(t[i - a] == s[i]);
    }
    assert(crate::text::trimmed(s) == s.subrange(a, a + b));
    if b > 0 {
        assert(crate::text::trimmed(s)[0] == s[a]);
        assert(crate::text::trimmed(s).last() == t[b - 1]);
    }
}

/// Up moves the cursor to the entry before it (staying on the first) and
/// Down to the entry after it (staying on the last); both bring the output
/// back to its top.
pub proof fn lemma_list_moves_by_one(s: AppView)
    requires
        s.list_entries.len() <= usize::MAX,
    ensures
        s.list_up().list_cursor == if s.list_cursor > 0 { s.list_cursor - 1 } else { 0 },
        s.list_down().list_cursor == if s.list_cursor + 1 < s.list_entries.len() {
            s.list_cursor + 1
        } else {
            s.list_cursor as int
        },
        s.list_up().output_scroll == 0 && s.list_down().output_scroll == 0,
        s.list_up().selected == s.selected && s.list_down().selected == s.selected,
{
}

/// Reading the audit folder locks exactly the audited checks whose pass log
/// is present, and those show passed after the reset that follows; every
/// other check shows pending.
pub proof fn lemma_audited_state_locks_present(s: AppView, present: Seq<bool>, i: int)
    requires
        0 <= i < s.checks.len(),
        s.checks.len() <= usize::MAX,
        s.statuses.len() == s.checks.len(),
    ensures
        s.apply_audited_state(present).is_locked(i) <==> s.checks[i].audited && present[i],
        s.apply_audited_state(present).statuses[i] == if s.checks[i].audited && present[i] {
            CheckStatus::Passed
        } else {
            CheckStatus::Pending
        },
{
}

/// Typing a character appends it to the focused text field and to no other;
/// on the config field nothing is typed. Only a change of the project path
/// asks for the branch to be detected again.
pub proof fn lemma_typing_goes_to_focused_field(s: AppView, c: char)
    ensures
        ({
            let (t, changed) = s.setup_type_char(c);
            &&& t.setup_project_path == if s.setup_focus == crate::app::SetupField::ProjectPath {
                s.setup_project_path.push(c)
            } else {
                s.setup_project_path
            }
            &&& t.setup_branch == if s.setup_focus == crate::app::SetupField::Branch {
                s.setup_branch.push(c)
            } else {
                s.setup_branch
            }
            &&& t.setup_log_folder == if s.setup_focus == crate::app::SetupField::LogFolder {
                s.setup_log_folder.push(c)
            } else {
                s.setup_log_folder
            }
            &&& changed == (s.setup_focus == crate::app::SetupField::ProjectPath)
        }),
{
}

/// Confirming the setup: a path that does not exist, that is not a folder,
/// or no loaded checks keep the setup screen with the matching error;
/// otherwise the setup is accepted, and committing it opens the selecting
/// screen on that project with no error.
pub proof fn lemma_confirm_setup(s: AppView, exists: bool, is_dir: bool, branch: Seq<char>, staged: Seq<Seq<char>>)
    ensures
        ({
            let (t, ok) = s.confirm_setup_check(exists, is_dir);
            &&& ok <==> exists && is_dir && s.checks.len() > 0
            &&& !ok ==> t.setup_error is Some && t.mode == s.mode
            &&& ok ==> t == s
        }),
        s.commit_setup(branch, staged).mode == AppMode::Selecting,
        s.commit_setup(branch, staged).repo_root == s.setup_project_path,
        s.commit_setup(branch, staged).current_branch == branch,
        s.commit_setup(branch, staged).setup_error is None,
{
}

} // verus!
