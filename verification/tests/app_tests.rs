use std::collections::{HashMap, HashSet};

use autocheck::app::{audit_file_path, App, AppMode, CheckStatus, ListEntry, Rect, RunStep, SetupField, SetupTab};
use autocheck::checks::{Check, Cmd, Group};
use autocheck::config::SavedConfig;
use autocheck::protocol::{result_messages, start_messages, RunMessage};

fn make_app_with_checks(checks: Vec<Check>) -> App {
    let n = checks.len();
    let mut app = App {
        mode: AppMode::Selecting,
        groups: vec![Group { label: "Test".into(), color: None, checks: checks.clone() }],
        checks,
        check_group_map: vec![0; n],
        selected: vec![true; n],
        statuses: vec![CheckStatus::Pending; n],
        elapsed: vec![None; n],
        list_entries: Vec::new(),
        list_cursor: 0,
        list_scroll_offset: 0,
        list_visible_height: 20,
        list_area: None,
        output_lines: Vec::new(),
        check_logs: HashMap::new(),
        audited_passed: HashSet::new(),
        output_scroll: 0,
        output_pane_height: 20,
        repo_root: ".".into(),
        current_branch: String::new(),
        staged_files: Vec::new(),
        setup_tab: SetupTab::Run,
        setup_project_path: String::new(),
        setup_branch: String::new(),
        setup_log_folder: String::new(),
        setup_focus: SetupField::ProjectPath,
        setup_error: None,
        setup_log: Vec::new(),
        config_paths: Vec::new(),
        config_idx: 0,
        config_dropdown_open: false,
        selected_config_path: None,
        mouse_capture: true,
    };
    app.rebuild_list_entries();
    app
}

fn dummy_check(name: &str) -> Check {
    Check {
        name: name.into(),
        description: "desc".into(),
        cmd: Cmd::Array(vec!["true".into()]),
        manual: false,
        audited: false,
    }
}

fn audited_check(name: &str) -> Check {
    Check {
        name: name.into(),
        description: "desc".into(),
        cmd: Cmd::Array(vec!["true".into()]),
        manual: false,
        audited: true,
    }
}

fn manual_check(name: &str) -> Check {
    Check {
        name: name.into(),
        description: "desc".into(),
        cmd: Cmd::String("echo hi".into()),
        manual: true,
        audited: false,
    }
}

#[test]
fn test_list_entries_generated() {
    let app = make_app_with_checks(vec![dummy_check("a"), dummy_check("b")]);
    // 1 group header + 2 check entries
    assert_eq!(app.list_entries.len(), 3);
}

#[test]
fn test_toggle_check() {
    let mut app = make_app_with_checks(vec![dummy_check("a")]);
    // cursor 0 = group header, cursor 1 = check
    app.list_cursor = 1;
    assert!(app.selected[0]);
    app.toggle_current();
    assert!(!app.selected[0]);
    app.toggle_current();
    assert!(app.selected[0]);
}

#[test]
fn test_toggle_group_all_selected_deselects() {
    let mut app = make_app_with_checks(vec![dummy_check("a"), dummy_check("b")]);
    app.selected = vec![true, true];
    app.list_cursor = 0; // group header
    app.toggle_current();
    assert!(!app.selected[0]);
    assert!(!app.selected[1]);
}

#[test]
fn test_toggle_group_partial_selects_all() {
    let mut app = make_app_with_checks(vec![dummy_check("a"), dummy_check("b")]);
    app.selected = vec![true, false];
    app.list_cursor = 0;
    app.toggle_current();
    assert!(app.selected[0]);
    assert!(app.selected[1]);
}

#[test]
fn test_select_all() {
    let mut app = make_app_with_checks(vec![dummy_check("a"), dummy_check("b")]);
    app.selected = vec![false, false];
    app.select_all();
    assert!(app.selected.iter().all(|&s| s));
}

#[test]
fn test_select_none() {
    let mut app = make_app_with_checks(vec![dummy_check("a"), dummy_check("b")]);
    app.select_none();
    assert!(app.selected.iter().all(|&s| !s));
}

#[test]
fn test_summary_counts() {
    let mut app = make_app_with_checks(vec![dummy_check("a"), dummy_check("b"), dummy_check("c")]);
    app.statuses[0] = CheckStatus::Passed;
    app.statuses[1] = CheckStatus::Failed;
    app.statuses[2] = CheckStatus::Skipped;
    let (p, f, s) = app.summary_counts();
    assert_eq!(p, 1);
    assert_eq!(f, 1);
    assert_eq!(s, 1);
}

#[test]
fn test_reset_clears_state() {
    let mut app = make_app_with_checks(vec![dummy_check("a")]);
    app.statuses[0] = CheckStatus::Passed;
    app.output_lines.push("line".into());
    app.reset_run_state();
    assert!(matches!(app.statuses[0], CheckStatus::Pending));
    assert!(app.output_lines.is_empty());
}

#[test]
fn test_app_starts_in_setup_mode() {
    let app = App::new(&SavedConfig::default(), Vec::new());
    assert_eq!(app.mode, AppMode::Setup);
}

#[test]
fn test_reset_keeps_audited_checks_passed() {
    let mut app = make_app_with_checks(vec![audited_check("audit")]);
    app.audited_passed.insert(0);
    app.reset_run_state();
    assert_eq!(app.statuses[0], CheckStatus::Passed);
}

#[test]
fn test_reset_current_audited_unlocks_selected_check() {
    let mut app = make_app_with_checks(vec![audited_check("audit")]);
    app.audited_passed.insert(0);
    app.list_cursor = 1;
    app.statuses[0] = CheckStatus::Passed;
    app.reset_current_audited();
    assert!(!app.audited_passed.contains(&0));
    assert_eq!(app.statuses[0], CheckStatus::Pending);
}

// ── Further scenarios ─────────────────────────────────────────────────────

#[test]
fn status_icons_and_names() {
    assert_eq!(CheckStatus::Pending.icon(), "○");
    assert_eq!(CheckStatus::Running.icon(), "◐");
    assert_eq!(CheckStatus::ManualPassed.icon(), "✓");
    assert_eq!(CheckStatus::ManualFailed.icon(), "✗");
    assert_eq!(CheckStatus::Skipped.icon(), "⊘");
    assert_eq!(CheckStatus::ManualFailed.name(), "ManualFailed");
}

#[test]
fn list_entries_follow_groups() {
    let mut app = make_app_with_checks(vec![]);
    app.load_checks_from_groups(vec![
        Group { label: "A".into(), color: None, checks: vec![dummy_check("a1"), dummy_check("a2")] },
        Group { label: "B".into(), color: Some("Red".into()), checks: vec![dummy_check("b1")] },
    ]);
    assert_eq!(app.check_group_map, vec![0, 0, 1]);
    assert_eq!(
        app.list_entries,
        vec![
            ListEntry::Group { group_idx: 0 },
            ListEntry::Check { group_idx: 0, check_idx: 0 },
            ListEntry::Check { group_idx: 0, check_idx: 1 },
            ListEntry::Group { group_idx: 1 },
            ListEntry::Check { group_idx: 1, check_idx: 2 },
        ]
    );
    assert!(app.selected.iter().all(|&s| s));
    assert_eq!(app.statuses, vec![CheckStatus::Pending; 3]);
}

#[test]
fn toggle_group_twice_restores_uniform_group() {
    let mut app = make_app_with_checks(vec![dummy_check("a"), dummy_check("b")]);
    app.toggle_group(0);
    assert_eq!(app.selected, vec![false, false]);
    app.toggle_group(0);
    assert_eq!(app.selected, vec![true, true]);
}

#[test]
fn list_navigation_keeps_cursor_visible() {
    let mut app = make_app_with_checks(vec![dummy_check("a"), dummy_check("b"), dummy_check("c")]);
    app.list_visible_height = 2;
    app.output_scroll = 5;
    app.list_down();
    app.list_down();
    assert_eq!(app.list_cursor, 2);
    assert_eq!(app.list_scroll_offset, 1);
    assert_eq!(app.output_scroll, 0);
    app.list_down();
    app.list_down();
    assert_eq!(app.list_cursor, 3);
    assert_eq!(app.list_scroll_offset, 2);
    app.list_up();
    app.list_up();
    assert_eq!(app.list_cursor, 1);
    assert_eq!(app.list_scroll_offset, 1);
    app.list_up();
    app.list_up();
    assert_eq!(app.list_cursor, 0);
    assert_eq!(app.list_scroll_offset, 0);
}

#[test]
fn scrolling_the_output() {
    let mut app = make_app_with_checks(vec![dummy_check("a")]);
    app.output_pane_height = 0;
    app.page_down();
    assert_eq!(app.output_scroll, 1);
    app.output_pane_height = 10;
    app.page_down();
    assert_eq!(app.output_scroll, 11);
    app.page_up();
    app.page_up();
    assert_eq!(app.output_scroll, 0);
    app.scroll_up();
    assert_eq!(app.output_scroll, 0);
    app.scroll_down();
    assert_eq!(app.output_scroll, 1);
    app.output_lines = vec!["x".into(), "y".into(), "z".into()];
    app.scroll_to_bottom();
    assert_eq!(app.output_scroll, 2);
    app.scroll_to_top();
    assert_eq!(app.output_scroll, 0);
}

#[test]
fn click_toggles_entry_below_border() {
    let mut app = make_app_with_checks(vec![dummy_check("a"), dummy_check("b")]);
    app.list_area = Some(Rect { x: 0, y: 3, width: 30, height: 10 });
    app.handle_click(5, 5); // inner row 1: first check
    assert_eq!(app.list_cursor, 1);
    assert!(!app.selected[0]);
    app.handle_click(40, 5); // outside the area
    assert!(!app.selected[0]);
    app.handle_click(5, 11); // inner row 7: no entry
    assert_eq!(app.list_cursor, 1);
    app.handle_click(5, 3); // top border
    assert_eq!(app.list_cursor, 1);
    assert!(!app.selected[0]);
    app.handle_click(5, 12); // bottom border
    assert_eq!(app.list_cursor, 1);
}

#[test]
fn click_on_scrolled_list_toggles_drawn_entry() {
    let mut app = make_app_with_checks(vec![dummy_check("a"), dummy_check("b")]);
    app.list_area = Some(Rect { x: 0, y: 3, width: 30, height: 10 });
    app.list_scroll_offset = 1;
    app.handle_click(5, 4); // first row inside the border shows entry 1
    assert_eq!(app.list_cursor, 1);
    assert!(!app.selected[0]);
    assert!(app.selected[1]);
    app.handle_click(5, 5); // entry 2: the second check
    assert_eq!(app.list_cursor, 2);
    assert!(!app.selected[1]);
}

#[test]
fn start_running_skips_unselected_and_locked() {
    let mut app = make_app_with_checks(vec![dummy_check("a"), audited_check("b"), dummy_check("c")]);
    app.audited_passed.insert(1);
    app.selected = vec![true, true, false];
    app.output_lines.push("old".into());
    assert!(app.start_running());
    assert_eq!(app.mode, AppMode::Running { idx: 0 });
    assert_eq!(app.statuses, vec![CheckStatus::Pending, CheckStatus::Skipped, CheckStatus::Skipped]);
    assert!(app.output_lines.is_empty());
}

#[test]
fn start_running_without_runnable_check_does_nothing() {
    let mut app = make_app_with_checks(vec![dummy_check("a")]);
    app.selected = vec![false];
    assert!(!app.start_running());
    assert_eq!(app.mode, AppMode::Selecting);
    assert_eq!(app.statuses, vec![CheckStatus::Pending]);
}

#[test]
fn group_icons() {
    let mut app = make_app_with_checks(vec![dummy_check("a"), dummy_check("b")]);
    assert_eq!(app.group_status_icon(0), "○");
    app.statuses = vec![CheckStatus::Passed, CheckStatus::Skipped];
    assert_eq!(app.group_status_icon(0), "✓");
    app.statuses = vec![CheckStatus::Passed, CheckStatus::ManualFailed];
    assert_eq!(app.group_status_icon(0), "✗");
    app.statuses = vec![CheckStatus::Running, CheckStatus::Failed];
    assert_eq!(app.group_status_icon(0), "◐");
    app.statuses = vec![CheckStatus::Passed, CheckStatus::Pending];
    assert_eq!(app.group_status_icon(0), "○");
    app.selected = vec![true, false];
    assert_eq!(app.group_status_icon(0), "✓");
}

#[test]
fn poll_log_applies_messages() {
    let mut app = make_app_with_checks(vec![dummy_check("a"), audited_check("b")]);
    app.mode = AppMode::Running { idx: 0 };
    let msgs: Vec<String> = vec![
        "STATUS:1:Running".into(),
        "LOG:1:▶ b".into(),
        "OUT:hello".into(),
        "ELAPSED:1:42".into(),
        "STATUS:1:Passed".into(),
        "AUDITED_PASS:1".into(),
        "LOG:x:ignored".into(),
        "garbage".into(),
        "DONE:".into(),
    ];
    let out = app.poll_log(&msgs);
    assert!(out.finished);
    assert_eq!(app.mode, AppMode::Done);
    assert_eq!(app.statuses[1], CheckStatus::Passed);
    assert_eq!(app.elapsed[1], Some(42));
    assert_eq!(app.output_lines, vec!["hello".to_string()]);
    assert_eq!(app.check_logs.get(&1), Some(&vec!["▶ b".to_string()]));
    assert!(app.audited_passed.contains(&1));
    assert_eq!(out.writes.len(), 1);
    assert_eq!(out.writes[0].dir, "./.autocheck_audited");
    assert_eq!(out.writes[0].path, "./.autocheck_audited/test_b.log");
    assert_eq!(out.writes[0].content, "check=b\nstatus=Passed\n▶ b\n");
}

#[test]
fn poll_log_manual_prompt_waits_for_verdict() {
    let mut app = make_app_with_checks(vec![manual_check("m"), dummy_check("b")]);
    app.mode = AppMode::Running { idx: 0 };
    let msgs: Vec<String> = vec!["STATUS:0:AwaitManual".into(), "MANUAL:0:prompt".into()];
    let out = app.poll_log(&msgs);
    assert!(!out.finished);
    assert_eq!(app.mode, AppMode::AwaitingManualResult { idx: 0 });
    assert_eq!(app.statuses[0], CheckStatus::Pending);
    let verdict = app.manual_pass();
    assert_eq!(verdict.step, RunStep::RunFrom(1));
    assert!(verdict.audit_write.is_none());
    assert_eq!(app.mode, AppMode::Running { idx: 1 });
    assert_eq!(app.statuses[0], CheckStatus::ManualPassed);
    assert_eq!(app.output_lines, vec!["[manual] m — PASSED".to_string()]);
}

#[test]
fn manual_fail_on_last_check_finishes() {
    let mut app = make_app_with_checks(vec![dummy_check("a"), manual_check("m")]);
    app.mode = AppMode::AwaitingManualResult { idx: 1 };
    let verdict = app.manual_fail();
    assert_eq!(verdict.step, RunStep::Finish);
    assert_eq!(app.mode, AppMode::Done);
    assert_eq!(app.statuses[1], CheckStatus::ManualFailed);
    assert_eq!(app.check_logs.get(&1), Some(&vec!["[manual] m — FAILED".to_string()]));
}

#[test]
fn manual_verdict_outside_wait_does_nothing() {
    let mut app = make_app_with_checks(vec![manual_check("m")]);
    let verdict = app.manual_pass();
    assert_eq!(verdict.step, RunStep::Idle);
    assert_eq!(app.statuses[0], CheckStatus::Pending);
}

#[test]
fn log_files_text() {
    let mut app = make_app_with_checks(vec![dummy_check("a"), dummy_check("b")]);
    app.current_branch = "main".into();
    app.statuses = vec![CheckStatus::Passed, CheckStatus::Failed];
    app.check_logs.insert(1, vec!["boom".into()]);
    assert_eq!(
        app.run_log_content(),
        "Branch: main\nStaged files: (none)\n---\n\n## a — Passed\n\n## b — Failed\nboom\n"
    );
    app.staged_files = vec!["x.rs".into(), "y.rs".into()];
    assert_eq!(
        app.failed_log_content(),
        "Branch: main\nStaged files: x.rs, y.rs\n---\n\n## b — FAILED\nboom\n"
    );
    app.statuses = vec![CheckStatus::Passed, CheckStatus::Skipped];
    assert_eq!(app.failed_log_content(), "Branch: main\nStaged files: x.rs, y.rs\n---\n");
}

#[test]
fn audit_paths() {
    let mut app = make_app_with_checks(vec![audited_check("Unit Tests/Fast")]);
    app.groups[0].label = "My Group".into();
    app.repo_root = "/repo".into();
    app.setup_log_folder = "  audit  ".into();
    assert_eq!(app.audited_state_path(), "/repo/audit");
    assert_eq!(app.audited_log_path(0), "/repo/audit/my_group_unit_tests_fast.log");
    app.setup_log_folder = "   ".into();
    assert_eq!(app.audited_state_path(), "/repo/.autocheck_audited");
}

#[test]
fn apply_audited_state_marks_passed() {
    let mut app = make_app_with_checks(vec![audited_check("a"), dummy_check("b"), audited_check("c")]);
    app.apply_audited_state(&vec![true, true, false]);
    assert!(app.audited_passed.contains(&0));
    assert!(!app.audited_passed.contains(&1));
    assert!(!app.audited_passed.contains(&2));
    assert_eq!(app.statuses, vec![CheckStatus::Passed, CheckStatus::Pending, CheckStatus::Pending]);
}

#[test]
fn setup_form_editing() {
    let mut app = App::new(&SavedConfig::default(), Vec::new());
    app.setup_error = Some("old".into());
    assert!(app.setup_type_char('/'));
    assert!(app.setup_type_char('x'));
    assert_eq!(app.setup_project_path, "/x");
    assert_eq!(app.setup_error, None);
    app.setup_focus_next();
    assert_eq!(app.setup_focus, SetupField::Branch);
    assert!(!app.setup_type_char('b'));
    assert!(!app.setup_backspace());
    assert_eq!(app.setup_branch, "");
    app.setup_focus_next();
    assert!(!app.setup_type_char('z'));
    assert_eq!(app.setup_focus, SetupField::Config);
    app.setup_focus_next();
    assert_eq!(app.setup_focus, SetupField::ProjectPath);
    app.setup_focus_prev();
    assert_eq!(app.setup_focus, SetupField::Config);
    app.setup_tab_next();
    assert_eq!(app.setup_tab, SetupTab::Settings);
    assert_eq!(app.setup_focus, SetupField::LogFolder);
    app.setup_tab_prev();
    assert_eq!(app.setup_tab, SetupTab::Run);
    assert_eq!(app.setup_focus, SetupField::ProjectPath);
}

#[test]
fn new_picks_saved_config() {
    let saved = SavedConfig {
        repo: "/r".into(),
        branch: "dev".into(),
        selected_config: "/c/b.json".into(),
        log_folder: "logs".into(),
    };
    let app = App::new(&saved, vec!["/c/a.json".into(), "/c/b.json".into()]);
    assert_eq!(app.config_idx, 1);
    assert_eq!(app.setup_project_path, "/r");
    assert_eq!(app.setup_branch, "dev");
    let app2 = App::new(&saved, vec!["/c/a.json".into()]);
    assert_eq!(app2.config_idx, 0);
}

#[test]
fn config_cycling() {
    let mut app = App::new(&SavedConfig::default(), vec!["a".into(), "b".into(), "c".into()]);
    assert_eq!(app.next_config(), Some(1));
    assert_eq!(app.next_config(), Some(2));
    assert_eq!(app.next_config(), Some(0));
    assert_eq!(app.prev_config(), Some(2));
    let mut empty = App::new(&SavedConfig::default(), Vec::new());
    assert_eq!(empty.next_config(), None);
    assert_eq!(empty.prev_config(), None);
}

#[test]
fn confirm_setup_errors() {
    let mut app = App::new(&SavedConfig::default(), Vec::new());
    app.setup_project_path = "/nowhere".into();
    assert!(!app.confirm_setup_check(false, false));
    assert_eq!(app.setup_error, Some("Path does not exist: /nowhere".to_string()));
    assert!(!app.confirm_setup_check(true, false));
    assert_eq!(app.setup_error, Some("Path is not a directory: /nowhere".to_string()));
    assert!(!app.confirm_setup_check(true, true));
    assert_eq!(
        app.setup_error,
        Some("No checks config loaded. Select a valid config file.".to_string())
    );
}

#[test]
fn commit_setup_enters_selecting() {
    let mut app = make_app_with_checks(vec![dummy_check("a")]);
    app.mode = AppMode::Setup;
    app.setup_project_path = "/proj".into();
    app.setup_branch = "dev".into();
    app.selected_config_path = Some("/c.json".into());
    app.setup_error = Some("e".into());
    let saved = app.commit_setup("main".into(), vec!["f.rs".into()]);
    assert_eq!(app.mode, AppMode::Selecting);
    assert_eq!(app.repo_root, "/proj");
    assert_eq!(app.current_branch, "main");
    assert_eq!(app.staged_files, vec!["f.rs".to_string()]);
    assert_eq!(app.setup_error, None);
    assert_eq!(saved.repo, "/proj");
    assert_eq!(saved.selected_config, "/c.json");
}

#[test]
fn checkout_output_and_args() {
    let (args, pr) = autocheck::app::checkout_args("42");
    assert!(pr);
    assert_eq!(args, vec!["fetch".to_string(), "origin".into(), "pull/42/head:pr-42".into()]);
    let (args, pr) = autocheck::app::checkout_args("feature/x");
    assert!(!pr);
    assert_eq!(args, vec!["switch".to_string(), "feature/x".into()]);
    assert_eq!(autocheck::app::pr_switch_args("7"), vec!["switch".to_string(), "pr-7".into()]);
    let mut app = make_app_with_checks(vec![]);
    let r = app.checkout_output(vec!["out".into()], vec!["err1".into(), "err2".into()], false);
    assert_eq!(r, Err("git failed: err1".to_string()));
    assert_eq!(app.setup_log, vec!["out".to_string(), "err1".into(), "err2".into()]);
    let r = app.checkout_output(vec![], vec![], false);
    assert_eq!(r, Err("git failed: unknown error".to_string()));
    assert_eq!(app.checkout_output(vec![], vec![], true), Ok(()));
}

#[test]
fn rerun_and_resets() {
    let mut app = make_app_with_checks(vec![audited_check("a"), dummy_check("b")]);
    app.mode = AppMode::Done;
    app.statuses = vec![CheckStatus::Passed, CheckStatus::Failed];
    app.audited_passed.insert(0);
    assert!(app.rerun());
    assert_eq!(app.statuses, vec![CheckStatus::Skipped, CheckStatus::Pending]);
    app.reset_to_selecting();
    assert_eq!(app.mode, AppMode::Selecting);
    assert_eq!(app.statuses, vec![CheckStatus::Passed, CheckStatus::Pending]);
    app.reset_audited();
    assert!(app.audited_passed.is_empty());
    assert_eq!(app.statuses, vec![CheckStatus::Pending, CheckStatus::Pending]);
}

#[test]
fn dropdown_and_mouse_toggles() {
    let mut app = make_app_with_checks(vec![]);
    app.toggle_dropdown();
    assert!(app.config_dropdown_open);
    app.close_dropdown();
    assert!(!app.config_dropdown_open);
    app.toggle_mouse_capture();
    assert!(!app.mouse_capture);
}

#[test]
fn manual_verdict_skips_to_next_runnable_check() {
    let mut app = make_app_with_checks(vec![
        manual_check("m"),
        dummy_check("b"),
        audited_check("c"),
        dummy_check("d"),
    ]);
    app.selected[1] = false;
    app.audited_passed.insert(2);
    app.mode = AppMode::AwaitingManualResult { idx: 0 };
    let verdict = app.manual_pass();
    assert_eq!(verdict.step, RunStep::RunFrom(3));
    assert_eq!(app.mode, AppMode::Running { idx: 3 });
}

#[test]
fn recorded_audited_pass_locks_the_check() {
    let mut app = make_app_with_checks(vec![audited_check("c"), dummy_check("d")]);
    app.statuses[0] = CheckStatus::Passed;
    assert!(app.record_audited_pass(0).is_some());
    assert!(app.is_audited_locked(0));
    assert!(app.start_running());
    assert_eq!(app.statuses[0], CheckStatus::Skipped);
    app.reset_run_state();
    assert_eq!(app.statuses[0], CheckStatus::Passed);
    app.reset_audited();
    assert!(!app.is_audited_locked(0));
    assert_eq!(app.statuses[0], CheckStatus::Pending);
    assert_eq!(app.mode, AppMode::Selecting);
    let (p, f, s) = app.summary_counts();
    assert!(p + f + s <= app.statuses.len());
}

#[test]
fn audit_file_path_joins_names() {
    assert_eq!(audit_file_path("/repo/logs", "my_group", "fast"), "/repo/logs/my_group_fast.log");
    assert_eq!(audit_file_path("logs/", "G", "N"), "logs/G_N.log");
}

#[test]
fn worker_messages_reach_the_runner() {
    let mut app = make_app_with_checks(vec![dummy_check("a"), audited_check("b")]);
    app.mode = AppMode::Running { idx: 0 };
    let outcome: Result<(Vec<String>, bool), String> = Ok((vec!["l1".into(), "l2".into()], true));
    let mut msgs: Vec<RunMessage> = start_messages(1, &app.checks[1].clone());
    msgs.push(RunMessage::Elapsed { idx: 1, ms: 42 });
    let (rest, stop) = result_messages(1, &app.checks[1].clone(), &outcome, true);
    assert!(!stop);
    msgs.extend(rest);
    let texts: Vec<String> = msgs.iter().map(|m| m.encode()).collect();
    let out = app.poll_log(&texts);
    assert!(!out.finished);
    assert_eq!(app.mode, AppMode::Running { idx: 1 });
    assert_eq!(app.statuses[1], CheckStatus::Passed);
    assert_eq!(app.elapsed[1], Some(42));
    assert_eq!(
        app.check_logs.get(&1),
        Some(&vec!["▶ b".to_string(), "l1".to_string(), "l2".to_string()])
    );
    assert_eq!(app.output_lines, vec!["l1".to_string(), "l2".to_string()]);
    assert!(app.is_audited_locked(1));
    assert_eq!(out.writes.len(), 1);
    assert_eq!(out.writes[0].path, "./.autocheck_audited/test_b.log");
    assert_eq!(out.writes[0].content, "check=b\nstatus=Passed\n▶ b\nl1\nl2\n");
    let done = app.poll_log(&vec![RunMessage::Done.encode()]);
    assert!(done.finished);
    assert_eq!(app.mode, AppMode::Done);
}

#[test]
fn pr_switch_result() {
    assert_eq!(App::pr_switch_output("warn", true), Ok(()));
    assert_eq!(
        App::pr_switch_output("fatal: no branch\n", false),
        Err("checkout pr branch failed: fatal: no branch\n".to_string())
    );
}

#[test]
fn log_file_paths() {
    let mut app = make_app_with_checks(vec![dummy_check("a")]);
    app.repo_root = "/repo".into();
    assert_eq!(app.run_log_path(), "/repo/last_run.log");
    assert_eq!(app.failed_log_path(None), "/repo/last_failed.log");
    assert_eq!(app.failed_log_path(Some("out/fail.log".into())), "/repo/out/fail.log");
    assert_eq!(app.failed_log_path(Some("/tmp/fail.log".into())), "/tmp/fail.log");
}

#[test]
fn git_outputs() {
    assert_eq!(autocheck::app::detected_branch(Some(("  main\n".into(), true))), "main");
    assert_eq!(autocheck::app::detected_branch(Some(("main\n".into(), false))), "?");
    assert_eq!(autocheck::app::detected_branch(None), "?");
    assert_eq!(
        autocheck::app::staged_files_of(Some(("a.rs\n\nb.rs\r\n".into(), true))),
        vec!["a.rs".to_string(), "b.rs".into()]
    );
    assert!(autocheck::app::staged_files_of(Some(("a.rs\n".into(), false))).is_empty());
    assert!(autocheck::app::staged_files_of(None).is_empty());
}

#[test]
fn load_config_past_the_paths_changes_nothing() {
    let mut app = App::new(&SavedConfig::default(), vec!["a.json".into()]);
    app.load_config_at(3, Err("never read".into()));
    assert_eq!(app.setup_error, None);
    app.load_config_at(0, Err("bad".into()));
    assert_eq!(app.setup_error, Some("bad".to_string()));
}

#[test]
fn whole_run_in_order_then_done() {
    let mut app = make_app_with_checks(vec![dummy_check("a"), dummy_check("b"), dummy_check("c")]);
    app.selected[1] = false;
    assert!(app.start_running());
    let mut texts: Vec<String> = Vec::new();
    let mut from = 0;
    let mut order = Vec::new();
    while let Some(idx) =
        autocheck::protocol::next_to_run(&app.checks, &app.selected, &app.audited_passed, from)
    {
        order.push(idx);
        from = idx + 1;
        let check = app.checks[idx].clone();
        let outcome: Result<(Vec<String>, bool), String> = Ok((vec![format!("out {idx}")], idx == 0));
        for m in start_messages(idx, &check) {
            texts.push(m.encode());
        }
        texts.push(RunMessage::Elapsed { idx, ms: 10 + idx as u64 }.encode());
        for m in result_messages(idx, &check, &outcome, true).0 {
            texts.push(m.encode());
        }
    }
    texts.push(RunMessage::Done.encode());
    assert_eq!(order, vec![0, 2]);
    let out = app.poll_log(&texts);
    assert!(out.finished);
    assert_eq!(app.mode, AppMode::Done);
    assert_eq!(app.statuses, vec![CheckStatus::Passed, CheckStatus::Skipped, CheckStatus::Failed]);
    assert_eq!(app.elapsed, vec![Some(10), None, Some(12)]);
}
