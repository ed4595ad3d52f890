use autocheck::app::{App, AppMode, SetupField};
use autocheck::config::SavedConfig;
use autocheck::display::{footer_text, mode_label, progress_bar, spinner_frame, spinner_frame_at};
use autocheck::keys::{Key, KeyCommand};
use autocheck::text::{parse_usize, split_lines, usize_to_decimal};

#[test]
fn keys_by_screen() {
    let mut app = App::new(&SavedConfig::default(), vec!["a.json".into()]);
    assert_eq!(app.key_command(Key::Char('q')), KeyCommand::Quit);
    assert_eq!(app.key_command(Key::Char('x')), KeyCommand::SetupTypeChar('x'));
    assert_eq!(app.key_command(Key::Char(' ')), KeyCommand::Nothing);
    assert_eq!(app.key_command(Key::Left), KeyCommand::Nothing);
    app.setup_focus = SetupField::Config;
    assert_eq!(app.key_command(Key::Left), KeyCommand::PrevConfig);
    assert_eq!(app.key_command(Key::Char(' ')), KeyCommand::ToggleDropdown);
    app.config_dropdown_open = true;
    assert_eq!(app.key_command(Key::Char('q')), KeyCommand::Nothing);
    assert_eq!(app.key_command(Key::Down), KeyCommand::NextConfig);
    assert_eq!(app.key_command(Key::Esc), KeyCommand::CloseDropdown);
    app.config_dropdown_open = false;
    app.mode = AppMode::Selecting;
    assert_eq!(app.key_command(Key::Enter), KeyCommand::StartRunning);
    assert_eq!(app.key_command(Key::Char('a')), KeyCommand::SelectAll);
    app.mode = AppMode::Running { idx: 0 };
    assert_eq!(app.key_command(Key::Char('q')), KeyCommand::CancelAndQuit);
    assert_eq!(app.key_command(Key::Enter), KeyCommand::Nothing);
    app.mode = AppMode::AwaitingManualResult { idx: 0 };
    assert_eq!(app.key_command(Key::Char('p')), KeyCommand::ManualPass);
    assert_eq!(app.key_command(Key::Char('f')), KeyCommand::ManualFail);
    app.mode = AppMode::Done;
    assert_eq!(app.key_command(Key::Char('R')), KeyCommand::ResetAudited);
    assert_eq!(app.key_command(Key::Enter), KeyCommand::Rerun);
}

#[test]
fn labels_and_bars() {
    assert_eq!(mode_label(AppMode::AwaitingManualResult { idx: 2 }), "Awaiting verdict");
    assert_eq!(footer_text(AppMode::Running { idx: 0 }), " r reset  q quit");
    assert_eq!(progress_bar(5, 2), "██░░░");
    assert_eq!(progress_bar(3, 9), "███");
    assert_eq!(progress_bar(0, 0), "");
    assert_eq!(spinner_frame_at(0), "⠋");
    assert_eq!(spinner_frame_at(85), "⠙");
    assert_eq!(spinner_frame_at(800), "⠋");
    assert_eq!(spinner_frame_at(799), "⠏");
    assert!(!spinner_frame().is_empty());
}

#[test]
fn output_pane_choice() {
    let mut app = App::new(&SavedConfig::default(), Vec::new());
    app.mode = AppMode::Running { idx: 0 };
    app.output_lines = vec!["a".into(), "b".into()];
    app.output_scroll = 7;
    let pane = app.output_pane();
    assert_eq!(pane.title, " Output (live) — 2/2 ");
    assert_eq!(pane.lines.len(), 2);
    app.mode = AppMode::Selecting;
    let pane = app.output_pane();
    assert_eq!(pane.title, " Output — 2/2 ");
    app.clamp_output_scroll(2);
    assert_eq!(app.output_scroll, 1);
    app.output_lines.clear();
    assert_eq!(app.output_pane().title, " Output — 1/1 ");
}

#[test]
fn text_helpers() {
    assert_eq!(usize_to_decimal(0), "0");
    assert_eq!(usize_to_decimal(1234), "1234");
    assert_eq!(parse_usize("+12"), Some(12));
    assert_eq!(parse_usize("+"), None);
    assert_eq!(parse_usize(""), None);
    assert_eq!(parse_usize("1a"), None);
    assert_eq!(split_lines("a\r\nb\n\nc\r"), vec!["a", "b", "", "c\r"]);
    assert_eq!(split_lines("x\n"), vec!["x"]);
    assert!(split_lines("").is_empty());
}

#[test]
fn paging_and_mouse_keys_on_every_runner_mode() {
    let mut app = App::new(&SavedConfig::default(), Vec::new());
    for mode in [
        AppMode::Selecting,
        AppMode::Running { idx: 0 },
        AppMode::AwaitingManualResult { idx: 0 },
        AppMode::Done,
    ] {
        app.mode = mode;
        assert_eq!(app.key_command(Key::PageUp), KeyCommand::PageUp);
        assert_eq!(app.key_command(Key::PageDown), KeyCommand::PageDown);
        assert_eq!(app.key_command(Key::Char('m')), KeyCommand::ToggleMouseCapture);
    }
    app.mode = AppMode::Setup;
    assert_eq!(app.key_command(Key::Char('m')), KeyCommand::SetupTypeChar('m'));
}
