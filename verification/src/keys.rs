//! Keyboard input: which command each key gives in each screen.

use vstd::prelude::*;

use crate::app::{App, AppMode, SetupField};

verus! {

/// A key press, as the runner tells keys apart.
#[derive(Debug, Clone, Copy, PartialEq, Eq, Structural)]
pub enum Key {
    Char(char),
    Up,
    Down,
    Left,
    Right,
    Enter,
    Esc,
    Tab,
    BackTab,
    Backspace,
    Home,
    End,
    PageUp,
    PageDown,
    /// Any other key.
    Other,
}

/// What a key asks the runner to do.
#[derive(Debug, Clone, Copy, PartialEq, Eq, Structural)]
pub enum KeyCommand {
    Nothing,
    Quit,
    /// Cancel the run in progress, then quit.
    CancelAndQuit,
    PrevConfig,
    NextConfig,
    CloseDropdown,
    ToggleDropdown,
    SetupFocusNext,
    SetupFocusPrev,
    ConfirmSetup,
    SetupBackspace,
    SetupTypeChar(char),
    ListUp,
    ListDown,
    ToggleCurrent,
    SelectAll,
    SelectNone,
    StartRunning,
    ToggleMouseCapture,
    ScrollToTop,
    ScrollToBottom,
    PageUp,
    PageDown,
    ResetToSelecting,
    ManualPass,
    ManualFail,
    Rerun,
    ResetAudited,
    ResetCurrentAudited,
}

/// The command of a key, by screen. On the setup screen an open config list
/// takes the arrows, Enter, Esc and Space; otherwise Left and Right cycle
/// configs and Space opens the list when the config field has the focus,
/// and other characters are typed. Each screen has its own keys; `q` quits
/// everywhere but in an open config list, cancelling a run that is in
/// progress or waits for a verdict; on the runner screen, whatever its
/// mode, PageUp and PageDown scroll the output and `m` toggles the mouse.
pub open spec fn key_command_of(mode: AppMode, dropdown_open: bool, focus: SetupField, key: Key) -> KeyCommand {
    match mode {
        AppMode::Setup => if dropdown_open {
            match key {
                Key::Up => KeyCommand::PrevConfig,
                Key::Down => KeyCommand::NextConfig,
                Key::Enter | Key::Esc | Key::Char(' ') => KeyCommand::CloseDropdown,
                _ => KeyCommand::Nothing,
            }
        } else {
            match key {
                Key::Char('q') => KeyCommand::Quit,
                Key::Left => if focus == SetupField::Config {
                    KeyCommand::PrevConfig
                } else {
                    KeyCommand::Nothing
                },
                Key::Right => if focus == SetupField::Config {
                    KeyCommand::NextConfig
                } else {
                    KeyCommand::Nothing
                },
                Key::Tab | Key::Down => KeyCommand::SetupFocusNext,
                Key::BackTab | Key::Up => KeyCommand::SetupFocusPrev,
                Key::Char(' ') => if focus == SetupField::Config {
                    KeyCommand::ToggleDropdown
                } else {
                    KeyCommand::Nothing
                },
                Key::Esc => KeyCommand::CloseDropdown,
                Key::Enter => KeyCommand::ConfirmSetup,
                Key::Backspace => KeyCommand::SetupBackspace,
                Key::Char(c) => KeyCommand::SetupTypeChar(c),
                _ => KeyCommand::Nothing,
            }
        },
        AppMode::Selecting => match key {
            Key::Char('q') => KeyCommand::Quit,
            Key::Up => KeyCommand::ListUp,
            Key::Down => KeyCommand::ListDown,
            Key::Char(' ') => KeyCommand::ToggleCurrent,
            Key::Char('a') => KeyCommand::SelectAll,
            Key::Char('n') => KeyCommand::SelectNone,
            Key::Enter => KeyCommand::StartRunning,
            Key::Char('m') => KeyCommand::ToggleMouseCapture,
            Key::Home => KeyCommand::ScrollToTop,
            Key::End => KeyCommand::ScrollToBottom,
            Key::PageUp => KeyCommand::PageUp,
            Key::PageDown => KeyCommand::PageDown,
            _ => KeyCommand::Nothing,
        },
        AppMode::Running { .. } => match key {
            Key::Char('q') => KeyCommand::CancelAndQuit,
            Key::Char('r') => KeyCommand::ResetToSelecting,
            Key::Home => KeyCommand::ScrollToTop,
            Key::End => KeyCommand::ScrollToBottom,
            Key::PageUp => KeyCommand::PageUp,
            Key::PageDown => KeyCommand::PageDown,
            Key::Char('m') => KeyCommand::ToggleMouseCapture,
            _ => KeyCommand::Nothing,
        },
        AppMode::AwaitingManualResult { .. } => match key {
            Key::Char('p') => KeyCommand::ManualPass,
            Key::Char('f') => KeyCommand::ManualFail,
            Key::Char('q') => KeyCommand::CancelAndQuit,
            Key::PageUp => KeyCommand::PageUp,
            Key::PageDown => KeyCommand::PageDown,
            Key::Char('m') => KeyCommand::ToggleMouseCapture,
            _ => KeyCommand::Nothing,
        },
        AppMode::Done => match key {
            Key::Char('q') => KeyCommand::Quit,
            Key::Enter => KeyCommand::Rerun,
            Key::Char('r') => KeyCommand::ResetToSelecting,
            Key::Char('R') => KeyCommand::ResetAudited,
            Key::Char('x') => KeyCommand::ResetCurrentAudited,
            Key::Up => KeyCommand::ListUp,
            Key::Down => KeyCommand::ListDown,
            Key::Home => KeyCommand::ScrollToTop,
            Key::End => KeyCommand::ScrollToBottom,
            Key::PageUp => KeyCommand::PageUp,
            Key::PageDown => KeyCommand::PageDown,
            Key::Char('m') => KeyCommand::ToggleMouseCapture,
            _ => KeyCommand::Nothing,
        },
    }
}

impl App {
    /// The command that `key` gives in the current screen.
    pub fn key_command(&self, key: Key) -> (cmd: KeyCommand)
        ensures
            cmd == key_command_of(self.mode, self.config_dropdown_open, self.setup_focus, key),
    {
        match self.mode {
            AppMode::Setup => {
                if self.config_dropdown_open {
                    return match key {
                        Key::Up => KeyCommand::PrevConfig,
                        Key::Down => KeyCommand::NextConfig,
                        Key::Enter | Key::Esc | Key::Char(' ') => KeyCommand::CloseDropdown,
                        _ => KeyCommand::Nothing,
                    };
                }
                let on_config = self.setup_focus == SetupField::Config;
                match key {
                    Key::Char('q') => KeyCommand::Quit,
                    Key::Left => if on_config {
                        KeyCommand::PrevConfig
                    } else {
                        KeyCommand::Nothing
                    },
                    Key::Right => if on_config {
                        KeyCommand::NextConfig
                    } else {
                        KeyCommand::Nothing
                    },
                    Key::Tab | Key::Down => KeyCommand::SetupFocusNext,
                    Key::BackTab | Key::Up => KeyCommand::SetupFocusPrev,
                    Key::Char(' ') => if on_config {
                        KeyCommand::ToggleDropdown
                    } else {
                        KeyCommand::Nothing
                    },
                    Key::Esc => KeyCommand::CloseDropdown,
                    Key::Enter => KeyCommand::ConfirmSetup,
                    Key::Backspace => KeyCommand::SetupBackspace,
                    Key::Char(c) => KeyCommand::SetupTypeChar(c),
                    _ => KeyCommand::Nothing,
                }
            },
            AppMode::Selecting => match key {
                Key::Char('q') => KeyCommand::Quit,
                Key::Up => KeyCommand::ListUp,
                Key::Down => KeyCommand::ListDown,
                Key::Char(' ') => KeyCommand::ToggleCurrent,
                Key::Char('a') => KeyCommand::SelectAll,
                Key::Char('n') => KeyCommand::SelectNone,
                Key::Enter => KeyCommand::StartRunning,
                Key::Char('m') => KeyCommand::ToggleMouseCapture,
                Key::Home => KeyCommand::ScrollToTop,
                Key::End => KeyCommand::ScrollToBottom,
                Key::PageUp => KeyCommand::PageUp,
                Key::PageDown => KeyCommand::PageDown,
                _ => KeyCommand::Nothing,
            },
            AppMode::Running { .. } => match key {
                Key::Char('q') => KeyCommand::CancelAndQuit,
                Key::Char('r') => KeyCommand::ResetToSelecting,
                Key::Home => KeyCommand::ScrollToTop,
                Key::End => KeyCommand::ScrollToBottom,
                Key::PageUp => KeyCommand::PageUp,
                Key::PageDown => KeyCommand::PageDown,
                Key::Char('m') => KeyCommand::ToggleMouseCapture,
                _ => KeyCommand::Nothing,
            },
            AppMode::AwaitingManualResult { .. } => match key {
                Key::Char('p') => KeyCommand::ManualPass,
                Key::Char('f') => KeyCommand::ManualFail,
                Key::Char('q') => KeyCommand::CancelAndQuit,
                Key::PageUp => KeyCommand::PageUp,
                Key::PageDown => KeyCommand::PageDown,
                Key::Char('m') => KeyCommand::ToggleMouseCapture,
                _ => KeyCommand::Nothing,
            },
            AppMode::Done => match key {
                Key::Char('q') => KeyCommand::Quit,
                Key::Enter => KeyCommand::Rerun,
                Key::Char('r') => KeyCommand::ResetToSelecting,
                Key::Char('R') => KeyCommand::ResetAudited,
                Key::Char('x') => KeyCommand::ResetCurrentAudited,
                Key::Up => KeyCommand::ListUp,
                Key::Down => KeyCommand::ListDown,
                Key::Home => KeyCommand::ScrollToTop,
                Key::End => KeyCommand::ScrollToBottom,
                Key::PageUp => KeyCommand::PageUp,
                Key::PageDown => KeyCommand::PageDown,
                Key::Char('m') => KeyCommand::ToggleMouseCapture,
                _ => KeyCommand::Nothing,
            },
        }
    }
}

/// `q` always leaves the program, except inside an open config list; a run
/// in progress or waiting for a verdict is cancelled first.
pub proof fn lemma_q_quits(mode: AppMode, dropdown_open: bool, focus: SetupField)
    requires
        !(mode == AppMode::Setup && dropdown_open),
    ensures
        key_command_of(mode, dropdown_open, focus, Key::Char('q')) == if mode is Running
            || mode is AwaitingManualResult {
            KeyCommand::CancelAndQuit
        } else {
            KeyCommand::Quit
        },
{
}

/// A run in progress can only be left by cancelling it: no key gives a
/// command that edits the selection or starts another run.
pub proof fn lemma_running_keys(idx: usize, dropdown_open: bool, focus: SetupField, key: Key)
    ensures
        ({
            let c = key_command_of(AppMode::Running { idx }, dropdown_open, focus, key);
            c == KeyCommand::Nothing || c == KeyCommand::CancelAndQuit || c
                == KeyCommand::ResetToSelecting || c == KeyCommand::ScrollToTop || c
                == KeyCommand::ScrollToBottom || c == KeyCommand::PageUp || c == KeyCommand::PageDown
                || c == KeyCommand::ToggleMouseCapture
        }),
{
}

/// On the runner screen, in every mode, PageUp and PageDown scroll the output
/// and `m` toggles the mouse capture.
pub proof fn lemma_runner_keys_in_every_mode(mode: AppMode, dropdown_open: bool, focus: SetupField)
    requires
        mode != AppMode::Setup,
    ensures
        key_command_of(mode, dropdown_open, focus, Key::PageUp) == KeyCommand::PageUp,
        key_command_of(mode, dropdown_open, focus, Key::PageDown) == KeyCommand::PageDown,
        key_command_of(mode, dropdown_open, focus, Key::Char('m')) == KeyCommand::ToggleMouseCapture,
{
}

/// The keys of the selecting screen: arrows move the cursor, Space toggles
/// the check or group under it, `a` selects all, `n` none, Enter starts the
/// run, `m` toggles the mouse, Home/End and the page keys move the output,
/// and `q` quits.
pub proof fn lemma_selecting_keys(d: bool, f: SetupField)
    ensures
        key_command_of(AppMode::Selecting, d, f, Key::Up) == KeyCommand::ListUp,
        key_command_of(AppMode::Selecting, d, f, Key::Down) == KeyCommand::ListDown,
        key_command_of(AppMode::Selecting, d, f, Key::Char(' ')) == KeyCommand::ToggleCurrent,
        key_command_of(AppMode::Selecting, d, f, Key::Char('a')) == KeyCommand::SelectAll,
        key_command_of(AppMode::Selecting, d, f, Key::Char('n')) == KeyCommand::SelectNone,
        key_command_of(AppMode::Selecting, d, f, Key::Enter) == KeyCommand::StartRunning,
        key_command_of(AppMode::Selecting, d, f, Key::Char('m')) == KeyCommand::ToggleMouseCapture,
        key_command_of(AppMode::Selecting, d, f, Key::Home) == KeyCommand::ScrollToTop,
        key_command_of(AppMode::Selecting, d, f, Key::End) == KeyCommand::ScrollToBottom,
        key_command_of(AppMode::Selecting, d, f, Key::PageUp) == KeyCommand::PageUp,
        key_command_of(AppMode::Selecting, d, f, Key::PageDown) == KeyCommand::PageDown,
        key_command_of(AppMode::Selecting, d, f, Key::Char('q')) == KeyCommand::Quit,
{
}

/// The keys of a run in progress: `r` resets to selecting, `q` cancels and
/// quits, and the output keys and `m` work.
pub proof fn lemma_running_key_table(idx: usize, d: bool, f: SetupField)
    ensures
        key_command_of(AppMode::Running { idx }, d, f, Key::Char('r')) == KeyCommand::ResetToSelecting,
        key_command_of(AppMode::Running { idx }, d, f, Key::Char('q')) == KeyCommand::CancelAndQuit,
        key_command_of(AppMode::Running { idx }, d, f, Key::Home) == KeyCommand::ScrollToTop,
        key_command_of(AppMode::Running { idx }, d, f, Key::End) == KeyCommand::ScrollToBottom,
        key_command_of(AppMode::Running { idx }, d, f, Key::Enter) == KeyCommand::Nothing,
        key_command_of(AppMode::Running { idx }, d, f, Key::Char(' ')) == KeyCommand::Nothing,
{
}

/// The keys while a verdict is awaited: `p` passes the check, `f` fails it,
/// `q` cancels and quits; nothing else moves the run on.
pub proof fn lemma_awaiting_keys(idx: usize, d: bool, f: SetupField, key: Key)
    ensures
        key_command_of(AppMode::AwaitingManualResult { idx }, d, f, Key::Char('p')) == KeyCommand::ManualPass,
        key_command_of(AppMode::AwaitingManualResult { idx }, d, f, Key::Char('f')) == KeyCommand::ManualFail,
        key_command_of(AppMode::AwaitingManualResult { idx }, d, f, Key::Char('q')) == KeyCommand::CancelAndQuit,
        ({
            let c = key_command_of(AppMode::AwaitingManualResult { idx }, d, f, key);
            (c == KeyCommand::ManualPass <==> key == Key::Char('p')) && (c == KeyCommand::ManualFail <==> key
                == Key::Char('f'))
        }),
{
}

/// The keys of the done screen: Enter reruns, `r` resets to selecting, `R`
/// resets all audited passes, `x` the one under the cursor, arrows move the
/// cursor, and `q` quits.
pub proof fn lemma_done_keys(d: bool, f: SetupField)
    ensures
        key_command_of(AppMode::Done, d, f, Key::Enter) == KeyCommand::Rerun,
        key_command_of(AppMode::Done, d, f, Key::Char('r')) == KeyCommand::ResetToSelecting,
        key_command_of(AppMode::Done, d, f, Key::Char('R')) == KeyCommand::ResetAudited,
        key_command_of(AppMode::Done, d, f, Key::Char('x')) == KeyCommand::ResetCurrentAudited,
        key_command_of(AppMode::Done, d, f, Key::Up) == KeyCommand::ListUp,
        key_command_of(AppMode::Done, d, f, Key::Down) == KeyCommand::ListDown,
        key_command_of(AppMode::Done, d, f, Key::Home) == KeyCommand::ScrollToTop,
        key_command_of(AppMode::Done, d, f, Key::End) == KeyCommand::ScrollToBottom,
        key_command_of(AppMode::Done, d, f, Key::Char('q')) == KeyCommand::Quit,
{
}

/// The keys of the setup screen with the config list closed: Tab/Down and
/// BackTab/Up move the focus, Enter confirms, Backspace deletes, Esc closes
/// the list, Left/Right cycle configs and Space opens the list on the config
/// field only, `q` quits, and any other character is typed.
pub proof fn lemma_setup_keys(f: SetupField, c: char)
    ensures
        key_command_of(AppMode::Setup, false, f, Key::Tab) == KeyCommand::SetupFocusNext,
        key_command_of(AppMode::Setup, false, f, Key::Down) == KeyCommand::SetupFocusNext,
        key_command_of(AppMode::Setup, false, f, Key::BackTab) == KeyCommand::SetupFocusPrev,
        key_command_of(AppMode::Setup, false, f, Key::Up) == KeyCommand::SetupFocusPrev,
        key_command_of(AppMode::Setup, false, f, Key::Enter) == KeyCommand::ConfirmSetup,
        key_command_of(AppMode::Setup, false, f, Key::Backspace) == KeyCommand::SetupBackspace,
        key_command_of(AppMode::Setup, false, f, Key::Esc) == KeyCommand::CloseDropdown,
        key_command_of(AppMode::Setup, false, f, Key::Left) == if f == SetupField::Config {
            KeyCommand::PrevConfig
        } else {
            KeyCommand::Nothing
        },
        key_command_of(AppMode::Setup, false, f, Key::Right) == if f == SetupField::Config {
            KeyCommand::NextConfig
        } else {
            KeyCommand::Nothing
        },
        key_command_of(AppMode::Setup, false, f, Key::Char(' ')) == if f == SetupField::Config {
            KeyCommand::ToggleDropdown
        } else {
            KeyCommand::Nothing
        },
        key_command_of(AppMode::Setup, false, f, Key::Char('q')) == KeyCommand::Quit,
        c != 'q' && c != ' ' ==> key_command_of(AppMode::Setup, false, f, Key::Char(c)) == KeyCommand::SetupTypeChar(c),
{
}

/// With the config list open, Up and Down pick the previous and next
/// config, Enter, Esc and Space close the list, and other keys do nothing.
pub proof fn lemma_dropdown_keys(f: SetupField, key: Key)
    ensures
        key_command_of(AppMode::Setup, true, f, Key::Up) == KeyCommand::PrevConfig,
        key_command_of(AppMode::Setup, true, f, Key::Down) == KeyCommand::NextConfig,
        key_command_of(AppMode::Setup, true, f, Key::Enter) == KeyCommand::CloseDropdown,
        key_command_of(AppMode::Setup, true, f, Key::Esc) == KeyCommand::CloseDropdown,
        key_command_of(AppMode::Setup, true, f, Key::Char(' ')) == KeyCommand::CloseDropdown,
        key != Key::Up && key != Key::Down && key != Key::Enter && key != Key::Esc && key != Key::Char(' ')
            ==> key_command_of(AppMode::Setup, true, f, key) == KeyCommand::Nothing,
{
}

} // verus!
