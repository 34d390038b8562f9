//! Keys and what they ask for in each mode of the state machine.

use vstd::prelude::*;
use crate::app::state::Mode;

verus! {

/// A key of the keyboard, as far as the state machine tells keys apart.
#[derive(Debug, Clone, Copy, PartialEq, Eq, Structural)]
pub enum Key {
    Char(char),
    Enter,
    Esc,
    Backspace,
    Tab,
    BackTab,
    Left,
    Right,
    Up,
    Down,
    Other,
}

/// A key press: the key and whether the control modifier was held.
#[derive(Debug, Clone, Copy, PartialEq, Eq, Structural)]
pub struct KeyPress {
    pub key: Key,
    pub ctrl: bool,
}

/// What a key press asks for, in the mode it was made in.
#[derive(Debug, Clone, Copy, PartialEq, Eq, Structural)]
pub enum Intent {
    Ignore,
    Quit,
    MoveDown,
    MoveUp,
    NextTab,
    PreviousTab,
    CategoryLeft,
    CategoryRight,
    ToggleSelect,
    ClearSelection,
    StartSearch,
    ClearSearch,
    QuickLaunch,
    Install,
    RequestUninstall,
    Launch,
    SearchInput(char),
    SearchBackspace,
    SearchCommit,
    SearchCancel,
    ChooseYes,
    ChooseNo,
    ConfirmCommit,
    ConfirmCancel,
}

/// The intent of a key press while browsing.
pub open spec fn normal_intent(press: KeyPress) -> Intent {
    match press.key {
        Key::Char(c) => if c == 'q' {
            Intent::Quit
        } else if c == 'c' && press.ctrl {
            Intent::Quit
        } else if c == 'j' {
            Intent::MoveDown
        } else if c == 'k' {
            Intent::MoveUp
        } else if c == ' ' {
            Intent::ToggleSelect
        } else if c == '/' {
            Intent::StartSearch
        } else if c == 'c' || c == 'C' {
            Intent::ClearSelection
        } else if c == '\r' {
            Intent::QuickLaunch
        } else if c == 'i' || c == 'I' {
            Intent::Install
        } else if c == 'u' || c == 'U' {
            Intent::RequestUninstall
        } else if c == 'l' || c == 'L' {
            Intent::Launch
        } else {
            Intent::Ignore
        },
        Key::Down => Intent::MoveDown,
        Key::Up => Intent::MoveUp,
        Key::Tab => Intent::NextTab,
        Key::BackTab => Intent::PreviousTab,
        Key::Left => Intent::CategoryLeft,
        Key::Right => Intent::CategoryRight,
        Key::Esc => Intent::ClearSearch,
        Key::Enter => Intent::QuickLaunch,
        _ => Intent::Ignore,
    }
}

/// The intent of a key press while the search query is edited. A character
/// typed with the control modifier is left to the host and ignored.
pub open spec fn search_intent(press: KeyPress) -> Intent {
    match press.key {
        Key::Esc => Intent::SearchCancel,
        Key::Enter => Intent::SearchCommit,
        Key::Backspace => Intent::SearchBackspace,
        Key::Char(c) => if press.ctrl {
            Intent::Ignore
        } else {
            Intent::SearchInput(c)
        },
        _ => Intent::Ignore,
    }
}

/// The intent of a key press while a confirmation is pending: the left-hand
/// keys choose the negative answer, the right-hand keys the affirmative one.
pub open spec fn confirm_intent(press: KeyPress) -> Intent {
    match press.key {
        Key::Enter => Intent::ConfirmCommit,
        Key::Left => Intent::ChooseNo,
        Key::Right => Intent::ChooseYes,
        Key::Esc => Intent::ConfirmCancel,
        Key::Char(c) => if c == 'h' {
            Intent::ChooseNo
        } else if c == 'l' {
            Intent::ChooseYes
        } else if c == 'q' {
            Intent::ConfirmCancel
        } else {
            Intent::Ignore
        },
        _ => Intent::Ignore,
    }
}

/// The mode an intent belongs to. The intent to ignore a key belongs to the
/// normal mode, where it changes nothing.
pub open spec fn intent_mode(intent: Intent) -> Mode {
    match intent {
        Intent::SearchInput(_)
        | Intent::SearchBackspace
        | Intent::SearchCommit
        | Intent::SearchCancel => Mode::SearchEditing,
        Intent::ChooseYes
        | Intent::ChooseNo
        | Intent::ConfirmCommit
        | Intent::ConfirmCancel => Mode::ConfirmPending,
        _ => Mode::Normal,
    }
}

/// The intent of a key press in a mode.
pub open spec fn intent_of(mode: Mode, press: KeyPress) -> Intent {
    match mode {
        Mode::SearchEditing => search_intent(press),
        Mode::ConfirmPending => confirm_intent(press),
        Mode::Normal => normal_intent(press),
    }
}

fn browse_intent(press: KeyPress) -> (intent: Intent)
    ensures
        intent == normal_intent(press),
{
    match press.key {
        Key::Char(c) => {
            if c == 'q' {
                Intent::Quit
            } else if c == 'c' && press.ctrl {
                Intent::Quit
            } else if c == 'j' {
                Intent::MoveDown
            } else if c == 'k' {
                Intent::MoveUp
            } else if c == ' ' {
                Intent::ToggleSelect
            } else if c == '/' {
                Intent::StartSearch
            } else if c == 'c' || c == 'C' {
                Intent::ClearSelection
            } else if c == '\r' {
                Intent::QuickLaunch
            } else if c == 'i' || c == 'I' {
                Intent::Install
            } else if c == 'u' || c == 'U' {
                Intent::RequestUninstall
            } else if c == 'l' || c == 'L' {
                Intent::Launch
            } else {
                Intent::Ignore
            }
        },
        Key::Down => Intent::MoveDown,
        Key::Up => Intent::MoveUp,
        Key::Tab => Intent::NextTab,
        Key::BackTab => Intent::PreviousTab,
        Key::Left => Intent::CategoryLeft,
        Key::Right => Intent::CategoryRight,
        Key::Esc => Intent::ClearSearch,
        Key::Enter => Intent::QuickLaunch,
        _ => Intent::Ignore,
    }
}

/// Maps a key press to the intent it has in the given mode. A key without a
/// meaning in that mode maps to [`Intent::Ignore`].
pub fn intent_for(mode: Mode, press: KeyPress) -> (intent: Intent)
    ensures
        intent == intent_of(mode, press),
{
    match mode {
        Mode::SearchEditing => match press.key {
            Key::Esc => Intent::SearchCancel,
            Key::Enter => Intent::SearchCommit,
            Key::Backspace => Intent::SearchBackspace,
            Key::Char(c) => {
                if press.ctrl {
                    Intent::Ignore
                } else {
                    Intent::SearchInput(c)
                }
            },
            _ => Intent::Ignore,
        },
        Mode::ConfirmPending => match press.key {
            Key::Enter => Intent::ConfirmCommit,
            Key::Left => Intent::ChooseNo,
            Key::Right => Intent::ChooseYes,
            Key::Esc => Intent::ConfirmCancel,
            Key::Char(c) => {
                if c == 'h' {
                    Intent::ChooseNo
                } else if c == 'l' {
                    Intent::ChooseYes
                } else if c == 'q' {
                    Intent::ConfirmCancel
                } else {
                    Intent::Ignore
                }
            },
            _ => Intent::Ignore,
        },
        Mode::Normal => browse_intent(press),
    }
}

} // verus!
