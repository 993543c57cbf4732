//! Key handling: a terminal key press is reduced to an `Action` (settings,
//! welcome and list pages) or to a `ChatAction` (the chat input).
//!
//! A key is its code and the set of held modifiers. The modifier bits have the
//! values of the terminal backend's flags, so the application hands key
//! presses over one to one; it passes only presses, never repeats or releases.
use vstd::prelude::*;

verus! {

/// Modifier bit: Shift.
pub const SHIFT: u8 = 0b0000_0001;
/// Modifier bit: Control.
pub const CONTROL: u8 = 0b0000_0010;
/// Modifier bit: Alt.
pub const ALT: u8 = 0b0000_0100;
/// No modifier held.
pub const NONE: u8 = 0;

/// The key that was pressed.
#[derive(Debug, Clone, Copy, PartialEq, Eq, Structural)]
pub enum KeyCode {
    Backspace,
    Enter,
    Left,
    Right,
    Up,
    Down,
    Home,
    End,
    PageUp,
    PageDown,
    Tab,
    BackTab,
    Delete,
    Insert,
    F(u8),
    Char(char),
    Null,
    Esc,
    /// Any other key (lock keys, media keys, lone modifiers).
    Other,
}

/// A key press: the key and the modifier bits held with it.
#[derive(Debug, Clone, Copy, PartialEq, Eq, Structural)]
pub struct KeyEvent {
    pub code: KeyCode,
    pub modifiers: u8,
}

impl KeyEvent {
    /// The press of `code` with modifiers `modifiers`.
    pub fn new(code: KeyCode, modifiers: u8) -> (k: KeyEvent)
        ensures
            k.code == code,
            k.modifiers == modifiers,
    {
        KeyEvent { code, modifiers }
    }
}

/// Whether every bit of `m` is held in `mods`.
pub open spec fn holds(mods: u8, m: u8) -> bool {
    mods & m == m
}

/// Whether every bit of `m` is held.
pub fn has_mods(mods: u8, m: u8) -> (b: bool)
    ensures
        b == holds(mods, m),
{
    mods & m == m
}

/// Actions of the pages other than the chat input.
#[derive(Debug, Clone, Copy, PartialEq, Eq, Structural)]
pub enum Action {
    Quit,
    Up,
    Down,
    Left,
    Right,
    Enter,
    Tab,
    Esc,
    /// Open the settings page (`s`).
    OpenSettings,
    /// Show or hide the log viewer (Ctrl+L).
    ToggleLogs,
    /// Add a provider (`a` on the providers section).
    AddProvider,
    /// Edit the selected provider (`e`).
    EditProvider,
    /// Delete the selected provider (`d`, confirmed by a second press).
    DeleteProvider,
    /// A key with no meaning here.
    Other,
}

/// Actions of the chat input.
#[derive(Debug, Clone, Copy, PartialEq, Eq, Structural)]
pub enum ChatAction {
    /// Send the input (Enter without modifiers).
    Submit,
    /// Insert a line break (Shift/Alt+Enter, or Ctrl+J).
    Newline,
    /// Go back, or stop the running answer (Esc).
    Back,
    /// Switch mode (Tab).
    SwitchMode,
    /// Open the settings (Ctrl+,).
    OpenSettings,
    /// Show or hide the log viewer (Ctrl+L).
    ToggleLogs,
    /// Quit (Ctrl+C or Ctrl+Q).
    Quit,
    /// Scroll the transcript one page up (PageUp).
    ScrollPageUp,
    /// Scroll the transcript one page down (PageDown).
    ScrollPageDown,
    /// Scroll the transcript one line up (Ctrl+Up).
    ScrollLineUp,
    /// Scroll the transcript one line down (Ctrl+Down).
    ScrollLineDown,
    /// Recall an older sent message (Up).
    HistoryPrev,
    /// Recall a newer sent message (Down).
    HistoryNext,
    /// Ordinary typing, handed to the input box.
    Input,
}

/// The action of a key outside the chat input.
pub open spec fn spec_key_action(k: KeyEvent) -> Action {
    let ctrl = holds(k.modifiers, CONTROL);
    if k.code == KeyCode::Char('c') && ctrl {
        Action::Quit
    } else if k.code == KeyCode::Char('l') && ctrl {
        Action::ToggleLogs
    } else if k.code == KeyCode::Char('s') || k.code == KeyCode::Char('S') {
        if ctrl {
            Action::Other
        } else {
            Action::OpenSettings
        }
    } else if k.modifiers == NONE && k.code == KeyCode::Char('a') {
        Action::AddProvider
    } else if k.modifiers == NONE && k.code == KeyCode::Char('e') {
        Action::EditProvider
    } else if k.modifiers == NONE && k.code == KeyCode::Char('d') {
        Action::DeleteProvider
    } else {
        match k.code {
            KeyCode::Char('q') => Action::Quit,
            KeyCode::Up => Action::Up,
            KeyCode::Down => Action::Down,
            KeyCode::Left => Action::Left,
            KeyCode::Right => Action::Right,
            KeyCode::Enter => Action::Enter,
            KeyCode::Tab => Action::Tab,
            KeyCode::Esc => Action::Esc,
            _ => Action::Other,
        }
    }
}

/// Reduces a key press to a page action.
pub fn key_to_action(k: KeyEvent) -> (a: Action)
    ensures
        a == spec_key_action(k),
{
    let ctrl = has_mods(k.modifiers, CONTROL);
    if let KeyCode::Char(ch) = k.code {
        if ch == 'c' && ctrl {
            return Action::Quit;
        }
        if ch == 'l' && ctrl {
            return Action::ToggleLogs;
        }
        if ch == 's' || ch == 'S' {
            if ctrl {
                return Action::Other;
            }
            return Action::OpenSettings;
        }
        if k.modifiers == NONE {
            if ch == 'a' {
                return Action::AddProvider;
            } else if ch == 'e' {
                return Action::EditProvider;
            } else if ch == 'd' {
                return Action::DeleteProvider;
            }
        }
        if ch == 'q' {
            return Action::Quit;
        }
        return Action::Other;
    }
    match k.code {
        KeyCode::Up => Action::Up,
        KeyCode::Down => Action::Down,
        KeyCode::Left => Action::Left,
        KeyCode::Right => Action::Right,
        KeyCode::Enter => Action::Enter,
        KeyCode::Tab => Action::Tab,
        KeyCode::Esc => Action::Esc,
        _ => Action::Other,
    }
}

/// The action of a key in the chat input.
pub open spec fn spec_chat_action(k: KeyEvent) -> ChatAction {
    let ctrl = holds(k.modifiers, CONTROL);
    if ctrl && (k.code == KeyCode::Char('c') || k.code == KeyCode::Char('q')) {
        ChatAction::Quit
    } else if ctrl && k.code == KeyCode::Char(',') {
        ChatAction::OpenSettings
    } else if ctrl && k.code == KeyCode::Char('l') {
        ChatAction::ToggleLogs
    } else {
        match k.code {
            KeyCode::Enter => if k.modifiers & (SHIFT | ALT) != 0 {
                ChatAction::Newline
            } else {
                ChatAction::Submit
            },
            KeyCode::Char('j') if ctrl => ChatAction::Newline,
            KeyCode::PageUp => ChatAction::ScrollPageUp,
            KeyCode::PageDown => ChatAction::ScrollPageDown,
            KeyCode::Up => if ctrl {
                ChatAction::ScrollLineUp
            } else {
                ChatAction::HistoryPrev
            },
            KeyCode::Down => if ctrl {
                ChatAction::ScrollLineDown
            } else {
                ChatAction::HistoryNext
            },
            KeyCode::Esc => ChatAction::Back,
            KeyCode::Tab => ChatAction::SwitchMode,
            _ => ChatAction::Input,
        }
    }
}

/// Reduces a key press in the chat input to a chat action. Every letter,
/// `s` and `q` included, is typing; quitting needs Ctrl+C or Ctrl+Q.
pub fn chat_key_to_action(k: KeyEvent) -> (a: ChatAction)
    ensures
        a == spec_chat_action(k),
{
    let ctrl = has_mods(k.modifiers, CONTROL);
    match k.code {
        KeyCode::Char(ch) => {
            if ctrl && (ch == 'c' || ch == 'q') {
                ChatAction::Quit
            } else if ctrl && ch == ',' {
                ChatAction::OpenSettings
            } else if ctrl && ch == 'l' {
                ChatAction::ToggleLogs
            } else if ctrl && ch == 'j' {
                ChatAction::Newline
            } else {
                ChatAction::Input
            }
        },
        KeyCode::Enter => {
            if k.modifiers & (SHIFT | ALT) != 0 {
                ChatAction::Newline
            } else {
                ChatAction::Submit
            }
        },
        KeyCode::PageUp => ChatAction::ScrollPageUp,
        KeyCode::PageDown => ChatAction::ScrollPageDown,
        KeyCode::Up => {
            if ctrl {
                ChatAction::ScrollLineUp
            } else {
                ChatAction::HistoryPrev
            }
        },
        KeyCode::Down => {
            if ctrl {
                ChatAction::ScrollLineDown
            } else {
                ChatAction::HistoryNext
            }
        },
        KeyCode::Esc => ChatAction::Back,
        KeyCode::Tab => ChatAction::SwitchMode,
        _ => ChatAction::Input,
    }
}

/// In the chat input no plain letter quits or opens the settings: those
/// need Control.
pub proof fn lemma_chat_letters_are_typing(ch: char)
    ensures
        spec_chat_action(KeyEvent { code: KeyCode::Char(ch), modifiers: NONE }) == ChatAction::Input,
        spec_chat_action(KeyEvent { code: KeyCode::Char(ch), modifiers: SHIFT })
            == ChatAction::Input,
{
    assert(0u8 & 2u8 == 0u8) by (bit_vector);
    assert(1u8 & 2u8 == 0u8) by (bit_vector);
}

} // verus!
