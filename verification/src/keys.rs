//! Which command a key press stands for, in each input mode.

use vstd::prelude::*;
use crate::app::InputMode;
use crate::orders::Side;

verus! {

/// The key that was pressed.
#[derive(Clone, Copy, Debug, PartialEq, Eq, Structural)]
pub enum KeyCode {
    Esc,
    Enter,
    Tab,
    BackTab,
    Backspace,
    Up,
    Down,
    Char(char),
    /// Any key the dashboard does not use.
    Other,
}

/// A key press: the key, and whether Control was the one modifier held.
#[derive(Clone, Copy, Debug, PartialEq, Eq, Structural)]
pub struct Key {
    pub code: KeyCode,
    pub ctrl: bool,
}

/// What a key press asks the dashboard to do.
#[derive(Clone, Copy, Debug, PartialEq, Eq, Structural)]
pub enum Command {
    Nothing,
    Quit,
    NextTab,
    PrevTab,
    ScrollUp,
    ScrollDown,
    ResetView,
    StartOrder(Side),
    CancelSelectedOrder,
    StartSymbolInput,
    CancelOrderEntry,
    SubmitOrder,
    ToggleOrderField,
    OrderBackspace,
    OrderChar(char),
    CancelSymbolInput,
    SubmitSymbol,
    SymbolBackspace,
    SymbolChar(char),
}

/// The controls of the dashboard.
///
/// In the order form: `Tab`/`Shift+Tab` switch field, `Enter` places the
/// order, `Esc` cancels, `Backspace` deletes, characters are typed.
/// In the symbol field: `Enter` fetches, `Esc` cancels, `Backspace`
/// deletes, characters are typed.
/// Otherwise: `q` or `Ctrl+C` quit, `Tab`/`Shift+Tab` switch tabs, `↑`/`k`
/// and `↓`/`j` scroll, `r` resets the scroll, `b`/`s` open a buy/sell form,
/// `x` cancels the selected order, `/` changes the symbol.
pub open spec fn command_spec(mode: InputMode, key: Key) -> Command {
    match mode {
        InputMode::OrderEntry => match key.code {
            KeyCode::Esc => Command::CancelOrderEntry,
            KeyCode::Enter => Command::SubmitOrder,
            KeyCode::Tab => Command::ToggleOrderField,
            KeyCode::BackTab => Command::ToggleOrderField,
            KeyCode::Backspace => Command::OrderBackspace,
            KeyCode::Char(c) => Command::OrderChar(c),
            _ => Command::Nothing,
        },
        InputMode::SymbolInput => match key.code {
            KeyCode::Esc => Command::CancelSymbolInput,
            KeyCode::Enter => Command::SubmitSymbol,
            KeyCode::Backspace => Command::SymbolBackspace,
            KeyCode::Char(c) => Command::SymbolChar(c),
            _ => Command::Nothing,
        },
        InputMode::Normal => match key.code {
            KeyCode::Char('q') => Command::Quit,
            KeyCode::Char('c') => if key.ctrl {
                Command::Quit
            } else {
                Command::Nothing
            },
            KeyCode::Tab => Command::NextTab,
            KeyCode::BackTab => Command::PrevTab,
            KeyCode::Up => Command::ScrollUp,
            KeyCode::Char('k') => Command::ScrollUp,
            KeyCode::Down => Command::ScrollDown,
            KeyCode::Char('j') => Command::ScrollDown,
            KeyCode::Char('r') => Command::ResetView,
            KeyCode::Char('b') => Command::StartOrder(Side::Long),
            KeyCode::Char('s') => Command::StartOrder(Side::Short),
            KeyCode::Char('x') => Command::CancelSelectedOrder,
            KeyCode::Char('/') => Command::StartSymbolInput,
            _ => Command::Nothing,
        },
    }
}

/// The command that `key` stands for in `mode`.
pub fn command_for(mode: InputMode, key: Key) -> (cmd: Command)
    ensures
        cmd == command_spec(mode, key),
{
    match mode {
        InputMode::OrderEntry => match key.code {
            KeyCode::Esc => Command::CancelOrderEntry,
            KeyCode::Enter => Command::SubmitOrder,
            KeyCode::Tab | KeyCode::BackTab => Command::ToggleOrderField,
            KeyCode::Backspace => Command::OrderBackspace,
            KeyCode::Char(c) => Command::OrderChar(c),
            _ => Command::Nothing,
        },
        InputMode::SymbolInput => match key.code {
            KeyCode::Esc => Command::CancelSymbolInput,
            KeyCode::Enter => Command::SubmitSymbol,
            KeyCode::Backspace => Command::SymbolBackspace,
            KeyCode::Char(c) => Command::SymbolChar(c),
            _ => Command::Nothing,
        },
        InputMode::Normal => match (key.code, key.ctrl) {
            (KeyCode::Char('q'), _) | (KeyCode::Char('c'), true) => Command::Quit,
            (KeyCode::Tab, _) => Command::NextTab,
            (KeyCode::BackTab, _) => Command::PrevTab,
            (KeyCode::Up, _) | (KeyCode::Char('k'), _) => Command::ScrollUp,
            (KeyCode::Down, _) | (KeyCode::Char('j'), _) => Command::ScrollDown,
            (KeyCode::Char('r'), _) => Command::ResetView,
            (KeyCode::Char('b'), _) => Command::StartOrder(Side::Long),
            (KeyCode::Char('s'), _) => Command::StartOrder(Side::Short),
            (KeyCode::Char('x'), _) => Command::CancelSelectedOrder,
            (KeyCode::Char('/'), _) => Command::StartSymbolInput,
            _ => Command::Nothing,
        },
    }
}

} // verus!
