//! The terminal user interface's logic: layout arithmetic, text preparation,
//! and the decisions of the help popup and the workspaces tab.
//!
//! Drawing is left to the caller; the input events and the outcomes here are
//! plain values that stand for the terminal library's.

use vstd::prelude::*;

use crate::ui::help_popup::HelpPopup;

pub mod help_popup;
pub mod utils;
pub mod workspaces_tab;

verus! {

/// A key, as far as the interface tells keys apart.
#[derive(Clone, Copy, Debug, PartialEq, Eq)]
pub enum KeyCode {
    Char(char),
    Enter,
    Esc,
    Tab,
    Up,
    Down,
    F(u8),
    Other,
}

/// A key event: the key, whether it is a press (rather than a release or a
/// repeat), and whether Control was held.
#[derive(Clone, Copy, Debug, PartialEq, Eq)]
pub struct KeyEvent {
    pub code: KeyCode,
    pub press: bool,
    pub control: bool,
}

/// An input event: a key, a mouse event, or anything else.
#[derive(Clone, Copy, Debug, PartialEq, Eq)]
pub enum InputEvent {
    Key(KeyEvent),
    Mouse,
    Other,
}

/// What a component asks of the application after handling an event.
pub enum ComponentAction {
    /// Show a message in a popup.
    ShowMessage { title: String, message: String },
    /// Show this help popup.
    ShowHelp(HelpPopup),
    /// Switch lazyjj to the workspace rooted at this path.
    SwitchWorkspace(String),
}

/// Whether a component handled an input event.
pub enum ComponentInputResult {
    Handled,
    NotHandled,
    HandledAction(ComponentAction),
}

} // verus!
