//! Small rules of the application's window, tray and settings.

use vstd::prelude::*;
use vstd::string::StringExecFns;

verus! {

/// What toggling the full screen does to the window.
#[derive(Clone, Copy, Debug, PartialEq, Eq, Structural)]
pub struct FullscreenChange {
    /// Whether the window is first taken out of its maximized state.
    pub unmaximize: bool,
    /// Whether the window can be resized afterwards.
    pub resizable: bool,
    /// Whether the window fills the screen afterwards.
    pub fullscreen: bool,
}

/// Toggles the full screen: a window that fills the screen leaves it and can
/// be resized again; any other window is unmaximized, fills the screen, and
/// cannot be resized.
pub fn toggle_fullscreen(is_fullscreen: bool) -> (change: FullscreenChange)
    ensures
        change == (FullscreenChange {
            unmaximize: !is_fullscreen,
            resizable: is_fullscreen,
            fullscreen: !is_fullscreen,
        }),
{
    FullscreenChange {
        unmaximize: !is_fullscreen,
        resizable: is_fullscreen,
        fullscreen: !is_fullscreen,
    }
}

/// What closing the window does.
#[derive(Clone, Copy, Debug, PartialEq, Eq, Structural)]
pub enum CloseAction {
    /// The window is hidden, and the tray offers to show it.
    HideToTray,
    /// The application ends.
    Exit,
}

/// Closes the window: it goes to the tray where the setting says so, and the
/// application ends where the setting says otherwise or is missing.
pub fn close(minimize_to_tray: Option<bool>) -> (action: CloseAction)
    ensures
        action == if minimize_to_tray == Some(true) {
            CloseAction::HideToTray
        } else {
            CloseAction::Exit
        },
{
    match minimize_to_tray {
        Some(true) => CloseAction::HideToTray,
        _ => CloseAction::Exit,
    }
}

/// The language code that is used: the stored one, or that of American
/// English where none is stored.
pub fn get_language(stored: Option<String>) -> (code: String)
    ensures
        code@ == match stored {
            Some(found) => found@,
            None => "en-US"@,
        },
{
    match stored {
        Some(found) => found,
        None => String::from_str("en-US"),
    }
}

/// The greeting for a name.
pub open spec fn greeting(name: Seq<char>) -> Seq<char> {
    "Hello, "@ + name + "! You've been greeted from Rust!"@
}

/// Greets `name`.
pub fn greet(name: &str) -> (text: String)
    ensures
        text@ == greeting(name@),
{
    let mut text = String::from_str("Hello, ");
    text.append(name);
    text.append("! You've been greeted from Rust!");
    text
}

/// The name of the event that a menu entry sends: its id with every dot
/// turned into a colon.
pub open spec fn event_name(id: Seq<char>) -> Seq<char> {
    Seq::new(id.len(), |i: int| if id[i] == '.' { ':' } else { id[i] })
}

/// Exec form of [`event_name`].
pub fn menu_event(id: &str) -> (name: String)
    ensures
        name@ == event_name(id@),
{
    let mut name = String::new();
    for c in it: id.chars()
        invariant
            it.seq() == id@,
            name@ == event_name(id@.take(it.index())),
    {
        name.push(if c == '.' { ':' } else { c });
        assert(name@ =~= event_name(id@.take(it.index() + 1)));
    }
    assert(id@.take(id@.len() as int) =~= id@);
    name
}

} // verus!
