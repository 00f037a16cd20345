//! Labels in the user's language, with the default language to fall back on.

use crate::menu::{label, label_text};
use crate::text::{option_text, split, split_text};
use serde_json::Value;
use vstd::prelude::*;

verus! {

/// The languages that the application has labels for.
#[derive(Clone, Copy, Debug, PartialEq, Eq, Structural)]
pub enum Language {
    EnUs,
    EnGb,
}

/// The language whose labels are shown for a language code: British English
/// for its own code, American English for every other.
pub open spec fn language_of(code: Seq<char>) -> Language {
    if code == "en-GB"@ {
        Language::EnGb
    } else {
        Language::EnUs
    }
}

/// Exec form of [`language_of`].
pub fn language(code: &str) -> (chosen: Language)
    ensures
        chosen == language_of(code@),
{
    if code.eq("en-GB") {
        Language::EnGb
    } else {
        Language::EnUs
    }
}

/// The first of two texts that is there.
pub open spec fn first_of(one: Option<Seq<char>>, other: Option<Seq<char>>) -> Option<Seq<char>> {
    match one {
        Some(text) => Some(text),
        None => other,
    }
}

/// The label under `key` in `section`: that of the translation, else that of
/// the default language, else none.
pub open spec fn translated_text(
    section: Seq<char>,
    key: Seq<char>,
    translations: Value,
    defaults: Value,
) -> Option<Seq<char>> {
    first_of(label_text(translations, section, key), label_text(defaults, section, key))
}

/// Exec form of [`translated_text`].
pub fn translated(section: &str, key: &str, translations: &Value, defaults: &Value) -> (text:
    Option<String>)
    ensures
        option_text(text) == translated_text(section@, key@, *translations, *defaults),
{
    match label(translations, section, key) {
        Some(text) => Some(text),
        None => label(defaults, section, key),
    }
}

/// The label of the menu entry with this id in the user's language. An id
/// with a dot names section and key by its two first parts; any other id is a
/// key of the section `menu`. `None` leaves the entry as it is.
pub open spec fn entry_title(id: Seq<char>, translations: Value, defaults: Value) -> Option<
    Seq<char>,
> {
    let parts = split_text(id, '.');
    if parts.len() > 1 {
        translated_text(parts[0], parts[1], translations, defaults)
    } else {
        translated_text("menu"@, id, translations, defaults)
    }
}

/// Exec form of [`entry_title`].
pub fn title_of_entry(id: &str, translations: &Value, defaults: &Value) -> (text: Option<String>)
    ensures
        option_text(text) == entry_title(id@, *translations, *defaults),
{
    let parts = split(id, '.');
    if parts.len() > 1 {
        translated(parts[0].as_str(), parts[1].as_str(), translations, defaults)
    } else {
        translated("menu", id, translations, defaults)
    }
}

/// What the tray's menu knows of the main window.
#[derive(Clone, Copy, Debug, PartialEq, Eq, Structural)]
pub enum WindowState {
    Visible,
    Hidden,
    Missing,
}

/// The labels of the tray's two entries.
#[derive(Debug)]
pub struct TrayLabels {
    /// The label of the entry that hides or shows the window.
    pub toggle: String,
    /// The label of the entry that ends the application.
    pub exit: String,
}

/// The key of the entry that hides or shows the window: it offers to hide a
/// window that shows, and to show one that is hidden.
pub open spec fn toggle_key(window: WindowState) -> Seq<char> {
    match window {
        WindowState::Hidden => "show"@,
        _ => "hide"@,
    }
}

/// The label of the entry that hides or shows the window. Without a window
/// the default language is used.
pub open spec fn toggle_text(window: WindowState, translations: Value, defaults: Value) -> Option<
    Seq<char>,
> {
    match window {
        WindowState::Missing => label_text(defaults, "tray"@, "hide"@),
        _ => translated_text("tray"@, toggle_key(window), translations, defaults),
    }
}

/// The labels of the tray's menu. The default language has to hold the
/// labels that are asked for, whether they are used or not; where it lacks
/// one, there are no labels.
pub fn tray_labels(window: WindowState, translations: &Value, defaults: &Value) -> (labels: Option<
    TrayLabels,
>)
    ensures
        match labels {
            Some(found) => {
                &&& label_text(*defaults, "tray"@, "exit"@) is Some
                &&& label_text(*defaults, "tray"@, toggle_key(window)) is Some
                &&& Some(found.exit@) == translated_text("tray"@, "exit"@, *translations, *defaults)
                &&& Some(found.toggle@) == toggle_text(window, *translations, *defaults)
            },
            None => label_text(*defaults, "tray"@, "exit"@) is None || label_text(
                *defaults,
                "tray"@,
                toggle_key(window),
            ) is None,
        },
{
    let exit_default = match label(defaults, "tray", "exit") {
        Some(text) => text,
        None => {
            return None;
        },
    };
    let exit = match label(translations, "tray", "exit") {
        Some(text) => text,
        None => exit_default,
    };
    let key = match window {
        WindowState::Hidden => "show",
        _ => "hide",
    };
    let toggle_default = match label(defaults, "tray", key) {
        Some(text) => text,
        None => {
            return None;
        },
    };
    let toggle = match window {
        WindowState::Missing => toggle_default,
        _ => match label(translations, "tray", key) {
            Some(text) => text,
            None => toggle_default,
        },
    };
    Some(TrayLabels { toggle, exit })
}

} // verus!
