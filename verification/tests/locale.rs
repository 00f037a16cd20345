use aria_player::locale::{
    language, title_of_entry, translated, tray_labels, Language, WindowState,
};
use serde_json::Value;

fn defaults() -> Value {
    serde_json::from_str(
        r#"{"menu": {"file": "File", "color": "Color"},
            "view": {"zoom": "Zoom"},
            "tray": {"hide": "Hide", "show": "Show", "exit": "Exit"}}"#,
    )
    .unwrap()
}

fn british() -> Value {
    serde_json::from_str(
        r#"{"menu": {"color": "Colour"}, "tray": {"exit": "Quit", "show": "Reveal"}}"#,
    )
    .unwrap()
}

#[test]
fn british_english_has_its_own_labels() {
    assert_eq!(language("en-GB"), Language::EnGb);
}

#[test]
fn every_other_code_shows_american_english() {
    assert_eq!(language("en-US"), Language::EnUs);
    assert_eq!(language("fr-FR"), Language::EnUs);
    assert_eq!(language(""), Language::EnUs);
    assert_eq!(language("en-gb"), Language::EnUs);
}

#[test]
fn translation_is_preferred() {
    assert_eq!(translated("menu", "color", &british(), &defaults()).as_deref(), Some("Colour"));
}

#[test]
fn default_language_fills_the_gaps() {
    assert_eq!(translated("menu", "file", &british(), &defaults()).as_deref(), Some("File"));
    assert_eq!(translated("menu", "nothing", &british(), &defaults()), None);
}

#[test]
fn entry_titles_follow_the_id() {
    assert_eq!(title_of_entry("color", &british(), &defaults()).as_deref(), Some("Colour"));
    assert_eq!(title_of_entry("view.zoom", &british(), &defaults()).as_deref(), Some("Zoom"));
    assert_eq!(title_of_entry("view.none", &british(), &defaults()), None);
    assert_eq!(title_of_entry("none", &british(), &defaults()), None);
}

#[test]
fn tray_offers_to_hide_a_window_that_shows() {
    let labels = tray_labels(WindowState::Visible, &british(), &defaults()).unwrap();
    assert_eq!(labels.toggle, "Hide");
    assert_eq!(labels.exit, "Quit");
}

#[test]
fn tray_offers_to_show_a_hidden_window() {
    let labels = tray_labels(WindowState::Hidden, &british(), &defaults()).unwrap();
    assert_eq!(labels.toggle, "Reveal");
    assert_eq!(labels.exit, "Quit");
}

#[test]
fn tray_without_window_uses_the_default_language() {
    let translations: Value = serde_json::from_str(r#"{"tray": {"hide": "Conceal"}}"#).unwrap();
    let labels = tray_labels(WindowState::Missing, &translations, &defaults()).unwrap();
    assert_eq!(labels.toggle, "Hide");
    assert_eq!(labels.exit, "Exit");
    let labels = tray_labels(WindowState::Visible, &translations, &defaults()).unwrap();
    assert_eq!(labels.toggle, "Conceal");
}

#[test]
fn tray_needs_the_default_labels() {
    assert!(tray_labels(WindowState::Visible, &defaults(), &british()).is_none());
    assert!(tray_labels(WindowState::Visible, &defaults(), &Value::Null).is_none());
}
