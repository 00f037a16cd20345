use aria_player::window::{
    close, get_language, greet, menu_event, toggle_fullscreen, CloseAction, FullscreenChange,
};

#[test]
fn greeting_names_the_guest() {
    assert_eq!(greet("Ada"), "Hello, Ada! You've been greeted from Rust!");
    assert_eq!(greet(""), "Hello, ! You've been greeted from Rust!");
}

#[test]
fn leaving_the_full_screen() {
    assert_eq!(
        toggle_fullscreen(true),
        FullscreenChange { unmaximize: false, resizable: true, fullscreen: false }
    );
}

#[test]
fn entering_the_full_screen() {
    assert_eq!(
        toggle_fullscreen(false),
        FullscreenChange { unmaximize: true, resizable: false, fullscreen: true }
    );
}

#[test]
fn closing_hides_to_the_tray_only_where_set() {
    assert_eq!(close(Some(true)), CloseAction::HideToTray);
    assert_eq!(close(Some(false)), CloseAction::Exit);
    assert_eq!(close(None), CloseAction::Exit);
}

#[test]
fn language_defaults_to_american_english() {
    assert_eq!(get_language(None), "en-US");
    assert_eq!(get_language(Some("en-GB".to_string())), "en-GB");
}

#[test]
fn event_name_has_colons_for_dots() {
    assert_eq!(menu_event("view.zoom.in"), "view:zoom:in");
    assert_eq!(menu_event("open"), "open");
    assert_eq!(menu_event(""), "");
    assert_eq!(menu_event("."), ":");
    assert_eq!(menu_event("a.é"), "a:é");
}
