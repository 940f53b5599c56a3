use axysbrowser::browser::address::SearchConfig;
use axysbrowser::ui::window::{
    address_for_editing, tab_label, title_or, visit_to_record, CloseOutcome, Navigation,
    TabSession,
};

fn config() -> SearchConfig {
    let mut config = SearchConfig::new("brave".to_string());
    config.insert_engine(
        "brave".to_string(),
        "https://search.brave.com/search?q=%s".to_string(),
    );
    config
}

#[test]
fn opening_tabs_assigns_ids_and_start_pages() {
    let mut window = TabSession::new(false);

    let first = window.open_tab(None);
    let second = window.open_tab(Some("axys://downloads"));

    assert_eq!((first, second), (0, 1));
    assert_eq!(window.active_id(), 1);
    assert_eq!(window.tab(0).unwrap().uri, "axys://newtab");
    assert_eq!(window.tab(0).unwrap().title, "New Tab");
    assert_eq!(window.tab(1).unwrap().title, "Downloads");

    let mut private = TabSession::new(true);
    let id = private.open_tab(None);

    assert_eq!(private.tab(id).unwrap().uri, "axys://privacy");
    assert_eq!(private.tab(id).unwrap().title, "Privacy");
}

#[test]
fn navigating_to_pages_and_web_addresses() {
    let mut window = TabSession::new(false);
    let id = window.open_tab(None);
    let config = config();

    assert_eq!(
        window.navigate(id, "axys://settings", &config),
        Navigation::ShowPage("settings", "axys://settings".to_string())
    );
    assert_eq!(window.tab(id).unwrap().title, "Settings");

    assert_eq!(
        window.navigate(id, "example.com", &config),
        Navigation::LoadWeb("https://example.com".to_string())
    );
    assert_eq!(window.tab(id).unwrap().uri, "https://example.com");
    assert_eq!(window.tab(id).unwrap().history.len(), 3);

    assert_eq!(
        window.navigate(id, "https://example.com", &config),
        Navigation::LoadWeb("https://example.com".to_string())
    );
    assert_eq!(window.tab(id).unwrap().history.len(), 3);

    assert_eq!(window.navigate(id, "axys://history", &config), Navigation::Ignored);
    assert_eq!(window.navigate(99, "example.com", &config), Navigation::Ignored);
}

#[test]
fn back_and_forward_follow_the_active_tab() {
    let mut window = TabSession::new(false);
    let id = window.open_tab(None);
    let config = config();

    window.navigate(id, "example.com", &config);
    window.navigate(id, "axys://tools", &config);

    assert_eq!(window.go_back(), Navigation::LoadWeb("https://example.com".to_string()));
    assert_eq!(window.go_back(), Navigation::ShowPage("newtab", "axys://newtab".to_string()));
    assert_eq!(window.tab(id).unwrap().title, "New Tab");
    assert_eq!(window.go_back(), Navigation::Ignored);
    assert_eq!(window.go_forward(), Navigation::LoadWeb("https://example.com".to_string()));
    assert_eq!(window.go_forward(), Navigation::ShowPage("tools", "axys://tools".to_string()));
    assert_eq!(window.go_forward(), Navigation::Ignored);
}

#[test]
fn closing_tabs() {
    let mut window = TabSession::new(false);
    let a = window.open_tab(None);
    let b = window.open_tab(None);
    let c = window.open_tab(None);

    assert!(window.select(a));
    assert_eq!(window.close(a, "New Tab"), CloseOutcome::Removed);
    assert_eq!(window.active_id(), c);
    assert_eq!(window.close(b, "New Tab"), CloseOutcome::Removed);
    assert_eq!(window.active_id(), c);
    assert_eq!(window.close(b, "New Tab"), CloseOutcome::NotFound);

    window.navigate(c, "example.com", &config());

    assert_eq!(window.close(c, "Nueva pestaña"), CloseOutcome::Reset);
    assert_eq!(window.tabs().len(), 1);
    assert_eq!(window.tab(c).unwrap().uri, "axys://newtab");
    assert_eq!(window.tab(c).unwrap().title, "Nueva pestaña");
    assert!(!window.tab(c).unwrap().can_go_back());
    assert_eq!(window.close(a, "New Tab"), CloseOutcome::NotFound);
}

#[test]
fn keyboard_moves_between_tabs() {
    let mut window = TabSession::new(false);
    let a = window.open_tab(None);
    let b = window.open_tab(None);
    let c = window.open_tab(None);

    assert_eq!(window.neighbour_id(false), Some(a));
    assert_eq!(window.neighbour_id(true), Some(b));
    window.select(a);
    assert_eq!(window.neighbour_id(true), Some(c));
    assert_eq!(window.tab_for_digit(2), Some(b));
    assert_eq!(window.tab_for_digit(4), None);
    assert_eq!(window.tab_for_digit(0), None);

    let empty = TabSession::new(false);
    assert_eq!(empty.neighbour_id(false), None);
}

#[test]
fn reload_rebuilds_internal_pages_only() {
    let mut window = TabSession::new(false);
    let id = window.open_tab(None);

    assert_eq!(window.reload_target(), Some("axys://newtab".to_string()));

    window.navigate(id, "example.com", &config());

    assert_eq!(window.reload_target(), None);
}

#[test]
fn web_view_reports_update_tabs() {
    let mut window = TabSession::new(false);
    let id = window.open_tab(None);

    assert!(window.set_uri(id, "https://redirected.test".to_string()));
    assert!(window.set_title(id, Some("  ".to_string()), "New Tab".to_string()));
    assert_eq!(window.tab(id).unwrap().title, "New Tab");
    assert!(window.set_title(id, Some("Page".to_string()), "New Tab".to_string()));
    assert_eq!(window.tab(id).unwrap().title, "Page");
    assert_eq!(window.tab(id).unwrap().uri, "https://redirected.test");
    assert!(!window.set_uri(42, "x".to_string()));
}

#[test]
fn window_helpers() {
    assert_eq!(address_for_editing("axys://newtab"), "");
    assert_eq!(address_for_editing("https://a.test"), "https://a.test");
    assert_eq!(tab_label(""), "New Tab");
    assert_eq!(tab_label(" "), " ");
    assert_eq!(title_or(None, "f".to_string()), "f");
    assert_eq!(title_or(Some(" T ".to_string()), "f".to_string()), " T ");
    assert_eq!(
        visit_to_record(false, Some("https://a.test".to_string()), None),
        Some(("https://a.test".to_string(), "https://a.test".to_string()))
    );
    assert_eq!(visit_to_record(true, Some("https://a.test".to_string()), None), None);
    assert_eq!(visit_to_record(false, Some("axys://tools".to_string()), None), None);
    assert_eq!(visit_to_record(false, None, Some("t".to_string())), None);
}
