use axysbrowser::browser::tabs::{NavigationHistory, Tab};

#[test]
fn new_tab_shows_newtab_page() {
    let tab = Tab::new(7);

    assert_eq!(tab.id, 7);
    assert_eq!(tab.title, "New Tab");
    assert_eq!(tab.uri, "axys://newtab");
    assert_eq!(tab.history.len(), 1);
    assert_eq!(tab.history.current(), "axys://newtab");
    assert!(!tab.can_go_back());
    assert!(!tab.can_go_forward());
}

#[test]
fn back_and_forward_walk_the_history() {
    let mut tab = Tab::new(0);

    tab.push_history("https://a.test".to_string());
    tab.push_history("https://b.test".to_string());

    assert!(tab.can_go_back());
    assert!(!tab.can_go_forward());
    assert_eq!(tab.go_back(), Some("https://a.test".to_string()));
    assert_eq!(tab.go_back(), Some("axys://newtab".to_string()));
    assert_eq!(tab.go_back(), None);
    assert_eq!(tab.go_forward(), Some("https://a.test".to_string()));
    assert_eq!(tab.go_forward(), Some("https://b.test".to_string()));
    assert_eq!(tab.go_forward(), None);
}

#[test]
fn pushing_after_going_back_drops_forward_entries() {
    let mut tab = Tab::new(0);

    tab.push_history("https://a.test".to_string());
    tab.push_history("https://b.test".to_string());
    tab.go_back();
    tab.push_history("https://c.test".to_string());

    assert_eq!(tab.history.len(), 3);
    assert_eq!(tab.history.current(), "https://c.test");
    assert!(!tab.can_go_forward());
    assert_eq!(tab.go_back(), Some("https://a.test".to_string()));
}

#[test]
fn pushing_the_newest_entry_again_changes_nothing() {
    let mut tab = Tab::new(0);

    tab.push_history("https://a.test".to_string());
    tab.push_history("https://a.test".to_string());

    assert_eq!(tab.history.len(), 2);

    tab.go_back();
    tab.push_history("https://a.test".to_string());

    assert_eq!(tab.history.len(), 2);
    assert_eq!(tab.history.index(), 0);
    assert!(tab.can_go_forward());
}

#[test]
fn history_clone_is_independent() {
    let mut history = NavigationHistory::new("axys://newtab".to_string());
    history.push("https://a.test".to_string());

    let copy = history.clone();
    history.back();

    assert_eq!(copy.current(), "https://a.test");
    assert_eq!(history.current(), "axys://newtab");
}
