use axysbrowser::browser::history::{
    is_web_url, sanitize_title, HistoryEntry, HistoryManager, MAX_HISTORY_ENTRIES,
};

fn entry(title: &str, url: &str, visited_at: u64) -> HistoryEntry {
    HistoryEntry { title: title.to_string(), url: url.to_string(), visited_at }
}

fn urls(entries: &[HistoryEntry]) -> Vec<String> {
    entries.iter().map(|e| e.url.clone()).collect()
}

#[test]
fn only_web_addresses_are_recorded() {
    let mut history = HistoryManager::new();

    assert!(!history.add_visit("Settings".to_string(), "axys://settings".to_string(), 10));
    assert!(!history.add_visit("File".to_string(), "file:///tmp".to_string(), 10));
    assert!(history.add_visit("Example".to_string(), "https://example.com".to_string(), 10));
    assert!(history.add_visit("Plain".to_string(), "http://plain.test".to_string(), 20));

    assert_eq!(
        urls(&history.entries()),
        vec!["http://plain.test".to_string(), "https://example.com".to_string()]
    );
}

#[test]
fn quick_repeat_of_last_visit_is_skipped() {
    let mut history = HistoryManager::new();

    assert!(history.add_visit("A".to_string(), "https://a.test".to_string(), 100));
    assert!(!history.add_visit("A".to_string(), "https://a.test".to_string(), 101));
    assert!(!history.add_visit("A".to_string(), "https://a.test".to_string(), 50));
    assert!(history.add_visit("A".to_string(), "https://a.test".to_string(), 102));
    assert!(history.add_visit("B".to_string(), "https://b.test".to_string(), 102));
    assert!(history.add_visit("A".to_string(), "https://a.test".to_string(), 103));

    assert_eq!(history.entries().len(), 4);
}

#[test]
fn blank_titles_fall_back_to_the_address() {
    let mut history = HistoryManager::new();

    history.add_visit("   ".to_string(), "https://a.test".to_string(), 1);
    history.add_visit("  Title  ".to_string(), "https://b.test".to_string(), 5);

    let entries = history.entries();

    assert_eq!(entries[0].title, "Title");
    assert_eq!(entries[1].title, "https://a.test");
    assert_eq!(entries[0].visited_at, 5);
    assert_eq!(sanitize_title("", "u"), "u");
    assert_eq!(sanitize_title("\u{2003}x\t", "u"), "x");
}

#[test]
fn history_keeps_the_newest_entries() {
    let mut entries = Vec::new();
    for i in 0..(MAX_HISTORY_ENTRIES + 5) {
        entries.push(entry("t", &format!("https://site{i}.test"), i as u64));
    }

    let mut history = HistoryManager::load(entries);
    let listed = history.entries();

    assert_eq!(listed.len(), MAX_HISTORY_ENTRIES);
    assert_eq!(listed[0].url, format!("https://site{}.test", MAX_HISTORY_ENTRIES + 4));
    assert_eq!(listed[MAX_HISTORY_ENTRIES - 1].url, "https://site5.test");

    assert!(history.add_visit("new".to_string(), "https://new.test".to_string(), 1_000_000));

    let listed = history.entries();
    assert_eq!(listed.len(), MAX_HISTORY_ENTRIES);
    assert_eq!(listed[0].url, "https://new.test");
    assert_eq!(listed[MAX_HISTORY_ENTRIES - 1].url, "https://site6.test");
}

#[test]
fn search_matches_title_or_address_ignoring_case() {
    let history = HistoryManager::load(vec![
        entry("Rust Language", "https://www.rust-lang.org", 1),
        entry("News", "https://news.example.com", 2),
        entry("Docs", "https://docs.RS/serde", 3),
    ]);

    assert_eq!(urls(&history.search("  RUST ")), vec!["https://www.rust-lang.org".to_string()]);
    assert_eq!(urls(&history.search("rs")), vec!["https://docs.RS/serde".to_string()]);
    assert_eq!(
        urls(&history.search("HTTPS://")),
        vec![
            "https://docs.RS/serde".to_string(),
            "https://news.example.com".to_string(),
            "https://www.rust-lang.org".to_string(),
        ]
    );
    assert_eq!(history.search("nothing").len(), 0);
    assert_eq!(history.search("   ").len(), 3);
    assert_eq!(urls(&history.search("")), urls(&history.entries()));
}

#[test]
fn remove_url_forgets_every_visit() {
    let mut history = HistoryManager::load(vec![
        entry("A", "https://a.test", 1),
        entry("B", "https://b.test", 2),
        entry("A", "https://a.test", 3),
    ]);

    assert!(history.remove_url("https://a.test"));
    assert_eq!(urls(&history.entries()), vec!["https://b.test".to_string()]);
    assert!(!history.remove_url("https://a.test"));
}

#[test]
fn clear_empties_the_history() {
    let mut history = HistoryManager::load(vec![entry("A", "https://a.test", 1)]);

    assert!(history.clear());
    assert_eq!(history.entries().len(), 0);
    assert!(!history.clear());
}

#[test]
fn web_url_check() {
    assert!(is_web_url("http://a"));
    assert!(is_web_url("https://a"));
    assert!(!is_web_url("HTTP://a"));
    assert!(!is_web_url("ftp://a"));
    assert!(!is_web_url("https:/a"));
}
