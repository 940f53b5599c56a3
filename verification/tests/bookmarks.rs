use std::hash::{DefaultHasher, Hash, Hasher};

use axysbrowser::browser::bookmarks::{
    favicon_file_name, favicon_file_name_for_hash, is_bookmarkable_url, Bookmark, BookmarkManager,
};

fn bookmark(title: &str, url: &str, favicon: Option<&str>) -> Bookmark {
    Bookmark {
        title: title.to_string(),
        url: url.to_string(),
        favicon_path: favicon.map(|f| f.to_string()),
    }
}

#[test]
fn add_get_contains() {
    let mut manager = BookmarkManager::load(Vec::new());

    assert!(manager.add_with_favicon("  Example ".to_string(), "https://example.com".to_string(), None));
    assert!(manager.contains("https://example.com"));

    let found = manager.get("https://example.com").unwrap();

    assert_eq!(found.title, "Example");
    assert_eq!(found.favicon_path, None);
    assert!(manager.get("https://other.com").is_none());
}

#[test]
fn add_refuses_duplicates_and_non_web_addresses() {
    let mut manager = BookmarkManager::load(Vec::new());

    assert!(manager.add_with_favicon("A".to_string(), "https://a.test".to_string(), None));
    assert!(!manager.add_with_favicon("B".to_string(), "https://a.test".to_string(), None));
    assert!(!manager.add_with_favicon("C".to_string(), "axys://settings".to_string(), None));

    assert_eq!(manager.entries().len(), 1);
    assert_eq!(manager.entries()[0].title, "A");
}

#[test]
fn blank_bookmark_title_uses_address() {
    let mut manager = BookmarkManager::load(Vec::new());

    manager.add_with_favicon(" \n".to_string(), "http://plain.test".to_string(), Some("/icons/p.png".to_string()));

    assert_eq!(
        manager.entries(),
        vec![bookmark("http://plain.test", "http://plain.test", Some("/icons/p.png"))]
    );
}

#[test]
fn update_edits_first_match() {
    let mut manager = BookmarkManager::load(vec![
        bookmark("A", "https://a.test", Some("/a.png")),
        bookmark("B", "https://b.test", None),
    ]);

    assert!(manager.update_with_favicon("https://a.test", "New".to_string(), "https://c.test".to_string(), None));
    assert_eq!(
        manager.entries(),
        vec![
            bookmark("New", "https://c.test", Some("/a.png")),
            bookmark("B", "https://b.test", None),
        ]
    );

    assert!(manager.update_with_favicon("https://c.test", "".to_string(), "https://c.test".to_string(), Some("/c.png".to_string())));
    assert_eq!(manager.entries()[0], bookmark("https://c.test", "https://c.test", Some("/c.png")));
}

#[test]
fn update_refusals_change_nothing() {
    let mut manager = BookmarkManager::load(vec![
        bookmark("A", "https://a.test", None),
        bookmark("B", "https://b.test", None),
    ]);
    let before = manager.entries();

    assert!(!manager.update_with_favicon("https://a.test", "x".to_string(), "https://b.test".to_string(), None));
    assert!(!manager.update_with_favicon("https://a.test", "x".to_string(), "about:blank".to_string(), None));
    assert!(!manager.update_with_favicon("https://z.test", "x".to_string(), "https://y.test".to_string(), None));
    assert_eq!(manager.entries(), before);
}

#[test]
fn remove_deletes_every_match() {
    let mut manager = BookmarkManager::load(vec![
        bookmark("A", "https://a.test", None),
        bookmark("B", "https://b.test", None),
        bookmark("A2", "https://a.test", None),
    ]);

    assert!(manager.remove("https://a.test"));
    assert_eq!(manager.entries(), vec![bookmark("B", "https://b.test", None)]);
    assert!(!manager.remove("https://a.test"));
}

#[test]
fn bookmarkable_urls() {
    assert!(is_bookmarkable_url("https://x"));
    assert!(is_bookmarkable_url("http://x"));
    assert!(!is_bookmarkable_url("axys://newtab"));
}

#[test]
fn favicon_names_are_hex_hashes() {
    assert_eq!(favicon_file_name_for_hash(0), "0000000000000000.png");
    assert_eq!(favicon_file_name_for_hash(0xdead_beef), "00000000deadbeef.png");
    assert_eq!(favicon_file_name_for_hash(u64::MAX), "ffffffffffffffff.png");

    let mut hasher = DefaultHasher::new();
    "https://example.com".hash(&mut hasher);
    let expected = format!("{:016x}.png", hasher.finish());

    assert_eq!(favicon_file_name("https://example.com"), expected);
    assert_ne!(favicon_file_name("https://example.com"), favicon_file_name("https://example.org"));
}
