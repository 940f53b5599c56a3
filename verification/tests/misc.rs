use axysbrowser::app_state::{default_search_engine, AppState, UserSettings};
use axysbrowser::browser::address::SearchConfig;
use axysbrowser::browser::downloads::{default_file_name, DownloadManager, DownloadStatus};
use axysbrowser::i18n::{locale_from, normalize_locale, set_locale, system_locale};
use axysbrowser::internal::pages::settings::{
    appearance_index, is_dark_choice, search_engine_at, search_engine_index,
};
use axysbrowser::internal::router::{page_name, page_title};
use axysbrowser::theme::{stylesheet, DARK_PALETTE, LIGHT_PALETTE};
use axysbrowser::ui::bookmarks::overflow_visibility;
use axysbrowser::ui::toolbar::bookmark_target;

#[test]
fn router_names_and_titles() {
    assert_eq!(page_name("axys://"), Some("newtab"));
    assert_eq!(page_name("axys://newtab"), Some("newtab"));
    assert_eq!(page_name("axys://settings"), Some("settings"));
    assert_eq!(page_name("axys://downloads"), Some("downloads"));
    assert_eq!(page_name("axys://nope"), None);
    assert_eq!(page_name("https://example.com"), None);
    assert_eq!(page_title("axys://about"), "About axysBrowser");
    assert_eq!(page_title("axys://welcome"), "Welcome");
    assert_eq!(page_title("https://example.com"), "New Tab");
}

#[test]
fn locales_are_normalized() {
    assert_eq!(normalize_locale("es-ES"), "es");
    assert_eq!(normalize_locale("ES_mx"), "es");
    assert_eq!(normalize_locale("en-US"), "en");
    assert_eq!(normalize_locale("e"), "en");
    assert_eq!(locale_from(None), "en");
    assert_eq!(locale_from(Some("es")), "es");
    let system = system_locale();
    assert!(system == "es" || system == "en");
    set_locale("es-AR");
}

#[test]
fn stylesheet_uses_theme_palette() {
    let dark = stylesheet(true);
    let light = stylesheet(false);

    assert!(dark.contains(DARK_PALETTE));
    assert!(light.contains(LIGHT_PALETTE));
    assert!(dark.contains("color: alpha(@axys_fg, 0.62);"));
    assert!(light.contains("color: alpha(@axys_fg, 0.92);"));
    assert!(dark.contains("window {\n            background-color: @axys_bg;"));
    assert!(!dark.contains("{{"));
    assert_eq!(
        dark.replace(DARK_PALETTE, "").replace("alpha(@axys_fg, 0.62);", "X"),
        light.replace(LIGHT_PALETTE, "").replace("alpha(@axys_fg, 0.92);", "X")
    );
    assert!(dark.starts_with("\n        \n    @define-color axys_bg #242424;"));
    assert!(light.ends_with("color: @axys_fg;\n        }\n        "));
}

#[test]
fn settings_choices() {
    assert_eq!(search_engine_index("google"), 2);
    assert_eq!(search_engine_index("unknown"), 0);
    assert_eq!(search_engine_at(3), "bing");
    assert_eq!(search_engine_at(9), "brave");
    for i in 0..4 {
        assert_eq!(search_engine_index(search_engine_at(i)), i);
    }
    assert_eq!(appearance_index(true), 0);
    assert!(is_dark_choice(0));
    assert!(!is_dark_choice(1));
}

fn search() -> SearchConfig {
    let mut config = SearchConfig::new("brave".to_string());
    config.insert_engine("brave".to_string(), "https://search.brave.com/search?q=%s".to_string());
    config.insert_engine("google".to_string(), "https://www.google.com/search?q=%s".to_string());
    config
}

#[test]
fn app_state_reconciles_search_engine() {
    let settings = UserSettings::default();
    assert_eq!(settings.search_engine, default_search_engine());
    assert!(settings.dark_mode && settings.show_extensions && settings.developer_tools && settings.tracking_prevention);

    let mut stored = UserSettings::default();
    stored.search_engine = "bing".to_string();
    let state = AppState::load(stored, search());
    assert_eq!(state.settings.search_engine, "brave");
    assert_eq!(state.search.default_engine(), "brave");

    let mut stored = UserSettings::default();
    stored.search_engine = "google".to_string();
    let mut state = AppState::load(stored, search());
    assert_eq!(state.search.default_engine(), "google");

    assert!(!state.set_search_engine("bing"));
    assert_eq!(state.settings.search_engine, "google");
    assert!(state.set_search_engine("brave"));
    assert_eq!(state.search.default_engine(), "brave");
    assert_eq!(state.settings.search_engine, "brave");

    state.set_dark_mode(false);
    state.set_extensions_visible(false);
    state.set_developer_tools(false);
    state.set_tracking_prevention(false);
    assert!(!state.settings.dark_mode && !state.settings.show_extensions);
    assert!(!state.settings.developer_tools && !state.settings.tracking_prevention);
}

#[test]
fn downloads_lifecycle() {
    let mut downloads = DownloadManager::new();

    let a = downloads.start();
    let b = downloads.start();
    assert_eq!((a, b), (1, 2));
    assert_eq!(downloads.active_count(), 2);
    assert_eq!(downloads.entries()[0].filename, "Download");

    assert!(downloads.set_destination(a, "/home/u/Downloads/f.zip".to_string(), Some("f.zip".to_string()), "download".to_string()));
    assert_eq!(downloads.finish(a), Some(("f.zip".to_string(), true)));
    assert_eq!(downloads.entries()[0].status, DownloadStatus::Completed);
    assert_eq!(downloads.entries()[0].path, "/home/u/Downloads/f.zip");
    assert_eq!(downloads.finish(a), Some(("f.zip".to_string(), false)));

    assert!(downloads.cancel(b));
    assert!(downloads.fail(b, "network".to_string()));
    assert_eq!(downloads.entries()[1].status, DownloadStatus::Cancelled);
    assert_eq!(downloads.active_count(), 0);

    let c = downloads.start();
    assert!(downloads.fail(c, "disk full".to_string()));
    assert_eq!(downloads.entries()[2].status, DownloadStatus::Failed("disk full".to_string()));

    assert!(!downloads.cancel(99));
    assert_eq!(downloads.finish(99), None);
    assert!(!downloads.set_destination(99, "p".to_string(), None, "download".to_string()));
    assert_eq!(downloads.next_id(), 4);

    assert_eq!(default_file_name("  "), "download");
    assert_eq!(default_file_name("a.pdf"), "a.pdf");
}

#[test]
fn bookmark_bar_overflow() {
    assert_eq!(overflow_visibility(0, &vec![10]), None);
    assert_eq!(
        overflow_visibility(100, &vec![40, 40, 0, 30, 5]),
        Some(vec![true, true, true, false, false])
    );
    assert_eq!(overflow_visibility(47, &vec![40]), Some(vec![false]));
    assert_eq!(overflow_visibility(48, &vec![40]), Some(vec![true]));
}

#[test]
fn bookmark_dialog_accepts_web_addresses() {
    assert_eq!(bookmark_target("  https://a.test "), Some("https://a.test".to_string()));
    assert_eq!(bookmark_target("   "), None);
    assert_eq!(bookmark_target("a.test"), None);
}

#[test]
fn cancelling_a_finished_download_changes_nothing() {
    let mut downloads = DownloadManager::new();

    let done = downloads.start();
    let broken = downloads.start();
    let running = downloads.start();
    downloads.finish(done);
    downloads.fail(broken, "network".to_string());

    let before = downloads.entries();
    assert!(!downloads.cancel(done));
    assert!(!downloads.cancel(broken));
    assert_eq!(downloads.entries(), before);
    assert_eq!(downloads.entries()[0].status, DownloadStatus::Completed);
    assert_eq!(downloads.entries()[1].status, DownloadStatus::Failed("network".to_string()));

    assert!(downloads.cancel(running));
    assert_eq!(downloads.entries()[2].status, DownloadStatus::Cancelled);
    assert!(!downloads.cancel(running));
}

#[test]
fn started_downloads_get_increasing_ids() {
    let mut downloads = DownloadManager::new();

    let ids: Vec<u64> = (0..5).map(|_| downloads.start()).collect();
    assert_eq!(ids, vec![1, 2, 3, 4, 5]);
    assert_eq!(downloads.next_id(), 6);

    let recent: Vec<u64> = downloads.recent(3).iter().map(|entry| entry.id).collect();
    assert_eq!(recent, vec![5, 4, 3]);
    assert_eq!(downloads.recent(10).len(), 5);
    assert!(DownloadManager::new().recent(5).is_empty());
}
