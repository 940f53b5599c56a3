use axysbrowser::browser::address::{is_search_input, resolve_input, SearchConfig};

fn load_config() -> SearchConfig {
    let mut config = SearchConfig::new("brave".to_string());
    config.insert_engine(
        "brave".to_string(),
        "https://search.brave.com/search?q=%s".to_string(),
    );
    config.insert_engine(
        "duckduckgo".to_string(),
        "https://duckduckgo.com/?q=%s".to_string(),
    );
    config
}

#[test]
fn resolves_https_url() {
    let config = load_config();

    assert_eq!(
        resolve_input("https://example.com", &config),
        "https://example.com"
    );
}

#[test]
fn resolves_domain() {
    let config = load_config();

    assert_eq!(resolve_input("example.com", &config), "https://example.com");
}

#[test]
fn resolves_search() {
    let config = load_config();

    let result = resolve_input("example browser", &config);

    assert!(result.starts_with("https://search.brave.com/search?q="));

    assert!(result.contains("example"));

    assert!(result.contains("browser"));
}

#[test]
fn resolves_internal_page() {
    let config = load_config();

    assert_eq!(resolve_input("axys://settings", &config), "axys://settings");
}

#[test]
fn resolves_youtube_to_canonical_url() {
    let config = load_config();

    assert_eq!(
        resolve_input("youtube.com", &config),
        "https://www.youtube.com"
    );
}

#[test]
fn resolves_www_youtube_to_canonical_url() {
    let config = load_config();

    assert_eq!(
        resolve_input("www.youtube.com", &config),
        "https://www.youtube.com"
    );
}

#[test]
fn search_query_is_form_encoded() {
    let config = load_config();

    assert_eq!(
        resolve_input("example browser", &config),
        "https://search.brave.com/search?q=example+browser"
    );
    assert_eq!(
        resolve_input("a&b=c/é", &config),
        "https://search.brave.com/search?q=a%26b%3Dc%2F%C3%A9"
    );
    assert_eq!(
        resolve_input("keep*-_ ok", &config),
        "https://search.brave.com/search?q=keep*-_+ok"
    );
}

#[test]
fn search_uses_the_default_engine() {
    let mut config = load_config();
    config.set_default_engine("duckduckgo".to_string());

    assert_eq!(
        resolve_input("rust", &config),
        "https://duckduckgo.com/?q=rust"
    );
}

#[test]
fn blank_input_opens_new_tab() {
    let config = load_config();

    assert_eq!(resolve_input("", &config), "axys://newtab");
    assert_eq!(resolve_input(" \t\u{3000} ", &config), "axys://newtab");
}

#[test]
fn input_is_trimmed() {
    let config = load_config();

    assert_eq!(
        resolve_input("  https://example.com/a b  ", &config),
        "https://example.com/a b"
    );
    assert_eq!(resolve_input("\u{a0}example.org\n", &config), "https://example.org");
}

#[test]
fn youtube_host_ignores_case_and_trailing_slashes() {
    let config = load_config();

    assert_eq!(
        resolve_input("YouTube.COM//", &config),
        "https://www.youtube.com"
    );
    assert_eq!(
        resolve_input("m.youtube.com", &config),
        "https://m.youtube.com"
    );
    assert_eq!(
        resolve_input("example.com/", &config),
        "https://example.com/"
    );
}

#[test]
fn dotted_text_with_space_is_searched() {
    let config = load_config();

    assert_eq!(
        resolve_input("version 1.2", &config),
        "https://search.brave.com/search?q=version+1.2"
    );
    assert!(is_search_input("version 1.2"));
    assert!(!is_search_input("example.com"));
    assert!(!is_search_input("   "));
    assert!(!is_search_input("http://x"));
}

#[test]
fn template_replaces_every_placeholder() {
    let mut config = SearchConfig::new("twice".to_string());
    config.insert_engine("twice".to_string(), "https://s/%s?again=%s&raw=%".to_string());

    assert_eq!(
        resolve_input("q", &config),
        "https://s/q?again=q&raw=%"
    );
}

#[test]
fn search_config_behaves_like_a_map() {
    let mut config = load_config();

    assert!(config.contains_engine("brave"));
    assert!(!config.contains_engine("google"));
    assert_eq!(config.engine("google"), None);

    config.insert_engine("brave".to_string(), "https://other/?q=%s".to_string());

    assert_eq!(config.engine("brave"), Some("https://other/?q=%s".to_string()));
    assert_eq!(config.default_engine(), "brave");
}

#[test]
fn private_copy_prefers_brave() {
    let mut config = load_config();
    config.set_default_engine("duckduckgo".to_string());

    let private = config.private_copy();

    assert_eq!(private.default_engine(), "brave");
    assert_eq!(config.default_engine(), "duckduckgo");

    let mut without = SearchConfig::new("duckduckgo".to_string());
    without.insert_engine("duckduckgo".to_string(), "https://duckduckgo.com/?q=%s".to_string());

    assert_eq!(without.private_copy().default_engine(), "duckduckgo");
}

#[test]
fn resolving_a_resolved_address_keeps_it() {
    let config = load_config();

    for input in [
        "",
        "axys://settings",
        "  https://example.com/a  ",
        "example.com/",
        "YouTube.com",
        "example browser",
    ] {
        let once = resolve_input(input, &config);

        assert_eq!(resolve_input(&once, &config), once);
    }
}
