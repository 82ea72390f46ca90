use web_scraper::normalize::{normalize_url_for_api, normalize_url_for_crawl};

#[test]
fn absolute_url_is_kept_unchanged() {
    let r = normalize_url_for_crawl("https://other.example/x?y=1", "https://base.example");
    assert_eq!(r, Some("https://other.example/x?y=1".to_string()));
}

#[test]
fn ws_url_is_kept_unchanged() {
    let r = normalize_url_for_crawl("wss://push.example/feed", "https://base.example");
    assert_eq!(r, Some("wss://push.example/feed".to_string()));
}

#[test]
fn relative_reference_joins_base() {
    let r = normalize_url_for_crawl("/rel/page.html", "https://base.example/dir/");
    assert_eq!(r, Some("https://base.example/rel/page.html".to_string()));
}

#[test]
fn dotted_reference_joins_directory() {
    let r = normalize_url_for_crawl("pic.png", "https://base.example/dir/");
    assert_eq!(r, Some("https://base.example/dir/pic.png".to_string()));
}

#[test]
fn unresolvable_join_is_a_skip_not_a_panic() {
    let r = normalize_url_for_crawl("/rel", "not a base url");
    assert_eq!(r, None);
}

#[test]
fn bare_api_takes_the_api_core() {
    let r = normalize_url_for_api("api", "https://x.example", "/v2/");
    assert_eq!(r, "https://x.example/v2");
}

#[test]
fn bare_api_with_slashes_takes_the_api_core() {
    let r = normalize_url_for_api("/api/", "https://x.example/", "/v2/");
    assert_eq!(r, "https://x.example/v2");
}

#[test]
fn ordinary_fragment_concatenates_onto_base() {
    let r = normalize_url_for_api("/v1/users", "https://x.example", "/api/");
    assert_eq!(r, "https://x.example/v1/users");
}

#[test]
fn base64_like_fragment_yields_the_empty_sentinel() {
    let r = normalize_url_for_api("data:image/png;base64,AAAA", "https://x.example", "/api/");
    assert_eq!(r, "");
}

#[test]
fn static_asset_fragment_yields_the_empty_sentinel() {
    let r = normalize_url_for_api("/theme/style.css", "https://x.example", "/api/");
    assert_eq!(r, "");
}

#[test]
fn invalid_resolved_url_yields_the_empty_sentinel() {
    let r = normalize_url_for_api("/v1/users", "not a base", "/api/");
    assert_eq!(r, "");
}
