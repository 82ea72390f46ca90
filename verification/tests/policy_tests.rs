use web_scraper::classify::classify_url;
use web_scraper::config::{default_noise_strings, parse_api_core, parse_list};
use web_scraper::domain::{extract_domain, is_blacklisted, is_noise_js_file};

#[test]
fn domain_of_http_url() {
    assert_eq!(
        extract_domain("http://a.example/path/x"),
        Some("a.example".to_string())
    );
}

#[test]
fn domain_of_https_url_with_port() {
    assert_eq!(
        extract_domain("https://a.example:8443/x"),
        Some("a.example:8443".to_string())
    );
}

#[test]
fn domain_with_user_info_is_refused() {
    assert_eq!(extract_domain("https://user@evil.example/x"), None);
}

#[test]
fn non_http_schemes_have_no_domain() {
    assert_eq!(extract_domain("mailto:user@a.example"), None);
    assert_eq!(extract_domain("javascript:void(0)"), None);
    assert_eq!(extract_domain("data:text/plain,hi"), None);
}

#[test]
fn blacklist_matches_by_substring() {
    let blacklist = vec!["tracker".to_string()];
    assert!(is_blacklisted("https://api.tracker.example/x", &blacklist));
    assert!(is_blacklisted("https://sub.mytracker.example/x", &blacklist));
    assert!(!is_blacklisted("https://clean.example/x", &blacklist));
}

#[test]
fn url_without_domain_is_never_blacklisted() {
    let blacklist = vec!["".to_string()];
    assert!(!is_blacklisted("mailto:x@y.example", &blacklist));
}

#[test]
fn bundler_chunks_are_noise() {
    assert!(is_noise_js_file("https://a.example/js/chunk-vendors.8f3a.js"));
    assert!(is_noise_js_file("https://a.example/js/main.js"));
    assert!(is_noise_js_file("https://a.example/js/polyfills.js"));
    assert!(!is_noise_js_file("https://a.example/js/app.js"));
}

#[test]
fn classification_is_mutually_exclusive() {
    let mut html: Vec<String> = Vec::new();
    let mut statics: Vec<String> = Vec::new();
    classify_url("https://a.example/index.html", &mut html, &mut statics);
    classify_url("https://a.example/app.js", &mut html, &mut statics);
    classify_url("https://a.example/plain", &mut html, &mut statics);
    assert_eq!(html, vec!["https://a.example/index.html".to_string()]);
    assert_eq!(statics, vec!["https://a.example/app.js".to_string()]);
}

#[test]
fn archives_count_as_static() {
    let mut html: Vec<String> = Vec::new();
    let mut statics: Vec<String> = Vec::new();
    classify_url("https://a.example/backup.tar.gz", &mut html, &mut statics);
    assert!(html.is_empty());
    assert_eq!(statics, vec!["https://a.example/backup.tar.gz".to_string()]);
}

#[test]
fn list_files_parse_line_by_line() {
    let parsed = parse_list("a.example\n  b.example \n\n\tc.example\n");
    assert_eq!(
        parsed,
        vec!["a.example".to_string(), "b.example".to_string(), "c.example".to_string()]
    );
}

#[test]
fn empty_api_core_falls_back_to_default() {
    assert_eq!(parse_api_core("  \n"), "/api/");
    assert_eq!(parse_api_core(" /v3/ "), "/v3/");
}

#[test]
fn default_noise_list_is_complete() {
    let noise = default_noise_strings();
    assert_eq!(noise.len(), 24);
    assert_eq!(noise[0], "/>");
    assert_eq!(noise[23], "/!");
    assert!(noise.contains(&"webpack".to_string()));
}
