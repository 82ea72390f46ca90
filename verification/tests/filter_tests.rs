use web_scraper::filter::filter_api_path;

fn bases() -> Vec<String> {
    vec!["https://a.example".to_string(), "https://b.example".to_string()]
}

#[test]
fn explicit_api_path_resolves_once_per_base() {
    let r = filter_api_path("/api/users", &bases(), "/api/", &vec![]);
    assert_eq!(
        r,
        vec![
            "https://a.example/api/users".to_string(),
            "https://b.example/api/users".to_string(),
        ]
    );
}

#[test]
fn restful_candidate_is_accepted() {
    let r = filter_api_path("/users/123", &bases(), "/api/", &vec![]);
    assert_eq!(
        r,
        vec![
            "https://a.example/users/123".to_string(),
            "https://b.example/users/123".to_string(),
        ]
    );
}

#[test]
fn cjk_fragment_is_rejected() {
    let r = filter_api_path("/用户/list", &bases(), "/api/", &vec![]);
    assert!(r.is_empty());
}

#[test]
fn cjk_rejection_beats_api_shape() {
    let r = filter_api_path("/api/用户", &bases(), "/api/", &vec![]);
    assert!(r.is_empty());
}

#[test]
fn base64_like_fragment_is_rejected() {
    let r = filter_api_path("/api/aGVsbG8=+/=+/=+/=", &bases(), "/api/", &vec![]);
    assert!(r.is_empty());
}

#[test]
fn too_short_fragment_is_rejected() {
    let r = filter_api_path("/", &bases(), "/api/", &vec![]);
    assert!(r.is_empty());
}

#[test]
fn noise_substring_rejects_fragment() {
    let noise = vec!["webpack".to_string()];
    let r = filter_api_path("/api/webpack/x", &bases(), "/api/", &noise);
    assert!(r.is_empty());
}

#[test]
fn markup_artifact_rejects_fragment() {
    let r = filter_api_path("/api/x</div", &bases(), "/api/", &vec![]);
    assert!(r.is_empty());
}

#[test]
fn static_asset_path_is_rejected() {
    let r = filter_api_path("/assets/app.css", &bases(), "/api/", &vec![]);
    assert!(r.is_empty());
}

#[test]
fn dotted_path_without_api_is_rejected() {
    let r = filter_api_path("/users/v1.2", &bases(), "/api/", &vec![]);
    assert!(r.is_empty());
}

#[test]
fn fragment_without_leading_slash_or_api_is_rejected() {
    let r = filter_api_path("users/123", &bases(), "/api/", &vec![]);
    assert!(r.is_empty());
}

#[test]
fn percent_encoded_fragment_is_decoded_before_classification() {
    let r = filter_api_path("/api%2Fusers", &bases(), "/api/", &vec![]);
    assert_eq!(
        r,
        vec![
            "https://a.example/api/users".to_string(),
            "https://b.example/api/users".to_string(),
        ]
    );
}

#[test]
fn overlong_fragment_is_rejected() {
    let frag = format!("/{}", "a".repeat(150));
    let r = filter_api_path(&frag, &bases(), "/api/", &vec![]);
    assert!(r.is_empty());
}
