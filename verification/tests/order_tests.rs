use web_scraper::order::sorted_dedup;

#[test]
fn output_lists_are_sorted_and_deduplicated() {
    let input = vec![
        "https://b.example/x".to_string(),
        "https://a.example/x".to_string(),
        "https://b.example/x".to_string(),
        "https://a.example/a".to_string(),
    ];
    let out = sorted_dedup(&input);
    assert_eq!(
        out,
        vec![
            "https://a.example/a".to_string(),
            "https://a.example/x".to_string(),
            "https://b.example/x".to_string(),
        ]
    );
}

#[test]
fn sorting_an_empty_list_yields_an_empty_list() {
    let out = sorted_dedup(&Vec::new());
    assert!(out.is_empty());
}

#[test]
fn shorter_prefix_sorts_first() {
    let input = vec!["abc".to_string(), "ab".to_string(), "abcd".to_string()];
    let out = sorted_dedup(&input);
    assert_eq!(out, vec!["ab".to_string(), "abc".to_string(), "abcd".to_string()]);
}
