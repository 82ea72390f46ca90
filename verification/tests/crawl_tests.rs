use web_scraper::config::Config;
use web_scraper::crawl::Crawler;

const SEED: &str = "https://site.example";

fn config() -> Config {
    Config {
        blacklist: vec!["blocked.example".to_string()],
        api_core: "/api/".to_string(),
        noise_strings: vec![],
    }
}

fn fresh() -> Crawler {
    Crawler::new(SEED.to_string(), config())
}

#[test]
fn the_seed_is_the_first_task() {
    let mut c = fresh();
    let t = c.take_next().expect("seed task");
    assert_eq!(t.url, SEED);
    assert_eq!(t.base_url, SEED);
    assert_eq!(t.depth, 1);
    assert!(!t.third_party);
    assert!(c.take_next().is_none());
}

#[test]
fn a_url_is_never_handed_out_twice() {
    let mut c = fresh();
    let seed = c.take_next().expect("seed task");
    // The same directory reference appears twice; the regex pass and the
    // structural pass each see both, so four steps are queued for one URL.
    let body = r#"<html><body><a href="/sub/">one</a><a href="/sub/">two</a></body></html>"#;
    c.process_page(&seed, body);
    let t = c.take_next().expect("first fetch of /sub/");
    assert_eq!(t.url, "https://site.example/sub/");
    assert!(c.take_next().is_none());
    assert_eq!(
        c.visited,
        vec![SEED.to_string(), "https://site.example/sub/".to_string()]
    );
}

#[test]
fn first_party_chains_stop_at_depth_three() {
    let mut c = fresh();
    let t1 = c.take_next().expect("depth 1");
    c.process_page(&t1, r#"<a href="/a/">x</a>"#);
    let t2 = c.take_next().expect("depth 2");
    assert_eq!(t2.depth, 2);
    c.process_page(&t2, r#"<a href="/b/">x</a>"#);
    let t3 = c.take_next().expect("depth 3");
    assert_eq!(t3.depth, 3);
    assert!(t3.depth <= 3);
    // At depth 3 a directory reference is classified but never queued.
    c.process_page(&t3, r#"<a href="/c/">x</a>"#);
    assert!(c.take_next().is_none());
}

#[test]
fn third_party_references_get_one_hop() {
    let mut c = fresh();
    let t1 = c.take_next().expect("seed");
    c.process_page(&t1, r#"<a href="https://third.example/page/">x</a>"#);
    let t2 = c.take_next().expect("third-party hop");
    assert_eq!(t2.url, "https://third.example/page/");
    assert_eq!(t2.base_url, "https://third.example/page/");
    assert_eq!(t2.depth, 1);
    assert!(t2.third_party);
    // From a third-party node, further references are never queued.
    c.process_page(&t2, r#"<a href="https://fourth.example/x/">x</a>"#);
    assert!(c.take_next().is_none());
}

#[test]
fn blacklisted_third_party_is_not_queued() {
    let mut c = fresh();
    let t1 = c.take_next().expect("seed");
    c.process_page(&t1, r#"<a href="https://blocked.example/page/">x</a>"#);
    assert!(c.take_next().is_none());
    // Its host is still recorded in the domain registry.
    assert!(c.domains.contains(&"blocked.example".to_string()));
}

#[test]
fn same_domain_references_are_classified() {
    let mut c = fresh();
    let t = c.take_next().expect("seed");
    let body = r#"<html><body><img src="/pic.png"><a href="/page.html">x</a></body></html>"#;
    c.process_page(&t, body);
    // Each reference is seen by the regex pass and by the structural
    // pass; nothing deduplicates the collections during the walk.
    assert_eq!(
        c.html_urls,
        vec![
            "https://site.example/page.html".to_string(),
            "https://site.example/page.html".to_string(),
        ]
    );
    assert_eq!(
        c.static_urls,
        vec![
            "https://site.example/pic.png".to_string(),
            "https://site.example/pic.png".to_string(),
        ]
    );
}

#[test]
fn iframe_sources_are_extracted_structurally() {
    let mut c = fresh();
    let t = c.take_next().expect("seed");
    let body = r#"<html><body><iframe src="/frame.html"></iframe></body></html>"#;
    c.process_page(&t, body);
    // Once from the regex pass, once from the `[src]` selector and once
    // from the dedicated iframe sweep.
    assert_eq!(c.html_urls.len(), 3);
    assert!(c.html_urls.iter().all(|u| u == "https://site.example/frame.html"));
}

#[test]
fn page_bodies_feed_the_detector() {
    let mut c = fresh();
    let t = c.take_next().expect("seed");
    c.process_page(&t, "\"13812345678\"");
    assert_eq!(
        c.findings,
        vec![("手机号".to_string(), "13812345678 (中国移动)".to_string())]
    );
}

#[test]
fn js_targets_are_same_domain_non_noise_scripts() {
    let mut c = fresh();
    let t = c.take_next().expect("seed");
    let body = r#"<script src="/js/app.js"></script><script src="/js/vendor.js"></script><script src="https://cdn.example/lib.js"></script><img src="/pic.png">"#;
    c.process_page(&t, body);
    let targets = c.js_targets();
    assert_eq!(
        targets,
        vec![
            "https://site.example/js/app.js".to_string(),
            "https://site.example/js/app.js".to_string(),
        ]
    );
}

#[test]
fn base_urls_grow_from_same_domain_js() {
    let mut c = fresh();
    let body = "var a=\"https://site.example/app2/\";var b=\"https://other.example/x\";var c=\"https://blocked.example/y\";";
    c.harvest_base_urls(body);
    assert_eq!(
        c.base_urls,
        vec![SEED.to_string(), "https://site.example/app2/".to_string()]
    );
    assert!(c.domains.contains(&"other.example".to_string()));
    assert!(c.domains.contains(&"blocked.example".to_string()));
    // A second sweep over the same body adds nothing new.
    c.harvest_base_urls(body);
    assert_eq!(c.base_urls.len(), 2);
}

#[test]
fn api_fragments_resolve_against_every_base() {
    let mut c = fresh();
    c.harvest_base_urls("var a=\"https://site.example/app2/\";");
    c.harvest_api_paths("fetch(\"/api/users\");");
    assert_eq!(
        c.api_paths,
        vec![
            "https://site.example/api/users".to_string(),
            "https://site.example/app2/api/users".to_string(),
        ]
    );
}

#[test]
fn blacklisted_seed_is_never_fetched() {
    let mut c = Crawler::new("https://blocked.example/app".to_string(), config());
    assert!(c.take_next().is_none());
    assert!(c.visited.is_empty());
}
