use vidscrape::downloader::{
    DownType, Fetcher, REQUEST_THROTTLE_MS, browse_name, cache_dirs, extraction_db_root, path,
    response_ok, video_dl_name,
};
use vidscrape::err::ScrapeError;

#[test]
fn only_status_200_is_a_success() {
    assert!(response_ok(200).is_ok());
    for status in [100u16, 201, 204, 301, 302, 400, 403, 404, 500, 503] {
        assert!(matches!(
            response_ok(status),
            Err(ScrapeError::TransportFailure(_))
        ));
    }
}

#[test]
fn safe_names_are_lowercase_kind_names() {
    assert_eq!(DownType::HTML.safe_name(), "html");
    assert_eq!(DownType::Collection.safe_name(), "collection");
    assert_eq!(DownType::Page.safe_name(), "page");
}

#[test]
fn cache_file_names_follow_the_layout() {
    assert_eq!(DownType::HTML.cache_file_name(""), "page_home");
    assert_eq!(DownType::Collection.cache_file_name("c9"), "collection_c9");
    assert_eq!(DownType::Page.cache_file_name("p3"), "frontend_p3");
}

#[test]
fn urls_follow_the_templates() {
    assert_eq!(DownType::HTML.url("example.test", ""), "https://example.test/");
    assert_eq!(
        DownType::Collection.url("example.test", "c9"),
        "https://example.test/api/core/catalog/collection/c9"
    );
    assert_eq!(
        DownType::Page.url("example.test", "p3"),
        "https://example.test/api/core/page/p3"
    );
}

#[test]
fn path_joins_components() {
    assert_eq!(path(["extraction-db", "videos", "v1"]), "extraction-db/videos/v1");
    assert_eq!(path(["solo"]), "solo");
    let none: [&str; 0] = [];
    assert_eq!(path(none), "");
}

#[test]
fn cache_dirs_cover_root_and_kinds() {
    let dirs = cache_dirs();
    assert_eq!(
        dirs,
        vec![
            "extraction-db".to_string(),
            "extraction-db/html".to_string(),
            "extraction-db/collection".to_string(),
            "extraction-db/page".to_string(),
        ]
    );
}

#[test]
fn storage_names() {
    assert_eq!(extraction_db_root(), "extraction-db");
    assert_eq!(video_dl_name(), "videos");
    assert_eq!(browse_name(), "browse");
}

#[test]
fn second_fetch_of_same_key_is_a_cache_hit() {
    let mut f = Fetcher::new();
    assert!(f.cached(DownType::Page, "p1").is_none());
    f.record(DownType::Page, "p1".to_string(), vec![10u8, 20, 30], 5000);
    // byte-identical content comes back, and no network decision is needed
    assert_eq!(f.cached(DownType::Page, "p1"), Some(&vec![10u8, 20, 30]));
    // a different id or kind is still uncached
    assert!(f.cached(DownType::Page, "p2").is_none());
    assert!(f.cached(DownType::Collection, "p1").is_none());
}

#[test]
fn throttle_spacing_is_enforced() {
    let mut f = Fetcher::new();
    f.record(DownType::HTML, "".to_string(), vec![1u8], 7000);
    assert_eq!(f.last_request_ms, 7000);
    // immediately afterwards the full interval remains
    assert_eq!(f.wait_needed(7000), REQUEST_THROTTLE_MS);
    // partway through, the remainder
    assert_eq!(f.wait_needed(9000), 3000);
    // once the interval has elapsed, no wait
    assert_eq!(f.wait_needed(12000), 0);
    assert_eq!(f.wait_needed(20000), 0);
}
