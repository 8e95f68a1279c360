use vidscrape::err::ScrapeError;
use vidscrape::extractor::{
    ExtractedThing, ThingType, extract_browse_name, extract_collections_from_root,
    extract_original_id, extract_things_from_collection, feed_to_item, item_from_subtype,
    the_only_attr,
};

#[test]
fn feed_reference_yields_collection_id() {
    // the query suffix is stripped and the id is the part after the last `/`
    let r = feed_to_item("https://x.test/feeds/abc123?limit=10").unwrap().unwrap();
    assert_eq!(r.next_id, "abc123");
    assert!(matches!(r.next_type, ThingType::Collection));
    assert_eq!(r.title, "collection from page");
}

#[test]
fn feed_reference_without_query_suffix() {
    let r = feed_to_item("https://x.test/feeds/xyz").unwrap().unwrap();
    assert_eq!(r.next_id, "xyz");
}

#[test]
fn watch_history_feed_is_skipped() {
    let r = feed_to_item("https://x.test/feeds/watch-history?limit=10").unwrap();
    assert!(r.is_none());
}

#[test]
fn feed_without_separator_is_fatal() {
    let r = feed_to_item("nopathseparator");
    assert!(matches!(r, Err(ScrapeError::SchemaViolation(_))));
}

#[test]
fn video_subtype_yields_video_item() {
    let id = "v1".to_string();
    let r = item_from_subtype("Title", "VIDEO", Some(&id)).unwrap().unwrap();
    assert_eq!(r.next_id, "v1");
    assert!(matches!(r.next_type, ThingType::Video));
    assert_eq!(r.title, "Title");
}

#[test]
fn generic_subtype_yields_no_item() {
    let r = item_from_subtype("Title", "GENERIC", None).unwrap();
    assert!(r.is_none());
}

#[test]
fn unknown_subtype_is_fatal() {
    let id = "v1".to_string();
    let r = item_from_subtype("Title", "BANNER", Some(&id));
    assert!(matches!(r, Err(ScrapeError::SchemaViolation(_))));
}

#[test]
fn the_only_attr_takes_the_single_value() {
    let r = the_only_attr(vec![Some("cfg".to_string())]).unwrap();
    assert_eq!(r, "cfg");
    assert!(matches!(
        the_only_attr(vec![]),
        Err(ScrapeError::SchemaViolation(_))
    ));
    assert!(matches!(
        the_only_attr(vec![Some("a".to_string()), Some("b".to_string())]),
        Err(ScrapeError::SchemaViolation(_))
    ));
    assert!(matches!(
        the_only_attr(vec![None]),
        Err(ScrapeError::SchemaViolation(_))
    ));
}

#[test]
fn home_page_root_id_is_extracted() {
    let html = br#"<html><head>
        <meta name="one-data" data-one-config='{"pages":{"HOME":"root-77"}}'>
        </head><body></body></html>"#;
    let r = extract_original_id(&html[..]).unwrap();
    assert_eq!(r, "root-77");
}

#[test]
fn home_page_without_meta_is_fatal() {
    let html = b"<html><head></head><body></body></html>";
    assert!(matches!(
        extract_original_id(&html[..]),
        Err(ScrapeError::SchemaViolation(_))
    ));
}

#[test]
fn home_page_with_two_metas_is_fatal() {
    let html = br#"<html><head>
        <meta name="one-data" data-one-config='{"pages":{"HOME":"a"}}'>
        <meta name="one-data" data-one-config='{"pages":{"HOME":"b"}}'>
        </head></html>"#;
    assert!(matches!(
        extract_original_id(&html[..]),
        Err(ScrapeError::SchemaViolation(_))
    ));
}

#[test]
fn page_payload_yields_collections() {
    let payload = br#"{"page":{"containerCollections":[{"containers":[
        {"data":{"feed":"https://x.test/api/feeds/coll-1?limit=5"}},
        {"data":{"feed":"https://x.test/api/feeds/watch-history"}},
        {"data":{"feed":"https://x.test/api/feeds/coll-2"}}
    ]}]}}"#
        .to_vec();
    let items = extract_collections_from_root(payload).unwrap();
    let ids: Vec<&str> = items.iter().map(|t| t.next_id.as_str()).collect();
    assert_eq!(ids, vec!["coll-1", "coll-2"]);
    assert!(items.iter().all(|t| matches!(t.next_type, ThingType::Collection)));
}

#[test]
fn page_payload_with_two_groups_is_fatal() {
    let payload = br#"{"page":{"containerCollections":[{"containers":[]},{"containers":[]}]}}"#
        .to_vec();
    assert!(matches!(
        extract_collections_from_root(payload),
        Err(ScrapeError::SchemaViolation(_))
    ));
}

#[test]
fn collection_payload_yields_videos_and_pages() {
    let payload = br#"{"pageInfo":{"hasMore":false},"data":[
        {"title":"First","subtype":"VIDEO","id":"v1"},
        {"title":"Banner","subtype":"GENERIC"},
        {"title":"Linked","subtype":"VIDEO","id":"v2",
         "actions":[{"kind":"NAVIGATE_TO_PAGE","params":{"id":"p9"}}]}
    ]}"#
        .to_vec();
    let items = extract_things_from_collection(payload).unwrap();
    let got: Vec<(&str, ThingType)> =
        items.iter().map(|t| (t.next_id.as_str(), t.next_type)).collect();
    assert_eq!(
        got,
        vec![
            ("v1", ThingType::Video),
            ("p9", ThingType::Page),
            ("v2", ThingType::Video),
        ]
    );
    assert_eq!(items[1].title, "Linked");
}

#[test]
fn paginated_collection_is_fatal() {
    let payload = br#"{"pageInfo":{"hasMore":true},"data":[]}"#.to_vec();
    assert!(matches!(
        extract_things_from_collection(payload),
        Err(ScrapeError::UnsupportedFeature(_))
    ));
}

#[test]
fn unknown_subtype_in_collection_is_fatal() {
    let payload = br#"{"pageInfo":{"hasMore":false},"data":[
        {"title":"Odd","subtype":"MYSTERY","id":"v1"}
    ]}"#
        .to_vec();
    assert!(matches!(
        extract_things_from_collection(payload),
        Err(ScrapeError::SchemaViolation(_))
    ));
}

#[test]
fn wrong_action_kind_is_fatal() {
    let payload = br#"{"pageInfo":{"hasMore":false},"data":[
        {"title":"T","subtype":"GENERIC","actions":[{"kind":"OPEN_MODAL","params":{"id":"x"}}]}
    ]}"#
        .to_vec();
    assert!(matches!(
        extract_things_from_collection(payload),
        Err(ScrapeError::SchemaViolation(_))
    ));
}

#[test]
fn browse_name_from_metadata() {
    let info = br#"{"upload_date":"20230705","fulltitle":"Ep 1: The Start"}"#.to_vec();
    assert_eq!(extract_browse_name(info).unwrap(), "2023-07-05 Ep 1 - The Start");
}

#[test]
fn browse_name_needs_both_fields() {
    let info = br#"{"upload_date":"20230705"}"#.to_vec();
    assert!(matches!(
        extract_browse_name(info),
        Err(ScrapeError::SchemaViolation(_))
    ));
    let bad = b"not json".to_vec();
    assert!(matches!(
        extract_browse_name(bad),
        Err(ScrapeError::SchemaViolation(_))
    ));
}

#[test]
fn duplicate_of_thing_copies_fields() {
    let t = ExtractedThing {
        title: "t".to_string(),
        next_type: ThingType::Page,
        next_id: "i".to_string(),
    };
    let d = t.duplicate();
    assert_eq!(d.title, t.title);
    assert_eq!(d.next_id, t.next_id);
    assert!(matches!(d.next_type, ThingType::Page));
}
