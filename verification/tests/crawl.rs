use vidscrape::err::ScrapeError;
use vidscrape::extractor::{ExtractedThing, ThingType};
use vidscrape::{CrawlStep, Crawler, filter_excluded};

fn thing(kind: ThingType, id: &str) -> ExtractedThing {
    ExtractedThing {
        title: format!("title {id}"),
        next_type: kind,
        next_id: id.to_string(),
    }
}

#[test]
fn crawl_visits_and_collects_in_discovery_order() {
    let mut c = Crawler::new("root".to_string());
    assert!(matches!(c.step(), Ok(CrawlStep::FetchPage(id)) if id == "root"));
    c.supply(vec![thing(ThingType::Collection, "c1")]);
    assert!(matches!(c.step(), Ok(CrawlStep::FetchCollection(id)) if id == "c1"));
    c.supply(vec![
        thing(ThingType::Video, "v1"),
        thing(ThingType::Video, "v2"),
    ]);
    // stack order: most recently discovered first
    assert!(matches!(c.step(), Ok(CrawlStep::TookVideo)));
    assert!(matches!(c.step(), Ok(CrawlStep::TookVideo)));
    assert!(c.is_done());
    assert!(matches!(c.step(), Ok(CrawlStep::Done)));
    let videos = c.into_videos();
    let ids: Vec<&str> = videos.iter().map(|v| v.next_id.as_str()).collect();
    assert_eq!(ids, vec!["v2", "v1"]);
}

#[test]
fn seen_video_is_skipped_and_kept_once() {
    let mut c = Crawler::new("root".to_string());
    assert!(matches!(c.step(), Ok(CrawlStep::FetchPage(_))));
    c.supply(vec![
        thing(ThingType::Video, "v1"),
        thing(ThingType::Video, "v1"),
    ]);
    assert!(matches!(c.step(), Ok(CrawlStep::TookVideo)));
    assert!(matches!(c.step(), Ok(CrawlStep::Skipped)));
    // every output id is in the seen set exactly once, and appears once
    assert_eq!(c.all_videos.len(), 1);
    assert_eq!(
        c.seen_ids.iter().filter(|s| s.as_str() == "v1").count(),
        1
    );
}

#[test]
fn duplicate_non_video_is_fatal() {
    let mut c = Crawler::new("root".to_string());
    assert!(matches!(c.step(), Ok(CrawlStep::FetchPage(_))));
    c.supply(vec![
        thing(ThingType::Collection, "c1"),
        thing(ThingType::Collection, "c1"),
    ]);
    assert!(matches!(c.step(), Ok(CrawlStep::FetchCollection(_))));
    c.supply(vec![]);
    assert!(matches!(c.step(), Err(ScrapeError::SchemaViolation(_))));
}

#[test]
fn excluded_ids_never_reach_the_output() {
    let videos = vec![
        thing(ThingType::Video, "v1"),
        thing(ThingType::Video, "v2"),
        thing(ThingType::Video, "v3"),
    ];
    let excluded = vec!["v2".to_string()];
    let kept = filter_excluded(&videos, &excluded);
    let ids: Vec<&str> = kept.iter().map(|v| v.next_id.as_str()).collect();
    assert_eq!(ids, vec!["v1", "v3"]);

    let all = vec!["v1".to_string(), "v2".to_string(), "v3".to_string()];
    assert!(filter_excluded(&videos, &all).is_empty());

    let none: Vec<String> = vec![];
    assert_eq!(filter_excluded(&videos, &none).len(), 3);
}
