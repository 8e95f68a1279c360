use vidscrape::err::ScrapeError;
use vidscrape::global_config::GlobalConfig;

fn lines(list: &[&str]) -> Vec<String> {
    list.iter().map(|s| s.to_string()).collect()
}

#[test]
fn config_reads_required_keys_and_exclusions() {
    let c = GlobalConfig::from_lines(&lines(&[
        "# a comment",
        "DOMAIN=example.test",
        "BC_ACCOUNT_ID=acct42",
        "missing=v1",
        "missing=v2",
    ]))
    .unwrap();
    assert_eq!(c.domain, "example.test");
    assert_eq!(c.bc_account_id, "acct42");
    assert_eq!(c.missing_videos, vec!["v1".to_string(), "v2".to_string()]);
}

#[test]
fn config_last_value_wins() {
    let c = GlobalConfig::from_lines(&lines(&[
        "DOMAIN=first.test",
        "BC_ACCOUNT_ID=a",
        "DOMAIN=second.test",
    ]))
    .unwrap();
    assert_eq!(c.domain, "second.test");
}

#[test]
fn config_ignores_unknown_keys() {
    let c = GlobalConfig::from_lines(&lines(&[
        "DOMAIN=d",
        "BC_ACCOUNT_ID=a",
        "OTHER=whatever",
    ]))
    .unwrap();
    assert_eq!(c.domain, "d");
    assert!(c.missing_videos.is_empty());
}

#[test]
fn config_line_without_equals_is_fatal() {
    assert!(matches!(
        GlobalConfig::from_lines(&lines(&["DOMAIN=d", "garbage"])),
        Err(ScrapeError::SchemaViolation(_))
    ));
}

#[test]
fn config_missing_required_key_is_fatal() {
    assert!(matches!(
        GlobalConfig::from_lines(&lines(&["DOMAIN=d"])),
        Err(ScrapeError::SchemaViolation(_))
    ));
    assert!(matches!(
        GlobalConfig::from_lines(&lines(&["BC_ACCOUNT_ID=a"])),
        Err(ScrapeError::SchemaViolation(_))
    ));
}

#[test]
fn default_config_is_empty() {
    let c = GlobalConfig::default();
    assert_eq!(c.domain, "");
    assert_eq!(c.bc_account_id, "");
    assert!(c.missing_videos.is_empty());
}
