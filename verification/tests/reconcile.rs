use vidscrape::err::ScrapeError;
use vidscrape::reconcile::{
    VideoDirState, assemble_script, browse_action, browse_ready, classify_video_dir,
    display_name, ends_with, needs_download, render_script, script_header, ytdl_commands,
};

fn names(list: &[&str]) -> Vec<String> {
    list.iter().map(|s| s.to_string()).collect()
}

#[test]
fn empty_dir_requires_download() {
    let state = classify_video_dir(&names(&[])).unwrap();
    assert_eq!(state, VideoDirState::Empty);
    assert!(needs_download(&state));
}

#[test]
fn attempt_log_alone_requires_download() {
    let state = classify_video_dir(&names(&["ytdl.log"])).unwrap();
    assert_eq!(state, VideoDirState::Retry);
    assert!(needs_download(&state));
}

#[test]
fn complete_artifacts_need_no_download() {
    let state = classify_video_dir(&names(&["v.mp4", "v.info.json", "v.jpg"])).unwrap();
    assert_eq!(state, VideoDirState::Complete);
    assert!(!needs_download(&state));
}

#[test]
fn complete_artifacts_with_log_need_no_download() {
    let state =
        classify_video_dir(&names(&["v.mp4", "v.info.json", "v.jpg", "ytdl.log"])).unwrap();
    assert_eq!(state, VideoDirState::Complete);
    assert!(!needs_download(&state));
}

#[test]
fn media_alone_is_fatal() {
    assert!(matches!(
        classify_video_dir(&names(&["v.mp4"])),
        Err(ScrapeError::FilesystemInconsistency(_))
    ));
}

#[test]
fn unknown_leftover_is_fatal() {
    assert!(matches!(
        classify_video_dir(&names(&["v.mp4", "v.info.json", "v.jpg", "stray.txt"])),
        Err(ScrapeError::FilesystemInconsistency(_))
    ));
}

#[test]
fn ends_with_suffixes() {
    assert!(ends_with("v.mp4", ".mp4"));
    assert!(ends_with("v.info.json", ".info.json"));
    assert!(!ends_with("v.mp4", ".jpg"));
    assert!(!ends_with("p4", ".mp4"));
}

#[test]
fn commands_for_one_video() {
    let cmds = ytdl_commands("acct9", "vid7", "A Title", "/data/videos/vid7");
    assert_eq!(
        cmds,
        vec![
            "cd /data/videos/vid7".to_string(),
            "echo \"A Title\"".to_string(),
            "youtube-dl --write-info-json --write-thumbnail --verbose \
             https://players.brightcove.net/acct9/default_default/index.html?videoId=vid7 \
             2>&1 | tee ytdl.log"
                .to_string(),
            "sleep 20".to_string(),
        ]
    );
}

#[test]
fn script_renders_header_first() {
    let lines = script_header();
    assert_eq!(render_script(&lines), "#!/bin/bash\nset -eux");
}

#[test]
fn script_assembles_header_then_blocks_in_order() {
    let blocks = vec![
        vec!["cd /a".to_string(), "echo \"A\"".to_string()],
        vec!["cd /b".to_string()],
    ];
    let lines = assemble_script(script_header(), &blocks);
    assert_eq!(
        lines,
        vec![
            "#!/bin/bash".to_string(),
            "set -eux".to_string(),
            "cd /a".to_string(),
            "echo \"A\"".to_string(),
            "cd /b".to_string(),
        ]
    );
}

#[test]
fn browse_runs_only_with_nothing_pending() {
    let empty: Vec<Vec<String>> = vec![];
    let header_only = assemble_script(script_header(), &empty);
    assert!(browse_ready(&header_only));
    let pending = assemble_script(
        script_header(),
        &vec![ytdl_commands("a", "v", "t", "/r")],
    );
    assert!(!browse_ready(&pending));
}

#[test]
fn script_emission_is_idempotent() {
    let mut lines = script_header();
    lines.extend(ytdl_commands("a", "v", "t", "/r"));
    let first = render_script(&lines);
    let second = render_script(&lines);
    assert_eq!(first.as_bytes(), second.as_bytes());
}

#[test]
fn display_name_formats_date_and_title() {
    let r = display_name("20240131", "My Show").unwrap();
    assert_eq!(r, "2024-01-31 My Show");
}

#[test]
fn display_name_replaces_colons() {
    let r = display_name("20240131", "My Show: Part 2").unwrap();
    assert_eq!(r, "2024-01-31 My Show - Part 2");
}

#[test]
fn display_name_rejects_bad_dates() {
    assert!(matches!(
        display_name("2024013", "t"),
        Err(ScrapeError::SchemaViolation(_))
    ));
    assert!(matches!(
        display_name("202401311", "t"),
        Err(ScrapeError::SchemaViolation(_))
    ));
}

#[test]
fn browse_entry_decisions() {
    assert!(matches!(browse_action(true, true), Ok(false)));
    assert!(matches!(browse_action(false, false), Ok(true)));
    assert!(matches!(
        browse_action(false, true),
        Err(ScrapeError::FilesystemInconsistency(_))
    ));
}
