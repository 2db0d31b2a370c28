use cat_archive::archive::ArchivedPost;
use cat_archive::archive::MediaKind;
use cat_archive::archive::Timestamp;
use cat_archive::feed::FeedMedia;
use cat_archive::feed::FeedPost;
use cat_archive::feed::VideoVariant;
use cat_archive::sync::SyncSession;

fn ts(year: i32) -> Timestamp {
    Timestamp { year, month: 6, day: 15, hour: 12, minute: 0, second: 0 }
}

fn plain_post(id: u64, year: i32, tags: &[&str]) -> FeedPost {
    FeedPost {
        id,
        text: format!("post {}", id),
        created_at: ts(year),
        hashtags: tags.iter().map(|t| t.to_string()).collect(),
        media: Vec::new(),
    }
}

fn archived(id: u64, year: i32) -> ArchivedPost {
    ArchivedPost {
        id,
        text: format!("post {}", id),
        created_at: ts(year),
        media: Vec::new(),
    }
}

#[test]
fn empty_page_stops_without_adding_records() {
    let prior = vec![archived(1000, 2021)];
    let mut s = SyncSession::begin(prior.clone(), "cats".to_string());
    s.apply_page(Vec::new());
    assert!(s.done);
    assert_eq!(s.archive, prior);
    let out = s.finish();
    assert_eq!(out, prior);
}

#[test]
fn stale_page_stops_before_processing() {
    let mut s = SyncSession::begin(Vec::new(), "cats".to_string());
    // The newest item of this page was created before the retention boundary,
    // so none of its items may be classified or transformed.
    let page = vec![plain_post(50, 2019, &["cats"]), plain_post(40, 2018, &["cats"])];
    s.apply_page(page);
    assert!(s.done);
    assert!(s.archive.is_empty());
    assert_eq!(s.ceiling, None);
}

#[test]
fn only_tagged_posts_are_archived() {
    let mut s = SyncSession::begin(Vec::new(), "cats".to_string());
    let page = vec![plain_post(20, 2021, &["cats", "daily"]), plain_post(10, 2021, &["dogs"])];
    s.apply_page(page);
    assert!(!s.done);
    let out = s.finish();
    assert_eq!(out.len(), 1);
    assert_eq!(out[0].id, 20);
    assert_eq!(out[0].text, "post 20");
}

#[test]
fn tag_match_is_exact_and_case_sensitive() {
    let mut s = SyncSession::begin(Vec::new(), "cats".to_string());
    let page = vec![
        plain_post(30, 2021, &["Cats"]),
        plain_post(20, 2021, &["cat"]),
        plain_post(10, 2021, &["catsss"]),
    ];
    s.apply_page(page);
    assert!(s.finish().is_empty());
}

#[test]
fn resume_uses_newest_id_as_floor() {
    let prior = vec![archived(1000, 2021), archived(500, 2020)];
    let s = SyncSession::begin(prior, "cats".to_string());
    assert_eq!(s.floor, Some(1000));
    assert_eq!(s.ceiling, None);
    assert!(!s.done);
}

#[test]
fn cursor_advances_to_oldest_item_of_each_page() {
    let mut s = SyncSession::begin(Vec::new(), "cats".to_string());
    s.apply_page(vec![plain_post(90, 2022, &["cats"]), plain_post(70, 2022, &[])]);
    assert_eq!(s.ceiling, Some(70));
    s.apply_page(vec![plain_post(60, 2021, &["cats"])]);
    assert_eq!(s.ceiling, Some(60));
}

#[test]
fn multi_page_run_is_sorted_and_has_no_duplicates() {
    let prior = vec![archived(100, 2021), archived(90, 2021)];
    let mut s = SyncSession::begin(prior, "cats".to_string());
    s.apply_page(vec![
        plain_post(300, 2022, &["cats"]),
        plain_post(250, 2022, &[]),
        plain_post(200, 2022, &["cats"]),
    ]);
    s.apply_page(vec![plain_post(150, 2021, &["cats"]), plain_post(110, 2021, &["cats"])]);
    s.apply_page(Vec::new());
    assert!(s.done);
    let out = s.finish();
    let ids: Vec<u64> = out.iter().map(|p| p.id).collect();
    assert_eq!(ids, vec![300, 200, 150, 110, 100, 90]);
    for w in ids.windows(2) {
        assert!(w[0] > w[1]);
    }
}

#[test]
fn rerun_with_no_new_data_leaves_archive_unchanged() {
    // First run discovers two posts.
    let mut first = SyncSession::begin(Vec::new(), "cats".to_string());
    first.apply_page(vec![plain_post(20, 2021, &["cats"]), plain_post(10, 2021, &["cats"])]);
    first.apply_page(Vec::new());
    let saved = first.finish();

    // Second run: the feed has nothing newer, the first page is empty.
    let mut second = SyncSession::begin(saved.clone(), "cats".to_string());
    second.apply_page(Vec::new());
    assert!(second.done);
    let resaved = second.finish();
    assert_eq!(resaved, saved);
}

#[test]
fn first_run_archives_only_what_it_discovered() {
    // A missing archive file starts the run from an empty archive.
    let loaded = cat_archive::store::interpret_load(cat_archive::store::LoadOutcome::Missing)
        .expect("missing file must not fail the run");
    assert!(loaded.is_empty());
    let mut s = SyncSession::begin(loaded, "cats".to_string());
    s.apply_page(vec![plain_post(7, 2023, &["cats"]), plain_post(3, 2023, &[])]);
    s.apply_page(Vec::new());
    let out = s.finish();
    assert_eq!(out.len(), 1);
    assert_eq!(out[0].id, 7);
}

#[test]
fn video_post_keeps_highest_bitrate_variant() {
    let media = FeedMedia {
        kind: MediaKind::Video,
        width: 1280,
        height: 720,
        image_url: "http://example.invalid/thumb.jpg".to_string(),
        variants: vec![
            VideoVariant { url: "http://example.invalid/low.mp4".to_string(), bitrate: Some(500) },
            VideoVariant { url: "http://example.invalid/high.mp4".to_string(), bitrate: Some(1200) },
        ],
    };
    let post = FeedPost {
        id: 42,
        text: "a video".to_string(),
        created_at: ts(2022),
        hashtags: vec!["cats".to_string()],
        media: vec![media],
    };
    let mut s = SyncSession::begin(Vec::new(), "cats".to_string());
    s.apply_page(vec![post]);
    let out = s.finish();
    assert_eq!(out.len(), 1);
    assert_eq!(out[0].media.len(), 1);
    let m = &out[0].media[0];
    assert_eq!(m.kind, MediaKind::Video);
    assert_eq!(m.width, 1280);
    assert_eq!(m.height, 720);
    assert_eq!(m.image_url, "http://example.invalid/thumb.jpg");
    assert_eq!(m.video_url.as_deref(), Some("http://example.invalid/high.mp4"));
}
