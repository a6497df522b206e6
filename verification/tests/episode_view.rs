use pinepods_pages::episode_page::{
    chapter_clock, chapter_image_url, chapter_number_label, chapter_spans, episode_page_path, episode_source,
    feed_episode_query, feed_lookup, feed_lookup_possible, podcast_page_query, share_link_url, shareable_page_url,
    EpisodeQuery, EpisodeSource, FeedLookup,
};
use pinepods_pages::text::IntErrorKind;

fn query() -> EpisodeQuery {
    EpisodeQuery {
        episode_id: None,
        youtube: None,
        person: None,
        podcast_title: None,
        episode_url: None,
        audio_url: None,
        podcast_index_id: None,
        is_youtube: None,
    }
}

fn some(s: &str) -> Option<String> {
    Some(s.to_string())
}

#[test]
fn episode_by_id() {
    let mut q = query();
    q.episode_id = some("123");
    q.youtube = some("true");
    q.person = some("yes");
    assert_eq!(episode_source(&q), EpisodeSource::ById { episode_id: 123, person_episode: false, youtube: true });
}

#[test]
fn episode_id_that_is_not_a_number() {
    let mut q = query();
    q.episode_id = some("12x");
    assert_eq!(episode_source(&q), EpisodeSource::BadId(IntErrorKind::InvalidDigit));
    q.episode_id = some("");
    assert_eq!(episode_source(&q), EpisodeSource::BadId(IntErrorKind::Empty));
    q.episode_id = some("99999999999");
    assert_eq!(episode_source(&q), EpisodeSource::BadId(IntErrorKind::PosOverflow));
}

#[test]
fn episode_from_feed_parameters() {
    let mut q = query();
    q.podcast_title = some("Show");
    q.audio_url = some("https://a.example/ep.mp3");
    q.podcast_index_id = some("nope");
    q.is_youtube = some("true");
    assert_eq!(
        episode_source(&q),
        EpisodeSource::ByFeed {
            podcast_title: "Show".to_string(),
            episode_url: String::new(),
            audio_url: "https://a.example/ep.mp3".to_string(),
            podcast_index_id: 0,
            is_youtube: true,
        }
    );
    q.podcast_index_id = some("55");
    match episode_source(&q) {
        EpisodeSource::ByFeed { podcast_index_id, .. } => assert_eq!(podcast_index_id, 55),
        other => panic!("unexpected {:?}", other),
    }
}

#[test]
fn feed_lookup_needs_all_three() {
    assert!(feed_lookup_possible("t", "e", "a"));
    assert!(!feed_lookup_possible("", "e", "a"));
    assert!(!feed_lookup_possible("t", "e", ""));
}

#[test]
fn feed_lookup_by_audio_address() {
    let urls = vec!["u1".to_string(), "u2".to_string(), "u2".to_string(), "u3".to_string()];
    let durations = vec![10, 20, 30, 0];
    assert_eq!(feed_lookup(&urls, &durations, "u2"), FeedLookup::Found(1));
    assert_eq!(feed_lookup(&urls, &durations, "u3"), FeedLookup::NoDuration);
    assert_eq!(feed_lookup(&urls, &durations, "u9"), FeedLookup::NotFound);
    assert_eq!(feed_lookup(&Vec::new(), &Vec::new(), "u1"), FeedLookup::NotFound);
}

#[test]
fn addresses_written_back() {
    assert_eq!(episode_page_path(42, false), "/episode?episode_id=42");
    assert_eq!(episode_page_path(42, true), "/episode?episode_id=42&youtube=true");
    assert_eq!(
        feed_episode_query("My Show", "https://x.example/e?id=1", "https://x.example/a.mp3", 7, false),
        "?podcast_title=My%20Show&episode_url=https%3A%2F%2Fx.example%2Fe%3Fid%3D1&audio_url=https%3A%2F%2Fx.example%2Fa.mp3&podcast_index_id=7&is_youtube=false"
    );
    assert_eq!(podcast_page_query("a&b", "c=d"), "?podcast_title=a%26b&podcast_url=c%3Dd");
    assert_eq!(share_link_url("https://srv", "abc123"), "https://srv/shared_episode/abc123");
}

#[test]
fn encoded_parameters_hold_no_delimiters() {
    let q = feed_episode_query("a&b=c?d#e", "ü/ä", "x y", 1, true);
    let values: Vec<&str> = q.trim_start_matches('?').split('&').collect();
    assert_eq!(values.len(), 5);
    assert!(values[0].starts_with("podcast_title=") && !values[0]["podcast_title=".len()..].contains(['&', '=', '?', '#']));
    assert_eq!(values[1], "episode_url=%C3%BC%2F%C3%A4");
}

#[test]
fn shareable_address_on_the_desktop_app() {
    let href = some("http://tauri.localhost/episode?episode_id=4");
    assert_eq!(shareable_page_url(&href, &some("https://pods.example")), "https://pods.example/episode?episode_id=4");
    assert_eq!(shareable_page_url(&href, &None), "http://tauri.localhost/episode?episode_id=4");
    assert_eq!(shareable_page_url(&None, &some("https://pods.example")), "Unable to retrieve URL");
}

#[test]
fn chapter_spans_run_to_the_next_start() {
    let spans = chapter_spans(&vec![Some(0), Some(90), None, Some(300)]);
    assert_eq!(spans, vec![(0, 90), (90, i32::MAX), (0, 300), (300, i32::MAX)]);
    assert!(chapter_spans(&Vec::new()).is_empty());
}

#[test]
fn chapter_clock_readings() {
    assert_eq!(chapter_clock(0), "00:00:00");
    assert_eq!(chapter_clock(75), "00:01:15");
    assert_eq!(chapter_clock(3661), "01:01:01");
    assert_eq!(chapter_clock(36000 * 10 + 59), "100:00:59");
    assert_eq!(chapter_clock(-5), "-1:-1:-5");
    assert_eq!(chapter_clock(-3600), "-1:00:00");
}

#[test]
fn chapter_clock_matches_float_arithmetic() {
    for start in [-7201i32, -3601, -61, -1, 0, 1, 59, 60, 3599, 3600, 86399, 1_000_000] {
        let st = start as f64;
        let hours = (st / 3600.0).floor() as i32;
        let minutes = ((st % 3600.0) / 60.0).floor() as i32;
        let seconds = (st % 60.0).floor() as i32;
        assert_eq!(chapter_clock(start), format!("{:02}:{:02}:{:02}", hours, minutes, seconds));
    }
}

#[test]
fn chapter_numbers_and_pictures() {
    assert_eq!(chapter_number_label(0), "01");
    assert_eq!(chapter_number_label(9), "10");
    assert_eq!(chapter_number_label(123), "124");
    assert_eq!(chapter_image_url(&some("https://srv"), &some("https://i/c.png")), some("https://srv/api/proxy/image?url=https%3A%2F%2Fi%2Fc.png"));
    assert_eq!(chapter_image_url(&None, &some("p")), some("/api/proxy/image?url=p"));
    assert_eq!(chapter_image_url(&some("https://srv"), &some("")), None);
    assert_eq!(chapter_image_url(&some("https://srv"), &None), None);
}
