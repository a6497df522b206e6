use pinepods_pages::hosts::{has_unknown_host, host_image_urls, host_names_line, host_page_url, proxied_image_url, HostPerson};
use pinepods_pages::podcast_page::{
    auto_delete_days_input, categories_to_string, completed_filter_from_preference, completed_filter_look,
    completed_filter_preference, completed_preference_key, completed_to_filter, cycle_completed_filter,
    description_element_id, episode_list_view_key, episode_sort_from_choice, episode_sort_from_preference,
    edit_form_for, is_youtube_channel_feed, known_podcast_id, merge_button_label, plan_podcast_edit,
    PodcastCurrentInfo, PodcastEditPlan, merged_podcast_label, number_input_or_zero, podcast_index_id_input,
    podcast_can_load_more, podcast_next_page_offset, remove_category, rss_base_url, rss_feed_url, sanitize_html, selected_episodes_label,
    silence_threshold_input, sort_preference_key, sort_to_params, status_sync_plan, CompletedFilter,
    EpisodeSortDirection,
};

const ORDERS: [(&str, EpisodeSortDirection); 6] = [
    ("newest", EpisodeSortDirection::NewestFirst),
    ("oldest", EpisodeSortDirection::OldestFirst),
    ("shortest", EpisodeSortDirection::ShortestFirst),
    ("longest", EpisodeSortDirection::LongestFirst),
    ("title_az", EpisodeSortDirection::TitleAZ),
    ("title_za", EpisodeSortDirection::TitleZA),
];

#[test]
fn episode_sort_words_and_restore() {
    for (word, d) in ORDERS {
        assert_eq!(episode_sort_from_choice(word), Some(d));
        assert_eq!(episode_sort_from_preference(&Some(word.to_string())), d);
    }
    assert_eq!(episode_sort_from_choice("newest "), None);
    assert_eq!(episode_sort_from_preference(&None), EpisodeSortDirection::NewestFirst);
    assert_eq!(episode_sort_from_preference(&Some("random".to_string())), EpisodeSortDirection::NewestFirst);
}

#[test]
fn server_sort_parameters() {
    assert_eq!(sort_to_params(None), ("date", "desc"));
    assert_eq!(sort_to_params(Some(EpisodeSortDirection::NewestFirst)), ("date", "desc"));
    assert_eq!(sort_to_params(Some(EpisodeSortDirection::OldestFirst)), ("date", "asc"));
    assert_eq!(sort_to_params(Some(EpisodeSortDirection::ShortestFirst)), ("duration", "asc"));
    assert_eq!(sort_to_params(Some(EpisodeSortDirection::LongestFirst)), ("duration", "desc"));
    assert_eq!(sort_to_params(Some(EpisodeSortDirection::TitleAZ)), ("title", "asc"));
    assert_eq!(sort_to_params(Some(EpisodeSortDirection::TitleZA)), ("title", "desc"));
}

#[test]
fn completion_filter_cycles_in_three_clicks() {
    for c in [CompletedFilter::ShowAll, CompletedFilter::ShowOnly, CompletedFilter::Hide] {
        let once = cycle_completed_filter(c);
        assert_ne!(once, c);
        assert_eq!(cycle_completed_filter(cycle_completed_filter(once)), c);
    }
    assert_eq!(cycle_completed_filter(CompletedFilter::ShowAll), CompletedFilter::ShowOnly);
    assert_eq!(cycle_completed_filter(CompletedFilter::ShowOnly), CompletedFilter::Hide);
}

#[test]
fn saved_completion_filter_is_restored() {
    for c in [CompletedFilter::ShowAll, CompletedFilter::ShowOnly, CompletedFilter::Hide] {
        let word = completed_filter_preference(c);
        assert_eq!(completed_filter_from_preference(&Some(word.to_string())), c);
    }
    assert_eq!(completed_filter_preference(CompletedFilter::ShowOnly), "show_only");
    assert_eq!(completed_filter_from_preference(&None), CompletedFilter::ShowAll);
    assert_eq!(completed_filter_from_preference(&Some("HIDE".to_string())), CompletedFilter::ShowAll);
}

#[test]
fn server_filter_words() {
    assert_eq!(completed_to_filter(CompletedFilter::Hide, true), "in_progress");
    assert_eq!(completed_to_filter(CompletedFilter::ShowOnly, false), "completed");
    assert_eq!(completed_to_filter(CompletedFilter::Hide, false), "incomplete");
    assert_eq!(completed_to_filter(CompletedFilter::ShowAll, false), "all");
    assert_eq!(completed_filter_look(CompletedFilter::ShowAll), ("ph-circle", ""));
    assert_eq!(completed_filter_look(CompletedFilter::ShowOnly), ("ph-check-circle", "is-active"));
    assert_eq!(completed_filter_look(CompletedFilter::Hide), ("ph-x-circle", "is-alert"));
}

#[test]
fn preference_keys() {
    assert_eq!(sort_preference_key(42), "podcast_42");
    assert_eq!(sort_preference_key(0), "episodes");
    assert_eq!(sort_preference_key(-5), "episodes");
    assert_eq!(completed_preference_key(42), "podcast_42_completed_filter");
}

#[test]
fn settings_inputs() {
    assert_eq!(auto_delete_days_input("30"), 30);
    assert_eq!(auto_delete_days_input("-4"), 0);
    assert_eq!(auto_delete_days_input("soon"), 0);
    assert_eq!(number_input_or_zero("15"), 15);
    assert_eq!(number_input_or_zero("-15"), -15);
    assert_eq!(number_input_or_zero(""), 0);
    assert_eq!(silence_threshold_input("4"), 4);
    assert_eq!(silence_threshold_input("x"), 2);
    assert_eq!(podcast_index_id_input("920666"), Some(920666));
    assert_eq!(podcast_index_id_input("abc"), None);
    assert_eq!(known_podcast_id(Some(3)), Some(3));
    assert_eq!(known_podcast_id(Some(0)), None);
    assert_eq!(known_podcast_id(None), None);
}

#[test]
fn category_editing() {
    assert_eq!(categories_to_string(&Some(vec!["Tech".to_string(), "News".to_string()])), Some("Tech, News".to_string()));
    assert_eq!(categories_to_string(&None), None);
    let cats = vec![
        ("1".to_string(), "Tech".to_string()),
        ("2".to_string(), "News".to_string()),
        ("3".to_string(), "Tech".to_string()),
    ];
    assert_eq!(remove_category(&cats, "Tech"), vec![("2".to_string(), "News".to_string())]);
    assert_eq!(remove_category(&cats, "Sports"), cats);
}

#[test]
fn status_sync_plans() {
    assert_eq!(status_sync_plan(10, 10), None);
    assert_eq!(status_sync_plan(0, 20), Some((true, 0)));
    assert_eq!(status_sync_plan(20, 30), Some((false, 20)));
    assert_eq!(status_sync_plan(30, 5), Some((true, 0)));
    assert_eq!(podcast_next_page_offset(true, 40), None);
    assert_eq!(podcast_next_page_offset(false, 40), Some(40));
    assert!(podcast_can_load_more(50, 120));
    assert!(!podcast_can_load_more(0, 120));
    assert!(!podcast_can_load_more(120, 120));
    assert!(!podcast_can_load_more(5, -1));
}

#[test]
fn rss_addresses() {
    assert_eq!(rss_base_url(&Some("https://app.example/podcasts/x".to_string()), &Some("https://srv.example".to_string())), "https://srv.example/rss");
    assert_eq!(rss_base_url(&Some("https://app.example/podcasts/x".to_string()), &None), "https://app.example/rss");
    assert_eq!(rss_base_url(&None, &None), "Unable to retrieve URL/rss");
    assert_eq!(rss_feed_url("https://srv.example/rss", Some(3), "KEY", 17), "https://srv.example/rss/3?api_key=KEY&podcast_id=17");
    assert_eq!(rss_feed_url("b", None, "k", 1), "b/0?api_key=k&podcast_id=1");
}

#[test]
fn description_markup_is_cleaned() {
    assert_eq!(sanitize_html("<p>Hi <script>alert(1)</script>there</p>"), "<p>Hi there</p>");
    assert_eq!(sanitize_html("Tom &amp; Jerry"), "Tom & Jerry");
    assert_eq!(description_element_id("My Show! #1"), "desc-My-Show---1");
}

#[test]
fn merge_and_selection_labels() {
    assert_eq!(merged_podcast_label(&Some("Daily".to_string()), 4), "Daily");
    assert_eq!(merged_podcast_label(&None, 4), "Podcast ID 4");
    assert_eq!(merge_button_label(3), "Merge 3 Podcasts");
    assert_eq!(selected_episodes_label(1), "1 episode selected");
    assert_eq!(selected_episodes_label(0), "0 episodes selected");
    assert_eq!(selected_episodes_label(25), "25 episodes selected");
}

#[test]
fn episode_list_key() {
    assert_eq!(episode_list_view_key(12, Some(EpisodeSortDirection::TitleZA), CompletedFilter::ShowOnly, true), "elv-12-z-c-true");
    assert_eq!(episode_list_view_key(-1, None, CompletedFilter::Hide, false), "elv--1-_-h-false");
}

fn person(name: &str, role: Option<&str>, img: Option<&str>) -> HostPerson {
    HostPerson { name: name.to_string(), role: role.map(|r| r.to_string()), img: img.map(|i| i.to_string()) }
}

#[test]
fn unknown_host_placeholder() {
    assert!(has_unknown_host(&vec![person("Unknown Host", Some("Host"), None)]));
    assert!(!has_unknown_host(&vec![person("Unknown Host", None, None)]));
    assert!(!has_unknown_host(&vec![person("Unknown Host", Some("Host"), None), person("Ann", None, None)]));
    assert!(!has_unknown_host(&vec![]));
}

#[test]
fn host_names_are_joined_with_ampersand() {
    assert_eq!(host_names_line(&vec![]), "");
    assert_eq!(host_names_line(&vec![person("Ann", None, None)]), "Ann");
    assert_eq!(host_names_line(&vec![person("Ann", None, None), person("Bo", None, None)]), "Ann & Bo");
    assert_eq!(
        host_names_line(&vec![person("Ann", None, None), person("Bo", None, None), person("Cy", None, None)]),
        "Ann, Bo & Cy"
    );
}

#[test]
fn host_addresses() {
    assert_eq!(host_page_url(&Some("https://people.example".to_string()), 920666), "https://people.example/podcast/920666");
    assert_eq!(host_page_url(&None, 5), "/podcast/5");
    assert_eq!(proxied_image_url("https://srv", "https://img.example/a b.png"), "https://srv/api/proxy/image?url=https%3A%2F%2Fimg.example%2Fa%20b.png");
    let urls = host_image_urls("s", &vec![person("Ann", None, Some("x?y")), person("Bo", None, None)]);
    assert_eq!(urls, vec![Some("s/api/proxy/image?url=x%3Fy".to_string()), None]);
}

fn current() -> PodcastCurrentInfo {
    PodcastCurrentInfo {
        feed_url: "https://feed.example/rss".to_string(),
        podcast_name: "Daily".to_string(),
        description: "News".to_string(),
        author: "Ann".to_string(),
        artwork_url: String::new(),
        website_url: "https://daily.example".to_string(),
        podcast_index_id: 920666,
    }
}

#[test]
fn saving_the_untouched_edit_form_sends_nothing() {
    let cur = current();
    let form = edit_form_for(&cur);
    assert_eq!(form.podcast_index_id, "920666");
    assert_eq!(form.username, "");
    assert_eq!(plan_podcast_edit(5, &form, &cur), PodcastEditPlan::NoChanges);
    assert_eq!(plan_podcast_edit(0, &form, &cur), PodcastEditPlan::NotLoaded);
}

#[test]
fn edit_form_sends_only_changed_fields() {
    let cur = current();
    let mut form = edit_form_for(&cur);
    form.podcast_name = "Daily Show".to_string();
    form.description = "   ".to_string();
    form.password = "secret".to_string();
    form.podcast_index_id = "77".to_string();
    match plan_podcast_edit(5, &form, &cur) {
        PodcastEditPlan::Send(u) => {
            assert_eq!(u.podcast_name.as_deref(), Some("Daily Show"));
            assert_eq!(u.description, None);
            assert_eq!(u.password.as_deref(), Some("secret"));
            assert_eq!(u.username, None);
            assert_eq!(u.feed_url, None);
            assert_eq!(u.podcast_index_id, Some(77));
        },
        other => panic!("unexpected {:?}", other),
    }
    let mut form = edit_form_for(&cur);
    form.podcast_index_id = "not a number".to_string();
    assert_eq!(plan_podcast_edit(5, &form, &cur), PodcastEditPlan::NoChanges);
}

#[test]
fn youtube_channels_are_removed_as_channels() {
    assert!(is_youtube_channel_feed("https://www.youtube.com/channel/UC123"));
    assert!(!is_youtube_channel_feed("https://youtube.com/channel/UC123"));
    assert!(!is_youtube_channel_feed("https://feed.example/rss"));
}
