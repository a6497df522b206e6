use std::collections::HashSet;

use pinepods_pages::downloads::{
    begin_podcast_load_more, contains_id, downloaded_count_label, downloads_filter, downloads_press_completed,
    downloads_press_in_progress, podcast_row_counts, toggle_podcast_expanded, PodcastEpisodeState,
};
use pinepods_pages::episodes::{
    add_completed_ids, episodes_from, status_of_page, sync_episode_status, EpisodeStatusState, completed_episode_ids, copy_episodes, episodes_of_podcasts, favorite_podcast_ids, feed_visible_episodes,
    history_visible_episodes, queued_episode_ids, saved_episodes, Episode, PodcastFavorite,
};
use pinepods_pages::feed::FeedState;
use pinepods_pages::history::StatusChips;
use pinepods_pages::selection::{
    all_episodes_selected, apply_group_checkbox, id_set, in_progress_ids, merge_selection_summary, position_of,
    select_newer, select_older, toggle_merge_selection, toggle_select_all, toggle_selection, unplayed_ids,
};
use pinepods_pages::sort::{stable_sort_order, SortKey};

fn ep(id: i32, podcast: i32) -> Episode {
    Episode {
        episodeid: id,
        podcastid: podcast,
        episodetitle: format!("Episode {}", id),
        episodedescription: String::new(),
        episodeduration: 60,
        listenduration: 0,
        listendate: None,
        completed: false,
        saved: false,
        queued: false,
    }
}

fn set(ids: &[i32]) -> HashSet<i32> {
    ids.iter().copied().collect()
}

fn ids(es: &[Episode]) -> Vec<i32> {
    es.iter().map(|e| e.episodeid).collect()
}

#[test]
fn status_sets_of_a_page() {
    let mut a = ep(1, 10);
    a.completed = true;
    a.saved = true;
    let mut b = ep(2, 10);
    b.queued = true;
    b.listenduration = 30;
    let mut c = ep(3, 11);
    c.saved = true;
    c.queued = true;
    let es = vec![a, b, c];
    assert_eq!(completed_episode_ids(&es), set(&[1]));
    assert_eq!(ids(&saved_episodes(&es)), vec![1, 3]);
    assert_eq!(queued_episode_ids(&es), vec![2, 3]);
    assert_eq!(unplayed_ids(&es), set(&[2, 3]));
    assert_eq!(in_progress_ids(&es), set(&[2]));
    assert_eq!(copy_episodes(&es), es);
}

#[test]
fn favourites_filter_feed_and_history() {
    let es = vec![ep(1, 10), ep(2, 11), ep(3, 10)];
    let pods = vec![
        PodcastFavorite { podcastid: 10, is_favorite: true },
        PodcastFavorite { podcastid: 11, is_favorite: false },
    ];
    let favs = favorite_podcast_ids(&pods);
    assert_eq!(favs, set(&[10]));
    assert_eq!(ids(&episodes_of_podcasts(&es, &favs)), vec![1, 3]);
    assert_eq!(ids(&feed_visible_episodes(&es, true, &favs)), vec![1, 3]);
    assert_eq!(ids(&feed_visible_episodes(&es, false, &favs)), vec![1, 2, 3]);
    assert_eq!(ids(&feed_visible_episodes(&es, true, &HashSet::new())), vec![1, 2, 3]);
    assert_eq!(ids(&history_visible_episodes(&es, true, &HashSet::new())), Vec::<i32>::new());
    assert_eq!(ids(&history_visible_episodes(&es, false, &favs)), vec![1, 2, 3]);
}

#[test]
fn ticking_an_episode_twice_restores_the_selection() {
    let before = set(&[4, 5]);
    let mut s = before.clone();
    toggle_selection(&mut s, 7);
    assert_eq!(s, set(&[4, 5, 7]));
    toggle_selection(&mut s, 7);
    assert_eq!(s, before);
    toggle_selection(&mut s, 4);
    assert_eq!(s, set(&[5]));
}

#[test]
fn select_older_and_newer_from_an_episode() {
    let list = vec![50, 40, 30, 20, 10];
    assert_eq!(position_of(&list, 30), Some(2));
    assert_eq!(position_of(&list, 99), None);
    let mut s = set(&[99]);
    select_older(&list, 30, &mut s);
    assert_eq!(s, set(&[99, 30, 20, 10]));
    let mut s = HashSet::new();
    select_newer(&list, 30, &mut s);
    assert_eq!(s, set(&[50, 40, 30]));
    let mut s = HashSet::new();
    select_older(&list, 77, &mut s);
    assert_eq!(s, set(&[50, 40, 30, 20, 10]));
    let mut s = HashSet::new();
    select_newer(&list, 77, &mut s);
    assert_eq!(s, set(&[50]));
}

#[test]
fn select_all_toggles() {
    let list = vec![1, 2, 3];
    assert_eq!(id_set(&list), set(&[1, 2, 3]));
    assert!(!all_episodes_selected(&list, &set(&[1, 2])));
    assert!(all_episodes_selected(&list, &set(&[1, 2, 3])));
    assert!(!all_episodes_selected(&list, &set(&[1, 2, 3, 4])));
    let mut s = set(&[1]);
    toggle_select_all(&list, &mut s);
    assert_eq!(s, set(&[1, 2, 3]));
    toggle_select_all(&list, &mut s);
    assert!(s.is_empty());
}

#[test]
fn podcast_checkbox_selects_or_clears_its_episodes() {
    let mut s = set(&[1, 100]);
    apply_group_checkbox(&mut s, &vec![1, 2, 3], true);
    assert_eq!(s, set(&[1, 2, 3, 100]));
    apply_group_checkbox(&mut s, &vec![1, 2, 3], false);
    assert_eq!(s, set(&[100]));
}

#[test]
fn podcast_checkbox_with_an_episode_listed_twice() {
    let mut s = HashSet::new();
    apply_group_checkbox(&mut s, &vec![5, 5], true);
    assert!(s.is_empty());
}

#[test]
fn merge_picker_toggles() {
    let chosen = vec![3, 8];
    let once = toggle_merge_selection(&chosen, 5);
    assert_eq!(once, vec![3, 8, 5]);
    assert_eq!(toggle_merge_selection(&once, 5), chosen);
    assert_eq!(toggle_merge_selection(&chosen, 3), vec![8]);
    assert_eq!(toggle_merge_selection(&vec![3, 8, 3], 3), vec![8, 3]);
    assert_eq!(merge_selection_summary(1), "1 podcast selected");
    assert_eq!(merge_selection_summary(0), "0 podcasts selected");
    assert_eq!(merge_selection_summary(12), "12 podcasts selected");
}

#[test]
fn stable_sort_keeps_ties_in_order() {
    let keys = vec![SortKey::Number(3), SortKey::Number(1), SortKey::Number(3), SortKey::Number(2)];
    assert_eq!(stable_sort_order(&keys, false), vec![1, 3, 0, 2]);
    assert_eq!(stable_sort_order(&keys, true), vec![0, 2, 3, 1]);
    let keys = vec![
        SortKey::Text("b".chars().collect()),
        SortKey::Text("B".chars().collect()),
        SortKey::Text("a".chars().collect()),
    ];
    assert_eq!(stable_sort_order(&keys, false), vec![1, 2, 0]);
    assert!(stable_sort_order(&Vec::new(), true).is_empty());
}

#[test]
fn feed_pages_continue_after_what_is_loaded() {
    let mut f = FeedState::from_first_page(vec![ep(1, 1), ep(2, 1)], 5);
    assert_eq!(f.offset, 2);
    assert!(f.backend_can_load_more());
    assert_eq!(f.next_page_offset(false), Some(2));
    assert_eq!(f.next_page_offset(true), None);
    let at = f.offset;
    f.apply_page(at, vec![ep(3, 1), ep(4, 1), ep(5, 1)], 5);
    assert_eq!(ids(&f.episodes), vec![1, 2, 3, 4, 5]);
    assert_eq!(f.offset, f.episodes.len() as i64);
    assert!(!f.backend_can_load_more());
    assert_eq!(f.next_page_offset(false), None);
}

#[test]
fn downloads_filter_words_and_chips() {
    assert_eq!(downloads_filter(true, true), "completed");
    assert_eq!(downloads_filter(false, true), "in_progress");
    assert_eq!(downloads_filter(false, false), "all");
    let c = StatusChips { show_completed: false, show_in_progress: true };
    let after = downloads_press_completed(c);
    assert_eq!(after, StatusChips { show_completed: true, show_in_progress: false });
    let after = downloads_press_in_progress(after);
    assert_eq!(after, StatusChips { show_completed: false, show_in_progress: true });
    let after = downloads_press_in_progress(after);
    assert_eq!(after, StatusChips { show_completed: false, show_in_progress: false });
}

#[test]
fn expanding_a_podcast_loads_once() {
    assert_eq!(toggle_podcast_expanded(false, false), (true, true));
    assert_eq!(toggle_podcast_expanded(false, true), (true, false));
    assert_eq!(toggle_podcast_expanded(true, true), (false, false));
}

#[test]
fn downloaded_podcast_pages() {
    let s = PodcastEpisodeState::new();
    assert!(s.episodes.is_empty() && s.offset == 0 && s.total == 0 && !s.loading_more);
    let s = PodcastEpisodeState::loading_first_page();
    assert!(s.loading_more);
    let mut s = PodcastEpisodeState::from_first_page(vec![ep(1, 7), ep(2, 7)], 4);
    assert_eq!(s.offset, 2);
    assert_eq!(s.begin_load_more(), Some(2));
    assert!(s.loading_more);
    assert_eq!(s.begin_load_more(), None);
    s.append_page(vec![ep(3, 7)], 4);
    assert_eq!(ids(&s.episodes), vec![1, 2, 3]);
    assert_eq!(s.offset, 3);
    assert!(!s.loading_more);
    assert_eq!(s.begin_load_more(), Some(3));
    s.load_failed();
    assert!(!s.loading_more);
    assert_eq!(s.offset, 3);
}

#[test]
fn deleted_episodes_leave_every_list() {
    let mut s = PodcastEpisodeState::from_first_page(vec![ep(1, 7), ep(2, 7), ep(3, 7)], 3);
    s.remove_deleted(&vec![2, 9]);
    assert_eq!(ids(&s.episodes), vec![1, 3]);
    assert_eq!(s.total, 1);
    assert_eq!(s.offset, 2);
    s.remove_deleted(&vec![1, 3, 4]);
    assert!(s.episodes.is_empty());
    assert_eq!(s.total, 0);
    assert_eq!(s.offset, 0);
    assert!(contains_id(&vec![1, 2], 2));
    assert!(!contains_id(&vec![], 2));
}

#[test]
fn load_more_for_a_podcast_row() {
    let mut none: Option<PodcastEpisodeState> = None;
    assert_eq!(begin_podcast_load_more(&mut none), Some(0));
    assert!(none.is_none());
    let mut some = Some(PodcastEpisodeState::from_first_page(vec![ep(1, 7)], 3));
    assert_eq!(begin_podcast_load_more(&mut some), Some(1));
    assert!(some.as_ref().unwrap().loading_more);
    assert_eq!(begin_podcast_load_more(&mut some), None);
}

#[test]
fn podcast_row_counts_and_label() {
    let counts = podcast_row_counts(&None, 12);
    assert_eq!(counts.total, 12);
    assert!(!counts.loading_more);
    let state = Some(PodcastEpisodeState::from_first_page(vec![ep(1, 7)], 3));
    let counts = podcast_row_counts(&state, 12);
    assert_eq!(counts.total, 3);
    assert!(counts.has_more);
    assert_eq!(downloaded_count_label(3), "3 Downloaded Episodes");
}

#[test]
fn status_sets_follow_loaded_episodes() {
    let mut a = ep(1, 1);
    a.completed = true;
    a.queued = true;
    let mut b = ep(2, 1);
    b.saved = true;
    let mut c = ep(3, 1);
    c.completed = true;
    c.saved = true;
    let mut state = EpisodeStatusState { completed: set(&[99]), saved: vec![ep(98, 2)], queued: None };
    assert_eq!(sync_episode_status(&mut state, &vec![a.clone(), b.clone()], 0), 2);
    assert_eq!(state.completed, set(&[1]));
    assert_eq!(ids(&state.saved), vec![2]);
    assert_eq!(state.queued, Some(vec![1]));
    assert_eq!(sync_episode_status(&mut state, &vec![a.clone(), b.clone()], 2), 2);
    assert_eq!(state.completed, set(&[1]));
    assert_eq!(sync_episode_status(&mut state, &vec![a.clone(), b.clone(), c.clone()], 2), 3);
    assert_eq!(state.completed, set(&[1, 3]));
    assert_eq!(ids(&state.saved), vec![2, 3]);
    assert_eq!(state.queued, Some(vec![1]));
    assert_eq!(sync_episode_status(&mut state, &vec![c.clone()], 3), 1);
    assert_eq!(state.completed, set(&[3]));
    assert_eq!(ids(&state.saved), vec![3]);
    assert_eq!(state.queued, Some(vec![]));
}

#[test]
fn first_feed_page_sets_status() {
    let mut a = ep(1, 1);
    a.queued = true;
    let s = status_of_page(&vec![a]);
    assert!(s.completed.is_empty());
    assert!(s.saved.is_empty());
    assert_eq!(s.queued, Some(vec![1]));
    let s = status_of_page(&Vec::new());
    assert_eq!(s.queued, Some(vec![]));
}

#[test]
fn completed_ids_are_added_and_tails_taken() {
    let mut done = ep(5, 1);
    done.completed = true;
    let mut s = set(&[1]);
    add_completed_ids(&mut s, &vec![ep(4, 1), done]);
    assert_eq!(s, set(&[1, 5]));
    let es = vec![ep(1, 1), ep(2, 1), ep(3, 1)];
    assert_eq!(ids(&episodes_from(&es, 1)), vec![2, 3]);
    assert!(episodes_from(&es, 3).is_empty());
}
