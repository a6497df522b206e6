use pinepods_pages::episodes::Episode;
use pinepods_pages::history::{
    clear_status_chips, filter_and_sort_history, history_press_completed, history_press_in_progress,
    history_sort_from_choice, history_sort_from_preference, HistorySortDirection, StatusChips,
};

fn ep(id: i32, title: &str, date: Option<&str>, duration: i32) -> Episode {
    Episode {
        episodeid: id,
        podcastid: 1,
        episodetitle: title.to_string(),
        episodedescription: format!("About {}", title),
        episodeduration: duration,
        listenduration: 0,
        listendate: date.map(|d| d.to_string()),
        completed: false,
        saved: false,
        queued: false,
    }
}

fn ids(es: &[Episode]) -> Vec<i32> {
    es.iter().map(|e| e.episodeid).collect()
}

fn sample() -> Vec<Episode> {
    let mut a = ep(1, "Rust Weekly", Some("2024-03-01"), 300);
    a.completed = true;
    let mut b = ep(2, "cooking basics", Some("2024-05-10"), 120);
    b.listenduration = 40;
    let c = ep(3, "Astronomy Hour", None, 300);
    let mut d = ep(4, "rust in depth", Some("2024-01-20"), 900);
    d.listenduration = 10;
    d.completed = true;
    vec![a, b, c, d]
}

const NONE: StatusChips = StatusChips { show_completed: false, show_in_progress: false };

#[test]
fn history_sort_words() {
    assert_eq!(history_sort_from_choice("newest"), Some(HistorySortDirection::NewestFirst));
    assert_eq!(history_sort_from_choice("oldest"), Some(HistorySortDirection::OldestFirst));
    assert_eq!(history_sort_from_choice("shortest"), Some(HistorySortDirection::ShortestFirst));
    assert_eq!(history_sort_from_choice("longest"), Some(HistorySortDirection::LongestFirst));
    assert_eq!(history_sort_from_choice("title_az"), Some(HistorySortDirection::TitleAZ));
    assert_eq!(history_sort_from_choice("title_za"), Some(HistorySortDirection::TitleZA));
    assert_eq!(history_sort_from_choice("Newest"), None);
    assert_eq!(history_sort_from_preference(&None), HistorySortDirection::NewestFirst);
    assert_eq!(history_sort_from_preference(&Some("bogus".to_string())), HistorySortDirection::NewestFirst);
}

#[test]
fn saved_history_order_is_restored() {
    for (word, d) in [
        ("newest", HistorySortDirection::NewestFirst),
        ("oldest", HistorySortDirection::OldestFirst),
        ("shortest", HistorySortDirection::ShortestFirst),
        ("longest", HistorySortDirection::LongestFirst),
        ("title_az", HistorySortDirection::TitleAZ),
        ("title_za", HistorySortDirection::TitleZA),
    ] {
        assert_eq!(history_sort_from_preference(&Some(word.to_string())), d);
    }
}

#[test]
fn history_chips() {
    let c = history_press_completed(NONE);
    assert_eq!(c, StatusChips { show_completed: true, show_in_progress: false });
    let c = history_press_in_progress(c);
    assert_eq!(c, StatusChips { show_completed: true, show_in_progress: true });
    let c = history_press_completed(c);
    assert_eq!(c, StatusChips { show_completed: false, show_in_progress: false });
    assert_eq!(clear_status_chips(), NONE);
}

#[test]
fn history_chips_exclusive_except_from_the_other_chip() {
    for c in [
        NONE,
        StatusChips { show_completed: true, show_in_progress: false },
        StatusChips { show_completed: true, show_in_progress: true },
    ] {
        let after = history_press_completed(c);
        assert!(!(after.show_completed && after.show_in_progress));
    }
    let after = history_press_completed(StatusChips { show_completed: false, show_in_progress: true });
    assert!(after.show_completed && after.show_in_progress);
}

#[test]
fn search_is_case_insensitive_over_title_and_description() {
    let es = sample();
    assert_eq!(ids(&filter_and_sort_history(&es, "RUST", None, NONE)), vec![1, 4]);
    assert_eq!(ids(&filter_and_sort_history(&es, "about cooking", None, NONE)), vec![2]);
    assert_eq!(ids(&filter_and_sort_history(&es, "", None, NONE)), vec![1, 2, 3, 4]);
    assert!(filter_and_sort_history(&es, "nothing matches", None, NONE).is_empty());
}

#[test]
fn status_chips_filter_history() {
    let es = sample();
    let completed = StatusChips { show_completed: true, show_in_progress: false };
    let in_progress = StatusChips { show_completed: false, show_in_progress: true };
    let both = StatusChips { show_completed: true, show_in_progress: true };
    assert_eq!(ids(&filter_and_sort_history(&es, "", None, completed)), vec![1, 4]);
    assert_eq!(ids(&filter_and_sort_history(&es, "", None, in_progress)), vec![2]);
    assert_eq!(ids(&filter_and_sort_history(&es, "", None, both)), vec![1, 4]);
    assert_eq!(ids(&filter_and_sort_history(&es, "rust", None, completed)), vec![1, 4]);
}

#[test]
fn history_orders_are_stable() {
    let es = sample();
    let by = |d| ids(&filter_and_sort_history(&es, "", Some(d), NONE));
    assert_eq!(by(HistorySortDirection::NewestFirst), vec![2, 1, 4, 3]);
    assert_eq!(by(HistorySortDirection::OldestFirst), vec![3, 4, 1, 2]);
    assert_eq!(by(HistorySortDirection::ShortestFirst), vec![2, 1, 3, 4]);
    assert_eq!(by(HistorySortDirection::LongestFirst), vec![4, 1, 3, 2]);
    assert_eq!(by(HistorySortDirection::TitleAZ), vec![3, 1, 2, 4]);
    assert_eq!(by(HistorySortDirection::TitleZA), vec![4, 2, 1, 3]);
}
